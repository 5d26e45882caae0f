//! The agent-side conversation driver.
//!
//! A conversation is a chain of request/reply exchanges on the data plane:
//! the agent sends the plugin's heartbeat, awaits one reply, and feeds it
//! to the plugin's step function; a returned message continues the chain,
//! nothing ends it.  The networking around the chain (transmitting each
//! message over a freshly bound ephemeral endpoint, blocking for the one
//! in-flight reply, and the inter-conversation delay) lives outside the
//! library; the driver here runs the whole decision chain against the
//! sequence of replies the transport handed back, and is proved to
//! perform exactly the exchanges the plugin's step function dictates.

use vstd::prelude::*;
use crate::errors::CoreError;
use crate::plugins::{Plugin, PluginMessage};

verus! {

/// The view of each message in a sequence.
pub open spec fn message_views<M: View>(ms: Seq<M>) -> Seq<M::V> {
    ms.map_values(|m: M| m@)
}

/// How a conversation runs against a script of replies: the number of
/// completed exchanges, and whether the chain ended of its own accord
/// (rather than running out of replies).
pub open spec fn spec_conversation<P: Plugin>(
    plugin: &P,
    replies: Seq<<P::PluginMessage as View>::V>,
) -> (nat, bool)
    decreases replies.len(),
{
    if replies.len() == 0 {
        (0nat, false)
    } else {
        match plugin.spec_agent_step(replies[0]) {
            None => (1nat, true),
            Some(m) => {
                let (n, done) = spec_conversation(plugin, replies.drop_first());
                ((n + 1) as nat, done)
            },
        }
    }
}

/// The chain continuations a conversation sends after the heartbeat.
pub open spec fn spec_chain_sent<P: Plugin>(
    plugin: &P,
    replies: Seq<<P::PluginMessage as View>::V>,
) -> Seq<<P::PluginMessage as View>::V>
    decreases replies.len(),
{
    if replies.len() == 0 {
        Seq::empty()
    } else {
        match plugin.spec_agent_step(replies[0]) {
            None => Seq::empty(),
            Some(m) => seq![m] + spec_chain_sent(plugin, replies.drop_first()),
        }
    }
}

/// Everything a conversation sends: the heartbeat, then the chain.
pub open spec fn spec_sent_messages<P: Plugin>(
    plugin: &P,
    replies: Seq<<P::PluginMessage as View>::V>,
) -> Seq<<P::PluginMessage as View>::V> {
    seq![plugin.spec_heartbeat()] + spec_chain_sent(plugin, replies)
}

/// Chain termination law: when the plugin's step function continues on
/// the first two replies and ends on the third, a conversation performs
/// exactly three request/reply exchanges and completes of its own accord;
/// the transcript is the heartbeat followed by the two continuations.
/// Every conversation, this one's restart included, sends the plugin's
/// fresh heartbeat first.
pub proof fn lemma_chain_termination<P: Plugin>(
    plugin: &P,
    replies: Seq<<P::PluginMessage as View>::V>,
)
    requires
        replies.len() == 3,
        plugin.spec_agent_step(replies[0]) is Some,
        plugin.spec_agent_step(replies[1]) is Some,
        plugin.spec_agent_step(replies[2]) is None,
    ensures
        spec_conversation(plugin, replies) == (3nat, true),
        spec_sent_messages(plugin, replies) == seq![
            plugin.spec_heartbeat(),
            plugin.spec_agent_step(replies[0]).unwrap(),
            plugin.spec_agent_step(replies[1]).unwrap(),
        ],
        forall|later: Seq<<P::PluginMessage as View>::V>|
            #[trigger] spec_sent_messages(plugin, later)[0] == plugin.spec_heartbeat(),
{
    let r1 = replies.drop_first();
    let r2 = r1.drop_first();
    assert(r1[0] == replies[1]);
    assert(r2[0] == replies[2]);
    assert(r2.drop_first().len() == 0);
    assert(spec_conversation(plugin, r2) == (1nat, true));
    assert(spec_conversation(plugin, r1) == (2nat, true));
    assert(spec_conversation(plugin, replies) == (3nat, true));
    assert(spec_chain_sent(plugin, r2) == Seq::<<P::PluginMessage as View>::V>::empty());
    assert(spec_chain_sent(plugin, r1) == seq![plugin.spec_agent_step(replies[1]).unwrap()]
        + Seq::<<P::PluginMessage as View>::V>::empty());
    assert(spec_sent_messages(plugin, replies) =~= seq![
        plugin.spec_heartbeat(),
        plugin.spec_agent_step(replies[0]).unwrap(),
        plugin.spec_agent_step(replies[1]).unwrap(),
    ]);
    assert forall|later: Seq<<P::PluginMessage as View>::V>|
        #[trigger] spec_sent_messages(plugin, later)[0] == plugin.spec_heartbeat() by {
        assert(spec_sent_messages(plugin, later)[0] == (seq![plugin.spec_heartbeat()]
            + spec_chain_sent(plugin, later))[0]);
    }
}

/// Run one conversation against a script of replies.
///
/// Returns the transcript of sent messages (the heartbeat first), the
/// number of request/reply exchanges performed, and whether the chain
/// completed.  A scripted step function that continues twice and then
/// ends makes exactly three exchanges; the next conversation starts with
/// a fresh heartbeat again.  A failing plugin call aborts only this
/// conversation.
pub fn run_conversation<P: Plugin>(plugin: &P, replies: &Vec<P::PluginMessage>) -> (r: Result<
    (Vec<P::PluginMessage>, usize, bool),
    CoreError,
>)
    ensures
        match r {
            Ok((sent, exchanges, done)) => {
                &&& message_views(sent@) == spec_sent_messages(
                    plugin,
                    message_views(replies@),
                )
                &&& exchanges as nat == spec_conversation(plugin, message_views(replies@)).0
                &&& done == spec_conversation(plugin, message_views(replies@)).1
            },
            Err(e) => true,
        },
{
    let ghost rviews = message_views(replies@);
    let mut sent: Vec<P::PluginMessage> = Vec::new();
    let heartbeat = match plugin.generate_heartbeat() {
        Ok(m) => m,
        Err(e) => {
            return Err(e);
        },
    };
    sent.push(heartbeat);
    proof {
        assert(message_views(sent@) =~= seq![plugin.spec_heartbeat()]);
        assert(rviews.skip(0) =~= rviews);
    }
    let mut i: usize = 0;
    while i < replies.len()
        invariant
            i <= replies.len(),
            rviews == message_views(replies@),
            rviews.len() == replies@.len(),
            spec_conversation(plugin, rviews) == (
                (
                    (i + spec_conversation(plugin, rviews.skip(i as int)).0) as nat,
                    spec_conversation(plugin, rviews.skip(i as int)).1,
                )
            ),
            spec_sent_messages(plugin, rviews) == message_views(sent@) + spec_chain_sent(
                plugin,
                rviews.skip(i as int),
            ),
        decreases replies.len() - i,
    {
        let ghost tail = rviews.skip(i as int);
        proof {
            assert(tail.len() == rviews.len() - i);
            assert(tail[0] == rviews[i as int]);
            assert(tail.drop_first() =~= rviews.skip(i as int + 1));
            assert(rviews[i as int] == replies@[i as int]@);
        }
        let reply = replies[i].duplicate();
        match plugin.agent_runtime(reply) {
            Ok(next) => match next {
                Some(m) => {
                    let ghost sent_pre = message_views(sent@);
                    sent.push(m);
                    proof {
                        assert(message_views(sent@) =~= sent_pre.push(
                            plugin.spec_agent_step(tail[0]).unwrap(),
                        ));
                        assert(spec_chain_sent(plugin, tail) == seq![
                            plugin.spec_agent_step(tail[0]).unwrap(),
                        ] + spec_chain_sent(plugin, tail.drop_first()));
                        assert(sent_pre + (seq![plugin.spec_agent_step(tail[0]).unwrap()]
                            + spec_chain_sent(plugin, tail.drop_first())) =~= (sent_pre.push(
                            plugin.spec_agent_step(tail[0]).unwrap(),
                        )) + spec_chain_sent(plugin, tail.drop_first()));
                    }
                    i = i + 1;
                },
                None => {
                    proof {
                        assert(spec_conversation(plugin, tail) == (1nat, true));
                        assert(spec_chain_sent(plugin, tail) == Seq::<
                            <P::PluginMessage as View>::V,
                        >::empty());
                        assert(message_views(sent@) + Seq::<
                            <P::PluginMessage as View>::V,
                        >::empty() =~= message_views(sent@));
                    }
                    return Ok((sent, i + 1, true));
                },
            },
            Err(e) => {
                return Err(e);
            },
        }
    }
    proof {
        assert(rviews.skip(rviews.len() as int) =~= Seq::<<P::PluginMessage as View>::V>::empty());
        assert(spec_conversation(plugin, rviews.skip(i as int)) == (
            0nat,
            false,
        ));
        assert(spec_chain_sent(plugin, rviews.skip(i as int)) == Seq::<
            <P::PluginMessage as View>::V,
        >::empty());
        assert(message_views(sent@) + Seq::<<P::PluginMessage as View>::V>::empty()
            =~= message_views(sent@));
    }
    Ok((sent, i, false))
}

} // verus!
