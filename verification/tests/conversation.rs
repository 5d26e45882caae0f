use tempestarii::agent::run_conversation;
use tempestarii::microchip::{MicrochipPlugin, MicrochipPluginMessage};
use tempestarii::plugins::Plugin;

fn fresh_plugin() -> MicrochipPlugin {
    MicrochipPlugin {
        public_key: Vec::new(),
        private_key: Vec::new(),
        command_pool: Vec::new(),
        shutdown: false,
    }
}

fn reply_with_key(key: Vec<u8>) -> MicrochipPluginMessage {
    MicrochipPluginMessage {
        shellcode: Vec::new(),
        source: "Server 1".to_string(),
        destination: "Agent 1".to_string(),
        agency_key: key,
    }
}

#[test]
fn chain_two_continues_and_an_end_makes_three_exchanges() {
    let plugin = fresh_plugin();
    // The step function continues on the handshake tag and ends on
    // anything else: a script of [continue, continue, end].
    let replies = vec![
        reply_with_key(vec![1, 2, 3]),
        reply_with_key(vec![1, 2, 3]),
        reply_with_key(Vec::new()),
    ];
    let (sent, exchanges, done) = run_conversation(&plugin, &replies).unwrap();
    assert_eq!(exchanges, 3);
    assert!(done);
    assert_eq!(sent.len(), 3);
    // The heartbeat opens the conversation.
    let heartbeat = plugin.generate_heartbeat().unwrap();
    assert_eq!(sent[0], heartbeat);
    // Each continuation answers with the reversed tag.
    assert_eq!(sent[1].agency_key, vec![3, 2, 1]);
    assert_eq!(sent[1].source, "Agent 1");
    assert_eq!(sent[1].destination, "Server 1");
    assert_eq!(sent[2], sent[1]);
    // After the delay the next conversation opens with a fresh heartbeat.
    let again = run_conversation(&plugin, &replies).unwrap();
    assert_eq!(again.0[0], heartbeat);
    assert_eq!(again.1, 3);
}

#[test]
fn chain_ends_at_once_on_a_final_reply() {
    let plugin = fresh_plugin();
    let replies = vec![reply_with_key(vec![9, 9, 9])];
    let (sent, exchanges, done) = run_conversation(&plugin, &replies).unwrap();
    assert_eq!(exchanges, 1);
    assert!(done);
    assert_eq!(sent.len(), 1);
    assert_eq!(sent[0], plugin.generate_heartbeat().unwrap());
}

#[test]
fn chain_running_out_of_replies_is_incomplete() {
    let plugin = fresh_plugin();
    let replies = vec![reply_with_key(vec![1, 2, 3]), reply_with_key(vec![1, 2, 3])];
    let (sent, exchanges, done) = run_conversation(&plugin, &replies).unwrap();
    assert_eq!(exchanges, 2);
    assert!(!done);
    // Heartbeat plus two continuations went out; the last still awaits a
    // reply the script never gave.
    assert_eq!(sent.len(), 3);
}

#[test]
fn chain_empty_script_sends_only_the_heartbeat() {
    let plugin = fresh_plugin();
    let replies = Vec::new();
    let (sent, exchanges, done) = run_conversation(&plugin, &replies).unwrap();
    assert_eq!(exchanges, 0);
    assert!(!done);
    assert_eq!(sent.len(), 1);
}

#[test]
fn heartbeat_is_addressed_to_the_server() {
    let plugin = fresh_plugin();
    let heartbeat = plugin.generate_heartbeat().unwrap();
    assert_eq!(heartbeat.destination, "Tempestarii");
    assert_eq!(heartbeat.source, "");
    assert!(heartbeat.shellcode.is_empty());
    assert!(heartbeat.agency_key.is_empty());
}

#[test]
fn agent_step_continues_only_on_the_handshake_tag() {
    let plugin = fresh_plugin();
    let next = plugin.agent_runtime(reply_with_key(vec![1, 2, 3])).unwrap();
    let m = next.unwrap();
    assert_eq!(m.agency_key, vec![3, 2, 1]);
    assert!(plugin.agent_runtime(reply_with_key(vec![1, 2])).unwrap().is_none());
    assert!(plugin.agent_runtime(reply_with_key(vec![1, 2, 4])).unwrap().is_none());
    assert!(plugin.agent_runtime(reply_with_key(vec![1, 2, 3, 4])).unwrap().is_none());
    assert!(plugin.agent_runtime(reply_with_key(Vec::new())).unwrap().is_none());
}
