//! The server's two per-message paths.
//!
//! The data plane accepts one self-contained datagram, runs the plugin's
//! server step under a shared-read view of the state, and produces exactly
//! one reply; an oversized datagram is a protocol violation and is
//! rejected outright, never truncated or reassembled.  The control plane
//! reads one full request stream, runs the pool handler under exclusive
//! access, and answers with one serialized reply plus the shutdown
//! observation.  The sockets, the accept loops and the reader/writer lock
//! live outside the library; these functions are the whole decision path
//! between the bytes received and the bytes sent back.

use vstd::prelude::*;
use crate::errors::CoreError;
use crate::microchip::{
    spec_de_plugin_message, spec_de_system_message, spec_pool_handler, spec_ser_plugin_message,
    spec_ser_system_message, system_message_fits, MicrochipPlugin, MicrochipPluginMessage,
    MicrochipSystemMessage,
};
use crate::plugins::{downcast_plugin_message, downcast_system_message, Plugin, PluginMessage,
    SystemMessage};

verus! {

/// The per-datagram payload ceiling: what fits one datagram under typical
/// path assumptions (a 576-byte transmission unit less the protocol
/// headers).
pub const MAX_DATAGRAM_PAYLOAD: usize = 508;

/// Handle one inbound datagram on the data plane: reject an oversized
/// payload, decode the message, take the plugin's server step, and encode
/// exactly one reply.  The pool is never mutated on this path, and every
/// datagram that fits the ceiling and decodes is answered: the Microchip
/// reply is proved always representable.
pub fn server_handle_datagram(plugin: &MicrochipPlugin, datagram: Vec<u8>) -> (r: Result<
    Vec<u8>,
    CoreError,
>)
    ensures
        match r {
            Ok(reply) => {
                &&& datagram@.len() <= MAX_DATAGRAM_PAYLOAD
                &&& spec_de_plugin_message(datagram@) matches Some(m) && reply@
                    == spec_ser_plugin_message(plugin.spec_server_step(m))
            },
            Err(e) => {
                if datagram@.len() > MAX_DATAGRAM_PAYLOAD {
                    e == CoreError::OversizedPayload
                } else {
                    e == CoreError::DecodingError && spec_de_plugin_message(datagram@) is None
                }
            },
        },
{
    if datagram.len() > MAX_DATAGRAM_PAYLOAD {
        return Err(CoreError::OversizedPayload);
    }
    let message = match MicrochipPluginMessage::deserialize(datagram) {
        Ok(m) => m,
        Err(e) => {
            return Err(e);
        },
    };
    let ghost inbound = message@;
    let reply = match plugin.server_runtime(message) {
        Ok(m) => m,
        Err(e) => {
            return Err(e);
        },
    };
    let reply = match downcast_plugin_message(&reply, MicrochipPluginMessage::binding_id()) {
        Ok(m) => m,
        Err(e) => {
            return Err(e);
        },
    };
    match reply.serialize() {
        Ok(bytes) => Ok(bytes),
        Err(e) => {
            proof {
                crate::microchip::lemma_server_reply_fits(plugin, inbound);
            }
            Err(e)
        },
    }
}

/// Handle one control-plane exchange: decode the request envelope, run
/// the pool handler under exclusive access, encode the reply, and
/// evaluate the shutdown observation.  This is the only path that
/// mutates the pool; a decoding failure leaves it untouched, and a
/// shutdown once requested stays requested.
pub fn handle_client(plugin: &mut MicrochipPlugin, rx_bytes: Vec<u8>) -> (r: Result<
    (Vec<u8>, bool),
    CoreError,
>)
    ensures
        old(plugin)@.shutdown ==> final(plugin)@.shutdown,
        match r {
            Ok((tx_bytes, quit)) => {
                &&& spec_de_system_message(rx_bytes@) matches Some(m) && final(plugin)@
                    == spec_pool_handler(old(plugin)@, m).0 && tx_bytes@
                    == spec_ser_system_message(spec_pool_handler(old(plugin)@, m).1)
                &&& quit == final(plugin)@.shutdown
            },
            Err(e) => {
                if spec_de_system_message(rx_bytes@) is None {
                    e == CoreError::DecodingError && *final(plugin) == *old(plugin)
                } else {
                    e == CoreError::EncodingError && final(plugin)@ == spec_pool_handler(
                        old(plugin)@,
                        spec_de_system_message(rx_bytes@).unwrap(),
                    ).0 && !system_message_fits(
                        spec_pool_handler(
                            old(plugin)@,
                            spec_de_system_message(rx_bytes@).unwrap(),
                        ).1,
                    )
                }
            },
        },
{
    let rx_data = match MicrochipSystemMessage::deserialize(rx_bytes) {
        Ok(m) => m,
        Err(e) => {
            return Err(e);
        },
    };
    let tx_data = match plugin.pool_handler(rx_data) {
        Ok(m) => m,
        Err(e) => {
            return Err(e);
        },
    };
    let tx_message = match downcast_system_message(&tx_data, MicrochipSystemMessage::binding_id()) {
        Ok(m) => m,
        Err(e) => {
            return Err(e);
        },
    };
    let tx_bytes = match tx_message.serialize() {
        Ok(b) => b,
        Err(e) => {
            return Err(e);
        },
    };
    let quit = match plugin.shutdown_check() {
        Ok(b) => b,
        Err(e) => {
            return Err(e);
        },
    };
    Ok((tx_bytes, quit))
}

} // verus!
