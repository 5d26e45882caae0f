//! The generic plugin and message abstraction.
//!
//! The runtime loops are written once and operate over "a plugin"
//! generically; a deployment binds them to one concrete implementation at
//! compile time.  Each trait carries the contract the loops rely on: the
//! codecs come with round-trip fidelity as a proof obligation of every
//! implementation, and the pool handler may never reset a shutdown that
//! was requested.
//!
//! Because the binding is resolved at compile time, recovering the concrete
//! message type behind the generic interface cannot produce ill-typed data;
//! what remains of runtime type recovery is an explicit check of the
//! binding tag carried by every message kind, which fails loudly with
//! [`CoreError::TypeMismatchError`] when a loop is wired to the wrong
//! plugin instead of silently passing mistyped data along.

use vstd::prelude::*;
use crate::cli::{Request, RequestModel};
use crate::errors::CoreError;

verus! {

/// The wire-level contract every data-plane message kind implements.
pub trait PluginMessage: View + Sized {
    /// True when the message's state can be represented on the wire.
    spec fn wf(m: Self::V) -> bool;

    /// What serialization produces, for representable state.
    spec fn spec_ser(m: Self::V) -> Seq<u8>;

    /// What deserialization recovers from a payload, if anything.
    spec fn spec_de(bytes: Seq<u8>) -> Option<Self::V>;

    /// The tag identifying this concrete message binding.
    spec fn spec_binding() -> u64;

    /// Round-trip fidelity: deserializing a serialized message recovers
    /// exactly the message that was serialized.
    proof fn lemma_round_trip(m: Self::V)
        requires
            Self::wf(m),
        ensures
            Self::spec_de(Self::spec_ser(m)) == Some(m),
    ;

    /// Serialize; fails exactly when the state cannot be represented.
    fn serialize(&self) -> (r: Result<Vec<u8>, CoreError>)
        ensures
            match r {
                Ok(b) => Self::wf(self@) && b@ == Self::spec_ser(self@),
                Err(e) => e == CoreError::EncodingError && !Self::wf(self@),
            },
    ;

    /// Deserialize; fails exactly on truncated or malformed input.
    fn deserialize(bytes: Vec<u8>) -> (r: Result<Self, CoreError>)
        ensures
            match r {
                Ok(m) => Self::spec_de(bytes@) == Some(m@),
                Err(e) => e == CoreError::DecodingError && Self::spec_de(bytes@) is None,
            },
    ;

    /// The binding tag, as a runtime value.
    fn binding_id() -> (r: u64)
        ensures
            r == Self::spec_binding(),
    ;

    /// A structural duplicate: the loops both record and forward messages.
    fn duplicate(&self) -> (r: Self)
        ensures
            r@ == self@,
    ;
}

/// The wire-level contract of the control-plane envelope, which
/// additionally wraps a bare [`Request`] into an addressed message.
pub trait SystemMessage: View + Sized {
    /// True when the message's state can be represented on the wire.
    spec fn wf(m: Self::V) -> bool;

    /// What serialization produces, for representable state.
    spec fn spec_ser(m: Self::V) -> Seq<u8>;

    /// What deserialization recovers from a payload, if anything.
    spec fn spec_de(bytes: Seq<u8>) -> Option<Self::V>;

    /// What wrapping a request into an envelope produces.
    spec fn spec_generate(request: RequestModel) -> Self::V;

    /// The tag identifying this concrete message binding.
    spec fn spec_binding() -> u64;

    /// Round-trip fidelity: deserializing a serialized message recovers
    /// exactly the message that was serialized.
    proof fn lemma_round_trip(m: Self::V)
        requires
            Self::wf(m),
        ensures
            Self::spec_de(Self::spec_ser(m)) == Some(m),
    ;

    /// Serialize; fails exactly when the state cannot be represented.
    fn serialize(&self) -> (r: Result<Vec<u8>, CoreError>)
        ensures
            match r {
                Ok(b) => Self::wf(self@) && b@ == Self::spec_ser(self@),
                Err(e) => e == CoreError::EncodingError && !Self::wf(self@),
            },
    ;

    /// Deserialize; fails exactly on truncated or malformed input.
    fn deserialize(bytes: Vec<u8>) -> (r: Result<Self, CoreError>)
        ensures
            match r {
                Ok(m) => Self::spec_de(bytes@) == Some(m@),
                Err(e) => e == CoreError::DecodingError && Self::spec_de(bytes@) is None,
            },
    ;

    /// Wrap a request into an addressed envelope.
    fn generate(request: Request) -> (r: Result<Self, CoreError>)
        ensures
            r matches Ok(m) ==> m@ == Self::spec_generate(request@),
    ;

    /// The binding tag, as a runtime value.
    fn binding_id() -> (r: u64)
        ensures
            r == Self::spec_binding(),
    ;
}

/// The behavioral contract a concrete plugin supplies: heartbeat
/// generation, the two protocol step functions, the pool-mutation handler,
/// and shutdown observation.
///
/// Any method may fail with a domain error; a failure aborts only the
/// current exchange or conversation.  Whatever else the pool handler does,
/// it never resets a shutdown that was requested.
pub trait Plugin: Sized {
    type PluginMessage: PluginMessage;

    type SystemMessage: SystemMessage;

    /// The heartbeat message that begins each conversation.
    spec fn spec_heartbeat(&self) -> <Self::PluginMessage as View>::V;

    /// The agent's decision on a server reply: the next message to send,
    /// or nothing when the conversation is complete.
    spec fn spec_agent_step(&self, message: <Self::PluginMessage as View>::V) -> Option<
        <Self::PluginMessage as View>::V,
    >;

    /// The server's reply to one inbound datagram.
    spec fn spec_server_step(&self, message: <Self::PluginMessage as View>::V)
        -> <Self::PluginMessage as View>::V;

    /// Whether shutdown has been requested of this plugin.
    spec fn spec_shutdown(&self) -> bool;

    /// First message of a new conversation; no I/O of its own.
    fn generate_heartbeat(&self) -> (r: Result<Self::PluginMessage, CoreError>)
        ensures
            r matches Ok(m) ==> m@ == self.spec_heartbeat(),
    ;

    /// One agent-side state-machine step.  A returned message means:
    /// send it, await a reply, step again.  Nothing means the
    /// conversation is complete.
    fn agent_runtime(&self, message: Self::PluginMessage) -> (r: Result<
        Option<Self::PluginMessage>,
        CoreError,
    >)
        ensures
            match r {
                Ok(next) => match next {
                    Some(m) => self.spec_agent_step(message@) == Some(m@),
                    None => self.spec_agent_step(message@) is None,
                },
                Err(e) => true,
            },
    ;

    /// A stateless-per-datagram transition: exactly one reply per inbound
    /// datagram.
    fn server_runtime(&self, message: Self::PluginMessage) -> (r: Result<
        Self::PluginMessage,
        CoreError,
    >)
        ensures
            r matches Ok(reply) ==> reply@ == self.spec_server_step(message@),
    ;

    /// The sole operation permitted to mutate the command pool; it runs
    /// under exclusive access.  Once shutdown has been requested it stays
    /// requested.
    fn pool_handler(&mut self, message: Self::SystemMessage) -> (r: Result<
        Self::SystemMessage,
        CoreError,
    >)
        ensures
            old(self).spec_shutdown() ==> final(self).spec_shutdown(),
    ;

    /// Read-only shutdown observation, evaluated once per completed
    /// control-plane exchange.
    fn shutdown_check(&self) -> (r: Result<bool, CoreError>)
        ensures
            r matches Ok(b) ==> b == self.spec_shutdown(),
    ;
}

/// Access to the binding tag of a data-plane message value, however the
/// value is typed; every message kind gets it for free.
pub trait AsAnyPluginMessage {
    /// The binding tag this value carries.
    spec fn binding_of(&self) -> u64;

    /// The binding tag, as a runtime value.
    fn as_binding(&self) -> (r: u64)
        ensures
            r == self.binding_of(),
    ;
}

impl<T: PluginMessage> AsAnyPluginMessage for T {
    open spec fn binding_of(&self) -> u64 {
        T::spec_binding()
    }

    fn as_binding(&self) -> (r: u64) {
        T::binding_id()
    }
}

/// Access to the binding tag of a control-plane message value, however the
/// value is typed; every message kind gets it for free.
pub trait AsAnySystemMessage {
    /// The binding tag this value carries.
    spec fn binding_of(&self) -> u64;

    /// The binding tag, as a runtime value.
    fn as_binding(&self) -> (r: u64)
        ensures
            r == self.binding_of(),
    ;
}

impl<T: SystemMessage> AsAnySystemMessage for T {
    open spec fn binding_of(&self) -> u64 {
        T::spec_binding()
    }

    fn as_binding(&self) -> (r: u64) {
        T::binding_id()
    }
}

/// Recover a data-plane message for the binding a loop expects.  The
/// message is handed back only when its concrete binding matches; a
/// mismatch is a wiring bug and fails loudly rather than passing
/// ill-typed data along.
pub fn downcast_plugin_message<T: AsAnyPluginMessage + PluginMessage>(
    message: &T,
    expected: u64,
) -> (r: Result<&T, CoreError>)
    ensures
        match r {
            Ok(m) => m == message && message.binding_of() == expected,
            Err(e) => e == CoreError::TypeMismatchError && message.binding_of() != expected,
        },
{
    if message.as_binding() == expected {
        Ok(message)
    } else {
        Err(CoreError::TypeMismatchError)
    }
}

/// Recover a control-plane message for the binding a loop expects, in the
/// same way.
pub fn downcast_system_message<T: AsAnySystemMessage + SystemMessage>(
    message: &T,
    expected: u64,
) -> (r: Result<&T, CoreError>)
    ensures
        match r {
            Ok(m) => m == message && message.binding_of() == expected,
            Err(e) => e == CoreError::TypeMismatchError && message.binding_of() != expected,
        },
{
    if message.as_binding() == expected {
        Ok(message)
    } else {
        Err(CoreError::TypeMismatchError)
    }
}

} // verus!
