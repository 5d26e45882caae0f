//! The controller's command vocabulary and its dispatch decision.
//!
//! The interactive line editing and argument parsing live outside the
//! library; what is verified here is the decision they feed: which
//! control-plane request each parsed command becomes, and whether the
//! controller exits after the exchange.  Only the quit command ends the
//! controller; every other command leaves it running.

use vstd::prelude::*;
use crate::cli;
use crate::cli::{Request, RequestModel};

verus! {

/// Arguments of the queue command: the command text to register.
#[derive(Clone, Debug, PartialEq, Eq)]
pub struct Queue {
    pub command: String,
}

/// Arguments of the dequeue command: the command text to retract.
#[derive(Clone, Debug, PartialEq, Eq)]
pub struct Dequeue {
    pub command: String,
}

/// Arguments of the quit command: whether to ask for destructive teardown.
#[derive(Clone, Debug, PartialEq, Eq)]
pub struct Quit {
    pub destroy: bool,
}

/// One parsed controller command.
#[derive(Clone, Debug, PartialEq, Eq)]
pub enum Commands {
    /// Queue a command, to be delivered when a target heartbeat arrives.
    Queue(Queue),
    /// Dequeue a command from specific targets or from all of them.
    Dequeue(Dequeue),
    /// Toggle the lock on the named targets.
    Lock,
    /// List the commands queued for specific targets or for all of them.
    List,
    /// Close the controller, optionally asking the server to shut down.
    Quit(Quit),
}

/// One parsed controller invocation: the command and the targets it
/// applies to.
#[derive(Clone, Debug, PartialEq, Eq)]
pub struct Tempestarii {
    pub command: Commands,
    pub targets: Vec<String>,
}

/// The mathematical model of [`Queue`].
pub struct QueueArgModel {
    pub command: Seq<char>,
}

/// The mathematical model of [`Dequeue`].
pub struct DequeueArgModel {
    pub command: Seq<char>,
}

/// The mathematical model of [`Quit`].
pub struct QuitArgModel {
    pub destroy: bool,
}

/// The mathematical model of [`Commands`].
pub enum CommandsModel {
    Queue(QueueArgModel),
    Dequeue(DequeueArgModel),
    Lock,
    List,
    Quit(QuitArgModel),
}

/// The mathematical model of [`Tempestarii`].
pub struct TempestariiModel {
    pub command: CommandsModel,
    pub targets: Seq<Seq<char>>,
}

impl View for Queue {
    type V = QueueArgModel;

    open spec fn view(&self) -> QueueArgModel {
        QueueArgModel { command: self.command@ }
    }
}

impl View for Dequeue {
    type V = DequeueArgModel;

    open spec fn view(&self) -> DequeueArgModel {
        DequeueArgModel { command: self.command@ }
    }
}

impl View for Quit {
    type V = QuitArgModel;

    open spec fn view(&self) -> QuitArgModel {
        QuitArgModel { destroy: self.destroy }
    }
}

impl View for Commands {
    type V = CommandsModel;

    open spec fn view(&self) -> CommandsModel {
        match self {
            Commands::Queue(q) => CommandsModel::Queue(q@),
            Commands::Dequeue(d) => CommandsModel::Dequeue(d@),
            Commands::Lock => CommandsModel::Lock,
            Commands::List => CommandsModel::List,
            Commands::Quit(q) => CommandsModel::Quit(q@),
        }
    }
}

impl View for Tempestarii {
    type V = TempestariiModel;

    open spec fn view(&self) -> TempestariiModel {
        TempestariiModel { command: self.command@, targets: self.targets.deep_view() }
    }
}

/// The request each parsed command becomes, and whether the controller
/// exits after the exchange.
pub open spec fn spec_build_request(t: TempestariiModel) -> (RequestModel, bool) {
    match t.command {
        CommandsModel::Queue(q) => (
            RequestModel::QUEUE(cli::QueueModel { command: q.command, targets: t.targets }),
            false,
        ),
        CommandsModel::Dequeue(d) => (
            RequestModel::DEQUEUE(cli::DequeueModel { command: d.command, targets: t.targets }),
            false,
        ),
        CommandsModel::Lock => (RequestModel::LOCK(cli::LockModel { targets: t.targets }), false),
        CommandsModel::List => (RequestModel::LIST(cli::ListModel { targets: t.targets }), false),
        CommandsModel::Quit(q) => (
            RequestModel::QUIT(cli::QuitModel { destroy: q.destroy }),
            true,
        ),
    }
}

/// Turn one parsed controller invocation into the control-plane request
/// to send, together with the exit decision.
pub fn build_request(input: Tempestarii) -> (r: (Request, bool))
    ensures
        (r.0@, r.1) == spec_build_request(input@),
{
    let Tempestarii { command, targets } = input;
    match command {
        Commands::Queue(state) => (
            Request::QUEUE(cli::Queue { command: state.command, targets }),
            false,
        ),
        Commands::Dequeue(state) => (
            Request::DEQUEUE(cli::Dequeue { command: state.command, targets }),
            false,
        ),
        Commands::Lock => (Request::LOCK(cli::Lock { targets }), false),
        Commands::List => (Request::LIST(cli::List { targets }), false),
        Commands::Quit(state) => (
            Request::QUIT(cli::Quit { destroy: state.destroy }),
            true,
        ),
    }
}

} // verus!
