//! The interface between the protocol logic and the runtime that carries
//! it out: the logic answers every event with commands, and the runtime
//! reports back how those commands ended.

use crate::data::{Data, DataView};
use crate::msg::{Message, MessageView};
use crate::store::{StoreOp, StoreOpView};
use vstd::prelude::*;

verus! {

/// One thing that the runtime has to do for a node or the coordinator. The
/// commands of one answer are carried out in order. Where `pending` is set,
/// the runtime reports how the command ended, together with that value,
/// before it does anything else; where it is not, a failure is only logged.
#[derive(Debug, PartialEq, Eq)]
#[allow(inconsistent_fields)]
pub enum Command<P> {
    /// Deliver `message` to the mailbox of the endpoint `to`.
    Send { to: String, message: Message, pending: Option<P> },
    /// Hand `records` to the endpoint `to` for insertion.
    Insert { to: String, records: Vec<Data>, pending: Option<P> },
    /// Ask the endpoint `from` for the endpoints in its successor list.
    FetchSuccessors { from: String, pending: P },
    /// Carry out `op` on the local store.
    Store { op: StoreOp, pending: Option<P> },
    /// Put `message` into the sender's own mailbox.
    Enqueue { message: Message },
    /// Wait for `millis` milliseconds.
    Sleep { millis: u64 },
    /// End the process with exit code `code`.
    Exit { code: i32 },
}

/// What a command says, as text.
#[allow(inconsistent_fields)]
pub enum CommandView<PV> {
    Send { to: Seq<char>, message: MessageView, pending: Option<PV> },
    Insert { to: Seq<char>, records: Seq<DataView>, pending: Option<PV> },
    FetchSuccessors { from: Seq<char>, pending: PV },
    Store { op: StoreOpView, pending: Option<PV> },
    Enqueue { message: MessageView },
    Sleep { millis: u64 },
    Exit { code: i32 },
}

impl<P: DeepView> DeepView for Command<P> {
    type V = CommandView<P::V>;

    open spec fn deep_view(&self) -> CommandView<P::V> {
        match self {
            Command::Send { to, message, pending } => CommandView::Send { to: to@, message: message.deep_view(), pending: pending.deep_view() },
            Command::Insert { to, records, pending } => CommandView::Insert { to: to@, records: records.deep_view(), pending: pending.deep_view() },
            Command::FetchSuccessors { from, pending } => CommandView::FetchSuccessors { from: from@, pending: pending.deep_view() },
            Command::Store { op, pending } => CommandView::Store { op: op.deep_view(), pending: pending.deep_view() },
            Command::Enqueue { message } => CommandView::Enqueue { message: message.deep_view() },
            Command::Sleep { millis } => CommandView::Sleep { millis: *millis },
            Command::Exit { code } => CommandView::Exit { code: *code },
        }
    }
}

impl<P: DeepView> View for Command<P> {
    type V = CommandView<P::V>;

    open spec fn view(&self) -> CommandView<P::V> {
        self.deep_view()
    }
}

/// How a command ended.
#[derive(Debug, PartialEq, Eq)]
pub enum Outcome {
    /// It was carried out; there is nothing to report.
    Done,
    /// It could not be carried out: the endpoint did not answer after all
    /// retries, or the store refused.
    Failed,
    /// The endpoints that a successor list named.
    Successors { list: Vec<String> },
    /// The records that the store found.
    Records { records: Vec<Data> },
}

/// How a command ended, as text.
pub enum OutcomeView {
    Done,
    Failed,
    Successors { list: Seq<Seq<char>> },
    Records { records: Seq<DataView> },
}

impl DeepView for Outcome {
    type V = OutcomeView;

    open spec fn deep_view(&self) -> OutcomeView {
        match self {
            Outcome::Done => OutcomeView::Done,
            Outcome::Failed => OutcomeView::Failed,
            Outcome::Successors { list } => OutcomeView::Successors { list: list.deep_view() },
            Outcome::Records { records } => OutcomeView::Records { records: records.deep_view() },
        }
    }
}

impl View for Outcome {
    type V = OutcomeView;

    open spec fn view(&self) -> OutcomeView {
        self.deep_view()
    }
}

/// Why a handler gave up.
#[derive(Clone, Copy, Debug, PartialEq, Eq, Structural)]
pub enum ChordError {
    /// A message that had to arrive could not be delivered.
    TransportError,
    /// The local store failed.
    StoreError,
    /// The node lacks the successor or predecessor that the step needs.
    NotInRing,
    /// A message or a report that makes no sense where it arrived.
    ProtocolError,
    /// The coordinator knows no node to pass a request to.
    EmptyRing,
}

/// The answer of a handler that asks for nothing.
pub fn nothing<P: DeepView>() -> (commands: Vec<Command<P>>)
    ensures
        commands.deep_view() == Seq::<CommandView<P::V>>::empty(),
{
    let commands: Vec<Command<P>> = Vec::new();
    assert(commands.deep_view() =~= Seq::<CommandView<P::V>>::empty());
    commands
}

/// The answer of a handler that asks for one thing.
pub fn only<P: DeepView>(command: Command<P>) -> (commands: Vec<Command<P>>)
    ensures
        commands.deep_view() == seq![command.deep_view()],
{
    let mut commands: Vec<Command<P>> = Vec::new();
    commands.push(command);
    assert(commands.deep_view() =~= seq![command.deep_view()]);
    commands
}

} // verus!
