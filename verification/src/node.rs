//! The node: its handlers, one module for each part of the protocol, and
//! the dispatch of events to them.

pub mod fingers;
pub mod ingress;
pub mod insert;
pub mod join;
pub mod leave;
pub mod lookup;
pub mod notify;
pub mod pending;
pub mod stabilize;

use crate::command::{nothing, only, ChordError, Command, CommandView, Outcome, OutcomeView};
use crate::data::{Data, DataView};
use crate::hash::MAX_BITS;
use crate::msg::{Message, MessageView};
use crate::node::pending::{Pending, PendingView};
use crate::node_state::{alone, NodeState, NodeStateView};
use crate::store::{rows_of, to_rows, KeyRange, StoreOp, StoreOpView};
use crate::succ_table::empty_slots;
use vstd::prelude::*;

verus! {

/// The commands with which a node answers an event.
pub type Commands = Vec<Command<Pending>>;

/// The commands of an answer, as text.
pub type Script = Seq<CommandView<PendingView>>;

/// What a handler leaves behind: the state of the node and its answer.
pub struct Step {
    pub state: NodeStateView,
    pub reply: Result<Script, ChordError>,
}

/// An answer as text.
pub open spec fn shown(reply: Result<Commands, ChordError>) -> Result<Script, ChordError> {
    match reply {
        Ok(commands) => Ok(commands.deep_view()),
        Err(e) => Err(e),
    }
}

/// The time between two rounds of stabilization, in seconds.
pub const STABILIZE_PERIOD_SECS: u64 = 5;

/// The time between two refreshes of the finger table, in seconds.
pub const FINGER_PERIOD_SECS: u64 = 5;

/// How often a node asks the coordinator for a contact before it gives up.
pub const JOIN_ATTEMPTS: u32 = 5;

/// How long a node waits between two such attempts, in milliseconds.
pub const JOIN_ATTEMPT_DELAY_MS: u64 = 1000;

/// How long a node that is told to shut down waits before it does, in
/// milliseconds.
pub const SHUTDOWN_DELAY_MS: u64 = 1000;

/// The exit code of a node that cannot join or is told to shut down.
pub const EXIT_FAILURE: i32 = 1;

/// What can happen to a node.
#[derive(Debug, PartialEq, Eq)]
#[allow(inconsistent_fields)]
pub enum Event {
    /// A message was taken from the node's mailbox.
    Received { message: Message },
    /// A command that the node gave together with `pending` has ended.
    Completed { pending: Pending, outcome: Outcome },
    /// It is time for a round of stabilization.
    Stabilize,
    /// It is time to refresh the finger table.
    RefreshFingers,
    /// A client or another node hands over records.
    InsertRequested { records: Vec<Data> },
    /// The operator asks the node to join the ring.
    JoinRequested,
    /// The operator asks the node to leave the ring.
    LeaveRequested,
}

/// What happened to a node, as text.
#[allow(inconsistent_fields)]
pub enum EventView {
    Received { message: MessageView },
    Completed { pending: PendingView, outcome: OutcomeView },
    Stabilize,
    RefreshFingers,
    InsertRequested { records: Seq<DataView> },
    JoinRequested,
    LeaveRequested,
}

impl DeepView for Event {
    type V = EventView;

    open spec fn deep_view(&self) -> EventView {
        match self {
            Event::Received { message } => EventView::Received { message: message.deep_view() },
            Event::Completed { pending, outcome } => EventView::Completed { pending: pending.deep_view(), outcome: outcome.deep_view() },
            Event::Stabilize => EventView::Stabilize,
            Event::RefreshFingers => EventView::RefreshFingers,
            Event::InsertRequested { records } => EventView::InsertRequested { records: records.deep_view() },
            Event::JoinRequested => EventView::JoinRequested,
            Event::LeaveRequested => EventView::LeaveRequested,
        }
    }
}

impl View for Event {
    type V = EventView;

    open spec fn view(&self) -> EventView {
        self.deep_view()
    }
}

/// Whether a message sent with `pending` counts as delivered only when the
/// endpoint answers with success: the first request to the coordinator and
/// the ping of a successor at the start of a round of stabilization. Every
/// other message counts as delivered when the endpoint answers at all.
pub open spec fn wants_success(pending: Option<PendingView>) -> bool {
    match pending {
        Some(PendingView::Announce { retries }) => true,
        Some(PendingView::StabilizeProbe { index, node }) => true,
        _ => false,
    }
}

/// Whether a message sent with `pending` needs an answer of success to
/// count as delivered.
pub fn needs_success(pending: &Option<Pending>) -> (r: bool)
    ensures
        r == wants_success(pending.deep_view()),
{
    match pending {
        Some(Pending::Announce { retries: _ }) => true,
        Some(Pending::StabilizeProbe { index: _, node: _ }) => true,
        _ => false,
    }
}

/// A node of the ring: its routing state, the endpoint of the coordinator
/// it joined through, and the bit width of the identifier space.
#[derive(Debug, PartialEq, Eq)]
pub struct Node {
    pub node_state: NodeState,
    pub chord_ring: String,
    pub m: u32,
}

/// What a node holds, as text.
pub struct NodeView {
    pub node_state: NodeStateView,
    pub chord_ring: Seq<char>,
    pub m: u32,
}

impl DeepView for Node {
    type V = NodeView;

    open spec fn deep_view(&self) -> NodeView {
        NodeView { node_state: self.node_state@, chord_ring: self.chord_ring@, m: self.m }
    }
}

impl View for Node {
    type V = NodeView;

    open spec fn view(&self) -> NodeView {
        self.deep_view()
    }
}

/// The step of a node whose state stays as it is.
pub open spec fn stay(node: NodeView, reply: Result<Script, ChordError>) -> Step {
    Step { state: node.node_state, reply }
}

/// What a node does with a message from its mailbox. Messages that a node
/// does not expect are dropped.
pub open spec fn received(node: NodeView, message: MessageView) -> Step {
    let ns = node.node_state;
    match message {
        MessageView::ResKnownNode { node_id } => stay(node, Ok(join::known_node_reply(ns, node_id))),
        MessageView::Leave { node_id } => stay(node, Ok(leave::leave_reply(ns, node_id))),
        MessageView::ReqJoin { node_id } => join::req_join_step(ns, node_id, node.m),
        MessageView::ResJoin { node_id, sender_id } => join::res_join_step(ns, node_id, sender_id),
        MessageView::LookupReq { key, hops } => stay(
            node,
            lookup::lookup_reply(ns, key, hops, node.chord_ring, node.m),
        ),
        MessageView::ReqFinger { from, index } => stay(
            node,
            Ok(fingers::finger_req_reply(ns, from, index, node.m)),
        ),
        MessageView::ResFinger { node_id, index } => fingers::finger_res_step(ns, node_id, index),
        MessageView::Notify { node_id } => notify::notify_step(ns, node_id, node.m),
        MessageView::IAmYourPredecessor { node_id } => Step {
            state: NodeStateView { predecessor: Some(node_id), ..ns },
            reply: Ok(Seq::empty()),
        },
        MessageView::IAmYourSuccessor { node_id } => Step {
            state: NodeStateView {
                successor: empty_slots(ns.successor.len()).update(0, Some(node_id)),
                ..ns
            },
            reply: Ok(Seq::empty()),
        },
        MessageView::Data { from, data } => stay(
            node,
            Ok(
                seq![
                    CommandView::Store {
                        op: StoreOpView::Insert { rows: rows_of(data, node.m as nat) },
                        pending: None,
                    },
                ],
            ),
        ),
        MessageView::NodeExists => stay(node, Ok(seq![CommandView::Exit { code: EXIT_FAILURE }])),
        MessageView::RingIsFull => stay(node, Ok(seq![CommandView::Exit { code: EXIT_FAILURE }])),
        MessageView::Kys => stay(
            node,
            Ok(
                seq![
                    CommandView::Sleep { millis: SHUTDOWN_DELAY_MS },
                    CommandView::Exit { code: EXIT_FAILURE },
                ],
            ),
        ),
        _ => stay(node, Ok(Seq::empty())),
    }
}

/// What a node does after a failed attempt to reach the coordinator at the
/// start of a join: it waits and tries again while attempts are left, and
/// ends the process when none is.
pub open spec fn announce_again(node: NodeView, retries: u32) -> Script {
    if retries > 1 {
        seq![
            CommandView::Sleep { millis: JOIN_ATTEMPT_DELAY_MS },
            CommandView::Send {
                to: node.chord_ring,
                message: MessageView::ReqKnownNode { node_id: node.node_state.id },
                pending: Some(PendingView::Announce { retries: (retries - 1) as u32 }),
            },
        ]
    } else {
        seq![CommandView::Exit { code: EXIT_FAILURE }]
    }
}

/// What a node does when a command has ended. A report that does not fit
/// what the node was waiting for is refused.
pub open spec fn completed(node: NodeView, pending: PendingView, outcome: OutcomeView) -> Step {
    let ns = node.node_state;
    match (pending, outcome) {
        (PendingView::Delivery, OutcomeView::Done) => stay(node, Ok(Seq::empty())),
        (PendingView::Delivery, OutcomeView::Failed) => stay(node, Err(ChordError::TransportError)),
        (PendingView::Write, OutcomeView::Done) => stay(node, Ok(Seq::empty())),
        (PendingView::Write, OutcomeView::Failed) => stay(node, Err(ChordError::StoreError)),
        (PendingView::Announce { retries }, OutcomeView::Done) => stay(node, Ok(Seq::empty())),
        (PendingView::Announce { retries }, OutcomeView::Failed) => stay(
            node,
            Ok(announce_again(node, retries)),
        ),
        (PendingView::JoinRequest { contact }, OutcomeView::Done) => stay(node, Ok(Seq::empty())),
        (PendingView::JoinRequest { contact }, OutcomeView::Failed) => stay(
            node,
            Ok(
                seq![
                    CommandView::Send {
                        to: node.chord_ring,
                        message: MessageView::CheckNode { node_id: contact },
                        pending: Some(PendingView::JoinCheck),
                    },
                ],
            ),
        ),
        (PendingView::JoinCheck, OutcomeView::Done) => stay(
            node,
            Ok(
                seq![
                    CommandView::Sleep { millis: join::JOIN_RETRY_DELAY_MS },
                    CommandView::Send {
                        to: node.chord_ring,
                        message: MessageView::ReqKnownNode { node_id: ns.id },
                        pending: Some(PendingView::Delivery),
                    },
                ],
            ),
        ),
        (PendingView::JoinCheck, OutcomeView::Failed) => stay(
            node,
            Err(ChordError::TransportError),
        ),
        (PendingView::JoinReply { joiner, old_successor }, OutcomeView::Done) => stay(
            node,
            Ok(
                seq![
                    CommandView::Send {
                        to: old_successor,
                        message: MessageView::Notify { node_id: joiner },
                        pending: Some(PendingView::Delivery),
                    },
                ],
            ),
        ),
        (PendingView::JoinReply { joiner, old_successor }, OutcomeView::Failed) => stay(
            node,
            Err(ChordError::TransportError),
        ),
        (PendingView::JoinSuccessors { sender }, OutcomeView::Successors { list }) =>
            join::join_successors_step(ns, Some(list), sender, node.chord_ring),
        (PendingView::JoinSuccessors { sender }, OutcomeView::Failed) => join::join_successors_step(
            ns,
            None,
            sender,
            node.chord_ring,
        ),
        (PendingView::JoinRegistered, OutcomeView::Done) => stay(
            node,
            Ok(
                seq![
                    CommandView::Send {
                        to: ns.id,
                        message: MessageView::ReqFinger {
                            from: ns.id,
                            index: ns.finger_table[0].start as usize,
                        },
                        pending: Some(PendingView::Delivery),
                    },
                ],
            ),
        ),
        (PendingView::JoinRegistered, OutcomeView::Failed) => stay(
            node,
            Err(ChordError::TransportError),
        ),
        (PendingView::LookupRecords { key, hops }, OutcomeView::Records { records }) => stay(
            node,
            Ok(
                seq![
                    CommandView::Send {
                        to: node.chord_ring,
                        message: MessageView::LookupRes { key, hops, data: Some(records) },
                        pending: Some(PendingView::Delivery),
                    },
                ],
            ),
        ),
        (PendingView::LookupRecords { key, hops }, OutcomeView::Failed) => stay(
            node,
            Err(ChordError::StoreError),
        ),
        (PendingView::LookupForward { key, hops, candidates, tried }, OutcomeView::Done) => stay(
            node,
            Ok(Seq::empty()),
        ),
        (PendingView::LookupForward { key, hops, candidates, tried }, OutcomeView::Failed) => stay(
            node,
            if hops == usize::MAX {
                Err(ChordError::ProtocolError)
            } else {
                Ok(lookup::forward_script(key, hops, candidates, tried + 1, node.chord_ring))
            },
        ),
        (PendingView::NotifyRecords { sender, range }, OutcomeView::Records { records }) => stay(
            node,
            Ok(notify::transfer_script(ns, sender, range, records)),
        ),
        (PendingView::NotifyRecords { sender, range }, OutcomeView::Failed) => stay(
            node,
            Err(ChordError::StoreError),
        ),
        (PendingView::NotifyTransfer { range }, OutcomeView::Done) => stay(
            node,
            Ok(
                seq![
                    CommandView::Store {
                        op: StoreOpView::Delete { range },
                        pending: Some(PendingView::Write),
                    },
                ],
            ),
        ),
        (PendingView::NotifyTransfer { range }, OutcomeView::Failed) => stay(
            node,
            Err(ChordError::TransportError),
        ),
        (
            PendingView::LeaveRecords { successor, predecessor },
            OutcomeView::Records { records },
        ) => stay(
            node,
            Ok(leave::farewell(ns, successor, predecessor, records, node.chord_ring)),
        ),
        (PendingView::LeaveRecords { successor, predecessor }, OutcomeView::Failed) => stay(
            node,
            Err(ChordError::StoreError),
        ),
        (PendingView::LeaveClear, OutcomeView::Done) => Step {
            state: leave::departed(ns),
            reply: Ok(Seq::empty()),
        },
        (PendingView::LeaveClear, OutcomeView::Failed) => stay(node, Err(ChordError::StoreError)),
        (PendingView::StabilizeProbe { index, node: probed }, OutcomeView::Done) =>
            stabilize::probe_step(ns, index, probed, true),
        (PendingView::StabilizeProbe { index, node: probed }, OutcomeView::Failed) =>
            stabilize::probe_step(ns, index, probed, false),
        (PendingView::StabilizeSuccessors { immediate }, OutcomeView::Successors { list }) =>
            stabilize::successors_step(ns, immediate, Some(list)),
        (PendingView::StabilizeSuccessors { immediate }, OutcomeView::Failed) =>
            stabilize::successors_step(ns, immediate, None),
        (
            PendingView::StabilizeAdmit { immediate, candidates, probed, admitted },
            OutcomeView::Done,
        ) => stabilize::admit_step(ns, immediate, candidates, probed, admitted, true),
        (
            PendingView::StabilizeAdmit { immediate, candidates, probed, admitted },
            OutcomeView::Failed,
        ) => stabilize::admit_step(ns, immediate, candidates, probed, admitted, false),
        _ => stay(node, Err(ChordError::ProtocolError)),
    }
}

/// What a node does with an event.
pub open spec fn node_step(node: NodeView, event: EventView) -> Step {
    let ns = node.node_state;
    match event {
        EventView::Received { message } => received(node, message),
        EventView::Completed { pending, outcome } => completed(node, pending, outcome),
        EventView::Stabilize => stabilize::stabilize_step(ns),
        EventView::RefreshFingers => stay(node, Ok(fingers::refresh_reply(ns))),
        EventView::InsertRequested { records } => stay(
            node,
            insert::insert_reply(ns, records, node.m),
        ),
        EventView::JoinRequested => stay(
            node,
            Ok(
                seq![
                    CommandView::Send {
                        to: node.chord_ring,
                        message: MessageView::ReqKnownNode { node_id: ns.id },
                        pending: None,
                    },
                ],
            ),
        ),
        EventView::LeaveRequested => stay(node, leave::leave_start(ns)),
    }
}

impl Node {
    /// The routing state is that of a node of a ring of `m` bits.
    pub open spec fn wf(&self) -> bool {
        self.node_state.wf(self.m)
    }

    /// A node `id` that has not joined yet, for a ring of `m` bits, with
    /// `r` successor slots. It knows of no coordinator.
    pub fn new(id: String, m: u32, r: usize) -> (node: Self)
        requires
            1 <= m <= MAX_BITS,
            r >= 1,
        ensures
            node.wf(),
            node@ == (NodeView {
                node_state: alone(id@, m as nat, r as nat),
                chord_ring: Seq::empty(),
                m,
            }),
    {
        Node { node_state: NodeState::new(id, m, r), chord_ring: String::new(), m }
    }

    /// Starts to join through the coordinator at `node`: the node remembers
    /// the coordinator and asks it for a contact.
    pub fn req_known_node(&mut self, node: String) -> (commands: Commands)
        ensures
            final(self)@ == (NodeView { chord_ring: node@, ..old(self)@ }),
            commands.deep_view() == seq![
                CommandView::Send {
                    to: node@,
                    message: MessageView::ReqKnownNode { node_id: old(self)@.node_state.id },
                    pending: Some(PendingView::Announce { retries: JOIN_ATTEMPTS }),
                },
            ],
    {
        self.chord_ring = node.clone();
        only(
            Command::Send {
                to: node,
                message: Message::ReqKnownNode { node_id: self.node_state.id.clone() },
                pending: Some(Pending::Announce { retries: JOIN_ATTEMPTS }),
            },
        )
    }

    /// Starts to leave the ring.
    pub fn leave(&self) -> (reply: Result<Commands, ChordError>)
        requires
            self.wf(),
        ensures
            shown(reply) == leave::leave_start(self@.node_state),
    {
        leave::leave(&self.node_state, self.m)
    }

    /// The store request for the records stored under `key`.
    pub fn select_specific_data(&self, key: String) -> (op: StoreOp)
        ensures
            op@ == (StoreOpView::SelectKey { key: key@ }),
    {
        StoreOp::SelectKey { key }
    }

    /// The store request for the records whose key hashes lie between the
    /// two bounds.
    pub fn select_data(&self, start_hash: Option<u32>, end_hash: Option<u32>) -> (op: StoreOp)
        ensures
            op@ == (StoreOpView::Select { range: KeyRange::between_bounds(start_hash, end_hash) }),
    {
        StoreOp::Select { range: KeyRange::of(start_hash, end_hash) }
    }

    /// The store request that drops the records whose key hashes lie
    /// between the two bounds.
    pub fn remove_data(&self, start_hash: Option<u32>, end_hash: Option<u32>) -> (op: StoreOp)
        ensures
            op@ == (StoreOpView::Delete { range: KeyRange::between_bounds(start_hash, end_hash) }),
    {
        StoreOp::Delete { range: KeyRange::of(start_hash, end_hash) }
    }

    /// The store request that adds a batch of records, each with the ring
    /// identifier of its key.
    pub fn insert_batch_data(&self, data: Vec<Data>) -> (op: StoreOp)
        requires
            self.m <= MAX_BITS,
        ensures
            op@ == (StoreOpView::Insert { rows: rows_of(data.deep_view(), self.m as nat) }),
    {
        StoreOp::Insert { rows: to_rows(&data, self.m) }
    }

    /// Answers a message from the mailbox.
    pub fn receive(&mut self, message: Message) -> (reply: Result<Commands, ChordError>)
        requires
            old(self).wf(),
        ensures
            final(self).wf(),
            final(self)@ == (NodeView {
                node_state: received(old(self)@, message@).state,
                ..old(self)@
            }),
            shown(reply) == received(old(self)@, message@).reply,
    {
        let m = self.m;
        match message {
            Message::ResKnownNode { node_id } => Ok(
                join::known_node_handler(&self.node_state, node_id),
            ),
            Message::Leave { node_id } => Ok(leave::leave_handler(&self.node_state, node_id, m)),
            Message::ReqJoin { node_id } => join::req_join_handler(
                &mut self.node_state,
                node_id,
                m,
            ),
            Message::ResJoin { node_id, sender_id } => Ok(
                join::res_join_handler(&mut self.node_state, node_id, sender_id, m),
            ),
            Message::LookupReq { key, hops } => lookup::lookup_req_handler(
                &self.node_state,
                key,
                hops,
                self.chord_ring.as_str(),
                m,
            ),
            Message::ReqFinger { from, index } => Ok(
                fingers::finger_req_handler(&self.node_state, from, index, m),
            ),
            Message::ResFinger { node_id, index } => fingers::finger_res_handler(
                &mut self.node_state,
                node_id,
                index,
                m,
            ),
            Message::Notify { node_id } => Ok(
                notify::notify_handler(&mut self.node_state, node_id, m),
            ),
            Message::IAmYourPredecessor { node_id } => {
                self.node_state.predecessor = Some(node_id);
                Ok(nothing())
            },
            Message::IAmYourSuccessor { node_id } => {
                self.node_state.successor.clear();
                self.node_state.successor.insert_first(node_id);
                Ok(nothing())
            },
            Message::Data { from, data } => {
                let op = self.insert_batch_data(data);
                Ok(only(Command::Store { op, pending: None }))
            },
            Message::NodeExists => Ok(only(Command::Exit { code: EXIT_FAILURE })),
            Message::RingIsFull => Ok(only(Command::Exit { code: EXIT_FAILURE })),
            Message::Kys => {
                let mut commands: Commands = Vec::new();
                commands.push(Command::Sleep { millis: SHUTDOWN_DELAY_MS });
                commands.push(Command::Exit { code: EXIT_FAILURE });
                assert(commands.deep_view() =~= seq![
                    CommandView::Sleep { millis: SHUTDOWN_DELAY_MS },
                    CommandView::Exit { code: EXIT_FAILURE },
                ]);
                Ok(commands)
            },
            _ => Ok(nothing()),
        }
    }

    /// Goes on after a failed attempt to reach the coordinator at the start
    /// of a join.
    fn announce_failed(&self, retries: u32) -> (commands: Commands)
        ensures
            commands.deep_view() == announce_again(self@, retries),
    {
        if retries > 1 {
            let mut commands: Commands = Vec::new();
            commands.push(Command::Sleep { millis: JOIN_ATTEMPT_DELAY_MS });
            commands.push(
                Command::Send {
                    to: self.chord_ring.clone(),
                    message: Message::ReqKnownNode { node_id: self.node_state.id.clone() },
                    pending: Some(Pending::Announce { retries: retries - 1 }),
                },
            );
            assert(commands.deep_view() =~= announce_again(self@, retries));
            commands
        } else {
            only(Command::Exit { code: EXIT_FAILURE })
        }
    }

    /// Goes on after a command has ended.
    pub fn complete(&mut self, pending: Pending, outcome: Outcome) -> (reply: Result<
        Commands,
        ChordError,
    >)
        requires
            old(self).wf(),
        ensures
            final(self).wf(),
            final(self)@ == (NodeView {
                node_state: completed(old(self)@, pending@, outcome@).state,
                ..old(self)@
            }),
            shown(reply) == completed(old(self)@, pending@, outcome@).reply,
    {
        let m = self.m;
        match pending {
            Pending::Delivery => match outcome {
                Outcome::Done => Ok(nothing()),
                Outcome::Failed => Err(ChordError::TransportError),
                _ => Err(ChordError::ProtocolError),
            },
            Pending::Write => match outcome {
                Outcome::Done => Ok(nothing()),
                Outcome::Failed => Err(ChordError::StoreError),
                _ => Err(ChordError::ProtocolError),
            },
            Pending::Announce { retries } => match outcome {
                Outcome::Done => Ok(nothing()),
                Outcome::Failed => Ok(self.announce_failed(retries)),
                _ => Err(ChordError::ProtocolError),
            },
            Pending::JoinRequest { contact } => match outcome {
                Outcome::Done => Ok(nothing()),
                Outcome::Failed => Ok(join::join_request_failed(contact, self.chord_ring.as_str())),
                _ => Err(ChordError::ProtocolError),
            },
            Pending::JoinCheck => match outcome {
                Outcome::Done => Ok(
                    join::join_check_delivered(&self.node_state, self.chord_ring.as_str()),
                ),
                Outcome::Failed => Err(ChordError::TransportError),
                _ => Err(ChordError::ProtocolError),
            },
            Pending::JoinReply { joiner, old_successor } => match outcome {
                Outcome::Done => Ok(join::join_reply_delivered(joiner, old_successor)),
                Outcome::Failed => Err(ChordError::TransportError),
                _ => Err(ChordError::ProtocolError),
            },
            Pending::JoinSuccessors { sender } => match outcome {
                Outcome::Successors { list } => Ok(
                    join::join_successors_fetched(
                        &mut self.node_state,
                        Some(list),
                        sender,
                        self.chord_ring.as_str(),
                        m,
                    ),
                ),
                Outcome::Failed => Ok(
                    join::join_successors_fetched(
                        &mut self.node_state,
                        None,
                        sender,
                        self.chord_ring.as_str(),
                        m,
                    ),
                ),
                _ => Err(ChordError::ProtocolError),
            },
            Pending::JoinRegistered => match outcome {
                Outcome::Done => Ok(join::join_registered(&self.node_state, m)),
                Outcome::Failed => Err(ChordError::TransportError),
                _ => Err(ChordError::ProtocolError),
            },
            Pending::LookupRecords { key, hops } => match outcome {
                Outcome::Records { records } => Ok(
                    lookup::lookup_records_read(key, hops, records, self.chord_ring.as_str()),
                ),
                Outcome::Failed => Err(ChordError::StoreError),
                _ => Err(ChordError::ProtocolError),
            },
            Pending::LookupForward { key, hops, candidates, tried } => match outcome {
                Outcome::Done => Ok(nothing()),
                Outcome::Failed => lookup::lookup_forward_failed(
                    key,
                    hops,
                    candidates,
                    tried,
                    self.chord_ring.as_str(),
                ),
                _ => Err(ChordError::ProtocolError),
            },
            Pending::NotifyRecords { sender, range } => match outcome {
                Outcome::Records { records } => Ok(
                    notify::notify_records_read(&self.node_state, sender, range, records),
                ),
                Outcome::Failed => Err(ChordError::StoreError),
                _ => Err(ChordError::ProtocolError),
            },
            Pending::NotifyTransfer { range } => match outcome {
                Outcome::Done => Ok(notify::notify_transfer_delivered(range)),
                Outcome::Failed => Err(ChordError::TransportError),
                _ => Err(ChordError::ProtocolError),
            },
            Pending::LeaveRecords { successor, predecessor } => match outcome {
                Outcome::Records { records } => Ok(
                    leave::leave_records_read(
                        &self.node_state,
                        successor,
                        predecessor,
                        records,
                        self.chord_ring.as_str(),
                    ),
                ),
                Outcome::Failed => Err(ChordError::StoreError),
                _ => Err(ChordError::ProtocolError),
            },
            Pending::LeaveClear => match outcome {
                Outcome::Done => {
                    leave::leave_cleared(&mut self.node_state, m);
                    Ok(nothing())
                },
                Outcome::Failed => Err(ChordError::StoreError),
                _ => Err(ChordError::ProtocolError),
            },
            Pending::StabilizeProbe { index, node } => match outcome {
                Outcome::Done => Ok(
                    stabilize::stabilize_probed(&mut self.node_state, index, node, true, m),
                ),
                Outcome::Failed => Ok(
                    stabilize::stabilize_probed(&mut self.node_state, index, node, false, m),
                ),
                _ => Err(ChordError::ProtocolError),
            },
            Pending::StabilizeSuccessors { immediate } => match outcome {
                Outcome::Successors { list } => Ok(
                    stabilize::stabilize_successors_fetched(
                        &mut self.node_state,
                        immediate,
                        Some(list),
                        m,
                    ),
                ),
                Outcome::Failed => Ok(
                    stabilize::stabilize_successors_fetched(
                        &mut self.node_state,
                        immediate,
                        None,
                        m,
                    ),
                ),
                _ => Err(ChordError::ProtocolError),
            },
            Pending::StabilizeAdmit { immediate, candidates, probed, admitted } => match outcome {
                Outcome::Done => Ok(
                    stabilize::stabilize_admitted(
                        &mut self.node_state,
                        immediate,
                        candidates,
                        probed,
                        admitted,
                        true,
                        m,
                    ),
                ),
                Outcome::Failed => Ok(
                    stabilize::stabilize_admitted(
                        &mut self.node_state,
                        immediate,
                        candidates,
                        probed,
                        admitted,
                        false,
                        m,
                    ),
                ),
                _ => Err(ChordError::ProtocolError),
            },
        }
    }

    /// Answers an event: the node moves to its next state and says what
    /// the runtime has to do.
    pub fn handle(&mut self, event: Event) -> (reply: Result<Commands, ChordError>)
        requires
            old(self).wf(),
        ensures
            final(self).wf(),
            final(self)@ == (NodeView {
                node_state: node_step(old(self)@, event@).state,
                ..old(self)@
            }),
            shown(reply) == node_step(old(self)@, event@).reply,
    {
        let m = self.m;
        match event {
            Event::Received { message } => self.receive(message),
            Event::Completed { pending, outcome } => self.complete(pending, outcome),
            Event::Stabilize => Ok(stabilize::stabilize(&mut self.node_state, m)),
            Event::RefreshFingers => Ok(fingers::refresh_fingers(&self.node_state, m)),
            Event::InsertRequested { records } => insert::handle_insert(
                &self.node_state,
                records,
                m,
            ),
            Event::JoinRequested => Ok(
                ingress::handle_join(&self.node_state, self.chord_ring.as_str()),
            ),
            Event::LeaveRequested => self.leave(),
        }
    }
}

} // verus!
