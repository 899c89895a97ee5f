//! The ring coordinator: the registry of the nodes of a ring. It names a
//! contact to every joiner, forgets the nodes that leave or cannot be
//! reached, and hands the requests of clients to the members in turn.

use crate::circular_buffer::{rotated, CircularBuffer};
use crate::command::{nothing, only, ChordError, Command, CommandView, Outcome, OutcomeView};
use crate::data::{clone_records, Data, DataView};
use crate::hash::{hash, ring_size, spec_hash, MAX_BITS};
use crate::laws::lemma_members_stay_distinct;
use crate::msg::{Message, MessageView};
use vstd::arithmetic::power2::pow2;
use vstd::prelude::*;

verus! {

/// The time between two tests of the members, in seconds.
pub const LIVENESS_PERIOD_SECS: u64 = 30;

/// What the coordinator is waiting for.
#[derive(Debug, PartialEq, Eq)]
pub enum RingPending {
    /// The ping of a member that is being tested.
    Probe { node: String },
    /// The lookup handed to a member.
    Lookup { node: String },
}

/// What the coordinator is waiting for, as text.
pub enum RingPendingView {
    Probe { node: Seq<char> },
    Lookup { node: Seq<char> },
}

impl DeepView for RingPending {
    type V = RingPendingView;

    open spec fn deep_view(&self) -> RingPendingView {
        match self {
            RingPending::Probe { node } => RingPendingView::Probe { node: node@ },
            RingPending::Lookup { node } => RingPendingView::Lookup { node: node@ },
        }
    }
}

impl View for RingPending {
    type V = RingPendingView;

    open spec fn view(&self) -> RingPendingView {
        self.deep_view()
    }
}

/// What can happen to the coordinator.
#[derive(Debug, PartialEq, Eq)]
pub enum RingEvent {
    /// A message was taken from the coordinator's mailbox.
    Received { message: Message },
    /// A command that the coordinator gave together with `pending` has
    /// ended.
    Completed { pending: RingPending, outcome: Outcome },
    /// It is time to test the members.
    LivenessCheck,
    /// A client asks for the records stored under `key`.
    LookupRequested { key: String },
    /// A client hands over records for the ring.
    UploadRequested { records: Vec<Data> },
}

/// What happened to the coordinator, as text.
pub enum RingEventView {
    Received { message: MessageView },
    Completed { pending: RingPendingView, outcome: OutcomeView },
    LivenessCheck,
    LookupRequested { key: Seq<char> },
    UploadRequested { records: Seq<DataView> },
}

impl DeepView for RingEvent {
    type V = RingEventView;

    open spec fn deep_view(&self) -> RingEventView {
        match self {
            RingEvent::Received { message } => RingEventView::Received { message: message@ },
            RingEvent::Completed { pending, outcome } => RingEventView::Completed {
                pending: pending@,
                outcome: outcome@,
            },
            RingEvent::LivenessCheck => RingEventView::LivenessCheck,
            RingEvent::LookupRequested { key } => RingEventView::LookupRequested { key: key@ },
            RingEvent::UploadRequested { records } => RingEventView::UploadRequested {
                records: records.deep_view(),
            },
        }
    }
}

impl View for RingEvent {
    type V = RingEventView;

    open spec fn view(&self) -> RingEventView {
        self.deep_view()
    }
}

/// The commands with which the coordinator answers an event.
pub type RingCommands = Vec<Command<RingPending>>;

/// The commands of the coordinator, as text.
pub type RingScript = Seq<CommandView<RingPendingView>>;

/// What the coordinator holds: its members in order, the position of the
/// member it named last, and the bit width of the identifier space.
pub struct RingView {
    pub members: Seq<Seq<char>>,
    pub cursor: usize,
    pub m: u32,
}

/// What the coordinator leaves behind: its state and its answer.
pub struct RingStep {
    pub ring: RingView,
    pub reply: Result<RingScript, ChordError>,
}

/// Whether a member has the identifier of `node`. A member of the same
/// name has.
pub open spec fn collides(members: Seq<Seq<char>>, node: Seq<char>, m: u32) -> bool {
    exists|i: int|
        0 <= i < members.len() && spec_hash(#[trigger] members[i], m as nat) == spec_hash(
            node,
            m as nat,
        )
}

/// No two members have the same identifier.
pub open spec fn distinct_hashes(members: Seq<Seq<char>>, m: u32) -> bool {
    forall|i: int, j: int|
        0 <= i < j < members.len() ==> spec_hash(#[trigger] members[i], m as nat) != spec_hash(
            #[trigger] members[j],
            m as nat,
        )
}

/// What the coordinator does with a joiner. A full ring, one with as many
/// members as identifiers, admits nobody. A joiner whose name or identifier
/// a member has is told that it exists. The first joiner of an empty ring
/// becomes its first member and is named to itself. Any other joiner is
/// named the member behind the one named last; it becomes a member only
/// when it registers.
pub open spec fn join_step(ring: RingView, node: Seq<char>) -> (RingView, MessageView) {
    if ring.members.len() == pow2(ring.m as nat) {
        (ring, MessageView::RingIsFull)
    } else if ring.members.contains(node) || collides(ring.members, node, ring.m) {
        (ring, MessageView::NodeExists)
    } else if ring.members.len() == 0 {
        (RingView { members: seq![node], ..ring }, MessageView::ResKnownNode { node_id: node })
    } else {
        let cursor = ((ring.cursor + 1) % (ring.members.len() as int)) as usize;
        (
            RingView { cursor, ..ring },
            MessageView::ResKnownNode { node_id: ring.members[cursor as int] },
        )
    }
}

/// The coordinator after `node` has registered: a node whose name and
/// identifier no member has becomes the last member; any other registration
/// changes nothing.
pub open spec fn with_member(ring: RingView, node: Seq<char>) -> RingView {
    if !ring.members.contains(node) && !collides(ring.members, node, ring.m) {
        RingView { members: ring.members.push(node), ..ring }
    } else {
        ring
    }
}

/// The coordinator after the first member named `node`, if there is one,
/// is forgotten.
pub open spec fn without_member(ring: RingView, node: Seq<char>) -> RingView {
    RingView { members: ring.members.remove_value(node), ..ring }
}

/// What the coordinator does with a message from its mailbox. Messages
/// that it does not expect are dropped.
pub open spec fn ring_received(ring: RingView, message: MessageView) -> RingStep {
    match message {
        MessageView::CheckNode { node_id } => RingStep {
            ring,
            reply: Ok(
                if ring.members.contains(node_id) {
                    seq![
                        CommandView::Send {
                            to: node_id,
                            message: MessageView::Ping,
                            pending: Some(RingPendingView::Probe { node: node_id }),
                        },
                    ]
                } else {
                    Seq::empty()
                },
            ),
        },
        MessageView::ReqKnownNode { node_id } => RingStep {
            ring: join_step(ring, node_id).0,
            reply: Ok(
                seq![
                    CommandView::Send {
                        to: node_id,
                        message: join_step(ring, node_id).1,
                        pending: None,
                    },
                ],
            ),
        },
        MessageView::ResKnownNode { node_id } => RingStep {
            ring: with_member(ring, node_id),
            reply: Ok(Seq::empty()),
        },
        MessageView::Leave { node_id } => RingStep {
            ring: without_member(ring, node_id),
            reply: Ok(Seq::empty()),
        },
        _ => RingStep { ring, reply: Ok(Seq::empty()) },
    }
}

/// What the coordinator does when a command has ended. A member that does
/// not answer a ping is forgotten. A member that a lookup could not be
/// handed to is tested. A report that does not fit is refused.
pub open spec fn ring_completed(
    ring: RingView,
    pending: RingPendingView,
    outcome: OutcomeView,
) -> RingStep {
    match (pending, outcome) {
        (RingPendingView::Probe { node }, OutcomeView::Done) => RingStep {
            ring,
            reply: Ok(Seq::empty()),
        },
        (RingPendingView::Probe { node }, OutcomeView::Failed) => RingStep {
            ring: without_member(ring, node),
            reply: Ok(Seq::empty()),
        },
        (RingPendingView::Lookup { node }, OutcomeView::Done) => RingStep {
            ring,
            reply: Ok(Seq::empty()),
        },
        (RingPendingView::Lookup { node }, OutcomeView::Failed) => RingStep {
            ring,
            reply: Ok(
                seq![CommandView::Enqueue { message: MessageView::CheckNode { node_id: node } }],
            ),
        },
        _ => RingStep { ring, reply: Err(ChordError::ProtocolError) },
    }
}

/// The test of the members: for each member, in order, a request to test
/// it goes into the coordinator's own mailbox.
pub open spec fn liveness_script(members: Seq<Seq<char>>) -> RingScript {
    Seq::new(
        members.len(),
        |i: int| CommandView::Enqueue { message: MessageView::CheckNode { node_id: members[i] } },
    )
}

/// What the coordinator does with a lookup of a client. Without members it
/// refuses. Else the lookup goes to the first member with no hops counted,
/// and the members rotate, so that the next lookup goes to the next member.
pub open spec fn lookup_step(ring: RingView, key: Seq<char>) -> RingStep {
    if ring.members.len() == 0 {
        RingStep { ring, reply: Err(ChordError::EmptyRing) }
    } else {
        RingStep {
            ring: RingView { members: rotated(ring.members), ..ring },
            reply: Ok(
                seq![
                    CommandView::Send {
                        to: ring.members[0],
                        message: MessageView::LookupReq { key, hops: 0 },
                        pending: Some(RingPendingView::Lookup { node: ring.members[0] }),
                    },
                ],
            ),
        }
    }
}

/// What the coordinator does with records of a client. Without members it
/// refuses. Else every member, in order, is handed the whole batch.
pub open spec fn upload_reply(ring: RingView, records: Seq<DataView>) -> Result<
    RingScript,
    ChordError,
> {
    if ring.members.len() == 0 {
        Err(ChordError::EmptyRing)
    } else {
        Ok(
            Seq::new(
                ring.members.len(),
                |i: int|
                    CommandView::Insert { to: ring.members[i], records, pending: None },
            ),
        )
    }
}

/// How an upload went: to how many members the records could be handed
/// and to how many they could not.
#[derive(Clone, Copy, Debug, PartialEq, Eq, Structural)]
pub struct UploadReport {
    pub success_count: usize,
    pub error_count: usize,
}

/// The number of successes among the outcomes.
pub open spec fn successes(outcomes: Seq<bool>) -> nat {
    outcomes.filter(|delivered: bool| delivered).len()
}

/// Counts the members that an upload reached and those that it did not.
pub fn upload_report(outcomes: &Vec<bool>) -> (report: UploadReport)
    ensures
        report.success_count == successes(outcomes@),
        report.success_count + report.error_count == outcomes@.len(),
{
    let ghost delivered = |ok: bool| ok;
    let mut success_count: usize = 0;
    let mut error_count: usize = 0;
    assert(outcomes@.take(0).filter(delivered) =~= Seq::<bool>::empty());
    let mut i: usize = 0;
    while i < outcomes.len()
        invariant
            i <= outcomes@.len(),
            delivered == |ok: bool| ok,
            success_count == outcomes@.take(i as int).filter(delivered).len(),
            success_count + error_count == i,
        decreases outcomes@.len() - i,
    {
        proof {
            assert(outcomes@.take(i + 1).drop_last() =~= outcomes@.take(i as int));
            assert(outcomes@.take(i + 1).last() == outcomes@[i as int]);
            reveal(Seq::filter);
        }
        if outcomes[i] {
            success_count += 1;
        } else {
            error_count += 1;
        }
        i += 1;
    }
    assert(outcomes@.take(i as int) =~= outcomes@);
    UploadReport { success_count, error_count }
}

/// What the coordinator does with an event.
pub open spec fn ring_step(ring: RingView, event: RingEventView) -> RingStep {
    match event {
        RingEventView::Received { message } => ring_received(ring, message),
        RingEventView::Completed { pending, outcome } => ring_completed(ring, pending, outcome),
        RingEventView::LivenessCheck => RingStep {
            ring,
            reply: Ok(liveness_script(ring.members)),
        },
        RingEventView::LookupRequested { key } => lookup_step(ring, key),
        RingEventView::UploadRequested { records } => RingStep {
            ring,
            reply: upload_reply(ring, records),
        },
    }
}

/// An answer of the coordinator, as text.
pub open spec fn ring_shown(reply: Result<RingCommands, ChordError>) -> Result<
    RingScript,
    ChordError,
> {
    match reply {
        Ok(commands) => Ok(commands.deep_view()),
        Err(e) => Err(e),
    }
}

/// The names in a buffer of names.
pub open spec fn names_of(items: Seq<String>) -> Seq<Seq<char>> {
    Seq::new(items.len(), |i: int| items[i]@)
}

/// The coordinator of one ring.
#[derive(Debug, PartialEq, Eq)]
pub struct ChordRing {
    nodes: CircularBuffer<String>,
    last_used_index: usize,
    m: u32,
}

impl View for ChordRing {
    type V = RingView;

    closed spec fn view(&self) -> RingView {
        RingView { members: names_of(self.nodes@), cursor: self.last_used_index, m: self.m }
    }
}

impl ChordRing {
    /// The identifier space is one that the identifiers fit, and no two
    /// members have the same identifier.
    pub open spec fn wf(&self) -> bool {
        &&& self@.m <= MAX_BITS
        &&& distinct_hashes(self@.members, self@.m)
    }

    /// The coordinator of an empty ring of `m` bits.
    pub fn new(m: u32) -> (ring: Self)
        requires
            m <= MAX_BITS,
        ensures
            ring.wf(),
            ring@ == (RingView { members: Seq::empty(), cursor: 0, m }),
    {
        let ring = ChordRing { nodes: CircularBuffer::new(), last_used_index: 0, m };
        assert(names_of(ring.nodes@) =~= Seq::<Seq<char>>::empty());
        ring
    }

    /// The number of members.
    pub fn len(&self) -> (n: usize)
        ensures
            n == self@.members.len(),
    {
        self.nodes.len()
    }

    /// The members, in order.
    pub fn members(&self) -> (members: Vec<String>)
        ensures
            members.deep_view() == self@.members,
    {
        let mut members: Vec<String> = Vec::new();
        let mut i: usize = 0;
        while i < self.nodes.len()
            invariant
                i <= self.nodes@.len(),
                members@.len() == i,
                forall|j: int| 0 <= j < i ==> (#[trigger] members@[j])@ == self.nodes@[j]@,
            decreases self.nodes@.len() - i,
        {
            match self.nodes.get(i) {
                Some(node) => {
                    members.push(node.clone());
                },
                None => {},
            }
            i += 1;
        }
        assert(members.deep_view() =~= names_of(self.nodes@));
        members
    }

    /// The first member named `node`.
    fn position(&self, node: &str) -> (r: Option<usize>)
        ensures
            match r {
                Some(i) => i < self@.members.len() && self@.members.index_of_first(node@) == Some(
                    i as int,
                ),
                None => self@.members.index_of_first(node@) is None,
            },
            r is Some <==> self@.members.contains(node@),
    {
        let mut i: usize = 0;
        while i < self.nodes.len()
            invariant
                i <= self.nodes@.len(),
                forall|j: int| 0 <= j < i ==> self@.members[j] != node@,
            decreases self.nodes@.len() - i,
        {
            match self.nodes.get(i) {
                Some(member) => {
                    assert(self@.members[i as int] == member@);
                    if *member.as_str() == *node {
                        proof {
                            assert(self@.members.contains(node@));
                            self@.members.index_of_first_ensures(node@);
                        }
                        return Some(i);
                    }
                },
                None => {},
            }
            i += 1;
        }
        proof {
            self@.members.index_of_first_ensures(node@);
        }
        None
    }

    /// Whether a member has the identifier of `node`.
    fn hash_taken(&self, node: &str) -> (r: bool)
        requires
            self.wf(),
        ensures
            r == collides(self@.members, node@, self@.m),
    {
        let wanted = hash(node, self.m);
        let mut i: usize = 0;
        while i < self.nodes.len()
            invariant
                i <= self.nodes@.len(),
                self.m <= MAX_BITS,
                wanted == spec_hash(node@, self.m as nat),
                forall|j: int|
                    0 <= j < i ==> spec_hash(#[trigger] self@.members[j], self.m as nat) != wanted,
            decreases self.nodes@.len() - i,
        {
            match self.nodes.get(i) {
                Some(member) => {
                    assert(self@.members[i as int] == member@);
                    if hash(member.as_str(), self.m) == wanted {
                        return true;
                    }
                },
                None => {},
            }
            i += 1;
        }
        false
    }

    /// Forgets the first member named `node`, if there is one.
    fn forget(&mut self, node: &str)
        ensures
            final(self)@ == without_member(old(self)@, node@),
    {
        let ghost before = self@.members;
        match self.position(node) {
            Some(index) => {
                self.nodes.remove(index);
                assert(self@.members =~= before.remove(index as int));
            },
            None => {},
        }
    }

    /// Answers a joiner.
    pub fn handle_known_node_req(&mut self, node: String) -> (commands: RingCommands)
        requires
            old(self).wf(),
        ensures
            final(self).wf(),
            final(self)@ == join_step(old(self)@, node@).0,
            commands.deep_view() == seq![
                CommandView::Send {
                    to: node@,
                    message: join_step(old(self)@, node@).1,
                    pending: None::<RingPendingView>,
                },
            ],
    {
        proof {
            lemma_members_stay_distinct(
                self@,
                RingEventView::Received { message: MessageView::ReqKnownNode { node_id: node@ } },
            );
        }
        let ghost before = self@;
        let len = self.nodes.len();
        let message = if len as u64 == ring_size(self.m) {
            Message::RingIsFull
        } else if self.position(node.as_str()).is_some() || self.hash_taken(node.as_str()) {
            Message::NodeExists
        } else if len == 0 {
            self.nodes.push_back(node.clone());
            assert(self@.members =~= seq![node@]);
            Message::ResKnownNode { node_id: node.clone() }
        } else {
            let index = (self.last_used_index % len + 1) % len;
            proof {
                vstd::arithmetic::div_mod::lemma_add_mod_noop(
                    self.last_used_index as int,
                    1,
                    len as int,
                );
                vstd::arithmetic::div_mod::lemma_small_mod(
                    (self.last_used_index % len) as nat,
                    len as nat,
                );
                if len > 1 {
                    vstd::arithmetic::div_mod::lemma_small_mod(1, len as nat);
                }
            }
            self.last_used_index = index;
            match self.nodes.get(index) {
                Some(pick) => {
                    assert(before.members[index as int] == pick@);
                    Message::ResKnownNode { node_id: pick.clone() }
                },
                // the cursor is below the number of members
                None => Message::RingIsFull,
            }
        };
        only(Command::Send { to: node, message, pending: None })
    }

    /// Answers a message from the mailbox.
    pub fn receive(&mut self, message: Message) -> (commands: RingCommands)
        requires
            old(self).wf(),
        ensures
            final(self).wf(),
            final(self)@ == ring_received(old(self)@, message@).ring,
            ring_received(
                old(self)@,
                message@,
            ).reply == ring_shown(Ok(commands)),
    {
        proof {
            lemma_members_stay_distinct(self@, RingEventView::Received { message: message@ });
        }
        match message {
            Message::CheckNode { node_id } => {
                if self.position(node_id.as_str()).is_some() {
                    only(
                        Command::Send {
                            to: node_id.clone(),
                            message: Message::Ping,
                            pending: Some(RingPending::Probe { node: node_id }),
                        },
                    )
                } else {
                    nothing()
                }
            },
            Message::ReqKnownNode { node_id } => self.handle_known_node_req(node_id),
            Message::ResKnownNode { node_id } => {
                let ghost before = self@.members;
                let ghost name = node_id@;
                if self.position(node_id.as_str()).is_none() && !self.hash_taken(
                    node_id.as_str(),
                ) {
                    self.nodes.push_back(node_id);
                    assert(self@.members =~= before.push(name));
                }
                nothing()
            },
            Message::Leave { node_id } => {
                self.forget(node_id.as_str());
                nothing()
            },
            _ => nothing(),
        }
    }

    /// Goes on after a command has ended.
    pub fn complete(&mut self, pending: RingPending, outcome: Outcome) -> (reply: Result<
        RingCommands,
        ChordError,
    >)
        requires
            old(self).wf(),
        ensures
            final(self).wf(),
            final(self)@ == ring_completed(old(self)@, pending@, outcome@).ring,
            ring_shown(reply) == ring_completed(old(self)@, pending@, outcome@).reply,
    {
        proof {
            lemma_members_stay_distinct(
                self@,
                RingEventView::Completed { pending: pending@, outcome: outcome@ },
            );
        }
        match pending {
            RingPending::Probe { node } => match outcome {
                Outcome::Done => Ok(nothing()),
                Outcome::Failed => {
                    self.forget(node.as_str());
                    Ok(nothing())
                },
                _ => Err(ChordError::ProtocolError),
            },
            RingPending::Lookup { node } => match outcome {
                Outcome::Done => Ok(nothing()),
                Outcome::Failed => Ok(
                    only(Command::Enqueue { message: Message::CheckNode { node_id: node } }),
                ),
                _ => Err(ChordError::ProtocolError),
            },
        }
    }

    /// Asks for a test of every member.
    pub fn liveness_check(&self) -> (commands: RingCommands)
        ensures
            commands.deep_view() == liveness_script(self@.members),
    {
        let mut commands: RingCommands = Vec::new();
        let mut i: usize = 0;
        while i < self.nodes.len()
            invariant
                i <= self.nodes@.len(),
                commands@.len() == i,
                forall|j: int|
                    0 <= j < i ==> (#[trigger] commands@[j]).deep_view() == (CommandView::Enqueue::<
                        RingPendingView,
                    > { message: MessageView::CheckNode { node_id: self.nodes@[j]@ } }),
            decreases self.nodes@.len() - i,
        {
            match self.nodes.get(i) {
                Some(node) => {
                    commands.push(
                        Command::Enqueue { message: Message::CheckNode { node_id: node.clone() } },
                    );
                },
                None => {},
            }
            i += 1;
        }
        assert(commands.deep_view() =~= liveness_script(self@.members));
        commands
    }

    /// Hands a lookup of a client to the member whose turn it is.
    pub fn handle_lookup(&mut self, key: String) -> (reply: Result<RingCommands, ChordError>)
        requires
            old(self).wf(),
        ensures
            final(self).wf(),
            final(self)@ == lookup_step(old(self)@, key@).ring,
            ring_shown(reply) == lookup_step(old(self)@, key@).reply,
    {
        proof {
            lemma_members_stay_distinct(self@, RingEventView::LookupRequested { key: key@ });
        }
        let ghost before = self@.members;
        let node = match self.nodes.front() {
            Some(n) => n.clone(),
            None => {
                return Err(ChordError::EmptyRing);
            },
        };
        assert(node@ == before[0]);
        self.nodes.rotate();
        assert(self@.members =~= rotated(before));
        Ok(
            only(
                Command::Send {
                    to: node.clone(),
                    message: Message::LookupReq { key, hops: 0 },
                    pending: Some(RingPending::Lookup { node }),
                },
            ),
        )
    }

    /// Hands records of a client to every member.
    pub fn handle_upload(&self, records: Vec<Data>) -> (reply: Result<RingCommands, ChordError>)
        ensures
            ring_shown(reply) == upload_reply(self@, records.deep_view()),
    {
        let node_count = self.nodes.len();
        if node_count == 0 {
            return Err(ChordError::EmptyRing);
        }
        let mut commands: RingCommands = Vec::new();
        let mut i: usize = 0;
        while i < node_count
            invariant
                node_count == self.nodes@.len(),
                i <= node_count,
                commands@.len() == i,
                forall|j: int|
                    0 <= j < i ==> (#[trigger] commands@[j]).deep_view() == (CommandView::Insert::<
                        RingPendingView,
                    > { to: self.nodes@[j]@, records: records.deep_view(), pending: None }),
            decreases node_count - i,
        {
            match self.nodes.get(i) {
                Some(node) => {
                    commands.push(
                        Command::Insert {
                            to: node.clone(),
                            records: clone_records(&records),
                            pending: None,
                        },
                    );
                },
                None => {},
            }
            i += 1;
        }
        assert(commands.deep_view() =~= upload_reply(self@, records.deep_view())->Ok_0);
        Ok(commands)
    }

    /// Answers an event: the coordinator moves to its next state and says
    /// what the runtime has to do.
    pub fn handle(&mut self, event: RingEvent) -> (reply: Result<RingCommands, ChordError>)
        requires
            old(self).wf(),
        ensures
            final(self).wf(),
            final(self)@ == ring_step(old(self)@, event@).ring,
            ring_shown(reply) == ring_step(old(self)@, event@).reply,
    {
        match event {
            RingEvent::Received { message } => Ok(self.receive(message)),
            RingEvent::Completed { pending, outcome } => self.complete(pending, outcome),
            RingEvent::LivenessCheck => Ok(self.liveness_check()),
            RingEvent::LookupRequested { key } => self.handle_lookup(key),
            RingEvent::UploadRequested { records } => self.handle_upload(records),
        }
    }
}

} // verus!
