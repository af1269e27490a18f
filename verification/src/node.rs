//! Node identities.
//!
//! A node without an id asks for one under the id reserved for that. The node
//! manager answers with the lowest id that no node has yet. The ids already
//! given are read from the registry for every request, and the new one is
//! written there before the answer leaves, so no id is given twice.
//!
//! The node manager is a machine of three states. It reads and writes nothing
//! itself: `node_manager_step` says what is to be done next, and is told what
//! came of it.
//!
//! ```text
//! Idle ── Request ──► Loading ── Registry ──► Persisting ── Persisted ──► Idle
//!         load the registry      persist the id             send the answer
//! ```
//!
//! Whatever else happens ends the request without an answer: the node asks
//! again.

use vstd::prelude::*;
use crate::interceptor::I_ID_RESPONSE;
use crate::message::{CommandMessage, CommandType, MessagePayloadType, MessageView, PayloadView};

verus! {

/// The lowest id that a node can have. Id 0 is the gateway's.
pub const FIRST_NODE_ID: u8 = 1;

/// The highest id that a node can have.
pub const LAST_NODE_ID: u8 = 254;

/// The id under which a node without an id sends.
pub const UNASSIGNED_NODE_ID: u8 = 255;

/// No id is left to give.
#[derive(Debug, Clone, Copy, PartialEq, Eq, Structural)]
pub struct Exhausted;

/// The lowest id from `from` up to `LAST_NODE_ID` that is not assigned.
pub open spec fn first_free_from(assigned: Set<u8>, from: int) -> Option<u8>
    decreases 255 - from,
{
    if from < FIRST_NODE_ID || from > LAST_NODE_ID {
        None
    } else if !assigned.contains(from as u8) {
        Some(from as u8)
    } else {
        first_free_from(assigned, from + 1)
    }
}

/// The id that the next node gets: the lowest that is not assigned.
pub open spec fn next_free(assigned: Set<u8>) -> Option<u8> {
    first_free_from(assigned, FIRST_NODE_ID as int)
}

/// What the lowest free id is: an id between `from` and `LAST_NODE_ID` that
/// is not assigned while all between `from` and it are; and where there is
/// none, all of them are assigned.
pub proof fn lemma_first_free_from(assigned: Set<u8>, from: int)
    requires
        1 <= from <= 255,
    ensures
        match first_free_from(assigned, from) {
            Some(id) => {
                &&& from <= id <= LAST_NODE_ID
                &&& !assigned.contains(id)
                &&& forall|other: u8| from <= other < id ==> assigned.contains(other)
            },
            None => forall|other: u8| from <= other <= LAST_NODE_ID ==> assigned.contains(other),
        },
    decreases 255 - from,
{
    if from <= 254 && assigned.contains(from as u8) {
        lemma_first_free_from(assigned, from + 1);
    }
}

/// Finds the id for the next node, given the ids that nodes already have.
///
/// Fails when every id from `FIRST_NODE_ID` to `LAST_NODE_ID` is taken, and
/// only then.
pub fn next_node_id(assigned: &Vec<u8>) -> (result: Result<u8, Exhausted>)
    ensures
        result matches Ok(id) ==> next_free(assigned@.to_set()) == Some(id),
        result is Err ==> next_free(assigned@.to_set()) is None,
{
    let mut taken: [bool; 256] = [false; 256];
    let mut i: usize = 0;
    while i < assigned.len()
        invariant
            i <= assigned.len(),
            forall|k: int|
                0 <= k < 256 ==> (#[trigger] taken@[k] <==> assigned@.take(i as int).contains(
                    k as u8,
                )),
        decreases assigned.len() - i,
    {
        let id: u8 = assigned[i];
        let ghost before = assigned@.take(i as int);
        let ghost after = assigned@.take(i + 1);
        taken[id as usize] = true;
        proof {
            assert(after =~= before.push(id));
            assert forall|k: int| 0 <= k < 256 implies (#[trigger] taken@[k] <==> after.contains(
                k as u8,
            )) by {
                if after.contains(k as u8) {
                    let j = choose|j: int| 0 <= j < after.len() && after[j] == k as u8;
                    if j < i {
                        assert(before[j] == k as u8);
                    }
                }
                if before.contains(k as u8) {
                    let j = choose|j: int| 0 <= j < before.len() && before[j] == k as u8;
                    assert(after[j] == k as u8);
                }
                if k == id {
                    assert(after[i as int] == id);
                }
            }
        }
        i += 1;
    }
    assert(assigned@.take(i as int) =~= assigned@);
    let ghost set = assigned@.to_set();
    let mut candidate: u8 = FIRST_NODE_ID;
    while candidate <= LAST_NODE_ID
        invariant
            1 <= candidate <= 255,
            set == assigned@.to_set(),
            forall|k: int| 0 <= k < 256 ==> (#[trigger] taken@[k] <==> assigned@.contains(k as u8)),
            first_free_from(set, candidate as int) == next_free(set),
        decreases 255 - candidate,
    {
        if !taken[candidate as usize] {
            assert(!set.contains(candidate));
            return Ok(candidate);
        }
        assert(set.contains(candidate));
        candidate += 1;
    }
    Err(Exhausted)
}

/// The message that assigns an id to the node that asked: addressed as the
/// request was, command `INTERNAL`, no ack, type `I_ID_RESPONSE`, and the id
/// as the one byte of the payload.
pub open spec fn identity_response_of(request: MessageView, id: u8) -> MessageView {
    MessageView {
        node_id: request.node_id,
        child_sensor_id: request.child_sensor_id,
        command: CommandType::INTERNAL.code_of(),
        ack: 0,
        sub_type: I_ID_RESPONSE,
        payload: PayloadView::Other(seq![id]),
    }
}

/// Builds the answer to a request for an id.
pub fn identity_response(request: &CommandMessage, id: u8) -> (response: CommandMessage)
    ensures
        response@ == identity_response_of(request@, id),
        response@.well_formed(),
        response@.encodable(),
{
    let mut payload: Vec<u8> = Vec::new();
    payload.push(id);
    assert(payload@ =~= seq![id]);
    CommandMessage {
        node_id: request.node_id,
        child_sensor_id: request.child_sensor_id,
        command: CommandType::INTERNAL.code(),
        ack: 0,
        sub_type: I_ID_RESPONSE,
        payload: MessagePayloadType::OtherPayload(payload),
    }
}

/// The answers to a run of requests, one after the other, each id entering
/// the registry before the next request is served. `None` stands for a
/// request that found no id left.
pub open spec fn allocate_all(assigned: Set<u8>, requests: nat) -> Seq<Option<u8>>
    decreases requests,
{
    if requests == 0 {
        Seq::empty()
    } else {
        let answer = next_free(assigned);
        let after = match answer {
            Some(id) => assigned.insert(id),
            None => assigned,
        };
        seq![answer] + allocate_all(after, (requests - 1) as nat)
    }
}

/// No id is given twice: in any run of requests, every id given is one that
/// a node can have, was not assigned before the run, and differs from every
/// other id given in the run.
pub proof fn lemma_ids_unique(assigned: Set<u8>, requests: nat)
    ensures
        allocate_all(assigned, requests).len() == requests,
        forall|i: int|
            0 <= i < requests ==> (#[trigger] allocate_all(assigned, requests)[i] matches Some(id)
                ==> FIRST_NODE_ID <= id <= LAST_NODE_ID && !assigned.contains(id)),
        forall|i: int, j: int|
            0 <= i < j < requests ==> (#[trigger] allocate_all(assigned, requests)[i] matches Some(
                first,
            ) ==> #[trigger] allocate_all(assigned, requests)[j] != Some(first)),
    decreases requests,
{
    if requests > 0 {
        let answer = next_free(assigned);
        let after = match answer {
            Some(id) => assigned.insert(id),
            None => assigned,
        };
        let rest = allocate_all(after, (requests - 1) as nat);
        let all = allocate_all(assigned, requests);
        lemma_first_free_from(assigned, 1);
        lemma_ids_unique(after, (requests - 1) as nat);
        assert(all =~= seq![answer] + rest);
        assert forall|i: int| 0 <= i < requests implies (#[trigger] all[i] matches Some(id)
            ==> FIRST_NODE_ID <= id <= LAST_NODE_ID && !assigned.contains(id)) by {
            if i > 0 {
                assert(all[i] == rest[i - 1]);
            }
        }
        assert forall|i: int, j: int| 0 <= i < j < requests implies (#[trigger] all[i] matches Some(
            first,
        ) ==> #[trigger] all[j] != Some(first)) by {
            assert(all[j] == rest[j - 1]);
            if i > 0 {
                assert(all[i] == rest[i - 1]);
            }
        }
    }
}


/// Why a request for an id was given up without an answer.
#[derive(Debug, Clone, Copy, PartialEq, Eq, Structural)]
pub enum Refusal {
    /// The registry could not be read.
    RegistryFailed,
    /// Every id is taken.
    Exhausted,
    /// The id could not be written to the registry.
    PersistFailed,
    /// Something was reported that the node manager had not asked for.
    Unexpected,
}

/// Where the node manager stands.
#[derive(Debug, Clone, PartialEq, Eq)]
pub enum NodeManagerState {
    /// No request is being served.
    Idle,
    /// The registry is being read for this request.
    Loading(CommandMessage),
    /// This id is being written to the registry for this request.
    Persisting(CommandMessage, u8),
}

/// What is reported to the node manager.
#[derive(Debug, Clone, PartialEq, Eq)]
pub enum NodeManagerEvent {
    /// A node asks for an id.
    Request(CommandMessage),
    /// The registry was read: these ids are taken.
    Registry(Vec<u8>),
    /// The registry could not be read.
    RegistryFailed,
    /// This id was written to the registry.
    Persisted(u8),
    /// The id could not be written to the registry.
    PersistFailed,
}

/// What the node manager wants done.
#[derive(Debug, Clone, PartialEq, Eq)]
pub enum NodeManagerAction {
    /// Read the registry, and report `Registry` or `RegistryFailed`.
    LoadRegistry,
    /// Write this id to the registry, and report `Persisted` or
    /// `PersistFailed`.
    Persist(u8),
    /// Send this answer to the gateway, and take the next request.
    Send(CommandMessage),
    /// Send nothing, and take the next request.
    Drop(Refusal),
}

/// The state of the node manager, as a value of mathematics.
pub enum StateView {
    Idle,
    Loading(MessageView),
    Persisting(MessageView, u8),
}

/// What is reported to the node manager, as a value of mathematics.
pub enum EventView {
    Request(MessageView),
    Registry(Seq<u8>),
    RegistryFailed,
    Persisted(u8),
    PersistFailed,
}

/// What the node manager wants done, as a value of mathematics.
pub enum ActionView {
    LoadRegistry,
    Persist(u8),
    Send(MessageView),
    Drop(Refusal),
}

impl View for NodeManagerState {
    type V = StateView;

    open spec fn view(&self) -> StateView {
        match self {
            NodeManagerState::Idle => StateView::Idle,
            NodeManagerState::Loading(request) => StateView::Loading(request@),
            NodeManagerState::Persisting(request, id) => StateView::Persisting(request@, *id),
        }
    }
}

impl View for NodeManagerEvent {
    type V = EventView;

    open spec fn view(&self) -> EventView {
        match self {
            NodeManagerEvent::Request(request) => EventView::Request(request@),
            NodeManagerEvent::Registry(assigned) => EventView::Registry(assigned@),
            NodeManagerEvent::RegistryFailed => EventView::RegistryFailed,
            NodeManagerEvent::Persisted(id) => EventView::Persisted(*id),
            NodeManagerEvent::PersistFailed => EventView::PersistFailed,
        }
    }
}

impl View for NodeManagerAction {
    type V = ActionView;

    open spec fn view(&self) -> ActionView {
        match self {
            NodeManagerAction::LoadRegistry => ActionView::LoadRegistry,
            NodeManagerAction::Persist(id) => ActionView::Persist(*id),
            NodeManagerAction::Send(response) => ActionView::Send(response@),
            NodeManagerAction::Drop(refusal) => ActionView::Drop(*refusal),
        }
    }
}

/// The step of the node manager: the state it goes to and what it wants
/// done, given the state it is in and what is reported to it.
///
/// * Idle, and a node asks: read the registry.
/// * The registry is read: persist the lowest free id, or give up where none
///   is left.
/// * That id is persisted: send the answer that assigns it.
/// * Anything else: give up the request, if there is one, and send nothing.
pub open spec fn node_manager_step_of(state: StateView, event: EventView) -> (
    StateView,
    ActionView,
) {
    match (state, event) {
        (StateView::Idle, EventView::Request(request)) => (
            StateView::Loading(request),
            ActionView::LoadRegistry,
        ),
        (StateView::Loading(request), EventView::Registry(assigned)) => match next_free(
            assigned.to_set(),
        ) {
            Some(id) => (StateView::Persisting(request, id), ActionView::Persist(id)),
            None => (StateView::Idle, ActionView::Drop(Refusal::Exhausted)),
        },
        (StateView::Loading(_), EventView::RegistryFailed) => (
            StateView::Idle,
            ActionView::Drop(Refusal::RegistryFailed),
        ),
        (StateView::Persisting(request, id), EventView::Persisted(written)) => if written == id {
            (StateView::Idle, ActionView::Send(identity_response_of(request, id)))
        } else {
            (StateView::Idle, ActionView::Drop(Refusal::Unexpected))
        },
        (StateView::Persisting(_, _), EventView::PersistFailed) => (
            StateView::Idle,
            ActionView::Drop(Refusal::PersistFailed),
        ),
        _ => (StateView::Idle, ActionView::Drop(Refusal::Unexpected)),
    }
}

/// Makes one step of the node manager.
pub fn node_manager_step(state: NodeManagerState, event: NodeManagerEvent) -> (next: (
    NodeManagerState,
    NodeManagerAction,
))
    ensures
        (next.0@, next.1@) == node_manager_step_of(state@, event@),
{
    match state {
        NodeManagerState::Idle => match event {
            NodeManagerEvent::Request(request) => (
                NodeManagerState::Loading(request),
                NodeManagerAction::LoadRegistry,
            ),
            _ => (NodeManagerState::Idle, NodeManagerAction::Drop(Refusal::Unexpected)),
        },
        NodeManagerState::Loading(request) => match event {
            NodeManagerEvent::Registry(assigned) => match next_node_id(&assigned) {
                Ok(id) => (NodeManagerState::Persisting(request, id), NodeManagerAction::Persist(id)),
                Err(_) => (NodeManagerState::Idle, NodeManagerAction::Drop(Refusal::Exhausted)),
            },
            NodeManagerEvent::RegistryFailed => (
                NodeManagerState::Idle,
                NodeManagerAction::Drop(Refusal::RegistryFailed),
            ),
            _ => (NodeManagerState::Idle, NodeManagerAction::Drop(Refusal::Unexpected)),
        },
        NodeManagerState::Persisting(request, id) => match event {
            NodeManagerEvent::Persisted(written) => if written == id {
                (NodeManagerState::Idle, NodeManagerAction::Send(identity_response(&request, id)))
            } else {
                (NodeManagerState::Idle, NodeManagerAction::Drop(Refusal::Unexpected))
            },
            NodeManagerEvent::PersistFailed => (
                NodeManagerState::Idle,
                NodeManagerAction::Drop(Refusal::PersistFailed),
            ),
            _ => (NodeManagerState::Idle, NodeManagerAction::Drop(Refusal::Unexpected)),
        },
    }
}

/// An answer leaves only after its id is in the registry: the node manager
/// sends only on the report that the id it asked to persist was persisted,
/// and what it sends assigns that id to the node that asked.
pub proof fn lemma_send_only_after_persisted(state: StateView, event: EventView)
    ensures
        node_manager_step_of(state, event).1 matches ActionView::Send(response) ==> {
            &&& state matches StateView::Persisting(request, id)
            &&& event == EventView::Persisted(id)
            &&& response == identity_response_of(request, id)
            &&& node_manager_step_of(state, event).0 == StateView::Idle
        },
{
}

/// An id is persisted only if it is the lowest free one in the registry as it
/// was just read, and the node manager waits for that id to be persisted
/// only after it asked for that.
pub proof fn lemma_persist_only_free_id(state: StateView, event: EventView)
    ensures
        node_manager_step_of(state, event).1 matches ActionView::Persist(id) ==> {
            &&& state matches StateView::Loading(request)
            &&& event matches EventView::Registry(assigned)
            &&& next_free(assigned.to_set()) == Some(id)
            &&& node_manager_step_of(state, event).0 == StateView::Persisting(request, id)
        },
        node_manager_step_of(state, event).0 matches StateView::Persisting(_, id) ==> node_manager_step_of(
            state,
            event,
        ).1 == ActionView::Persist(id),
{
}

} // verus!
