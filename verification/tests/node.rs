use gateway_proxy::message::{CommandMessage, MessagePayloadType};
use gateway_proxy::node::{
    identity_response, next_node_id, node_manager_step, Exhausted, NodeManagerAction,
    NodeManagerEvent, NodeManagerState, Refusal, FIRST_NODE_ID, LAST_NODE_ID, UNASSIGNED_NODE_ID,
};

#[test]
fn the_range_of_ids() {
    assert_eq!(FIRST_NODE_ID, 1);
    assert_eq!(LAST_NODE_ID, 254);
    assert_eq!(UNASSIGNED_NODE_ID, 255);
}

#[test]
fn the_first_id_is_one() {
    assert_eq!(next_node_id(&vec![]), Ok(1));
    assert_eq!(next_node_id(&vec![0, 255]), Ok(1));
}

#[test]
fn the_lowest_free_id_is_given() {
    assert_eq!(next_node_id(&vec![1, 2, 3]), Ok(4));
    assert_eq!(next_node_id(&vec![3, 1, 2, 2, 1]), Ok(4));
    assert_eq!(next_node_id(&vec![1, 2, 4, 5]), Ok(3));
    assert_eq!(next_node_id(&vec![2, 3]), Ok(1));
    let all_but_last: Vec<u8> = (1..=253).collect();
    assert_eq!(next_node_id(&all_but_last), Ok(254));
}

#[test]
fn no_id_is_left_when_all_are_taken() {
    let all: Vec<u8> = (1..=254).collect();
    assert_eq!(next_node_id(&all), Err(Exhausted));
    let more: Vec<u8> = (0..=255).rev().collect();
    assert_eq!(next_node_id(&more), Err(Exhausted));
}

#[test]
fn no_id_is_given_twice() {
    let mut assigned: Vec<u8> = vec![5, 1, 200, 254, 3];
    let before = assigned.clone();
    let mut given: Vec<u8> = Vec::new();
    for _ in 0..300 {
        match next_node_id(&assigned) {
            Ok(id) => {
                assert!((1..=254).contains(&id));
                assert!(!before.contains(&id));
                assert!(!given.contains(&id));
                given.push(id);
                assigned.push(id);
            }
            Err(Exhausted) => {}
        }
    }
    assert_eq!(given.len(), 254 - before.len());
    assert_eq!(next_node_id(&assigned), Err(Exhausted));
}

#[test]
fn the_answer_is_addressed_as_the_request() {
    let request = CommandMessage::new(&String::from("255;255;3;0;3;")).unwrap();
    let response = identity_response(&request, 17);
    assert_eq!(
        response,
        CommandMessage {
            node_id: 255,
            child_sensor_id: 255,
            command: 3,
            ack: 0,
            sub_type: 4,
            payload: MessagePayloadType::OtherPayload(vec![17]),
        }
    );
    assert_eq!(response.encode(), "255;255;3;0;4;11");
    assert_eq!(CommandMessage::new(&response.encode()), Ok(response));
}

fn request() -> CommandMessage {
    CommandMessage::new(&String::from("255;255;3;0;3;")).unwrap()
}

#[test]
fn the_answer_leaves_after_the_id_is_persisted() {
    let (state, action) = node_manager_step(NodeManagerState::Idle, NodeManagerEvent::Request(request()));
    assert_eq!(state, NodeManagerState::Loading(request()));
    assert_eq!(action, NodeManagerAction::LoadRegistry);
    let (state, action) = node_manager_step(state, NodeManagerEvent::Registry(vec![1, 2, 4]));
    assert_eq!(state, NodeManagerState::Persisting(request(), 3));
    assert_eq!(action, NodeManagerAction::Persist(3));
    let (state, action) = node_manager_step(state, NodeManagerEvent::Persisted(3));
    assert_eq!(state, NodeManagerState::Idle);
    assert_eq!(action, NodeManagerAction::Send(identity_response(&request(), 3)));
}

#[test]
fn nothing_is_sent_when_the_registry_fails() {
    let loading = NodeManagerState::Loading(request());
    assert_eq!(
        node_manager_step(loading.clone(), NodeManagerEvent::RegistryFailed),
        (NodeManagerState::Idle, NodeManagerAction::Drop(Refusal::RegistryFailed))
    );
    let all: Vec<u8> = (1..=254).collect();
    assert_eq!(
        node_manager_step(loading, NodeManagerEvent::Registry(all)),
        (NodeManagerState::Idle, NodeManagerAction::Drop(Refusal::Exhausted))
    );
    let persisting = NodeManagerState::Persisting(request(), 3);
    assert_eq!(
        node_manager_step(persisting.clone(), NodeManagerEvent::PersistFailed),
        (NodeManagerState::Idle, NodeManagerAction::Drop(Refusal::PersistFailed))
    );
    assert_eq!(
        node_manager_step(persisting, NodeManagerEvent::Persisted(4)),
        (NodeManagerState::Idle, NodeManagerAction::Drop(Refusal::Unexpected))
    );
}

#[test]
fn what_was_not_asked_for_ends_the_request() {
    let states = [
        NodeManagerState::Idle,
        NodeManagerState::Loading(request()),
        NodeManagerState::Persisting(request(), 3),
    ];
    let events = [
        NodeManagerEvent::Request(request()),
        NodeManagerEvent::Registry(vec![]),
        NodeManagerEvent::RegistryFailed,
        NodeManagerEvent::Persisted(3),
        NodeManagerEvent::PersistFailed,
    ];
    let asked_for = [(0, 0), (1, 1), (1, 2), (2, 3), (2, 4)];
    for (i, state) in states.iter().enumerate() {
        for (j, event) in events.iter().enumerate() {
            let (next, action) = node_manager_step(state.clone(), event.clone());
            if !asked_for.contains(&(i, j)) {
                assert_eq!(next, NodeManagerState::Idle);
                assert_eq!(action, NodeManagerAction::Drop(Refusal::Unexpected));
            }
            if matches!(action, NodeManagerAction::Send(_)) {
                assert_eq!((i, j), (2, 3));
            }
        }
    }
}
