use mc_networking::client::failure::{failure_reason, on_listen_failure, IoErrorKind};
use mc_networking::client::ClientState;
use mc_networking::handlers::{creative_slot, on_login_start, InventoryField, LoginDecision};

#[test]
fn a_full_server_refuses_logins() {
    match on_login_start(10, 10, 3, "Alex".to_string()) {
        LoginDecision::Refuse { reason } => assert_eq!(reason, "The server is full :("),
        _ => panic!("expected a refusal"),
    }
    assert!(matches!(on_login_start(0, 0, 3, "Alex".to_string()), LoginDecision::Refuse { .. }));
}

#[test]
fn a_login_takes_the_next_entity_id() {
    match on_login_start(2, 10, 3, "Alex".to_string()) {
        LoginDecision::Accept { entity_id, next_eid, username } => {
            assert_eq!((entity_id, next_eid), (3, 4));
            assert_eq!(username, "Alex");
        }
        _ => panic!("expected the player in"),
    }
    match on_login_start(0, 1, i32::MAX, "B".to_string()) {
        LoginDecision::Accept { entity_id, next_eid, .. } => assert_eq!((entity_id, next_eid), (i32::MAX, i32::MIN)),
        _ => panic!("expected the player in"),
    }
}

#[test]
fn creative_slots_map_onto_the_inventory() {
    assert_eq!(creative_slot(0, 5), None);
    assert_eq!(creative_slot(1, 0), Some(InventoryField::CraftingOutput));
    assert_eq!(creative_slot(1, 4), Some(InventoryField::CraftingInput(3)));
    assert_eq!(creative_slot(1, 8), Some(InventoryField::ArmorFeet));
    assert_eq!(creative_slot(1, 9), Some(InventoryField::MainInventory(0)));
    assert_eq!(creative_slot(1, 35), Some(InventoryField::MainInventory(26)));
    assert_eq!(creative_slot(1, 36), Some(InventoryField::Hotbar(0)));
    assert_eq!(creative_slot(1, 44), Some(InventoryField::Hotbar(8)));
    assert_eq!(creative_slot(1, 45), Some(InventoryField::Offhand));
    assert_eq!(creative_slot(1, 46), None);
    assert_eq!(creative_slot(1, -1), None);
}

#[test]
fn a_closed_connection_in_play_ends_quietly() {
    assert_eq!(failure_reason(Some(IoErrorKind::ConnectionReset), ClientState::Play), None);
    assert_eq!(failure_reason(Some(IoErrorKind::UnexpectedEof), ClientState::Play), None);
    let answer = Some("{\"text\":\"Unexpected error\"}".to_string());
    assert_eq!(failure_reason(Some(IoErrorKind::ConnectionReset), ClientState::Login), answer);
    assert_eq!(failure_reason(Some(IoErrorKind::Other), ClientState::Play), answer);
    assert_eq!(failure_reason(None, ClientState::Play), answer);
    let eof = std::io::Error::from(std::io::ErrorKind::UnexpectedEof);
    assert_eq!(on_listen_failure(Some(&eof), ClientState::Play), None);
    assert_eq!(on_listen_failure(Some(&eof), ClientState::Status), answer);
    let other = std::io::Error::new(std::io::ErrorKind::InvalidData, "x");
    assert_eq!(on_listen_failure(Some(&other), ClientState::Play), answer);
}
