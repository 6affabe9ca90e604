use event_manager::{Event, EventManager, EventUpdate, EventUpdateResult, ManagerError};

fn s(v: &str) -> String {
    v.to_string()
}

fn event(id: &str, creator: &str) -> Event {
    Event {
        event_id: s(id),
        event_name: format!("name of {}", id),
        entity_name: s("entity"),
        creator_wallet: s(creator),
        event_created_at: 100,
        event_txn_receipt_id: s("receipt"),
        launch_date_start: 200,
        end_date: 300,
        location: None,
        event_type: Some(s("meetup")),
        campaign_type: None,
        event_description: None,
        event_image: None,
    }
}

fn no_update() -> EventUpdate {
    EventUpdate {
        event_name: None,
        entity_name: None,
        creator_wallet: None,
        event_created_at: None,
        event_txn_receipt_id: None,
        launch_date_start: None,
        end_date: None,
        location: None,
        event_type: None,
        campaign_type: None,
        event_description: None,
        event_image: None,
    }
}

fn store_with_admin(admin: &str) -> EventManager {
    EventManager::new(vec![s(admin)])
}

fn is_not_found(r: &Result<EventUpdateResult, ManagerError>) -> bool {
    matches!(r, Ok(EventUpdateResult::Error(m)) if m == "Event not found")
}

#[test]
fn add_then_get_returns_the_record() {
    let mut m = store_with_admin("alice");
    assert_eq!(m.add_event(&s("alice"), event("e1", "bob")), Ok(()));
    assert_eq!(m.get_event(s("e1")), Some(event("e1", "bob")));
    assert_eq!(m.get_event(s("e2")), None);
    assert_eq!(m.list_event_ids(), vec![s("e1")]);
}

#[test]
fn add_duplicate_id_is_refused_and_store_unchanged() {
    let mut m = store_with_admin("alice");
    assert_eq!(m.add_event(&s("alice"), event("e1", "bob")), Ok(()));
    assert_eq!(m.add_event(&s("alice"), event("e1", "carol")), Err(ManagerError::DuplicateId));
    assert_eq!(m.list_event_ids(), vec![s("e1")]);
    assert_eq!(m.get_event(s("e1")), Some(event("e1", "bob")));
    assert!(m.get_events_by_creator(s("carol")).is_empty());
}

#[test]
fn add_by_non_admin_is_refused_and_store_unchanged() {
    let mut m = store_with_admin("alice");
    assert_eq!(m.add_event(&s("bob"), event("e1", "bob")), Err(ManagerError::PermissionDenied));
    assert!(m.list_event_ids().is_empty());
    assert_eq!(m.get_event(s("e1")), None);
    assert!(m.get_events_by_creator(s("bob")).is_empty());
}

#[test]
fn non_admin_duplicate_is_a_permission_error() {
    let mut m = store_with_admin("alice");
    assert_eq!(m.add_event(&s("alice"), event("e1", "bob")), Ok(()));
    assert_eq!(m.add_event(&s("bob"), event("e1", "bob")), Err(ManagerError::PermissionDenied));
}

#[test]
fn added_record_is_listed_for_its_creator() {
    let mut m = store_with_admin("alice");
    assert_eq!(m.add_event(&s("alice"), event("e1", "bob")), Ok(()));
    assert_eq!(m.add_event(&s("alice"), event("e2", "carol")), Ok(()));
    assert_eq!(m.add_event(&s("alice"), event("e3", "bob")), Ok(()));
    assert_eq!(m.get_events_by_creator(s("bob")), vec![event("e1", "bob"), event("e3", "bob")]);
    assert_eq!(m.get_events_by_creator(s("carol")), vec![event("e2", "carol")]);
    assert_eq!(m.list_event_ids(), vec![s("e1"), s("e2"), s("e3")]);
}

#[test]
fn update_of_unknown_id_reports_not_found() {
    let mut m = store_with_admin("alice");
    assert_eq!(m.add_event(&s("alice"), event("e1", "bob")), Ok(()));
    let r = m.update_event(&s("eve"), s("nope"), no_update());
    assert!(is_not_found(&r));
    assert_eq!(m.get_event(s("e1")), Some(event("e1", "bob")));
    assert_eq!(m.list_event_ids(), vec![s("e1")]);
}

#[test]
fn update_by_stranger_is_refused() {
    let mut m = store_with_admin("alice");
    assert_eq!(m.add_event(&s("alice"), event("e1", "bob")), Ok(()));
    let mut u = no_update();
    u.event_name = Some(s("hijacked"));
    assert_eq!(m.update_event(&s("eve"), s("e1"), u), Err(ManagerError::PermissionDenied));
    assert_eq!(m.get_event(s("e1")), Some(event("e1", "bob")));
}

#[test]
fn update_by_admin_is_allowed() {
    let mut m = store_with_admin("alice");
    assert_eq!(m.add_event(&s("alice"), event("e1", "bob")), Ok(()));
    let mut u = no_update();
    u.end_date = Some(999);
    assert_eq!(m.update_event(&s("alice"), s("e1"), u), Ok(EventUpdateResult::Success));
    assert_eq!(m.get_event(s("e1")).unwrap().end_date, 999);
}

#[test]
fn partial_update_keeps_unset_fields() {
    let mut m = store_with_admin("alice");
    assert_eq!(m.add_event(&s("alice"), event("e1", "bob")), Ok(()));
    let mut u = no_update();
    u.event_name = Some(s("renamed"));
    u.campaign_type = Some(s("drive"));
    u.launch_date_start = Some(250);
    assert_eq!(m.update_event(&s("bob"), s("e1"), u), Ok(EventUpdateResult::Success));
    let mut expected = event("e1", "bob");
    expected.event_name = s("renamed");
    expected.campaign_type = Some(s("drive"));
    expected.launch_date_start = 250;
    assert_eq!(m.get_event(s("e1")), Some(expected));
}

#[test]
fn empty_update_changes_nothing() {
    let mut m = store_with_admin("alice");
    assert_eq!(m.add_event(&s("alice"), event("e1", "bob")), Ok(()));
    assert_eq!(m.update_event(&s("bob"), s("e1"), no_update()), Ok(EventUpdateResult::Success));
    assert_eq!(m.get_event(s("e1")), Some(event("e1", "bob")));
}

#[test]
fn every_field_of_an_update_is_applied() {
    let u = EventUpdate {
        event_name: Some(s("n")),
        entity_name: Some(s("ent")),
        creator_wallet: Some(s("zed")),
        event_created_at: Some(1),
        event_txn_receipt_id: Some(s("r2")),
        launch_date_start: Some(2),
        end_date: Some(3),
        location: Some(s("Paris")),
        event_type: Some(s("t")),
        campaign_type: Some(s("c")),
        event_description: Some(s("d")),
        event_image: Some(s("i")),
    };
    let e = event("e1", "bob").apply(u);
    let expected = Event {
        event_id: s("e1"),
        event_name: s("n"),
        entity_name: s("ent"),
        creator_wallet: s("zed"),
        event_created_at: 1,
        event_txn_receipt_id: s("r2"),
        launch_date_start: 2,
        end_date: 3,
        location: Some(s("Paris")),
        event_type: Some(s("t")),
        campaign_type: Some(s("c")),
        event_description: Some(s("d")),
        event_image: Some(s("i")),
    };
    assert_eq!(e, expected);
}

#[test]
fn creator_change_does_not_move_the_index_entry() {
    let mut m = store_with_admin("alice");
    assert_eq!(m.add_event(&s("alice"), event("e1", "bob")), Ok(()));
    let mut u = no_update();
    u.creator_wallet = Some(s("carol"));
    assert_eq!(m.update_event(&s("bob"), s("e1"), u), Ok(EventUpdateResult::Success));
    let listed = m.get_events_by_creator(s("bob"));
    assert_eq!(listed.len(), 1);
    assert_eq!(listed[0].creator_wallet, s("carol"));
    assert!(m.get_events_by_creator(s("carol")).is_empty());
    // the new creator may now change it, the old one may not
    assert_eq!(m.update_event(&s("bob"), s("e1"), no_update()), Err(ManagerError::PermissionDenied));
    assert_eq!(m.update_event(&s("carol"), s("e1"), no_update()), Ok(EventUpdateResult::Success));
}

#[test]
fn delete_removes_from_roster_and_lookup() {
    let mut m = store_with_admin("alice");
    assert_eq!(m.add_event(&s("alice"), event("e1", "bob")), Ok(()));
    assert_eq!(m.add_event(&s("alice"), event("e2", "bob")), Ok(()));
    assert_eq!(m.add_event(&s("alice"), event("e3", "carol")), Ok(()));
    assert_eq!(m.delete_event(&s("alice"), s("e2")), Ok(EventUpdateResult::Success));
    assert_eq!(m.list_event_ids(), vec![s("e1"), s("e3")]);
    assert_eq!(m.get_event(s("e2")), None);
    assert_eq!(m.get_events_by_creator(s("bob")), vec![event("e1", "bob")]);
}

#[test]
fn delete_of_unknown_id_reports_not_found() {
    let mut m = store_with_admin("alice");
    assert_eq!(m.add_event(&s("alice"), event("e1", "bob")), Ok(()));
    let r = m.delete_event(&s("alice"), s("e9"));
    assert!(is_not_found(&r));
    assert_eq!(m.list_event_ids(), vec![s("e1")]);
}

#[test]
fn deleted_id_may_be_added_again() {
    let mut m = store_with_admin("alice");
    assert_eq!(m.add_event(&s("alice"), event("e1", "bob")), Ok(()));
    assert_eq!(m.delete_event(&s("bob"), s("e1")), Ok(EventUpdateResult::Success));
    assert_eq!(m.add_event(&s("alice"), event("e1", "carol")), Ok(()));
    assert_eq!(m.get_event(s("e1")), Some(event("e1", "carol")));
    // the stale index entry of the first creator now reaches the new record
    assert_eq!(m.get_events_by_creator(s("bob")), vec![event("e1", "carol")]);
    assert_eq!(m.get_events_by_creator(s("carol")), vec![event("e1", "carol")]);
}

#[test]
fn admin_bob_location_scenario() {
    let mut m = store_with_admin("A");
    assert_eq!(m.add_event(&s("A"), event("c1", "bob")), Ok(()));
    let mut u = no_update();
    u.location = Some(s("NYC"));
    assert_eq!(m.update_event(&s("bob"), s("c1"), u), Ok(EventUpdateResult::Success));
    assert_eq!(m.get_event(s("c1")).unwrap().location, Some(s("NYC")));
    assert_eq!(m.delete_event(&s("eve"), s("c1")), Err(ManagerError::PermissionDenied));
    assert!(m.get_event(s("c1")).is_some());
    assert_eq!(m.delete_event(&s("bob"), s("c1")), Ok(EventUpdateResult::Success));
    assert_eq!(m.get_event(s("c1")), None);
    assert!(!m.list_event_ids().contains(&s("c1")));
}

#[test]
fn creator_with_no_records_gets_empty_list() {
    let mut m = store_with_admin("alice");
    assert!(m.get_events_by_creator(s("nobody")).is_empty());
    assert_eq!(m.add_event(&s("alice"), event("e1", "bob")), Ok(()));
    assert!(m.get_events_by_creator(s("nobody")).is_empty());
}

#[test]
fn store_without_admins_refuses_every_add() {
    let mut m = EventManager::new(Vec::new());
    assert_eq!(m.add_event(&s(""), event("e1", "bob")), Err(ManagerError::PermissionDenied));
    assert!(m.list_event_ids().is_empty());
}

#[test]
fn several_admins_each_may_add() {
    let mut m = EventManager::new(vec![s("a1"), s("a2"), s("a2")]);
    assert_eq!(m.add_event(&s("a2"), event("e1", "x")), Ok(()));
    assert_eq!(m.add_event(&s("a1"), event("e2", "x")), Ok(()));
    assert_eq!(m.delete_event(&s("a2"), s("e1")), Ok(EventUpdateResult::Success));
    assert_eq!(m.list_event_ids(), vec![s("e2")]);
}

#[test]
fn ids_are_compared_exactly() {
    let mut m = store_with_admin("alice");
    assert_eq!(m.add_event(&s("alice"), event("E1", "bob")), Ok(()));
    assert_eq!(m.add_event(&s("alice"), event("e1", "bob")), Ok(()));
    assert_eq!(m.add_event(&s("alice"), event("", "bob")), Ok(()));
    assert_eq!(m.list_event_ids(), vec![s("E1"), s("e1"), s("")]);
    assert_eq!(m.get_event(s("")).unwrap().event_id, s(""));
}
