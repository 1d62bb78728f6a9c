use demo_overlay::names::args_from_name;
use demo_overlay::playersearch::{PlayerFilter, PlayerSearchHandler};

#[test]
fn args_from_recording_name() {
    assert_eq!(args_from_name("demos/Player_1234.dem"), Some(("player".to_string(), 1234, 6234)));
    assert_eq!(args_from_name("Foo_12_extra.dem"), Some(("foo".to_string(), 12, 5012)));
    assert_eq!(args_from_name("a/b/c_7"), Some(("c".to_string(), 7, 5007)));
}

#[test]
fn args_from_name_rejects_bad_names() {
    assert_eq!(args_from_name("nounderscore.dem"), None);
    assert_eq!(args_from_name("p_x12.dem"), None);
    assert_eq!(args_from_name("p_4294967295.dem"), None);
}

#[test]
fn filter_by_steam_id_or_name() {
    match PlayerFilter::new("76561197960287930".to_string()) {
        PlayerFilter::SteamId(id) => assert_eq!(id, 76561197960287930),
        PlayerFilter::Name(_) => panic!("expected a steam id"),
    }
    let by_name = PlayerFilter::new("bob".to_string());
    assert!(matches!(by_name, PlayerFilter::Name(_)));
    assert!(by_name.matches("xX BOB Xx", "nothing"));
    assert!(!by_name.matches("alice", "nothing"));
    let by_id = PlayerFilter::new("[U:1:22202]".to_string());
    assert!(by_id.matches("anyone", "76561197960287930"));
    assert!(!by_id.matches("anyone", "[U:1:22203]"));
}

#[test]
fn search_finds_filtered_player_once() {
    let mut h = PlayerSearchHandler::new(Some("bob".to_string()));
    h.handle_user_info("Alice", "[U:1:1]", 3, 30);
    assert_eq!(h.found(), None);
    h.handle_user_info("Bobby", "[U:1:2]", 4, 40);
    h.handle_user_info("Bob", "[U:1:3]", 5, 50);
    assert_eq!(h.found(), Some((4, 40)));
    assert_eq!(h.search_name(), None);
}

#[test]
fn search_without_filter_uses_recording_player() {
    let mut h = PlayerSearchHandler::new(None);
    h.handle_server_info(4);
    h.handle_user_info("Someone", "[U:1:9]", 5, 77);
    assert_eq!(h.found(), Some((5, 77)));
}

#[test]
fn search_falls_back_to_candidates() {
    let mut h = PlayerSearchHandler::new(Some("nick".to_string()));
    h.handle_user_info("Alice", "[U:1:22202]", 3, 30);
    assert_eq!(h.found(), None);
    assert_eq!(h.search_name(), Some("nick".to_string()));
    assert_eq!(h.resolve_candidates(&vec![1, 76561197960287930]), Some(("Alice".to_string(), 3, 30)));
    assert_eq!(h.resolve_candidates(&vec![76561197960287930]), None);
}
