use sitmon_cli::app::{
    App, Effect, KeyCode, KeyPress, LayerId, PaneFocus, RefreshSchedule, SearchMode, SearchResult,
};
use sitmon_cli::data::Snapshot;
use sitmon_cli::model::{MapObject, ObjectKind, ObjectMetadata, Severity, Warship, WorldLeader};

fn incident(id: &str, label: &str, severity: Severity, ts: Option<i64>) -> MapObject {
    MapObject {
        id: id.to_string(),
        label: label.to_string(),
        kind: ObjectKind::Incident,
        severity: Some(severity),
        ship_status: None,
        lat_bits: 0,
        lng_bits: 0,
        metadata: ObjectMetadata::default(),
        timestamp: ts,
    }
}

fn plane(id: &str, label: &str) -> MapObject {
    MapObject {
        id: id.to_string(),
        label: label.to_string(),
        kind: ObjectKind::Aircraft,
        severity: None,
        ship_status: None,
        lat_bits: 0,
        lng_bits: 0,
        metadata: ObjectMetadata::default(),
        timestamp: None,
    }
}

fn ship(id: &str, name: &str, ship_type: &str, country: &str) -> Warship {
    Warship {
        id: id.to_string(),
        name: name.to_string(),
        ship_type: ship_type.to_string(),
        hull_number: None,
        region: String::from("Pacific"),
        lat_bits: 0,
        lng_bits: 0,
        country: country.to_string(),
        status: String::from("deployed"),
        group_name: None,
        group_type: None,
        flagship: false,
        source_url: None,
        source_date: None,
        updated_at: String::from("today"),
    }
}

fn leader(id: &str, name: &str) -> WorldLeader {
    WorldLeader {
        id: id.to_string(),
        name: name.to_string(),
        title: String::from("President"),
        country_code: String::from("FR"),
        location_name: String::from("Paris"),
        lat_bits: 0,
        lng_bits: 0,
        activity: String::from("Summit"),
        next_activity: None,
        source_summary: String::new(),
        confidence: String::from("high"),
        updated_at: String::from("today"),
    }
}

fn snapshot() -> Snapshot {
    Snapshot {
        events: vec![
            incident("e1", "Old strike", Severity::High, Some(100)),
            incident("e2", "New protest", Severity::Low, Some(300)),
            incident("e3", "Undated attack", Severity::Critical, None),
        ],
        aircraft: vec![plane("a1", "RCH1 | Globemaster")],
        warships: vec![
            ship("w1", "Destroyer B", "Destroyer", "US"),
            ship("w2", "Liaoning", "Aircraft Carrier", "CN"),
            ship("w3", "Nimitz", "Aircraft Carrier", "US"),
            ship("w4", "Destroyer A", "Destroyer", "UK"),
        ],
        leaders: vec![leader("l1", "Alice"), leader("l2", "Bob")],
    }
}

fn key(c: char) -> KeyPress {
    KeyPress { code: KeyCode::Char(c), control: false, shift: false }
}

fn code(c: KeyCode) -> KeyPress {
    KeyPress { code: c, control: false, shift: false }
}

fn labels(app: &App) -> Vec<String> {
    app.visible_objects().iter().map(|o| o.label.clone()).collect()
}

#[test]
fn new_app_lists_the_feed_in_feed_order() {
    let app = App::new(snapshot(), "mock");
    assert_eq!(app.status, "ready (mock)");
    assert_eq!(app.focus, PaneFocus::Feed);
    assert_eq!(
        labels(&app),
        vec!["New protest", "Old strike", "Undated attack", "RCH1 | Globemaster"]
    );
    assert!(app.layer_visible(LayerId::Incidents));
    assert!(app.layer_visible(LayerId::Ships));
    assert_eq!(app.selected_object().unwrap().id, "e2");
}

#[test]
fn selection_wraps_around_both_ways() {
    let mut app = App::new(snapshot(), "mock");
    app.handle_key(key('j'));
    assert_eq!(app.selected_idx, 1);
    app.handle_key(code(KeyCode::Down));
    assert_eq!(app.selected_idx, 2);
    app.handle_key(key('k'));
    app.handle_key(key('k'));
    assert_eq!(app.selected_idx, 0);
    app.handle_key(key('p'));
    assert_eq!(app.selected_idx, 3);
    app.handle_key(key('n'));
    assert_eq!(app.selected_idx, 0);
}

#[test]
fn quit_keys() {
    let mut app = App::new(snapshot(), "mock");
    app.handle_key(key('q'));
    assert!(app.quit);
    let mut app = App::new(snapshot(), "mock");
    app.handle_key(key('/'));
    assert!(app.is_searching);
    app.handle_key(KeyPress { code: KeyCode::Char('c'), control: true, shift: false });
    assert!(app.quit);
    let mut app = App::new(snapshot(), "mock");
    app.handle_key(key('t'));
    app.handle_key(KeyPress { code: KeyCode::Char('c'), control: true, shift: false });
    assert!(app.quit);
}

#[test]
fn severity_switch_filters_after_the_rebuild() {
    let mut app = App::new(snapshot(), "mock");
    app.handle_key(key('j'));
    app.handle_key(key('1'));
    assert_eq!(app.status, "low: off");
    assert_eq!(app.selected_idx, 0);
    assert_eq!(app.severity_filter, [false, true, true, true]);
    // the switch takes effect at once: the low event is gone from the feed
    assert_eq!(app.visible_objects().len(), 3);
    assert!(app.visible_objects().iter().all(|o| o.severity != Some(Severity::Low)));
    assert_eq!(app.visible_objects_mut().len(), 3);
    app.handle_key(key('1'));
    assert_eq!(app.status, "low: on");
    assert_eq!(app.severity_filter, [true, true, true, true]);
    assert_eq!(app.visible_objects().len(), 4);
}

#[test]
fn layer_panel_keys() {
    let mut app = App::new(snapshot(), "mock");
    assert!(matches!(app.handle_key(key('t')), Effect::Nothing));
    assert!(app.layer_panel_open);
    assert_eq!(app.status, "layer panel opened");
    app.handle_key(key('j'));
    assert_eq!(app.layer_cursor, 1);
    app.handle_key(key('j'));
    assert_eq!(app.layer_cursor, 1);
    app.handle_key(key(' '));
    assert_eq!(app.status, "ships: off");
    assert!(!app.layer_visible(LayerId::Ships));
    assert_eq!(app.visible_objects().len(), 3);
    app.handle_key(key('a'));
    assert_eq!(app.status, "all layers on");
    app.handle_key(key('a'));
    assert_eq!(app.status, "all layers off");
    assert_eq!(app.visible_objects().len(), 0);
    app.handle_key(key('d'));
    assert_eq!(app.status, "layers reset to defaults");
    assert!(app.layer_visible(LayerId::Incidents) && app.layer_visible(LayerId::Ships));
    app.handle_key(key('k'));
    assert_eq!(app.layer_cursor, 0);
    app.handle_key(code(KeyCode::Esc));
    assert!(!app.layer_panel_open);
    assert_eq!(app.status, "layer panel closed");
}

#[test]
fn focus_moves_between_panes() {
    let mut app = App::new(snapshot(), "mock");
    app.handle_key(key('l'));
    assert_eq!(app.focus, PaneFocus::Warships);
    assert_eq!(app.status, "focus: warships");
    app.handle_key(code(KeyCode::Tab));
    assert_eq!(app.focus, PaneFocus::Leaders);
    app.handle_key(code(KeyCode::Tab));
    assert_eq!(app.focus, PaneFocus::Feed);
    app.handle_key(code(KeyCode::BackTab));
    assert_eq!(app.focus, PaneFocus::Leaders);
    app.handle_key(KeyPress { code: KeyCode::Tab, control: false, shift: true });
    assert_eq!(app.focus, PaneFocus::Warships);
    app.handle_key(key('h'));
    assert_eq!(app.focus, PaneFocus::Feed);
    assert_eq!(app.status, "focus: feed");
}

#[test]
fn opening_an_incident_asks_for_its_signals() {
    let mut app = App::new(snapshot(), "mock");
    match app.handle_key(code(KeyCode::Enter)) {
        Effect::IncidentExpanded(id) => assert_eq!(id, "e2"),
        _ => panic!("expected the incident's signals to be asked for"),
    }
    assert_eq!(app.expanded_idx, Some(0));
    assert_eq!(app.status, "detail view opened");
    assert!(matches!(app.handle_key(code(KeyCode::Enter)), Effect::Nothing));
    assert_eq!(app.expanded_idx, None);
    assert_eq!(app.status, "detail view closed");
    // the aircraft stands last; backwards from the top wraps to it
    app.handle_key(key('k'));
    assert!(matches!(app.handle_key(code(KeyCode::Enter)), Effect::Nothing));
    assert_eq!(app.expanded_idx, Some(3));
    app.handle_key(code(KeyCode::Esc));
    assert_eq!(app.expanded_idx, None);
}

#[test]
fn refresh_key_and_outcomes() {
    let mut app = App::new(snapshot(), "mock");
    assert!(matches!(app.handle_key(key('g')), Effect::RefreshRequested));
    app.finish_manual_refresh(Err(String::from("timeout")), "mock");
    assert_eq!(app.status, "manual refresh failed: timeout");
    app.finish_manual_refresh(Ok(Snapshot::empty()), "mts");
    assert_eq!(app.status, "manual refresh (mts)");
    assert_eq!(app.visible_objects().len(), 0);
    app.tick(Err(String::from("offline")), "mts");
    assert_eq!(app.status, "refresh failed: offline");
    app.selected_idx = 9;
    app.tick(Ok(snapshot()), "mts");
    assert_eq!(app.status, "snapshot refreshed (mts)");
    assert_eq!(app.selected_idx, 3);
    assert_eq!(app.visible_objects().len(), 4);
}

#[test]
fn fleet_order_puts_carriers_first() {
    let app = App::new(snapshot(), "mock");
    let names: Vec<String> = app.sorted_warships().iter().map(|w| w.name.clone()).collect();
    assert_eq!(names, vec!["Nimitz", "Liaoning", "Destroyer A", "Destroyer B"]);
}

#[test]
fn search_finds_and_jumps_to_a_ship() {
    let mut app = App::new(snapshot(), "mock");
    app.handle_key(key('/'));
    assert_eq!(app.status, "search mode - type query, ENTER to search");
    for c in "lia".chars() {
        app.handle_key(key(c));
    }
    assert_eq!(app.search_query, "lia");
    assert_eq!(app.search_results.len(), 1);
    app.handle_key(code(KeyCode::Backspace));
    assert_eq!(app.search_query, "li");
    app.handle_key(key('a'));
    app.handle_key(code(KeyCode::Enter));
    assert_eq!(app.search_mode, SearchMode::Results);
    assert_eq!(app.status, "search results - j/k navigate, ENTER select");
    assert!(matches!(app.search_results[0], SearchResult::Warship(1)));
    app.handle_key(code(KeyCode::Enter));
    assert!(!app.is_searching);
    assert_eq!(app.focus, PaneFocus::Warships);
    // Liaoning stands second in fleet order
    assert_eq!(app.selected_idx_warships, 1);
    assert_eq!(app.expanded_idx, Some(1));
}

#[test]
fn search_cursor_and_escape() {
    let mut app = App::new(snapshot(), "mock");
    app.start_search();
    app.handle_key(key('e'));
    let n = app.search_results.len();
    assert!(n >= 2);
    app.enter_search_results();
    app.search_select_prev();
    assert_eq!(app.search_selected_idx, n - 1);
    app.search_select_next();
    assert_eq!(app.search_selected_idx, 0);
    app.handle_key(code(KeyCode::Esc));
    assert_eq!(app.search_mode, SearchMode::Input);
    assert!(app.is_searching);
    app.handle_key(code(KeyCode::Esc));
    assert!(!app.is_searching);
    assert_eq!(app.status, "search exited");
    assert_eq!(SearchResult::Leader(0).focus(), PaneFocus::Leaders);
}

#[test]
fn clamping_brings_selections_back() {
    let mut app = App::new(snapshot(), "mock");
    app.selected_idx = 10;
    app.selected_idx_warships = 10;
    app.selected_idx_leaders = 10;
    app.clamp_selections();
    assert_eq!((app.selected_idx, app.selected_idx_warships, app.selected_idx_leaders), (3, 3, 1));
    app.focus = PaneFocus::Leaders;
    assert_eq!(app.current_selection(), (1, 2));
    app.set_current_selection(0);
    assert_eq!(app.selected_idx_leaders, 0);
}

#[test]
fn feed_heights_follow_title_length() {
    let app = App::new(snapshot(), "mock");
    // "New protest" is 11 bytes: one line at width 27, two at width 14
    assert_eq!(app.compute_feed_heights(27)[0], 3);
    assert_eq!(app.compute_feed_heights(14)[0], 4);
    assert_eq!(app.compute_feed_heights(7)[0], 3);
}

#[test]
fn switching_a_layer_twice_restores_it() {
    let mut app = App::new(snapshot(), "mock");
    app.handle_key(key('t'));
    app.handle_key(key(' '));
    assert!(!app.layer_visible(LayerId::Incidents));
    assert_eq!(app.status, "incidents: off");
    app.handle_key(key(' '));
    assert!(app.layer_visible(LayerId::Incidents));
    assert_eq!(app.status, "incidents: on");
    app.handle_key(key('d'));
    app.handle_key(key('d'));
    assert!(app.layer_visible(LayerId::Incidents) && app.layer_visible(LayerId::Ships));
}

#[test]
fn other_keys_neither_quit_nor_touch_the_data() {
    let mut app = App::new(snapshot(), "mock");
    for c in "xz0[]mwasdc".chars() {
        assert!(matches!(app.handle_key(key(c)), Effect::Nothing));
        assert!(!app.quit);
    }
    app.handle_key(code(KeyCode::Left));
    app.handle_key(code(KeyCode::Other));
    assert!(!app.quit);
    assert_eq!(app.snapshot.events.len(), 3);
    assert_eq!(app.snapshot.warships.len(), 4);
    assert_eq!(app.status, "ready (mock)");
}

#[test]
fn search_hits_every_matching_item() {
    let mut app = App::new(snapshot(), "mock");
    app.start_search();
    for c in "DESTROYER".chars() {
        app.handle_key(key(c));
    }
    let ships: Vec<usize> = app
        .search_results
        .iter()
        .filter_map(|r| match r {
            SearchResult::Warship(i) => Some(*i),
            _ => None,
        })
        .collect();
    assert_eq!(ships, vec![0, 3]);
    assert_eq!(app.search_results.len(), 2);
}

#[test]
fn refresh_schedule_waits_then_backs_off() {
    let mut s = RefreshSchedule::new(1000);
    assert_eq!(s.next_refresh_ms, 31000);
    assert!(!s.is_due(30999));
    assert!(s.is_due(31000));
    assert!(s.is_due(40000));
    s.after_fetch(31000, true);
    assert_eq!(s.next_refresh_ms, 61000);
    s.after_fetch(61000, false);
    assert_eq!(s.next_refresh_ms, 76000);
}

#[test]
fn feed_puts_timestamped_objects_first_most_recent_first() {
    let snap = Snapshot {
        events: vec![
            incident("u", "Undated", Severity::Low, None),
            incident("o", "Older", Severity::Low, Some(5)),
            incident("n", "Newer", Severity::Low, Some(9)),
        ],
        aircraft: Vec::new(),
        warships: Vec::new(),
        leaders: Vec::new(),
    };
    let app = App::new(snap, "mock");
    assert_eq!(labels(&app), vec!["Newer", "Older", "Undated"]);
}
