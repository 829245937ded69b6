use sitmon_cli::app::App;
use sitmon_cli::data::Snapshot;
use sitmon_cli::feed_view::feed_panel_lines;
use sitmon_cli::market_ticker::{get_name_for_symbol, ticker_window, MarketTicker};
use sitmon_cli::model::{MapObject, ObjectKind, ObjectMetadata, Severity, Signal, Warship, WorldLeader};
use sitmon_cli::panels::{leaders_panel_lines, warships_panel_lines};
use sitmon_cli::ui::{
    calculate_scroll_offset, centered_popup, column_rect, confidence_color, country_flag,
    emoji_for_lowered, flag_from_upper, format_relative_time, format_timestamp_relative, get_event_emoji,
    layer_popup_lines, object_symbol, on_off, search_panel_lines, status_lines, wrap_text, Area,
    Hue, Piece,
};

fn texts(line: &[Piece]) -> String {
    line.iter().map(|p| p.text.clone()).collect::<Vec<_>>().concat()
}

fn object(label: &str, kind: ObjectKind, severity: Option<Severity>) -> MapObject {
    MapObject {
        id: String::from("e1"),
        label: label.to_string(),
        kind,
        severity,
        ship_status: None,
        lat_bits: 0,
        lng_bits: 0,
        metadata: ObjectMetadata::default(),
        timestamp: None,
    }
}

#[test]
fn scroll_offset_pins_the_selection_to_the_top() {
    let h = vec![3usize; 10];
    // the selected item is the first one shown, never scrolled out above
    assert_eq!(calculate_scroll_offset(0, &h, 12), 0);
    assert_eq!(calculate_scroll_offset(0, &[3, 3, 3], 10), 0);
    assert_eq!(calculate_scroll_offset(2, &[3, 3, 3, 3, 3], 10), 2);
    assert_eq!(calculate_scroll_offset(0, &[3], 12), 0);
    assert_eq!(calculate_scroll_offset(5, &h, 12), 5);
    assert_eq!(calculate_scroll_offset(9, &h, 4), 9);
    // a selection outside the list shows from the top
    assert_eq!(calculate_scroll_offset(10, &h, 12), 0);
    assert_eq!(calculate_scroll_offset(0, &[], 12), 0);
}

#[test]
fn relative_times_use_the_largest_unit() {
    assert_eq!(format_relative_time(0), "0s ago");
    assert_eq!(format_relative_time(59), "59s ago");
    assert_eq!(format_relative_time(60), "1 min ago");
    assert_eq!(format_relative_time(150), "2m ago");
    assert_eq!(format_relative_time(3600), "1h ago");
    assert_eq!(format_relative_time(7300), "2h ago");
    assert_eq!(format_relative_time(86400), "1d ago");
    assert_eq!(format_relative_time(3 * 86400), "3d ago");
    assert_eq!(format_relative_time(15 * 86400), "2w ago");
    assert_eq!(format_timestamp_relative(1000, 1090), "1 min ago");
    assert_eq!(format_timestamp_relative(1000, 999), "in future");
}

#[test]
fn wrapping_keeps_words_whole() {
    assert_eq!(wrap_text("the quick brown fox", 10), vec!["the quick", "brown fox"]);
    assert_eq!(wrap_text("  spaced   out  ", 80), vec!["spaced out"]);
    assert_eq!(wrap_text("elephantine", 4), vec!["elephantine"]);
    assert!(wrap_text("", 10).is_empty());
    assert_eq!(wrap_text("a b c", 0), vec!["a", "b", "c"]);
    // only line breaks change: the lines joined by spaces are the words
    let lines = wrap_text("  the quick  brown\tfox jumps ", 7);
    assert_eq!(lines.join(" "), "the quick brown fox jumps");
    assert!(lines.iter().all(|l| l.len() <= 7));
}

#[test]
fn flags_from_country_codes() {
    assert_eq!(country_flag("us"), Some(String::from("🇺🇸")));
    assert_eq!(country_flag("FR"), Some(String::from("🇫🇷")));
    assert_eq!(country_flag("USA"), Some(String::from("🏳️")));
    assert_eq!(country_flag(""), Some(String::from("🏳️")));
    assert_eq!(country_flag("1A"), None);
    assert_eq!(flag_from_upper("GB"), "🇬🇧");
}

#[test]
fn event_emoji_by_category() {
    assert_eq!(get_event_emoji(None), "📍");
    assert_eq!(get_event_emoji(Some("Armed CONFLICT")), "🔥");
    assert_eq!(get_event_emoji(Some("flooding")), "🌊");
    assert_eq!(get_event_emoji(Some("Election")), "🏛️");
    assert_eq!(get_event_emoji(Some("markets")), "💰");
    assert_eq!(get_event_emoji(Some("disease outbreak")), "🏥");
    assert_eq!(get_event_emoji(Some("climate")), "🌲");
    assert_eq!(get_event_emoji(Some("innovation")), "💻");
    assert_eq!(get_event_emoji(Some("data leak")), "🔒");
    assert_eq!(get_event_emoji(Some("terror")), "🚨");
    assert_eq!(get_event_emoji(Some("sports")), "📍");
    // "war" wins over later groups: "software" contains it
    assert_eq!(get_event_emoji(Some("software")), "🔥");
}

#[test]
fn symbols_and_colours() {
    assert_eq!(on_off(true), "on");
    assert_eq!(on_off(false), "off");
    let o = object("x", ObjectKind::Incident, Some(Severity::High));
    assert_eq!(object_symbol(&o, false), "▲");
    assert_eq!(object_symbol(&o, true), "⬢");
    assert_eq!(object_symbol(&object("x", ObjectKind::Incident, None), false), "·");
    assert_eq!(object_symbol(&object("x", ObjectKind::Aircraft, None), false), "✈️");
    assert_eq!(confidence_color(None), None);
    assert_eq!(confidence_color(Some(95)), Some((86, 180, 233)));
    assert_eq!(confidence_color(Some(70)), Some((0, 158, 115)));
    assert_eq!(confidence_color(Some(50)), Some((240, 228, 66)));
    assert_eq!(confidence_color(Some(30)), Some((230, 159, 0)));
    assert_eq!(confidence_color(Some(5)), Some((213, 94, 0)));
}

#[test]
fn popups_and_columns() {
    let a = Area { x: 0, y: 0, width: 100, height: 30 };
    assert_eq!(centered_popup(a, 10, 80, 60, 8, 20, 10), Area { x: 10, y: 5, width: 80, height: 20 });
    let small = Area { x: 2, y: 1, width: 40, height: 12 };
    assert_eq!(centered_popup(small, 8, 54, 36, 6, 14, 10), Area { x: 4, y: 2, width: 36, height: 10 });
    assert_eq!(column_rect(a, 2), Area { x: 66, y: 0, width: 33, height: 30 });
}

#[test]
fn ticker_window_scrolls_over_the_spans() {
    let spans = vec![String::from("ab"), String::from("cde")];
    let w = ticker_window(&spans, 0, 4);
    assert_eq!(w, vec![(0, String::from("ab")), (1, String::from("cd"))]);
    let w = ticker_window(&spans, 4, 4);
    assert_eq!(w, vec![(1, String::from("e")), (0, String::from("ab")), (1, String::from("c"))]);
    // the offset is taken modulo the round
    assert_eq!(ticker_window(&spans, 9, 4), ticker_window(&spans, 4, 4));
    assert!(ticker_window(&Vec::new(), 3, 10).is_empty());
    // the window is always exactly as wide as asked
    for (offset, width) in [(7usize, 12usize), (0, 1), (3, 0), (123, 17)] {
        let shown: usize =
            ticker_window(&spans, offset, width).iter().map(|(_, t)| t.chars().count()).sum();
        assert_eq!(shown, width);
    }
}

#[test]
fn ticker_clock() {
    let mut t = MarketTicker::new();
    assert!(t.should_refetch(300_000));
    assert!(!t.should_refetch(299_999));
    t.maybe_scroll(400);
    assert_eq!(t.scroll_offset_commodities, 0);
    t.maybe_scroll(500);
    assert_eq!(t.scroll_offset_commodities, 1);
    assert_eq!(t.scroll_offset_forex, 1);
    assert_eq!(t.scroll_offset_indices, usize::MAX);
    assert_eq!(t.last_scroll_ms_indices, 500);
    t.mark_fetched(1000);
    assert!(!t.should_refetch(1000));
    assert_eq!(get_name_for_symbol("GC=F"), "Gold");
    assert_eq!(get_name_for_symbol("^GSPC"), "S&P 500");
    assert_eq!(get_name_for_symbol("XYZ"), "Unknown");
}

fn ship(id: &str, name: &str, country: &str) -> Warship {
    Warship {
        id: id.to_string(),
        name: name.to_string(),
        ship_type: String::from("Destroyer"),
        hull_number: Some(String::from("DDG-1")),
        region: String::from("Gulf"),
        lat_bits: 0,
        lng_bits: 0,
        country: country.to_string(),
        status: String::from("transiting"),
        group_name: Some(String::from("CSG-1")),
        group_type: None,
        flagship: true,
        source_url: None,
        source_date: None,
        updated_at: String::from("today"),
    }
}

fn leader(activity: &str) -> WorldLeader {
    WorldLeader {
        id: String::from("l1"),
        name: String::from("Alice"),
        title: String::from("President"),
        country_code: String::from("fr"),
        location_name: String::from("Paris"),
        lat_bits: 0,
        lng_bits: 0,
        activity: activity.to_string(),
        next_activity: Some(String::from("Visit")),
        source_summary: String::from("short summary"),
        confidence: String::from("medium"),
        updated_at: String::from("today"),
    }
}

#[test]
fn fleet_and_leader_columns() {
    let snap = Snapshot {
        events: Vec::new(),
        aircraft: Vec::new(),
        warships: vec![ship("w1", "Alpha", "US"), ship("w2", "Bravo", "GB")],
        leaders: vec![leader(&"x".repeat(60))],
    };
    let mut app = App::new(snap, "mock");
    let coords = vec![String::from("🌐 1°, 2°"), String::from("🌐 3°, 4°")];
    let lines = warships_panel_lines(&app, 40, 20, &coords).unwrap();
    assert_eq!(texts(&lines[0]), "Warships (2 ships)");
    // the first ship is selected and shown first; nothing is scrolled out
    assert_eq!(texts(&lines[1]), "  🇺🇸 Alpha · Destroyer (DDG-1)");
    assert_eq!(texts(&lines[2]), "    🚢 Gulf | transiting");
    assert_eq!(texts(&lines[3]), "");
    assert_eq!(texts(&lines[4]), "  🇬🇧 Bravo · Destroyer (DDG-1)");
    assert_eq!(texts(&lines[5]), "    🚢 Gulf | transiting");
    assert_eq!(lines.len(), 6);
    let key = |c: sitmon_cli::app::KeyCode| sitmon_cli::app::KeyPress { code: c, control: false, shift: false };
    app.handle_key(key(sitmon_cli::app::KeyCode::Char('l')));
    app.handle_key(key(sitmon_cli::app::KeyCode::Char('j')));
    app.handle_key(key(sitmon_cli::app::KeyCode::Enter));
    assert_eq!(app.expanded_idx, Some(1));
    let lines = warships_panel_lines(&app, 40, 30, &coords).unwrap();
    // the selected second ship is pinned to the top, under a line that
    // counts the ship scrolled out above it
    assert_eq!(texts(&lines[1]), "↑ 1 more above");
    assert_eq!(lines[1][0].tone.fg, Hue::DarkGray);
    assert_eq!(texts(&lines[2]), "> 🇬🇧 Bravo · Destroyer (DDG-1)");
    assert_eq!(lines[2][3].tone.highlighted, true);
    assert_eq!(texts(&lines[4]), format!("     {}", "─".repeat(34)));
    assert_eq!(texts(&lines[5]), "     🌐 3°, 4°");
    assert_eq!(texts(&lines[6]), "     🚢 Group: CSG-1 | 🏴 Flagship");
    assert_eq!(texts(&lines[7]), "     🕐 Updated: today");
    assert_eq!(lines.len(), 8);
    let lc = vec![String::from("🌐 5°, 6°")];
    let lines = leaders_panel_lines(&app, 40, 20, &lc).unwrap();
    assert_eq!(texts(&lines[0]), "World Leaders (1 leaders)");
    assert_eq!(texts(&lines[1]), "  🇫🇷 Alice · President");
    assert_eq!(texts(&lines[2]), format!("    📍 Paris · {}...", "x".repeat(47)));
    assert_eq!(texts(&lines[3]), "    ~ Confidence: medium");
    assert_eq!(lines[3][0].tone.fg, Hue::Yellow);
}

#[test]
fn leader_activity_cut_inside_a_character_fails() {
    let snap = Snapshot {
        events: Vec::new(),
        aircraft: Vec::new(),
        warships: Vec::new(),
        leaders: vec![leader(&format!("{}é{}", "x".repeat(46), "y".repeat(10)))],
    };
    let app = App::new(snap, "mock");
    let lc = vec![String::new()];
    assert!(leaders_panel_lines(&app, 40, 20, &lc).is_none());
}

#[test]
fn feed_column_and_status() {
    let mut ev = object("Shelling reported", ObjectKind::Incident, Some(Severity::High));
    ev.timestamp = Some(1000);
    ev.metadata.category = Some(String::from("conflict"));
    ev.metadata.signal_count = Some(2);
    let snap = Snapshot { events: vec![ev], aircraft: Vec::new(), warships: Vec::new(), leaders: Vec::new() };
    let mut app = App::new(snap, "mock");
    let coords = vec![String::from("🌐 0°, 0°")];
    let lines = feed_panel_lines(&app, 40, 20, 1120, &coords, &None);
    assert_eq!(texts(&lines[0]), "Feed (1 events)");
    assert_eq!(texts(&lines[1]), "> ⬢ Shelling reported");
    assert_eq!(texts(&lines[2]), "    └─ 📅 2m ago | 🏷️ conflict | 📡 2 signals");
    assert_eq!(lines.len(), 3);
    app.handle_key(sitmon_cli::app::KeyPress {
        code: sitmon_cli::app::KeyCode::Enter,
        control: false,
        shift: false,
    });
    let sigs = Some(vec![
        Signal { id: String::from("s1"), source_type: String::from("news"), content: String::from("one"), timestamp: String::new() },
        Signal { id: String::from("s2"), source_type: String::from("social_media"), content: String::from("two"), timestamp: String::new() },
        Signal { id: String::from("s3"), source_type: String::from("news"), content: String::from("three"), timestamp: String::new() },
    ]);
    let lines = feed_panel_lines(&app, 40, 40, 1120, &coords, &sigs);
    let all: Vec<String> = lines.iter().map(|l| texts(l)).collect();
    assert!(all.contains(&String::from("     📡 Signals:")));
    assert!(all.contains(&String::from("       └─ news: 2")));
    assert!(all.contains(&String::from("       └─ social media: 1")));
    assert!(all.contains(&String::from("       └─ three")));
    assert!(all.contains(&String::from("     🏷️ Category: conflict ")));
    let status = status_lines(&app);
    assert_eq!(texts(&status[0]), "Status: detail view opened  |  selected: Shelling reported  |  events: 1  |  warships: 0  |  leaders: 0");
    assert_eq!(texts(&status[3]), "inc:on ship:on sev[1:on 2:on 3:on 4:on]");
    let popup = layer_popup_lines(&app);
    assert_eq!(texts(&popup[3]), "> [x] Incidents");
    assert_eq!(texts(&popup[4]), "  [x] Ships");
    app.start_search();
    let search = search_panel_lines(&app);
    assert_eq!(texts(&search[3]), "Query: _");
    assert_eq!(search.len(), 5);
}

#[test]
fn feed_column_counts_the_items_scrolled_out_above() {
    let mut a = object("First report", ObjectKind::Incident, Some(Severity::High));
    a.id = String::from("e1");
    a.timestamp = Some(900);
    let mut b = object("Second report", ObjectKind::Incident, Some(Severity::High));
    b.id = String::from("e2");
    b.timestamp = Some(800);
    let mut c = object("Third report", ObjectKind::Incident, Some(Severity::High));
    c.id = String::from("e3");
    c.timestamp = Some(700);
    let snap = Snapshot { events: vec![c, a, b], aircraft: Vec::new(), warships: Vec::new(), leaders: Vec::new() };
    let mut app = App::new(snap, "mock");
    let coords = vec![String::new(), String::new(), String::new()];
    let lines = feed_panel_lines(&app, 40, 20, 1000, &coords, &None);
    assert_eq!(texts(&lines[0]), "Feed (3 events)");
    // most recent first, the selected one at the top, nothing above it
    assert_eq!(texts(&lines[1]), "> ⬢ First report");
    app.selected_idx = 2;
    let lines = feed_panel_lines(&app, 40, 20, 1000, &coords, &None);
    assert_eq!(texts(&lines[1]), "↑ 2 more above");
    assert_eq!(lines[1][0].tone.fg, Hue::DarkGray);
    assert_eq!(texts(&lines[2]), "> ⬢ Third report");
}

#[test]
fn lowered_categories_pick_the_first_matching_group() {
    assert_eq!(emoji_for_lowered("armed conflict"), "🔥");
    // the words are matched as written: upper case does not match here
    assert_eq!(emoji_for_lowered("Armed CONFLICT"), "📍");
    assert_eq!(emoji_for_lowered("storm and war"), "🔥");
    assert_eq!(emoji_for_lowered("health data"), "🏥");
    assert_eq!(emoji_for_lowered("cyber attack"), "🔒");
    assert_eq!(emoji_for_lowered(""), "📍");
}
