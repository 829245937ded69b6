use sitmon_cli::model::{
    parse_timestamp, timestamp_is_computable, MapContrastMode, MapObject, ObjectKind,
    ObjectMetadata, Severity, ShipStatus, Warship, WorldLeader, ZoomLevel,
};

fn object(label: &str, kind: ObjectKind, severity: Option<Severity>) -> MapObject {
    MapObject {
        id: String::from("o1"),
        label: label.to_string(),
        kind,
        severity,
        ship_status: None,
        lat_bits: 0,
        lng_bits: 0,
        metadata: ObjectMetadata::default(),
        timestamp: None,
    }
}

#[test]
fn contrast_mode_cycles_through_three() {
    let m = MapContrastMode::Normal;
    assert_eq!(m.next(), MapContrastMode::High);
    assert_eq!(m.next().next(), MapContrastMode::TransparentSafe);
    assert_eq!(m.next().next().next(), MapContrastMode::Normal);
    assert_eq!(MapContrastMode::Normal.label(), "normal");
    assert_eq!(MapContrastMode::High.label(), "high");
    assert_eq!(MapContrastMode::TransparentSafe.label(), "transparent-safe");
}

#[test]
fn zoom_steps_and_stops_at_the_ends() {
    assert_eq!(ZoomLevel::Regional.next(), ZoomLevel::X2);
    assert_eq!(ZoomLevel::X2.next(), ZoomLevel::X4);
    assert_eq!(ZoomLevel::X4.next(), ZoomLevel::X4);
    assert_eq!(ZoomLevel::Regional.prev(), ZoomLevel::Regional);
    assert_eq!(ZoomLevel::X4.prev(), ZoomLevel::X2);
    assert_eq!(ZoomLevel::X2.next().prev(), ZoomLevel::X2);
    assert_eq!(ZoomLevel::Regional.label(), "regional");
    assert_eq!(ZoomLevel::X2.label(), "2x");
    assert_eq!(ZoomLevel::X4.label(), "4x");
}

#[test]
fn severity_labels_symbols_and_indices() {
    assert_eq!(Severity::Low.label(), "low");
    assert_eq!(Severity::Critical.label(), "critical");
    assert_eq!(Severity::Low.symbol(), '·');
    assert_eq!(Severity::Medium.symbol(), '!');
    assert_eq!(Severity::High.symbol(), '▲');
    assert_eq!(Severity::Critical.symbol(), '◆');
    assert_eq!(Severity::Low.index(), 0);
    assert_eq!(Severity::Medium.index(), 1);
    assert_eq!(Severity::High.index(), 2);
    assert_eq!(Severity::Critical.index(), 3);
    assert_eq!(ShipStatus::Underway.symbol(), '⛴');
    assert_eq!(ShipStatus::Anchored.symbol(), '◇');
}

#[test]
fn parses_service_timestamps() {
    assert_eq!(parse_timestamp("2026-03-16 22:05:36"), Some(1773698736));
    assert_eq!(parse_timestamp("  2026-03-16   22:05:36 "), Some(1773698736));
    assert_eq!(parse_timestamp("1970-01-01 00:00:00"), Some(0));
    assert_eq!(parse_timestamp("2000-02-29 00:00:00"), Some(951782400));
    assert_eq!(parse_timestamp("1969-12-31 23:59:59"), Some(-1));
    assert_eq!(parse_timestamp("2024-03-01 00:00:00"), Some(1709251200));
}

#[test]
fn rejects_malformed_timestamps() {
    assert_eq!(parse_timestamp(""), None);
    assert_eq!(parse_timestamp("2026-03-16T22:05:36"), None);
    assert_eq!(parse_timestamp("2026-03-16 22:05:36 extra"), None);
    assert_eq!(parse_timestamp("2026-03-16"), None);
    assert_eq!(parse_timestamp("2026/03/16 22:05:36"), None);
    assert_eq!(parse_timestamp("2026-03-16 22:05"), None);
    assert_eq!(parse_timestamp("abcd-03-16 22:05:36"), None);
    assert_eq!(parse_timestamp("2026-xx-16 22:05:36"), None);
}

#[test]
fn timestamps_past_the_range_are_not_computable() {
    assert!(timestamp_is_computable("2026-03-16 22:05:36"));
    assert!(timestamp_is_computable("garbage"));
    assert!(!timestamp_is_computable("99999999-01-01 00:00:00"));
    assert!(!timestamp_is_computable("2026-13-01 00:00:00"));
    assert!(!timestamp_is_computable("2026-00-01 00:00:00"));
}

#[test]
fn next_day_is_one_day_later() {
    let a = parse_timestamp("2023-12-31 00:00:00").unwrap();
    let b = parse_timestamp("2024-01-01 00:00:00").unwrap();
    assert_eq!(b - a, 86400);
    let c = parse_timestamp("2024-02-28 12:00:00").unwrap();
    let d = parse_timestamp("2024-02-29 12:00:00").unwrap();
    assert_eq!(d - c, 86400);
}

#[test]
fn object_weight_follows_severity_and_kind() {
    let low = object("a", ObjectKind::Incident, Some(Severity::Low));
    let crit = object("b", ObjectKind::Incident, Some(Severity::Critical));
    let plane = object("c", ObjectKind::Aircraft, None);
    assert_eq!(low.weight(), 1);
    assert_eq!(crit.weight(), 4);
    assert_eq!(plane.weight(), 2);
    assert_eq!(object("d", ObjectKind::Ship, None).weight(), 1);
}

#[test]
fn search_is_case_insensitive_over_label_and_metadata() {
    let mut o = object("Strike near Port", ObjectKind::Incident, Some(Severity::High));
    o.metadata.category = Some(String::from("Conflict"));
    assert!(o.matches_search("strike"));
    assert!(o.matches_search("CONFLICT"));
    assert!(!o.matches_search("flood"));
    let ship = Warship {
        id: String::from("w1"),
        name: String::from("USS Nimitz"),
        ship_type: String::from("Aircraft Carrier"),
        hull_number: Some(String::from("CVN-68")),
        region: String::from("Pacific"),
        lat_bits: 0,
        lng_bits: 0,
        country: String::from("US"),
        status: String::from("deployed"),
        group_name: None,
        group_type: None,
        flagship: false,
        source_url: None,
        source_date: None,
        updated_at: String::from("2026-01-01"),
    };
    assert!(ship.matches_search("nimitz"));
    assert!(ship.matches_search("pacific"));
    assert!(!ship.matches_search("atlantic"));
    let leader = WorldLeader {
        id: String::from("l1"),
        name: String::from("Jane Doe"),
        title: String::from("President"),
        country_code: String::from("fr"),
        location_name: String::from("Paris"),
        lat_bits: 0,
        lng_bits: 0,
        activity: String::from("Summit talks"),
        next_activity: None,
        source_summary: String::new(),
        confidence: String::from("high"),
        updated_at: String::from("2026-01-01"),
    };
    assert!(leader.matches_search("SUMMIT"));
    assert!(!leader.matches_search("london"));
}
