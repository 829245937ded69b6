use sitmon_cli::data::{
    fixture_aircraft_object, fixture_event_object, FixtureAircraft, FixtureEvent, FixtureProvider,
    MockProvider,
};
use sitmon_cli::model::{ObjectKind, Severity, ShipStatus};
use sitmon_cli::mts_client::{
    aircraft_object, assemble_snapshot, event_object, format_title, leader_entry, map_severity,
    signal_entry, warship_entry, MtsAircraft, MtsEvent, MtsSignal, MtsWarship, MtsWorldLeader,
};

fn event(title: &str, location: &str, country: &str, region: &str) -> MtsEvent {
    MtsEvent {
        id: String::from("ev-1"),
        title: title.to_string(),
        summary: String::from("Summary"),
        category: String::from("conflict"),
        subtype: String::from("shelling"),
        severity: 3,
        lat_bits: 1.5f64.to_bits(),
        lng_bits: (-2.25f64).to_bits(),
        location_name: location.to_string(),
        country: country.to_string(),
        region: region.to_string(),
        signal_count: 7,
        confidence: 85,
        is_active: true,
        source_types: String::from("news"),
        created_at: String::from("2026-03-16 22:05:36"),
        updated_at: String::from("2026-03-16 23:00:00"),
    }
}

fn aircraft(callsign: &str) -> MtsAircraft {
    MtsAircraft {
        icao: String::from("ae1234"),
        callsign: callsign.to_string(),
        lat_bits: 0,
        lng_bits: 0,
        altitude: 32000,
        heading: 270,
        speed: 450,
        vertical_rate: 0,
        squawk: String::from("7000"),
        ac_type: String::from("c17"),
        ac_desc: String::from("Globemaster"),
        registration: String::from("05-5140"),
        country: String::from("US"),
        on_ground: false,
        last_update: String::new(),
    }
}

#[test]
fn test_map_severity() {
    assert_eq!(map_severity(0), Severity::Low);
    assert_eq!(map_severity(1), Severity::Low);
    assert_eq!(map_severity(2), Severity::Medium);
    assert_eq!(map_severity(3), Severity::High);
    assert_eq!(map_severity(4), Severity::Critical);
}

#[test]
fn unknown_service_severities_are_low() {
    assert_eq!(map_severity(5), Severity::Low);
    assert_eq!(map_severity(-1), Severity::Low);
}

#[test]
fn title_names_the_most_specific_place() {
    assert_eq!(format_title(&event("Strike", "Kharkiv", "Ukraine", "Europe")), "Strike (Kharkiv)");
    assert_eq!(format_title(&event("Strike", "", "Ukraine", "Europe")), "Strike (Ukraine)");
    assert_eq!(format_title(&event("Strike", "", "", "Europe")), "Strike (Europe)");
    assert_eq!(format_title(&event("Strike", "", "", "")), "Strike");
}

#[test]
fn service_event_becomes_an_incident() {
    let o = event_object(event("Strike", "Kharkiv", "Ukraine", "Europe"));
    assert_eq!(o.id, "ev-1");
    assert_eq!(o.label, "Strike (Kharkiv)");
    assert_eq!(o.kind, ObjectKind::Incident);
    assert_eq!(o.severity, Some(Severity::High));
    assert_eq!(o.timestamp, Some(1773698736));
    assert_eq!(f64::from_bits(o.lat_bits), 1.5);
    assert_eq!(f64::from_bits(o.lng_bits), -2.25);
    assert_eq!(o.metadata.signal_count, Some(7));
    assert_eq!(o.metadata.is_active, Some(true));
    assert_eq!(o.metadata.altitude, None);
}

#[test]
fn aircraft_label_uses_callsign_or_type() {
    let o = aircraft_object(aircraft("rch123"));
    assert_eq!(o.label, "RCH123 | Globemaster");
    assert_eq!(o.kind, ObjectKind::Aircraft);
    assert_eq!(o.ship_status, Some(ShipStatus::Underway));
    assert_eq!(o.metadata.altitude, Some(32000));
    let blank = aircraft_object(aircraft("   "));
    assert_eq!(blank.label, "C17 05-5140");
    let mut grounded = aircraft("x");
    grounded.on_ground = true;
    assert_eq!(aircraft_object(grounded).ship_status, Some(ShipStatus::Anchored));
}

#[test]
fn fleet_and_leader_records_convert() {
    let w = warship_entry(MtsWarship {
        id: String::from("w1"),
        name: String::from("USS Ford"),
        ship_type: String::from("Aircraft Carrier"),
        hull_number: Some(String::from("CVN-78")),
        region: String::from("Med"),
        lat_bits: 0,
        lng_bits: 0,
        country: String::from("US"),
        status: String::from("deployed"),
        group_name: None,
        group_type: None,
        flagship: 1,
        source_url: None,
        source_date: None,
        updated_at: String::from("today"),
    });
    assert!(w.flagship);
    assert_eq!(w.hull_number, Some(String::from("CVN-78")));
    let l = leader_entry(MtsWorldLeader {
        id: String::from("l1"),
        name: String::from("A"),
        title: String::from("PM"),
        country_code: String::from("GB"),
        location_name: String::from("London"),
        lat_bits: 0,
        lng_bits: 0,
        activity: String::from("Cabinet"),
        next_activity: String::new(),
        source_summary: String::from("s"),
        confidence: String::from("high"),
        updated_at: String::from("today"),
    });
    assert_eq!(l.next_activity, None);
    let s = signal_entry(MtsSignal {
        id: String::from("s1"),
        source_type: String::from("news"),
        content: String::from("c"),
        timestamp: String::from("t"),
    });
    assert_eq!(s.source_type, "news");
    assert_eq!(s.content, "c");
}

#[test]
fn empty_service_answers_give_no_snapshot() {
    assert!(assemble_snapshot(Vec::new(), Vec::new(), Vec::new(), Vec::new()).is_none());
    let one = event_object(event("Strike", "", "", ""));
    let snap = assemble_snapshot(vec![one], Vec::new(), Vec::new(), Vec::new()).unwrap();
    assert_eq!(snap.events.len(), 1);
    assert_eq!(snap.events[0].label, "Strike");
}

#[test]
fn fixture_records_convert_with_defaults() {
    let e = fixture_event_object(FixtureEvent {
        id: None,
        title: None,
        lat_bits: None,
        lng_bits: None,
        severity: Some(4),
        created_at: Some(String::from("2026-03-16 22:05:36")),
        summary: None,
        category: Some(String::from("war")),
        subtype: None,
        location_name: None,
        country: None,
        region: None,
        signal_count: Some(3),
        confidence: None,
        source_types: None,
        updated_at: None,
    });
    assert_eq!(e.id, "unknown");
    assert_eq!(e.label, "Untitled");
    assert_eq!(e.severity, Some(Severity::Critical));
    assert_eq!(e.timestamp, Some(1773698736));
    assert_eq!(f64::from_bits(e.lat_bits), 0.0);
    let a = fixture_aircraft_object(FixtureAircraft {
        icao: Some(String::from("abc")),
        callsign: None,
        lat_bits: None,
        lng_bits: None,
        aircraft_type: None,
        aircraft_desc: None,
        on_ground: None,
        altitude: Some(1000),
        heading: None,
        speed: None,
        country: None,
    });
    assert_eq!(a.label, "UNKNOWN abc");
    assert_eq!(a.ship_status, Some(ShipStatus::Underway));
    assert_eq!(a.metadata.callsign, Some(String::new()));
}

#[test]
fn providers_have_names_and_paths() {
    assert_eq!(MockProvider.name(), "mock");
    assert!(MockProvider.fetch_snapshot().events.is_empty());
    let f = FixtureProvider::from_default_fixtures();
    assert_eq!(f.events_path(), "tests/fixtures/events.json");
    assert_eq!(f.aircraft_path(), "tests/fixtures/aircraft.json");
    assert_eq!(f.name(), "fixture");
    let g = FixtureProvider::with_paths(String::from("a.json"), String::from("b.json"));
    assert_eq!(g.events_path(), "a.json");
    assert_eq!(g.aircraft_path(), "b.json");
}
