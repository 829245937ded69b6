use vstd::prelude::*;

use crate::model::{
    parse_timestamp, timestamp_computable, timestamp_value, MapObject, ObjectKind, ObjectMetadata,
    Severity, ShipStatus, Warship, WorldLeader,
};
use crate::text::{is_blank, join3, owned, to_uppercase, trims_to_empty, uppercase};

verus! {

/// Everything one refresh of a provider delivers. The time of the fetch is
/// kept by the caller.
#[derive(Debug, Clone)]
pub struct Snapshot {
    pub events: Vec<MapObject>,
    pub aircraft: Vec<MapObject>,
    pub warships: Vec<Warship>,
    pub leaders: Vec<WorldLeader>,
}

impl Snapshot {
    /// A snapshot with nothing in it.
    pub fn empty() -> (r: Snapshot)
        ensures
            r.events@.len() == 0,
            r.aircraft@.len() == 0,
            r.warships@.len() == 0,
            r.leaders@.len() == 0,
    {
        Snapshot { events: Vec::new(), aircraft: Vec::new(), warships: Vec::new(), leaders: Vec::new() }
    }
}

/// The provider that serves an empty snapshot.
pub struct MockProvider;

impl MockProvider {
    /// The snapshot this provider serves: always empty.
    pub fn fetch_snapshot(&self) -> (r: Snapshot)
        ensures
            r.events@.len() == 0,
            r.aircraft@.len() == 0,
            r.warships@.len() == 0,
            r.leaders@.len() == 0,
    {
        Snapshot::empty()
    }

    pub fn name(&self) -> (r: &'static str)
        ensures
            r@ == "mock"@,
    {
        "mock"
    }
}

/// Provider that loads data from test fixtures (frozen MTS dataset)
pub struct FixtureProvider {
    events_path: String,
    aircraft_path: String,
}

impl FixtureProvider {
    /// The file the events are read from.
    pub closed spec fn events_file(&self) -> Seq<char> {
        self.events_path@
    }

    /// The file the aircraft are read from.
    pub closed spec fn aircraft_file(&self) -> Seq<char> {
        self.aircraft_path@
    }

    pub fn from_default_fixtures() -> (r: Self)
        ensures
            r.events_file() == "tests/fixtures/events.json"@,
            r.aircraft_file() == "tests/fixtures/aircraft.json"@,
    {
        Self {
            events_path: owned("tests/fixtures/events.json"),
            aircraft_path: owned("tests/fixtures/aircraft.json"),
        }
    }

    pub fn with_paths(events: String, aircraft: String) -> (r: Self)
        ensures
            r.events_file() == events@,
            r.aircraft_file() == aircraft@,
    {
        Self { events_path: events, aircraft_path: aircraft }
    }

    pub fn events_path(&self) -> (r: &str)
        ensures
            r@ == self.events_file(),
    {
        self.events_path.as_str()
    }

    pub fn aircraft_path(&self) -> (r: &str)
        ensures
            r@ == self.aircraft_file(),
    {
        self.aircraft_path.as_str()
    }

    pub fn name(&self) -> (r: &'static str)
        ensures
            r@ == "fixture"@,
    {
        "fixture"
    }
}

/// The fields of one fixture event, each present only when the JSON object
/// holds it with the expected JSON type. Coordinates are the IEEE-754 bit
/// patterns of the degree values.
#[derive(Debug)]
pub struct FixtureEvent {
    pub id: Option<String>,
    pub title: Option<String>,
    pub lat_bits: Option<u64>,
    pub lng_bits: Option<u64>,
    pub severity: Option<i64>,
    pub created_at: Option<String>,
    pub summary: Option<String>,
    pub category: Option<String>,
    pub subtype: Option<String>,
    pub location_name: Option<String>,
    pub country: Option<String>,
    pub region: Option<String>,
    pub signal_count: Option<i64>,
    pub confidence: Option<i64>,
    pub source_types: Option<String>,
    pub updated_at: Option<String>,
}

/// The fields of one fixture aircraft, each present only when the JSON
/// object holds it with the expected JSON type.
#[derive(Debug)]
pub struct FixtureAircraft {
    pub icao: Option<String>,
    pub callsign: Option<String>,
    pub lat_bits: Option<u64>,
    pub lng_bits: Option<u64>,
    pub aircraft_type: Option<String>,
    pub aircraft_desc: Option<String>,
    pub on_ground: Option<bool>,
    pub altitude: Option<i64>,
    pub heading: Option<i64>,
    pub speed: Option<i64>,
    pub country: Option<String>,
}

/// The severity a fixture's numeric severity stands for: 4 critical,
/// 3 high, 2 medium, anything else or nothing low.
pub open spec fn fixture_severity(n: Option<i64>) -> Severity {
    match n {
        Some(4) => Severity::Critical,
        Some(3) => Severity::High,
        Some(2) => Severity::Medium,
        _ => Severity::Low,
    }
}

/// A text field with a default for its absence.
pub open spec fn text_or(f: Option<String>, default: Seq<char>) -> Seq<char> {
    match f {
        Some(s) => s@,
        None => default,
    }
}

/// A numeric field narrowed to `i32` as `as i32` does.
pub open spec fn narrowed(f: Option<i64>) -> Option<i32> {
    match f {
        Some(n) => Some(n as i32),
        None => None,
    }
}

/// The timestamp of an optional creation time.
pub open spec fn created_timestamp(created_at: Option<String>) -> Option<i64> {
    match created_at {
        Some(s) => timestamp_value(s@),
        None => None,
    }
}

/// Whether the creation time can be parsed without a failing index or an
/// overflow (see `timestamp_computable`).
pub open spec fn created_at_computable(created_at: Option<String>) -> bool {
    match created_at {
        Some(s) => timestamp_computable(s@),
        None => true,
    }
}

fn text_or_default(f: Option<String>, default: &str) -> (r: String)
    ensures
        r@ == text_or(f, default@),
        f is Some ==> r == f->0,
{
    match f {
        Some(s) => s,
        None => owned(default),
    }
}

fn narrow(f: Option<i64>) -> (r: Option<i32>)
    ensures
        r == narrowed(f),
{
    match f {
        Some(n) => Some(n as i32),
        None => None,
    }
}

/// The feed object that a fixture event becomes: missing id "unknown",
/// missing title "Untitled", missing coordinates 0.0.
pub fn fixture_event_object(event: FixtureEvent) -> (r: MapObject)
    requires
        created_at_computable(event.created_at),
    ensures
        r.id@ == text_or(event.id, "unknown"@),
        r.label@ == text_or(event.title, "Untitled"@),
        r.kind == ObjectKind::Incident,
        r.severity == Some(fixture_severity(event.severity)),
        event.severity is Some && 1 <= event.severity->0 <= 4 ==> r.severity->0.spec_index()
            == event.severity->0 - 1,
        !(event.severity is Some && 1 <= event.severity->0 <= 4) ==> r.severity == Some(
            Severity::Low,
        ),
        r.ship_status is None,
        r.lat_bits == (if let Some(b) = event.lat_bits { b } else { 0u64 }),
        r.lng_bits == (if let Some(b) = event.lng_bits { b } else { 0u64 }),
        r.timestamp == created_timestamp(event.created_at),
        r.metadata.summary == event.summary,
        r.metadata.category == event.category,
        r.metadata.subtype == event.subtype,
        r.metadata.location == event.location_name,
        r.metadata.country == event.country,
        r.metadata.region == event.region,
        r.metadata.signal_count == narrowed(event.signal_count),
        r.metadata.confidence == narrowed(event.confidence),
        r.metadata.source_types == event.source_types,
        r.metadata.created_at == event.created_at,
        r.metadata.updated_at == event.updated_at,
        r.metadata.is_active is None,
        r.metadata.altitude is None,
        r.metadata.heading is None,
        r.metadata.speed is None,
        r.metadata.aircraft_type is None,
        r.metadata.callsign is None,
{
    let id = text_or_default(event.id, "unknown");
    let title = text_or_default(event.title, "Untitled");
    let lat_bits = match event.lat_bits {
        Some(b) => b,
        None => 0,
    };
    let lng_bits = match event.lng_bits {
        Some(b) => b,
        None => 0,
    };
    let severity = match event.severity {
        Some(4) => Severity::Critical,
        Some(3) => Severity::High,
        Some(2) => Severity::Medium,
        _ => Severity::Low,
    };
    let timestamp = match &event.created_at {
        Some(dt) => parse_timestamp(dt.as_str()),
        None => None,
    };
    let signal_count = narrow(event.signal_count);
    let confidence = narrow(event.confidence);
    MapObject {
        id,
        label: title,
        kind: ObjectKind::Incident,
        severity: Some(severity),
        ship_status: None,
        lat_bits,
        lng_bits,
        timestamp,
        metadata: ObjectMetadata {
            summary: event.summary,
            category: event.category,
            subtype: event.subtype,
            location: event.location_name,
            country: event.country,
            region: event.region,
            signal_count,
            confidence,
            source_types: event.source_types,
            created_at: event.created_at,
            updated_at: event.updated_at,
            is_active: None,
            altitude: None,
            heading: None,
            speed: None,
            aircraft_type: None,
            callsign: None,
        },
    }
}

/// The feed label of a fixture aircraft: the upper-cased type and the ICAO
/// code when the callsign is blank, the upper-cased callsign and the
/// description otherwise.
pub open spec fn fixture_aircraft_label(ac: FixtureAircraft) -> Seq<char> {
    let callsign = text_or(ac.callsign, ""@);
    if is_blank(callsign) {
        uppercase(text_or(ac.aircraft_type, "unknown"@)) + " "@ + text_or(ac.icao, "unknown"@)
    } else {
        uppercase(callsign) + " | "@ + text_or(ac.aircraft_desc, ""@)
    }
}

/// The feed object that a fixture aircraft becomes: missing ICAO code and
/// type "unknown", missing callsign and description empty, missing
/// coordinates 0.0, missing ground flag airborne.
pub fn fixture_aircraft_object(ac: FixtureAircraft) -> (r: MapObject)
    ensures
        r.id@ == text_or(ac.icao, "unknown"@),
        r.label@ == fixture_aircraft_label(ac),
        r.kind == ObjectKind::Aircraft,
        r.severity is None,
        r.ship_status == Some(
            if ac.on_ground == Some(true) {
                ShipStatus::Anchored
            } else {
                ShipStatus::Underway
            },
        ),
        r.lat_bits == (if let Some(b) = ac.lat_bits { b } else { 0u64 }),
        r.lng_bits == (if let Some(b) = ac.lng_bits { b } else { 0u64 }),
        r.timestamp is None,
        r.metadata.altitude == narrowed(ac.altitude),
        r.metadata.heading == narrowed(ac.heading),
        r.metadata.speed == narrowed(ac.speed),
        r.metadata.aircraft_type is Some,
        r.metadata.aircraft_type->0@ == text_or(ac.aircraft_type, "unknown"@),
        r.metadata.callsign is Some,
        r.metadata.callsign->0@ == text_or(ac.callsign, ""@),
        r.metadata.country == ac.country,
        r.metadata.summary is None,
        r.metadata.category is None,
        r.metadata.subtype is None,
        r.metadata.location is None,
        r.metadata.region is None,
        r.metadata.signal_count is None,
        r.metadata.confidence is None,
        r.metadata.source_types is None,
        r.metadata.created_at is None,
        r.metadata.updated_at is None,
        r.metadata.is_active is None,
{
    let icao = text_or_default(ac.icao, "unknown");
    let callsign = text_or_default(ac.callsign, "");
    let lat_bits = match ac.lat_bits {
        Some(b) => b,
        None => 0,
    };
    let lng_bits = match ac.lng_bits {
        Some(b) => b,
        None => 0,
    };
    let ac_type = text_or_default(ac.aircraft_type, "unknown");
    let ac_desc = text_or_default(ac.aircraft_desc, "");
    let on_ground = match ac.on_ground {
        Some(b) => b,
        None => false,
    };
    let label = if trims_to_empty(callsign.as_str()) {
        let t = to_uppercase(ac_type.as_str());
        join3(t.as_str(), " ", icao.as_str())
    } else {
        let c = to_uppercase(callsign.as_str());
        join3(c.as_str(), " | ", ac_desc.as_str())
    };
    let altitude = narrow(ac.altitude);
    let heading = narrow(ac.heading);
    let speed = narrow(ac.speed);
    MapObject {
        id: icao,
        label,
        kind: ObjectKind::Aircraft,
        severity: None,
        ship_status: Some(
            if on_ground {
                ShipStatus::Anchored
            } else {
                ShipStatus::Underway
            },
        ),
        lat_bits,
        lng_bits,
        timestamp: None,
        metadata: ObjectMetadata {
            altitude,
            heading,
            speed,
            aircraft_type: Some(ac_type),
            callsign: Some(callsign),
            country: ac.country,
            summary: None,
            category: None,
            subtype: None,
            location: None,
            region: None,
            signal_count: None,
            confidence: None,
            source_types: None,
            created_at: None,
            updated_at: None,
            is_active: None,
        },
    }
}

/// A fixture's numeric severity `n` from 1 to 4 names the severity of rank
/// `n - 1` (low, medium, high, critical); any other number, or none, is low.
pub proof fn fixture_severity_follows_the_number(n: Option<i64>)
    ensures
        n is Some && 1 <= n->0 <= 4 ==> fixture_severity(n).spec_index() == n->0 - 1,
        !(n is Some && 1 <= n->0 <= 4) ==> fixture_severity(n) == Severity::Low,
{
}

} // verus!
