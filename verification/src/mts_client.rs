use vstd::prelude::*;

use crate::model::{
    parse_timestamp, timestamp_computable, timestamp_value, MapObject, ObjectKind, ObjectMetadata,
    Severity, ShipStatus, Signal, Warship, WorldLeader,
};
use crate::text::{is_blank, join2, join3, join4, to_uppercase, trims_to_empty, uppercase};

verus! {

/// An event as the situation-monitor service reports it. Coordinates are the
/// IEEE-754 bit patterns of the degree values.
#[derive(Debug)]
pub struct MtsEvent {
    pub id: String,
    pub title: String,
    pub summary: String,
    pub category: String,
    pub subtype: String,
    pub severity: i32,
    pub lat_bits: u64,
    pub lng_bits: u64,
    pub location_name: String,
    pub country: String,
    pub region: String,
    pub signal_count: i32,
    pub confidence: i32,
    pub is_active: bool,
    pub source_types: String,
    pub created_at: String,
    pub updated_at: String,
}

/// An aircraft position as the service reports it.
#[derive(Debug)]
pub struct MtsAircraft {
    pub icao: String,
    pub callsign: String,
    pub lat_bits: u64,
    pub lng_bits: u64,
    pub altitude: i32,
    pub heading: i32,
    pub speed: i32,
    pub vertical_rate: i32,
    pub squawk: String,
    pub ac_type: String,
    pub ac_desc: String,
    pub registration: String,
    pub country: String,
    pub on_ground: bool,
    pub last_update: String,
}

/// A fleet entry as the service reports it.
#[derive(Debug)]
pub struct MtsWarship {
    pub id: String,
    pub name: String,
    pub ship_type: String,
    pub hull_number: Option<String>,
    pub region: String,
    pub lat_bits: u64,
    pub lng_bits: u64,
    pub country: String,
    pub status: String,
    pub group_name: Option<String>,
    pub group_type: Option<String>,
    pub flagship: i32,
    pub source_url: Option<String>,
    pub source_date: Option<String>,
    pub updated_at: String,
}

/// A leader entry as the service reports it.
#[derive(Debug)]
pub struct MtsWorldLeader {
    pub id: String,
    pub name: String,
    pub title: String,
    pub country_code: String,
    pub location_name: String,
    pub lat_bits: u64,
    pub lng_bits: u64,
    pub activity: String,
    pub next_activity: String,
    pub source_summary: String,
    pub confidence: String,
    pub updated_at: String,
}

/// A signal entry as the service reports it.
#[derive(Debug)]
pub struct MtsSignal {
    pub id: String,
    pub source_type: String,
    pub content: String,
    pub timestamp: String,
}

/// The severity that a numeric service severity stands for: 2 medium,
/// 3 high, 4 critical, anything else (0 info, 1 low, out of range) low.
pub open spec fn severity_of(mts_severity: i32) -> Severity {
    if mts_severity == 2 {
        Severity::Medium
    } else if mts_severity == 3 {
        Severity::High
    } else if mts_severity == 4 {
        Severity::Critical
    } else {
        Severity::Low
    }
}

pub fn map_severity(mts_severity: i32) -> (r: Severity)
    ensures
        r == severity_of(mts_severity),
        1 <= mts_severity <= 4 ==> r.spec_index() == mts_severity - 1,
        !(1 <= mts_severity <= 4) ==> r == Severity::Low,
{
    match mts_severity {
        0 => Severity::Low,  // Info
        1 => Severity::Low,
        2 => Severity::Medium,
        3 => Severity::High,
        4 => Severity::Critical,
        _ => Severity::Low,
    }
}

/// Where an event happened: its location name, else its country, else its
/// region (possibly empty).
pub open spec fn event_place(e: MtsEvent) -> Seq<char> {
    if e.location_name@.len() > 0 {
        e.location_name@
    } else if e.country@.len() > 0 {
        e.country@
    } else {
        e.region@
    }
}

/// The feed label of an event: its title, followed by " (place)" when the
/// event has a place.
pub open spec fn event_title(e: MtsEvent) -> Seq<char> {
    if event_place(e).len() == 0 {
        e.title@
    } else {
        e.title@ + " ("@ + event_place(e) + ")"@
    }
}

pub fn format_title(event: &MtsEvent) -> (r: String)
    ensures
        r@ == event_title(*event),
{
    let location = if !event.location_name.as_str().is_empty() {
        &event.location_name
    } else if !event.country.as_str().is_empty() {
        &event.country
    } else {
        &event.region
    };
    if location.as_str().is_empty() {
        event.title.clone()
    } else {
        join4(event.title.as_str(), " (", location.as_str(), ")")
    }
}

/// The feed label of an aircraft as the service path builds it: the
/// upper-cased type and the registration when the callsign is blank, the
/// upper-cased callsign and the description otherwise.
pub open spec fn service_aircraft_label(ac: MtsAircraft) -> Seq<char> {
    if is_blank(ac.callsign@) {
        uppercase(ac.ac_type@) + " "@ + ac.registration@
    } else {
        uppercase(ac.callsign@) + " | "@ + ac.ac_desc@
    }
}

/// The feed object that a service event becomes.
pub fn event_object(e: MtsEvent) -> (r: MapObject)
    requires
        timestamp_computable(e.created_at@),
    ensures
        r.id == e.id,
        r.label@ == event_title(e),
        r.kind == ObjectKind::Incident,
        r.severity == Some(severity_of(e.severity)),
        r.ship_status is None,
        r.lat_bits == e.lat_bits,
        r.lng_bits == e.lng_bits,
        r.timestamp == timestamp_value(e.created_at@),
        r.metadata.summary == Some(e.summary),
        r.metadata.category == Some(e.category),
        r.metadata.subtype == Some(e.subtype),
        r.metadata.location == Some(e.location_name),
        r.metadata.country == Some(e.country),
        r.metadata.region == Some(e.region),
        r.metadata.signal_count == Some(e.signal_count),
        r.metadata.confidence == Some(e.confidence),
        r.metadata.source_types == Some(e.source_types),
        r.metadata.created_at == Some(e.created_at),
        r.metadata.updated_at == Some(e.updated_at),
        r.metadata.is_active == Some(e.is_active),
        r.metadata.altitude is None,
        r.metadata.heading is None,
        r.metadata.speed is None,
        r.metadata.aircraft_type is None,
        r.metadata.callsign is None,
{
    let title = format_title(&e);
    let severity = map_severity(e.severity);
    let timestamp = parse_timestamp(e.created_at.as_str());
    MapObject {
        id: e.id,
        label: title,
        kind: ObjectKind::Incident,
        severity: Some(severity),
        ship_status: None,
        lat_bits: e.lat_bits,
        lng_bits: e.lng_bits,
        timestamp,
        metadata: ObjectMetadata {
            summary: Some(e.summary),
            category: Some(e.category),
            subtype: Some(e.subtype),
            location: Some(e.location_name),
            country: Some(e.country),
            region: Some(e.region),
            signal_count: Some(e.signal_count),
            confidence: Some(e.confidence),
            source_types: Some(e.source_types),
            created_at: Some(e.created_at),
            updated_at: Some(e.updated_at),
            is_active: Some(e.is_active),
            altitude: None,
            heading: None,
            speed: None,
            aircraft_type: None,
            callsign: None,
        },
    }
}

/// The feed object that a service aircraft becomes.
pub fn aircraft_object(ac: MtsAircraft) -> (r: MapObject)
    ensures
        r.id == ac.icao,
        r.label@ == service_aircraft_label(ac),
        r.kind == ObjectKind::Aircraft,
        r.severity is None,
        r.ship_status == Some(
            if ac.on_ground {
                ShipStatus::Anchored
            } else {
                ShipStatus::Underway
            },
        ),
        r.lat_bits == ac.lat_bits,
        r.lng_bits == ac.lng_bits,
        r.timestamp is None,
        r.metadata.altitude == Some(ac.altitude),
        r.metadata.heading == Some(ac.heading),
        r.metadata.speed == Some(ac.speed),
        r.metadata.aircraft_type == Some(ac.ac_type),
        r.metadata.callsign == Some(ac.callsign),
        r.metadata.country == Some(ac.country),
        r.metadata.summary is None,
        r.metadata.category is None,
        r.metadata.subtype is None,
        r.metadata.location is None,
        r.metadata.region is None,
        r.metadata.signal_count is None,
        r.metadata.confidence is None,
        r.metadata.source_types is None,
        r.metadata.created_at is None,
        r.metadata.updated_at is None,
        r.metadata.is_active is None,
{
    let label = if trims_to_empty(ac.callsign.as_str()) {
        let t = to_uppercase(ac.ac_type.as_str());
        join3(t.as_str(), " ", ac.registration.as_str())
    } else {
        let c = to_uppercase(ac.callsign.as_str());
        join3(c.as_str(), " | ", ac.ac_desc.as_str())
    };
    MapObject {
        id: ac.icao,
        label,
        kind: ObjectKind::Aircraft,
        severity: None,
        ship_status: Some(
            if ac.on_ground {
                ShipStatus::Anchored
            } else {
                ShipStatus::Underway
            },
        ),
        lat_bits: ac.lat_bits,
        lng_bits: ac.lng_bits,
        timestamp: None,
        metadata: ObjectMetadata {
            summary: None,
            category: None,
            subtype: None,
            location: None,
            country: Some(ac.country),
            region: None,
            signal_count: None,
            confidence: None,
            source_types: None,
            created_at: None,
            updated_at: None,
            is_active: None,
            altitude: Some(ac.altitude),
            heading: Some(ac.heading),
            speed: Some(ac.speed),
            aircraft_type: Some(ac.ac_type),
            callsign: Some(ac.callsign),
        },
    }
}

/// The fleet entry that a service warship becomes: the same fields, with
/// the flagship flag set exactly when the service reports 1.
pub fn warship_entry(s: MtsWarship) -> (r: Warship)
    ensures
        r.id == s.id,
        r.name == s.name,
        r.ship_type == s.ship_type,
        r.hull_number == s.hull_number,
        r.region == s.region,
        r.lat_bits == s.lat_bits,
        r.lng_bits == s.lng_bits,
        r.country == s.country,
        r.status == s.status,
        r.group_name == s.group_name,
        r.group_type == s.group_type,
        r.flagship == (s.flagship == 1),
        r.source_url == s.source_url,
        r.source_date == s.source_date,
        r.updated_at == s.updated_at,
{
    Warship {
        id: s.id,
        name: s.name,
        ship_type: s.ship_type,
        hull_number: s.hull_number,
        region: s.region,
        lat_bits: s.lat_bits,
        lng_bits: s.lng_bits,
        country: s.country,
        status: s.status,
        group_name: s.group_name,
        group_type: s.group_type,
        flagship: s.flagship == 1,
        source_url: s.source_url,
        source_date: s.source_date,
        updated_at: s.updated_at,
    }
}

/// The leader entry that a service leader becomes: the same fields, with an
/// empty next activity read as none.
pub fn leader_entry(l: MtsWorldLeader) -> (r: WorldLeader)
    ensures
        r.id == l.id,
        r.name == l.name,
        r.title == l.title,
        r.country_code == l.country_code,
        r.location_name == l.location_name,
        r.lat_bits == l.lat_bits,
        r.lng_bits == l.lng_bits,
        r.activity == l.activity,
        r.next_activity == (if l.next_activity@.len() == 0 {
            None
        } else {
            Some(l.next_activity)
        }),
        r.source_summary == l.source_summary,
        r.confidence == l.confidence,
        r.updated_at == l.updated_at,
{
    let next_activity = if l.next_activity.as_str().is_empty() {
        None
    } else {
        Some(l.next_activity)
    };
    WorldLeader {
        id: l.id,
        name: l.name,
        title: l.title,
        country_code: l.country_code,
        location_name: l.location_name,
        lat_bits: l.lat_bits,
        lng_bits: l.lng_bits,
        activity: l.activity,
        next_activity,
        source_summary: l.source_summary,
        confidence: l.confidence,
        updated_at: l.updated_at,
    }
}

/// The signal that a service signal becomes.
pub fn signal_entry(s: MtsSignal) -> (r: Signal)
    ensures
        r.id == s.id,
        r.source_type == s.source_type,
        r.content == s.content,
        r.timestamp == s.timestamp,
{
    Signal { id: s.id, source_type: s.source_type, content: s.content, timestamp: s.timestamp }
}


/// The snapshot made of what the service delivered, `None` when all four
/// lists came back empty (the service gave nothing usable). A list that
/// failed to load counts as empty.
pub fn assemble_snapshot(
    events: Vec<MapObject>,
    aircraft: Vec<MapObject>,
    warships: Vec<Warship>,
    leaders: Vec<WorldLeader>,
) -> (r: Option<crate::data::Snapshot>)
    ensures
        r is None <==> (events@.len() == 0 && aircraft@.len() == 0 && warships@.len() == 0
            && leaders@.len() == 0),
        r matches Some(s) ==> s == (crate::data::Snapshot { events, aircraft, warships, leaders }),
{
    if events.len() == 0 && aircraft.len() == 0 && warships.len() == 0 && leaders.len() == 0 {
        return None;
    }
    Some(crate::data::Snapshot { events, aircraft, warships, leaders })
}

} // verus!
