use vstd::prelude::*;

use crate::app::{feed_item_height, App, PaneFocus};
use crate::model::{MapObject, ObjectKind, ObjectMetadata, Signal};
use crate::panels::{
    clamp_index, detail_line, fill_items, joined, lines_if_any, more_above, prepend,
    push_more_above, rule_line, separator, texts, Lines,
};
use crate::text::{decimal_digits, push_decimal, utf8_len};
use crate::ui::{
    bold_tone, calculate_scroll_offset, confidence_tone, cursor_mark, hue_tone,
    line_view, lines_view, object_glyph, plain_tone, relative_timestamp, sat_sub, scroll_offset,
    wrapped_lines, Hue, Piece, Tone,
};

verus! {

/// The decimal text of an integer, with a minus sign when negative.
pub open spec fn signed_digits(v: int) -> Seq<char> {
    if v < 0 {
        "-"@ + decimal_digits((-v) as nat)
    } else {
        decimal_digits(v as nat)
    }
}

/// Appends the decimal text of `v`.
fn push_signed(s: &mut String, v: i32)
    ensures
        final(s)@ == old(s)@ + signed_digits(v as int),
{
    if v < 0 {
        crate::text::push_char(s, '-');
        let m: i64 = -(v as i64);
        push_decimal(s, m as u64);
        proof {
            reveal_strlit("-");
        }
        assert(s@ =~= old(s)@ + signed_digits(v as int));
    } else {
        push_decimal(s, v as u64);
    }
}

/// A text, a signed number and a text.
fn signed_text(before: &str, v: i32, after: &str) -> (r: String)
    ensures
        r@ == before@ + signed_digits(v as int) + after@,
{
    let mut s = crate::text::owned(before);
    push_signed(&mut s, v);
    s.append(after);
    s
}

fn tone_of(fg: Hue, bold: bool, highlighted: bool) -> (r: Tone)
    ensures
        r == (Tone { fg, bold, highlighted }),
{
    Tone { fg, bold, highlighted }
}

fn piece_from(text: String, t: Tone) -> (r: Piece)
    ensures
        crate::ui::piece_view(r) == (text@, t),
{
    Piece { text, tone: t }
}

fn piece_str(text: &str, t: Tone) -> (r: Piece)
    ensures
        crate::ui::piece_view(r) == (text@, t),
{
    Piece { text: crate::text::owned(text), tone: t }
}

fn push_piece(line: &mut Vec<Piece>, p: Piece)
    ensures
        line_view(*final(line)) == line_view(*old(line)).push(crate::ui::piece_view(p)),
{
    line.push(p);
    assert(line_view(*final(line)) =~= line_view(*old(line)).push(crate::ui::piece_view(p)));
}

fn push_line(lines: &mut Vec<Vec<Piece>>, l: Vec<Piece>)
    ensures
        lines_view(final(lines)@) == lines_view(old(lines)@).push(line_view(l)),
{
    let ghost lv = line_view(l);
    lines.push(l);
    assert(lines_view(final(lines)@) =~= lines_view(old(lines)@).push(lv));
}

fn indented(text: String, h: Hue) -> (r: Vec<Piece>)
    ensures
        line_view(r) == detail_line(text@, h),
{
    let mut l: Vec<Piece> = Vec::new();
    push_piece(&mut l, piece_str("     ", tone_of(Hue::Default, false, false)));
    push_piece(&mut l, piece_from(text, tone_of(h, false, false)));
    assert(line_view(l) =~~= detail_line(text@, h));
    l
}

/// The pieces of an object's one-line summary: age, category, signal
/// count, and for aircraft altitude and speed, separated by bars.
pub open spec fn compact_parts(o: MapObject, now: int) -> Seq<(Seq<char>, Tone)> {
    let m = o.metadata;
    let gray = hue_tone(Hue::Gray);
    let bar = (" | "@, plain_tone());
    (match o.timestamp {
        Some(t) => seq![("📅 "@ + relative_timestamp(t as int, now), gray)],
        None => seq![],
    }) + (match m.category {
        Some(c) => seq![bar, ("🏷️ "@ + c@, gray)],
        None => if o.kind == ObjectKind::Aircraft {
            seq![bar, ("✈️ aircraft"@, gray)]
        } else {
            seq![]
        },
    }) + (match m.signal_count {
        Some(c) => if c > 0 {
            seq![bar, ("📡 "@ + decimal_digits(c as nat) + " signals"@, gray)]
        } else {
            seq![]
        },
        None => seq![],
    }) + (if o.kind == ObjectKind::Aircraft {
        (match m.altitude {
            Some(a) => seq![bar, ("🛫 "@ + signed_digits(a as int) + " ft"@, gray)],
            None => seq![],
        }) + (match m.speed {
            Some(v) => seq![bar, ("⚡ "@ + signed_digits(v as int) + " kts"@, gray)],
            None => seq![],
        })
    } else {
        seq![]
    })
}

/// The summary line under an object's title, when there is anything to say.
pub open spec fn compact_details(o: MapObject, now: int) -> Lines {
    let p = compact_parts(o, now);
    if p.len() > 0 {
        seq![seq![("    "@, plain_tone()), ("└─ "@, hue_tone(Hue::DarkGray))] + p]
    } else {
        seq![]
    }
}

/// Whether the object's age can be computed at `now` without overflow.
pub open spec fn age_computable(o: MapObject, now: i64) -> bool {
    match o.timestamp {
        Some(t) => i64::MIN <= now - t <= i64::MAX,
        None => true,
    }
}

fn push_bar_part(parts: &mut Vec<Piece>, text: String)
    ensures
        line_view(*final(parts)) == line_view(*old(parts)) + seq![
            (" | "@, plain_tone()),
            (text@, hue_tone(Hue::Gray)),
        ],
{
    push_piece(parts, piece_str(" | ", tone_of(Hue::Default, false, false)));
    push_piece(parts, piece_from(text, tone_of(Hue::Gray, false, false)));
    assert(line_view(*final(parts)) =~~= line_view(*old(parts)) + seq![
        (" | "@, plain_tone()),
        (text@, hue_tone(Hue::Gray)),
    ]);
}

fn push_compact_details(lines: &mut Vec<Vec<Piece>>, o: &MapObject, now_secs: i64)
    requires
        age_computable(*o, now_secs),
    ensures
        lines_view(final(lines)@) == lines_view(old(lines)@) + compact_details(
            *o,
            now_secs as int,
        ),
{
    let m = &o.metadata;
    let ghost gray = hue_tone(Hue::Gray);
    let ghost bar = (" | "@, plain_tone());
    let mut parts: Vec<Piece> = Vec::new();
    if let Some(t) = o.timestamp {
        let age = crate::ui::format_timestamp_relative(t, now_secs);
        push_piece(
            &mut parts,
            piece_from(crate::text::join2("📅 ", age.as_str()), tone_of(Hue::Gray, false, false)),
        );
    }
    let ghost p1 = line_view(parts);
    match &m.category {
        Some(c) => push_bar_part(&mut parts, crate::text::join2("🏷️ ", c.as_str())),
        None => {
            if o.kind == ObjectKind::Aircraft {
                push_bar_part(&mut parts, crate::text::owned("✈️ aircraft"));
            }
        },
    }
    let ghost p2 = line_view(parts);
    if let Some(c) = m.signal_count {
        if c > 0 {
            let mut t = crate::text::owned("📡 ");
            push_decimal(&mut t, c as u64);
            t.append(" signals");
            push_bar_part(&mut parts, t);
        }
    }
    let ghost p3 = line_view(parts);
    if o.kind == ObjectKind::Aircraft {
        if let Some(a) = m.altitude {
            push_bar_part(&mut parts, signed_text("🛫 ", a, " ft"));
        }
        if let Some(v) = m.speed {
            push_bar_part(&mut parts, signed_text("⚡ ", v, " kts"));
        }
    }
    assert(line_view(parts) =~~= compact_parts(*o, now_secs as int));
    if parts.len() > 0 {
        let mut line: Vec<Piece> = Vec::new();
        push_piece(&mut line, piece_str("    ", tone_of(Hue::Default, false, false)));
        push_piece(&mut line, piece_str("└─ ", tone_of(Hue::DarkGray, false, false)));
        let ghost head = line_view(line);
        let ghost pv = line_view(parts);
        let mut parts = parts;
        line.append(&mut parts);
        assert(line_view(line) =~~= head + pv);
        push_line(lines, line);
        assert(lines_view(lines@) =~~= lines_view(old(lines)@) + compact_details(
            *o,
            now_secs as int,
        ));
    } else {
        assert(lines_view(lines@) =~~= lines_view(old(lines)@) + compact_details(
            *o,
            now_secs as int,
        ));
    }
}


/// Where an object is: place, country, and the region when there is no
/// country.
pub open spec fn location_parts(m: ObjectMetadata) -> Seq<Seq<char>> {
    (match m.location {
        Some(l) => seq!["📍 "@ + l@],
        None => seq![],
    }) + (match m.country {
        Some(c) => seq!["🌍 "@ + c@],
        None => seq![],
    }) + (match (m.region, m.country) {
        (Some(r), None) => seq!["🌍 "@ + r@],
        _ => seq![],
    })
}

/// Creation time, signal count, confidence and sources of an object.
pub open spec fn meta_parts(m: ObjectMetadata) -> Seq<Seq<char>> {
    (match m.created_at {
        Some(c) => seq!["🕐 "@ + c@],
        None => seq![],
    }) + (match m.signal_count {
        Some(n) => seq!["📊 "@ + signed_digits(n as int) + " signals"@],
        None => seq![],
    }) + (match m.confidence {
        Some(c) => seq!["✓ "@ + signed_digits(c as int) + "% confidence"@],
        None => seq![],
    }) + (match m.source_types {
        Some(t) => seq!["📡 "@ + t@],
        None => seq![],
    })
}

/// Flight facts of an aircraft.
pub open spec fn aircraft_parts(m: ObjectMetadata) -> Seq<Seq<char>> {
    (match m.altitude {
        Some(a) => seq!["🛫 Altitude: "@ + signed_digits(a as int) + " ft"@],
        None => seq![],
    }) + (match m.speed {
        Some(v) => seq!["⚡ Speed: "@ + signed_digits(v as int) + " kts"@],
        None => seq![],
    }) + (match m.heading {
        Some(h) => seq!["🧭 Heading: "@ + signed_digits(h as int) + "°"@],
        None => seq![],
    }) + (match m.aircraft_type {
        Some(t) => seq!["✈️ Type: "@ + t@],
        None => seq![],
    }) + (match m.callsign {
        Some(c) => seq!["📻 Callsign: "@ + c@],
        None => seq![],
    })
}

/// How a signal source reads.
pub open spec fn source_label(s: Seq<char>) -> Seq<char> {
    if s == "social_media"@ {
        "social media"@
    } else {
        s
    }
}

/// The position of `src` among the tallied sources, if there.
pub open spec fn source_position(t: Seq<(Seq<char>, nat)>, src: Seq<char>) -> Option<int>
    decreases t.len(),
{
    if t.len() == 0 {
        None
    } else if t.last().0 == src {
        Some(t.len() - 1)
    } else {
        source_position(t.drop_last(), src)
    }
}

/// Signals counted by source, sources in order of first appearance.
pub open spec fn source_tally(sigs: Seq<Signal>) -> Seq<(Seq<char>, nat)>
    decreases sigs.len(),
{
    if sigs.len() == 0 {
        seq![]
    } else {
        let t = source_tally(sigs.drop_last());
        let src = sigs.last().source_type@;
        match source_position(t, src) {
            Some(i) => t.update(i, (src, t[i].1 + 1)),
            None => t.push((src, 1nat)),
        }
    }
}

/// The lines of one signal's content: wrapped at `width`, at most four.
pub open spec fn content_lines(content: Seq<char>, width: int) -> Lines {
    let w = wrapped_lines(content, width);
    let k = if w.len() < 4 {
        w.len()
    } else {
        4
    };
    Seq::new(
        k as nat,
        |i: int|
            seq![
                ("     "@, plain_tone()),
                (if i == 0 {
                    "  └─ "@
                } else {
                    "     "@
                }, hue_tone(Hue::DarkGray)),
                (w[i], hue_tone(Hue::LightBlue)),
            ],
    )
}

/// The content lines of the first `k` signals.
pub open spec fn signals_content(sigs: Seq<Signal>, width: int, k: int) -> Lines
    decreases k,
{
    if k <= 0 {
        seq![]
    } else {
        signals_content(sigs, width, k - 1) + content_lines(sigs[k - 1].content@, width)
    }
}

/// One line per tallied source with its count.
pub open spec fn tally_lines(t: Seq<(Seq<char>, nat)>) -> Lines {
    Seq::new(
        t.len(),
        |i: int|
            seq![
                ("     "@, plain_tone()),
                ("  └─ "@, hue_tone(Hue::DarkGray)),
                (source_label(t[i].0) + ": "@ + decimal_digits(t[i].1), hue_tone(Hue::Gray)),
            ],
    )
}

/// The signal breakdown of an opened incident: a heading, the count per
/// source, and the content of the first four signals.
pub open spec fn signal_lines(sigs: Seq<Signal>, width: u16) -> Lines {
    if sigs.len() == 0 {
        seq![]
    } else {
        seq![seq![("     "@, plain_tone()), ("📡 Signals:"@, hue_tone(Hue::White))]] + tally_lines(
            source_tally(sigs),
        ) + signals_content(
            sigs,
            sat_sub(width as int, 8),
            if sigs.len() < 4 {
                sigs.len() as int
            } else {
                4
            },
        )
    }
}

/// The wrapped summary of an object, then a blank line; nothing without a
/// summary.
pub open spec fn summary_block(m: ObjectMetadata, width: u16) -> Lines {
    match m.summary {
        Some(s) => if s@.len() > 0 {
            let w = wrapped_lines(s@, sat_sub(width as int, 6));
            Seq::new(w.len(), |i: int| detail_line(w[i], Hue::White)) + seq![seq![]]
        } else {
            seq![]
        },
        None => seq![],
    }
}

/// The detail view of a feed object; `coord` is how its coordinates read
/// and `signals` the signals fetched for it so far, if any.
pub open spec fn expanded_details(
    o: MapObject,
    width: u16,
    coord: Seq<char>,
    signals: Option<Seq<Signal>>,
) -> Lines {
    let m = o.metadata;
    seq![rule_line(width)] + summary_block(m, width) + lines_if_any(location_parts(m), Hue::Yellow)
        + seq![detail_line(coord, Hue::Cyan)] + lines_if_any(meta_parts(m), Hue::Gray)
        + signal_section(o, width, signals) + closing_lines(o)
}


/// Signals counted by source, as `source_tally` says.
#[verifier::rlimit(40)]
fn tally_sources(sigs: &Vec<Signal>) -> (r: Vec<(String, usize)>)
    ensures
        r@.len() == source_tally(sigs@).len(),
        forall|i: int|
            #![trigger r@[i]]
            0 <= i < r@.len() ==> r@[i].0@ == source_tally(sigs@)[i].0 && r@[i].1
                == source_tally(sigs@)[i].1,
{
    let mut t: Vec<(String, usize)> = Vec::new();
    for k in 0..sigs.len()
        invariant
            t@.len() == source_tally(sigs@.take(k as int)).len(),
            forall|i: int|
                #![trigger t@[i]]
                0 <= i < t@.len() ==> t@[i].0@ == source_tally(sigs@.take(k as int))[i].0 && t@[i].1
                    == source_tally(sigs@.take(k as int))[i].1,
            forall|i: int| #![trigger t@[i]] 0 <= i < t@.len() ==> t@[i].1 <= k,
    {
        let ghost prev = source_tally(sigs@.take(k as int));
        assert(sigs@.take(k + 1).drop_last() =~= sigs@.take(k as int));
        let src = sigs[k].source_type.as_str();
        let mut j = t.len();
        assert(prev.take(j as int) =~= prev);
        while j > 0 && !crate::text::same_text(t[j - 1].0.as_str(), src)
            invariant
                j <= t@.len(),
                t@.len() == prev.len(),
                forall|i: int|
                    #![trigger t@[i]]
                    0 <= i < t@.len() ==> t@[i].0@ == prev[i].0 && t@[i].1 == prev[i].1,
                source_position(prev, src@) == source_position(prev.take(j as int), src@),
            decreases j,
        {
            assert(prev.take(j as int).drop_last() =~= prev.take(j - 1));
            j = j - 1;
        }
        if j == 0 {
            t.push((crate::text::owned(src), 1));
            assert(source_position(prev.take(0), src@) is None);
        } else {
            assert(source_position(prev.take(j as int), src@) == Some(j - 1));
            let entry = &t[j - 1];
            let updated = (entry.0.clone(), entry.1 + 1);
            t.set(j - 1, updated);
        }
        let ghost next = source_tally(sigs@.take(k + 1));
        assert forall|i: int| #![trigger t@[i]] 0 <= i < t@.len() implies t@[i].0@ == next[i].0
            && t@[i].1 == next[i].1 by {}
    }
    assert(sigs@.take(sigs@.len() as int) =~= sigs@);
    t
}

fn content_line(first: bool, text: String) -> (r: Vec<Piece>)
    ensures
        line_view(r) == seq![
            ("     "@, plain_tone()),
            (if first {
                "  └─ "@
            } else {
                "     "@
            }, hue_tone(Hue::DarkGray)),
            (text@, hue_tone(Hue::LightBlue)),
        ],
{
    let mut l: Vec<Piece> = Vec::new();
    push_piece(&mut l, piece_str("     ", tone_of(Hue::Default, false, false)));
    push_piece(
        &mut l,
        piece_str(
            if first {
                "  └─ "
            } else {
                "     "
            },
            tone_of(Hue::DarkGray, false, false),
        ),
    );
    push_piece(&mut l, piece_from(text, tone_of(Hue::LightBlue, false, false)));
    assert(line_view(l) =~~= seq![
        ("     "@, plain_tone()),
        (if first {
            "  └─ "@
        } else {
            "     "@
        }, hue_tone(Hue::DarkGray)),
        (text@, hue_tone(Hue::LightBlue)),
    ]);
    l
}

#[verifier::rlimit(40)]
fn push_signal_lines(lines: &mut Vec<Vec<Piece>>, sigs: &Vec<Signal>, width: u16)
    ensures
        lines_view(final(lines)@) == lines_view(old(lines)@) + signal_lines(sigs@, width),
{
    let ghost start = lines_view(lines@);
    if sigs.len() == 0 {
        assert(lines_view(lines@) =~~= start + signal_lines(sigs@, width));
        return ;
    }
    let mut head: Vec<Piece> = Vec::new();
    push_piece(&mut head, piece_str("     ", tone_of(Hue::Default, false, false)));
    push_piece(&mut head, piece_str("📡 Signals:", tone_of(Hue::White, false, false)));
    push_line(lines, head);
    let ghost t = source_tally(sigs@);
    let ghost tally_view = tally_lines(t);
    let ghost a = lines_view(lines@);
    let tally = tally_sources(sigs);
    for i in 0..tally.len()
        invariant
            tally@.len() == t.len(),
            t == source_tally(sigs@),
            tally_view == tally_lines(t),
            forall|j: int|
                #![trigger tally@[j]]
                0 <= j < tally@.len() ==> tally@[j].0@ == t[j].0 && tally@[j].1 == t[j].1,
            lines_view(lines@) == a + tally_view.take(i as int),
    {
        let entry = &tally[i];
        let label = if crate::text::same_text(entry.0.as_str(), "social_media") {
            "social media"
        } else {
            entry.0.as_str()
        };
        let mut text = crate::text::join2(label, ": ");
        push_decimal(&mut text, entry.1 as u64);
        let mut l: Vec<Piece> = Vec::new();
        push_piece(&mut l, piece_str("     ", tone_of(Hue::Default, false, false)));
        push_piece(&mut l, piece_str("  └─ ", tone_of(Hue::DarkGray, false, false)));
        push_piece(&mut l, piece_from(text, tone_of(Hue::Gray, false, false)));
        let ghost lv = line_view(l);
        assert(text@ == source_label(t[i as int].0) + ": "@ + decimal_digits(t[i as int].1));
        assert(lv =~~= tally_view[i as int]);
        let ghost before = lines_view(lines@);
        push_line(lines, l);
        assert(lines_view(lines@) == before.push(lv));
        assert(tally_view.take(i + 1) =~= tally_view.take(i as int).push(tally_view[i as int]));
        assert(lines_view(lines@) =~~= a + tally_view.take(i + 1));
    }
    let ghost b = lines_view(lines@);
    let content_width = width.saturating_sub(8) as usize;
    let shown = if sigs.len() < 4 {
        sigs.len()
    } else {
        4
    };
    for k in 0..shown
        invariant
            shown <= sigs@.len(),
            content_width == sat_sub(width as int, 8),
            lines_view(lines@) == b + signals_content(sigs@, content_width as int, k as int),
    {
        let ghost before = lines_view(lines@);
        let wrapped = crate::ui::wrap_text(sigs[k].content.as_str(), content_width);
        let ghost w = wrapped_lines(sigs@[k as int].content@, content_width as int);
        let m = if wrapped.len() < 4 {
            wrapped.len()
        } else {
            4
        };
        let ghost target = content_lines(sigs@[k as int].content@, content_width as int);
        for i in 0..m
            invariant
                m <= wrapped@.len(),
                m == target.len(),
                wrapped@.len() == w.len(),
                w == wrapped_lines(sigs@[k as int].content@, content_width as int),
                target == content_lines(sigs@[k as int].content@, content_width as int),
                forall|j: int| 0 <= j < wrapped@.len() ==> #[trigger] wrapped@[j]@ == w[j],
                lines_view(lines@) == before + target.take(i as int),
        {
            push_line(lines, content_line(i == 0, wrapped[i].clone()));
            assert(lines_view(lines@) =~~= before + target.take(i + 1));
        }
        assert(target.take(m as int) =~= target);
        assert(lines_view(lines@) =~~= b + signals_content(sigs@, content_width as int, k + 1));
    }
    assert(tally_view.take(tally_view.len() as int) =~= tally_view);
    assert(lines_view(lines@) =~~= start + signal_lines(sigs@, width));
}

fn push_summary_block(lines: &mut Vec<Vec<Piece>>, m: &ObjectMetadata, width: u16)
    ensures
        lines_view(final(lines)@) == lines_view(old(lines)@) + summary_block(*m, width),
{
    let ghost a = lines_view(lines@);
    if let Some(summary) = &m.summary {
        if !summary.as_str().is_empty() {
            let wrapped = crate::ui::wrap_text(summary.as_str(), width.saturating_sub(6) as usize);
            let ghost w = wrapped_lines(summary@, sat_sub(width as int, 6));
            for i in 0..wrapped.len()
                invariant
                    wrapped@.len() == w.len(),
                    forall|j: int| 0 <= j < wrapped@.len() ==> #[trigger] wrapped@[j]@ == w[j],
                    lines_view(lines@) == a + Seq::new(
                        i as nat,
                        |j: int| detail_line(w[j], Hue::White),
                    ),
            {
                push_line(lines, indented(wrapped[i].clone(), Hue::White));
                assert(lines_view(lines@) =~~= a + Seq::new(
                    (i + 1) as nat,
                    |j: int| detail_line(w[j], Hue::White),
                ));
            }
            push_line(lines, Vec::new());
            assert(lines_view(lines@) =~~= a + summary_block(*m, width));
        } else {
            assert(lines_view(lines@) =~~= a + summary_block(*m, width));
        }
    } else {
        assert(lines_view(lines@) =~~= a + summary_block(*m, width));
    }
}

fn push_location_and_meta(lines: &mut Vec<Vec<Piece>>, m: &ObjectMetadata, coord: &String)
    ensures
        lines_view(final(lines)@) == lines_view(old(lines)@) + lines_if_any(
            location_parts(*m),
            Hue::Yellow,
        ) + seq![detail_line(coord@, Hue::Cyan)] + lines_if_any(meta_parts(*m), Hue::Gray),
{
    let ghost a = lines_view(lines@);
    let mut loc: Vec<String> = Vec::new();
    if let Some(l) = &m.location {
        loc.push(crate::text::join2("📍 ", l.as_str()));
    }
    if let Some(c) = &m.country {
        loc.push(crate::text::join2("🌍 ", c.as_str()));
    }
    if let Some(r) = &m.region {
        if m.country.is_none() {
            loc.push(crate::text::join2("🌍 ", r.as_str()));
        }
    }
    assert(texts(loc@) =~= location_parts(*m));
    crate::panels::push_parts_line(lines, &loc, Hue::Yellow);
    push_line(lines, indented(coord.clone(), Hue::Cyan));
    let mut meta: Vec<String> = Vec::new();
    if let Some(c) = &m.created_at {
        meta.push(crate::text::join2("🕐 ", c.as_str()));
    }
    if let Some(n) = m.signal_count {
        meta.push(signed_text("📊 ", n, " signals"));
    }
    if let Some(c) = m.confidence {
        meta.push(signed_text("✓ ", c, "% confidence"));
    }
    if let Some(t) = &m.source_types {
        meta.push(crate::text::join2("📡 ", t.as_str()));
    }
    assert(texts(meta@) =~= meta_parts(*m));
    crate::panels::push_parts_line(lines, &meta, Hue::Gray);
    assert(lines_view(lines@) =~~= a + lines_if_any(location_parts(*m), Hue::Yellow) + seq![
        detail_line(coord@, Hue::Cyan),
    ] + lines_if_any(meta_parts(*m), Hue::Gray));
}

/// The signal section of a detail view.
pub open spec fn signal_section(o: MapObject, width: u16, signals: Option<Seq<Signal>>) -> Lines {
    match signals {
        Some(s) => signal_lines(s, width),
        None => if (match o.metadata.signal_count {
            Some(c) => c > 0,
            None => false,
        }) && o.kind == ObjectKind::Incident {
            seq![
                seq![
                    ("     "@, plain_tone()),
                    ("📡 Signals: "@, hue_tone(Hue::White)),
                    ("Loading..."@, hue_tone(Hue::Gray)),
                ],
            ]
        } else {
            seq![]
        },
    }
}

fn push_signal_section(
    lines: &mut Vec<Vec<Piece>>,
    o: &MapObject,
    width: u16,
    signals: &Option<Vec<Signal>>,
)
    ensures
        lines_view(final(lines)@) == lines_view(old(lines)@) + signal_section(
            *o,
            width,
            match signals {
                Some(v) => Some(v@),
                None => None,
            },
        ),
{
    let ghost a = lines_view(lines@);
    match signals {
        Some(sigs) => {
            push_signal_lines(lines, sigs, width);
        },
        None => {
            let pending = match o.metadata.signal_count {
                Some(n) => n > 0,
                None => false,
            };
            if pending && o.kind == ObjectKind::Incident {
                let mut l: Vec<Piece> = Vec::new();
                push_piece(&mut l, piece_str("     ", tone_of(Hue::Default, false, false)));
                push_piece(&mut l, piece_str("📡 Signals: ", tone_of(Hue::White, false, false)));
                push_piece(&mut l, piece_str("Loading...", tone_of(Hue::Gray, false, false)));
                push_line(lines, l);
                assert(lines_view(lines@) =~~= a + signal_section(*o, width, None));
            } else {
                assert(lines_view(lines@) =~~= a + signal_section(*o, width, None));
            }
        },
    }
}

/// The closing lines of a detail view: flight facts of an aircraft and the
/// category.
pub open spec fn closing_lines(o: MapObject) -> Lines {
    let m = o.metadata;
    (if o.kind == ObjectKind::Aircraft {
        lines_if_any(aircraft_parts(m), Hue::LightBlue)
    } else {
        seq![]
    }) + (match m.category {
        Some(c) => seq![
            detail_line(
                "🏷️ Category: "@ + c@ + " "@ + (match m.subtype {
                    Some(st) => "/ "@ + st@,
                    None => seq![],
                }),
                Hue::Magenta,
            ),
        ],
        None => seq![],
    })
}

fn push_closing_lines(lines: &mut Vec<Vec<Piece>>, o: &MapObject)
    ensures
        lines_view(final(lines)@) == lines_view(old(lines)@) + closing_lines(*o),
{
    let m = &o.metadata;
    let ghost a = lines_view(lines@);
    if o.kind == ObjectKind::Aircraft {
        let mut ac: Vec<String> = Vec::new();
        if let Some(al) = m.altitude {
            ac.push(signed_text("🛫 Altitude: ", al, " ft"));
        }
        if let Some(v) = m.speed {
            ac.push(signed_text("⚡ Speed: ", v, " kts"));
        }
        if let Some(h) = m.heading {
            ac.push(signed_text("🧭 Heading: ", h, "°"));
        }
        if let Some(t) = &m.aircraft_type {
            ac.push(crate::text::join2("✈️ Type: ", t.as_str()));
        }
        if let Some(cs) = &m.callsign {
            ac.push(crate::text::join2("📻 Callsign: ", cs.as_str()));
        }
        assert(texts(ac@) =~= aircraft_parts(*m));
        crate::panels::push_parts_line(lines, &ac, Hue::LightBlue);
    }
    let ghost d = lines_view(lines@);
    if let Some(cat) = &m.category {
        let mut t = crate::text::join3("🏷️ Category: ", cat.as_str(), " ");
        if let Some(st) = &m.subtype {
            t.append("/ ");
            t.append(st.as_str());
        }
        push_line(lines, indented(t, Hue::Magenta));
    }
    assert(lines_view(lines@) =~~= a + closing_lines(*o));
}

fn push_expanded_details(
    lines: &mut Vec<Vec<Piece>>,
    o: &MapObject,
    width: u16,
    coord: &String,
    signals: &Option<Vec<Signal>>,
)
    ensures
        lines_view(final(lines)@) == lines_view(old(lines)@) + expanded_details(
            *o,
            width,
            coord@,
            match signals {
                Some(v) => Some(v@),
                None => None,
            },
        ),
{
    let ghost start = lines_view(lines@);
    push_line(lines, crate::panels::rule_line_exec(width));
    push_summary_block(lines, &o.metadata, width);
    push_location_and_meta(lines, &o.metadata, coord);
    push_signal_section(lines, o, width, signals);
    push_closing_lines(lines, o);
    assert(lines_view(lines@) =~~= start + expanded_details(
        *o,
        width,
        coord@,
        match signals {
            Some(v) => Some(v@),
            None => None,
        },
    ));
}


/// The look of an object's title: coloured by confidence (white without
/// one), bold on the dark background when selected.
pub open spec fn object_tone(o: MapObject, selected: bool) -> Tone {
    Tone {
        fg: match confidence_tone(o.metadata.confidence) {
            Some(c) => Hue::Rgb(c.0, c.1, c.2),
            None => Hue::White,
        },
        bold: selected,
        highlighted: selected,
    }
}

/// The title lines of a feed entry: its label wrapped at `width - 7`
/// bytes, at most two lines, the first behind the cursor and the glyph.
pub open spec fn title_lines(o: MapObject, selected: bool, width: u16) -> Lines {
    let w = wrapped_lines(o.label@, sat_sub(width as int, 7));
    let st = object_tone(o, selected);
    let k = if w.len() < 2 {
        w.len()
    } else {
        2
    };
    Seq::new(
        k as nat,
        |i: int|
            if i == 0 {
                seq![
                    (cursor_mark(selected), plain_tone()),
                    (" "@, plain_tone()),
                    (object_glyph(o.kind, o.severity, selected), st),
                    (" "@, plain_tone()),
                    (w[0], st),
                ]
            } else {
                seq![("     "@, plain_tone()), (w[i], st)]
            },
    )
}

/// The lines of a feed entry.
#[verifier::opaque]
pub open spec fn feed_entry(
    o: MapObject,
    selected: bool,
    expanded: bool,
    width: u16,
    now: int,
    coord: Seq<char>,
    signals: Option<Seq<Signal>>,
) -> Lines {
    title_lines(o, selected, width) + (if selected && expanded {
        expanded_details(o, width, coord, signals)
    } else {
        compact_details(o, now)
    })
}

/// The rows a feed entry asks for: 8 when opened, else its title lines
/// and one.
pub open spec fn feed_room(o: MapObject, selected: bool, expanded: bool, width: u16) -> int {
    let w = wrapped_lines(o.label@, sat_sub(width as int, 7));
    if selected && expanded {
        8
    } else if w.len() < 2 {
        w.len() + 1int
    } else {
        3
    }
}

/// The position of the feed's selection as drawn.
pub open spec fn feed_selection(app: App) -> int {
    clamp_index(app.selected_idx, app.visible_list().len() as int)
}

/// Whether the drawn selection of the feed is opened.
pub open spec fn feed_opened(app: App) -> bool {
    app.expanded_idx == Some(feed_selection(app) as usize) && app.focus == PaneFocus::Feed
}

/// The entry of the feed object at `i`.
pub open spec fn feed_blocks(
    app: App,
    width: u16,
    now: int,
    coords: Seq<String>,
    signals: Option<Seq<Signal>>,
) -> spec_fn(int) -> Option<Lines> {
    |i: int|
        Some(
            feed_entry(
                app.visible_list()[i],
                i == feed_selection(app) && app.focus == PaneFocus::Feed,
                feed_opened(app),
                width,
                now,
                coords[i]@,
                signals,
            ),
        )
}

/// The rows asked for by the feed object at `i`.
pub open spec fn feed_rooms(app: App, width: u16) -> spec_fn(int) -> int {
    |i: int|
        feed_room(
            app.visible_list()[i],
            i == feed_selection(app) && app.focus == PaneFocus::Feed,
            feed_opened(app),
            width,
        )
}

/// The estimated rows of each feed object, for scrolling.
pub open spec fn feed_heights(app: App, width: u16) -> Seq<usize> {
    Seq::new(
        app.visible_list().len(),
        |i: int| feed_item_height(app.visible_list()[i].label@, width),
    )
}

/// The lines of the feed column at this size and time; `coords[j]` is how
/// the coordinates of the `j`-th feed object read, and `signals` what was
/// fetched for the selected one. A blank line follows an entry only while
/// there is room.
pub open spec fn feed_panel(
    app: App,
    width: u16,
    height: u16,
    now: int,
    coords: Seq<String>,
    signals: Option<Seq<Signal>>,
) -> Option<Lines> {
    let n = app.visible_list().len() as int;
    let wh = sat_sub(height as int, 2);
    let scroll = scroll_offset(feed_selection(app), feed_heights(app, width), wh);
    let header = seq![
        ("Feed "@, bold_tone()),
        ("("@ + decimal_digits(n as nat) + " events)"@, plain_tone()),
    ];
    let empty_note = if n == 0 {
        seq![seq![("No events available"@, hue_tone(Hue::DarkGray))]]
    } else {
        seq![]
    };
    let above = more_above(scroll);
    match fill_items(
        feed_blocks(app, width, now, coords, signals),
        feed_rooms(app, width),
        n,
        wh,
        true,
        scroll,
        1 + above.len() as int,
    ) {
        None => None,
        Some(items) => Some(seq![header] + above + items + empty_note),
    }
}

/// The look of a title, as `object_tone` says.
fn title_tone(o: &MapObject, selected: bool) -> (r: Tone)
    ensures
        r == object_tone(*o, selected),
{
    let fg = match crate::ui::confidence_color(o.metadata.confidence) {
        Some(c) => Hue::Rgb(c.0, c.1, c.2),
        None => Hue::White,
    };
    tone_of(fg, selected, selected)
}

/// Pushes the title lines of a feed entry; returns how many there are.
fn push_title_lines(
    lines: &mut Vec<Vec<Piece>>,
    o: &MapObject,
    selected: bool,
    wrapped: &Vec<String>,
    width: u16,
)
    requires
        wrapped@.len() == wrapped_lines(o.label@, sat_sub(width as int, 7)).len(),
        forall|j: int|
            0 <= j < wrapped@.len() ==> #[trigger] wrapped@[j]@ == wrapped_lines(
                o.label@,
                sat_sub(width as int, 7),
            )[j],
    ensures
        lines_view(final(lines)@) == lines_view(old(lines)@) + title_lines(*o, selected, width),
{
    let ghost start = lines_view(lines@);
    let ghost target = title_lines(*o, selected, width);
    let st = title_tone(o, selected);
    let plain = tone_of(Hue::Default, false, false);
    let k = if wrapped.len() < 2 {
        wrapped.len()
    } else {
        2
    };
    for i in 0..k
        invariant
            k <= wrapped@.len(),
            k == target.len(),
            target == title_lines(*o, selected, width),
            st == object_tone(*o, selected),
            plain == plain_tone(),
            wrapped@.len() == wrapped_lines(o.label@, sat_sub(width as int, 7)).len(),
            forall|j: int|
                0 <= j < wrapped@.len() ==> #[trigger] wrapped@[j]@ == wrapped_lines(
                    o.label@,
                    sat_sub(width as int, 7),
                )[j],
            lines_view(lines@) == start + target.take(i as int),
    {
        let mut l: Vec<Piece> = Vec::new();
        if i == 0 {
            push_piece(&mut l, piece_str(crate::ui::cursor_text(selected), plain));
            push_piece(&mut l, piece_str(" ", plain));
            push_piece(&mut l, piece_str(crate::ui::object_symbol(o, selected), st));
            push_piece(&mut l, piece_str(" ", plain));
            push_piece(&mut l, piece_from(wrapped[0].clone(), st));
        } else {
            push_piece(&mut l, piece_str("     ", plain));
            push_piece(&mut l, piece_from(wrapped[i].clone(), st));
        }
        assert(line_view(l) =~~= target[i as int]);
        push_line(lines, l);
        assert(lines_view(lines@) =~~= start + target.take(i + 1));
    }
    assert(target.take(k as int) =~= target);
}


/// Pushes a feed entry: its title lines and its summary or detail view.
fn push_feed_entry(
    lines: &mut Vec<Vec<Piece>>,
    o: &MapObject,
    selected: bool,
    expanded: bool,
    wrapped: &Vec<String>,
    width: u16,
    now_secs: i64,
    coord: &String,
    signals: &Option<Vec<Signal>>,
)
    requires
        age_computable(*o, now_secs),
        wrapped@.len() == wrapped_lines(o.label@, sat_sub(width as int, 7)).len(),
        forall|j: int|
            0 <= j < wrapped@.len() ==> #[trigger] wrapped@[j]@ == wrapped_lines(
                o.label@,
                sat_sub(width as int, 7),
            )[j],
    ensures
        lines_view(final(lines)@) == lines_view(old(lines)@) + feed_entry(
            *o,
            selected,
            expanded,
            width,
            now_secs as int,
            coord@,
            match signals {
                Some(v) => Some(v@),
                None => None,
            },
        ),
{
    let ghost start = lines_view(lines@);
    reveal(feed_entry);
    push_title_lines(lines, o, selected, wrapped, width);
    if selected && expanded {
        push_expanded_details(lines, o, width, coord, signals);
    } else {
        push_compact_details(lines, o, now_secs);
    }
    assert(lines_view(lines@) =~~= start + feed_entry(
        *o,
        selected,
        expanded,
        width,
        now_secs as int,
        coord@,
        match signals {
            Some(v) => Some(v@),
            None => None,
        },
    ));
}

/// Places one feed entry when it fits: when the lines so far and the rows
/// it asks for stay within `window`, pushes it and, when `more` follow and
/// there is room left, a blank line.
fn place_feed_entry(
    lines: &mut Vec<Vec<Piece>>,
    o: &MapObject,
    selected: bool,
    expanded: bool,
    width: u16,
    window: usize,
    more: bool,
    now_secs: i64,
    coord: &String,
    signals: &Option<Vec<Signal>>,
) -> (placed: bool)
    requires
        age_computable(*o, now_secs),
    ensures
        placed == (old(lines)@.len() + feed_room(*o, selected, expanded, width) <= window),
        !placed ==> final(lines)@ == old(lines)@,
        placed ==> {
            let b0 = feed_entry(
                *o,
                selected,
                expanded,
                width,
                now_secs as int,
                coord@,
                match signals {
                    Some(v) => Some(v@),
                    None => None,
                },
            );
            lines_view(final(lines)@) == lines_view(old(lines)@) + b0 + (if more
                && old(lines)@.len() + b0.len() < window {
                seq![seq![]]
            } else {
                Seq::<Seq<(Seq<char>, Tone)>>::empty()
            })
        },
{
    let wrapped = crate::ui::wrap_text(o.label.as_str(), width.saturating_sub(7) as usize);
    let titles = if wrapped.len() < 2 {
        wrapped.len()
    } else {
        2
    };
    let item_lines: usize = if selected && expanded {
        8
    } else {
        titles + 1
    };
    if item_lines > window || lines.len() > window - item_lines {
        return false;
    }
    let ghost before = lines_view(lines@);
    push_feed_entry(lines, o, selected, expanded, &wrapped, width, now_secs, coord, signals);
    let ghost mid = lines_view(lines@);
    if more && lines.len() < window {
        push_line(lines, Vec::new());
        assert(lines_view(lines@) =~~= mid + seq![seq![]]);
    } else {
        assert(lines_view(lines@) =~~= mid + Seq::<Seq<(Seq<char>, Tone)>>::empty());
    }
    true
}

/// The lines of the feed column (see `feed_panel`).
#[verifier::rlimit(40)]
pub fn feed_panel_lines(
    app: &App,
    width: u16,
    height: u16,
    now_secs: i64,
    coords: &Vec<String>,
    signals: &Option<Vec<Signal>>,
) -> (r: Vec<Vec<Piece>>)
    requires
        coords@.len() == app.visible_list().len(),
        app.visible_list().len() <= usize::MAX / 8,
        forall|i: int|
            0 <= i < app.visible_list().len() ==> age_computable(
                #[trigger] app.visible_list()[i],
                now_secs,
            ),
    ensures
        feed_panel(
            *app,
            width,
            height,
            now_secs as int,
            coords@,
            match signals {
                Some(v) => Some(v@),
                None => None,
            },
        ) == Some(lines_view(r@)),
{
    let ghost sv = match signals {
        Some(v) => Some(v@),
        None => None,
    };
    let objects = app.visible_objects();
    let n = objects.len();
    let sel = if n == 0 {
        0
    } else if app.selected_idx < n - 1 {
        app.selected_idx
    } else {
        n - 1
    };
    let focused = app.focus == PaneFocus::Feed;
    let expanded = match app.expanded_idx {
        Some(e) => e == sel,
        None => false,
    } && focused;
    let wh = height.saturating_sub(2) as usize;
    let heights = app.compute_feed_heights(width);
    assert(heights@ =~= feed_heights(*app, width));
    let scroll = calculate_scroll_offset(sel, heights.as_slice(), wh);
    let mut header: Vec<Piece> = Vec::new();
    push_piece(&mut header, piece_str("Feed ", tone_of(Hue::Default, true, false)));
    let mut count_text = crate::text::owned("(");
    push_decimal(&mut count_text, n as u64);
    count_text.append(" events)");
    push_piece(&mut header, piece_from(count_text, tone_of(Hue::Default, false, false)));
    let ghost head = line_view(header);
    assert(head =~~= seq![
        ("Feed "@, bold_tone()),
        ("("@ + decimal_digits(n as nat) + " events)"@, plain_tone()),
    ]);
    let mut lines: Vec<Vec<Piece>> = Vec::new();
    push_line(&mut lines, header);
    push_more_above(&mut lines, scroll);
    let top = lines.len();
    let ghost above = more_above(scroll as int);
    assert(lines_view(lines@) =~~= seq![head] + above);
    let ghost blocks = feed_blocks(*app, width, now_secs as int, coords@, sv);
    let ghost room = feed_rooms(*app, width);
    let ghost total = fill_items(blocks, room, n as int, wh as int, true, scroll as int, top as int);
    let mut k = scroll;
    let mut go = true;
    while go && k < n
        invariant
            n == app.visible_list().len(),
            objects@ == app.visible_list(),
            coords@.len() == n,
            sv == match signals {
                Some(v) => Some(v@),
                None => None,
            },
            forall|i: int| 0 <= i < n ==> age_computable(#[trigger] app.visible_list()[i], now_secs),
            blocks == feed_blocks(*app, width, now_secs as int, coords@, sv),
            room == feed_rooms(*app, width),
            wh == sat_sub(height as int, 2),
            scroll <= k,
            top == 1 + above.len(),
            lines@.len() >= top,
            lines_view(lines@).take(top as int) == seq![head] + above,
            sel == feed_selection(*app),
            expanded == feed_opened(*app),
            focused == (app.focus == PaneFocus::Feed),
            go ==> total == prepend(
                lines_view(lines@).skip(top as int),
                fill_items(blocks, room, n as int, wh as int, true, k as int, lines@.len() as int),
            ),
            !go ==> total == Some(lines_view(lines@).skip(top as int)),
            total == fill_items(blocks, room, n as int, wh as int, true, scroll as int, top as int),
        decreases n - k + (if go {
            1int
        } else {
            0int
        }),
    {
        let o = &objects[k];
        let selected = k == sel && focused;
        let ghost before = lines_view(lines@);
        let ghost count = lines@.len() as int;
        let placed = place_feed_entry(
            &mut lines,
            o,
            selected,
            expanded,
            width,
            wh,
            k < n - 1,
            now_secs,
            &coords[k],
            signals,
        );
        if !placed {
            proof {
                assert(fill_items(blocks, room, n as int, wh as int, true, k as int, count) == Some(
                    Seq::<Seq<(Seq<char>, Tone)>>::empty(),
                ));
                assert(lines_view(lines@).skip(top as int) + Seq::<Seq<(Seq<char>, Tone)>>::empty()
                    =~= lines_view(lines@).skip(top as int));
            }
            go = false;
        } else {
            proof {
                let b0 = blocks(k as int).unwrap();
                let b = b0 + separator(n as int, k as int, count + b0.len(), wh as int, true);
                assert(lines_view(lines@) =~~= before + b);
                assert(lines_view(lines@).skip(top as int) =~~= before.skip(top as int) + b);
                assert(lines_view(lines@).take(top as int) =~~= before.take(top as int));
            }
            k = k + 1;
        }
    }
    if go {
        proof {
            assert(fill_items(blocks, room, n as int, wh as int, true, k as int, lines@.len() as int)
                == Some(Seq::<Seq<(Seq<char>, Tone)>>::empty()));
            assert(lines_view(lines@).skip(top as int) + Seq::<Seq<(Seq<char>, Tone)>>::empty()
                =~= lines_view(lines@).skip(top as int));
        }
    }
    let ghost items = lines_view(lines@).skip(top as int);
    assert(lines_view(lines@) =~~= lines_view(lines@).take(top as int) + items);
    if n == 0 {
        let mut note: Vec<Piece> = Vec::new();
        push_piece(&mut note, piece_str("No events available", tone_of(Hue::DarkGray, false, false)));
        push_line(&mut lines, note);
    }
    assert(lines_view(lines@) =~~= seq![head] + above + items + (if n == 0 {
        seq![seq![("No events available"@, hue_tone(Hue::DarkGray))]]
    } else {
        seq![]
    }));
    lines
}

} // verus!
