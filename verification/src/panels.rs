use vstd::prelude::*;

use crate::app::{is_carrier, App, PaneFocus};
use crate::model::{Warship, WorldLeader};
use crate::order::{stable_arrangement, stable_order, stably_sorted};
use crate::text::{decimal_digits, push_decimal, uppercase};
use crate::ui::{
    bold_tone, calculate_scroll_offset, country_flag, cursor_mark, flag_buildable, flag_of,
    hue_tone, line_view, lines_view, plain_tone, sat_sub, scroll_offset, Hue, Piece,
    Tone,
};

verus! {

/// Panel lines as plain values.
pub type Lines = Seq<Seq<(Seq<char>, Tone)>>;

/// The blank line that separates item `i` from the next one; with
/// `needs_room`, only while the lines so far (`after`) leave room in the
/// window.
pub open spec fn separator(n: int, i: int, after: int, window: int, needs_room: bool) -> Lines {
    if i < n - 1 && (!needs_room || after < window) {
        seq![seq![]]
    } else {
        seq![]
    }
}

/// The items of a panel from `from` on, while each fits: an item is shown
/// when the lines so far (`count`) and the room it asks for
/// (`room(from)`) stay within `window` rows; each shown item brings its
/// block and a separating blank line (see `separator`). `None` when a
/// shown item has no block.
pub open spec fn fill_items(
    blocks: spec_fn(int) -> Option<Lines>,
    room: spec_fn(int) -> int,
    n: int,
    window: int,
    needs_room: bool,
    from: int,
    count: int,
) -> Option<Lines>
    decreases n - from,
{
    if from < 0 || from >= n || count + room(from) > window {
        Some(seq![])
    } else {
        match blocks(from) {
            None => None,
            Some(b0) => {
                let b = b0 + separator(n, from, count + b0.len(), window, needs_room);
                match fill_items(blocks, room, n, window, needs_room, from + 1, count + b.len()) {
                    None => None,
                    Some(rest) => Some(b + rest),
                }
            },
        }
    }
}

/// `acc` in front of what `rest` holds.
pub open spec fn prepend(acc: Lines, rest: Option<Lines>) -> Option<Lines> {
    match rest {
        None => None,
        Some(r) => Some(acc + r),
    }
}

/// The dark-gray line under a column's header that tells how many items
/// are scrolled out of view above the first one shown; no line when none
/// is.
pub open spec fn more_above(scroll: int) -> Lines {
    if scroll > 0 {
        seq![seq![("↑ "@ + decimal_digits(scroll as nat) + " more above"@, hue_tone(Hue::DarkGray))]]
    } else {
        seq![]
    }
}

/// The position the pane's selection is drawn at: its index, at most the
/// last item.
pub open spec fn clamp_index(idx: usize, n: int) -> int {
    let last = sat_sub(n, 1);
    if (idx as int) < last {
        idx as int
    } else {
        last
    }
}

/// Rows each item asks for: `normal`, or 8 for the opened one.
pub open spec fn item_rows(n: int, sel: int, expanded: bool, normal: usize) -> Seq<usize> {
    Seq::new(n as nat, |i: int| if expanded && i == sel { 8usize } else { normal })
}

/// The " [first-last/total]" indicator shown when not all items fit, with
/// `per` rows per item.
pub open spec fn position_text(scroll: int, window: int, n: int, per: int) -> Seq<char> {
    let end = if scroll + window / per < n {
        scroll + window / per
    } else {
        n
    };
    if n > window / per {
        " ["@ + decimal_digits((scroll + 1) as nat) + "-"@ + decimal_digits(end as nat) + "/"@
            + decimal_digits(n as nat) + "]"@
    } else {
        seq![]
    }
}

/// The flag for a country code, if one can be built.
pub open spec fn flag_text(code: Seq<char>) -> Option<Seq<char>> {
    if flag_buildable(uppercase(code)) {
        Some(flag_of(uppercase(code)))
    } else {
        None
    }
}

/// The parts joined by " | ".
pub open spec fn joined(parts: Seq<Seq<char>>) -> Seq<char>
    decreases parts.len(),
{
    if parts.len() == 0 {
        seq![]
    } else if parts.len() == 1 {
        parts[0]
    } else {
        joined(parts.drop_last()) + " | "@ + parts.last()
    }
}

/// A horizontal rule of `n` characters.
pub open spec fn rule(n: int) -> Seq<char> {
    Seq::new(n as nat, |i: int| '─')
}

/// The indented rule that opens a detail view at this panel width.
pub open spec fn rule_line(width: u16) -> Seq<(Seq<char>, Tone)> {
    seq![("     "@, plain_tone()), (rule(sat_sub(width as int, 6)), hue_tone(Hue::DarkGray))]
}

/// An indented line of one coloured text.
pub open spec fn detail_line(text: Seq<char>, h: Hue) -> Seq<(Seq<char>, Tone)> {
    seq![("     "@, plain_tone()), (text, hue_tone(h))]
}

fn tone_of(fg: Hue, bold: bool, highlighted: bool) -> (r: Tone)
    ensures
        r == (Tone { fg, bold, highlighted }),
{
    Tone { fg, bold, highlighted }
}

fn piece_from(text: String, t: Tone) -> (r: Piece)
    ensures
        crate::ui::piece_view(r) == (text@, t),
{
    Piece { text, tone: t }
}

fn piece_str(text: &str, t: Tone) -> (r: Piece)
    ensures
        crate::ui::piece_view(r) == (text@, t),
{
    Piece { text: crate::text::owned(text), tone: t }
}

fn push_piece(line: &mut Vec<Piece>, p: Piece)
    ensures
        line_view(*final(line)) == line_view(*old(line)).push(crate::ui::piece_view(p)),
{
    line.push(p);
    assert(line_view(*final(line)) =~= line_view(*old(line)).push(crate::ui::piece_view(p)));
}

fn push_line(lines: &mut Vec<Vec<Piece>>, l: Vec<Piece>)
    ensures
        lines_view(final(lines)@) == lines_view(old(lines)@).push(line_view(l)),
{
    let ghost lv = line_view(l);
    lines.push(l);
    assert(lines_view(final(lines)@) =~= lines_view(old(lines)@).push(lv));
}

/// The texts of the strings.
pub open spec fn texts(v: Seq<String>) -> Seq<Seq<char>> {
    v.map_values(|t: String| t@)
}

/// The parts joined by " | ".
pub(crate) fn join_bar(parts: &Vec<String>) -> (r: String)
    ensures
        r@ == joined(texts(parts@)),
{
    let ghost ps = texts(parts@);
    let mut s = String::new();
    for i in 0..parts.len()
        invariant
            ps == texts(parts@),
            s@ == joined(ps.take(i as int)),
    {
        assert(ps.take(i + 1).drop_last() =~= ps.take(i as int));
        if i > 0 {
            s.append(" | ");
        } else {
            assert(ps.take(0) =~= Seq::<Seq<char>>::empty());
            assert(s@ =~= Seq::<char>::empty());
        }
        s.append(parts[i].as_str());
        assert(ps.take(i + 1).last() == ps[i as int]);
        assert(s@ =~= joined(ps.take(i + 1)));
    }
    assert(ps.take(parts.len() as int) =~= ps);
    s
}

/// `n` rule characters.
fn rule_text(n: usize) -> (r: String)
    ensures
        r@ == rule(n as int),
{
    let mut s = String::new();
    for i in 0..n
        invariant
            s@ == rule(i as int),
    {
        crate::text::push_char(&mut s, '─');
        assert(s@ =~= rule(i + 1));
    }
    s
}

pub(crate) fn rule_line_exec(width: u16) -> (r: Vec<Piece>)
    ensures
        line_view(r) == rule_line(width),
{
    let mut l: Vec<Piece> = Vec::new();
    push_piece(&mut l, piece_str("     ", tone_of(Hue::Default, false, false)));
    push_piece(
        &mut l,
        piece_from(rule_text(width.saturating_sub(6) as usize), tone_of(Hue::DarkGray, false, false)),
    );
    assert(line_view(l) =~~= rule_line(width));
    l
}

pub(crate) fn detail_line_exec(text: String, h: Hue) -> (r: Vec<Piece>)
    ensures
        line_view(r) == detail_line(text@, h),
{
    let mut l: Vec<Piece> = Vec::new();
    push_piece(&mut l, piece_str("     ", tone_of(Hue::Default, false, false)));
    push_piece(&mut l, piece_from(text, tone_of(h, false, false)));
    assert(line_view(l) =~~= detail_line(text@, h));
    l
}

/// One indented line joining the parts, when there are any.
pub open spec fn lines_if_any(parts: Seq<Seq<char>>, h: Hue) -> Lines {
    if parts.len() > 0 {
        seq![detail_line(joined(parts), h)]
    } else {
        seq![]
    }
}

pub(crate) fn push_parts_line(lines: &mut Vec<Vec<Piece>>, parts: &Vec<String>, h: Hue)
    ensures
        lines_view(final(lines)@) == lines_view(old(lines)@) + lines_if_any(texts(parts@), h),
{
    if parts.len() > 0 {
        push_line(lines, detail_line_exec(join_bar(parts), h));
        assert(lines_view(final(lines)@) =~= lines_view(old(lines)@) + lines_if_any(
            texts(parts@),
            h,
        ));
    } else {
        assert(lines_view(final(lines)@) =~= lines_view(old(lines)@) + lines_if_any(
            texts(parts@),
            h,
        ));
    }
}

/// The type line of a ship: its type, with the hull number in brackets.
pub open spec fn ship_type_text(s: Warship) -> Seq<char> {
    match s.hull_number {
        Some(h) => s.ship_type@ + " ("@ + h@ + ")"@,
        None => s.ship_type@,
    }
}

/// The emoji for a ship's status.
pub open spec fn status_emoji(status: Seq<char>) -> Seq<char> {
    if status == "deployed"@ {
        "⚓"@
    } else if status == "transiting"@ {
        "🚢"@
    } else {
        "📍"@
    }
}

/// The look of a ship's name: carriers in bold yellow; a selection on the
/// dark background (and bold).
pub open spec fn ship_name_tone(s: Warship, selected: bool) -> Tone {
    if is_carrier(s) {
        Tone { fg: Hue::Yellow, bold: true, highlighted: selected }
    } else if selected {
        Tone { fg: Hue::White, bold: true, highlighted: true }
    } else {
        Tone { fg: Hue::White, bold: false, highlighted: false }
    }
}

/// Group and flagship facts of a ship.
pub open spec fn ship_detail_parts(s: Warship) -> Seq<Seq<char>> {
    (match s.group_name {
        Some(g) => seq!["🚢 Group: "@ + g@],
        None => seq![],
    }) + (match s.group_type {
        Some(t) => seq!["📋 Type: "@ + t@],
        None => seq![],
    }) + (if s.flagship {
        seq!["🏴 Flagship"@]
    } else {
        seq![]
    })
}

/// Source facts of a ship.
pub open spec fn ship_source_parts(s: Warship) -> Seq<Seq<char>> {
    (match s.source_url {
        Some(u) => if u@.len() > 0 {
            seq!["🔗 Source available"@]
        } else {
            seq![]
        },
        None => seq![],
    }) + (match s.source_date {
        Some(d) => if d@.len() > 0 {
            seq!["📅 "@ + d@]
        } else {
            seq![]
        },
        None => seq![],
    })
}

/// The detail view of a ship, with its coordinates as `coord` reads them.
pub open spec fn warship_details(s: Warship, width: u16, coord: Seq<char>) -> Lines {
    seq![rule_line(width), detail_line(coord, Hue::Cyan)] + lines_if_any(
        ship_detail_parts(s),
        Hue::LightBlue,
    ) + lines_if_any(ship_source_parts(s), Hue::Gray) + seq![
        detail_line("🕐 Updated: "@ + s.updated_at@, Hue::Gray),
    ]
}

/// The lines of a ship's entry given its flag.
#[verifier::opaque]
pub open spec fn warship_entry(
    s: Warship,
    flag: Seq<char>,
    selected: bool,
    expanded: bool,
    width: u16,
    coord: Seq<char>,
) -> Lines {
    seq![
        seq![
            (cursor_mark(selected), plain_tone()),
            (" "@, plain_tone()),
            (flag + " "@, plain_tone()),
            (s.name@, ship_name_tone(s, selected)),
            (" · "@, plain_tone()),
            (ship_type_text(s), hue_tone(Hue::Gray)),
        ],
        seq![
            ("    "@ + status_emoji(s.status@) + " "@ + s.region@ + " | "@ + s.status@, hue_tone(
                Hue::Cyan,
            )),
        ],
    ] + (if selected && expanded {
        warship_details(s, width, coord)
    } else {
        seq![]
    })
}

/// A ship's entry: `None` when its country code gives no flag.
#[verifier::opaque]
pub open spec fn warship_block(
    s: Warship,
    selected: bool,
    expanded: bool,
    width: u16,
    coord: Seq<char>,
) -> Option<Lines> {
    match flag_text(s.country@) {
        Some(f) => Some(warship_entry(s, f, selected, expanded, width, coord)),
        None => None,
    }
}

fn opt_nonempty(o: &Option<String>) -> (r: bool)
    ensures
        r == match o {
            Some(t) => t@.len() > 0,
            None => false,
        },
{
    match o {
        Some(t) => !t.as_str().is_empty(),
        None => false,
    }
}

fn push_warship_details(lines: &mut Vec<Vec<Piece>>, s: &Warship, width: u16, coord: &String)
    ensures
        lines_view(final(lines)@) == lines_view(old(lines)@) + warship_details(*s, width, coord@),
{
    let ghost start = lines_view(lines@);
    push_line(lines, rule_line_exec(width));
    push_line(lines, detail_line_exec(coord.clone(), Hue::Cyan));
    let mut parts: Vec<String> = Vec::new();
    if let Some(g) = &s.group_name {
        parts.push(crate::text::join2("🚢 Group: ", g.as_str()));
    }
    if let Some(t) = &s.group_type {
        parts.push(crate::text::join2("📋 Type: ", t.as_str()));
    }
    if s.flagship {
        parts.push(crate::text::owned("🏴 Flagship"));
    }
    assert(texts(parts@) =~= ship_detail_parts(*s));
    push_parts_line(lines, &parts, Hue::LightBlue);
    let mut sources: Vec<String> = Vec::new();
    if opt_nonempty(&s.source_url) {
        sources.push(crate::text::owned("🔗 Source available"));
    }
    if opt_nonempty(&s.source_date) {
        if let Some(d) = &s.source_date {
            sources.push(crate::text::join2("📅 ", d.as_str()));
        }
    }
    assert(texts(sources@) =~= ship_source_parts(*s));
    push_parts_line(lines, &sources, Hue::Gray);
    push_line(
        lines,
        detail_line_exec(crate::text::join2("🕐 Updated: ", s.updated_at.as_str()), Hue::Gray),
    );
    assert(lines_view(lines@) =~= start + warship_details(*s, width, coord@));
}

fn push_warship_entry(
    lines: &mut Vec<Vec<Piece>>,
    s: &Warship,
    flag: &String,
    selected: bool,
    expanded: bool,
    width: u16,
    coord: &String,
)
    ensures
        lines_view(final(lines)@) == lines_view(old(lines)@) + warship_entry(
            *s,
            flag@,
            selected,
            expanded,
            width,
            coord@,
        ),
        warship_entry(*s, flag@, selected, expanded, width, coord@).len() <= 7,
{
    let ghost start = lines_view(lines@);
    reveal(warship_entry);
    let plain = tone_of(Hue::Default, false, false);
    let carrier = crate::text::field_contains(s.ship_type.as_str(), "carrier");
    let name_tone = if carrier {
        tone_of(Hue::Yellow, true, selected)
    } else if selected {
        tone_of(Hue::White, true, true)
    } else {
        tone_of(Hue::White, false, false)
    };
    let type_text = match &s.hull_number {
        Some(h) => crate::text::join4(s.ship_type.as_str(), " (", h.as_str(), ")"),
        None => s.ship_type.clone(),
    };
    let mut first: Vec<Piece> = Vec::new();
    push_piece(&mut first, piece_str(crate::ui::cursor_text(selected), plain));
    push_piece(&mut first, piece_str(" ", plain));
    push_piece(&mut first, piece_from(crate::text::join2(flag.as_str(), " "), plain));
    push_piece(&mut first, piece_from(s.name.clone(), name_tone));
    push_piece(&mut first, piece_str(" · ", plain));
    push_piece(&mut first, piece_from(type_text, tone_of(Hue::Gray, false, false)));
    push_line(lines, first);
    let emoji = if crate::text::same_text(s.status.as_str(), "deployed") {
        "⚓"
    } else if crate::text::same_text(s.status.as_str(), "transiting") {
        "🚢"
    } else {
        "📍"
    };
    let mut second_text = crate::text::join4("    ", emoji, " ", s.region.as_str());
    second_text.append(" | ");
    second_text.append(s.status.as_str());
    let mut second: Vec<Piece> = Vec::new();
    push_piece(&mut second, piece_from(second_text, tone_of(Hue::Cyan, false, false)));
    push_line(lines, second);
    let ghost mid = lines_view(lines@);
    if selected && expanded {
        push_warship_details(lines, s, width, coord);
    } else {
        assert(lines_view(lines@) =~= mid + seq![]);
    }
    assert(lines_view(lines@) =~~= start + warship_entry(
        *s,
        flag@,
        selected,
        expanded,
        width,
        coord@,
    ));
}


/// The entry of the ship at sorted position `i` of the fleet column.
pub open spec fn fleet_blocks(app: App, width: u16, coords: Seq<String>) -> spec_fn(int) -> Option<
    Lines,
> {
    let ws = app.snapshot.warships@;
    let ships = stably_sorted(ws);
    let order = stable_arrangement(ws);
    let sel = clamp_index(app.selected_idx_warships, ships.len() as int);
    let expanded = app.expanded_idx == Some(sel as usize) && app.focus == PaneFocus::Warships;
    |i: int|
        warship_block(
            ships[i],
            i == sel && app.focus == PaneFocus::Warships,
            expanded,
            width,
            coords[order[i] as int]@,
        )
}

/// The rows asked for by each item.
pub open spec fn rows_fn(rows: Seq<usize>) -> spec_fn(int) -> int {
    |i: int| rows[i] as int
}

/// The fleet column's rows per item.
pub open spec fn fleet_rows(app: App) -> Seq<usize> {
    let n = app.snapshot.warships@.len() as int;
    let sel = clamp_index(app.selected_idx_warships, n);
    let expanded = app.expanded_idx == Some(sel as usize) && app.focus == PaneFocus::Warships;
    item_rows(n, sel, expanded, 3)
}

/// The lines of the fleet column at this size; `coords[j]` is how the
/// coordinates of the `j`-th ship of the snapshot read. `None` where a
/// shown ship's country code gives no flag.
pub open spec fn fleet_panel(app: App, width: u16, height: u16, coords: Seq<String>) -> Option<
    Lines,
> {
    let n = app.snapshot.warships@.len() as int;
    let sel = clamp_index(app.selected_idx_warships, n);
    let wh = sat_sub(height as int, 2);
    let rows = fleet_rows(app);
    let scroll = scroll_offset(sel, rows, wh);
    let header = seq![
        ("Warships "@, bold_tone()),
        ("("@ + decimal_digits(n as nat) + " ships)"@, plain_tone()),
        (position_text(scroll, wh, n, 3), hue_tone(Hue::DarkGray)),
    ];
    let empty_note = if n == 0 {
        seq![seq![("No warship data available"@, hue_tone(Hue::DarkGray))]]
    } else {
        seq![]
    };
    let above = more_above(scroll);
    match fill_items(fleet_blocks(app, width, coords), rows_fn(rows), n, wh, false, scroll, 1 + above.len() as int) {
        None => None,
        Some(items) => Some(seq![header] + above + items + empty_note),
    }
}

/// Rows per item as a vector.
fn rows_vec(n: usize, sel: usize, expanded: bool, normal: usize) -> (r: Vec<usize>)
    requires
        normal <= 8,
        n <= usize::MAX / 8,
    ensures
        r@ == item_rows(n as int, sel as int, expanded, normal),
{
    let mut v: Vec<usize> = Vec::new();
    for i in 0..n
        invariant
            normal <= 8,
            v@ == item_rows(i as int, sel as int, expanded, normal),
    {
        v.push(
            if expanded && i == sel {
                8
            } else {
                normal
            },
        );
        assert(v@ =~= item_rows(i + 1, sel as int, expanded, normal));
    }
    v
}

/// Pushes the line of `more_above`.
pub(crate) fn push_more_above(lines: &mut Vec<Vec<Piece>>, scroll: usize)
    ensures
        lines_view(final(lines)@) == lines_view(old(lines)@) + more_above(scroll as int),
{
    if scroll > 0 {
        let mut text = crate::text::owned("↑ ");
        push_decimal(&mut text, scroll as u64);
        text.append(" more above");
        let mut line: Vec<Piece> = Vec::new();
        push_piece(&mut line, piece_from(text, tone_of(Hue::DarkGray, false, false)));
        let ghost lv = line_view(line);
        assert(lv =~~= seq![(
            "↑ "@ + decimal_digits(scroll as nat) + " more above"@,
            hue_tone(Hue::DarkGray),
        )]);
        push_line(lines, line);
    } else {
        assert(lines_view(lines@) =~= lines_view(lines@) + more_above(scroll as int));
    }
}

/// The position indicator as a string.
fn position_string(scroll: usize, window: usize, n: usize, per: usize) -> (r: String)
    requires
        per > 0,
        scroll < n || n == 0,
        n <= usize::MAX / 8,
    ensures
        r@ == position_text(scroll as int, window as int, n as int, per as int),
{
    let q = window / per;
    if n > q {
        let end = if scroll + q < n {
            scroll + q
        } else {
            n
        };
        let mut s = crate::text::owned(" [");
        push_decimal(&mut s, (scroll + 1) as u64);
        s.append("-");
        push_decimal(&mut s, end as u64);
        s.append("/");
        push_decimal(&mut s, n as u64);
        s.append("]");
        s
    } else {
        String::new()
    }
}

/// Pushes the entry of a ship and, when `blank`, a blank line after it;
/// false (and nothing pushed) when the ship's country code gives no flag.
fn push_fleet_block(
    lines: &mut Vec<Vec<Piece>>,
    ship: &Warship,
    selected: bool,
    expanded: bool,
    width: u16,
    coord: &String,
    blank: bool,
) -> (ok: bool)
    ensures
        ok == warship_block(*ship, selected, expanded, width, coord@) is Some,
        ok ==> lines_view(final(lines)@) == lines_view(old(lines)@) + warship_block(
            *ship,
            selected,
            expanded,
            width,
            coord@,
        ).unwrap() + (if blank {
            seq![seq![]]
        } else {
            Seq::<Seq<(Seq<char>, Tone)>>::empty()
        }),
        ok ==> warship_block(*ship, selected, expanded, width, coord@).unwrap().len() <= 7,
{
    reveal(warship_block);
    match country_flag(ship.country.as_str()) {
        None => false,
        Some(flag) => {
            let ghost start = lines_view(lines@);
            push_warship_entry(lines, ship, &flag, selected, expanded, width, coord);
            let ghost mid = lines_view(lines@);
            if blank {
                push_line(lines, Vec::new());
                assert(lines_view(lines@) =~~= mid + seq![seq![]]);
            } else {
                assert(lines_view(lines@) =~~= mid + Seq::<Seq<(Seq<char>, Tone)>>::empty());
            }
            true
        },
    }
}

/// The lines of the fleet column (see `fleet_panel`).
#[verifier::rlimit(40)]
pub fn warships_panel_lines(app: &App, width: u16, height: u16, coords: &Vec<String>) -> (r:
    Option<Vec<Vec<Piece>>>)
    requires
        coords@.len() == app.snapshot.warships@.len(),
        app.snapshot.warships@.len() <= usize::MAX / 16,
    ensures
        match r {
            Some(v) => fleet_panel(*app, width, height, coords@) == Some(lines_view(v@)),
            None => fleet_panel(*app, width, height, coords@) is None,
        },
{
    let ghost ws = app.snapshot.warships@;
    let ghost ships = stably_sorted(ws);
    let order = stable_order(&app.snapshot.warships);
    let n = app.snapshot.warships.len();
    assert(order@.len() == n);
    let sel = if n == 0 {
        0
    } else if app.selected_idx_warships < n - 1 {
        app.selected_idx_warships
    } else {
        n - 1
    };
    let expanded = match app.expanded_idx {
        Some(e) => e == sel,
        None => false,
    } && app.focus == PaneFocus::Warships;
    let focused = app.focus == PaneFocus::Warships;
    let wh = height.saturating_sub(2) as usize;
    let rows = rows_vec(n, sel, expanded, 3);
    assert(rows@ == fleet_rows(*app));
    let scroll = calculate_scroll_offset(sel, rows.as_slice(), wh);
    let plain = tone_of(Hue::Default, false, false);
    let mut header: Vec<Piece> = Vec::new();
    push_piece(&mut header, piece_str("Warships ", tone_of(Hue::Default, true, false)));
    let mut count_text = crate::text::owned("(");
    push_decimal(&mut count_text, n as u64);
    count_text.append(" ships)");
    push_piece(&mut header, piece_from(count_text, plain));
    push_piece(
        &mut header,
        piece_from(position_string(scroll, wh, n, 3), tone_of(Hue::DarkGray, false, false)),
    );
    let ghost head = line_view(header);
    assert(head =~~= seq![
        ("Warships "@, bold_tone()),
        ("("@ + decimal_digits(n as nat) + " ships)"@, plain_tone()),
        (position_text(scroll as int, wh as int, n as int, 3), hue_tone(Hue::DarkGray)),
    ]);
    let mut lines: Vec<Vec<Piece>> = Vec::new();
    push_line(&mut lines, header);
    push_more_above(&mut lines, scroll);
    let top = lines.len();
    let ghost above = more_above(scroll as int);
    assert(lines_view(lines@) =~~= seq![head] + above);
    let ghost blocks = fleet_blocks(*app, width, coords@);
    let ghost room = rows_fn(rows@);
    let ghost total = fill_items(blocks, room, n as int, wh as int, false, scroll as int, top as int);
    let mut k = scroll;
    while k < n && lines.len() + rows[k] <= wh
        invariant
            n == ws.len(),
            ws == app.snapshot.warships@,
            ships == stably_sorted(ws),
            order@ == stable_arrangement(ws),
            order@.len() == n,
            forall|j: int| 0 <= j < n ==> #[trigger] order@[j] < n,
            coords@.len() == n,
            rows@.len() == n,
            forall|j: int| 0 <= j < n ==> #[trigger] rows@[j] <= 8,
            blocks == fleet_blocks(*app, width, coords@),
            room == rows_fn(rows@),
            scroll <= k,
            wh <= u16::MAX,
            above == more_above(scroll as int),
            top == 1 + above.len(),
            lines@.len() >= top,
            lines@.len() <= wh + 12,
            lines_view(lines@).take(top as int) == seq![head] + above,
            sel == clamp_index(app.selected_idx_warships, n as int),
            expanded == (app.expanded_idx == Some(sel as usize) && app.focus
                == PaneFocus::Warships),
            focused == (app.focus == PaneFocus::Warships),
            total == prepend(
                lines_view(lines@).skip(top as int),
                fill_items(blocks, room, n as int, wh as int, false, k as int, lines@.len() as int),
            ),
            total == fill_items(blocks, room, n as int, wh as int, false, scroll as int, top as int),
            rows@ == fleet_rows(*app),
            wh == sat_sub(height as int, 2),
            scroll == scroll_offset(sel as int, rows@, wh as int),
        decreases n - k,
    {
        let ship = &app.snapshot.warships[order[k]];
        assert(*ship == ships[k as int]);
        let selected = k == sel && focused;
        let ghost before = lines_view(lines@);
        let ghost count = lines@.len() as int;
        let blank = k < n - 1;
        let ok = push_fleet_block(&mut lines, ship, selected, expanded, width, &coords[order[k]], blank);
        if !ok {
            assert(blocks(k as int) is None);
            assert(fill_items(blocks, room, n as int, wh as int, false, k as int, count) is None);
            return None;
        }
        proof {
            let b0 = blocks(k as int).unwrap();
            let b = b0 + separator(n as int, k as int, count + b0.len(), wh as int, false);
            assert(lines_view(lines@) =~~= before + b);
            assert(lines_view(lines@).skip(top as int) =~~= before.skip(top as int) + b);
            assert(lines_view(lines@).take(top as int) =~~= before.take(top as int));
        }
        k = k + 1;
    }
    assert(fill_items(blocks, room, n as int, wh as int, false, k as int, lines@.len() as int) == Some(
        Seq::<Seq<(Seq<char>, Tone)>>::empty(),
    ));
    assert(total == Some(lines_view(lines@).skip(top as int))) by {
        assert(lines_view(lines@).skip(top as int) + Seq::<Seq<(Seq<char>, Tone)>>::empty()
            =~= lines_view(lines@).skip(top as int));
    }
    let ghost items = lines_view(lines@).skip(top as int);
    assert(lines_view(lines@) =~~= lines_view(lines@).take(top as int) + items);
    if n == 0 {
        let mut note: Vec<Piece> = Vec::new();
        push_piece(
            &mut note,
            piece_str("No warship data available", tone_of(Hue::DarkGray, false, false)),
        );
        push_line(&mut lines, note);
    }
    assert(rows@ == fleet_rows(*app));
    assert(lines_view(lines@) =~~= seq![head] + above + items + (if n == 0 {
        seq![seq![("No warship data available"@, hue_tone(Hue::DarkGray))]]
    } else {
        seq![]
    }));
    Some(lines)
}


/// The first characters of `s` that take exactly `b` bytes in UTF-8, if
/// `b` falls on a character boundary.
pub open spec fn cut_at_byte(s: Seq<char>, b: int) -> Option<Seq<char>>
    decreases s.len(),
{
    if b == 0 {
        Some(seq![])
    } else if s.len() == 0 || b < 0 || crate::text::utf8_width(s[0]) > b {
        None
    } else {
        match cut_at_byte(s.drop_first(), b - crate::text::utf8_width(s[0])) {
            Some(rest) => Some(seq![s[0]] + rest),
            None => None,
        }
    }
}

/// A leader's activity as the column shows it: cut to its first 47 bytes
/// and "..." when longer than 50 bytes; `None` when the cut would split a
/// character.
pub open spec fn short_activity(a: Seq<char>) -> Option<Seq<char>> {
    if crate::text::utf8_len(a) > 50 {
        match cut_at_byte(a, 47) {
            Some(p) => Some(p + "..."@),
            None => None,
        }
    } else {
        Some(a)
    }
}

/// The characters of `v` from `i` on that take exactly `b` bytes.
fn cut_from(v: &Vec<char>, i: usize, b: usize) -> (r: Option<String>)
    requires
        i <= v@.len(),
    ensures
        match r {
            Some(t) => cut_at_byte(v@.skip(i as int), b as int) == Some(t@),
            None => cut_at_byte(v@.skip(i as int), b as int) is None,
        },
    decreases v@.len() - i,
{
    if b == 0 {
        return Some(String::new());
    }
    if i >= v.len() {
        return None;
    }
    let w = crate::text::char_utf8_width(v[i]);
    assert(v@.skip(i as int)[0] == v@[i as int]);
    assert(v@.skip(i as int).drop_first() =~= v@.skip(i + 1));
    if w > b {
        return None;
    }
    match cut_from(v, i + 1, b - w) {
        Some(rest) => {
            let mut s = String::new();
            crate::text::push_char(&mut s, v[i]);
            s.append(rest.as_str());
            assert(s@ =~= seq![v@[i as int]] + rest@);
            Some(s)
        },
        None => None,
    }
}

fn shorten_activity(a: &str) -> (r: Option<String>)
    ensures
        match r {
            Some(t) => short_activity(a@) == Some(t@),
            None => short_activity(a@) is None,
        },
{
    proof {
        crate::text::lemma_utf8_len(a@);
    }
    if a.as_bytes().len() > 50 {
        let v = crate::text::chars_of(a);
        assert(v@.skip(0) =~= v@);
        match cut_from(&v, 0, 47) {
            Some(p) => {
                let mut t = p;
                t.append("...");
                Some(t)
            },
            None => None,
        }
    } else {
        Some(crate::text::owned(a))
    }
}

/// The mark for a confidence level.
pub open spec fn confidence_mark(c: Seq<char>) -> Seq<char> {
    if c == "high"@ {
        "✓"@
    } else if c == "medium"@ {
        "~"@
    } else {
        "?"@
    }
}

/// The colour of a confidence level.
pub open spec fn confidence_hue(c: Seq<char>) -> Hue {
    if c == "high"@ {
        Hue::Green
    } else if c == "medium"@ {
        Hue::Yellow
    } else {
        Hue::Red
    }
}

/// The wrapped source summary, at most three lines.
pub open spec fn summary_lines(summary: Seq<char>, width: u16) -> Lines {
    let w = crate::ui::wrapped_lines(summary, sat_sub(width as int, 6));
    let k = if w.len() < 3 {
        w.len()
    } else {
        3
    };
    Seq::new(k as nat, |i: int| detail_line(w[i], Hue::Gray))
}

/// The detail view of a leader, with the coordinates as `coord` reads them.
pub open spec fn leader_details(l: WorldLeader, width: u16, coord: Seq<char>) -> Lines {
    seq![rule_line(width), detail_line(coord, Hue::Cyan)] + (match l.next_activity {
        Some(x) => if x@.len() > 0 {
            seq![detail_line("📅 Next: "@ + x@, Hue::Yellow)]
        } else {
            seq![]
        },
        None => seq![],
    }) + (if l.source_summary@.len() > 0 {
        summary_lines(l.source_summary@, width)
    } else {
        seq![]
    }) + seq![detail_line("🕐 Updated: "@ + l.updated_at@, Hue::Gray)]
}

/// The lines of a leader's entry given its flag and shortened activity.
#[verifier::opaque]
pub open spec fn leader_entry(
    l: WorldLeader,
    flag: Seq<char>,
    activity: Seq<char>,
    selected: bool,
    expanded: bool,
    width: u16,
    coord: Seq<char>,
) -> Lines {
    seq![
        seq![
            (cursor_mark(selected), plain_tone()),
            (" "@, plain_tone()),
            (flag + " "@, plain_tone()),
            (l.name@, Tone { fg: Hue::White, bold: true, highlighted: selected }),
            (" · "@, plain_tone()),
            (l.title@, hue_tone(Hue::Gray)),
        ],
        seq![("    📍 "@ + l.location_name@ + " · "@ + activity, hue_tone(Hue::Cyan))],
        seq![
            ("    "@ + confidence_mark(l.confidence@) + " Confidence: "@ + l.confidence@, hue_tone(
                confidence_hue(l.confidence@),
            )),
        ],
    ] + (if selected && expanded {
        leader_details(l, width, coord)
    } else {
        seq![]
    })
}

/// A leader's entry: `None` when its country code gives no flag or its
/// activity cannot be shortened.
#[verifier::opaque]
pub open spec fn leader_block(
    l: WorldLeader,
    selected: bool,
    expanded: bool,
    width: u16,
    coord: Seq<char>,
) -> Option<Lines> {
    match (flag_text(l.country_code@), short_activity(l.activity@)) {
        (Some(f), Some(a)) => Some(leader_entry(l, f, a, selected, expanded, width, coord)),
        _ => None,
    }
}

fn push_leader_details(lines: &mut Vec<Vec<Piece>>, l: &WorldLeader, width: u16, coord: &String)
    ensures
        lines_view(final(lines)@) == lines_view(old(lines)@) + leader_details(*l, width, coord@),
        leader_details(*l, width, coord@).len() <= 7,
{
    let ghost start = lines_view(lines@);
    push_line(lines, rule_line_exec(width));
    push_line(lines, detail_line_exec(coord.clone(), Hue::Cyan));
    let ghost a = lines_view(lines@);
    if let Some(x) = &l.next_activity {
        if !x.as_str().is_empty() {
            push_line(lines, detail_line_exec(crate::text::join2("📅 Next: ", x.as_str()), Hue::Yellow));
        }
    }
    let ghost b = lines_view(lines@);
    if !l.source_summary.as_str().is_empty() {
        let wrapped = crate::ui::wrap_text(l.source_summary.as_str(), width.saturating_sub(6) as usize);
        let ghost w = crate::ui::wrapped_lines(l.source_summary@, sat_sub(width as int, 6));
        let k = if wrapped.len() < 3 {
            wrapped.len()
        } else {
            3
        };
        for i in 0..k
            invariant
                k <= wrapped@.len(),
                wrapped@.len() == w.len(),
                forall|j: int| 0 <= j < wrapped@.len() ==> #[trigger] wrapped@[j]@ == w[j],
                lines_view(lines@) == b + Seq::new(i as nat, |j: int| detail_line(w[j], Hue::Gray)),
        {
            push_line(lines, detail_line_exec(wrapped[i].clone(), Hue::Gray));
            assert(lines_view(lines@) =~~= b + Seq::new(
                (i + 1) as nat,
                |j: int| detail_line(w[j], Hue::Gray),
            ));
        }
        assert(lines_view(lines@) =~~= b + summary_lines(l.source_summary@, width));
    } else {
        assert(lines_view(lines@) =~~= b + Seq::<Seq<(Seq<char>, Tone)>>::empty());
    }
    push_line(
        lines,
        detail_line_exec(crate::text::join2("🕐 Updated: ", l.updated_at.as_str()), Hue::Gray),
    );
    assert(lines_view(lines@) =~~= start + leader_details(*l, width, coord@));
}

fn push_leader_entry(
    lines: &mut Vec<Vec<Piece>>,
    l: &WorldLeader,
    flag: &String,
    activity: &String,
    selected: bool,
    expanded: bool,
    width: u16,
    coord: &String,
)
    ensures
        lines_view(final(lines)@) == lines_view(old(lines)@) + leader_entry(
            *l,
            flag@,
            activity@,
            selected,
            expanded,
            width,
            coord@,
        ),
        leader_entry(*l, flag@, activity@, selected, expanded, width, coord@).len() <= 10,
{
    let ghost start = lines_view(lines@);
    reveal(leader_entry);
    let plain = tone_of(Hue::Default, false, false);
    let mut first: Vec<Piece> = Vec::new();
    push_piece(&mut first, piece_str(crate::ui::cursor_text(selected), plain));
    push_piece(&mut first, piece_str(" ", plain));
    push_piece(&mut first, piece_from(crate::text::join2(flag.as_str(), " "), plain));
    push_piece(&mut first, piece_from(l.name.clone(), tone_of(Hue::White, true, selected)));
    push_piece(&mut first, piece_str(" · ", plain));
    push_piece(&mut first, piece_from(l.title.clone(), tone_of(Hue::Gray, false, false)));
    push_line(lines, first);
    let mut second_text = crate::text::join4(
        "    📍 ",
        l.location_name.as_str(),
        " · ",
        activity.as_str(),
    );
    let mut second: Vec<Piece> = Vec::new();
    push_piece(&mut second, piece_from(second_text, tone_of(Hue::Cyan, false, false)));
    push_line(lines, second);
    let high = crate::text::same_text(l.confidence.as_str(), "high");
    let medium = crate::text::same_text(l.confidence.as_str(), "medium");
    let mark = if high {
        "✓"
    } else if medium {
        "~"
    } else {
        "?"
    };
    let hue = if high {
        Hue::Green
    } else if medium {
        Hue::Yellow
    } else {
        Hue::Red
    };
    let mut third_text = crate::text::join4("    ", mark, " Confidence: ", l.confidence.as_str());
    let mut third: Vec<Piece> = Vec::new();
    push_piece(&mut third, piece_from(third_text, tone_of(hue, false, false)));
    push_line(lines, third);
    let ghost mid = lines_view(lines@);
    if selected && expanded {
        push_leader_details(lines, l, width, coord);
    } else {
        assert(lines_view(lines@) =~= mid + seq![]);
    }
    assert(lines_view(lines@) =~~= start + leader_entry(
        *l,
        flag@,
        activity@,
        selected,
        expanded,
        width,
        coord@,
    ));
}

/// Pushes the entry of a leader and, when `blank`, a blank line after it;
/// false when the entry cannot be built.
fn push_leader_block(
    lines: &mut Vec<Vec<Piece>>,
    l: &WorldLeader,
    selected: bool,
    expanded: bool,
    width: u16,
    coord: &String,
    blank: bool,
) -> (ok: bool)
    ensures
        ok == leader_block(*l, selected, expanded, width, coord@) is Some,
        ok ==> lines_view(final(lines)@) == lines_view(old(lines)@) + leader_block(
            *l,
            selected,
            expanded,
            width,
            coord@,
        ).unwrap() + (if blank {
            seq![seq![]]
        } else {
            Seq::<Seq<(Seq<char>, Tone)>>::empty()
        }),
        ok ==> leader_block(*l, selected, expanded, width, coord@).unwrap().len() <= 10,
{
    reveal(leader_block);
    let flag = match country_flag(l.country_code.as_str()) {
        None => {
            return false;
        },
        Some(f) => f,
    };
    let activity = match shorten_activity(l.activity.as_str()) {
        None => {
            return false;
        },
        Some(a) => a,
    };
    let ghost start = lines_view(lines@);
    push_leader_entry(lines, l, &flag, &activity, selected, expanded, width, coord);
    let ghost mid = lines_view(lines@);
    if blank {
        push_line(lines, Vec::new());
        assert(lines_view(lines@) =~~= mid + seq![seq![]]);
    } else {
        assert(lines_view(lines@) =~~= mid + Seq::<Seq<(Seq<char>, Tone)>>::empty());
    }
    true
}

/// The entry of the leader at `i` of the leader column.
pub open spec fn leader_blocks(app: App, width: u16, coords: Seq<String>) -> spec_fn(int) -> Option<
    Lines,
> {
    let ls = app.snapshot.leaders@;
    let sel = clamp_index(app.selected_idx_leaders, ls.len() as int);
    let expanded = app.expanded_idx == Some(sel as usize) && app.focus == PaneFocus::Leaders;
    |i: int|
        leader_block(
            ls[i],
            i == sel && app.focus == PaneFocus::Leaders,
            expanded,
            width,
            coords[i]@,
        )
}

/// The leader column's rows per item.
pub open spec fn leader_rows(app: App) -> Seq<usize> {
    let n = app.snapshot.leaders@.len() as int;
    let sel = clamp_index(app.selected_idx_leaders, n);
    let expanded = app.expanded_idx == Some(sel as usize) && app.focus == PaneFocus::Leaders;
    item_rows(n, sel, expanded, 4)
}

/// The lines of the leader column at this size; `coords[j]` is how the
/// coordinates of the `j`-th leader read. `None` where a shown leader's
/// entry cannot be built.
pub open spec fn leader_panel(app: App, width: u16, height: u16, coords: Seq<String>) -> Option<
    Lines,
> {
    let n = app.snapshot.leaders@.len() as int;
    let sel = clamp_index(app.selected_idx_leaders, n);
    let wh = sat_sub(height as int, 2);
    let rows = leader_rows(app);
    let scroll = scroll_offset(sel, rows, wh);
    let header = seq![
        ("World Leaders "@, bold_tone()),
        ("("@ + decimal_digits(n as nat) + " leaders)"@, plain_tone()),
        (position_text(scroll, wh, n, 4), hue_tone(Hue::DarkGray)),
    ];
    let empty_note = if n == 0 {
        seq![seq![("No leader data available"@, hue_tone(Hue::DarkGray))]]
    } else {
        seq![]
    };
    let above = more_above(scroll);
    match fill_items(leader_blocks(app, width, coords), rows_fn(rows), n, wh, false, scroll, 1 + above.len() as int) {
        None => None,
        Some(items) => Some(seq![header] + above + items + empty_note),
    }
}

/// The lines of the leader column (see `leader_panel`).
#[verifier::rlimit(40)]
pub fn leaders_panel_lines(app: &App, width: u16, height: u16, coords: &Vec<String>) -> (r:
    Option<Vec<Vec<Piece>>>)
    requires
        coords@.len() == app.snapshot.leaders@.len(),
        app.snapshot.leaders@.len() <= usize::MAX / 16,
    ensures
        match r {
            Some(v) => leader_panel(*app, width, height, coords@) == Some(lines_view(v@)),
            None => leader_panel(*app, width, height, coords@) is None,
        },
{
    let n = app.snapshot.leaders.len();
    let sel = if n == 0 {
        0
    } else if app.selected_idx_leaders < n - 1 {
        app.selected_idx_leaders
    } else {
        n - 1
    };
    let expanded = match app.expanded_idx {
        Some(e) => e == sel,
        None => false,
    } && app.focus == PaneFocus::Leaders;
    let focused = app.focus == PaneFocus::Leaders;
    let wh = height.saturating_sub(2) as usize;
    let rows = rows_vec(n, sel, expanded, 4);
    assert(rows@ == leader_rows(*app));
    let scroll = calculate_scroll_offset(sel, rows.as_slice(), wh);
    let plain = tone_of(Hue::Default, false, false);
    let mut header: Vec<Piece> = Vec::new();
    push_piece(&mut header, piece_str("World Leaders ", tone_of(Hue::Default, true, false)));
    let mut count_text = crate::text::owned("(");
    push_decimal(&mut count_text, n as u64);
    count_text.append(" leaders)");
    push_piece(&mut header, piece_from(count_text, plain));
    push_piece(
        &mut header,
        piece_from(position_string(scroll, wh, n, 4), tone_of(Hue::DarkGray, false, false)),
    );
    let ghost head = line_view(header);
    assert(head =~~= seq![
        ("World Leaders "@, bold_tone()),
        ("("@ + decimal_digits(n as nat) + " leaders)"@, plain_tone()),
        (position_text(scroll as int, wh as int, n as int, 4), hue_tone(Hue::DarkGray)),
    ]);
    let mut lines: Vec<Vec<Piece>> = Vec::new();
    push_line(&mut lines, header);
    push_more_above(&mut lines, scroll);
    let top = lines.len();
    let ghost above = more_above(scroll as int);
    assert(lines_view(lines@) =~~= seq![head] + above);
    let ghost blocks = leader_blocks(*app, width, coords@);
    let ghost room = rows_fn(rows@);
    let ghost total = fill_items(blocks, room, n as int, wh as int, false, scroll as int, top as int);
    let mut k = scroll;
    while k < n && lines.len() + rows[k] <= wh
        invariant
            n == app.snapshot.leaders@.len(),
            coords@.len() == n,
            rows@.len() == n,
            forall|j: int| 0 <= j < n ==> #[trigger] rows@[j] <= 8,
            blocks == leader_blocks(*app, width, coords@),
            room == rows_fn(rows@),
            scroll <= k,
            wh <= u16::MAX,
            above == more_above(scroll as int),
            top == 1 + above.len(),
            lines@.len() >= top,
            lines@.len() <= wh + 12,
            lines_view(lines@).take(top as int) == seq![head] + above,
            sel == clamp_index(app.selected_idx_leaders, n as int),
            expanded == (app.expanded_idx == Some(sel as usize) && app.focus == PaneFocus::Leaders),
            focused == (app.focus == PaneFocus::Leaders),
            total == prepend(
                lines_view(lines@).skip(top as int),
                fill_items(blocks, room, n as int, wh as int, false, k as int, lines@.len() as int),
            ),
            total == fill_items(blocks, room, n as int, wh as int, false, scroll as int, top as int),
            rows@ == leader_rows(*app),
            wh == sat_sub(height as int, 2),
            scroll == scroll_offset(sel as int, rows@, wh as int),
        decreases n - k,
    {
        let leader = &app.snapshot.leaders[k];
        let selected = k == sel && focused;
        let ghost before = lines_view(lines@);
        let ghost count = lines@.len() as int;
        let blank = k < n - 1;
        let ok = push_leader_block(&mut lines, leader, selected, expanded, width, &coords[k], blank);
        if !ok {
            assert(blocks(k as int) is None);
            assert(fill_items(blocks, room, n as int, wh as int, false, k as int, count) is None);
            return None;
        }
        proof {
            let b0 = blocks(k as int).unwrap();
            let b = b0 + separator(n as int, k as int, count + b0.len(), wh as int, false);
            assert(lines_view(lines@) =~~= before + b);
            assert(lines_view(lines@).skip(top as int) =~~= before.skip(top as int) + b);
            assert(lines_view(lines@).take(top as int) =~~= before.take(top as int));
        }
        k = k + 1;
    }
    assert(fill_items(blocks, room, n as int, wh as int, false, k as int, lines@.len() as int) == Some(
        Seq::<Seq<(Seq<char>, Tone)>>::empty(),
    ));
    assert(total == Some(lines_view(lines@).skip(top as int))) by {
        assert(lines_view(lines@).skip(top as int) + Seq::<Seq<(Seq<char>, Tone)>>::empty()
            =~= lines_view(lines@).skip(top as int));
    }
    let ghost items = lines_view(lines@).skip(top as int);
    assert(lines_view(lines@) =~~= lines_view(lines@).take(top as int) + items);
    if n == 0 {
        let mut note: Vec<Piece> = Vec::new();
        push_piece(
            &mut note,
            piece_str("No leader data available", tone_of(Hue::DarkGray, false, false)),
        );
        push_line(&mut lines, note);
    }
    assert(lines_view(lines@) =~~= seq![head] + above + items + (if n == 0 {
        seq![seq![("No leader data available"@, hue_tone(Hue::DarkGray))]]
    } else {
        seq![]
    }));
    Some(lines)
}

} // verus!
