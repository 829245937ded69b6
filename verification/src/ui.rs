use vstd::prelude::*;

use crate::app::{App, LayerId, LayerState, PaneFocus, SearchMode, SearchResult};
use crate::model::{MapObject, ObjectKind, Severity};
use crate::text::{
    decimal_digits, lowercase, occurs_in, push_decimal, str_contains, to_lowercase, utf8_len, words,
};

verus! {

/// The word for a switch state in status lines.
pub open spec fn switch_word(v: bool) -> Seq<char> {
    if v {
        "on"@
    } else {
        "off"@
    }
}

pub fn on_off(v: bool) -> (r: &'static str)
    ensures
        r@ == switch_word(v),
{
    if v {
        "on"
    } else {
        "off"
    }
}


/// The first item to show in a column of items `h` tall with the item at
/// `selected` chosen: the selected item itself, pinned to the top of the
/// column so that the most room is left below it for its details; 0 when
/// the selection lies outside the list.
pub open spec fn scroll_offset(selected: int, h: Seq<usize>, window: int) -> int {
    if 0 <= selected < h.len() {
        selected
    } else {
        0
    }
}

/// Calculate the scroll offset to keep the selected item visible in the feed window.
/// The selected item is pinned to the top of the column.
pub fn calculate_scroll_offset(selected_idx: usize, heights: &[usize], window_height: usize) -> (r:
    usize)
    ensures
        r == scroll_offset(selected_idx as int, heights@, window_height as int),
{
    if heights.len() == 0 || selected_idx >= heights.len() {
        return 0;
    }
    selected_idx
}

/// How long ago `s` seconds is, in the largest whole unit that fits.
pub open spec fn relative_time(s: nat) -> Seq<char> {
    if s < 60 {
        decimal_digits(s) + "s ago"@
    } else if s < 120 {
        "1 min ago"@
    } else if s < 3600 {
        decimal_digits(s / 60) + "m ago"@
    } else if s < 7200 {
        "1h ago"@
    } else if s < 86400 {
        decimal_digits(s / 3600) + "h ago"@
    } else if s < 172800 {
        "1d ago"@
    } else if s < 604800 {
        decimal_digits(s / 86400) + "d ago"@
    } else {
        decimal_digits(s / 604800) + "w ago"@
    }
}

/// A number followed by a unit.
fn number_then(n: u64, unit: &str) -> (r: String)
    ensures
        r@ == decimal_digits(n as nat) + unit@,
{
    let mut s = String::new();
    push_decimal(&mut s, n);
    s.append(unit);
    s
}

pub fn format_relative_time(seconds: u64) -> (r: String)
    ensures
        r@ == relative_time(seconds as nat),
{
    let minute: u64 = 60;
    let hour: u64 = 3600;
    let day: u64 = 86400;
    let week: u64 = 604800;
    if seconds < minute {
        number_then(seconds, "s ago")
    } else if seconds < 2 * minute {
        crate::text::owned("1 min ago")
    } else if seconds < hour {
        number_then(seconds / minute, "m ago")
    } else if seconds < 2 * hour {
        crate::text::owned("1h ago")
    } else if seconds < day {
        number_then(seconds / hour, "h ago")
    } else if seconds < 2 * day {
        crate::text::owned("1d ago")
    } else if seconds < week {
        number_then(seconds / day, "d ago")
    } else {
        number_then(seconds / week, "w ago")
    }
}

/// How long before `now` (both in seconds since the epoch) `timestamp` is:
/// "in future" for a later time.
pub open spec fn relative_timestamp(timestamp: int, now: int) -> Seq<char> {
    if now - timestamp < 0 {
        "in future"@
    } else {
        relative_time((now - timestamp) as nat)
    }
}

/// The age of `timestamp` as of `now_secs`, both in seconds since the
/// epoch; the caller reads the clock.
pub fn format_timestamp_relative(timestamp: i64, now_secs: i64) -> (r: String)
    requires
        i64::MIN <= now_secs - timestamp <= i64::MAX,
    ensures
        r@ == relative_timestamp(timestamp as int, now_secs as int),
{
    let diff_secs = now_secs - timestamp;
    if diff_secs < 0 {
        return crate::text::owned("in future");
    }
    format_relative_time(diff_secs as u64)
}

/// Greedy wrapping state after the first `k` words: the finished lines and
/// the line being filled.
pub open spec fn wrap_state(ws: Seq<Seq<char>>, width: int, k: int) -> (Seq<Seq<char>>, Seq<char>)
    decreases k,
{
    if k <= 0 {
        (seq![], seq![])
    } else {
        let st = wrap_state(ws, width, k - 1);
        let w = ws[k - 1];
        if st.1.len() == 0 {
            (st.0, w)
        } else if utf8_len(st.1) + 1 + utf8_len(w) <= width {
            (st.0, st.1 + seq![' '] + w)
        } else {
            (st.0.push(st.1), w)
        }
    }
}

/// The lines of `text` wrapped greedily at `width` bytes: its words joined
/// by single spaces while a line stays within the width (a longer word
/// takes a line of its own).
pub open spec fn wrapped_lines(text: Seq<char>, width: int) -> Seq<Seq<char>> {
    let ws = words(text);
    let st = wrap_state(ws, width, ws.len() as int);
    if st.1.len() == 0 {
        st.0
    } else {
        st.0.push(st.1)
    }
}

/// The number of bytes of `s` in UTF-8.
fn byte_len(s: &str) -> (r: usize)
    ensures
        r == utf8_len(s@),
{
    proof {
        crate::text::lemma_utf8_len(s@);
    }
    s.as_bytes().len()
}

#[verifier::rlimit(40)]
pub fn wrap_text(text: &str, width: usize) -> (r: Vec<String>)
    ensures
        r@.len() == wrapped_lines(text@, width as int).len(),
        forall|i: int| 0 <= i < r@.len() ==> #[trigger] r@[i]@ == wrapped_lines(text@, width as int)[i],
{
    let chars = crate::text::chars_of(text);
    let ws = crate::text::split_words(chars.as_slice());
    let ghost wsv = words(text@);
    let mut result: Vec<String> = Vec::new();
    let mut current_line = String::new();
    for k in 0..ws.len()
        invariant
            crate::text::views(ws@) == wsv,
            wsv == words(text@),
            result@.len() == wrap_state(wsv, width as int, k as int).0.len(),
            forall|i: int|
                0 <= i < result@.len() ==> #[trigger] result@[i]@ == wrap_state(
                    wsv,
                    width as int,
                    k as int,
                ).0[i],
            current_line@ == wrap_state(wsv, width as int, k as int).1,
    {
        assert(ws@[k as int]@ == wsv[k as int]);
        let word = crate::text::string_from_chars(ws[k].as_slice());
        if current_line.as_str().is_empty() {
            current_line = word;
        } else {
            let cur_len = byte_len(current_line.as_str());
            let word_len = byte_len(word.as_str());
            if cur_len < width && word_len <= width - cur_len - 1 {
                crate::text::push_char(&mut current_line, ' ');
                current_line.append(word.as_str());
            } else {
                result.push(current_line);
                current_line = word;
            }
        }
    }
    if !current_line.as_str().is_empty() {
        result.push(current_line);
    }
    result
}

/// The glyph marking an object on the map and in the feed.
pub open spec fn object_glyph(kind: ObjectKind, severity: Option<Severity>, selected: bool) -> Seq<
    char,
> {
    if selected {
        "⬢"@
    } else {
        match kind {
            ObjectKind::Incident => match severity {
                Some(Severity::Medium) => "!"@,
                Some(Severity::High) => "▲"@,
                Some(Severity::Critical) => "◆"@,
                _ => "·"@,
            },
            ObjectKind::Ship => "⛴"@,
            ObjectKind::Aircraft => "✈️"@,
        }
    }
}

pub fn object_symbol(object: &MapObject, selected: bool) -> (r: &'static str)
    ensures
        r@ == object_glyph(object.kind, object.severity, selected),
{
    if selected {
        return "⬢";
    }
    match object.kind {
        ObjectKind::Incident => match object.severity {
            Some(Severity::Low) => "·",
            Some(Severity::Medium) => "!",
            Some(Severity::High) => "▲",
            Some(Severity::Critical) => "◆",
            None => "·",
        },
        ObjectKind::Ship => "⛴",
        ObjectKind::Aircraft => "✈️",
    }
}

/// The colour (red, green, blue) that a confidence percentage is shown in;
/// `None` for the default white when there is no confidence.
pub open spec fn confidence_tone(confidence: Option<i32>) -> Option<(u8, u8, u8)> {
    match confidence {
        None => None,
        Some(c) => if c >= 90 {
            Some((86u8, 180u8, 233u8))
        } else if c >= 70 {
            Some((0u8, 158u8, 115u8))
        } else if c >= 50 {
            Some((240u8, 228u8, 66u8))
        } else if c >= 30 {
            Some((230u8, 159u8, 0u8))
        } else {
            Some((213u8, 94u8, 0u8))
        },
    }
}

/// Color-code an object by its confidence percentage: blue, green, yellow,
/// orange or red, from high to low.
pub fn confidence_color(confidence: Option<i32>) -> (r: Option<(u8, u8, u8)>)
    ensures
        r == confidence_tone(confidence),
{
    match confidence {
        None => None,
        Some(c) => if c >= 90 {
            Some((86, 180, 233))
        } else if c >= 70 {
            Some((0, 158, 115))
        } else if c >= 50 {
            Some((240, 228, 66))
        } else if c >= 30 {
            Some((230, 159, 0))
        } else {
            Some((213, 94, 0))
        },
    }
}

/// Whether the lower-cased category mentions any of the words.
pub open spec fn mentions_any(cat: Seq<char>, a: Seq<char>, b: Seq<char>, c: Seq<char>) -> bool {
    occurs_in(cat, a) || occurs_in(cat, b) || occurs_in(cat, c)
}

/// The emoji for an already lower-cased event category, chosen by the
/// first group of words that it contains.
pub open spec fn lowered_emoji(l: Seq<char>) -> Seq<char> {
    if mentions_any(l, "conflict"@, "military"@, "war"@) {
        "🔥"@
    } else if mentions_any(l, "disaster"@, "flood"@, "storm"@) {
        "🌊"@
    } else if mentions_any(l, "political"@, "election"@, "protest"@) {
        "🏛️"@
    } else if mentions_any(l, "economic"@, "financial"@, "market"@) {
        "💰"@
    } else if mentions_any(l, "health"@, "disease"@, "medical"@) {
        "🏥"@
    } else if mentions_any(l, "environment"@, "climate"@, "pollution"@) {
        "🌲"@
    } else if occurs_in(l, "technology"@) || occurs_in(l, "innovation"@) {
        "💻"@
    } else if mentions_any(l, "cyber"@, "hack"@, "data"@) {
        "🔒"@
    } else if mentions_any(l, "crime"@, "terror"@, "attack"@) {
        "🚨"@
    } else {
        "📍"@
    }
}

/// The emoji for an event category: that of its lower-cased text, or the
/// pin when there is no category.
pub open spec fn category_emoji(category: Option<Seq<char>>) -> Seq<char> {
    match category {
        None => "📍"@,
        Some(cat) => lowered_emoji(lowercase(cat)),
    }
}

fn contains_any(hay: &str, a: &str, b: &str, c: &str) -> (r: bool)
    ensures
        r == mentions_any(hay@, a@, b@, c@),
{
    str_contains(hay, a) || str_contains(hay, b) || str_contains(hay, c)
}

/// The emoji for a lower-cased event category (see `lowered_emoji`).
pub fn emoji_for_lowered(l: &str) -> (r: &'static str)
    ensures
        r@ == lowered_emoji(l@),
{
    if contains_any(l, "conflict", "military", "war") {
        "🔥"
    } else if contains_any(l, "disaster", "flood", "storm") {
        "🌊"
    } else if contains_any(l, "political", "election", "protest") {
        "🏛️"
    } else if contains_any(l, "economic", "financial", "market") {
        "💰"
    } else if contains_any(l, "health", "disease", "medical") {
        "🏥"
    } else if contains_any(l, "environment", "climate", "pollution") {
        "🌲"
    } else if str_contains(l, "technology") || str_contains(l, "innovation") {
        "💻"
    } else if contains_any(l, "cyber", "hack", "data") {
        "🔒"
    } else if contains_any(l, "crime", "terror", "attack") {
        "🚨"
    } else {
        "📍"
    }
}

/// Get the appropriate emoji for an event based on its category
pub fn get_event_emoji(category: Option<&str>) -> (r: &'static str)
    ensures
        r@ == category_emoji(
            match category {
                Some(c) => Some(c@),
                None => None,
            },
        ),
{
    match category {
        Some(cat) => {
            let lowered = to_lowercase(cat);
            emoji_for_lowered(lowered.as_str())
        },
        None => "📍",
    }
}


/// The regional indicator letter that stands for the byte `b` of a country
/// code (U+1F1E6 for `A`).
pub open spec fn regional_indicator(b: u8) -> char {
    (0x1F1E6 + b - 65) as char
}

/// Whether a flag can be built from the upper-cased code: a code of two
/// bytes has no byte below `A`.
pub open spec fn flag_buildable(upper: Seq<char>) -> bool {
    let b = vstd::utf8::encode_utf8(upper);
    b.len() == 2 ==> b[0] >= 65 && b[1] >= 65
}

/// The flag for an upper-cased country code: the regional indicators of
/// its two bytes, or a white flag when it is not two bytes long.
pub open spec fn flag_of(upper: Seq<char>) -> Seq<char> {
    let b = vstd::utf8::encode_utf8(upper);
    if b.len() != 2 {
        "🏳️"@
    } else {
        seq![regional_indicator(b[0]), regional_indicator(b[1])]
    }
}

/// The regional indicator for one byte of a code.
fn indicator(b: u8) -> (r: char)
    requires
        b >= 65,
    ensures
        r == regional_indicator(b),
{
    let u: u32 = 0x1F1E6 + (b - 65) as u32;
    match crate::text::char_from_u32(u) {
        Some(c) => c,
        None => '🏳',
    }
}

/// Convert a 2-byte upper-case country code to flag emoji by offsetting
/// its bytes to regional indicator symbols.
pub fn flag_from_upper(code: &str) -> (r: String)
    requires
        flag_buildable(code@),
    ensures
        r@ == flag_of(code@),
{
    let bytes = code.as_bytes();
    if bytes.len() != 2 {
        return crate::text::owned("🏳️");
    }
    let first = indicator(bytes[0]);
    let second = indicator(bytes[1]);
    let mut s = String::new();
    crate::text::push_char(&mut s, first);
    crate::text::push_char(&mut s, second);
    assert(s@ =~= flag_of(code@));
    s
}

/// The flag emoji for a country code, in any case; `None` where the
/// upper-cased code has two bytes and one of them lies below `A` (a digit,
/// say), for which no regional indicator exists.
pub fn country_flag(country_code: &str) -> (r: Option<String>)
    ensures
        r is Some <==> flag_buildable(crate::text::uppercase(country_code@)),
        r matches Some(f) ==> f@ == flag_of(crate::text::uppercase(country_code@)),
{
    let code = crate::text::to_uppercase(country_code);
    let bytes = code.as_str().as_bytes();
    if bytes.len() == 2 && (bytes[0] < 65 || bytes[1] < 65) {
        return None;
    }
    Some(flag_from_upper(code.as_str()))
}


/// A foreground colour of the terminal palette.
#[derive(Debug, Clone, Copy, PartialEq, Eq, Structural)]
pub enum Hue {
    Default,
    Gray,
    DarkGray,
    Cyan,
    Yellow,
    White,
    LightBlue,
    Magenta,
    Green,
    Red,
    Rgb(u8, u8, u8),
}

/// How a piece of text is shown: its colour, whether bold, and whether on
/// the dark background that marks a selection.
#[derive(Debug, Clone, Copy, PartialEq, Eq, Structural)]
pub struct Tone {
    pub fg: Hue,
    pub bold: bool,
    pub highlighted: bool,
}

/// A piece of text of a panel line with its look.
#[derive(Debug)]
pub struct Piece {
    pub text: String,
    pub tone: Tone,
}

/// A piece as plain values.
pub open spec fn piece_view(p: Piece) -> (Seq<char>, Tone) {
    (p.text@, p.tone)
}

/// A line as plain values.
pub open spec fn line_view(l: Vec<Piece>) -> Seq<(Seq<char>, Tone)> {
    l@.map_values(|p: Piece| piece_view(p))
}

/// Panel lines as plain values.
pub open spec fn lines_view(v: Seq<Vec<Piece>>) -> Seq<Seq<(Seq<char>, Tone)>> {
    v.map_values(|l: Vec<Piece>| line_view(l))
}

/// The look of ordinary text.
pub open spec fn plain_tone() -> Tone {
    Tone { fg: Hue::Default, bold: false, highlighted: false }
}

/// Bold text in the default colour.
pub open spec fn bold_tone() -> Tone {
    Tone { fg: Hue::Default, bold: true, highlighted: false }
}

/// Text in a colour.
pub open spec fn hue_tone(h: Hue) -> Tone {
    Tone { fg: h, bold: false, highlighted: false }
}

fn tone(fg: Hue, bold: bool, highlighted: bool) -> (r: Tone)
    ensures
        r == (Tone { fg, bold, highlighted }),
{
    Tone { fg, bold, highlighted }
}

fn piece(text: String, t: Tone) -> (r: Piece)
    ensures
        piece_view(r) == (text@, t),
{
    Piece { text, tone: t }
}

fn piece_of(text: &str, t: Tone) -> (r: Piece)
    ensures
        piece_view(r) == (text@, t),
{
    Piece { text: crate::text::owned(text), tone: t }
}

/// A line of one piece.
fn single(p: Piece) -> (r: Vec<Piece>)
    ensures
        line_view(r) == seq![piece_view(p)],
{
    let mut v: Vec<Piece> = Vec::new();
    v.push(p);
    assert(line_view(v) =~= seq![piece_view(p)]);
    v
}

/// Appends a piece to a line.
fn add_piece(line: &mut Vec<Piece>, p: Piece)
    ensures
        line_view(*final(line)) == line_view(*old(line)).push(piece_view(p)),
{
    line.push(p);
    assert(line_view(*final(line)) =~= line_view(*old(line)).push(piece_view(p)));
}

/// Appends a line to a panel.
fn add_line(lines: &mut Vec<Vec<Piece>>, l: Vec<Piece>)
    ensures
        lines_view(final(lines)@) == lines_view(old(lines)@).push(line_view(l)),
{
    let ghost lv = line_view(l);
    lines.push(l);
    assert(lines_view(final(lines)@) =~= lines_view(old(lines)@).push(lv));
}

/// A text followed by a number.
fn number_after(before: &str, n: u64) -> (r: String)
    ensures
        r@ == before@ + decimal_digits(n as nat),
{
    let mut s = crate::text::owned(before);
    push_decimal(&mut s, n);
    s
}

/// The marker in front of a list entry: `>` for the selected one.
pub open spec fn cursor_mark(selected: bool) -> Seq<char> {
    if selected {
        ">"@
    } else {
        " "@
    }
}

pub(crate) fn cursor_text(selected: bool) -> (r: &'static str)
    ensures
        r@ == cursor_mark(selected),
{
    if selected {
        ">"
    } else {
        " "
    }
}

/// A rectangle of terminal cells.
#[derive(Debug, Clone, Copy, PartialEq, Eq, Structural)]
pub struct Area {
    pub x: u16,
    pub y: u16,
    pub width: u16,
    pub height: u16,
}

/// `a - b`, or 0 when `b` is larger.
pub open spec fn sat_sub(a: int, b: int) -> int {
    if a >= b {
        a - b
    } else {
        0
    }
}

/// `v` limited to `lo..=hi` the way `v.min(hi).max(lo)` does it.
pub open spec fn min_then_max(v: int, hi: int, lo: int) -> int {
    let m = if v < hi {
        v
    } else {
        hi
    };
    if m > lo {
        m
    } else {
        lo
    }
}

/// A popup centred in `area`: the area's size less a margin, kept between
/// a smallest and a largest size, each dimension on its own.
pub open spec fn popup_area(
    area: Area,
    margin_w: u16,
    max_w: u16,
    min_w: u16,
    margin_h: u16,
    max_h: u16,
    min_h: u16,
) -> Area {
    let w = min_then_max(sat_sub(area.width as int, margin_w as int), max_w as int, min_w as int);
    let h = min_then_max(sat_sub(area.height as int, margin_h as int), max_h as int, min_h as int);
    Area {
        x: (area.x + sat_sub(area.width as int, w) / 2) as u16,
        y: (area.y + sat_sub(area.height as int, h) / 2) as u16,
        width: w as u16,
        height: h as u16,
    }
}

/// Where a popup of the given size rules stands in `area`.
pub fn centered_popup(
    area: Area,
    margin_w: u16,
    max_w: u16,
    min_w: u16,
    margin_h: u16,
    max_h: u16,
    min_h: u16,
) -> (r: Area)
    requires
        area.x + area.width <= u16::MAX,
        area.y + area.height <= u16::MAX,
    ensures
        r == popup_area(area, margin_w, max_w, min_w, margin_h, max_h, min_h),
{
    let w0 = area.width.saturating_sub(margin_w);
    let w1 = if w0 < max_w {
        w0
    } else {
        max_w
    };
    let w = if w1 > min_w {
        w1
    } else {
        min_w
    };
    let h0 = area.height.saturating_sub(margin_h);
    let h1 = if h0 < max_h {
        h0
    } else {
        max_h
    };
    let h = if h1 > min_h {
        h1
    } else {
        min_h
    };
    Area {
        x: area.x + area.width.saturating_sub(w) / 2,
        y: area.y + area.height.saturating_sub(h) / 2,
        width: w,
        height: h,
    }
}

/// The label of the feed object at `i`, or "?" past the end.
pub open spec fn feed_label_at(objs: Seq<MapObject>, i: usize) -> Seq<char> {
    if i < objs.len() {
        objs[i as int].label@
    } else {
        "?"@
    }
}

/// What a search hit reads in the typing view.
pub open spec fn hit_line_typing(app: App, hit: SearchResult, selected: bool) -> Seq<char> {
    let p = cursor_mark(selected);
    match hit {
        SearchResult::Feed(i) => p + " Feed: "@ + feed_label_at(app.visible_list(), i),
        SearchResult::Warship(i) => p + " Warship: "@ + (if i < app.snapshot.warships@.len() {
            app.snapshot.warships@[i as int].name@
        } else {
            "?"@
        }),
        SearchResult::Leader(i) => p + " Leader: "@ + (if i < app.snapshot.leaders@.len() {
            app.snapshot.leaders@[i as int].name@
        } else {
            "?"@
        }),
    }
}

/// What a search hit reads in the results view: its source and two fields.
pub open spec fn hit_line_results(app: App, hit: SearchResult, selected: bool) -> Seq<char> {
    let p = cursor_mark(selected);
    match hit {
        SearchResult::Feed(i) => {
            let objs = app.visible_list();
            let cat = if i < objs.len() {
                match objs[i as int].metadata.category {
                    Some(c) => c@,
                    None => ""@,
                }
            } else {
                ""@
            };
            p + " [Feed] "@ + feed_label_at(objs, i) + " | "@ + cat
        },
        SearchResult::Warship(i) => {
            let ws = app.snapshot.warships@;
            if i < ws.len() {
                p + " [Warship] "@ + ws[i as int].name@ + " | "@ + ws[i as int].ship_type@
            } else {
                p + " [Warship] "@ + "?"@ + " | "@
            }
        },
        SearchResult::Leader(i) => {
            let ls = app.snapshot.leaders@;
            if i < ls.len() {
                p + " [Leader] "@ + ls[i as int].name@ + " | "@ + ls[i as int].title@
            } else {
                p + " [Leader] "@ + "?"@ + " | "@
            }
        },
    }
}

/// The lines listing the search hits, one per hit, the selected one marked.
pub open spec fn hit_lines(app: App, typing: bool, k: int) -> Seq<Seq<(Seq<char>, Tone)>>
    decreases k,
{
    if k <= 0 {
        seq![]
    } else {
        let hit = app.search_results@[k - 1];
        let sel = (k - 1) == app.search_selected_idx;
        hit_lines(app, typing, k - 1).push(
            seq![
                (if typing {
                    hit_line_typing(app, hit, sel)
                } else {
                    hit_line_results(app, hit, sel)
                }, plain_tone()),
            ],
        )
    }
}

/// The lines of the search panel.
pub open spec fn search_panel(app: App) -> Seq<Seq<(Seq<char>, Tone)>> {
    let n = app.search_results@.len() as int;
    match app.search_mode {
        SearchMode::Input => {
            let head = seq![
                seq![("Search"@, bold_tone())],
                seq![("Type query to search  |  ENTER to view results  |  ESC to close"@, hue_tone(Hue::Gray))],
                seq![],
                seq![("Query: "@, plain_tone()), (app.search_query@, plain_tone()), ("_"@, plain_tone())],
                seq![],
            ];
            if app.search_query@.len() == 0 {
                head
            } else {
                head + seq![seq![("Results:"@, bold_tone())]] + hit_lines(app, true, n)
            }
        },
        SearchMode::Results => {
            seq![
                seq![("Search Results"@, bold_tone())],
                seq![("j/k to navigate  |  ENTER to select  |  ESC to go back"@, hue_tone(Hue::Gray))],
                seq![("Query: "@, plain_tone()), (app.search_query@, plain_tone())],
                seq![],
                seq![("Results:"@, bold_tone())],
            ] + hit_lines(app, false, n)
        },
    }
}

/// Label of the feed object at `i`, "?" past the end.
fn feed_label(objs: &Vec<MapObject>, i: usize) -> (r: &str)
    ensures
        r@ == feed_label_at(objs@, i),
{
    if i < objs.len() {
        objs[i].label.as_str()
    } else {
        "?"
    }
}

fn hit_text(app: &App, hit: SearchResult, selected: bool, typing: bool) -> (r: String)
    ensures
        r@ == (if typing {
            hit_line_typing(*app, hit, selected)
        } else {
            hit_line_results(*app, hit, selected)
        }),
{
    let p = cursor_text(selected);
    let objs = app.visible_objects();
    match hit {
        SearchResult::Feed(i) => {
            if typing {
                crate::text::join3(p, " Feed: ", feed_label(objs, i))
            } else {
                let cat = if i < objs.len() {
                    match &objs[i].metadata.category {
                        Some(c) => c.as_str(),
                        None => "",
                    }
                } else {
                    ""
                };
                let mut s = crate::text::join4(p, " [Feed] ", feed_label(objs, i), " | ");
                s.append(cat);
                s
            }
        },
        SearchResult::Warship(i) => {
            let ws = &app.snapshot.warships;
            if typing {
                let name = if i < ws.len() {
                    ws[i].name.as_str()
                } else {
                    "?"
                };
                crate::text::join3(p, " Warship: ", name)
            } else if i < ws.len() {
                let mut s = crate::text::join4(p, " [Warship] ", ws[i].name.as_str(), " | ");
                s.append(ws[i].ship_type.as_str());
                s
            } else {
                crate::text::join4(p, " [Warship] ", "?", " | ")
            }
        },
        SearchResult::Leader(i) => {
            let ls = &app.snapshot.leaders;
            if typing {
                let name = if i < ls.len() {
                    ls[i].name.as_str()
                } else {
                    "?"
                };
                crate::text::join3(p, " Leader: ", name)
            } else if i < ls.len() {
                let mut s = crate::text::join4(p, " [Leader] ", ls[i].name.as_str(), " | ");
                s.append(ls[i].title.as_str());
                s
            } else {
                crate::text::join4(p, " [Leader] ", "?", " | ")
            }
        },
    }
}

/// The lines of the search panel: the query, then one line per hit.
#[verifier::rlimit(40)]
pub fn search_panel_lines(app: &App) -> (r: Vec<Vec<Piece>>)
    ensures
        lines_view(r@) == search_panel(*app),
{
    let mut lines: Vec<Vec<Piece>> = Vec::new();
    let typing = match app.search_mode {
        SearchMode::Input => true,
        SearchMode::Results => false,
    };
    let plain = tone(Hue::Default, false, false);
    let bold = tone(Hue::Default, true, false);
    let gray = tone(Hue::Gray, false, false);
    if typing {
        add_line(&mut lines, single(piece_of("Search", bold)));
        add_line(
            &mut lines,
            single(
                piece_of("Type query to search  |  ENTER to view results  |  ESC to close", gray),
            ),
        );
        add_line(&mut lines, Vec::new());
        let mut q = single(piece_of("Query: ", plain));
        add_piece(&mut q, piece_of(app.search_query.as_str(), plain));
        add_piece(&mut q, piece_of("_", plain));
        add_line(&mut lines, q);
        add_line(&mut lines, Vec::new());
        if app.search_query.as_str().is_empty() {
            assert(lines_view(lines@) =~~= search_panel(*app));
            return lines;
        }
        add_line(&mut lines, single(piece_of("Results:", bold)));
    } else {
        add_line(&mut lines, single(piece_of("Search Results", bold)));
        add_line(
            &mut lines,
            single(piece_of("j/k to navigate  |  ENTER to select  |  ESC to go back", gray)),
        );
        let mut q = single(piece_of("Query: ", plain));
        add_piece(&mut q, piece_of(app.search_query.as_str(), plain));
        add_line(&mut lines, q);
        add_line(&mut lines, Vec::new());
        add_line(&mut lines, single(piece_of("Results:", bold)));
    }
    let ghost head = lines_view(lines@);
    let n = app.search_results.len();
    for k in 0..n
        invariant
            n == app.search_results@.len(),
            plain == plain_tone(),
            lines_view(lines@) == head + hit_lines(*app, typing, k as int),
    {
        let sel = k == app.search_selected_idx;
        let hit = app.search_results[k];
        let text = hit_text(app, hit, sel, typing);
        add_line(&mut lines, single(piece(text, plain)));
        assert(lines_view(lines@) =~~= head + hit_lines(*app, typing, k + 1));
    }
    assert(lines_view(lines@) =~~= search_panel(*app));
    lines
}


/// The key help for the focused pane.
pub open spec fn pane_keys(f: PaneFocus) -> Seq<char> {
    match f {
        PaneFocus::Feed => "ACTIVE PANE: FEED  |  j/k move selection  |  h/l move focus"@,
        PaneFocus::Warships => "ACTIVE PANE: WARSHIPS  |  j/k move selection  |  h/l move focus"@,
        PaneFocus::Leaders => "ACTIVE PANE: LEADERS  |  j/k move selection  |  h/l move focus"@,
    }
}

/// The general key help.
pub open spec fn nav_keys() -> Seq<char> {
    "/: search | f: filters | m: map view | ENTER: details | 1-4: severity | g: refresh | q: quit"@
}

/// The status line's account of the selected feed object.
pub open spec fn selection_text(objs: Seq<MapObject>, idx: usize) -> Seq<char> {
    if objs.len() == 0 {
        "selected: none"@
    } else {
        "selected: "@ + objs[crate::app::min_usize(idx as int, objs.len() - 1)].label@
    }
}

/// The switches line: layers, then the four severity switches.
pub open spec fn switches_text(app: App) -> Seq<char> {
    let f = app.severity_filter@;
    "inc:"@ + switch_word(crate::app::layer_shown(app.layers@, LayerId::Incidents)) + " ship:"@
        + switch_word(crate::app::layer_shown(app.layers@, LayerId::Ships)) + " sev[1:"@
        + switch_word(f[0]) + " 2:"@ + switch_word(f[1]) + " 3:"@ + switch_word(f[2]) + " 4:"@
        + switch_word(f[3]) + "]"@
}

/// The lines of the status panel.
pub open spec fn status_panel(app: App) -> Seq<Seq<(Seq<char>, Tone)>> {
    let objs = app.visible_list();
    let sep = ("  |  "@, plain_tone());
    seq![
        seq![
            ("Status: "@, bold_tone()),
            (app.status@, plain_tone()),
            sep,
            (selection_text(objs, app.selected_idx), plain_tone()),
            sep,
            ("events: "@ + decimal_digits(objs.len()), plain_tone()),
            sep,
            ("warships: "@ + decimal_digits(app.snapshot.warships@.len()), plain_tone()),
            sep,
            ("leaders: "@ + decimal_digits(app.snapshot.leaders@.len()), plain_tone()),
        ],
        seq![(pane_keys(app.focus), hue_tone(Hue::Gray))],
        seq![(nav_keys(), hue_tone(Hue::DarkGray))],
        seq![(switches_text(app), plain_tone())],
    ]
}

fn switches_line(app: &App) -> (r: String)
    ensures
        r@ == switches_text(*app),
{
    let mut s = crate::text::join2("inc:", on_off(app.layer_visible(LayerId::Incidents)));
    s.append(" ship:");
    s.append(on_off(app.layer_visible(LayerId::Ships)));
    s.append(" sev[1:");
    s.append(on_off(app.severity_filter[0]));
    s.append(" 2:");
    s.append(on_off(app.severity_filter[1]));
    s.append(" 3:");
    s.append(on_off(app.severity_filter[2]));
    s.append(" 4:");
    s.append(on_off(app.severity_filter[3]));
    s.append("]");
    s
}

/// The lines of the status panel: status, selection and counts; key help;
/// the switches.
pub fn status_lines(app: &App) -> (r: Vec<Vec<Piece>>)
    ensures
        lines_view(r@) == status_panel(*app),
{
    let plain = tone(Hue::Default, false, false);
    let selected_text = match app.selected_object() {
        Some(o) => crate::text::join2("selected: ", o.label.as_str()),
        None => crate::text::owned("selected: none"),
    };
    let mut first = single(piece_of("Status: ", tone(Hue::Default, true, false)));
    add_piece(&mut first, piece_of(app.status.as_str(), plain));
    add_piece(&mut first, piece_of("  |  ", plain));
    add_piece(&mut first, piece(selected_text, plain));
    add_piece(&mut first, piece_of("  |  ", plain));
    add_piece(&mut first, piece(number_after("events: ", app.visible_objects().len() as u64), plain));
    add_piece(&mut first, piece_of("  |  ", plain));
    add_piece(
        &mut first,
        piece(number_after("warships: ", app.snapshot.warships.len() as u64), plain),
    );
    add_piece(&mut first, piece_of("  |  ", plain));
    add_piece(
        &mut first,
        piece(number_after("leaders: ", app.snapshot.leaders.len() as u64), plain),
    );
    let pane = match app.focus {
        PaneFocus::Feed => "ACTIVE PANE: FEED  |  j/k move selection  |  h/l move focus",
        PaneFocus::Warships => "ACTIVE PANE: WARSHIPS  |  j/k move selection  |  h/l move focus",
        PaneFocus::Leaders => "ACTIVE PANE: LEADERS  |  j/k move selection  |  h/l move focus",
    };
    let mut lines: Vec<Vec<Piece>> = Vec::new();
    add_line(&mut lines, first);
    add_line(&mut lines, single(piece_of(pane, tone(Hue::Gray, false, false))));
    add_line(
        &mut lines,
        single(
            piece_of(
                "/: search | f: filters | m: map view | ENTER: details | 1-4: severity | g: refresh | q: quit",
                tone(Hue::DarkGray, false, false),
            ),
        ),
    );
    add_line(&mut lines, single(piece(switches_line(app), plain)));
    assert(lines_view(lines@) =~~= status_panel(*app));
    lines
}

/// A layer's entry in the layer panel.
pub open spec fn layer_entry(l: LayerState, selected: bool) -> Seq<char> {
    cursor_mark(selected) + " "@ + (if l.visible {
        "[x]"@
    } else {
        "[ ]"@
    }) + " "@ + l.name@
}

/// The entries of the first `k` layers, the one under the cursor marked.
pub open spec fn layer_entries(layers: Seq<LayerState>, cursor: usize, k: int) -> Seq<
    Seq<(Seq<char>, Tone)>,
>
    decreases k,
{
    if k <= 0 {
        seq![]
    } else {
        layer_entries(layers, cursor, k - 1).push(
            seq![(layer_entry(layers[k - 1], k - 1 == cursor), plain_tone())],
        )
    }
}

/// The lines of the layer panel.
pub open spec fn layer_panel(app: App) -> Seq<Seq<(Seq<char>, Tone)>> {
    seq![
        seq![("Layer Controls"@, bold_tone())],
        seq![("j/k move  space toggle  a all  d defaults  esc close"@, hue_tone(Hue::Gray))],
        seq![],
    ] + layer_entries(app.layers@, app.layer_cursor, app.layers@.len() as int)
}

/// The lines of the layer panel: a help line and one entry per layer.
pub fn layer_popup_lines(app: &App) -> (r: Vec<Vec<Piece>>)
    ensures
        lines_view(r@) == layer_panel(*app),
{
    let plain = tone(Hue::Default, false, false);
    let mut lines: Vec<Vec<Piece>> = Vec::new();
    add_line(&mut lines, single(piece_of("Layer Controls", tone(Hue::Default, true, false))));
    add_line(
        &mut lines,
        single(
            piece_of(
                "j/k move  space toggle  a all  d defaults  esc close",
                tone(Hue::Gray, false, false),
            ),
        ),
    );
    add_line(&mut lines, Vec::new());
    let ghost head = lines_view(lines@);
    let n = app.layers.len();
    for k in 0..n
        invariant
            n == app.layers@.len(),
            plain == plain_tone(),
            lines_view(lines@) == head + layer_entries(app.layers@, app.layer_cursor, k as int),
    {
        let layer = app.layers[k];
        let mut s = crate::text::join2(cursor_text(k == app.layer_cursor), " ");
        s.append(
            if layer.visible {
                "[x]"
            } else {
                "[ ]"
            },
        );
        s.append(" ");
        s.append(layer.name);
        add_line(&mut lines, single(piece(s, plain)));
        assert(lines_view(lines@) =~~= head + layer_entries(
            app.layers@,
            app.layer_cursor,
            k + 1,
        ));
    }
    assert(lines_view(lines@) =~~= layer_panel(*app));
    lines
}


/// Column `index` of three equal columns of `area` (the width divided
/// evenly, the remainder left over on the right).
pub open spec fn column_area(area: Area, index: int) -> Area {
    Area {
        x: (area.x + index * (area.width / 3)) as u16,
        y: area.y,
        width: (area.width / 3) as u16,
        height: area.height,
    }
}

pub fn column_rect(area: Area, index: usize) -> (r: Area)
    requires
        index <= u16::MAX,
        area.x + index * (area.width / 3) <= u16::MAX,
    ensures
        r == column_area(area, index as int),
{
    let col_width = area.width / 3;
    proof {
        assert((index as int) * (col_width as int) <= u16::MAX - area.x) by (nonlinear_arith)
            requires
                area.x + index * (area.width / 3) <= u16::MAX,
                col_width == area.width / 3,
        ;
    }
    Area { x: area.x + (index as u16) * col_width, y: area.y, width: col_width, height: area.height }
}


/// A wrapped line is acceptable when it fits the width or is a single word
/// (a word longer than the width gets a line of its own).
pub open spec fn line_fits(line: Seq<char>, width: int, ws: Seq<Seq<char>>) -> bool {
    utf8_len(line) <= width || ws.contains(line)
}

proof fn lemma_wrap_state_fits(ws: Seq<Seq<char>>, width: int, k: int)
    requires
        0 <= k <= ws.len(),
    ensures
        forall|i: int|
            0 <= i < wrap_state(ws, width, k).0.len() ==> line_fits(
                #[trigger] wrap_state(ws, width, k).0[i],
                width,
                ws,
            ),
        wrap_state(ws, width, k).1.len() > 0 ==> line_fits(wrap_state(ws, width, k).1, width, ws),
    decreases k,
{
    if k > 0 {
        lemma_wrap_state_fits(ws, width, k - 1);
        let st = wrap_state(ws, width, k - 1);
        let w = ws[k - 1];
        assert(ws.contains(w));
        if st.1.len() > 0 && utf8_len(st.1) + 1 + utf8_len(w) <= width {
            crate::text::lemma_utf8_len_concat(st.1, seq![' ']);
            crate::text::lemma_utf8_len_concat(st.1 + seq![' '], w);
            assert(utf8_len(seq![' ']) == 1) by {
                reveal_with_fuel(crate::text::utf8_len, 2);
            }
        }
    }
}

/// Every wrapped line fits the width, except a single word longer than
/// the width, which stands on a line of its own.
pub proof fn wrapped_lines_fit(text: Seq<char>, width: int)
    ensures
        forall|i: int|
            0 <= i < wrapped_lines(text, width).len() ==> line_fits(
                #[trigger] wrapped_lines(text, width)[i],
                width,
                words(text),
            ),
{
    let ws = words(text);
    lemma_wrap_state_fits(ws, width, ws.len() as int);
    let st = wrap_state(ws, width, ws.len() as int);
    if st.1.len() > 0 {
        assert forall|i: int| 0 <= i < wrapped_lines(text, width).len() implies line_fits(
            #[trigger] wrapped_lines(text, width)[i],
            width,
            ws,
        ) by {
            if i < st.0.len() {
                assert(wrapped_lines(text, width)[i] == st.0[i]);
            }
        }
    }
}

/// The selected item is the first one shown whenever it lies in the list,
/// so it is never scrolled out of view; the scroll offset always names an
/// item of a non-empty list.
pub proof fn scroll_offset_is_an_item(selected: int, h: Seq<usize>, window: int)
    ensures
        0 <= selected < h.len() ==> scroll_offset(selected, h, window) == selected,
        h.len() > 0 ==> 0 <= scroll_offset(selected, h, window) < h.len(),
        h.len() == 0 ==> scroll_offset(selected, h, window) == 0,
{
}

/// A time is "in future" exactly when it lies after `now`.
pub proof fn future_times_read_in_future(timestamp: int, now: int)
    ensures
        (relative_timestamp(timestamp, now) == "in future"@) <== (timestamp > now),
        timestamp <= now ==> relative_timestamp(timestamp, now) == relative_time(
            (now - timestamp) as nat,
        ),
{
}


/// The parts joined by single spaces.
pub open spec fn spaced(parts: Seq<Seq<char>>) -> Seq<char>
    decreases parts.len(),
{
    if parts.len() == 0 {
        seq![]
    } else if parts.len() == 1 {
        parts[0]
    } else {
        spaced(parts.drop_last()) + seq![' '] + parts.last()
    }
}

proof fn lemma_spaced_push(p: Seq<Seq<char>>, y: Seq<char>)
    ensures
        spaced(p.push(y)) == (if p.len() == 0 {
            y
        } else {
            spaced(p) + seq![' '] + y
        }),
{
    assert(p.push(y).drop_last() =~= p);
}

proof fn lemma_words_are_nonempty(s: Seq<char>)
    ensures
        forall|i: int| 0 <= i < words(s).len() ==> #[trigger] words(s)[i].len() > 0,
    decreases s.len(),
{
    if s.len() > 0 {
        let init = s.drop_last();
        lemma_words_are_nonempty(init);
        let c = s.last();
        if !crate::text::is_white_space(c) && s.len() >= 2 && !crate::text::is_white_space(
            s[s.len() - 2],
        ) {
            assert(init.last() == s[s.len() - 2]);
            crate::text::lemma_words_nonempty_after_word_char(init);
            let prev = words(init);
            assert forall|i: int| 0 <= i < words(s).len() implies #[trigger] words(s)[i].len()
                > 0 by {
                if i < prev.len() - 1 {
                    assert(words(s)[i] == prev[i]);
                }
            }
        }
    }
}

proof fn lemma_wrap_state_spaced(ws: Seq<Seq<char>>, width: int, k: int)
    requires
        0 <= k <= ws.len(),
        forall|i: int| 0 <= i < ws.len() ==> #[trigger] ws[i].len() > 0,
    ensures
        k == 0 ==> wrap_state(ws, width, k).0.len() == 0 && wrap_state(ws, width, k).1.len() == 0,
        k > 0 ==> wrap_state(ws, width, k).1.len() > 0,
        k > 0 ==> spaced(wrap_state(ws, width, k).0.push(wrap_state(ws, width, k).1)) == spaced(
            ws.take(k),
        ),
    decreases k,
{
    if k > 0 {
        lemma_wrap_state_spaced(ws, width, k - 1);
        let st = wrap_state(ws, width, k - 1);
        let w = ws[k - 1];
        assert(ws.take(k).drop_last() =~= ws.take(k - 1));
        assert(ws.take(k).last() == w);
        if k - 1 == 0 {
            assert(st.1.len() == 0);
            assert(ws.take(k) =~= seq![w]);
            assert(seq![w] =~= Seq::<Seq<char>>::empty().push(w));
            lemma_spaced_push(Seq::<Seq<char>>::empty(), w);
        } else if utf8_len(st.1) + 1 + utf8_len(w) <= width {
            lemma_spaced_push(st.0, st.1);
            lemma_spaced_push(st.0, st.1 + seq![' '] + w);
            assert(spaced(ws.take(k)) == spaced(ws.take(k - 1)) + seq![' '] + w);
            if st.0.len() > 0 {
                assert(spaced(st.0) + seq![' '] + (st.1 + seq![' '] + w) =~= (spaced(st.0)
                    + seq![' '] + st.1) + seq![' '] + w);
            } else {
                assert(st.1 + seq![' '] + w =~= st.1 + seq![' '] + w);
            }
        } else {
            lemma_spaced_push(st.0.push(st.1), w);
            assert(spaced(ws.take(k)) == spaced(ws.take(k - 1)) + seq![' '] + w);
        }
    }
}

/// Wrapping only breaks lines: the wrapped lines joined by single spaces
/// are the text's words joined by single spaces.
pub proof fn wrapping_keeps_the_words(text: Seq<char>, width: int)
    ensures
        spaced(wrapped_lines(text, width)) == spaced(words(text)),
{
    let ws = words(text);
    lemma_words_are_nonempty(text);
    lemma_wrap_state_spaced(ws, width, ws.len() as int);
    assert(ws.take(ws.len() as int) =~= ws);
}

} // verus!
