use vstd::prelude::*;

use crate::text::{chars_of, same_text};

verus! {

/// Milliseconds between two scroll steps of a ticker line.
pub const SCROLL_STEP_MS: u64 = 500;

/// Milliseconds between two fetches of the quotes.
pub const REFETCH_MS: u64 = 300000;

/// The clock state of the market ticker: how far each line has scrolled,
/// when each last moved and when the quotes were last fetched (all times in
/// milliseconds). The quotes themselves hold prices and stay with the caller.
#[derive(Debug, Clone, Copy, PartialEq, Eq, Structural)]
pub struct MarketTicker {
    pub scroll_offset_commodities: usize,
    pub scroll_offset_indices: usize,
    pub scroll_offset_forex: usize,
    pub last_scroll_ms_commodities: u64,
    pub last_scroll_ms_indices: u64,
    pub last_scroll_ms_forex: u64,
    pub last_fetch_ms: u64,
}

/// One line's scroll step at `now`: (new offset, new time of the last
/// step), moving by `delta` wrapped around when 500 ms have passed.
pub open spec fn scroll_step(offset: usize, last: u64, now: u64, forward: bool) -> (usize, u64) {
    if now - last >= SCROLL_STEP_MS {
        (
            if forward {
                if offset == usize::MAX {
                    0
                } else {
                    (offset + 1) as usize
                }
            } else if offset == 0 {
                usize::MAX
            } else {
                (offset - 1) as usize
            },
            now,
        )
    } else {
        (offset, last)
    }
}

impl MarketTicker {
    pub fn new() -> (t: Self)
        ensures
            t.scroll_offset_commodities == 0,
            t.scroll_offset_indices == 0,
            t.scroll_offset_forex == 0,
            t.last_scroll_ms_commodities == 0,
            t.last_scroll_ms_indices == 0,
            t.last_scroll_ms_forex == 0,
            t.last_fetch_ms == 0,
    {
        MarketTicker {
            scroll_offset_commodities: 0,
            scroll_offset_indices: 0,
            scroll_offset_forex: 0,
            last_scroll_ms_commodities: 0,
            last_scroll_ms_indices: 0,
            last_scroll_ms_forex: 0,
            last_fetch_ms: 0,
        }
    }

    /// Scrolls each line that has waited 500 ms: commodities and forex move
    /// forward, indices backward, each wrapping around.
    pub fn maybe_scroll(&mut self, now_ms: u64)
        requires
            now_ms >= old(self).last_scroll_ms_commodities,
            now_ms >= old(self).last_scroll_ms_indices,
            now_ms >= old(self).last_scroll_ms_forex,
        ensures
            (final(self).scroll_offset_commodities, final(self).last_scroll_ms_commodities)
                == scroll_step(
                old(self).scroll_offset_commodities,
                old(self).last_scroll_ms_commodities,
                now_ms,
                true,
            ),
            (final(self).scroll_offset_indices, final(self).last_scroll_ms_indices) == scroll_step(
                old(self).scroll_offset_indices,
                old(self).last_scroll_ms_indices,
                now_ms,
                false,
            ),
            (final(self).scroll_offset_forex, final(self).last_scroll_ms_forex) == scroll_step(
                old(self).scroll_offset_forex,
                old(self).last_scroll_ms_forex,
                now_ms,
                true,
            ),
            final(self).last_fetch_ms == old(self).last_fetch_ms,
    {
        if now_ms - self.last_scroll_ms_commodities >= SCROLL_STEP_MS {
            self.scroll_offset_commodities = self.scroll_offset_commodities.wrapping_add(1);
            self.last_scroll_ms_commodities = now_ms;
        }
        if now_ms - self.last_scroll_ms_indices >= SCROLL_STEP_MS {
            self.scroll_offset_indices = self.scroll_offset_indices.wrapping_sub(1);
            self.last_scroll_ms_indices = now_ms;
        }
        if now_ms - self.last_scroll_ms_forex >= SCROLL_STEP_MS {
            self.scroll_offset_forex = self.scroll_offset_forex.wrapping_add(1);
            self.last_scroll_ms_forex = now_ms;
        }
    }

    /// Whether five minutes have passed since the last fetch.
    pub fn should_refetch(&self, now_ms: u64) -> (r: bool)
        requires
            now_ms >= self.last_fetch_ms,
        ensures
            r == (now_ms - self.last_fetch_ms >= REFETCH_MS),
    {
        now_ms - self.last_fetch_ms >= REFETCH_MS
    }

    /// Records a completed fetch of the quotes at `now_ms`.
    pub fn mark_fetched(&mut self, now_ms: u64)
        ensures
            final(self).last_fetch_ms == now_ms,
            final(self).scroll_offset_commodities == old(self).scroll_offset_commodities,
            final(self).scroll_offset_indices == old(self).scroll_offset_indices,
            final(self).scroll_offset_forex == old(self).scroll_offset_forex,
            final(self).last_scroll_ms_commodities == old(self).last_scroll_ms_commodities,
            final(self).last_scroll_ms_indices == old(self).last_scroll_ms_indices,
            final(self).last_scroll_ms_forex == old(self).last_scroll_ms_forex,
    {
        self.last_fetch_ms = now_ms;
    }
}

/// The display name of a quote symbol; "Unknown" for a symbol not on the
/// ticker.
pub open spec fn symbol_name(symbol: Seq<char>) -> Seq<char> {
    if symbol == "GC=F"@ {
        "Gold"@
    } else if symbol == "SI=F"@ {
        "Silver"@
    } else if symbol == "CL=F"@ {
        "WTI Oil"@
    } else if symbol == "BZ=F"@ {
        "Brent"@
    } else if symbol == "NG=F"@ {
        "Nat Gas"@
    } else if symbol == "BTC-USD"@ {
        "Bitcoin"@
    } else if symbol == "ETH-USD"@ {
        "Ethereum"@
    } else if symbol == "^GSPC"@ {
        "S&P 500"@
    } else if symbol == "^DJI"@ {
        "Dow Jones"@
    } else if symbol == "^TNX"@ {
        "10Y Treasury"@
    } else if symbol == "^TYX"@ {
        "30Y Treasury"@
    } else if symbol == "EURUSD=X"@ {
        "USD/EUR"@
    } else if symbol == "USDJPY=X"@ {
        "USD/JPY"@
    } else if symbol == "USDCNY=X"@ {
        "USD/CNY"@
    } else if symbol == "USDRUB=X"@ {
        "USD/RUB"@
    } else if symbol == "USDINR=X"@ {
        "USD/INR"@
    } else {
        "Unknown"@
    }
}

pub fn get_name_for_symbol(symbol: &str) -> (r: &'static str)
    ensures
        r@ == symbol_name(symbol@),
{
    if same_text(symbol, "GC=F") {
        "Gold"
    } else if same_text(symbol, "SI=F") {
        "Silver"
    } else if same_text(symbol, "CL=F") {
        "WTI Oil"
    } else if same_text(symbol, "BZ=F") {
        "Brent"
    } else if same_text(symbol, "NG=F") {
        "Nat Gas"
    } else if same_text(symbol, "BTC-USD") {
        "Bitcoin"
    } else if same_text(symbol, "ETH-USD") {
        "Ethereum"
    } else if same_text(symbol, "^GSPC") {
        "S&P 500"
    } else if same_text(symbol, "^DJI") {
        "Dow Jones"
    } else if same_text(symbol, "^TNX") {
        "10Y Treasury"
    } else if same_text(symbol, "^TYX") {
        "30Y Treasury"
    } else if same_text(symbol, "EURUSD=X") {
        "USD/EUR"
    } else if same_text(symbol, "USDJPY=X") {
        "USD/JPY"
    } else if same_text(symbol, "USDCNY=X") {
        "USD/CNY"
    } else if same_text(symbol, "USDRUB=X") {
        "USD/RUB"
    } else if same_text(symbol, "USDINR=X") {
        "USD/INR"
    } else {
        "Unknown"
    }
}


/// The characters of the ticker's span texts.
pub open spec fn span_views(texts: Seq<String>) -> Seq<Seq<char>> {
    texts.map_values(|t: String| t@)
}

/// Characters in the first `i` spans.
pub open spec fn chars_before(ts: Seq<Seq<char>>, i: int) -> int
    decreases i,
{
    if i <= 0 {
        0
    } else {
        chars_before(ts, i - 1) + ts[i - 1].len()
    }
}

/// Characters in one round of all spans.
pub open spec fn round_len(ts: Seq<Seq<char>>) -> int {
    chars_before(ts, ts.len() as int)
}

/// The visible part of span `i` placed at `pos` in the endless line, for
/// the window `[start, end)`: its index and text, or nothing when it lies
/// outside.
pub open spec fn piece_at(ts: Seq<Seq<char>>, start: int, end: int, pos: int, i: int) -> Seq<
    (usize, Seq<char>),
> {
    let span_end = pos + ts[i].len();
    let vis_start = if pos < start {
        start
    } else {
        pos
    };
    let vis_end = if span_end < end {
        span_end
    } else {
        end
    };
    if pos < end && span_end > start && vis_start < vis_end {
        seq![(i as usize, ts[i].subrange(vis_start - pos, vis_end - pos))]
    } else {
        seq![]
    }
}

/// The visible pieces of the first `i` spans of the round starting at
/// `base`.
pub open spec fn round_pieces(ts: Seq<Seq<char>>, start: int, end: int, base: int, i: int) -> Seq<
    (usize, Seq<char>),
>
    decreases i,
{
    if i <= 0 {
        seq![]
    } else {
        round_pieces(ts, start, end, base, i - 1) + piece_at(
            ts,
            start,
            end,
            base + chars_before(ts, i - 1),
            i - 1,
        )
    }
}

/// The visible pieces of the first `c` rounds.
pub open spec fn rounds_pieces(ts: Seq<Seq<char>>, start: int, end: int, c: nat) -> Seq<
    (usize, Seq<char>),
>
    decreases c,
{
    if c == 0 {
        seq![]
    } else {
        rounds_pieces(ts, start, end, (c - 1) as nat) + round_pieces(
            ts,
            start,
            end,
            (c - 1) * round_len(ts),
            ts.len() as int,
        )
    }
}

/// What a ticker line of `width` characters shows: the spans repeat
/// endlessly and the window starts at the scroll offset taken modulo one
/// round; each visible piece comes with the index of its span. Nothing is
/// shown when the spans hold no characters.
pub open spec fn ticker_window_spec(ts: Seq<Seq<char>>, offset: int, width: int) -> Seq<
    (usize, Seq<char>),
> {
    let total = round_len(ts);
    if total <= 0 {
        seq![]
    } else {
        let start = offset % total;
        let end = start + width;
        rounds_pieces(ts, start, end, ((end + total - 1) / total) as nat)
    }
}

proof fn lemma_chars_before_monotone(ts: Seq<Seq<char>>, j: int, k: int)
    requires
        0 <= j <= k <= ts.len(),
    ensures
        chars_before(ts, j) <= chars_before(ts, k),
    decreases k - j,
{
    if j < k {
        lemma_chars_before_monotone(ts, j, k - 1);
    }
}

/// The rounds needed to cover `end` characters.
proof fn lemma_rounds_needed(c: int, total: int, end: int)
    requires
        total > 0,
        c >= 0,
        end >= 0,
        c * total >= end,
        c == 0 || (c - 1) * total < end,
    ensures
        c == (end + total - 1) / total,
{
    if c == 0 {
        assert(end == 0);
        vstd::arithmetic::div_mod::lemma_fundamental_div_mod_converse(total - 1, total, 0, total - 1);
    } else {
        let x = end + total - 1;
        assert(c * total <= x < c * total + total) by (nonlinear_arith)
            requires
                c * total >= end,
                (c - 1) * total < end,
                x == end + total - 1,
        ;
        vstd::arithmetic::div_mod::lemma_fundamental_div_mod_converse(x, total, c, x - c * total);
    }
}

/// The characters `v[a..b]` as a string.
fn chars_between(v: &Vec<char>, a: usize, b: usize) -> (r: String)
    requires
        a <= b <= v@.len(),
    ensures
        r@ == v@.subrange(a as int, b as int),
{
    let mut s = String::new();
    for i in a..b
        invariant
            a <= b <= v@.len(),
            s@ == v@.subrange(a as int, i as int),
    {
        crate::text::push_char(&mut s, v[i]);
        assert(s@ =~= v@.subrange(a as int, i + 1));
    }
    s
}

/// The visible part of a scrolling ticker line (see `ticker_window_spec`):
/// the pieces of span texts, each with its span's index, that fill `width`
/// characters from `scroll_offset`.
#[verifier::rlimit(40)]
pub fn ticker_window(span_texts: &Vec<String>, scroll_offset: usize, width: usize) -> (r: Vec<
    (usize, String),
>)
    requires
        round_len(span_views(span_texts@)) <= usize::MAX,
        round_len(span_views(span_texts@)) > 0 ==> (scroll_offset as int) % round_len(
            span_views(span_texts@),
        ) + width + round_len(span_views(span_texts@)) <= usize::MAX,
    ensures
        r@.len() == ticker_window_spec(
            span_views(span_texts@),
            scroll_offset as int,
            width as int,
        ).len(),
        forall|k: int|
            #![trigger r@[k]]
            0 <= k < r@.len() ==> {
                &&& r@[k].0 == ticker_window_spec(
                    span_views(span_texts@),
                    scroll_offset as int,
                    width as int,
                )[k].0
                &&& r@[k].1@ == ticker_window_spec(
                    span_views(span_texts@),
                    scroll_offset as int,
                    width as int,
                )[k].1
            },
{
    let ghost ts = span_views(span_texts@);
    let m = span_texts.len();
    let mut chars: Vec<Vec<char>> = Vec::new();
    let mut total: usize = 0;
    for i in 0..m
        invariant
            m == span_texts@.len(),
            ts == span_views(span_texts@),
            round_len(ts) <= usize::MAX,
            chars@.len() == i,
            forall|j: int| 0 <= j < i ==> #[trigger] chars@[j]@ == ts[j],
            total == chars_before(ts, i as int),
    {
        proof {
            lemma_chars_before_monotone(ts, i + 1, m as int);
        }
        let v = chars_of(span_texts[i].as_str());
        total = total + v.len();
        chars.push(v);
    }
    let mut out: Vec<(usize, String)> = Vec::new();
    if total == 0 {
        return out;
    }
    let start = scroll_offset % total;
    let end = start + width;
    let mut base: usize = 0;
    let ghost mut c: nat = 0;
    while base < end
        invariant
            m == span_texts@.len(),
            ts == span_views(span_texts@),
            ts.len() == m,
            chars@.len() == m,
            forall|j: int| 0 <= j < m ==> #[trigger] chars@[j]@ == ts[j],
            total == round_len(ts),
            total > 0,
            end + total <= usize::MAX,
            start < total,
            base == c * total,
            c == 0 || (c - 1) * total < end,
            base < end + total,
            out@.len() == rounds_pieces(ts, start as int, end as int, c).len(),
            forall|k: int|
                #![trigger out@[k]]
                0 <= k < out@.len() ==> {
                    &&& out@[k].0 == rounds_pieces(ts, start as int, end as int, c)[k].0
                    &&& out@[k].1@ == rounds_pieces(ts, start as int, end as int, c)[k].1
                },
        decreases end + total - base,
    {
        let ghost before = rounds_pieces(ts, start as int, end as int, c);
        let mut pos = base;
        assert(before + round_pieces(ts, start as int, end as int, base as int, 0) =~= before);
        assert(forall|k: int|
            #![trigger out@[k]]
            0 <= k < out@.len() ==> out@[k].0 == (before + round_pieces(
                ts,
                start as int,
                end as int,
                base as int,
                0,
            ))[k].0);
        let mut i: usize = 0;
        while i < m
            invariant
                i <= m,
                m == span_texts@.len(),
                ts == span_views(span_texts@),
                ts.len() == m,
                chars@.len() == m,
                forall|j: int| 0 <= j < m ==> #[trigger] chars@[j]@ == ts[j],
                total == round_len(ts),
                end + total <= usize::MAX,
                base < end,
                pos == base + chars_before(ts, i as int),
                out@.len() == before.len() + round_pieces(
                    ts,
                    start as int,
                    end as int,
                    base as int,
                    i as int,
                ).len(),
                forall|k: int|
                    #![trigger out@[k]]
                    0 <= k < out@.len() ==> {
                        &&& out@[k].0 == (before + round_pieces(
                            ts,
                            start as int,
                            end as int,
                            base as int,
                            i as int,
                        ))[k].0
                        &&& out@[k].1@ == (before + round_pieces(
                            ts,
                            start as int,
                            end as int,
                            base as int,
                            i as int,
                        ))[k].1
                    },
            decreases m - i,
        {
            proof {
                lemma_chars_before_monotone(ts, i + 1, m as int);
            }
            let ghost prev = before + round_pieces(ts, start as int, end as int, base as int, i as int);
            assert(chars@[i as int]@ == ts[i as int]);
            let len = chars[i].len();
            let span_end = pos + len;
            let ghost piece = piece_at(ts, start as int, end as int, pos as int, i as int);
            assert(before + round_pieces(ts, start as int, end as int, base as int, i + 1) =~= prev
                + piece);
            if pos < end && span_end > start {
                let vis_start = if pos < start {
                    start
                } else {
                    pos
                };
                let vis_end = if span_end < end {
                    span_end
                } else {
                    end
                };
                if vis_start < vis_end {
                    let text = chars_between(&chars[i], vis_start - pos, vis_end - pos);
                    let ghost old_out = out@;
                    out.push((i, text));
                    assert(piece == seq![(i, text@)]);
                    assert forall|k: int| #![trigger out@[k]] 0 <= k < out@.len() implies {
                        &&& out@[k].0 == (prev + piece)[k].0
                        &&& out@[k].1@ == (prev + piece)[k].1
                    } by {
                        if k < old_out.len() {
                            assert(out@[k] == old_out[k]);
                        }
                    }
                } else {
                    assert(piece =~= seq![]);
                    assert(prev + piece =~= prev);
                }
            } else {
                assert(piece =~= seq![]);
                assert(prev + piece =~= prev);
            }
            assert(out@.len() == (prev + piece).len());
            assert forall|k: int| #![trigger out@[k]] 0 <= k < out@.len() implies {
                &&& out@[k].0 == (before + round_pieces(
                    ts,
                    start as int,
                    end as int,
                    base as int,
                    i + 1,
                ))[k].0
                &&& out@[k].1@ == (before + round_pieces(
                    ts,
                    start as int,
                    end as int,
                    base as int,
                    i + 1,
                ))[k].1
            } by {
                assert(out@[k].0 == (prev + piece)[k].0);
            }
            pos = span_end;
            i = i + 1;
        }
        proof {
            assert(before + round_pieces(ts, start as int, end as int, base as int, m as int)
                == rounds_pieces(ts, start as int, end as int, c + 1));
            vstd::arithmetic::mul::lemma_mul_is_distributive_add_other_way(total as int, c as int, 1);
            c = c + 1;
        }
        base = pos;
    }
    proof {
        lemma_rounds_needed(c as int, total as int, end as int);
    }
    out
}


/// Scrolling a ticker line by one whole round shows the same window.
pub proof fn ticker_repeats_each_round(ts: Seq<Seq<char>>, offset: int, width: int)
    ensures
        ticker_window_spec(ts, offset + round_len(ts), width) == ticker_window_spec(
            ts,
            offset,
            width,
        ),
{
    if round_len(ts) > 0 {
        vstd::arithmetic::div_mod::lemma_mod_add_multiples_vanish(offset, round_len(ts));
        assert(offset + round_len(ts) == round_len(ts) + offset);
    }
}


/// Characters in all the pieces.
pub open spec fn pieces_len(ps: Seq<(usize, Seq<char>)>) -> int
    decreases ps.len(),
{
    if ps.len() == 0 {
        0
    } else {
        pieces_len(ps.drop_last()) + ps.last().1.len()
    }
}

/// How many positions of `[a, b)` lie in the window `[start, end)`.
pub open spec fn overlap(a: int, b: int, start: int, end: int) -> int {
    let lo = if a < start {
        start
    } else {
        a
    };
    let hi = if b < end {
        b
    } else {
        end
    };
    if lo < hi {
        hi - lo
    } else {
        0
    }
}

proof fn lemma_pieces_len_concat(a: Seq<(usize, Seq<char>)>, b: Seq<(usize, Seq<char>)>)
    ensures
        pieces_len(a + b) == pieces_len(a) + pieces_len(b),
    decreases b.len(),
{
    if b.len() == 0 {
        assert(a + b =~= a);
    } else {
        lemma_pieces_len_concat(a, b.drop_last());
        assert((a + b).drop_last() =~= a + b.drop_last());
    }
}

proof fn lemma_round_pieces_len(ts: Seq<Seq<char>>, start: int, end: int, base: int, i: int)
    requires
        0 <= i <= ts.len(),
        start <= end,
    ensures
        pieces_len(round_pieces(ts, start, end, base, i)) == overlap(
            base,
            base + chars_before(ts, i),
            start,
            end,
        ),
    decreases i,
{
    if i > 0 {
        lemma_round_pieces_len(ts, start, end, base, i - 1);
        lemma_chars_before_monotone(ts, 0, i - 1);
        let pos = base + chars_before(ts, i - 1);
        let piece = piece_at(ts, start, end, pos, i - 1);
        lemma_pieces_len_concat(round_pieces(ts, start, end, base, i - 1), piece);
        if piece.len() > 0 {
            assert(pieces_len(piece) == pieces_len(piece.drop_last()) + piece.last().1.len());
            assert(piece.drop_last().len() == 0);
        }
    }
}

proof fn lemma_rounds_pieces_len(ts: Seq<Seq<char>>, start: int, end: int, c: nat)
    requires
        start <= end,
        round_len(ts) >= 0,
    ensures
        pieces_len(rounds_pieces(ts, start, end, c)) == overlap(0, c * round_len(ts), start, end),
    decreases c,
{
    if c > 0 {
        let total = round_len(ts);
        lemma_rounds_pieces_len(ts, start, end, (c - 1) as nat);
        lemma_round_pieces_len(ts, start, end, (c - 1) * total, ts.len() as int);
        lemma_pieces_len_concat(
            rounds_pieces(ts, start, end, (c - 1) as nat),
            round_pieces(ts, start, end, (c - 1) * total, ts.len() as int),
        );
        let m = (c - 1) * total;
        assert(c * total == m + total) by (nonlinear_arith)
            requires
                m == (c - 1) * total,
                c >= 1,
        ;
        assert(m >= 0) by (nonlinear_arith)
            requires
                m == (c - 1) * total,
                c >= 1,
                total >= 0,
        ;
        assert(chars_before(ts, ts.len() as int) == total);
        assert(rounds_pieces(ts, start, end, c) == rounds_pieces(ts, start, end, (c - 1) as nat)
            + round_pieces(ts, start, end, m, ts.len() as int));
        assert(pieces_len(rounds_pieces(ts, start, end, c)) == overlap(0, m, start, end) + overlap(
            m,
            m + total,
            start,
            end,
        ));
        assert(overlap(0, m, start, end) + overlap(m, m + total, start, end) == overlap(
            0,
            m + total,
            start,
            end,
        ));
        assert(pieces_len(rounds_pieces(ts, start, end, c)) == overlap(
            0,
            c * round_len(ts),
            start,
            end,
        ));
    } else {
        assert(rounds_pieces(ts, start, end, c) =~= Seq::<(usize, Seq<char>)>::empty());
        assert(c * round_len(ts) == 0);
    }
}

/// A ticker line always shows exactly `width` characters when its spans
/// hold any.
pub proof fn ticker_line_fills_width(ts: Seq<Seq<char>>, offset: int, width: int)
    requires
        offset >= 0,
        width >= 0,
    ensures
        round_len(ts) > 0 ==> pieces_len(ticker_window_spec(ts, offset, width)) == width,
{
    let total = round_len(ts);
    if total > 0 {
        let start = offset % total;
        let end = start + width;
        let c = (end + total - 1) / total;
        vstd::arithmetic::div_mod::lemma_fundamental_div_mod(end + total - 1, total);
        vstd::arithmetic::div_mod::lemma_mod_bound(end + total - 1, total);
        vstd::arithmetic::div_mod::lemma_mod_bound(offset, total);
        assert(c * total >= end) by (nonlinear_arith)
            requires
                end + total - 1 == total * c + (end + total - 1) % total,
                0 <= (end + total - 1) % total < total,
        ;
        assert(c >= 0) by (nonlinear_arith)
            requires
                c * total >= end,
                end >= 0,
                total > 0,
                end + total - 1 == total * c + (end + total - 1) % total,
                0 <= (end + total - 1) % total < total,
        ;
        lemma_rounds_pieces_len(ts, start, end, c as nat);
    }
}

} // verus!
