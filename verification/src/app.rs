use vstd::prelude::*;

use crate::data::Snapshot;
use crate::model::{MapObject, Severity, Warship, WorldLeader};
use crate::order::{
    in_rank_order, same_items, stable_arrangement, stable_order, stably_sorted, Ranked,
};
use crate::text::{
    field_contains, lex_less, lex_sign, lowercase, occurs_in, same_text, text_order,
};

verus! {

#[derive(Debug, Clone, Copy, PartialEq, Eq, Structural)]
pub enum SearchMode {
    /// Typing query
    Input,
    /// Viewing and navigating results
    Results,
}

#[derive(Debug, Clone, Copy, PartialEq, Eq, Structural)]
pub enum SearchResult {
    /// Index in the visible feed objects
    Feed(usize),
    /// Index in snapshot.warships
    Warship(usize),
    /// Index in snapshot.leaders
    Leader(usize),
}

#[derive(Debug, Clone, Copy, PartialEq, Eq, Structural)]
pub enum PaneFocus {
    Feed,
    Warships,
    Leaders,
}

impl SearchResult {
    /// The pane that shows the hit.
    pub open spec fn spec_focus(self) -> PaneFocus {
        match self {
            SearchResult::Feed(_) => PaneFocus::Feed,
            SearchResult::Warship(_) => PaneFocus::Warships,
            SearchResult::Leader(_) => PaneFocus::Leaders,
        }
    }

    pub fn focus(&self) -> (r: PaneFocus)
        ensures
            r == self.spec_focus(),
    {
        match self {
            SearchResult::Feed(_) => PaneFocus::Feed,
            SearchResult::Warship(_) => PaneFocus::Warships,
            SearchResult::Leader(_) => PaneFocus::Leaders,
        }
    }
}

#[derive(Debug, Clone, Copy, PartialEq, Eq, Structural)]
pub enum LayerId {
    Incidents,
    Ships,
}

#[derive(Debug, Clone, Copy)]
pub struct LayerState {
    pub id: LayerId,
    pub name: &'static str,
    pub visible: bool,
    pub default_visible: bool,
}

impl LayerState {
    fn new(id: LayerId, name: &'static str, default_visible: bool) -> (r: Self)
        ensures
            r.id == id,
            r.name == name,
            r.visible == default_visible,
            r.default_visible == default_visible,
    {
        Self { id, name, visible: default_visible, default_visible }
    }
}

impl PaneFocus {
    /// The pane to the right, wrapping around.
    pub open spec fn spec_next(self) -> PaneFocus {
        match self {
            PaneFocus::Feed => PaneFocus::Warships,
            PaneFocus::Warships => PaneFocus::Leaders,
            PaneFocus::Leaders => PaneFocus::Feed,
        }
    }

    /// The pane to the left, wrapping around.
    pub open spec fn spec_prev(self) -> PaneFocus {
        match self {
            PaneFocus::Feed => PaneFocus::Leaders,
            PaneFocus::Warships => PaneFocus::Feed,
            PaneFocus::Leaders => PaneFocus::Warships,
        }
    }

    /// The name of the pane in status messages.
    pub open spec fn spec_label(self) -> Seq<char> {
        match self {
            PaneFocus::Feed => "feed"@,
            PaneFocus::Warships => "warships"@,
            PaneFocus::Leaders => "leaders"@,
        }
    }

    pub fn label(self) -> (r: &'static str)
        ensures
            r@ == self.spec_label(),
    {
        match self {
            Self::Feed => "feed",
            Self::Warships => "warships",
            Self::Leaders => "leaders",
        }
    }

    pub fn next(self) -> (r: Self)
        ensures
            r == self.spec_next(),
    {
        match self {
            Self::Feed => Self::Warships,
            Self::Warships => Self::Leaders,
            Self::Leaders => Self::Feed,
        }
    }

    pub fn prev(self) -> (r: Self)
        ensures
            r == self.spec_prev(),
    {
        match self {
            Self::Feed => Self::Leaders,
            Self::Warships => Self::Feed,
            Self::Leaders => Self::Warships,
        }
    }
}

/// Moving focus right and then left, or left and then right, comes back to
/// the same pane; three moves in one direction visit every pane once.
pub proof fn focus_moves_are_inverse(f: PaneFocus)
    ensures
        f.spec_next().spec_prev() == f,
        f.spec_prev().spec_next() == f,
        f.spec_next().spec_next().spec_next() == f,
        f.spec_next() != f,
        f.spec_next().spec_next() != f,
{
}

/// The feed order: timestamped objects come first, most recent first;
/// objects without a timestamp follow, heavier before lighter and then by
/// label. -1 when `a` goes before `b`, 1 when after, 0 when tied.
pub open spec fn feed_rank(a: MapObject, b: MapObject) -> int {
    match (a.timestamp, b.timestamp) {
        (Some(at), Some(bt)) => if at > bt {
            -1
        } else if at < bt {
            1
        } else {
            0
        },
        (Some(_), None) => -1,
        (None, Some(_)) => 1,
        (None, None) => if a.spec_weight() > b.spec_weight() {
            -1
        } else if a.spec_weight() < b.spec_weight() {
            1
        } else {
            lex_sign(a.label@, b.label@)
        },
    }
}

impl Ranked for MapObject {
    open spec fn rank_sign(a: Self, b: Self) -> int {
        feed_rank(a, b)
    }

    proof fn lemma_rank_sign(a: Self, b: Self, c: Self) {
        crate::text::lemma_lex_sign(a.label@, b.label@, c.label@);
        crate::text::lemma_lex_sign(b.label@, c.label@, a.label@);
        crate::text::lemma_lex_sign(a.label@, c.label@, b.label@);
        crate::text::lemma_lex_sign(b.label@, a.label@, c.label@);
    }

    fn compare(&self, other: &Self) -> (r: i8) {
        match (self.timestamp, other.timestamp) {
            (Some(at), Some(bt)) => if at > bt {
                -1
            } else if at < bt {
                1
            } else {
                0
            },
            (Some(_), None) => -1,
            (None, Some(_)) => 1,
            (None, None) => {
                let aw = self.weight();
                let bw = other.weight();
                if aw > bw {
                    -1
                } else if aw < bw {
                    1
                } else {
                    text_order(self.label.as_str(), other.label.as_str())
                }
            },
        }
    }
}

/// Whether the ship's type names a carrier.
pub open spec fn is_carrier(w: Warship) -> bool {
    occurs_in(lowercase(w.ship_type@), "carrier"@)
}

/// Whether the ship sails under the US flag.
pub open spec fn is_us(w: Warship) -> bool {
    w.country@ == "US"@ || w.country@ == "USA"@
}

/// The fleet order: carriers first, US carriers before the others, carriers
/// by name; other ships by type and then by name.
pub open spec fn fleet_rank(a: Warship, b: Warship) -> int {
    if is_carrier(a) && !is_carrier(b) {
        -1
    } else if !is_carrier(a) && is_carrier(b) {
        1
    } else if is_carrier(a) && is_carrier(b) {
        if is_us(a) && !is_us(b) {
            -1
        } else if !is_us(a) && is_us(b) {
            1
        } else {
            lex_sign(a.name@, b.name@)
        }
    } else if lex_sign(a.ship_type@, b.ship_type@) != 0 {
        lex_sign(a.ship_type@, b.ship_type@)
    } else {
        lex_sign(a.name@, b.name@)
    }
}

fn country_is_us(w: &Warship) -> (r: bool)
    ensures
        r == is_us(*w),
{
    same_text(w.country.as_str(), "US") || same_text(w.country.as_str(), "USA")
}

impl Ranked for Warship {
    open spec fn rank_sign(a: Self, b: Self) -> int {
        fleet_rank(a, b)
    }

    proof fn lemma_rank_sign(a: Self, b: Self, c: Self) {
        crate::text::lemma_lex_sign(a.name@, b.name@, c.name@);
        crate::text::lemma_lex_sign(b.name@, c.name@, a.name@);
        crate::text::lemma_lex_sign(a.name@, c.name@, b.name@);
        crate::text::lemma_lex_sign(b.name@, a.name@, c.name@);
        crate::text::lemma_lex_sign(a.ship_type@, b.ship_type@, c.ship_type@);
        crate::text::lemma_lex_sign(b.ship_type@, c.ship_type@, a.ship_type@);
        crate::text::lemma_lex_sign(a.ship_type@, c.ship_type@, b.ship_type@);
        crate::text::lemma_lex_sign(b.ship_type@, a.ship_type@, c.ship_type@);
    }

    fn compare(&self, other: &Self) -> (r: i8) {
        let a_is_carrier = field_contains(self.ship_type.as_str(), "carrier");
        let b_is_carrier = field_contains(other.ship_type.as_str(), "carrier");
        if a_is_carrier && !b_is_carrier {
            -1
        } else if !a_is_carrier && b_is_carrier {
            1
        } else if a_is_carrier && b_is_carrier {
            let a_is_us = country_is_us(self);
            let b_is_us = country_is_us(other);
            if a_is_us && !b_is_us {
                -1
            } else if !a_is_us && b_is_us {
                1
            } else {
                text_order(self.name.as_str(), other.name.as_str())
            }
        } else {
            let t = text_order(self.ship_type.as_str(), other.ship_type.as_str());
            if t != 0 {
                t
            } else {
                text_order(self.name.as_str(), other.name.as_str())
            }
        }
    }
}


/// A key as the application sees it: the key itself and whether Control or
/// Shift was held.
#[derive(Debug, Clone, Copy, PartialEq, Eq, Structural)]
pub enum KeyCode {
    Char(char),
    Esc,
    Enter,
    Backspace,
    Tab,
    BackTab,
    Up,
    Down,
    Left,
    Right,
    Other,
}

#[derive(Debug, Clone, Copy, PartialEq, Eq, Structural)]
pub struct KeyPress {
    pub code: KeyCode,
    pub control: bool,
    pub shift: bool,
}

/// Outside work that a key asks of the caller.
#[derive(Debug)]
pub enum Effect {
    /// Nothing to do.
    Nothing,
    /// Fetch a new snapshot now and hand the outcome back.
    RefreshRequested,
    /// The incident with this id was opened in the detail view; its signals
    /// are wanted if they are not cached yet.
    IncidentExpanded(String),
}

/// Whether the first layer with id `id` is switched on (false when there
/// is none).
pub open spec fn layer_shown(layers: Seq<LayerState>, id: LayerId) -> bool
    decreases layers.len(),
{
    if layers.len() == 0 {
        false
    } else if layers[0].id == id {
        layers[0].visible
    } else {
        layer_shown(layers.drop_first(), id)
    }
}

/// Whether an object of severity `s` passes the severity switches.
pub open spec fn severity_passes(filter: Seq<bool>, s: Option<Severity>) -> bool {
    match s {
        Some(v) => filter[v.spec_index() as int],
        None => false,
    }
}

/// The events whose severity passes the switches, in their order.
pub open spec fn shown_incidents(events: Seq<MapObject>, filter: Seq<bool>) -> Seq<MapObject>
    decreases events.len(),
{
    if events.len() == 0 {
        seq![]
    } else {
        let prev = shown_incidents(events.drop_last(), filter);
        if severity_passes(filter, events.last().severity) {
            prev.push(events.last())
        } else {
            prev
        }
    }
}

/// What the feed shows before sorting: the passing events when the
/// incident layer is on, then all aircraft when the ship layer is on.
pub open spec fn feed_candidates(
    snapshot: Snapshot,
    layers: Seq<LayerState>,
    filter: Seq<bool>,
) -> Seq<MapObject> {
    (if layer_shown(layers, LayerId::Incidents) {
        shown_incidents(snapshot.events@, filter)
    } else {
        seq![]
    }) + (if layer_shown(layers, LayerId::Ships) {
        snapshot.aircraft@
    } else {
        seq![]
    })
}

/// The warships among the first `n` that match the query, in order.
pub open spec fn matching_warships(ws: Seq<Warship>, q: Seq<char>, n: int) -> Seq<Warship>
    decreases n,
{
    if n <= 0 {
        seq![]
    } else {
        let prev = matching_warships(ws, q, n - 1);
        if ws[n - 1].spec_matches_search(q) {
            prev.push(ws[n - 1])
        } else {
            prev
        }
    }
}

/// The leaders among the first `n` that match the query, in order.
pub open spec fn matching_leaders(ls: Seq<WorldLeader>, q: Seq<char>, n: int) -> Seq<WorldLeader>
    decreases n,
{
    if n <= 0 {
        seq![]
    } else {
        let prev = matching_leaders(ls, q, n - 1);
        if ls[n - 1].spec_matches_search(q) {
            prev.push(ls[n - 1])
        } else {
            prev
        }
    }
}

/// The warships the fleet column lists for a query: all of them for an
/// empty query, the matching ones otherwise.
pub open spec fn warship_filter(ws: Seq<Warship>, q: Seq<char>) -> Seq<Warship> {
    if q.len() == 0 {
        ws
    } else {
        matching_warships(ws, q, ws.len() as int)
    }
}

/// The leaders the leader column lists for a query.
pub open spec fn leader_filter(ls: Seq<WorldLeader>, q: Seq<char>) -> Seq<WorldLeader> {
    if q.len() == 0 {
        ls
    } else {
        matching_leaders(ls, q, ls.len() as int)
    }
}

/// Search hits among the first `n` feed objects.
pub open spec fn feed_hits(objs: Seq<MapObject>, q: Seq<char>, n: int) -> Seq<SearchResult>
    decreases n,
{
    if n <= 0 {
        seq![]
    } else {
        let prev = feed_hits(objs, q, n - 1);
        if objs[n - 1].spec_matches_search(q) {
            prev.push(SearchResult::Feed((n - 1) as usize))
        } else {
            prev
        }
    }
}

/// Search hits among the first `n` warships.
pub open spec fn warship_hits(ws: Seq<Warship>, q: Seq<char>, n: int) -> Seq<SearchResult>
    decreases n,
{
    if n <= 0 {
        seq![]
    } else {
        let prev = warship_hits(ws, q, n - 1);
        if ws[n - 1].spec_matches_search(q) {
            prev.push(SearchResult::Warship((n - 1) as usize))
        } else {
            prev
        }
    }
}

/// Search hits among the first `n` leaders.
pub open spec fn leader_hits(ls: Seq<WorldLeader>, q: Seq<char>, n: int) -> Seq<SearchResult>
    decreases n,
{
    if n <= 0 {
        seq![]
    } else {
        let prev = leader_hits(ls, q, n - 1);
        if ls[n - 1].spec_matches_search(q) {
            prev.push(SearchResult::Leader((n - 1) as usize))
        } else {
            prev
        }
    }
}

/// All search hits for a query: none for an empty query; otherwise the
/// matching feed objects, then warships, then leaders, each in list order.
pub open spec fn search_hits(
    objs: Seq<MapObject>,
    ws: Seq<Warship>,
    ls: Seq<WorldLeader>,
    q: Seq<char>,
) -> Seq<SearchResult> {
    if q.len() == 0 {
        seq![]
    } else {
        feed_hits(objs, q, objs.len() as int) + warship_hits(ws, q, ws.len() as int) + leader_hits(
            ls,
            q,
            ls.len() as int,
        )
    }
}

/// The first position at or after `k` of a ship with the given id.
pub open spec fn id_position_from(ships: Seq<Warship>, id: Seq<char>, k: int) -> Option<int>
    decreases ships.len() - k,
{
    if k < 0 || k >= ships.len() {
        None
    } else if ships[k].id@ == id {
        Some(k)
    } else {
        id_position_from(ships, id, k + 1)
    }
}

/// The references, read as the values they point to.
pub open spec fn derefs<T>(v: Seq<&T>) -> Seq<T> {
    v.map_values(|r: &T| *r)
}

#[derive(Clone)]
pub struct App {
    pub severity_filter: [bool; 4],
    pub layers: Vec<LayerState>,
    pub layer_panel_open: bool,
    pub layer_cursor: usize,
    pub focus: PaneFocus,
    pub selected_idx: usize,
    pub selected_idx_warships: usize,
    pub selected_idx_leaders: usize,
    pub expanded_idx: Option<usize>,
    pub status: String,
    pub snapshot: Snapshot,
    pub quit: bool,
    /// Visible feed objects as last computed, kept to avoid recalculation
    pub cached_objects: Vec<MapObject>,
    /// Whether `cached_objects` was invalidated since it was computed
    pub cache_dirty: bool,
    // Search panel state
    pub is_searching: bool,
    pub search_mode: SearchMode,
    pub search_query: String,
    pub search_selected_idx: usize,
    pub search_results: Vec<SearchResult>,
}

impl App {
    /// The feed objects as last computed (possibly out of date, see
    /// `is_stale`).
    pub open spec fn visible_list(&self) -> Seq<MapObject> {
        self.cached_objects@
    }

    /// Whether the feed objects were invalidated since they were computed.
    pub open spec fn is_stale(&self) -> bool {
        self.cache_dirty
    }

    /// The feed list is never out of date without saying so: unless it is
    /// marked stale, it is what the snapshot, the layers and the severity
    /// switches call for. Every operation of the library keeps this.
    pub open spec fn feed_list_agrees(&self) -> bool {
        !self.cache_dirty ==> self.cached_objects@ == self.feed_spec()
    }

    /// The feed objects that the snapshot, the layers and the severity
    /// switches call for: the candidates, stably sorted in feed order.
    pub open spec fn feed_spec(&self) -> Seq<MapObject> {
        stably_sorted(feed_candidates(self.snapshot, self.layers@, self.severity_filter@))
    }

    /// The warships the fleet column lists.
    pub open spec fn warships_spec(&self) -> Seq<Warship> {
        warship_filter(self.snapshot.warships@, self.search_query@)
    }

    /// The leaders the leader column lists.
    pub open spec fn leaders_spec(&self) -> Seq<WorldLeader> {
        leader_filter(self.snapshot.leaders@, self.search_query@)
    }

    /// The (index, length) selection of the focused pane.
    pub open spec fn selection_spec(&self) -> (usize, usize) {
        match self.focus {
            PaneFocus::Feed => (self.selected_idx, self.visible_list().len() as usize),
            PaneFocus::Warships => (self.selected_idx_warships, self.warships_spec().len() as usize),
            PaneFocus::Leaders => (self.selected_idx_leaders, self.leaders_spec().len() as usize),
        }
    }

    pub fn new(snapshot: Snapshot, provider_name: &str) -> (app: Self)
        ensures
            app.severity_filter@ == seq![true, true, true, true],
            app.layers@.len() == 2,
            app.layers@[0].id == LayerId::Incidents,
            app.layers@[0].name@ == "Incidents"@,
            app.layers@[0].visible && app.layers@[0].default_visible,
            app.layers@[1].id == LayerId::Ships,
            app.layers@[1].name@ == "Ships"@,
            app.layers@[1].visible && app.layers@[1].default_visible,
            !app.layer_panel_open,
            app.layer_cursor == 0,
            app.focus == PaneFocus::Feed,
            app.selected_idx == 0,
            app.selected_idx_warships == 0,
            app.selected_idx_leaders == 0,
            app.expanded_idx is None,
            app.status@ == "ready ("@ + provider_name@ + ")"@,
            app.snapshot == snapshot,
            !app.quit,
            app.visible_list() == app.feed_spec(),
            in_rank_order(app.visible_list()),
            same_items(
                app.visible_list(),
                feed_candidates(app.snapshot, app.layers@, app.severity_filter@),
            ),
            !app.is_stale(),
            app.feed_list_agrees(),
            !app.is_searching,
            app.search_mode == SearchMode::Input,
            app.search_query@ == Seq::<char>::empty(),
            app.search_selected_idx == 0,
            app.search_results@ == Seq::<SearchResult>::empty(),
    {
        let mut layers: Vec<LayerState> = Vec::new();
        layers.push(LayerState::new(LayerId::Incidents, "Incidents", true));
        layers.push(LayerState::new(LayerId::Ships, "Ships", true));
        let mut app = Self {
            severity_filter: [true, true, true, true],
            layers,
            layer_panel_open: false,
            layer_cursor: 0,
            focus: PaneFocus::Feed,
            selected_idx: 0,
            selected_idx_warships: 0,
            selected_idx_leaders: 0,
            expanded_idx: None,
            status: crate::text::join3("ready (", provider_name, ")"),
            snapshot,
            quit: false,
            cached_objects: Vec::new(),
            cache_dirty: true,
            is_searching: false,
            search_mode: SearchMode::Input,
            search_query: String::new(),
            search_selected_idx: 0,
            search_results: Vec::new(),
        };
        // Initial cache build
        app.rebuild_cache();
        app
    }

    /// Rebuild the cached visible objects
    #[verifier::rlimit(40)]
    fn rebuild_cache(&mut self)
        ensures
            final(self).visible_list() == final(self).feed_spec(),
            in_rank_order(final(self).visible_list()),
            same_items(
                final(self).visible_list(),
                feed_candidates(final(self).snapshot, final(self).layers@, final(self).severity_filter@),
            ),
            !final(self).is_stale(),
            final(self).severity_filter == old(self).severity_filter,
            final(self).layers == old(self).layers,
            final(self).layer_panel_open == old(self).layer_panel_open,
            final(self).layer_cursor == old(self).layer_cursor,
            final(self).focus == old(self).focus,
            final(self).selected_idx == old(self).selected_idx,
            final(self).selected_idx_warships == old(self).selected_idx_warships,
            final(self).selected_idx_leaders == old(self).selected_idx_leaders,
            final(self).expanded_idx == old(self).expanded_idx,
            final(self).status == old(self).status,
            final(self).snapshot == old(self).snapshot,
            final(self).quit == old(self).quit,
            final(self).is_searching == old(self).is_searching,
            final(self).search_mode == old(self).search_mode,
            final(self).search_query == old(self).search_query,
            final(self).search_selected_idx == old(self).search_selected_idx,
            final(self).search_results == old(self).search_results,
    {
        let mut out: Vec<MapObject> = Vec::new();
        let ghost filter = self.severity_filter@;
        let ghost events = self.snapshot.events@;
        if self.layer_visible(LayerId::Incidents) {
            let n = self.snapshot.events.len();
            for i in 0..n
                invariant
                    n == events.len(),
                    events == self.snapshot.events@,
                    filter == self.severity_filter@,
                    out@ == shown_incidents(events.take(i as int), filter),
            {
                let event = &self.snapshot.events[i];
                assert(events.take(i + 1).drop_last() =~= events.take(i as int));
                if let Some(severity) = event.severity {
                    if self.severity_filter[severity.index()] {
                        out.push(event.clone());
                    }
                }
            }
            assert(events.take(n as int) =~= events);
        }
        let ghost first = out@;
        if self.layer_visible(LayerId::Ships) {
            let n = self.snapshot.aircraft.len();
            for i in 0..n
                invariant
                    n == self.snapshot.aircraft@.len(),
                    out@ == first + self.snapshot.aircraft@.take(i as int),
            {
                out.push(self.snapshot.aircraft[i].clone());
                assert(out@ =~= first + self.snapshot.aircraft@.take(i + 1));
            }
            assert(self.snapshot.aircraft@.take(n as int) =~= self.snapshot.aircraft@);
        } else {
            assert(out@ =~= first + seq![]);
        }
        assert(out@ == feed_candidates(self.snapshot, self.layers@, self.severity_filter@));
        // Sort by timestamp, then by weight and label for items without timestamps
        let order = stable_order(&out);
        let mut sorted: Vec<MapObject> = Vec::new();
        for i in 0..order.len()
            invariant
                order@ == stable_arrangement(out@),
                order@.len() == out@.len(),
                forall|j: int| 0 <= j < order@.len() ==> #[trigger] order@[j] < out@.len(),
                sorted@ == stably_sorted(out@).take(i as int),
        {
            sorted.push(out[order[i]].clone());
            assert(sorted@ =~= stably_sorted(out@).take(i + 1));
        }
        assert(sorted@ =~= stably_sorted(out@));
        self.cached_objects = sorted;
        self.cache_dirty = false;
    }

    /// Mark cache as dirty (needs rebuild)
    fn invalidate_cache(&mut self)
        ensures
            final(self).is_stale(),
            final(self).cached_objects == old(self).cached_objects,
            final(self).severity_filter == old(self).severity_filter,
            final(self).layers == old(self).layers,
            final(self).layer_panel_open == old(self).layer_panel_open,
            final(self).layer_cursor == old(self).layer_cursor,
            final(self).focus == old(self).focus,
            final(self).selected_idx == old(self).selected_idx,
            final(self).selected_idx_warships == old(self).selected_idx_warships,
            final(self).selected_idx_leaders == old(self).selected_idx_leaders,
            final(self).expanded_idx == old(self).expanded_idx,
            final(self).status == old(self).status,
            final(self).snapshot == old(self).snapshot,
            final(self).quit == old(self).quit,
            final(self).is_searching == old(self).is_searching,
            final(self).search_mode == old(self).search_mode,
            final(self).search_query == old(self).search_query,
            final(self).search_selected_idx == old(self).search_selected_idx,
            final(self).search_results == old(self).search_results,
    {
        self.cache_dirty = true;
    }

    /// Get visible objects (uses cache if clean)
    pub fn visible_objects(&self) -> (r: &Vec<MapObject>)
        ensures
            r@ == self.visible_list(),
            self.feed_list_agrees() && !self.is_stale() ==> r@ == self.feed_spec(),
    {
        &self.cached_objects
    }

    pub fn layer_visible(&self, id: LayerId) -> (r: bool)
        ensures
            r == layer_shown(self.layers@, id),
    {
        let n = self.layers.len();
        let mut i: usize = 0;
        assert(self.layers@.skip(0) =~= self.layers@);
        while i < n
            invariant
                n == self.layers@.len(),
                i <= n,
                layer_shown(self.layers@, id) == layer_shown(self.layers@.skip(i as int), id),
            decreases n - i,
        {
            assert(self.layers@.skip(i as int).drop_first() =~= self.layers@.skip(i + 1));
            if self.layers[i].id == id {
                return self.layers[i].visible;
            }
            i = i + 1;
        }
        false
    }
}

/// The two states agree on the data behind the feed and on the feed list.
pub open spec fn same_feed(a: App, b: App) -> bool {
    &&& a.severity_filter == b.severity_filter
    &&& a.layers == b.layers
    &&& a.snapshot == b.snapshot
    &&& a.visible_list() == b.visible_list()
    &&& a.is_stale() == b.is_stale()
}

/// The two states agree on focus, selections and the opened detail.
pub open spec fn same_panes(a: App, b: App) -> bool {
    &&& a.focus == b.focus
    &&& a.selected_idx == b.selected_idx
    &&& a.selected_idx_warships == b.selected_idx_warships
    &&& a.selected_idx_leaders == b.selected_idx_leaders
    &&& a.expanded_idx == b.expanded_idx
}

/// The two states agree on the search panel.
pub open spec fn same_search(a: App, b: App) -> bool {
    &&& a.is_searching == b.is_searching
    &&& a.search_mode == b.search_mode
    &&& a.search_query == b.search_query
    &&& a.search_selected_idx == b.search_selected_idx
    &&& a.search_results == b.search_results
}

/// The two states agree on the layer panel.
pub open spec fn same_layer_panel(a: App, b: App) -> bool {
    &&& a.layer_panel_open == b.layer_panel_open
    &&& a.layer_cursor == b.layer_cursor
}

impl App {
    /// Get visible objects, rebuilding them first if they are out of date
    pub fn visible_objects_mut(&mut self) -> (r: &Vec<MapObject>)
        ensures
            !old(self).is_stale() ==> *final(self) == *old(self),
            old(self).is_stale() ==> final(self).visible_list() == old(self).feed_spec(),
            old(self).is_stale() ==> in_rank_order(final(self).visible_list()),
            old(self).is_stale() ==> same_items(
                final(self).visible_list(),
                feed_candidates(old(self).snapshot, old(self).layers@, old(self).severity_filter@),
            ),
            !final(self).is_stale(),
            r@ == final(self).visible_list(),
            old(self).feed_list_agrees() || old(self).is_stale() ==> final(self).feed_list_agrees(),
            old(self).feed_list_agrees() || old(self).is_stale() ==> r@ == final(self).feed_spec(),
            final(self).severity_filter == old(self).severity_filter,
            final(self).layers == old(self).layers,
            final(self).snapshot == old(self).snapshot,
            same_panes(*final(self), *old(self)),
            same_search(*final(self), *old(self)),
            same_layer_panel(*final(self), *old(self)),
            final(self).status == old(self).status,
            final(self).quit == old(self).quit,
    {
        if self.cache_dirty {
            self.rebuild_cache();
        }
        &self.cached_objects
    }

    /// Compute feed item heights for a given width.
    /// Returns the heights for each visible object: its title wrapped at
    /// `width - 7` bytes per line (one line when that is zero), at most two
    /// title lines, plus two.
    pub fn compute_feed_heights(&self, width: u16) -> (r: Vec<usize>)
        ensures
            r@.len() == self.visible_list().len(),
            forall|i: int|
                0 <= i < r@.len() ==> #[trigger] r@[i] == feed_item_height(
                    self.visible_list()[i].label@,
                    width,
                ),
    {
        let title_width: usize = if width >= 7 {
            (width - 7) as usize
        } else {
            0
        };
        let mut out: Vec<usize> = Vec::new();
        let n = self.cached_objects.len();
        for i in 0..n
            invariant
                n == self.cached_objects@.len(),
                title_width == (if width >= 7 {
                    width - 7
                } else {
                    0
                }),
                out@.len() == i,
                forall|j: int|
                    0 <= j < i ==> #[trigger] out@[j] == feed_item_height(
                        self.cached_objects@[j].label@,
                        width,
                    ),
        {
            let title_len = self.cached_objects[i].label.as_str().len();
            proof {
                crate::text::lemma_utf8_len(self.cached_objects@[i as int].label@);
            }
            // title lines: ceil(title_len / title_width); only whether they
            // are zero, one or more matters
            let h: usize = if title_width > 0 {
                proof {
                    lemma_line_count(title_len as int, title_width as int);
                }
                if title_len == 0 {
                    2
                } else if title_len <= title_width {
                    3
                } else {
                    4
                }
            } else {
                3
            };
            assert(h == feed_item_height(self.cached_objects@[i as int].label@, width));
            out.push(h);
        }
        out
    }

    pub fn selected_object(&self) -> (r: Option<&MapObject>)
        ensures
            self.visible_list().len() == 0 ==> r is None,
            self.visible_list().len() > 0 ==> r == Some(
                &self.visible_list()[min_usize(
                    self.selected_idx as int,
                    self.visible_list().len() - 1,
                )],
            ),
    {
        let objects = self.visible_objects();
        if objects.len() == 0 {
            return None;
        }
        let idx = if self.selected_idx < objects.len() - 1 {
            self.selected_idx
        } else {
            objects.len() - 1
        };
        Some(&objects[idx])
    }

    pub fn filtered_warships(&self) -> (r: Vec<&Warship>)
        ensures
            derefs(r@) == self.warships_spec(),
    {
        let mut out: Vec<&Warship> = Vec::new();
        let n = self.snapshot.warships.len();
        if self.search_query.as_str().is_empty() {
            for i in 0..n
                invariant
                    n == self.snapshot.warships@.len(),
                    out@.len() == i,
                    derefs(out@) == self.snapshot.warships@.take(i as int),
            {
                let item = &self.snapshot.warships[i];
                out.push(item);
                assert(derefs(out@) =~= self.snapshot.warships@.take(i + 1)) by {
                    assert(out@[i as int] == item);
                }
            }
            assert(self.snapshot.warships@.take(n as int) =~= self.snapshot.warships@);
        } else {
            let q = self.search_query.as_str();
            for i in 0..n
                invariant
                    n == self.snapshot.warships@.len(),
                    q@ == self.search_query@,
                    derefs(out@) == matching_warships(self.snapshot.warships@, q@, i as int),
            {
                let item = &self.snapshot.warships[i];
                if item.matches_search(q) {
                    out.push(item);
                    assert(out@[out@.len() - 1] == item);
                }
                assert(derefs(out@) =~= matching_warships(self.snapshot.warships@, q@, i + 1));
            }
        }
        out
    }

    pub fn filtered_leaders(&self) -> (r: Vec<&WorldLeader>)
        ensures
            derefs(r@) == self.leaders_spec(),
    {
        let mut out: Vec<&WorldLeader> = Vec::new();
        let n = self.snapshot.leaders.len();
        if self.search_query.as_str().is_empty() {
            for i in 0..n
                invariant
                    n == self.snapshot.leaders@.len(),
                    out@.len() == i,
                    derefs(out@) == self.snapshot.leaders@.take(i as int),
            {
                let item = &self.snapshot.leaders[i];
                out.push(item);
                assert(derefs(out@) =~= self.snapshot.leaders@.take(i + 1)) by {
                    assert(out@[i as int] == item);
                }
            }
            assert(self.snapshot.leaders@.take(n as int) =~= self.snapshot.leaders@);
        } else {
            let q = self.search_query.as_str();
            for i in 0..n
                invariant
                    n == self.snapshot.leaders@.len(),
                    q@ == self.search_query@,
                    derefs(out@) == matching_leaders(self.snapshot.leaders@, q@, i as int),
            {
                let item = &self.snapshot.leaders[i];
                if item.matches_search(q) {
                    out.push(item);
                    assert(out@[out@.len() - 1] == item);
                }
                assert(derefs(out@) =~= matching_leaders(self.snapshot.leaders@, q@, i + 1));
            }
        }
        out
    }

    /// The warships in fleet order (see `fleet_rank`), ties in list order.
    pub fn sorted_warships(&self) -> (r: Vec<&Warship>)
        ensures
            derefs(r@) == stably_sorted(self.snapshot.warships@),
            in_rank_order(derefs(r@)),
            same_items(derefs(r@), self.snapshot.warships@),
            fleet_ordered(derefs(r@)),
    {
        let order = stable_order(&self.snapshot.warships);
        let ghost ws = self.snapshot.warships@;
        let mut out: Vec<&Warship> = Vec::new();
        for i in 0..order.len()
            invariant
                ws == self.snapshot.warships@,
                order@ == stable_arrangement(ws),
                order@.len() == ws.len(),
                forall|j: int| 0 <= j < order@.len() ==> #[trigger] order@[j] < ws.len(),
                out@.len() == i,
                derefs(out@) == stably_sorted(ws).take(i as int),
        {
            let item = &self.snapshot.warships[order[i]];
            out.push(item);
            assert(derefs(out@) =~= stably_sorted(ws).take(i + 1)) by {
                assert(out@[i as int] == item);
            }
        }
        assert(derefs(out@) =~= stably_sorted(ws));
        proof {
            fleet_order_is_carriers_then_type_then_name(derefs(out@));
        }
        out
    }

    pub fn current_selection(&self) -> (r: (usize, usize))
        ensures
            r == self.selection_spec(),
    {
        match self.focus {
            PaneFocus::Feed => (self.selected_idx, self.visible_objects().len()),
            PaneFocus::Warships => (self.selected_idx_warships, self.filtered_warships().len()),
            PaneFocus::Leaders => (self.selected_idx_leaders, self.filtered_leaders().len()),
        }
    }

    pub fn set_current_selection(&mut self, idx: usize)
        ensures
            final(self).focus == old(self).focus,
            final(self).selected_idx == (if old(self).focus == PaneFocus::Feed {
                idx
            } else {
                old(self).selected_idx
            }),
            final(self).selected_idx_warships == (if old(self).focus == PaneFocus::Warships {
                idx
            } else {
                old(self).selected_idx_warships
            }),
            final(self).selected_idx_leaders == (if old(self).focus == PaneFocus::Leaders {
                idx
            } else {
                old(self).selected_idx_leaders
            }),
            final(self).expanded_idx == old(self).expanded_idx,
            same_feed(*final(self), *old(self)),
            same_search(*final(self), *old(self)),
            same_layer_panel(*final(self), *old(self)),
            final(self).status == old(self).status,
            final(self).quit == old(self).quit,
    {
        match self.focus {
            PaneFocus::Feed => self.selected_idx = idx,
            PaneFocus::Warships => self.selected_idx_warships = idx,
            PaneFocus::Leaders => self.selected_idx_leaders = idx,
        }
    }
}

proof fn lemma_line_count(t: int, w: int)
    requires
        t >= 0,
        w >= 1,
    ensures
        (t + w - 1) / w >= 0,
        ((t + w - 1) / w == 0) == (t == 0),
        ((t + w - 1) / w < 2) == (t <= w),
{
    assert((t + w - 1) / w >= 0) by (nonlinear_arith)
        requires
            t >= 0,
            w >= 1,
    ;
    assert(((t + w - 1) / w == 0) == (t == 0)) by (nonlinear_arith)
        requires
            t >= 0,
            w >= 1,
    ;
    assert(((t + w - 1) / w < 2) == (t <= w)) by (nonlinear_arith)
        requires
            t >= 0,
            w >= 1,
    ;
}

/// The status line shown while a search query is being typed.
pub open spec fn search_prompt() -> Seq<char> {
    "search mode - type query, ENTER to search"@
}

impl App {
    pub fn start_search(&mut self)
        ensures
            search_started(*old(self), *final(self)),
    {
        self.is_searching = true;
        self.search_mode = SearchMode::Input;
        self.search_query = String::new();
        self.search_selected_idx = 0;
        self.search_results.clear();
        self.status = crate::text::owned("search mode - type query, ENTER to search");
    }

    pub fn exit_search(&mut self)
        ensures
            search_exited(*old(self), *final(self)),
    {
        self.is_searching = false;
        self.search_mode = SearchMode::Input;
        self.search_query = String::new();
        self.search_selected_idx = 0;
        self.search_results.clear();
        self.status = crate::text::owned("search exited");
    }

    pub fn enter_search_results(&mut self)
        ensures
            results_entered(*old(self), *final(self)),
    {
        self.search_mode = SearchMode::Results;
        self.search_selected_idx = 0;
        self.build_search_results();
        self.status = crate::text::owned("search results - j/k navigate, ENTER select");
    }

    fn build_search_results(&mut self)
        ensures
            final(self).search_results@ == search_hits(
                old(self).visible_list(),
                old(self).snapshot.warships@,
                old(self).snapshot.leaders@,
                old(self).search_query@,
            ),
            final(self).is_searching == old(self).is_searching,
            final(self).search_mode == old(self).search_mode,
            final(self).search_query == old(self).search_query,
            final(self).search_selected_idx == old(self).search_selected_idx,
            final(self).status == old(self).status,
            same_feed(*final(self), *old(self)),
            same_panes(*final(self), *old(self)),
            same_layer_panel(*final(self), *old(self)),
            final(self).quit == old(self).quit,
    {
        if self.search_query.as_str().is_empty() {
            self.search_results.clear();
            return ;
        }
        let q = self.search_query.as_str();
        let ghost objs = self.cached_objects@;
        let ghost ws = self.snapshot.warships@;
        let ghost ls = self.snapshot.leaders@;
        let mut hits: Vec<SearchResult> = Vec::new();
        let n = self.cached_objects.len();
        for idx in 0..n
            invariant
                n == objs.len(),
                objs == self.cached_objects@,
                hits@ == feed_hits(objs, q@, idx as int),
        {
            if self.cached_objects[idx].matches_search(q) {
                hits.push(SearchResult::Feed(idx));
            }
        }
        let ghost first = hits@;
        let n = self.snapshot.warships.len();
        for idx in 0..n
            invariant
                n == ws.len(),
                ws == self.snapshot.warships@,
                hits@ == first + warship_hits(ws, q@, idx as int),
        {
            if self.snapshot.warships[idx].matches_search(q) {
                hits.push(SearchResult::Warship(idx));
            }
            assert(hits@ =~= first + warship_hits(ws, q@, idx + 1));
        }
        let ghost second = hits@;
        let n = self.snapshot.leaders.len();
        for idx in 0..n
            invariant
                n == ls.len(),
                ls == self.snapshot.leaders@,
                hits@ == second + leader_hits(ls, q@, idx as int),
        {
            if self.snapshot.leaders[idx].matches_search(q) {
                hits.push(SearchResult::Leader(idx));
            }
            assert(hits@ =~= second + leader_hits(ls, q@, idx + 1));
        }
        self.search_results = hits;
    }

    pub fn search_select_next(&mut self)
        ensures
            search_moved(*old(self), *final(self), true),
    {
        if self.search_results.len() == 0 {
            return ;
        }
        let n = self.search_results.len();
        proof {
            lemma_step_mod(self.search_selected_idx as int, n as int);
        }
        self.search_selected_idx = (self.search_selected_idx % n + 1) % n;
    }

    pub fn search_select_prev(&mut self)
        ensures
            search_moved(*old(self), *final(self), false),
    {
        if self.search_results.len() == 0 {
            return ;
        }
        if self.search_selected_idx == 0 {
            self.search_selected_idx = self.search_results.len() - 1;
        } else {
            self.search_selected_idx -= 1;
        }
    }

    /// Jumps to the selected search hit: focuses its pane, selects it there
    /// (a warship at its place in fleet order) and leaves the search.
    pub fn activate_search_result(&mut self) -> (r: bool)
        ensures
            r == (old(self).search_selected_idx < old(self).search_results@.len()),
            !r ==> *final(self) == *old(self),
            r ==> activated(*old(self), *final(self)),
    {
        if self.search_results.len() == 0 {
            return false;
        }
        if self.search_selected_idx < self.search_results.len() {
            let result = self.search_results[self.search_selected_idx];
            match result {
                SearchResult::Feed(idx) => {
                    self.focus = PaneFocus::Feed;
                    self.selected_idx = idx;
                },
                SearchResult::Warship(idx) => {
                    self.focus = PaneFocus::Warships;
                    let pos = self.warship_sorted_position(idx);
                    self.selected_idx_warships = match pos {
                        Some(p) => p,
                        None => idx,
                    };
                },
                SearchResult::Leader(idx) => {
                    self.focus = PaneFocus::Leaders;
                    self.selected_idx_leaders = idx;
                },
            }
            self.exit_search();
            return true;
        }
        false
    }

    /// Where the ship at `idx` of the snapshot stands in fleet order: the
    /// first sorted position with its id.
    fn warship_sorted_position(&self, idx: usize) -> (r: Option<usize>)
        ensures
            r == warship_slot(self.snapshot.warships@, idx as int),
    {
        if idx >= self.snapshot.warships.len() {
            return None;
        }
        let id = &self.snapshot.warships[idx].id;
        let sorted = self.sorted_warships();
        let ghost ss = stably_sorted(self.snapshot.warships@);
        assert(derefs(sorted@).len() == sorted@.len());
        let mut k: usize = 0;
        while k < sorted.len()
            invariant
                ss == stably_sorted(self.snapshot.warships@),
                derefs(sorted@) == ss,
                sorted@.len() == ss.len(),
                k <= sorted@.len(),
                idx < self.snapshot.warships@.len(),
                id@ == self.snapshot.warships@[idx as int].id@,
                id_position_from(ss, id@, 0) == id_position_from(ss, id@, k as int),
            decreases sorted.len() - k,
        {
            assert(*sorted@[k as int] == ss[k as int]);
            if crate::text::same_text(sorted[k].id.as_str(), id.as_str()) {
                assert(ss[k as int].id@ == id@);
                assert(id_position_from(ss, id@, k as int) == Some(k as int));
                assert(id_position_from(ss, id@, 0) == Some(k as int));
                return Some(k);
            }
            k = k + 1;
        }
        None
    }
}

/// Where the ship at `idx` of `ws` stands in fleet order, if `idx` is a
/// position of `ws`.
pub open spec fn warship_slot(ws: Seq<Warship>, idx: int) -> Option<usize> {
    if 0 <= idx < ws.len() {
        match id_position_from(stably_sorted(ws), ws[idx].id@, 0) {
            Some(k) => Some(k as usize),
            None => None,
        }
    } else {
        None
    }
}

/// Opening the search panel: an empty query in input mode, no hits.
pub open spec fn search_started(pre: App, post: App) -> bool {
    &&& post.is_searching
    &&& post.search_mode == SearchMode::Input
    &&& post.search_query@ == Seq::<char>::empty()
    &&& post.search_selected_idx == 0
    &&& post.search_results@ == Seq::<SearchResult>::empty()
    &&& post.status@ == search_prompt()
    &&& same_feed(post, pre)
    &&& same_panes(post, pre)
    &&& same_layer_panel(post, pre)
    &&& post.quit == pre.quit
}

/// Closing the search panel: the query and the hits are cleared.
pub open spec fn search_exited(pre: App, post: App) -> bool {
    &&& !post.is_searching
    &&& post.search_mode == SearchMode::Input
    &&& post.search_query@ == Seq::<char>::empty()
    &&& post.search_selected_idx == 0
    &&& post.search_results@ == Seq::<SearchResult>::empty()
    &&& post.status@ == "search exited"@
    &&& same_feed(post, pre)
    &&& same_panes(post, pre)
    &&& same_layer_panel(post, pre)
    &&& post.quit == pre.quit
}

/// Switching the search panel to its results: the hits of the query, the
/// first one selected.
pub open spec fn results_entered(pre: App, post: App) -> bool {
    &&& post.search_mode == SearchMode::Results
    &&& post.search_selected_idx == 0
    &&& post.search_results@ == search_hits(
        pre.visible_list(),
        pre.snapshot.warships@,
        pre.snapshot.leaders@,
        pre.search_query@,
    )
    &&& post.status@ == "search results - j/k navigate, ENTER select"@
    &&& post.is_searching == pre.is_searching
    &&& post.search_query == pre.search_query
    &&& same_feed(post, pre)
    &&& same_panes(post, pre)
    &&& same_layer_panel(post, pre)
    &&& post.quit == pre.quit
}

/// What activating the selected search hit does: focus and select the hit,
/// then leave the search.
pub open spec fn activated(pre: App, post: App) -> bool {
    let hit = pre.search_results@[pre.search_selected_idx as int];
    &&& post.focus == hit.spec_focus()
    &&& match hit {
        SearchResult::Feed(idx) => {
            &&& post.selected_idx == idx
            &&& post.selected_idx_warships == pre.selected_idx_warships
            &&& post.selected_idx_leaders == pre.selected_idx_leaders
        },
        SearchResult::Warship(idx) => {
            &&& post.selected_idx == pre.selected_idx
            &&& post.selected_idx_warships == match warship_slot(pre.snapshot.warships@, idx as int) {
                Some(k) => k,
                None => idx,
            }
            &&& post.selected_idx_leaders == pre.selected_idx_leaders
        },
        SearchResult::Leader(idx) => {
            &&& post.selected_idx == pre.selected_idx
            &&& post.selected_idx_warships == pre.selected_idx_warships
            &&& post.selected_idx_leaders == idx
        },
    }
    &&& post.expanded_idx == pre.expanded_idx
    &&& !post.is_searching
    &&& post.search_mode == SearchMode::Input
    &&& post.search_query@ == Seq::<char>::empty()
    &&& post.search_selected_idx == 0
    &&& post.search_results@ == Seq::<SearchResult>::empty()
    &&& post.status@ == "search exited"@
    &&& same_feed(post, pre)
    &&& same_layer_panel(post, pre)
    &&& post.quit == pre.quit
}

/// The selection indices of `post` are those of `pre` with the focused
/// pane's index set to `idx`.
pub open spec fn selects(pre: App, post: App, idx: int) -> bool {
    &&& post.selected_idx == (if pre.focus == PaneFocus::Feed {
        idx
    } else {
        pre.selected_idx as int
    })
    &&& post.selected_idx_warships == (if pre.focus == PaneFocus::Warships {
        idx
    } else {
        pre.selected_idx_warships as int
    })
    &&& post.selected_idx_leaders == (if pre.focus == PaneFocus::Leaders {
        idx
    } else {
        pre.selected_idx_leaders as int
    })
}

/// Nothing but the focus, the selections and the detail view may differ.
pub open spec fn only_panes_differ(pre: App, post: App) -> bool {
    &&& same_feed(post, pre)
    &&& same_search(post, pre)
    &&& same_layer_panel(post, pre)
    &&& post.status == pre.status
    &&& post.quit == pre.quit
}

/// One step of the focused pane's selection, forward or backward with
/// wrap-around, closing the detail view; nothing happens on an empty pane.
pub open spec fn selection_moved(pre: App, post: App, forward: bool) -> bool {
    let idx = pre.selection_spec().0 as int;
    let total = pre.selection_spec().1 as int;
    &&& only_panes_differ(pre, post)
    &&& post.focus == pre.focus
    &&& if total > 0 {
        &&& selects(
            pre,
            post,
            if forward {
                (idx + 1) % total
            } else if idx == 0 {
                total - 1
            } else {
                idx - 1
            },
        )
        &&& post.expanded_idx is None
    } else {
        same_panes(post, pre)
    }
}

/// Opening or closing the detail view of the focused pane's selection
/// (clamped to the pane), and the signals wanted for an opened incident.
pub open spec fn detail_toggled(pre: App, post: App, effect: Effect) -> bool {
    let idx = pre.selection_spec().0 as int;
    let total = pre.selection_spec().1 as int;
    let i = min_usize(idx, total - 1);
    &&& same_feed(post, pre)
    &&& same_search(post, pre)
    &&& same_layer_panel(post, pre)
    &&& post.quit == pre.quit
    &&& post.focus == pre.focus
    &&& post.selected_idx == pre.selected_idx
    &&& post.selected_idx_warships == pre.selected_idx_warships
    &&& post.selected_idx_leaders == pre.selected_idx_leaders
    &&& if total == 0 {
        &&& post.expanded_idx == pre.expanded_idx
        &&& post.status == pre.status
        &&& effect is Nothing
    } else if pre.expanded_idx == Some(i as usize) {
        &&& post.expanded_idx is None
        &&& post.status@ == "detail view closed"@
        &&& effect is Nothing
    } else {
        &&& post.expanded_idx == Some(i as usize)
        &&& post.status@ == "detail view opened"@
        &&& if pre.focus == PaneFocus::Feed && pre.visible_list()[i].kind
            == crate::model::ObjectKind::Incident {
            effect matches Effect::IncidentExpanded(id) && id == pre.visible_list()[i].id
        } else {
            effect is Nothing
        }
    }
}

/// The feed list was just rebuilt: it is what the snapshot, the layers and
/// the severity switches call for.
pub open spec fn feed_rebuilt(post: App) -> bool {
    &&& !post.is_stale()
    &&& post.visible_list() == post.feed_spec()
    &&& in_rank_order(post.visible_list())
    &&& same_items(
        post.visible_list(),
        feed_candidates(post.snapshot, post.layers@, post.severity_filter@),
    )
}

/// Flipping one severity switch: the feed is rebuilt under the new
/// switches, the feed selection returns to the top and the detail view
/// closes.
pub open spec fn severity_toggled(pre: App, post: App, sev: Severity) -> bool {
    let k = sev.spec_index() as int;
    &&& post.severity_filter@ == pre.severity_filter@.update(k, !pre.severity_filter@[k])
    &&& feed_rebuilt(post)
    &&& post.layers == pre.layers
    &&& post.snapshot == pre.snapshot
    &&& post.status@ == sev.spec_label() + ": "@ + crate::ui::switch_word(
        !pre.severity_filter@[k],
    )
    &&& post.selected_idx == 0
    &&& post.expanded_idx is None
    &&& post.focus == pre.focus
    &&& post.selected_idx_warships == pre.selected_idx_warships
    &&& post.selected_idx_leaders == pre.selected_idx_leaders
    &&& same_search(post, pre)
    &&& same_layer_panel(post, pre)
    &&& post.quit == pre.quit
}

/// Moving the focus to pane `to`, closing the detail view.
pub open spec fn focus_moved(pre: App, post: App, to: PaneFocus) -> bool {
    &&& post.focus == to
    &&& post.expanded_idx is None
    &&& post.status@ == "focus: "@ + to.spec_label()
    &&& post.selected_idx == pre.selected_idx
    &&& post.selected_idx_warships == pre.selected_idx_warships
    &&& post.selected_idx_leaders == pre.selected_idx_leaders
    &&& same_feed(post, pre)
    &&& same_search(post, pre)
    &&& same_layer_panel(post, pre)
    &&& post.quit == pre.quit
}

/// Only the status line may differ.
pub open spec fn only_status_differs(pre: App, post: App) -> bool {
    &&& same_feed(post, pre)
    &&& same_panes(post, pre)
    &&& same_search(post, pre)
    &&& same_layer_panel(post, pre)
    &&& post.quit == pre.quit
}

/// The layers of `post` are those of `pre` with visibility `vis(i)`.
pub open spec fn layers_set(pre: Seq<LayerState>, post: Seq<LayerState>, vis: spec_fn(int) -> bool) -> bool {
    &&& post.len() == pre.len()
    &&& forall|i: int|
        0 <= i < pre.len() ==> {
            &&& #[trigger] post[i].id == pre[i].id
            &&& post[i].name == pre[i].name
            &&& post[i].default_visible == pre[i].default_visible
            &&& post[i].visible == vis(i)
        }
}

/// Whether every layer is switched on.
pub open spec fn all_layers_on(layers: Seq<LayerState>) -> bool {
    forall|i: int| 0 <= i < layers.len() ==> #[trigger] layers[i].visible
}

/// A layer change: the layers changed and the feed was rebuilt under them;
/// nothing else but the status line differs.
pub open spec fn layers_changed(pre: App, post: App) -> bool {
    &&& feed_rebuilt(post)
    &&& post.severity_filter == pre.severity_filter
    &&& post.snapshot == pre.snapshot
    &&& same_panes(post, pre)
    &&& same_search(post, pre)
    &&& same_layer_panel(post, pre)
    &&& post.quit == pre.quit
}

/// What a key does while the layer panel is open.
pub open spec fn layer_panel_step(pre: App, post: App, key: KeyPress) -> bool {
    let c = key.code;
    let n = pre.layers@.len();
    let cur = pre.layer_cursor as int;
    if c == KeyCode::Esc || c == KeyCode::Char('t') {
        &&& !post.layer_panel_open
        &&& post.layer_cursor == pre.layer_cursor
        &&& post.status@ == "layer panel closed"@
        &&& same_feed(post, pre)
        &&& same_panes(post, pre)
        &&& same_search(post, pre)
        &&& post.quit == pre.quit
    } else if c == KeyCode::Up || c == KeyCode::Char('k') || c == KeyCode::Down || c
        == KeyCode::Char('j') {
        let up = c == KeyCode::Up || c == KeyCode::Char('k');
        &&& post.layer_cursor == (if up {
            if cur > 0 {
                cur - 1
            } else {
                cur
            }
        } else if cur + 1 < n {
            cur + 1
        } else {
            cur
        })
        &&& post.layer_panel_open == pre.layer_panel_open
        &&& post.status == pre.status
        &&& same_feed(post, pre)
        &&& same_panes(post, pre)
        &&& same_search(post, pre)
        &&& post.quit == pre.quit
    } else if c == KeyCode::Char(' ') || c == KeyCode::Enter {
        if cur < n {
            &&& layers_changed(pre, post)
            &&& layers_set(
                pre.layers@,
                post.layers@,
                |i: int|
                    if i == cur {
                        !pre.layers@[i].visible
                    } else {
                        pre.layers@[i].visible
                    },
            )
            &&& post.status@ == lowercase(pre.layers@[cur].name@) + ": "@ + crate::ui::switch_word(
                !pre.layers@[cur].visible,
            )
        } else {
            post == pre
        }
    } else if c == KeyCode::Char('a') {
        let all_on = all_layers_on(pre.layers@);
        &&& layers_changed(pre, post)
        &&& layers_set(pre.layers@, post.layers@, |i: int| !all_on)
        &&& post.status@ == (if all_on {
            "all layers off"@
        } else {
            "all layers on"@
        })
    } else if c == KeyCode::Char('d') {
        &&& layers_changed(pre, post)
        &&& layers_set(pre.layers@, post.layers@, |i: int| pre.layers@[i].default_visible)
        &&& post.status@ == "layers reset to defaults"@
    } else {
        post == pre
    }
}

/// The smaller of two integers.
pub open spec fn min_usize(a: int, b: int) -> int {
    if a < b {
        a
    } else {
        b
    }
}

/// Feed rows that an object with this label takes at this panel width.
pub open spec fn feed_item_height(label: Seq<char>, width: u16) -> usize {
    let tw = if width >= 7 {
        width - 7
    } else {
        0
    };
    // the byte length as `str::len` reports it
    let t = crate::text::utf8_len(label) as usize;
    let lines = if tw > 0 {
        (t + tw - 1) / tw
    } else {
        1
    };
    (if lines < 2 {
        lines + 2
    } else {
        4
    }) as usize
}


/// `((a % n) + 1) % n` is `(a + 1) % n`: stepping a wrapped index equals
/// wrapping the stepped index.
proof fn lemma_step_mod(a: int, n: int)
    requires
        0 <= a,
        0 < n,
    ensures
        ((a % n) + 1) % n == (a + 1) % n,
{
    vstd::arithmetic::div_mod::lemma_add_mod_noop(a, 1, n);
    if n > 1 {
        vstd::arithmetic::div_mod::lemma_small_mod(1, n as nat);
    } else {
        assert(((a % n) + 1) % n == 0);
        assert((a + 1) % n == 0);
    }
}

/// One step of the search hit cursor, forward or backward with wrap-around;
/// nothing happens when there are no hits.
pub open spec fn search_moved(pre: App, post: App, forward: bool) -> bool {
    let n = pre.search_results@.len() as int;
    let i = pre.search_selected_idx as int;
    if n == 0 {
        post == pre
    } else {
        &&& post.search_selected_idx == (if forward {
            (i + 1) % n
        } else if i == 0 {
            n - 1
        } else {
            i - 1
        })
        &&& post.search_results == pre.search_results
        &&& post.is_searching == pre.is_searching
        &&& post.search_mode == pre.search_mode
        &&& post.search_query == pre.search_query
        &&& post.status == pre.status
        &&& same_feed(post, pre)
        &&& same_panes(post, pre)
        &&& same_layer_panel(post, pre)
        &&& post.quit == pre.quit
    }
}

/// Only the quit flag is set.
pub open spec fn quit_set(pre: App, post: App) -> bool {
    &&& post.quit
    &&& same_feed(post, pre)
    &&& same_panes(post, pre)
    &&& same_search(post, pre)
    &&& same_layer_panel(post, pre)
    &&& post.status == pre.status
}

/// The search query was edited to `q`: the hits follow the new query, or
/// are cleared with the prompt shown again when `q` is empty and
/// `prompt_when_empty` holds.
pub open spec fn query_edited(pre: App, post: App, q: Seq<char>, prompt_when_empty: bool) -> bool {
    &&& post.search_query@ == q
    &&& post.search_results@ == search_hits(
        pre.visible_list(),
        pre.snapshot.warships@,
        pre.snapshot.leaders@,
        q,
    )
    &&& if prompt_when_empty && q.len() == 0 {
        post.status@ == search_prompt()
    } else {
        post.status == pre.status
    }
    &&& post.is_searching == pre.is_searching
    &&& post.search_mode == pre.search_mode
    &&& post.search_selected_idx == pre.search_selected_idx
    &&& same_feed(post, pre)
    &&& same_panes(post, pre)
    &&& same_layer_panel(post, pre)
    &&& post.quit == pre.quit
}

/// What a key does while the search panel is open.
pub open spec fn search_step(pre: App, post: App, key: KeyPress, effect: Effect) -> bool {
    let c = key.code;
    let q = pre.search_query@;
    match pre.search_mode {
        SearchMode::Input => {
            &&& effect is Nothing
            &&& if c == KeyCode::Esc {
                search_exited(pre, post)
            } else if c == KeyCode::Enter {
                if q.len() > 0 {
                    results_entered(pre, post)
                } else {
                    post == pre
                }
            } else if c == KeyCode::Backspace {
                query_edited(pre, post, if q.len() > 0 { q.drop_last() } else { q }, true)
            } else if c is Char {
                query_edited(pre, post, q.push(c->0), false)
            } else {
                post == pre
            }
        },
        SearchMode::Results => {
            if c == KeyCode::Esc {
                &&& effect is Nothing
                &&& if q.len() == 0 {
                    search_exited(pre, post)
                } else {
                    &&& post.search_mode == SearchMode::Input
                    &&& post.search_selected_idx == 0
                    &&& post.status@ == search_prompt()
                    &&& post.is_searching == pre.is_searching
                    &&& post.search_query == pre.search_query
                    &&& post.search_results == pre.search_results
                    &&& same_feed(post, pre)
                    &&& same_panes(post, pre)
                    &&& same_layer_panel(post, pre)
                    &&& post.quit == pre.quit
                }
            } else if c == KeyCode::Enter {
                exists|mid: App|
                    {
                        &&& (if pre.search_selected_idx < pre.search_results@.len() {
                            activated(pre, mid)
                        } else {
                            mid == pre
                        })
                        &&& #[trigger] detail_toggled(mid, post, effect)
                    }
            } else if c == KeyCode::Char('j') || c == KeyCode::Down {
                &&& effect is Nothing
                &&& search_moved(pre, post, true)
            } else if c == KeyCode::Char('k') || c == KeyCode::Up {
                &&& effect is Nothing
                &&& search_moved(pre, post, false)
            } else {
                &&& effect is Nothing
                &&& post == pre
            }
        },
    }
}

/// What a key does in the panes, with no panel open.
pub open spec fn browse_step(pre: App, post: App, key: KeyPress, effect: Effect) -> bool {
    let c = key.code;
    if c == KeyCode::Enter {
        detail_toggled(pre, post, effect)
    } else if c == KeyCode::Char('g') {
        &&& effect is RefreshRequested
        &&& post == pre
    } else {
        &&& effect is Nothing
        &&& if c == KeyCode::Char('q') {
            quit_set(pre, post)
        } else if c == KeyCode::Esc {
            if pre.expanded_idx is Some {
                &&& post.expanded_idx is None
                &&& post.status@ == "detail view closed"@
                &&& post.focus == pre.focus
                &&& post.selected_idx == pre.selected_idx
                &&& post.selected_idx_warships == pre.selected_idx_warships
                &&& post.selected_idx_leaders == pre.selected_idx_leaders
                &&& same_feed(post, pre)
                &&& same_search(post, pre)
                &&& same_layer_panel(post, pre)
                &&& post.quit == pre.quit
            } else {
                post == pre
            }
        } else if c == KeyCode::Char('t') {
            &&& post.layer_panel_open
            &&& post.layer_cursor == pre.layer_cursor
            &&& post.status@ == "layer panel opened"@
            &&& same_feed(post, pre)
            &&& same_panes(post, pre)
            &&& same_search(post, pre)
            &&& post.quit == pre.quit
        } else if c == KeyCode::Char('1') {
            severity_toggled(pre, post, Severity::Low)
        } else if c == KeyCode::Char('2') {
            severity_toggled(pre, post, Severity::Medium)
        } else if c == KeyCode::Char('3') {
            severity_toggled(pre, post, Severity::High)
        } else if c == KeyCode::Char('4') {
            severity_toggled(pre, post, Severity::Critical)
        } else if c == KeyCode::Char('n') || c == KeyCode::Char('j') || c == KeyCode::Down {
            selection_moved(pre, post, true)
        } else if c == KeyCode::Char('p') || c == KeyCode::Char('k') || c == KeyCode::Up {
            selection_moved(pre, post, false)
        } else if c == KeyCode::Char('h') || c == KeyCode::BackTab || (c == KeyCode::Tab
            && key.shift) {
            focus_moved(pre, post, pre.focus.spec_prev())
        } else if c == KeyCode::Char('l') || c == KeyCode::Tab {
            focus_moved(pre, post, pre.focus.spec_next())
        } else if c == KeyCode::Char('/') {
            search_started(pre, post)
        } else {
            post == pre
        }
    }
}

/// What a key press does to the application: Control-C quits from
/// anywhere; otherwise an open layer panel, then an open search panel, then
/// the panes take the key.
pub open spec fn key_step(pre: App, post: App, key: KeyPress, effect: Effect) -> bool {
    if key.code == KeyCode::Char('c') && key.control {
        &&& effect is Nothing
        &&& quit_set(pre, post)
    } else if pre.layer_panel_open {
        &&& effect is Nothing
        &&& layer_panel_step(pre, post, key)
    } else if pre.is_searching {
        search_step(pre, post, key, effect)
    } else {
        browse_step(pre, post, key, effect)
    }
}

impl App {
    fn select_next(&mut self)
        ensures
            selection_moved(*old(self), *final(self), true),
    {
        let (idx, total) = self.current_selection();
        if total > 0 {
            proof {
                lemma_step_mod(idx as int, total as int);
            }
            let new_idx = (idx % total + 1) % total;
            self.set_current_selection(new_idx);
            self.expanded_idx = None;
        }
    }

    fn select_prev(&mut self)
        ensures
            selection_moved(*old(self), *final(self), false),
    {
        let (idx, total) = self.current_selection();
        if total > 0 {
            let new_idx = if idx == 0 {
                total - 1
            } else {
                idx - 1
            };
            self.set_current_selection(new_idx);
            self.expanded_idx = None;
        }
    }

    fn toggle_expanded(&mut self) -> (effect: Effect)
        ensures
            detail_toggled(*old(self), *final(self), effect),
    {
        let (idx, total) = self.current_selection();
        if total == 0 {
            return Effect::Nothing;
        }
        let idx = if idx < total - 1 {
            idx
        } else {
            total - 1
        };
        let open_here = match self.expanded_idx {
            Some(e) => e == idx,
            None => false,
        };
        if open_here {
            self.expanded_idx = None;
            self.status = crate::text::owned("detail view closed");
            Effect::Nothing
        } else {
            self.expanded_idx = Some(idx);
            self.status = crate::text::owned("detail view opened");
            if self.focus == PaneFocus::Feed && idx < self.cached_objects.len() {
                let obj = &self.cached_objects[idx];
                if obj.kind == crate::model::ObjectKind::Incident {
                    return Effect::IncidentExpanded(obj.id.clone());
                }
            }
            Effect::Nothing
        }
    }

    fn toggle_severity(&mut self, sev: Severity)
        ensures
            severity_toggled(*old(self), *final(self), sev),
    {
        let idx = sev.index();
        let flipped = !self.severity_filter[idx];
        self.severity_filter[idx] = flipped;
        self.rebuild_cache();
        self.status = crate::text::join3(sev.label(), ": ", crate::ui::on_off(flipped));
        self.selected_idx = 0;
        self.expanded_idx = None;
    }
}


impl App {
    #[verifier::rlimit(40)]
    fn handle_layer_panel_key(&mut self, key: KeyPress)
        ensures
            layer_panel_step(*old(self), *final(self), key),
    {
        let c = key.code;
        if c == KeyCode::Esc || c == KeyCode::Char('t') {
            self.layer_panel_open = false;
            self.status = crate::text::owned("layer panel closed");
        } else if c == KeyCode::Up || c == KeyCode::Char('k') {
            if self.layer_cursor > 0 {
                self.layer_cursor -= 1;
            }
        } else if c == KeyCode::Down || c == KeyCode::Char('j') {
            if self.layers.len() > 0 && self.layer_cursor < self.layers.len() - 1 {
                self.layer_cursor += 1;
            }
        } else if c == KeyCode::Char(' ') || c == KeyCode::Enter {
            let cur = self.layer_cursor;
            if cur < self.layers.len() {
                let mut layer = self.layers[cur];
                layer.visible = !layer.visible;
                self.layers.set(cur, layer);
                self.rebuild_cache();
                let name = crate::text::to_lowercase(layer.name);
                self.status = crate::text::join3(
                    name.as_str(),
                    ": ",
                    crate::ui::on_off(layer.visible),
                );
            }
        } else if c == KeyCode::Char('a') {
            let n = self.layers.len();
            let mut all_on = true;
            for i in 0..n
                invariant
                    n == self.layers@.len(),
                    all_on == (forall|j: int| 0 <= j < i ==> #[trigger] self.layers@[j].visible),
            {
                if !self.layers[i].visible {
                    all_on = false;
                }
            }
            let mut out: Vec<LayerState> = Vec::new();
            for i in 0..n
                invariant
                    n == self.layers@.len(),
                    out@.len() == i,
                    forall|j: int|
                        0 <= j < i ==> {
                            &&& #[trigger] out@[j].id == self.layers@[j].id
                            &&& out@[j].name == self.layers@[j].name
                            &&& out@[j].default_visible == self.layers@[j].default_visible
                            &&& out@[j].visible == !all_on
                        },
            {
                let mut layer = self.layers[i];
                layer.visible = !all_on;
                out.push(layer);
            }
            self.layers = out;
            self.rebuild_cache();
            self.status = if all_on {
                crate::text::owned("all layers off")
            } else {
                crate::text::owned("all layers on")
            };
        } else if c == KeyCode::Char('d') {
            let n = self.layers.len();
            let mut out: Vec<LayerState> = Vec::new();
            for i in 0..n
                invariant
                    n == self.layers@.len(),
                    out@.len() == i,
                    forall|j: int|
                        0 <= j < i ==> {
                            &&& #[trigger] out@[j].id == self.layers@[j].id
                            &&& out@[j].name == self.layers@[j].name
                            &&& out@[j].default_visible == self.layers@[j].default_visible
                            &&& out@[j].visible == self.layers@[j].default_visible
                        },
            {
                let mut layer = self.layers[i];
                layer.visible = layer.default_visible;
                out.push(layer);
            }
            self.layers = out;
            self.rebuild_cache();
            self.status = crate::text::owned("layers reset to defaults");
        }
    }

    #[verifier::rlimit(40)]
    fn handle_search_key(&mut self, key: KeyPress) -> (effect: Effect)
        ensures
            search_step(*old(self), *final(self), key, effect),
    {
        let c = key.code;
        match self.search_mode {
            SearchMode::Input => {
                if c == KeyCode::Esc {
                    self.exit_search();
                } else if c == KeyCode::Enter {
                    if !self.search_query.as_str().is_empty() {
                        self.enter_search_results();
                    }
                } else if c == KeyCode::Backspace {
                    crate::text::pop_char(&mut self.search_query);
                    if !self.search_query.as_str().is_empty() {
                        self.build_search_results();
                    } else {
                        self.search_results.clear();
                        self.status = crate::text::owned(
                            "search mode - type query, ENTER to search",
                        );
                    }
                } else if let KeyCode::Char(ch) = c {
                    crate::text::push_char(&mut self.search_query, ch);
                    self.build_search_results();
                }
                Effect::Nothing
            },
            SearchMode::Results => {
                if c == KeyCode::Esc {
                    self.search_mode = SearchMode::Input;
                    self.search_selected_idx = 0;
                    if self.search_query.as_str().is_empty() {
                        self.exit_search();
                    } else {
                        self.status = crate::text::owned(
                            "search mode - type query, ENTER to search",
                        );
                    }
                    Effect::Nothing
                } else if c == KeyCode::Enter {
                    let ghost pre = *self;
                    self.activate_search_result();
                    let ghost mid = *self;
                    let effect = self.toggle_expanded();
                    assert(detail_toggled(mid, *self, effect));
                    effect
                } else if c == KeyCode::Char('j') || c == KeyCode::Down {
                    self.search_select_next();
                    Effect::Nothing
                } else if c == KeyCode::Char('k') || c == KeyCode::Up {
                    self.search_select_prev();
                    Effect::Nothing
                } else {
                    Effect::Nothing
                }
            },
        }
    }

    /// Applies a key press (see `key_step`). The effect names the outside
    /// work the key asks for: a snapshot fetch, or the signals of an opened
    /// incident.
    #[verifier::rlimit(40)]
    pub fn handle_key(&mut self, key: KeyPress) -> (effect: Effect)
        ensures
            key_step(*old(self), *final(self), key, effect),
    {
        if key.code == KeyCode::Char('c') && key.control {
            self.quit = true;
            return Effect::Nothing;
        }
        if self.layer_panel_open {
            self.handle_layer_panel_key(key);
            return Effect::Nothing;
        }
        if self.is_searching {
            return self.handle_search_key(key);
        }
        let c = key.code;
        if c == KeyCode::Enter {
            return self.toggle_expanded();
        }
        if c == KeyCode::Char('g') {
            return Effect::RefreshRequested;
        }
        if c == KeyCode::Char('q') {
            self.quit = true;
        } else if c == KeyCode::Esc {
            if self.expanded_idx.is_some() {
                self.expanded_idx = None;
                self.status = crate::text::owned("detail view closed");
            }
        } else if c == KeyCode::Char('t') {
            self.layer_panel_open = true;
            self.status = crate::text::owned("layer panel opened");
        } else if c == KeyCode::Char('1') {
            self.toggle_severity(Severity::Low);
        } else if c == KeyCode::Char('2') {
            self.toggle_severity(Severity::Medium);
        } else if c == KeyCode::Char('3') {
            self.toggle_severity(Severity::High);
        } else if c == KeyCode::Char('4') {
            self.toggle_severity(Severity::Critical);
        } else if c == KeyCode::Char('n') || c == KeyCode::Char('j') || c == KeyCode::Down {
            self.select_next();
        } else if c == KeyCode::Char('p') || c == KeyCode::Char('k') || c == KeyCode::Up {
            self.select_prev();
        } else if c == KeyCode::Char('h') || c == KeyCode::BackTab || (c == KeyCode::Tab
            && key.shift) {
            self.focus = self.focus.prev();
            self.expanded_idx = None;
            self.status = crate::text::join2("focus: ", self.focus.label());
        } else if c == KeyCode::Char('l') || c == KeyCode::Tab {
            self.focus = self.focus.next();
            self.expanded_idx = None;
            self.status = crate::text::join2("focus: ", self.focus.label());
        } else if c == KeyCode::Char('/') {
            self.start_search();
        }
        Effect::Nothing
    }
}


/// `idx` moved back into a list of `len` items: the last position when it
/// is past the end of a non-empty list, else unchanged.
pub open spec fn clamped(idx: usize, len: int) -> usize {
    if idx >= len && len > 0 {
        (len - 1) as usize
    } else {
        idx
    }
}

impl App {
    /// Moves each pane's selection back into its list where it is past the
    /// end (empty lists leave it as it is).
    pub fn clamp_selections(&mut self)
        ensures
            final(self).selected_idx == clamped(
                old(self).selected_idx,
                old(self).visible_list().len() as int,
            ),
            final(self).selected_idx_warships == clamped(
                old(self).selected_idx_warships,
                old(self).warships_spec().len() as int,
            ),
            final(self).selected_idx_leaders == clamped(
                old(self).selected_idx_leaders,
                old(self).leaders_spec().len() as int,
            ),
            final(self).focus == old(self).focus,
            final(self).expanded_idx == old(self).expanded_idx,
            final(self).status == old(self).status,
            same_feed(*final(self), *old(self)),
            same_search(*final(self), *old(self)),
            same_layer_panel(*final(self), *old(self)),
            final(self).quit == old(self).quit,
    {
        let events_len = self.visible_objects().len();
        if self.selected_idx >= events_len && events_len > 0 {
            self.selected_idx = events_len - 1;
        }
        let warships_len = self.filtered_warships().len();
        if self.selected_idx_warships >= warships_len && warships_len > 0 {
            self.selected_idx_warships = warships_len - 1;
        }
        let leaders_len = self.filtered_leaders().len();
        if self.selected_idx_leaders >= leaders_len && leaders_len > 0 {
            self.selected_idx_leaders = leaders_len - 1;
        }
    }

    /// The decision of a periodic refresh, once the caller has fetched:
    /// with a snapshot, it replaces the data, rebuilds the feed and keeps the
    /// feed selection in range; with an error, only the status line tells
    /// of it.
    pub fn tick(&mut self, fetched: Result<Snapshot, String>, provider_name: &str)
        ensures
            match fetched {
                Ok(snapshot) => {
                    &&& final(self).snapshot == snapshot
                    &&& !final(self).is_stale()
                    &&& final(self).visible_list() == final(self).feed_spec()
                    &&& final(self).feed_list_agrees()
                    &&& in_rank_order(final(self).visible_list())
                    &&& same_items(
                        final(self).visible_list(),
                        feed_candidates(snapshot, old(self).layers@, old(self).severity_filter@),
                    )
                    &&& final(self).status@ == "snapshot refreshed ("@ + provider_name@ + ")"@
                    &&& final(self).selected_idx == clamped(
                        old(self).selected_idx,
                        final(self).visible_list().len() as int,
                    )
                    &&& final(self).severity_filter == old(self).severity_filter
                    &&& final(self).layers == old(self).layers
                    &&& final(self).focus == old(self).focus
                    &&& final(self).selected_idx_warships == old(self).selected_idx_warships
                    &&& final(self).selected_idx_leaders == old(self).selected_idx_leaders
                    &&& final(self).expanded_idx == old(self).expanded_idx
                    &&& same_search(*final(self), *old(self))
                    &&& same_layer_panel(*final(self), *old(self))
                    &&& final(self).quit == old(self).quit
                },
                Err(msg) => {
                    &&& final(self).status@ == "refresh failed: "@ + msg@
                    &&& same_feed(*final(self), *old(self))
                    &&& same_panes(*final(self), *old(self))
                    &&& same_search(*final(self), *old(self))
                    &&& same_layer_panel(*final(self), *old(self))
                    &&& final(self).quit == old(self).quit
                },
            },
    {
        match fetched {
            Ok(snapshot) => {
                self.snapshot = snapshot;
                self.status = crate::text::join3("snapshot refreshed (", provider_name, ")");
                self.invalidate_cache();
                let count = self.visible_objects_mut().len();
                if self.selected_idx >= count && count > 0 {
                    self.selected_idx = count - 1;
                }
            },
            Err(msg) => {
                self.status = crate::text::join2("refresh failed: ", msg.as_str());
            },
        }
    }

    /// The outcome of the snapshot fetch that `g` asked for: a snapshot
    /// replaces the data and the feed is rebuilt from it; an error only
    /// shows in the status line.
    pub fn finish_manual_refresh(&mut self, fetched: Result<Snapshot, String>, provider_name: &str)
        ensures
            match fetched {
                Ok(snapshot) => {
                    &&& final(self).snapshot == snapshot
                    &&& feed_rebuilt(*final(self))
                    &&& final(self).feed_list_agrees()
                    &&& final(self).status@ == "manual refresh ("@ + provider_name@ + ")"@
                    &&& final(self).severity_filter == old(self).severity_filter
                    &&& final(self).layers == old(self).layers
                    &&& same_panes(*final(self), *old(self))
                    &&& same_search(*final(self), *old(self))
                    &&& same_layer_panel(*final(self), *old(self))
                    &&& final(self).quit == old(self).quit
                },
                Err(msg) => {
                    &&& final(self).status@ == "manual refresh failed: "@ + msg@
                    &&& same_feed(*final(self), *old(self))
                    &&& same_panes(*final(self), *old(self))
                    &&& same_search(*final(self), *old(self))
                    &&& same_layer_panel(*final(self), *old(self))
                    &&& final(self).quit == old(self).quit
                },
            },
    {
        match fetched {
            Ok(snapshot) => {
                self.snapshot = snapshot;
                self.rebuild_cache();
                self.status = crate::text::join3("manual refresh (", provider_name, ")");
            },
            Err(msg) => {
                self.status = crate::text::join2("manual refresh failed: ", msg.as_str());
            },
        }
    }
}


/// Stepping the selection forward and then back returns to where it was,
/// when it was on an item of the focused pane.
pub proof fn selection_forward_then_back(pre: App, mid: App, post: App)
    requires
        selection_moved(pre, mid, true),
        selection_moved(mid, post, false),
        pre.selection_spec().0 < pre.selection_spec().1,
    ensures
        post.focus == pre.focus,
        post.selected_idx == pre.selected_idx,
        post.selected_idx_warships == pre.selected_idx_warships,
        post.selected_idx_leaders == pre.selected_idx_leaders,
{
    let i = pre.selection_spec().0 as int;
    let n = pre.selection_spec().1 as int;
    if i + 1 < n {
        vstd::arithmetic::div_mod::lemma_small_mod((i + 1) as nat, n as nat);
    } else {
        vstd::arithmetic::div_mod::lemma_mod_self_0(n);
    }
    assert(mid.selection_spec().1 == n);
}

/// Stepping the selection back and then forward returns to where it was,
/// when it was on an item of the focused pane.
pub proof fn selection_back_then_forward(pre: App, mid: App, post: App)
    requires
        selection_moved(pre, mid, false),
        selection_moved(mid, post, true),
        pre.selection_spec().0 < pre.selection_spec().1,
    ensures
        post.focus == pre.focus,
        post.selected_idx == pre.selected_idx,
        post.selected_idx_warships == pre.selected_idx_warships,
        post.selected_idx_leaders == pre.selected_idx_leaders,
{
    let i = pre.selection_spec().0 as int;
    let n = pre.selection_spec().1 as int;
    let j = if i == 0 {
        n - 1
    } else {
        i - 1
    };
    if j + 1 < n {
        vstd::arithmetic::div_mod::lemma_small_mod((j + 1) as nat, n as nat);
    } else {
        vstd::arithmetic::div_mod::lemma_mod_self_0(n);
    }
    assert(mid.selection_spec().1 == n);
}

/// Moving the search cursor down and then up returns it to the hit it was
/// on.
pub proof fn search_cursor_round_trip(pre: App, mid: App, post: App)
    requires
        search_moved(pre, mid, true),
        search_moved(mid, post, false),
        pre.search_selected_idx < pre.search_results@.len(),
    ensures
        post.search_selected_idx == pre.search_selected_idx,
{
    let i = pre.search_selected_idx as int;
    let n = pre.search_results@.len() as int;
    if i + 1 < n {
        vstd::arithmetic::div_mod::lemma_small_mod((i + 1) as nat, n as nat);
    } else {
        vstd::arithmetic::div_mod::lemma_mod_self_0(n);
    }
}

/// Flipping the same severity switch twice restores the switches.
pub proof fn severity_switch_twice_restores(pre: App, mid: App, post: App, sev: Severity)
    requires
        severity_toggled(pre, mid, sev),
        severity_toggled(mid, post, sev),
    ensures
        post.severity_filter@ == pre.severity_filter@,
{
    assert(post.severity_filter@ =~= pre.severity_filter@);
}

/// Control-C quits, whatever panel is open.
pub proof fn control_c_always_quits(pre: App, post: App, key: KeyPress, effect: Effect)
    requires
        key_step(pre, post, key, effect),
        key.code == KeyCode::Char('c'),
        key.control,
    ensures
        post.quit,
        effect is Nothing,
{
}

/// Switching the layer under the cursor twice restores every layer.
pub proof fn layer_switch_twice_restores(pre: App, mid: App, post: App, key: KeyPress)
    requires
        key.code == KeyCode::Char(' ') || key.code == KeyCode::Enter,
        pre.layer_cursor < pre.layers@.len(),
        layer_panel_step(pre, mid, key),
        layer_panel_step(mid, post, key),
    ensures
        post.layers@ == pre.layers@,
{
    assert(mid.layer_cursor == pre.layer_cursor);
    assert(post.layers@ =~= pre.layers@) by {
        assert forall|i: int| 0 <= i < pre.layers@.len() implies post.layers@[i]
            == pre.layers@[i] by {
            assert(mid.layers@[i].id == pre.layers@[i].id);
            assert(post.layers@[i].id == mid.layers@[i].id);
        }
    }
}

/// Resetting the layers to their defaults twice is the same as once.
pub proof fn layer_reset_is_idempotent(pre: App, mid: App, post: App, key: KeyPress)
    requires
        key.code == KeyCode::Char('d'),
        layer_panel_step(pre, mid, key),
        layer_panel_step(mid, post, key),
    ensures
        post.layers@ == mid.layers@,
{
    assert(post.layers@ =~= mid.layers@) by {
        assert forall|i: int| 0 <= i < mid.layers@.len() implies post.layers@[i]
            == mid.layers@[i] by {
            assert(mid.layers@[i].id == pre.layers@[i].id);
            assert(post.layers@[i].id == mid.layers@[i].id);
        }
    }
}


/// After a severity key the feed lists no event whose severity is switched
/// off: each listed object is an event of the snapshot whose severity
/// passes the new switches, or one of its aircraft.
pub proof fn severity_key_hides_switched_off_events(pre: App, post: App, sev: Severity)
    requires
        severity_toggled(pre, post, sev),
    ensures
        forall|i: int|
            0 <= i < post.visible_list().len() ==> {
                let x = #[trigger] post.visible_list()[i];
                ||| (post.snapshot.events@.contains(x) && severity_passes(
                    post.severity_filter@,
                    x.severity,
                ))
                ||| post.snapshot.aircraft@.contains(x)
            },
{
    let cands = feed_candidates(post.snapshot, post.layers@, post.severity_filter@);
    feed_shows_exactly_what_is_switched_on(post.snapshot, post.layers@, post.severity_filter@);
    assert forall|i: int| 0 <= i < post.visible_list().len() implies {
        let x = #[trigger] post.visible_list()[i];
        ||| (post.snapshot.events@.contains(x) && severity_passes(
            post.severity_filter@,
            x.severity,
        ))
        ||| post.snapshot.aircraft@.contains(x)
    } by {
        let x = post.visible_list()[i];
        assert(cands.contains(x));
        let k = choose|k: int| 0 <= k < cands.len() && cands[k] == x;
        assert(cands[k] == x);
    }
}

/// In feed order, timestamped objects come before those without one and
/// the most recent comes first; among objects without a timestamp the
/// heavier comes first, and of equal weight the smaller label.
pub proof fn feed_order_puts_the_most_recent_first(s: Seq<MapObject>)
    requires
        in_rank_order(s),
    ensures
        forall|i: int, j: int|
            0 <= i < j < s.len() ==> {
                let a = #[trigger] s[i];
                let b = #[trigger] s[j];
                &&& !(a.timestamp is None && b.timestamp is Some)
                &&& (a.timestamp is Some && b.timestamp is Some) ==> a.timestamp->0
                    >= b.timestamp->0
                &&& (a.timestamp is None && b.timestamp is None) ==> (a.spec_weight()
                    > b.spec_weight() || (a.spec_weight() == b.spec_weight() && !lex_less(
                    b.label@,
                    a.label@,
                )))
            },
{
    assert forall|i: int, j: int| 0 <= i < j < s.len() implies {
        let a = #[trigger] s[i];
        let b = #[trigger] s[j];
        &&& !(a.timestamp is None && b.timestamp is Some)
        &&& (a.timestamp is Some && b.timestamp is Some) ==> a.timestamp->0 >= b.timestamp->0
        &&& (a.timestamp is None && b.timestamp is None) ==> (a.spec_weight() > b.spec_weight()
            || (a.spec_weight() == b.spec_weight() && !lex_less(b.label@, a.label@)))
    } by {
        assert(feed_rank(s[i], s[j]) <= 0);
        crate::text::lemma_lex_total(s[i].label@, s[j].label@);
    }
}

/// The fleet column's order over ship types, names and flags: carriers
/// before other ships; among carriers US ones first, then by name; other
/// ships by type and, of one type, by name.
pub open spec fn fleet_ordered(s: Seq<Warship>) -> bool {
    forall|i: int, j: int|
        0 <= i < j < s.len() ==> {
            let a = #[trigger] s[i];
            let b = #[trigger] s[j];
            &&& is_carrier(b) ==> is_carrier(a)
            &&& (is_carrier(a) && is_carrier(b) && is_us(b)) ==> is_us(a)
            &&& (is_carrier(a) && is_carrier(b) && is_us(a) == is_us(b)) ==> !lex_less(
                b.name@,
                a.name@,
            )
            &&& (!is_carrier(a) && !is_carrier(b)) ==> !lex_less(b.ship_type@, a.ship_type@)
            &&& (!is_carrier(a) && !is_carrier(b) && a.ship_type@ == b.ship_type@) ==> !lex_less(
                b.name@,
                a.name@,
            )
        }
}

/// A fleet list in fleet order puts carriers first, US carriers before the
/// others and carriers by name, and other ships by type and then by name.
pub proof fn fleet_order_is_carriers_then_type_then_name(s: Seq<Warship>)
    requires
        in_rank_order(s),
    ensures
        fleet_ordered(s),
{
    assert forall|i: int, j: int| 0 <= i < j < s.len() implies {
        let a = #[trigger] s[i];
        let b = #[trigger] s[j];
        &&& is_carrier(b) ==> is_carrier(a)
        &&& (is_carrier(a) && is_carrier(b) && is_us(b)) ==> is_us(a)
        &&& (is_carrier(a) && is_carrier(b) && is_us(a) == is_us(b)) ==> !lex_less(
            b.name@,
            a.name@,
        )
        &&& (!is_carrier(a) && !is_carrier(b)) ==> !lex_less(b.ship_type@, a.ship_type@)
        &&& (!is_carrier(a) && !is_carrier(b) && a.ship_type@ == b.ship_type@) ==> !lex_less(
            b.name@,
            a.name@,
        )
    } by {
        assert(fleet_rank(s[i], s[j]) <= 0);
        crate::text::lemma_lex_total(s[i].name@, s[j].name@);
        crate::text::lemma_lex_total(s[i].ship_type@, s[j].ship_type@);
    }
}

/// In feed order, among incidents without a timestamp, the more severe
/// comes first: an undated incident is never followed by a more severe
/// undated one.
pub proof fn undated_incidents_most_severe_first(s: Seq<MapObject>)
    requires
        in_rank_order(s),
    ensures
        forall|i: int, j: int|
            0 <= i < j < s.len() && (#[trigger] s[i]).kind == crate::model::ObjectKind::Incident
                && (#[trigger] s[j]).kind == crate::model::ObjectKind::Incident
                && s[i].timestamp is None && s[j].timestamp is None && s[i].severity is Some
                && s[j].severity is Some ==> s[i].severity->0.spec_index()
                >= s[j].severity->0.spec_index(),
{
    assert forall|i: int, j: int|
        0 <= i < j < s.len() && (#[trigger] s[i]).kind == crate::model::ObjectKind::Incident
            && (#[trigger] s[j]).kind == crate::model::ObjectKind::Incident
            && s[i].timestamp is None && s[j].timestamp is None && s[i].severity is Some
            && s[j].severity is Some implies s[i].severity->0.spec_index()
        >= s[j].severity->0.spec_index() by {
        assert(feed_rank(s[i], s[j]) <= 0);
        crate::model::weight_grows_with_severity(s[i], s[j]);
        crate::model::weight_grows_with_severity(s[j], s[i]);
    }
}

/// With no panel open, the digit keys 1 to 4 each flip one severity switch:
/// key `d` flips switch `d - 1` (low, medium, high, critical) and no other,
/// and the status line names that severity and its new state.
pub proof fn digit_keys_flip_their_severity(pre: App, post: App, key: KeyPress, effect: Effect, d: char)
    requires
        key_step(pre, post, key, effect),
        !pre.layer_panel_open,
        !pre.is_searching,
        key.code == KeyCode::Char(d),
        '1' <= d <= '4',
    ensures
        ({
            let k = (d as int) - ('1' as int);
            &&& post.severity_filter@[k] == !pre.severity_filter@[k]
            &&& forall|j: int| 0 <= j < 4 && j != k ==> post.severity_filter@[j]
                == pre.severity_filter@[j]
            &&& post.status@ == seq!["low"@, "medium"@, "high"@, "critical"@][k] + ": "@ + (if post.severity_filter@[k] {
                "on"@
            } else {
                "off"@
            })
        }),
        effect is Nothing,
{
    let k = (d as int) - ('1' as int);
    assert(0 <= k < 4);
}

/// With no panel open, `j`, `n` and Down move the focused pane's selection
/// one item forward (from the last item to the first), and `k`, `p` and Up
/// one item back (from the first to the last); an empty pane keeps it.
pub proof fn step_keys_move_the_selection(pre: App, post: App, key: KeyPress, effect: Effect)
    requires
        key_step(pre, post, key, effect),
        !pre.layer_panel_open,
        !pre.is_searching,
        !key.control,
        key.code == KeyCode::Char('j') || key.code == KeyCode::Char('n') || key.code
            == KeyCode::Down || key.code == KeyCode::Char('k') || key.code == KeyCode::Char('p')
            || key.code == KeyCode::Up,
    ensures
        ({
            let forward = key.code == KeyCode::Char('j') || key.code == KeyCode::Char('n')
                || key.code == KeyCode::Down;
            let total = pre.selection_spec().1 as int;
            let idx = if pre.focus == PaneFocus::Feed {
                pre.selected_idx as int
            } else if pre.focus == PaneFocus::Warships {
                pre.selected_idx_warships as int
            } else {
                pre.selected_idx_leaders as int
            };
            let now = if post.focus == PaneFocus::Feed {
                post.selected_idx as int
            } else if post.focus == PaneFocus::Warships {
                post.selected_idx_warships as int
            } else {
                post.selected_idx_leaders as int
            };
            &&& post.focus == pre.focus
            &&& (total > 0 && forward) ==> now == (idx + 1) % total
            &&& (total > 0 && !forward && idx == 0) ==> now == total - 1
            &&& (total > 0 && !forward && idx > 0) ==> now == idx - 1
            &&& total == 0 ==> now == idx
        }),
        effect is Nothing,
{
}

/// The columns stand feed, warships, leaders from left to right: with no
/// panel open, `l` and Tab move the focus one column right (from the last
/// to the first), `h`, BackTab and Shift-Tab one column left.
pub proof fn focus_keys_walk_the_columns(pre: App, post: App, key: KeyPress, effect: Effect)
    requires
        key_step(pre, post, key, effect),
        !pre.layer_panel_open,
        !pre.is_searching,
        !key.control,
        key.code == KeyCode::Char('l') || key.code == KeyCode::Tab || key.code == KeyCode::Char(
            'h',
        ) || key.code == KeyCode::BackTab,
    ensures
        ({
            let right = key.code == KeyCode::Char('l') || (key.code == KeyCode::Tab
                && !key.shift);
            &&& right ==> post.focus == (if pre.focus == PaneFocus::Feed {
                PaneFocus::Warships
            } else if pre.focus == PaneFocus::Warships {
                PaneFocus::Leaders
            } else {
                PaneFocus::Feed
            })
            &&& !right ==> post.focus == (if pre.focus == PaneFocus::Feed {
                PaneFocus::Leaders
            } else if pre.focus == PaneFocus::Warships {
                PaneFocus::Feed
            } else {
                PaneFocus::Warships
            })
            &&& post.status@ == "focus: "@ + (if post.focus == PaneFocus::Feed {
                "feed"@
            } else if post.focus == PaneFocus::Warships {
                "warships"@
            } else {
                "leaders"@
            })
        }),
        effect is Nothing,
{
}

/// While the layer panel is open: Esc and `t` close it; Up and `k` move
/// the cursor up and Down and `j` down, staying on a layer; Space and Enter
/// flip the layer under the cursor and no other; `a` turns every layer off
/// when all are on and every layer on otherwise; `d` puts each layer back
/// to its default. No key there changes the data.
pub proof fn layer_panel_keys_do_what_they_say(pre: App, post: App, key: KeyPress, effect: Effect)
    requires
        key_step(pre, post, key, effect),
        pre.layer_panel_open,
        !key.control,
    ensures
        effect is Nothing,
        post.snapshot == pre.snapshot,
        (key.code == KeyCode::Esc || key.code == KeyCode::Char('t')) ==> !post.layer_panel_open,
        (key.code == KeyCode::Up || key.code == KeyCode::Char('k')) ==> post.layer_cursor == (if pre.layer_cursor > 0 {
            pre.layer_cursor - 1
        } else {
            0
        }),
        (key.code == KeyCode::Down || key.code == KeyCode::Char('j')) ==> post.layer_cursor == (
        if pre.layer_cursor + 1 < pre.layers@.len() {
            pre.layer_cursor + 1
        } else {
            pre.layer_cursor as int
        }),
        (key.code == KeyCode::Char(' ') || key.code == KeyCode::Enter) && pre.layer_cursor
            < pre.layers@.len() ==> {
            &&& post.layers@.len() == pre.layers@.len()
            &&& forall|i: int|
                0 <= i < pre.layers@.len() ==> #[trigger] post.layers@[i].visible == (if i
                    == pre.layer_cursor {
                    !pre.layers@[i].visible
                } else {
                    pre.layers@[i].visible
                })
        },
        key.code == KeyCode::Char('a') ==> {
            &&& post.layers@.len() == pre.layers@.len()
            &&& forall|i: int|
                0 <= i < pre.layers@.len() ==> #[trigger] post.layers@[i].visible == !(forall|
                    j: int,
                | 0 <= j < pre.layers@.len() ==> #[trigger] pre.layers@[j].visible)
        },
        key.code == KeyCode::Char('d') ==> {
            &&& post.layers@.len() == pre.layers@.len()
            &&& forall|i: int|
                0 <= i < pre.layers@.len() ==> #[trigger] post.layers@[i].visible
                    == pre.layers@[i].default_visible
        },
{
    let n = pre.layers@.len();
    if key.code == KeyCode::Char(' ') || key.code == KeyCode::Enter || key.code
        == KeyCode::Char('a') || key.code == KeyCode::Char('d') {
        assert forall|i: int| 0 <= i < n implies post.layers@[i].id == pre.layers@[i].id by {}
    }
}

/// While typing a search query: a character is added to the end of the
/// query, Backspace takes the last one off, Esc leaves the search, and
/// Enter with a query shows the results.
pub proof fn search_typing_edits_the_query(pre: App, post: App, key: KeyPress, effect: Effect)
    requires
        key_step(pre, post, key, effect),
        !pre.layer_panel_open,
        pre.is_searching,
        pre.search_mode == SearchMode::Input,
        !key.control,
    ensures
        effect is Nothing,
        key.code matches KeyCode::Char(ch) ==> post.search_query@ == pre.search_query@ + seq![ch],
        key.code == KeyCode::Backspace && pre.search_query@.len() > 0 ==> post.search_query@
            == pre.search_query@.subrange(0, pre.search_query@.len() - 1),
        key.code == KeyCode::Esc ==> !post.is_searching,
        key.code == KeyCode::Enter && pre.search_query@.len() > 0 ==> post.search_mode
            == SearchMode::Results,
{
    if key.code is Char {
        assert(pre.search_query@.push(key.code->0) =~= pre.search_query@ + seq![key.code->0]);
    }
}

/// Keys never leave the feed list out of date without saying so: when it
/// agreed with the snapshot, the layers and the severity switches before a
/// key, it agrees after it.
pub proof fn keys_keep_the_feed_list_current(pre: App, post: App, key: KeyPress, effect: Effect)
    requires
        key_step(pre, post, key, effect),
        pre.feed_list_agrees(),
    ensures
        post.feed_list_agrees(),
{
    if !(key.code == KeyCode::Char('c') && key.control) && !pre.layer_panel_open
        && pre.is_searching && pre.search_mode == SearchMode::Results && key.code
        == KeyCode::Enter {
        let mid = choose|mid: App|
            {
                &&& (if pre.search_selected_idx < pre.search_results@.len() {
                    activated(pre, mid)
                } else {
                    mid == pre
                })
                &&& #[trigger] detail_toggled(mid, post, effect)
            };
        assert(mid.feed_list_agrees());
    }
}

/// Keys never change the data: after any key the snapshot is the one
/// before it.
pub proof fn keys_keep_the_snapshot(pre: App, post: App, key: KeyPress, effect: Effect)
    requires
        key_step(pre, post, key, effect),
    ensures
        post.snapshot == pre.snapshot,
{
    if !(key.code == KeyCode::Char('c') && key.control) && !pre.layer_panel_open
        && pre.is_searching && pre.search_mode == SearchMode::Results && key.code
        == KeyCode::Enter {
        let mid = choose|mid: App|
            {
                &&& (if pre.search_selected_idx < pre.search_results@.len() {
                    activated(pre, mid)
                } else {
                    mid == pre
                })
                &&& #[trigger] detail_toggled(mid, post, effect)
            };
        assert(mid.snapshot == pre.snapshot);
    }
}

/// Only two keys quit: Control-C anywhere, and `q` when no panel is open.
pub proof fn only_quit_keys_quit(pre: App, post: App, key: KeyPress, effect: Effect)
    requires
        key_step(pre, post, key, effect),
        !pre.quit,
        post.quit,
    ensures
        (key.code == KeyCode::Char('c') && key.control) || (key.code == KeyCode::Char('q')
            && !pre.layer_panel_open && !pre.is_searching),
{
    if !(key.code == KeyCode::Char('c') && key.control) && !pre.layer_panel_open
        && pre.is_searching && pre.search_mode == SearchMode::Results && key.code
        == KeyCode::Enter {
        let mid = choose|mid: App|
            {
                &&& (if pre.search_selected_idx < pre.search_results@.len() {
                    activated(pre, mid)
                } else {
                    mid == pre
                })
                &&& #[trigger] detail_toggled(mid, post, effect)
            };
        assert(mid.quit == pre.quit);
    }
}

/// After clamping, every pane's selection lies within its list when the
/// list is not empty.
pub proof fn clamped_selections_are_in_range(pre: App, post: App)
    requires
        post.selected_idx == clamped(pre.selected_idx, pre.visible_list().len() as int),
        post.selected_idx_warships == clamped(
            pre.selected_idx_warships,
            pre.warships_spec().len() as int,
        ),
        post.selected_idx_leaders == clamped(
            pre.selected_idx_leaders,
            pre.leaders_spec().len() as int,
        ),
    ensures
        pre.visible_list().len() > 0 ==> post.selected_idx < pre.visible_list().len(),
        pre.warships_spec().len() > 0 ==> post.selected_idx_warships < pre.warships_spec().len(),
        pre.leaders_spec().len() > 0 ==> post.selected_idx_leaders < pre.leaders_spec().len(),
        pre.selected_idx < pre.visible_list().len() ==> post.selected_idx == pre.selected_idx,
{
}


/// Whether a search hit points at an item that matches the query.
pub open spec fn hit_matches(
    hit: SearchResult,
    objs: Seq<MapObject>,
    ws: Seq<Warship>,
    ls: Seq<WorldLeader>,
    q: Seq<char>,
) -> bool {
    match hit {
        SearchResult::Feed(k) => k < objs.len() && objs[k as int].spec_matches_search(q),
        SearchResult::Warship(k) => k < ws.len() && ws[k as int].spec_matches_search(q),
        SearchResult::Leader(k) => k < ls.len() && ls[k as int].spec_matches_search(q),
    }
}

proof fn lemma_feed_hits(objs: Seq<MapObject>, q: Seq<char>, n: int)
    requires
        0 <= n <= objs.len(),
        objs.len() <= usize::MAX,
    ensures
        forall|i: int|
            0 <= i < feed_hits(objs, q, n).len() ==> (#[trigger] feed_hits(objs, q, n)[i] matches SearchResult::Feed(k)
                && k < n && objs[k as int].spec_matches_search(q)),
        forall|k: int|
            0 <= k < n && #[trigger] objs[k].spec_matches_search(q) ==> feed_hits(
                objs,
                q,
                n,
            ).contains(SearchResult::Feed(k as usize)),
    decreases n,
{
    if n > 0 {
        lemma_feed_hits(objs, q, n - 1);
        let prev = feed_hits(objs, q, n - 1);
        if objs[n - 1].spec_matches_search(q) {
            assert(feed_hits(objs, q, n)[prev.len() as int] == SearchResult::Feed((n - 1) as usize));
            assert forall|k: int| 0 <= k < n && #[trigger] objs[k].spec_matches_search(q) implies feed_hits(
                objs,
                q,
                n,
            ).contains(SearchResult::Feed(k as usize)) by {
                if k < n - 1 {
                    let j = choose|j: int| 0 <= j < prev.len() && prev[j] == SearchResult::Feed(k as usize);
                    assert(feed_hits(objs, q, n)[j] == SearchResult::Feed(k as usize));
                }
            }
        }
    }
}

proof fn lemma_warship_hits(ws: Seq<Warship>, q: Seq<char>, n: int)
    requires
        0 <= n <= ws.len(),
        ws.len() <= usize::MAX,
    ensures
        forall|i: int|
            0 <= i < warship_hits(ws, q, n).len() ==> (#[trigger] warship_hits(ws, q, n)[i] matches SearchResult::Warship(k)
                && k < n && ws[k as int].spec_matches_search(q)),
        forall|k: int|
            0 <= k < n && #[trigger] ws[k].spec_matches_search(q) ==> warship_hits(
                ws,
                q,
                n,
            ).contains(SearchResult::Warship(k as usize)),
    decreases n,
{
    if n > 0 {
        lemma_warship_hits(ws, q, n - 1);
        let prev = warship_hits(ws, q, n - 1);
        if ws[n - 1].spec_matches_search(q) {
            assert(warship_hits(ws, q, n)[prev.len() as int] == SearchResult::Warship((n - 1) as usize));
            assert forall|k: int| 0 <= k < n && #[trigger] ws[k].spec_matches_search(q) implies warship_hits(
                ws,
                q,
                n,
            ).contains(SearchResult::Warship(k as usize)) by {
                if k < n - 1 {
                    let j = choose|j: int| 0 <= j < prev.len() && prev[j] == SearchResult::Warship(k as usize);
                    assert(warship_hits(ws, q, n)[j] == SearchResult::Warship(k as usize));
                }
            }
        }
    }
}

proof fn lemma_leader_hits(ls: Seq<WorldLeader>, q: Seq<char>, n: int)
    requires
        0 <= n <= ls.len(),
        ls.len() <= usize::MAX,
    ensures
        forall|i: int|
            0 <= i < leader_hits(ls, q, n).len() ==> (#[trigger] leader_hits(ls, q, n)[i] matches SearchResult::Leader(k)
                && k < n && ls[k as int].spec_matches_search(q)),
        forall|k: int|
            0 <= k < n && #[trigger] ls[k].spec_matches_search(q) ==> leader_hits(
                ls,
                q,
                n,
            ).contains(SearchResult::Leader(k as usize)),
    decreases n,
{
    if n > 0 {
        lemma_leader_hits(ls, q, n - 1);
        let prev = leader_hits(ls, q, n - 1);
        if ls[n - 1].spec_matches_search(q) {
            assert(leader_hits(ls, q, n)[prev.len() as int] == SearchResult::Leader((n - 1) as usize));
            assert forall|k: int| 0 <= k < n && #[trigger] ls[k].spec_matches_search(q) implies leader_hits(
                ls,
                q,
                n,
            ).contains(SearchResult::Leader(k as usize)) by {
                if k < n - 1 {
                    let j = choose|j: int| 0 <= j < prev.len() && prev[j] == SearchResult::Leader(k as usize);
                    assert(leader_hits(ls, q, n)[j] == SearchResult::Leader(k as usize));
                }
            }
        }
    }
}

/// The search finds exactly what matches: every hit points at a matching
/// feed object, ship or leader, and for a non-empty query every matching
/// one is among the hits; an empty query finds nothing.
pub proof fn search_finds_exactly_the_matches(
    objs: Seq<MapObject>,
    ws: Seq<Warship>,
    ls: Seq<WorldLeader>,
    q: Seq<char>,
)
    requires
        objs.len() <= usize::MAX,
        ws.len() <= usize::MAX,
        ls.len() <= usize::MAX,
    ensures
        forall|i: int|
            0 <= i < search_hits(objs, ws, ls, q).len() ==> hit_matches(
                #[trigger] search_hits(objs, ws, ls, q)[i],
                objs,
                ws,
                ls,
                q,
            ),
        q.len() > 0 ==> forall|k: int|
            0 <= k < objs.len() && #[trigger] objs[k].spec_matches_search(q) ==> search_hits(
                objs,
                ws,
                ls,
                q,
            ).contains(SearchResult::Feed(k as usize)),
        q.len() > 0 ==> forall|k: int|
            0 <= k < ws.len() && #[trigger] ws[k].spec_matches_search(q) ==> search_hits(
                objs,
                ws,
                ls,
                q,
            ).contains(SearchResult::Warship(k as usize)),
        q.len() > 0 ==> forall|k: int|
            0 <= k < ls.len() && #[trigger] ls[k].spec_matches_search(q) ==> search_hits(
                objs,
                ws,
                ls,
                q,
            ).contains(SearchResult::Leader(k as usize)),
        q.len() == 0 ==> search_hits(objs, ws, ls, q).len() == 0,
{
    if q.len() > 0 {
        let a = feed_hits(objs, q, objs.len() as int);
        let b = warship_hits(ws, q, ws.len() as int);
        let c = leader_hits(ls, q, ls.len() as int);
        lemma_feed_hits(objs, q, objs.len() as int);
        lemma_warship_hits(ws, q, ws.len() as int);
        lemma_leader_hits(ls, q, ls.len() as int);
        let all = search_hits(objs, ws, ls, q);
        assert(all == a + b + c);
        assert forall|i: int| 0 <= i < all.len() implies hit_matches(
            #[trigger] all[i],
            objs,
            ws,
            ls,
            q,
        ) by {
            if i < a.len() {
                assert(all[i] == a[i]);
            } else if i < a.len() + b.len() {
                assert(all[i] == b[i - a.len()]);
            } else {
                assert(all[i] == c[i - a.len() - b.len()]);
            }
        }
        assert forall|k: int| 0 <= k < objs.len() && #[trigger] objs[k].spec_matches_search(
            q,
        ) implies all.contains(SearchResult::Feed(k as usize)) by {
            let j = choose|j: int| 0 <= j < a.len() && a[j] == SearchResult::Feed(k as usize);
            assert(all[j] == a[j]);
        }
        assert forall|k: int| 0 <= k < ws.len() && #[trigger] ws[k].spec_matches_search(
            q,
        ) implies all.contains(SearchResult::Warship(k as usize)) by {
            let j = choose|j: int| 0 <= j < b.len() && b[j] == SearchResult::Warship(k as usize);
            assert(all[a.len() + j] == b[j]);
        }
        assert forall|k: int| 0 <= k < ls.len() && #[trigger] ls[k].spec_matches_search(
            q,
        ) implies all.contains(SearchResult::Leader(k as usize)) by {
            let j = choose|j: int| 0 <= j < c.len() && c[j] == SearchResult::Leader(k as usize);
            assert(all[a.len() + b.len() + j] == c[j]);
        }
    }
}


proof fn lemma_shown_incidents(events: Seq<MapObject>, filter: Seq<bool>)
    ensures
        forall|i: int|
            0 <= i < shown_incidents(events, filter).len() ==> events.contains(
                #[trigger] shown_incidents(events, filter)[i],
            ) && severity_passes(filter, shown_incidents(events, filter)[i].severity),
        forall|j: int|
            0 <= j < events.len() && severity_passes(filter, #[trigger] events[j].severity)
                ==> shown_incidents(events, filter).contains(events[j]),
    decreases events.len(),
{
    if events.len() > 0 {
        let init = events.drop_last();
        lemma_shown_incidents(init, filter);
        let prev = shown_incidents(init, filter);
        let cur = shown_incidents(events, filter);
        assert forall|i: int| 0 <= i < cur.len() implies events.contains(#[trigger] cur[i])
            && severity_passes(filter, cur[i].severity) by {
            if i < prev.len() {
                assert(cur[i] == prev[i]);
                let j = choose|j: int| 0 <= j < init.len() && init[j] == prev[i];
                assert(events[j] == init[j]);
            } else {
                assert(cur[i] == events.last());
                assert(events[events.len() - 1] == events.last());
            }
        }
        assert forall|j: int|
            0 <= j < events.len() && severity_passes(
                filter,
                #[trigger] events[j].severity,
            ) implies cur.contains(events[j]) by {
            if j < events.len() - 1 {
                assert(init[j] == events[j]);
                let k = choose|k: int| 0 <= k < prev.len() && prev[k] == init[j];
                assert(cur[k] == prev[k]);
            } else {
                assert(cur[prev.len() as int] == events[j]);
            }
        }
    }
}

/// The feed is made of the events whose severity is switched on (when the
/// incident layer is on) and the aircraft (when the ship layer is on):
/// each candidate is one of these, and each of these is a candidate.
pub proof fn feed_shows_exactly_what_is_switched_on(
    snapshot: Snapshot,
    layers: Seq<LayerState>,
    filter: Seq<bool>,
)
    ensures
        forall|i: int|
            0 <= i < feed_candidates(snapshot, layers, filter).len() ==> {
                let x = #[trigger] feed_candidates(snapshot, layers, filter)[i];
                ||| (layer_shown(layers, LayerId::Incidents) && snapshot.events@.contains(x)
                    && severity_passes(filter, x.severity))
                ||| (layer_shown(layers, LayerId::Ships) && snapshot.aircraft@.contains(x))
            },
        forall|j: int|
            0 <= j < snapshot.events@.len() && layer_shown(layers, LayerId::Incidents)
                && severity_passes(filter, #[trigger] snapshot.events@[j].severity)
                ==> feed_candidates(snapshot, layers, filter).contains(snapshot.events@[j]),
        forall|j: int|
            0 <= j < snapshot.aircraft@.len() && layer_shown(layers, LayerId::Ships)
                ==> feed_candidates(snapshot, layers, filter).contains(
                #[trigger] snapshot.aircraft@[j],
            ),
{
    let ev = snapshot.events@;
    let ac = snapshot.aircraft@;
    lemma_shown_incidents(ev, filter);
    let a = if layer_shown(layers, LayerId::Incidents) {
        shown_incidents(ev, filter)
    } else {
        seq![]
    };
    let b = if layer_shown(layers, LayerId::Ships) {
        ac
    } else {
        seq![]
    };
    let all = feed_candidates(snapshot, layers, filter);
    assert(all == a + b);
    assert forall|i: int| 0 <= i < all.len() implies {
        let x = #[trigger] all[i];
        ||| (layer_shown(layers, LayerId::Incidents) && ev.contains(x) && severity_passes(
            filter,
            x.severity,
        ))
        ||| (layer_shown(layers, LayerId::Ships) && ac.contains(x))
    } by {
        if i < a.len() {
            assert(all[i] == a[i]);
        } else {
            assert(all[i] == b[i - a.len()]);
        }
    }
    assert forall|j: int|
        0 <= j < ev.len() && layer_shown(layers, LayerId::Incidents) && severity_passes(
            filter,
            #[trigger] ev[j].severity,
        ) implies all.contains(ev[j]) by {
        let k = choose|k: int| 0 <= k < a.len() && a[k] == ev[j];
        assert(all[k] == a[k]);
    }
    assert forall|j: int| 0 <= j < ac.len() && layer_shown(layers, LayerId::Ships) implies all.contains(
        #[trigger] ac[j],
    ) by {
        assert(all[a.len() + j] == ac[j]);
    }
}

/// Milliseconds from a fetched snapshot to the next periodic fetch.
pub const REFRESH_EVERY_MS: u64 = 30000;

/// Milliseconds from a failed periodic fetch to the next try.
pub const RETRY_AFTER_MS: u64 = 15000;

/// When the next periodic snapshot fetch is due, on a clock that counts
/// milliseconds and never goes back.
#[derive(Debug, Clone, Copy, PartialEq, Eq)]
pub struct RefreshSchedule {
    pub next_refresh_ms: u64,
}

impl RefreshSchedule {
    /// The schedule at start: the first periodic fetch falls a full
    /// interval after `now_ms`.
    pub fn new(now_ms: u64) -> (r: Self)
        requires
            now_ms <= u64::MAX - REFRESH_EVERY_MS,
        ensures
            r.next_refresh_ms == now_ms + REFRESH_EVERY_MS,
    {
        RefreshSchedule { next_refresh_ms: now_ms + REFRESH_EVERY_MS }
    }

    /// Whether the periodic fetch is due at `now_ms`: never before the due
    /// time, always from it on.
    pub fn is_due(&self, now_ms: u64) -> (r: bool)
        ensures
            r == (now_ms >= self.next_refresh_ms),
    {
        now_ms >= self.next_refresh_ms
    }

    /// The schedule after a fetch made at `now_ms`: the next periodic fetch
    /// falls 30 s later when a snapshot came back, 15 s later when the
    /// fetch failed.
    pub fn after_fetch(&mut self, now_ms: u64, succeeded: bool)
        requires
            now_ms <= u64::MAX - REFRESH_EVERY_MS,
        ensures
            final(self).next_refresh_ms == now_ms + (if succeeded {
                REFRESH_EVERY_MS
            } else {
                RETRY_AFTER_MS
            }),
    {
        self.next_refresh_ms = if succeeded {
            now_ms + REFRESH_EVERY_MS
        } else {
            now_ms + RETRY_AFTER_MS
        };
    }
}

} // verus!
