//! The route list of the API tester: routes grouped by group name, group
//! headers that expand and collapse, keyboard navigation that wraps around,
//! and the remembered expansion and selection.

use vstd::prelude::*;
use crate::api_messages::{is_jump_to_end, is_plain_g, jump_to_end, plain_g, Key, KeyEvent, RouteListMsg, no_modifiers};
use crate::collection::{method_label, Route, RouteView};
use crate::route_list_state::{selection_group, RouteListState, RouteSelection, SelectedItem};
use crate::text::{str_is_blank, string_chars};

verus! {

/// What a row of the list shows.
#[derive(Debug, Clone, Copy, PartialEq, Eq, Structural)]
pub enum RowKind {
    /// The header of the group with this index.
    GroupHeader(usize),
    /// The route with this index.
    Route(usize),
    /// The blank line between groups.
    Spacer,
    /// The hint shown when there is no route.
    EmptyState,
}

/// Whether a row can be selected: group headers and routes can.
pub open spec fn selectable(k: RowKind) -> bool {
    k is GroupHeader || k is Route
}

impl RowKind {
    /// Whether the row can be selected.
    pub fn is_selectable(&self) -> (b: bool)
        ensures
            b == selectable(*self),
    {
        match self {
            RowKind::GroupHeader(_) | RowKind::Route(_) => true,
            _ => false,
        }
    }
}

/// A group of routes.
#[derive(Debug)]
pub struct RouteGroup {
    /// The group's name.
    pub name: String,
    /// Indexes of its routes, in list order.
    pub route_indexes: Vec<usize>,
    /// Whether its routes are shown.
    pub expanded: bool,
}

/// The row to select after the list is rebuilt.
#[derive(Debug, Clone, Copy, PartialEq, Eq, Structural)]
pub enum SelectionTarget {
    GroupHeader(usize),
    Route(usize),
}

// ---------------------------------------------------------------------------
// Searching rows
// ---------------------------------------------------------------------------

/// Which rows a search looks for.
#[derive(Debug, Clone, Copy, PartialEq, Eq, Structural)]
pub enum RowFilter {
    /// Selectable rows.
    Selectable,
    /// Group headers.
    Header,
}

/// Whether a row passes a filter.
pub open spec fn passes(f: RowFilter, k: RowKind) -> bool {
    match f {
        RowFilter::Selectable => selectable(k),
        RowFilter::Header => k is GroupHeader,
    }
}

/// The first row at or after `i` that passes the filter.
pub open spec fn first_from(kinds: Seq<RowKind>, f: RowFilter, i: int) -> Option<int>
    decreases kinds.len() - i,
{
    if i < 0 || i >= kinds.len() {
        None
    } else if passes(f, kinds[i]) {
        Some(i)
    } else {
        first_from(kinds, f, i + 1)
    }
}

/// The last row before `i` that passes the filter.
pub open spec fn last_before(kinds: Seq<RowKind>, f: RowFilter, i: int) -> Option<int>
    decreases i,
{
    if i <= 0 || i > kinds.len() {
        None
    } else if passes(f, kinds[i - 1]) {
        Some(i - 1)
    } else {
        last_before(kinds, f, i - 1)
    }
}

/// The row a downward move lands on: the next passing row, wrapping to the
/// first one; the selection stays when no row passes.
pub open spec fn move_down(kinds: Seq<RowKind>, f: RowFilter, cur: int) -> int {
    match first_from(kinds, f, cur + 1) {
        Some(n) => n,
        None => match first_from(kinds, f, 0) {
            Some(n) => n,
            None => cur,
        },
    }
}

/// The row an upward move lands on: the previous passing row, wrapping to
/// the last one; the selection stays when no row passes.
pub open spec fn move_up(kinds: Seq<RowKind>, f: RowFilter, cur: int) -> int {
    match last_before(kinds, f, if cur <= kinds.len() { cur } else { kinds.len() as int }) {
        Some(p) => p,
        None => match last_before(kinds, f, kinds.len() as int) {
            Some(p) => p,
            None => cur,
        },
    }
}

proof fn lemma_first_from(kinds: Seq<RowKind>, f: RowFilter, i: int)
    requires
        i >= 0,
    ensures
        match first_from(kinds, f, i) {
            Some(n) => i <= n < kinds.len() && passes(f, kinds[n]) && forall|k: int|
                i <= k < n ==> !passes(f, #[trigger] kinds[k]),
            None => forall|k: int| i <= k < kinds.len() ==> !passes(f, #[trigger] kinds[k]),
        },
    decreases kinds.len() - i,
{
    if i < kinds.len() && !passes(f, kinds[i]) {
        lemma_first_from(kinds, f, i + 1);
    }
}

proof fn lemma_last_before(kinds: Seq<RowKind>, f: RowFilter, i: int)
    requires
        0 <= i <= kinds.len(),
    ensures
        match last_before(kinds, f, i) {
            Some(p) => 0 <= p < i && passes(f, kinds[p]) && forall|k: int|
                p < k < i ==> !passes(f, #[trigger] kinds[k]),
            None => forall|k: int| 0 <= k < i ==> !passes(f, #[trigger] kinds[k]),
        },
    decreases i,
{
    if i > 0 && !passes(f, kinds[i - 1]) {
        lemma_last_before(kinds, f, i - 1);
    }
}

fn passes_exec(f: RowFilter, k: &RowKind) -> (b: bool)
    ensures
        b == passes(f, *k),
{
    match f {
        RowFilter::Selectable => k.is_selectable(),
        RowFilter::Header => match k {
            RowKind::GroupHeader(_) => true,
            _ => false,
        },
    }
}

fn first_from_exec(kinds: &Vec<RowKind>, f: RowFilter, i: usize) -> (r: Option<usize>)
    ensures
        match r {
            Some(n) => first_from(kinds@, f, i as int) == Some(n as int),
            None => first_from(kinds@, f, i as int) is None,
        },
{
    let mut j = i;
    while j < kinds.len()
        invariant
            i <= j,
            first_from(kinds@, f, i as int) == first_from(kinds@, f, j as int),
        decreases kinds.len() - j,
    {
        if passes_exec(f, &kinds[j]) {
            return Some(j);
        }
        j += 1;
    }
    None
}

fn last_before_exec(kinds: &Vec<RowKind>, f: RowFilter, i: usize) -> (r: Option<usize>)
    requires
        i <= kinds.len(),
    ensures
        match r {
            Some(p) => last_before(kinds@, f, i as int) == Some(p as int),
            None => last_before(kinds@, f, i as int) is None,
        },
{
    let mut j = i;
    while j > 0
        invariant
            j <= i <= kinds.len(),
            last_before(kinds@, f, i as int) == last_before(kinds@, f, j as int),
        decreases j,
    {
        if passes_exec(f, &kinds[j - 1]) {
            return Some(j - 1);
        }
        j -= 1;
    }
    None
}

fn move_down_exec(kinds: &Vec<RowKind>, f: RowFilter, cur: usize) -> (r: usize)
    ensures
        r == move_down(kinds@, f, cur as int),
{
    let next = if cur < usize::MAX {
        first_from_exec(kinds, f, cur + 1)
    } else {
        let n = kinds.len();
        proof {
            assert(first_from(kinds@, f, cur + 1) is None);
        }
        None
    };
    match next {
        Some(n) => n,
        None => match first_from_exec(kinds, f, 0) {
            Some(n) => n,
            None => cur,
        },
    }
}

fn move_up_exec(kinds: &Vec<RowKind>, f: RowFilter, cur: usize) -> (r: usize)
    ensures
        r == move_up(kinds@, f, cur as int),
{
    let bound = if cur <= kinds.len() {
        cur
    } else {
        kinds.len()
    };
    match last_before_exec(kinds, f, bound) {
        Some(p) => p,
        None => match last_before_exec(kinds, f, kinds.len()) {
            Some(p) => p,
            None => cur,
        },
    }
}

// ---------------------------------------------------------------------------
// Rows
// ---------------------------------------------------------------------------

/// The abstract content of a group: name, route indexes, expanded.
pub open spec fn group_view(g: RouteGroup) -> (Seq<char>, Seq<usize>, bool) {
    (g.name@, g.route_indexes@, g.expanded)
}

/// The rows of one group: its header, its routes when expanded, and a
/// spacer unless it is the last group.
pub open spec fn group_rows(gi: int, g: (Seq<char>, Seq<usize>, bool), count: int) -> Seq<RowKind> {
    seq![RowKind::GroupHeader(gi as usize)] + (if g.2 {
        g.1.map_values(|ri: usize| RowKind::Route(ri))
    } else {
        seq![]
    }) + (if gi + 1 < count {
        seq![RowKind::Spacer]
    } else {
        seq![]
    })
}

/// The rows of the first `n` groups.
pub open spec fn rows_of_groups(gs: Seq<(Seq<char>, Seq<usize>, bool)>, n: int) -> Seq<RowKind>
    decreases n,
{
    if n <= 0 {
        seq![]
    } else {
        rows_of_groups(gs, n - 1) + group_rows(n - 1, gs[n - 1], gs.len() as int)
    }
}

/// The rows of the list: the empty-state hint when there is no route, else
/// the rows of every group in order.
pub open spec fn list_rows(route_count: int, gs: Seq<(Seq<char>, Seq<usize>, bool)>) -> Seq<RowKind> {
    if route_count == 0 {
        seq![RowKind::EmptyState]
    } else {
        rows_of_groups(gs, gs.len() as int)
    }
}

/// The row selected after a rebuild: the target's row if present, else
/// the first selectable row, else the first row.
pub open spec fn resolved_line(kinds: Seq<RowKind>, target: Option<SelectionTarget>) -> int {
    let fallback = match first_from(kinds, RowFilter::Selectable, 0) {
        Some(n) => n,
        None => 0,
    };
    match target {
        Some(SelectionTarget::GroupHeader(g)) => match index_of_row(kinds, RowKind::GroupHeader(g)) {
            Some(n) => n,
            None => fallback,
        },
        Some(SelectionTarget::Route(r)) => match index_of_row(kinds, RowKind::Route(r)) {
            Some(n) => n,
            None => fallback,
        },
        None => fallback,
    }
}

/// The first row equal to `k`.
pub open spec fn index_of_row(kinds: Seq<RowKind>, k: RowKind) -> Option<int> {
    index_of_row_from(kinds, k, 0)
}

/// The first row at or after `i` equal to `k`.
pub open spec fn index_of_row_from(kinds: Seq<RowKind>, k: RowKind, i: int) -> Option<int>
    decreases kinds.len() - i,
{
    if i < 0 || i >= kinds.len() {
        None
    } else if kinds[i] == k {
        Some(i)
    } else {
        index_of_row_from(kinds, k, i + 1)
    }
}

fn index_of_row_exec(kinds: &Vec<RowKind>, k: RowKind) -> (r: Option<usize>)
    ensures
        match r {
            Some(n) => index_of_row(kinds@, k) == Some(n as int),
            None => index_of_row(kinds@, k) is None,
        },
{
    let mut j: usize = 0;
    while j < kinds.len()
        invariant
            index_of_row(kinds@, k) == index_of_row_from(kinds@, k, j as int),
        decreases kinds.len() - j,
    {
        if kinds[j] == k {
            return Some(j);
        }
        j += 1;
    }
    None
}

proof fn lemma_index_of_row_from(kinds: Seq<RowKind>, k: RowKind, i: int)
    requires
        i >= 0,
    ensures
        index_of_row_from(kinds, k, i) matches Some(n) ==> i <= n < kinds.len() && kinds[n] == k,
    decreases kinds.len() - i,
{
    if i < kinds.len() && kinds[i] != k {
        lemma_index_of_row_from(kinds, k, i + 1);
    }
}

/// The row selected after a rebuild lies in the list, and is selectable
/// whenever some row is.
proof fn lemma_resolved_line(kinds: Seq<RowKind>, target: Option<SelectionTarget>)
    requires
        kinds.len() > 0,
    ensures
        0 <= resolved_line(kinds, target) < kinds.len(),
        (exists|i: int| 0 <= i < kinds.len() && selectable(#[trigger] kinds[i])) ==> selectable(
            kinds[resolved_line(kinds, target)],
        ),
{
    lemma_first_from(kinds, RowFilter::Selectable, 0);
    match target {
        Some(SelectionTarget::GroupHeader(g)) => lemma_index_of_row_from(kinds, RowKind::GroupHeader(g), 0),
        Some(SelectionTarget::Route(r)) => lemma_index_of_row_from(kinds, RowKind::Route(r), 0),
        None => {},
    }
    if exists|i: int| 0 <= i < kinds.len() && selectable(#[trigger] kinds[i]) {
        let w = choose|i: int| 0 <= i < kinds.len() && selectable(#[trigger] kinds[i]);
        assert(passes(RowFilter::Selectable, kinds[w]));
    }
}

/// A movement key lands on a row of the list, and keeps the selection on
/// a selectable row.
proof fn lemma_key_move(kinds: Seq<RowKind>, cur: int, k: KeyEvent)
    requires
        0 <= cur < kinds.len(),
    ensures
        key_move(kinds, cur, k) matches Some(m) ==> 0 <= m < kinds.len() && (selectable(kinds[cur])
            ==> selectable(kinds[m])),
        ({
            let home = match first_from(kinds, RowFilter::Selectable, 0) {
                Some(n) => n,
                None => cur,
            };
            0 <= home < kinds.len() && (selectable(kinds[cur]) ==> selectable(kinds[home]))
        }),
{
    lemma_first_from(kinds, RowFilter::Selectable, 0);
    lemma_last_before(kinds, RowFilter::Selectable, kinds.len() as int);
    lemma_first_from(kinds, RowFilter::Selectable, cur + 1);
    lemma_last_before(kinds, RowFilter::Selectable, cur);
    lemma_first_from(kinds, RowFilter::Header, 0);
    lemma_last_before(kinds, RowFilter::Header, kinds.len() as int);
    lemma_first_from(kinds, RowFilter::Header, cur + 1);
    lemma_last_before(kinds, RowFilter::Header, cur);
}

/// The first row of the rows of at least one group is the first group's
/// header.
proof fn lemma_rows_start(gs: Seq<(Seq<char>, Seq<usize>, bool)>, m: int)
    requires
        1 <= m <= gs.len(),
    ensures
        rows_of_groups(gs, m).len() > 0,
        rows_of_groups(gs, m)[0] == RowKind::GroupHeader(0),
    decreases m,
{
    if m > 1 {
        lemma_rows_start(gs, m - 1);
    } else {
        assert(rows_of_groups(gs, 0) =~= Seq::<RowKind>::empty());
    }
}

/// Every row of the groups' rows names a group and a route of the list.
proof fn lemma_rows_in_range(gs: Seq<(Seq<char>, Seq<usize>, bool)>, n: int, m: int)
    requires
        groups_fit(gs, n),
        0 <= m <= gs.len(),
    ensures
        forall|i: int|
            0 <= i < rows_of_groups(gs, m).len() ==> row_in_range(
                #[trigger] rows_of_groups(gs, m)[i],
                gs.len() as int,
                n,
            ),
    decreases m,
{
    if m > 0 {
        lemma_rows_in_range(gs, n, m - 1);
        let prev = rows_of_groups(gs, m - 1);
        let g = gs[m - 1];
        let routes_part: Seq<RowKind> = if g.2 {
            g.1.map_values(|ri: usize| RowKind::Route(ri))
        } else {
            seq![]
        };
        let tail: Seq<RowKind> = if m < gs.len() {
            seq![RowKind::Spacer]
        } else {
            seq![]
        };
        let rows = rows_of_groups(gs, m);
        assert(rows =~= prev + (seq![RowKind::GroupHeader((m - 1) as usize)] + routes_part + tail));
        assert forall|i: int| 0 <= i < rows.len() implies row_in_range(
            #[trigger] rows[i],
            gs.len() as int,
            n,
        ) by {
            if i < prev.len() {
                assert(rows[i] == prev[i]);
            } else if i == prev.len() {
                assert(rows[i] == RowKind::GroupHeader((m - 1) as usize));
            } else if i < prev.len() + 1 + routes_part.len() {
                let j = i - prev.len() - 1;
                assert(rows[i] == routes_part[j]);
                assert(g.2);
                assert(routes_part[j] == RowKind::Route(gs[m - 1].1[j]));
                assert(gs[m - 1].1[j] < n);
            } else {
                assert(rows[i] == RowKind::Spacer);
            }
        }
    }
}

/// The rows of a list whose groups fit: at least one, all naming listed
/// groups and routes, and starting with a group header when there are
/// routes.
proof fn lemma_list_rows(n: int, gs: Seq<(Seq<char>, Seq<usize>, bool)>)
    requires
        n >= 0,
        groups_fit(gs, n),
    ensures
        list_rows(n, gs).len() > 0,
        n > 0 ==> selectable(list_rows(n, gs)[0]),
        forall|i: int|
            0 <= i < list_rows(n, gs).len() ==> row_in_range(#[trigger] list_rows(n, gs)[i], gs.len() as int, n),
{
    if n > 0 {
        lemma_rows_start(gs, gs.len() as int);
        lemma_rows_in_range(gs, n, gs.len() as int);
    } else {
        assert(list_rows(n, gs) =~= seq![RowKind::EmptyState]);
    }
}

/// Groups with the same route indexes fit the same lists.
proof fn lemma_fit_same_indexes(
    gs: Seq<(Seq<char>, Seq<usize>, bool)>,
    hs: Seq<(Seq<char>, Seq<usize>, bool)>,
    n: int,
)
    requires
        groups_fit(gs, n),
        hs.len() == gs.len(),
        forall|i: int| 0 <= i < gs.len() ==> (#[trigger] hs[i]).1 == gs[i].1,
    ensures
        groups_fit(hs, n),
{
    assert forall|gi: int, k: int| 0 <= gi < hs.len() && 0 <= k < hs[gi].1.len() implies (
    #[trigger] hs[gi].1[k]) < n by {
        assert(hs[gi].1 == gs[gi].1);
    }
}

/// Groups fit a list of `n` routes: each route index is below `n`, and
/// there is at least one group when there is a route.
pub open spec fn groups_fit(gs: Seq<(Seq<char>, Seq<usize>, bool)>, n: int) -> bool {
    &&& n > 0 ==> gs.len() > 0
    &&& forall|gi: int, k: int|
        0 <= gi < gs.len() && 0 <= k < gs[gi].1.len() ==> (#[trigger] gs[gi].1[k]) < n
}

/// A row names a group among `group_count` and a route among `route_count`.
pub open spec fn row_in_range(k: RowKind, group_count: int, route_count: int) -> bool {
    match k {
        RowKind::GroupHeader(g) => g < group_count,
        RowKind::Route(r) => r < route_count,
        _ => true,
    }
}

/// The route list.
pub struct RouteList {
    routes: Vec<Route>,
    groups: Vec<RouteGroup>,
    row_kinds: Vec<RowKind>,
    selected: usize,
    pending_g: bool,
}

/// The abstract content of the groups.
pub open spec fn groups_view(gs: Seq<RouteGroup>) -> Seq<(Seq<char>, Seq<usize>, bool)> {
    gs.map_values(|g: RouteGroup| group_view(g))
}

impl RouteList {
    /// The routes listed.
    pub closed spec fn routes(&self) -> Seq<RouteView> {
        crate::collection::routes_view(self.routes@)
    }

    /// The groups: name, route indexes, expanded.
    pub closed spec fn groups(&self) -> Seq<(Seq<char>, Seq<usize>, bool)> {
        groups_view(self.groups@)
    }

    /// The rows shown.
    pub closed spec fn rows(&self) -> Seq<RowKind> {
        self.row_kinds@
    }

    /// The selected row.
    pub closed spec fn selected(&self) -> int {
        self.selected as int
    }

    /// The kind of the selected row, if the selection is on a row.
    pub open spec fn selected_kind(&self) -> Option<RowKind> {
        if 0 <= self.selected() < self.rows().len() {
            Some(self.rows()[self.selected()])
        } else {
            None
        }
    }

    /// A first `g` of `gg` was pressed.
    pub closed spec fn pending_g(&self) -> bool {
        self.pending_g
    }

    /// The rows are those of the groups, every route index of a group names
    /// a listed route, there is a group whenever there is a route, and the
    /// selection is on a row: a group header or a route row whenever there
    /// are routes, the empty-state row otherwise.
    pub open spec fn wf(&self) -> bool {
        &&& self.rows() == list_rows(self.routes().len() as int, self.groups())
        &&& groups_fit(self.groups(), self.routes().len() as int)
        &&& 0 <= self.selected() < self.rows().len()
        &&& self.routes().len() > 0 ==> selectable(self.rows()[self.selected()])
    }

    /// The selected row, as a plain index.
    pub fn selected_row_index(&self) -> (r: usize)
        ensures
            r == self.selected(),
    {
        self.selected
    }

    /// The kind of the selected row, if the selection is on a row.
    pub fn selected_row_kind(&self) -> (r: Option<RowKind>)
        ensures
            r == self.selected_kind(),
    {
        if self.selected < self.row_kinds.len() {
            Some(self.row_kinds[self.selected])
        } else {
            None
        }
    }

    /// The row kinds, in order.
    pub fn row_kinds(&self) -> (r: &Vec<RowKind>)
        ensures
            r@ == self.rows(),
    {
        &self.row_kinds
    }
}

fn group_rows_exec(out: &mut Vec<RowKind>, gi: usize, g: &RouteGroup, count: usize)
    ensures
        final(out)@ == old(out)@ + group_rows(gi as int, group_view(*g), count as int),
{
    out.push(RowKind::GroupHeader(gi));
    let ghost after_header = out@;
    if g.expanded {
        let mut k: usize = 0;
        while k < g.route_indexes.len()
            invariant
                k <= g.route_indexes.len(),
                out@ == after_header + g.route_indexes@.take(k as int).map_values(
                    |ri: usize| RowKind::Route(ri),
                ),
            decreases g.route_indexes.len() - k,
        {
            out.push(RowKind::Route(g.route_indexes[k]));
            proof {
                assert(g.route_indexes@.take(k + 1).map_values(|ri: usize| RowKind::Route(ri))
                    =~= g.route_indexes@.take(k as int).map_values(|ri: usize| RowKind::Route(ri)).push(
                    RowKind::Route(g.route_indexes@[k as int]),
                ));
            }
            k += 1;
        }
        proof {
            assert(g.route_indexes@.take(g.route_indexes.len() as int) =~= g.route_indexes@);
        }
    }
    if gi < count && gi + 1 < count {
        out.push(RowKind::Spacer);
    }
    proof {
        assert(final(out)@ =~= old(out)@ + group_rows(gi as int, group_view(*g), count as int));
    }
}

fn build_rows(route_count: usize, groups: &Vec<RouteGroup>) -> (r: Vec<RowKind>)
    ensures
        r@ == list_rows(route_count as int, groups_view(groups@)),
{
    let mut out: Vec<RowKind> = Vec::new();
    if route_count == 0 {
        out.push(RowKind::EmptyState);
        proof {
            assert(out@ =~= seq![RowKind::EmptyState]);
        }
        return out;
    }
    let ghost gs = groups_view(groups@);
    let mut i: usize = 0;
    while i < groups.len()
        invariant
            i <= groups.len(),
            gs == groups_view(groups@),
            out@ == rows_of_groups(gs, i as int),
        decreases groups.len() - i,
    {
        group_rows_exec(&mut out, i, &groups[i], groups.len());
        proof {
            assert(gs[i as int] == group_view(groups@[i as int]));
        }
        i += 1;
    }
    out
}

fn resolve_selected_line(kinds: &Vec<RowKind>, target: Option<SelectionTarget>) -> (r: usize)
    ensures
        r == resolved_line(kinds@, target),
{
    let fallback = match first_from_exec(kinds, RowFilter::Selectable, 0) {
        Some(n) => n,
        None => 0,
    };
    match target {
        Some(SelectionTarget::GroupHeader(g)) => match index_of_row_exec(kinds, RowKind::GroupHeader(g)) {
            Some(n) => n,
            None => fallback,
        },
        Some(SelectionTarget::Route(ri)) => match index_of_row_exec(kinds, RowKind::Route(ri)) {
            Some(n) => n,
            None => fallback,
        },
        None => fallback,
    }
}

// ---------------------------------------------------------------------------
// Keys
// ---------------------------------------------------------------------------

/// Tab without Shift moves to the next group header.
pub open spec fn forward_cycle(k: KeyEvent) -> bool {
    k.code == Key::Tab && !k.modifiers.shift
}

/// BackTab, or Tab with Shift, moves to the previous group header.
pub open spec fn reverse_cycle(k: KeyEvent) -> bool {
    k.code == Key::BackTab || (k.code == Key::Tab && k.modifiers.shift)
}

/// How a key moves the selection, when it is a movement key (after a
/// pending `g` has been dealt with).
pub open spec fn key_move(kinds: Seq<RowKind>, cur: int, k: KeyEvent) -> Option<int> {
    let home = match first_from(kinds, RowFilter::Selectable, 0) {
        Some(n) => n,
        None => cur,
    };
    let end = match last_before(kinds, RowFilter::Selectable, kinds.len() as int) {
        Some(n) => n,
        None => cur,
    };
    if jump_to_end(k) {
        Some(end)
    } else if reverse_cycle(k) {
        Some(move_up(kinds, RowFilter::Header, cur))
    } else if forward_cycle(k) {
        Some(move_down(kinds, RowFilter::Header, cur))
    } else if (k.code == Key::Char('j') && no_modifiers(k.modifiers)) || k.code == Key::Down {
        Some(move_down(kinds, RowFilter::Selectable, cur))
    } else if (k.code == Key::Char('k') && no_modifiers(k.modifiers)) || k.code == Key::Up {
        Some(move_up(kinds, RowFilter::Selectable, cur))
    } else if k.code == Key::Home {
        Some(home)
    } else if k.code == Key::End {
        Some(end)
    } else {
        None
    }
}

impl RouteList {
    fn home_row(&self) -> (r: usize)
        ensures
            r == match first_from(self.rows(), RowFilter::Selectable, 0) {
                Some(n) => n,
                None => self.selected(),
            },
    {
        match first_from_exec(&self.row_kinds, RowFilter::Selectable, 0) {
            Some(n) => n,
            None => self.selected,
        }
    }

    fn end_row(&self) -> (r: usize)
        ensures
            r == match last_before(self.rows(), RowFilter::Selectable, self.rows().len() as int) {
                Some(n) => n,
                None => self.selected(),
            },
    {
        match last_before_exec(&self.row_kinds, RowFilter::Selectable, self.row_kinds.len()) {
            Some(n) => n,
            None => self.selected,
        }
    }

    fn moved_selection(&self, key: &KeyEvent) -> (r: Option<usize>)
        ensures
            match r {
                Some(n) => key_move(self.rows(), self.selected(), *key) == Some(n as int),
                None => key_move(self.rows(), self.selected(), *key) is None,
            },
    {
        let none = !key.modifiers.shift && !key.modifiers.control && !key.modifiers.alt;
        if is_jump_to_end(key) {
            Some(self.end_row())
        } else if key.code == Key::BackTab || (key.code == Key::Tab && key.modifiers.shift) {
            Some(move_up_exec(&self.row_kinds, RowFilter::Header, self.selected))
        } else if key.code == Key::Tab && !key.modifiers.shift {
            Some(move_down_exec(&self.row_kinds, RowFilter::Header, self.selected))
        } else if (key.code == Key::Char('j') && none) || key.code == Key::Down {
            Some(move_down_exec(&self.row_kinds, RowFilter::Selectable, self.selected))
        } else if (key.code == Key::Char('k') && none) || key.code == Key::Up {
            Some(move_up_exec(&self.row_kinds, RowFilter::Selectable, self.selected))
        } else if key.code == Key::Home {
            Some(self.home_row())
        } else if key.code == Key::End {
            Some(self.end_row())
        } else {
            None
        }
    }

    /// The remembered state: the expanded groups in list order and the
    /// selected route or group.
    pub fn snapshot_state(&self) -> (r: RouteListState)
        ensures
            crate::collection::strings_view(r.expanded_groups@) == expanded_names(self.groups()),
            snapshot_selection_ok(self.routes(), self.groups(), self.selected_kind(), r.selected),
    {
        let mut names: Vec<String> = Vec::new();
        let mut i: usize = 0;
        while i < self.groups.len()
            invariant
                i <= self.groups.len(),
                crate::collection::strings_view(names@) == expanded_names(
                    groups_view(self.groups@).take(i as int),
                ),
            decreases self.groups.len() - i,
        {
            proof {
                let gs = groups_view(self.groups@);
                assert(gs.take(i + 1).drop_last() =~= gs.take(i as int));
                assert(gs.take(i + 1).last() == group_view(self.groups@[i as int]));
            }
            if self.groups[i].expanded {
                let ghost before = names@;
                names.push(self.groups[i].name.clone());
                proof {
                    assert(crate::collection::strings_view(names@) =~= crate::collection::strings_view(
                        before,
                    ).push(self.groups@[i as int].name@));
                }
            }
            i += 1;
        }
        proof {
            assert(groups_view(self.groups@).take(self.groups.len() as int) =~= groups_view(
                self.groups@,
            ));
        }
        let selected = match self.selected_row_kind() {
            Some(RowKind::Route(ri)) => {
                if ri < self.routes.len() {
                    Some(SelectedItem::Route(RouteSelection::from_route(&self.routes[ri])))
                } else {
                    None
                }
            },
            Some(RowKind::GroupHeader(gi)) => {
                if gi < self.groups.len() {
                    Some(SelectedItem::Group { name: self.groups[gi].name.clone() })
                } else {
                    None
                }
            },
            _ => None,
        };
        RouteListState { expanded_groups: names, selected }
    }
}

/// How a selection records a route.
pub open spec fn selection_of_route(sel: RouteSelection, route: RouteView) -> bool {
    &&& sel.group@ == selection_group(route.group)
    &&& sel.name@ == route.name
    &&& sel.method@ == method_label(route.method)
    &&& sel.url@ == route.url
}

/// The remembered selection for the selected row: the route or group it
/// shows, or nothing for other rows.
pub open spec fn snapshot_selection_ok(
    routes: Seq<RouteView>,
    groups: Seq<(Seq<char>, Seq<usize>, bool)>,
    kind: Option<RowKind>,
    sel: Option<SelectedItem>,
) -> bool {
    match kind {
        Some(RowKind::Route(ri)) => if ri < routes.len() {
            sel matches Some(SelectedItem::Route(s)) && selection_of_route(s, routes[ri as int])
        } else {
            sel is None
        },
        Some(RowKind::GroupHeader(gi)) => if gi < groups.len() {
            sel matches Some(SelectedItem::Group { name }) && name@ == groups[gi as int].0
        } else {
            sel is None
        },
        _ => sel is None,
    }
}

/// The names of the expanded groups, in order.
pub open spec fn expanded_names(gs: Seq<(Seq<char>, Seq<usize>, bool)>) -> Seq<Seq<char>>
    decreases gs.len(),
{
    if gs.len() == 0 {
        seq![]
    } else if gs.last().2 {
        expanded_names(gs.drop_last()).push(gs.last().0)
    } else {
        expanded_names(gs.drop_last())
    }
}

// ---------------------------------------------------------------------------
// Building the list
// ---------------------------------------------------------------------------

/// The group a route is listed under: its group, or the default group when
/// that is blank.
pub open spec fn route_group_name(r: RouteView) -> Seq<char> {
    selection_group(r.group)
}

/// The first group with the given name.
pub open spec fn find_group(gs: Seq<(Seq<char>, Seq<usize>, bool)>, name: Seq<char>) -> Option<int> {
    find_group_from(gs, name, 0)
}

/// The first group at or after `i` with the given name.
pub open spec fn find_group_from(gs: Seq<(Seq<char>, Seq<usize>, bool)>, name: Seq<char>, i: int) -> Option<int>
    decreases gs.len() - i,
{
    if i < 0 || i >= gs.len() {
        None
    } else if gs[i].0 == name {
        Some(i)
    } else {
        find_group_from(gs, name, i + 1)
    }
}

/// The groups of the first `n` routes, in order of first appearance, each
/// with the indexes of its routes, all collapsed.
pub open spec fn grouping(routes: Seq<RouteView>, n: int) -> Seq<(Seq<char>, Seq<usize>, bool)>
    decreases n,
{
    if n <= 0 {
        seq![]
    } else {
        let g = grouping(routes, n - 1);
        let name = route_group_name(routes[n - 1]);
        match find_group(g, name) {
            Some(p) => g.update(p, (g[p].0, g[p].1.push((n - 1) as usize), false)),
            None => g.push((name, seq![(n - 1) as usize], false)),
        }
    }
}

/// Whether a route is the one a remembered selection names: same group,
/// name and URL, and the same method ignoring ASCII case.
pub open spec fn route_matches(r: RouteView, sel: RouteSelection) -> bool {
    &&& route_group_name(r) == sel.group@
    &&& r.name == sel.name@
    &&& crate::text::ascii_lowercase(method_label(r.method)) == crate::text::ascii_lowercase(sel.method@)
    &&& r.url == sel.url@
}

/// The first route at or after `i` that a selection names.
pub open spec fn find_route_from(routes: Seq<RouteView>, sel: RouteSelection, i: int) -> Option<int>
    decreases routes.len() - i,
{
    if i < 0 || i >= routes.len() {
        None
    } else if route_matches(routes[i], sel) {
        Some(i)
    } else {
        find_route_from(routes, sel, i + 1)
    }
}

/// The first group that holds route `ri`.
pub open spec fn group_holding(gs: Seq<(Seq<char>, Seq<usize>, bool)>, ri: usize, i: int) -> Option<int>
    decreases gs.len() - i,
{
    if i < 0 || i >= gs.len() {
        None
    } else if gs[i].1.contains(ri) {
        Some(i)
    } else {
        group_holding(gs, ri, i + 1)
    }
}

/// Groups expanded as remembered: a group is expanded when its name is
/// among the remembered names.
pub open spec fn with_remembered_expansion(
    gs: Seq<(Seq<char>, Seq<usize>, bool)>,
    names: Seq<Seq<char>>,
) -> Seq<(Seq<char>, Seq<usize>, bool)> {
    gs.map_values(|g: (Seq<char>, Seq<usize>, bool)| (g.0, g.1, names.contains(g.0)))
}

/// The selection restored from remembered state, and the groups after
/// restoring it: a remembered route that still exists is selected and its
/// group expanded; otherwise its group's header is selected; a remembered
/// group's header is selected when the group still exists.
pub open spec fn restored(
    routes: Seq<RouteView>,
    gs: Seq<(Seq<char>, Seq<usize>, bool)>,
    sel: Option<SelectedItem>,
) -> (Seq<(Seq<char>, Seq<usize>, bool)>, Option<SelectionTarget>) {
    match sel {
        Some(SelectedItem::Route(saved)) => match find_route_from(routes, saved, 0) {
            Some(ri) => match group_holding(gs, ri as usize, 0) {
                Some(gi) => (gs.update(gi, (gs[gi].0, gs[gi].1, true)), Some(SelectionTarget::Route(ri as usize))),
                None => (gs, Some(SelectionTarget::Route(ri as usize))),
            },
            None => match find_group(gs, saved.group@) {
                Some(gi) => (gs, Some(SelectionTarget::GroupHeader(gi as usize))),
                None => (gs, None),
            },
        },
        Some(SelectedItem::Group { name }) => match find_group(gs, name@) {
            Some(gi) => (gs, Some(SelectionTarget::GroupHeader(gi as usize))),
            None => (gs, None),
        },
        None => (gs, None),
    }
}


fn route_group_name_exec(route: &Route) -> (r: String)
    ensures
        r@ == route_group_name(route@),
{
    if str_is_blank(route.group.as_str()) {
        crate::collection::default_route_group()
    } else {
        route.group.clone()
    }
}

fn find_group_exec(groups: &Vec<RouteGroup>, name: &Vec<char>) -> (r: Option<usize>)
    ensures
        match r {
            Some(p) => find_group(groups_view(groups@), name@) == Some(p as int),
            None => find_group(groups_view(groups@), name@) is None,
        },
{
    let ghost gs = groups_view(groups@);
    let mut i: usize = 0;
    while i < groups.len()
        invariant
            gs == groups_view(groups@),
            find_group(gs, name@) == find_group_from(gs, name@, i as int),
        decreases groups.len() - i,
    {
        let gn = string_chars(&groups[i].name);
        proof {
            assert(gs[i as int].0 == groups@[i as int].name@);
        }
        if crate::text::chars_equal(&gn, name) {
            return Some(i);
        }
        i += 1;
    }
    None
}

fn build_groups(routes: &Vec<Route>) -> (r: Vec<RouteGroup>)
    ensures
        groups_view(r@) == grouping(crate::collection::routes_view(routes@), routes@.len() as int),
{
    let ghost rv = crate::collection::routes_view(routes@);
    let mut groups: Vec<RouteGroup> = Vec::new();
    let mut i: usize = 0;
    while i < routes.len()
        invariant
            i <= routes.len(),
            rv == crate::collection::routes_view(routes@),
            groups_view(groups@) == grouping(rv, i as int),
        decreases routes.len() - i,
    {
        let name = route_group_name_exec(&routes[i]);
        let nc = string_chars(&name);
        proof {
            assert(rv[i as int] == routes@[i as int]@);
        }
        let ghost before = groups_view(groups@);
        proof {
            lemma_find_group_from(before, nc@, 0);
        }
        match find_group_exec(&groups, &nc) {
            Some(p) => {
                let mut g = groups.remove(p);
                g.route_indexes.push(i);
                groups.insert(p, g);
                proof {
                    assert(!before[p as int].2) by {
                        lemma_grouping_collapsed(rv, i as int);
                    }
                    assert(groups_view(groups@) =~= before.update(
                        p as int,
                        (before[p as int].0, before[p as int].1.push(i), false),
                    ));
                }
            },
            None => {
                let mut idx: Vec<usize> = Vec::new();
                idx.push(i);
                groups.push(RouteGroup { name, route_indexes: idx, expanded: false });
                proof {
                    assert(idx@ =~= seq![i]);
                    assert(groups_view(groups@) =~= before.push((nc@, seq![i], false)));
                }
            },
        }
        i += 1;
    }
    groups
}

proof fn lemma_find_group_from(gs: Seq<(Seq<char>, Seq<usize>, bool)>, name: Seq<char>, i: int)
    requires
        i >= 0,
    ensures
        match find_group_from(gs, name, i) {
            Some(p) => i <= p < gs.len() && gs[p].0 == name,
            None => forall|k: int| i <= k < gs.len() ==> (#[trigger] gs[k]).0 != name,
        },
    decreases gs.len() - i,
{
    if i < gs.len() && gs[i].0 != name {
        lemma_find_group_from(gs, name, i + 1);
    }
}

proof fn lemma_grouping_collapsed(routes: Seq<RouteView>, n: int)
    ensures
        forall|k: int| 0 <= k < grouping(routes, n).len() ==> !(#[trigger] grouping(routes, n)[k]).2,
    decreases n,
{
    if n > 0 {
        lemma_grouping_collapsed(routes, n - 1);
        let g = grouping(routes, n - 1);
        let name = route_group_name(routes[n - 1]);
        lemma_find_group_from(g, name, 0);
        let r = grouping(routes, n);
        assert forall|k: int| 0 <= k < r.len() implies !(#[trigger] r[k]).2 by {
            match find_group(g, name) {
                Some(p) => {
                    if k != p {
                        assert(r[k] == g[k]);
                    }
                },
                None => {
                    if k < g.len() {
                        assert(r[k] == g[k]);
                    }
                },
            }
        }
    }
}

/// The groups built for the first `n` routes fit a list of `n` routes.
proof fn lemma_grouping_fits(routes: Seq<RouteView>, n: int)
    requires
        0 <= n <= routes.len(),
        routes.len() <= usize::MAX,
    ensures
        groups_fit(grouping(routes, n), n),
    decreases n,
{
    if n > 0 {
        lemma_grouping_fits(routes, n - 1);
        let g = grouping(routes, n - 1);
        let name = route_group_name(routes[n - 1]);
        lemma_find_group_from(g, name, 0);
        let r = grouping(routes, n);
        assert forall|gi: int, k: int| 0 <= gi < r.len() && 0 <= k < r[gi].1.len() implies (
        #[trigger] r[gi].1[k]) < n by {
            match find_group(g, name) {
                Some(p) => {
                    if gi == p && k == g[p].1.len() {
                        assert(r[gi].1[k] == (n - 1) as usize);
                    } else if gi == p {
                        assert(r[gi].1[k] == g[gi].1[k]);
                    } else {
                        assert(r[gi] == g[gi]);
                    }
                },
                None => {
                    if gi < g.len() {
                        assert(r[gi] == g[gi]);
                    } else {
                        assert(r[gi].1 == seq![(n - 1) as usize]);
                    }
                },
            }
        }
    }
}

/// Restoring a remembered selection changes only whether groups are
/// expanded.
proof fn lemma_restored_keeps_indexes(
    routes: Seq<RouteView>,
    gs: Seq<(Seq<char>, Seq<usize>, bool)>,
    sel: Option<SelectedItem>,
)
    ensures
        restored(routes, gs, sel).0.len() == gs.len(),
        forall|i: int| 0 <= i < gs.len() ==> (#[trigger] restored(routes, gs, sel).0[i]).1 == gs[i].1,
{
    let h = restored(routes, gs, sel).0;
    match sel {
        Some(SelectedItem::Route(saved)) => match find_route_from(routes, saved, 0) {
            Some(ri) => lemma_group_holding(gs, ri as usize, 0),
            None => {},
        },
        _ => {},
    }
    assert forall|i: int| 0 <= i < gs.len() implies (#[trigger] restored(routes, gs, sel).0[i]).1 == gs[i].1 by {
        assert(h[i].1 == gs[i].1);
    }
}

fn contains_name(names: &Vec<String>, name: &Vec<char>) -> (b: bool)
    ensures
        b == crate::collection::strings_view(names@).contains(name@),
{
    let ghost nv = crate::collection::strings_view(names@);
    let mut i: usize = 0;
    while i < names.len()
        invariant
            i <= names.len(),
            nv == crate::collection::strings_view(names@),
            forall|k: int| 0 <= k < i ==> nv[k] != name@,
        decreases names.len() - i,
    {
        let n = string_chars(&names[i]);
        if crate::text::chars_equal(&n, name) {
            proof {
                assert(nv[i as int] == name@);
            }
            return true;
        }
        i += 1;
    }
    false
}

fn apply_expansion(groups: &mut Vec<RouteGroup>, names: &Vec<String>)
    ensures
        groups_view(final(groups)@) == with_remembered_expansion(
            groups_view(old(groups)@),
            crate::collection::strings_view(names@),
        ),
{
    let ghost start = groups_view(groups@);
    let ghost nv = crate::collection::strings_view(names@);
    let mut i: usize = 0;
    while i < groups.len()
        invariant
            i <= groups.len(),
            nv == crate::collection::strings_view(names@),
            groups@.len() == start.len(),
            forall|k: int| 0 <= k < i ==> #[trigger] groups_view(groups@)[k] == (start[k].0, start[k].1, nv.contains(start[k].0)),
            forall|k: int| i <= k < groups@.len() ==> #[trigger] groups_view(groups@)[k] == start[k],
        decreases groups.len() - i,
    {
        let n = string_chars(&groups[i].name);
        let e = contains_name(names, &n);
        let ghost prev = groups_view(groups@);
        let ghost old_g = groups@[i as int];
        proof {
            assert(prev[i as int] == start[i as int]);
            assert(prev[i as int] == group_view(old_g));
            assert(n@ == old_g.name@);
        }
        let mut g = groups.remove(i);
        proof {
            assert(g == old_g);
        }
        g.expanded = e;
        let ghost gv = group_view(g);
        groups.insert(i, g);
        proof {
            assert(groups_view(groups@) =~= prev.update(i as int, gv));
            assert(gv == (start[i as int].0, start[i as int].1, nv.contains(start[i as int].0)));
        }
        i += 1;
    }
    proof {
        assert(groups_view(groups@) =~= with_remembered_expansion(start, nv));
    }
}


fn route_matches_exec(route: &Route, sel: &RouteSelection) -> (b: bool)
    ensures
        b == route_matches(route@, *sel),
{
    let gname = route_group_name_exec(route);
    let g = string_chars(&gname);
    let sg = string_chars(&sel.group);
    let n = string_chars(&route.name);
    let sn = string_chars(&sel.name);
    let label = route.method.label();
    let l = string_chars(&label);
    let sm = string_chars(&sel.method);
    let ll = crate::text::ascii_lowercase_chars(&l);
    let sml = crate::text::ascii_lowercase_chars(&sm);
    let u = string_chars(&route.url);
    let su = string_chars(&sel.url);
    crate::text::chars_equal(&g, &sg) && crate::text::chars_equal(&n, &sn)
        && crate::text::chars_equal(&ll, &sml) && crate::text::chars_equal(&u, &su)
}

fn find_route_exec(routes: &Vec<Route>, sel: &RouteSelection) -> (r: Option<usize>)
    ensures
        match r {
            Some(i) => find_route_from(crate::collection::routes_view(routes@), *sel, 0) == Some(i as int),
            None => find_route_from(crate::collection::routes_view(routes@), *sel, 0) is None,
        },
{
    let ghost rv = crate::collection::routes_view(routes@);
    let mut i: usize = 0;
    while i < routes.len()
        invariant
            rv == crate::collection::routes_view(routes@),
            find_route_from(rv, *sel, 0) == find_route_from(rv, *sel, i as int),
        decreases routes.len() - i,
    {
        proof {
            assert(rv[i as int] == routes@[i as int]@);
        }
        if route_matches_exec(&routes[i], sel) {
            return Some(i);
        }
        i += 1;
    }
    None
}

fn usize_list_contains(v: &Vec<usize>, x: usize) -> (b: bool)
    ensures
        b == v@.contains(x),
{
    let mut i: usize = 0;
    while i < v.len()
        invariant
            i <= v.len(),
            forall|k: int| 0 <= k < i ==> v@[k] != x,
        decreases v.len() - i,
    {
        if v[i] == x {
            proof {
                assert(v@[i as int] == x);
            }
            return true;
        }
        i += 1;
    }
    false
}

fn group_holding_exec(groups: &Vec<RouteGroup>, ri: usize) -> (r: Option<usize>)
    ensures
        match r {
            Some(g) => group_holding(groups_view(groups@), ri, 0) == Some(g as int),
            None => group_holding(groups_view(groups@), ri, 0) is None,
        },
{
    let ghost gs = groups_view(groups@);
    let mut i: usize = 0;
    while i < groups.len()
        invariant
            gs == groups_view(groups@),
            group_holding(gs, ri, 0) == group_holding(gs, ri, i as int),
        decreases groups.len() - i,
    {
        proof {
            assert(gs[i as int].1 == groups@[i as int].route_indexes@);
        }
        if usize_list_contains(&groups[i].route_indexes, ri) {
            return Some(i);
        }
        i += 1;
    }
    None
}

proof fn lemma_group_holding(gs: Seq<(Seq<char>, Seq<usize>, bool)>, ri: usize, i: int)
    requires
        i >= 0,
    ensures
        match group_holding(gs, ri, i) {
            Some(g) => i <= g < gs.len(),
            None => true,
        },
    decreases gs.len() - i,
{
    if i < gs.len() && !gs[i].1.contains(ri) {
        lemma_group_holding(gs, ri, i + 1);
    }
}

fn set_expanded(groups: &mut Vec<RouteGroup>, gi: usize, expanded: bool)
    requires
        gi < old(groups)@.len(),
    ensures
        groups_view(final(groups)@) == groups_view(old(groups)@).update(
            gi as int,
            (groups_view(old(groups)@)[gi as int].0, groups_view(old(groups)@)[gi as int].1, expanded),
        ),
{
    let ghost prev = groups_view(groups@);
    let ghost old_g = groups@[gi as int];
    let mut g = groups.remove(gi);
    proof {
        assert(g == old_g);
    }
    g.expanded = expanded;
    groups.insert(gi, g);
    proof {
        assert(groups_view(groups@) =~= prev.update(gi as int, (prev[gi as int].0, prev[gi as int].1, expanded)));
    }
}

fn restore_selection(
    routes: &Vec<Route>,
    groups: &mut Vec<RouteGroup>,
    sel: &Option<SelectedItem>,
) -> (r: Option<SelectionTarget>)
    ensures
        (groups_view(final(groups)@), r) == restored(
            crate::collection::routes_view(routes@),
            groups_view(old(groups)@),
            *sel,
        ),
{
    match sel {
        Some(SelectedItem::Route(saved)) => match find_route_exec(routes, saved) {
            Some(ri) => {
                proof {
                    lemma_group_holding(groups_view(groups@), ri, 0);
                }
                match group_holding_exec(groups, ri) {
                    Some(gi) => {
                        set_expanded(groups, gi, true);
                        Some(SelectionTarget::Route(ri))
                    },
                    None => Some(SelectionTarget::Route(ri)),
                }
            },
            None => {
                let g = string_chars(&saved.group);
                match find_group_exec(groups, &g) {
                    Some(gi) => Some(SelectionTarget::GroupHeader(gi)),
                    None => None,
                }
            },
        },
        Some(SelectedItem::Group { name }) => {
            let n = string_chars(name);
            match find_group_exec(groups, &n) {
                Some(gi) => Some(SelectionTarget::GroupHeader(gi)),
                None => None,
            }
        },
        None => None,
    }
}

/// The groups of a new list, after the remembered expansion and selection
/// are applied, and the selection target.
pub open spec fn initial_groups_and_target(
    routes: Seq<RouteView>,
    state: RouteListState,
) -> (Seq<(Seq<char>, Seq<usize>, bool)>, Option<SelectionTarget>) {
    restored(
        routes,
        with_remembered_expansion(
            grouping(routes, routes.len() as int),
            crate::collection::strings_view(state.expanded_groups@),
        ),
        state.selected,
    )
}

fn copy_routes(routes: &Vec<Route>) -> (r: Vec<Route>)
    ensures
        crate::collection::routes_view(r@) == crate::collection::routes_view(routes@),
{
    let mut out: Vec<Route> = Vec::new();
    let mut i: usize = 0;
    while i < routes.len()
        invariant
            i <= routes.len(),
            crate::collection::routes_view(out@) == crate::collection::routes_view(routes@).take(i as int),
        decreases routes.len() - i,
    {
        let ghost before = out@;
        let d = routes[i].duplicate();
        let ghost dv = d@;
        out.push(d);
        proof {
            assert(crate::collection::routes_view(out@) =~= crate::collection::routes_view(before).push(dv));
            assert(crate::collection::routes_view(routes@).take(i + 1) =~= crate::collection::routes_view(routes@).take(i as int).push(routes@[i as int]@));
        }
        i += 1;
    }
    proof {
        assert(crate::collection::routes_view(routes@).take(routes.len() as int) =~= crate::collection::routes_view(routes@));
    }
    out
}

impl RouteList {
    /// A list of the routes, grouped by group name in order of first
    /// appearance, with the remembered groups expanded and the remembered
    /// route or group selected where it still exists.
    pub fn new(routes: &Vec<Route>, persisted_state: &RouteListState) -> (r: RouteList)
        ensures
            r.wf(),
            r.routes() == crate::collection::routes_view(routes@),
            r.groups() == initial_groups_and_target(r.routes(), *persisted_state).0,
            r.selected() == resolved_line(r.rows(), initial_groups_and_target(r.routes(), *persisted_state).1),
            !r.pending_g(),
    {
        let count = routes.len();
        let mut groups = build_groups(routes);
        let ghost rv = crate::collection::routes_view(routes@);
        let ghost g0 = groups_view(groups@);
        apply_expansion(&mut groups, &persisted_state.expanded_groups);
        let ghost g1 = groups_view(groups@);
        let target = restore_selection(routes, &mut groups, &persisted_state.selected);
        let row_kinds = build_rows(routes.len(), &groups);
        let selected = resolve_selected_line(&row_kinds, target);
        let r = RouteList { routes: copy_routes(routes), groups, row_kinds, selected, pending_g: false };
        proof {
            let n = rv.len() as int;
            lemma_grouping_fits(rv, n);
            assert forall|i: int| 0 <= i < g0.len() implies (#[trigger] g1[i]).1 == g0[i].1 by {}
            lemma_fit_same_indexes(g0, g1, n);
            lemma_restored_keeps_indexes(rv, g1, persisted_state.selected);
            lemma_fit_same_indexes(g1, r.groups(), n);
            lemma_list_rows(n, r.groups());
            lemma_resolved_line(r.rows(), target);
            if n > 0 {
                assert(selectable(r.rows()[0]));
            }
        }
        r
    }

    /// Expands or collapses a group and selects its header.
    pub fn toggle_group(&mut self, group_index: usize)
        requires
            old(self).wf(),
        ensures
            final(self).wf(),
            final(self).routes() == old(self).routes(),
            final(self).pending_g() == old(self).pending_g(),
            group_index < old(self).groups().len() ==> final(self).groups() == old(self).groups().update(
                group_index as int,
                (
                    old(self).groups()[group_index as int].0,
                    old(self).groups()[group_index as int].1,
                    !old(self).groups()[group_index as int].2,
                ),
            ) && final(self).selected() == resolved_line(
                final(self).rows(),
                Some(SelectionTarget::GroupHeader(group_index)),
            ),
            group_index >= old(self).groups().len() ==> final(self).groups() == old(self).groups()
                && final(self).selected() == old(self).selected(),
    {
        if group_index < self.groups.len() {
            let ghost before = self.groups();
            let e = !self.groups[group_index].expanded;
            set_expanded(&mut self.groups, group_index, e);
            self.row_kinds = build_rows(self.routes.len(), &self.groups);
            self.selected = resolve_selected_line(
                &self.row_kinds,
                Some(SelectionTarget::GroupHeader(group_index)),
            );
            proof {
                let n = self.routes().len() as int;
                assert forall|i: int| 0 <= i < before.len() implies (#[trigger] self.groups()[i]).1
                    == before[i].1 by {}
                lemma_fit_same_indexes(before, self.groups(), n);
                lemma_list_rows(n, self.groups());
                lemma_resolved_line(self.rows(), Some(SelectionTarget::GroupHeader(group_index)));
                if n > 0 {
                    assert(selectable(self.rows()[0]));
                }
            }
        }
    }
}


/// What a key does to the route list.
pub enum ListAction {
    /// Select this row.
    Move(int),
    /// Remember a first `g`.
    SetPending,
    /// Expand or collapse this group.
    Toggle(usize),
    /// Run this route.
    Run(usize),
    /// Edit this route.
    Edit(usize),
    /// Delete this route.
    Delete(usize),
    /// Create a route.
    New,
    /// Nothing.
    Nothing,
}

/// The action of a key: `gg` jumps to the first selectable row, movement
/// keys move, Enter toggles a group or runs a route, and `e`, `d`, `n` edit,
/// delete and create routes.
pub open spec fn list_action(pending: bool, kinds: Seq<RowKind>, sel: int, k: KeyEvent) -> ListAction {
    let kind = if 0 <= sel < kinds.len() {
        Some(kinds[sel])
    } else {
        None
    };
    let home = match first_from(kinds, RowFilter::Selectable, 0) {
        Some(n) => n,
        None => sel,
    };
    if pending && plain_g(k) {
        ListAction::Move(home)
    } else if plain_g(k) {
        ListAction::SetPending
    } else {
        match key_move(kinds, sel, k) {
            Some(n) => ListAction::Move(n),
            None => if k.code == Key::Enter && no_modifiers(k.modifiers) {
                match kind {
                    Some(RowKind::GroupHeader(gi)) => ListAction::Toggle(gi),
                    Some(RowKind::Route(ri)) => ListAction::Run(ri),
                    _ => ListAction::Nothing,
                }
            } else if k.code == Key::Char('e') && no_modifiers(k.modifiers) {
                match kind {
                    Some(RowKind::Route(ri)) => ListAction::Edit(ri),
                    _ => ListAction::Nothing,
                }
            } else if k.code == Key::Char('d') && no_modifiers(k.modifiers) {
                match kind {
                    Some(RowKind::Route(ri)) => ListAction::Delete(ri),
                    _ => ListAction::Nothing,
                }
            } else if k.code == Key::Char('n') && no_modifiers(k.modifiers) {
                ListAction::New
            } else {
                ListAction::Nothing
            },
        }
    }
}

/// `st` is the remembered state of the list.
pub open spec fn is_snapshot(l: RouteList, st: RouteListState) -> bool {
    &&& crate::collection::strings_view(st.expanded_groups@) == expanded_names(l.groups())
    &&& snapshot_selection_ok(l.routes(), l.groups(), l.selected_kind(), st.selected)
}

impl RouteList {
    /// Handles a key: moves the selection, toggles groups, or asks to run,
    /// edit, delete or create a route. A changed selection or expansion is
    /// reported with the state to remember.
    pub fn on_keyboard(&mut self, key: KeyEvent) -> (r: Option<RouteListMsg>)
        requires
            old(self).wf(),
        ensures
            final(self).wf(),
            final(self).routes() == old(self).routes(),
            final(self).selected() < final(self).rows().len(),
            final(self).routes().len() > 0 ==> selectable(final(self).rows()[final(self).selected()]),
            match r {
                Some(RouteListMsg::RunRoute(i)) => i < final(self).routes().len(),
                Some(RouteListMsg::EditRoute(i)) => i < final(self).routes().len(),
                Some(RouteListMsg::DeleteRoute(i)) => i < final(self).routes().len(),
                _ => true,
            },
            final(self).pending_g() == (list_action(
                old(self).pending_g(),
                old(self).rows(),
                old(self).selected(),
                key,
            ) is SetPending),
            match list_action(old(self).pending_g(), old(self).rows(), old(self).selected(), key) {
                ListAction::Move(n) => final(self).groups() == old(self).groups() && final(self).selected()
                    == n && (r matches Some(RouteListMsg::StateChanged(st)) && is_snapshot(
                    *final(self),
                    st,
                )),
                ListAction::Toggle(gi) => (gi < old(self).groups().len() ==> final(self).groups()
                    == old(self).groups().update(
                    gi as int,
                    (
                        old(self).groups()[gi as int].0,
                        old(self).groups()[gi as int].1,
                        !old(self).groups()[gi as int].2,
                    ),
                ) && final(self).selected() == resolved_line(
                    final(self).rows(),
                    Some(SelectionTarget::GroupHeader(gi)),
                )) && (gi >= old(self).groups().len() ==> final(self).groups() == old(self).groups()
                    && final(self).selected() == old(self).selected()) && (r matches Some(
                    RouteListMsg::StateChanged(st),
                ) && is_snapshot(*final(self), st)),
                ListAction::Run(ri) => r == Some(RouteListMsg::RunRoute(ri)) && final(self).groups()
                    == old(self).groups() && final(self).selected() == old(self).selected(),
                ListAction::Edit(ri) => r == Some(RouteListMsg::EditRoute(ri)) && final(self).groups()
                    == old(self).groups() && final(self).selected() == old(self).selected(),
                ListAction::Delete(ri) => r == Some(RouteListMsg::DeleteRoute(ri))
                    && final(self).groups() == old(self).groups() && final(self).selected() == old(
                    self,
                ).selected(),
                ListAction::New => r == Some(RouteListMsg::NewRoute) && final(self).groups() == old(
                    self,
                ).groups() && final(self).selected() == old(self).selected(),
                _ => r is None && final(self).groups() == old(self).groups() && final(self).selected()
                    == old(self).selected(),
            },
    {
        proof {
            lemma_key_move(self.rows(), self.selected(), key);
            lemma_list_rows(self.routes().len() as int, self.groups());
        }
        let was_pending = self.pending_g;
        self.pending_g = false;
        if was_pending && is_plain_g(&key) {
            self.selected = self.home_row();
            return Some(RouteListMsg::StateChanged(self.snapshot_state()));
        }
        if is_plain_g(&key) {
            self.pending_g = true;
            return None;
        }
        match self.moved_selection(&key) {
            Some(n) => {
                self.selected = n;
                return Some(RouteListMsg::StateChanged(self.snapshot_state()));
            },
            None => {},
        }
        let none = !key.modifiers.shift && !key.modifiers.control && !key.modifiers.alt;
        let kind = self.selected_row_kind();
        if key.code == Key::Enter && none {
            match kind {
                Some(RowKind::GroupHeader(gi)) => {
                    self.toggle_group(gi);
                    Some(RouteListMsg::StateChanged(self.snapshot_state()))
                },
                Some(RowKind::Route(ri)) => Some(RouteListMsg::RunRoute(ri)),
                _ => None,
            }
        } else if key.code == Key::Char('e') && none {
            match kind {
                Some(RowKind::Route(ri)) => Some(RouteListMsg::EditRoute(ri)),
                _ => None,
            }
        } else if key.code == Key::Char('d') && none {
            match kind {
                Some(RowKind::Route(ri)) => Some(RouteListMsg::DeleteRoute(ri)),
                _ => None,
            }
        } else if key.code == Key::Char('n') && none {
            Some(RouteListMsg::NewRoute)
        } else {
            None
        }
    }
}


// ---------------------------------------------------------------------------
// Laws
// ---------------------------------------------------------------------------

/// Moving up or down lands on a row that passes the filter whenever one
/// exists.
pub proof fn law_moves_land_on_passing_rows(kinds: Seq<RowKind>, f: RowFilter, cur: int)
    requires
        0 <= cur,
        exists|i: int| 0 <= i < kinds.len() && passes(f, #[trigger] kinds[i]),
    ensures
        0 <= move_down(kinds, f, cur) < kinds.len(),
        passes(f, kinds[move_down(kinds, f, cur)]),
        0 <= move_up(kinds, f, cur) < kinds.len(),
        passes(f, kinds[move_up(kinds, f, cur)]),
{
    let w = choose|i: int| 0 <= i < kinds.len() && passes(f, #[trigger] kinds[i]);
    lemma_first_from(kinds, f, cur + 1);
    lemma_first_from(kinds, f, 0);
    let bound = if cur <= kinds.len() { cur } else { kinds.len() as int };
    lemma_last_before(kinds, f, bound);
    lemma_last_before(kinds, f, kinds.len() as int);
}

/// Navigation wraps around: moving down from the last passing row selects
/// the first one, and moving up from the first selects the last.
pub proof fn law_navigation_wraps(kinds: Seq<RowKind>, f: RowFilter, first: int, last: int)
    requires
        first_from(kinds, f, 0) == Some(first),
        last_before(kinds, f, kinds.len() as int) == Some(last),
    ensures
        move_down(kinds, f, last) == first,
        move_up(kinds, f, first) == last,
{
    lemma_first_from(kinds, f, 0);
    lemma_last_before(kinds, f, kinds.len() as int);
    lemma_first_from(kinds, f, last + 1);
    lemma_last_before(kinds, f, first);
    match first_from(kinds, f, last + 1) {
        Some(n) => {
            assert(passes(f, kinds[n]));
        },
        None => {},
    }
    match last_before(kinds, f, first) {
        Some(p) => {
            assert(passes(f, kinds[p]));
        },
        None => {},
    }
}

/// Toggling a group twice leaves the groups as they were.
pub proof fn law_toggle_twice_restores(gs: Seq<(Seq<char>, Seq<usize>, bool)>, gi: int)
    requires
        0 <= gi < gs.len(),
    ensures
        ({
            let once = gs.update(gi, (gs[gi].0, gs[gi].1, !gs[gi].2));
            once.update(gi, (once[gi].0, once[gi].1, !once[gi].2)) == gs
        }),
{
    let once = gs.update(gi, (gs[gi].0, gs[gi].1, !gs[gi].2));
    assert(once.update(gi, (once[gi].0, once[gi].1, !once[gi].2)) =~= gs);
}

/// Every route appears in exactly the group of its name: the groups built
/// for a list of routes hold each route index once, under its group name.
pub proof fn law_grouping_places_each_route(routes: Seq<RouteView>, n: int, ri: int)
    requires
        0 <= ri < n <= routes.len(),
    ensures
        ({
            let g = grouping(routes, n);
            exists|gi: int| 0 <= gi < g.len() && (#[trigger] g[gi]).0 == route_group_name(routes[ri])
                && g[gi].1.contains(ri as usize)
        }),
    decreases n,
{
    let g = grouping(routes, n);
    let prev = grouping(routes, n - 1);
    let name = route_group_name(routes[n - 1]);
    lemma_find_group_from(prev, name, 0);
    if ri < n - 1 {
        law_grouping_places_each_route(routes, n - 1, ri);
        let gi = choose|gi: int| 0 <= gi < prev.len() && (#[trigger] prev[gi]).0 == route_group_name(routes[ri])
            && prev[gi].1.contains(ri as usize);
        let k = choose|k: int| 0 <= k < prev[gi].1.len() && prev[gi].1[k] == ri as usize;
        match find_group(prev, name) {
            Some(p) => {
                if p == gi {
                    assert(g[gi].1[k] == ri as usize);
                }
                assert(g[gi].1.contains(ri as usize));
                assert(g[gi].0 == route_group_name(routes[ri]));
            },
            None => {
                assert(g[gi] == prev[gi]);
            },
        }
    } else {
        match find_group(prev, name) {
            Some(p) => {
                assert(g[p].1.last() == ri as usize);
                assert(g[p].1.contains(ri as usize));
            },
            None => {
                assert(g[prev.len() as int].1[0] == ri as usize);
                assert(g[prev.len() as int].1.contains(ri as usize));
            },
        }
    }
}


impl RouteList {
    /// The index of the selected route, when a route row is selected.
    pub fn selected_route_index(&self) -> (r: Option<usize>)
        ensures
            r == match self.selected_kind() {
                Some(RowKind::Route(ri)) => Some(ri),
                _ => None::<usize>,
            },
    {
        match self.selected_row_kind() {
            Some(RowKind::Route(ri)) => Some(ri),
            _ => None,
        }
    }

    /// The index of the selected group, when a group header is selected.
    pub fn selected_group_index(&self) -> (r: Option<usize>)
        ensures
            r == match self.selected_kind() {
                Some(RowKind::GroupHeader(gi)) => Some(gi),
                _ => None::<usize>,
            },
    {
        match self.selected_row_kind() {
            Some(RowKind::GroupHeader(gi)) => Some(gi),
            _ => None,
        }
    }

    /// The groups, in list order.
    pub fn group_list(&self) -> (r: &Vec<RouteGroup>)
        ensures
            groups_view(r@) == self.groups(),
    {
        &self.groups
    }

    /// The routes listed.
    pub fn route_items(&self) -> (r: &Vec<Route>)
        ensures
            crate::collection::routes_view(r@) == self.routes(),
    {
        &self.routes
    }
}

} // verus!
