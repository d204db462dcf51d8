//! Shared constants and helpers for the display grid layout.

use vstd::prelude::*;

verus! {

/// Number of columns in the display grid.
pub const GRID_COLS: usize = 3;

/// Standard pixel width for all displays (matching virtual displays).
pub const DISPLAY_WIDTH: u32 = 1920;

/// Standard pixel height for all displays (matching virtual displays).
pub const DISPLAY_HEIGHT: u32 = 1080;

/// Swaps two elements of a slice; std panics when either index is out of
/// bounds, and otherwise exchanges the two elements and leaves all others.
pub assume_specification<Elem>[ <[Elem]>::swap ](slice: &mut [Elem], a: usize, b: usize)
    requires
        a < old(slice)@.len(),
        b < old(slice)@.len(),
    ensures
        final(slice)@ == old(slice)@.update(a as int, old(slice)@[b as int]).update(
            b as int,
            old(slice)@[a as int],
        ),
;

/// Number of grid rows needed for `n` screens (`n` divided by the column
/// count, rounded up).
pub open spec fn spec_grid_rows(n: nat) -> nat {
    n / 3 + if n % 3 == 0 { 0nat } else { 1nat }
}

/// Index of the grid cell in the middle column of the middle row, clamped to
/// the last screen.
pub open spec fn spec_grid_center_index(n: nat) -> int {
    let c = (spec_grid_rows(n) / 2) * 3 + 1;
    if c <= n - 1 {
        c as int
    } else {
        n - 1
    }
}

/// The centre slot of a grid of `n` screens: the middle column (column 1) of
/// the middle row (row `rows / 2`, with `rows = (n + 2) / 3` rows), unless the
/// grid has no screen there, in which case the last screen's slot.
pub open spec fn center_cell_law(n: int, c: int) -> bool {
    let middle = ((n + 2) / 3 / 2) * 3 + 1;
    &&& 0 <= c < n
    &&& (middle < n ==> c % 3 == 1 && c / 3 == (n + 2) / 3 / 2)
    &&& (middle >= n ==> c == n - 1)
}

/// Row of the grid cell that holds screen `i`.
pub open spec fn spec_grid_row(i: nat) -> nat {
    i / 3
}

/// Column of the grid cell that holds screen `i`.
pub open spec fn spec_grid_col(i: nat) -> nat {
    i % 3
}

/// Number of grid rows needed for `n` screens.
pub fn grid_rows(n: usize) -> (rows: usize)
    ensures
        rows == spec_grid_rows(n as nat),
{
    n / GRID_COLS + if n % GRID_COLS == 0 {
        0
    } else {
        1
    }
}

/// Index of the screen slot at the centre of a grid of `n` screens: the middle
/// column of the middle row, or the last slot when the grid is too small.
pub fn grid_center_index(n: usize) -> (c: usize)
    requires
        n >= 1,
    ensures
        c == spec_grid_center_index(n as nat),
        c < n,
        center_cell_law(n as int, c as int),
{
    let rows = grid_rows(n);
    assert(rows <= n) by (nonlinear_arith)
        requires
            rows == n / 3 + if n % 3 == 0 { 0nat } else { 1nat },
            n >= 1,
    ;
    let center = (rows / 2) * GRID_COLS + GRID_COLS / 2;
    if center <= n - 1 {
        center
    } else {
        n - 1
    }
}

/// Row and column of the grid cell that holds screen `i` (rows fill left to
/// right, top row first).
pub fn grid_cell(i: usize) -> (cell: (usize, usize))
    ensures
        cell.0 == spec_grid_row(i as nat),
        cell.1 == spec_grid_col(i as nat),
        cell.1 < GRID_COLS,
        cell.0 * 3 + cell.1 == i,
        cell.1 < 3,
{
    (i / GRID_COLS, i % GRID_COLS)
}

/// `p` is the position of the first occurrence of `x` in `ids`.
pub open spec fn is_first_index(ids: Seq<u32>, x: u32, p: int) -> bool {
    &&& 0 <= p < ids.len()
    &&& ids[p] == x
    &&& forall|j: int| 0 <= j < p ==> ids[j] != x
}

/// `x` occurs in `ids`.
pub open spec fn has_id(ids: Seq<u32>, x: u32) -> bool {
    exists|p: int| is_first_index(ids, x, p)
}

/// The position of the first occurrence of `x` in `ids` (meaningful when
/// `has_id(ids, x)`).
pub open spec fn first_index(ids: Seq<u32>, x: u32) -> int {
    choose|p: int| is_first_index(ids, x, p)
}

/// The reordering that puts the first entry whose id is `main_id` into the
/// centre slot of the grid, swapping it with whatever stood there. Lists of at
/// most one entry, and lists whose ids do not hold `main_id`, stay as they are.
/// `ids[j]` is the id of `s[j]`.
pub open spec fn spec_center_main<T>(s: Seq<T>, ids: Seq<u32>, main_id: u32) -> Seq<T> {
    if s.len() > 1 && has_id(ids, main_id) {
        let p = first_index(ids, main_id);
        let c = spec_grid_center_index(s.len());
        s.update(p, s[c]).update(c, s[p])
    } else {
        s
    }
}

/// The ids in `ids` are outcomes of calling `get_id` on the first entries of
/// `s`, in order.
pub open spec fn observed_ids<T, F: Fn(&T) -> u32>(get_id: F, s: Seq<T>, ids: Seq<u32>) -> bool {
    &&& ids.len() <= s.len()
    &&& forall|j: int| 0 <= j < ids.len() ==> call_ensures(get_id, (&s[j],), #[trigger] ids[j])
}

/// The search over a list of `n` entries looked at no entry when `n <= 1`, and
/// otherwise stopped at the first entry with id `main_id`, or looked at every
/// entry when none had it.
pub open spec fn search_done(ids: Seq<u32>, main_id: u32, n: nat) -> bool {
    if n <= 1 {
        ids.len() == 0
    } else {
        ||| ids.len() == n && !has_id(ids, main_id)
        ||| ids.len() >= 1 && is_first_index(ids, main_id, ids.len() - 1)
    }
}

/// Two first occurrences coincide.
pub proof fn lemma_first_index_unique(ids: Seq<u32>, x: u32, p: int, q: int)
    requires
        is_first_index(ids, x, p),
        is_first_index(ids, x, q),
    ensures
        p == q,
{
    if p < q {
        assert(ids[p] != x);
    } else if q < p {
        assert(ids[q] != x);
    }
}

/// An id that occurs at some position has a first occurrence.
pub proof fn lemma_has_id_at(ids: Seq<u32>, x: u32, k: int)
    requires
        0 <= k < ids.len(),
        ids[k] == x,
    ensures
        has_id(ids, x),
    decreases k,
{
    if forall|j: int| 0 <= j < k ==> ids[j] != x {
        assert(is_first_index(ids, x, k));
    } else {
        let j = choose|j: int| 0 <= j < k && ids[j] == x;
        lemma_has_id_at(ids, x, j);
    }
}

/// Reorder a list of display specs so that the entry matching `main_id`
/// lands at the center of a 3-column grid.
pub fn center_main_display<T, F>(specs: &mut [T], main_id: u32, get_id: F)
    where
        F: Fn(&T) -> u32,
    requires
        forall|j: int| 0 <= j < old(specs)@.len() ==> call_requires(get_id, (&old(specs)@[j],)),
    ensures
        final(specs)@.len() == old(specs)@.len(),
        exists|ids: Seq<u32>|
            {
                &&& #[trigger] observed_ids(get_id, old(specs)@, ids)
                &&& search_done(ids, main_id, old(specs)@.len())
                &&& final(specs)@ == spec_center_main(old(specs)@, ids, main_id)
            },
{
    let n = specs.len();
    if n <= 1 {
        assert(observed_ids(get_id, specs@, Seq::<u32>::empty()));
        return;
    }
    let ghost orig = specs@;
    let ghost mut ids: Seq<u32> = Seq::empty();
    let mut i: usize = 0;
    while i < n
        invariant
            n == specs@.len(),
            n > 1,
            specs@ == orig,
            orig == old(specs)@,
            i <= n,
            ids.len() == i,
            observed_ids(get_id, orig, ids),
            forall|j: int| 0 <= j < i ==> ids[j] != main_id,
            forall|j: int| 0 <= j < n ==> call_requires(get_id, (&orig[j],)),
        decreases n - i,
    {
        let id = get_id(&specs[i]);
        proof {
            ids = ids.push(id);
            assert(observed_ids(get_id, orig, ids)) by {
                assert forall|j: int| 0 <= j < ids.len() implies call_ensures(
                    get_id,
                    (&orig[j],),
                    #[trigger] ids[j],
                ) by {
                    if j < i {
                        assert(ids[j] == ids.drop_last()[j]);
                    }
                }
            }
        }
        if id == main_id {
            let c = grid_center_index(n);
            specs.swap(i, c);
            proof {
                assert(is_first_index(ids, main_id, i as int));
                assert(has_id(ids, main_id));
                lemma_first_index_unique(ids, main_id, i as int, first_index(ids, main_id));
                assert(search_done(ids, main_id, n as nat));
            }
            return;
        }
        i = i + 1;
    }
    proof {
        assert(!has_id(ids, main_id)) by {
            if has_id(ids, main_id) {
                let p = choose|p: int| is_first_index(ids, main_id, p);
                assert(ids[p] != main_id);
            }
        }
        assert(search_done(ids, main_id, n as nat));
    }
}

/// The outcome of a search that stopped early agrees with the reordering
/// computed from all ids: once the ids the search looked at are a prefix of
/// the full id list, the result is the same.
pub proof fn lemma_center_main_prefix<T>(s: Seq<T>, seen: Seq<u32>, ids: Seq<u32>, main_id: u32)
    requires
        ids.len() == s.len(),
        seen.len() <= ids.len(),
        seen =~= ids.take(seen.len() as int),
        search_done(seen, main_id, s.len()),
    ensures
        spec_center_main(s, seen, main_id) == spec_center_main(s, ids, main_id),
{
    if s.len() > 1 {
        if has_id(seen, main_id) {
            let p = first_index(seen, main_id);
            assert(is_first_index(seen, main_id, p));
            assert forall|j: int| 0 <= j <= p implies ids[j] == seen[j] by {
                assert(seen[j] == ids.take(seen.len() as int)[j]);
            }
            assert(is_first_index(ids, main_id, p));
            lemma_first_index_unique(ids, main_id, p, first_index(ids, main_id));
        } else {
            assert(seen.len() == s.len());
            assert(seen =~= ids);
        }
    }
}

/// Where the main display sits after the reordering: when the list holds more
/// than one entry and some entry has the main id, the centre slot holds the
/// first such entry, that entry's old slot holds what stood in the centre, and
/// every other slot is unchanged.
pub proof fn lemma_center_main_places_main<T>(s: Seq<T>, ids: Seq<u32>, main_id: u32)
    requires
        ids.len() == s.len(),
        s.len() > 1,
        has_id(ids, main_id),
    ensures
        ({
            let r = spec_center_main(s, ids, main_id);
            let c = spec_grid_center_index(s.len());
            let p = first_index(ids, main_id);
            &&& r.len() == s.len()
            &&& 0 <= c < s.len()
            &&& r[c] == s[p]
            &&& r[p] == s[c]
            &&& forall|j: int| 0 <= j < s.len() && j != p && j != c ==> r[j] == s[j]
        }),
        spec_center_main(ids, ids, main_id)[spec_grid_center_index(s.len())] == main_id,
{
    let p = first_index(ids, main_id);
    assert(is_first_index(ids, main_id, p));
}

/// The reordering depends on the ids alone: two lists with the same ids (such
/// as the screen textures and the capture streams built from one display
/// list) are permuted alike, so entry `i` of each comes from the same slot.
pub proof fn lemma_center_main_by_ids<A, B>(a: Seq<A>, b: Seq<B>, ids: Seq<u32>, main_id: u32)
    requires
        a.len() == ids.len(),
        b.len() == ids.len(),
    ensures
        ({
            let order = spec_center_main(Seq::new(ids.len(), |i: int| i), ids, main_id);
            &&& spec_center_main(a, ids, main_id) == order.map_values(|j: int| a[j])
            &&& spec_center_main(b, ids, main_id) == order.map_values(|j: int| b[j])
        }),
{
    let idx = Seq::new(ids.len(), |i: int| i);
    let order = spec_center_main(idx, ids, main_id);
    assert(spec_center_main(a, ids, main_id) =~= order.map_values(|j: int| a[j]));
    assert(spec_center_main(b, ids, main_id) =~= order.map_values(|j: int| b[j]));
}

/// Reordering an already reordered list again changes nothing when the main
/// id occurs once: the main entry already sits in the centre slot.
pub proof fn lemma_center_main_idempotent<T>(s: Seq<T>, ids: Seq<u32>, main_id: u32)
    requires
        ids.len() == s.len(),
        forall|j: int, k: int|
            0 <= j < ids.len() && 0 <= k < ids.len() && ids[j] == main_id && ids[k] == main_id
                ==> j == k,
    ensures
        spec_center_main(spec_center_main(s, ids, main_id), spec_center_main(ids, ids, main_id), main_id)
            == spec_center_main(s, ids, main_id),
{
    let r = spec_center_main(s, ids, main_id);
    let rids = spec_center_main(ids, ids, main_id);
    if s.len() > 1 && has_id(ids, main_id) {
        let p = first_index(ids, main_id);
        let c = spec_grid_center_index(s.len());
        assert(is_first_index(ids, main_id, p));
        assert(rids[c] == main_id);
        assert forall|j: int| 0 <= j < c implies rids[j] != main_id by {
            if j == p {
                assert(ids[c] == main_id ==> c == p);
            } else {
                assert(rids[j] == ids[j]);
            }
        }
        assert(is_first_index(rids, main_id, c));
        lemma_first_index_unique(rids, main_id, c, first_index(rids, main_id));
        assert(spec_center_main(r, rids, main_id) =~= r);
    } else if s.len() > 1 {
        assert(rids == ids);
    }
}

/// The centre slot lies in the middle column of the middle row of the grid,
/// or is the last slot when that cell holds no screen.
pub proof fn lemma_grid_center(n: nat)
    requires
        n >= 1,
    ensures
        center_cell_law(n as int, spec_grid_center_index(n)),
{
    assert(spec_grid_rows(n) == (n + 2) / 3);
}

/// Screen `i` sits in row `r` and column `c` exactly when `r * 3 + c == i`
/// and `c < 3`: rows fill left to right, top row first, so distinct screens
/// get distinct cells and every cell of a row is used before the next row.
pub proof fn lemma_grid_cells(i: nat, j: nat)
    ensures
        spec_grid_row(i) * 3 + spec_grid_col(i) == i,
        spec_grid_col(i) < 3,
        i != j ==> (spec_grid_row(i), spec_grid_col(i)) != (spec_grid_row(j), spec_grid_col(j)),
{
}

} // verus!
