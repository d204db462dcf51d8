//! Which displays are shown and captured, in which grid order, and which
//! capturable display serves each of them.

use vstd::prelude::*;

use crate::grid_layout::{
    center_main_display, first_index, has_id, lemma_center_main_by_ids, lemma_center_main_prefix,
    observed_ids, search_done, spec_center_main,
};

verus! {

/// The display ids of a list of `(display_id, width, height)` specs.
pub open spec fn spec_ids<W>(specs: Seq<(u32, W, W)>) -> Seq<u32> {
    specs.map_values(|s: (u32, W, W)| s.0)
}

/// `specs` with the main display appended at the given size, unless one of
/// the specs already has its id.
pub open spec fn with_main_display<W>(
    specs: Seq<(u32, W, W)>,
    main_id: u32,
    width: W,
    height: W,
) -> Seq<(u32, W, W)> {
    if spec_ids(specs).contains(main_id) {
        specs
    } else {
        specs.push((main_id, width, height))
    }
}

/// The screen list that the stage shows and the capture streams follow: the
/// given displays, the main display added when missing, then reordered so the
/// main display sits at the centre of the grid.
pub open spec fn arranged_specs<W>(
    specs: Seq<(u32, W, W)>,
    main_id: u32,
    width: W,
    height: W,
) -> Seq<(u32, W, W)> {
    let all = with_main_display(specs, main_id, width, height);
    spec_center_main(all, spec_ids(all), main_id)
}

/// Always include the main display (at the given size) among the specs.
pub fn include_main_display<W>(specs: &mut Vec<(u32, W, W)>, main_id: u32, width: W, height: W)
    ensures
        final(specs)@ == with_main_display(old(specs)@, main_id, width, height),
        (exists|j: int| 0 <= j < old(specs)@.len() && #[trigger] old(specs)@[j].0 == main_id)
            ==> final(specs)@ == old(specs)@,
        !(exists|j: int| 0 <= j < old(specs)@.len() && #[trigger] old(specs)@[j].0 == main_id)
            ==> final(specs)@ == old(specs)@.push((main_id, width, height)),
{
    let n = specs.len();
    let mut i: usize = 0;
    while i < n
        invariant
            n == specs@.len(),
            i <= n,
            forall|j: int| 0 <= j < i ==> specs@[j].0 != main_id,
        decreases n - i,
    {
        if specs[i].0 == main_id {
            assert(spec_ids(specs@)[i as int] == main_id);
            return;
        }
        i = i + 1;
    }
    assert(!spec_ids(specs@).contains(main_id)) by {
        if spec_ids(specs@).contains(main_id) {
            let j = choose|j: int| 0 <= j < n && spec_ids(specs@)[j] == main_id;
            assert(specs@[j].0 == main_id);
        }
    }
    specs.push((main_id, width, height));
}

/// Builds the screen list: adds the main display when missing and reorders
/// so that the main display lands at the centre of the grid.
pub fn arrange_display_specs<W>(specs: Vec<(u32, W, W)>, main_id: u32, width: W, height: W) -> (arranged:
    Vec<(u32, W, W)>)
    ensures
        arranged@ == arranged_specs(specs@, main_id, width, height),
{
    let mut all = specs;
    include_main_display(&mut all, main_id, width, height);
    let ghost before = all@;
    let get_id = |s: &(u32, W, W)| -> (id: u32)
        ensures
            id == s.0,
        { s.0 };
    center_main_display(all.as_mut_slice(), main_id, get_id);
    proof {
        let seen = choose|seen: Seq<u32>|
            {
                &&& #[trigger] observed_ids(get_id, before, seen)
                &&& search_done(seen, main_id, before.len())
                &&& all@ == spec_center_main(before, seen, main_id)
            };
        let ids = spec_ids(before);
        assert(seen =~= ids.take(seen.len() as int)) by {
            assert forall|j: int| 0 <= j < seen.len() implies seen[j] == ids[j] by {
                assert(call_ensures(get_id, (&before[j],), seen[j]));
            }
        }
        lemma_center_main_prefix(before, seen, ids, main_id);
    }
    all
}

/// A display to capture: the index of its frame channel, the position of the
/// capturable display with its id, and the capture size.
pub struct CaptureTarget {
    pub sender_idx: usize,
    pub source_idx: usize,
    pub width: usize,
    pub height: usize,
}

/// For each spec whose display is among the capturable displays, in order, the
/// spec's index, the position of the first capturable display with its id, and
/// the spec's size; specs whose display cannot be captured are skipped.
pub open spec fn spec_capture_targets(specs: Seq<(u32, usize, usize)>, sources: Seq<u32>) -> Seq<
    CaptureTarget,
>
    decreases specs.len(),
{
    if specs.len() == 0 {
        Seq::empty()
    } else {
        let rest = spec_capture_targets(specs.drop_last(), sources);
        let s = specs.last();
        if has_id(sources, s.0) {
            rest.push(
                CaptureTarget {
                    sender_idx: (specs.len() - 1) as usize,
                    source_idx: first_index(sources, s.0) as usize,
                    width: s.1,
                    height: s.2,
                },
            )
        } else {
            rest
        }
    }
}

fn find_source(sources: &[u32], id: u32) -> (found: Option<usize>)
    ensures
        match found {
            Some(p) => has_id(sources@, id) && p == first_index(sources@, id),
            None => !has_id(sources@, id),
        },
{
    let n = sources.len();
    let mut i: usize = 0;
    while i < n
        invariant
            n == sources@.len(),
            i <= n,
            forall|j: int| 0 <= j < i ==> sources@[j] != id,
        decreases n - i,
    {
        if sources[i] == id {
            proof {
                assert(crate::grid_layout::is_first_index(sources@, id, i as int));
                crate::grid_layout::lemma_first_index_unique(
                    sources@,
                    id,
                    i as int,
                    first_index(sources@, id),
                );
            }
            return Some(i);
        }
        i = i + 1;
    }
    assert(!has_id(sources@, id)) by {
        if has_id(sources@, id) {
            let p = choose|p: int| crate::grid_layout::is_first_index(sources@, id, p);
            assert(sources@[p] != id);
        }
    }
    None
}

/// Matches each display spec to the capturable display with the same id.
pub fn capture_targets(specs: &[(u32, usize, usize)], source_ids: &[u32]) -> (targets: Vec<
    CaptureTarget,
>)
    ensures
        targets@ == spec_capture_targets(specs@, source_ids@),
{
    let n = specs.len();
    let mut targets: Vec<CaptureTarget> = Vec::new();
    let mut i: usize = 0;
    while i < n
        invariant
            n == specs@.len(),
            i <= n,
            targets@ == spec_capture_targets(specs@.take(i as int), source_ids@),
        decreases n - i,
    {
        let (id, w, h) = specs[i];
        proof {
            assert(specs@.take(i + 1).drop_last() =~= specs@.take(i as int));
        }
        match find_source(source_ids, id) {
            Some(p) => {
                targets.push(CaptureTarget { sender_idx: i, source_idx: p, width: w, height: h });
            },
            None => {},
        }
        i = i + 1;
    }
    assert(specs@.take(n as int) =~= specs@);
    targets
}

/// Each capture target pairs a display spec with a capturable display of the
/// same id (the first such), carries the spec's size, targets come in the
/// order of the specs, and every spec whose display can be captured gets one.
pub proof fn lemma_capture_targets(specs: Seq<(u32, usize, usize)>, sources: Seq<u32>)
    requires
        specs.len() <= usize::MAX,
        sources.len() <= usize::MAX,
    ensures
        ({
            let t = spec_capture_targets(specs, sources);
            &&& t.len() <= specs.len()
            &&& forall|k: int|
                0 <= k < t.len() ==> {
                    let s = #[trigger] t[k];
                    &&& s.sender_idx < specs.len()
                    &&& s.source_idx < sources.len()
                    &&& sources[s.source_idx as int] == specs[s.sender_idx as int].0
                    &&& forall|j: int| 0 <= j < s.source_idx ==> sources[j] != specs[s.sender_idx as int].0
                    &&& s.width == specs[s.sender_idx as int].1
                    &&& s.height == specs[s.sender_idx as int].2
                }
            &&& forall|a: int, b: int|
                0 <= a < b < t.len() ==> (#[trigger] t[a]).sender_idx < (#[trigger] t[b]).sender_idx
            &&& forall|i: int, j: int|
                0 <= i < specs.len() && 0 <= j < sources.len() && #[trigger] sources[j]
                    == #[trigger] specs[i].0 ==> exists|k: int|
                    0 <= k < t.len() && (#[trigger] t[k]).sender_idx == i
        }),
    decreases specs.len(),
{
    if specs.len() > 0 {
        let rest = specs.drop_last();
        lemma_capture_targets(rest, sources);
        let tr = spec_capture_targets(rest, sources);
        let t = spec_capture_targets(specs, sources);
        let last = specs.last();
        let n = specs.len() - 1;
        if has_id(sources, last.0) {
            let p = first_index(sources, last.0);
            assert(crate::grid_layout::is_first_index(sources, last.0, p));
            assert(t.len() == tr.len() + 1);
            assert(t[t.len() - 1].sender_idx == n);
            assert(t[t.len() - 1].source_idx == p);
        } else {
            assert(t == tr);
        }
        assert forall|k: int| 0 <= k < tr.len() implies t[k] == tr[k] by {}
        assert forall|k: int| 0 <= k < tr.len() implies (#[trigger] tr[k]).sender_idx < n by {}
        assert forall|k: int| 0 <= k < t.len() implies ({
            let s = #[trigger] t[k];
            &&& s.sender_idx < specs.len()
            &&& s.source_idx < sources.len()
            &&& sources[s.source_idx as int] == specs[s.sender_idx as int].0
            &&& forall|j: int| 0 <= j < s.source_idx ==> sources[j] != specs[s.sender_idx as int].0
            &&& s.width == specs[s.sender_idx as int].1
            &&& s.height == specs[s.sender_idx as int].2
        }) by {
            if k < tr.len() {
                assert(t[k] == tr[k]);
                assert(specs[tr[k].sender_idx as int] == rest[tr[k].sender_idx as int]);
            }
        }
        assert forall|i: int, j: int|
            0 <= i < specs.len() && 0 <= j < sources.len() && #[trigger] sources[j]
                == #[trigger] specs[i].0 implies exists|k: int|
            0 <= k < t.len() && (#[trigger] t[k]).sender_idx == i by {
            if i < n {
                assert(rest[i] == specs[i]);
                assert(sources[j] == rest[i].0);
                let k = choose|k: int| 0 <= k < tr.len() && (#[trigger] tr[k]).sender_idx == i;
                assert(t[k] == tr[k]);
            } else {
                crate::grid_layout::lemma_has_id_at(sources, last.0, j);
                assert(t[t.len() - 1].sender_idx == i);
            }
        }
    }
}

/// Whether the running capture must be rebuilt: some stream has reported that
/// it stopped with an error.
pub fn any_stream_stopped(stopped: &[bool]) -> (restart: bool)
    ensures
        restart == stopped@.contains(true),
{
    let n = stopped.len();
    let mut i: usize = 0;
    while i < n
        invariant
            n == stopped@.len(),
            i <= n,
            forall|j: int| 0 <= j < i ==> !stopped@[j],
        decreases n - i,
    {
        if stopped[i] {
            assert(stopped@[i as int]);
            return true;
        }
        i = i + 1;
    }
    false
}

/// The ids of the arranged list are the arranged ids.
proof fn lemma_arranged_ids<W>(specs: Seq<(u32, W, W)>, main_id: u32, width: W, height: W)
    ensures
        ({
            let all = with_main_display(specs, main_id, width, height);
            spec_ids(arranged_specs(specs, main_id, width, height)) == spec_center_main(
                spec_ids(all),
                spec_ids(all),
                main_id,
            )
        }),
{
    let all = with_main_display(specs, main_id, width, height);
    let ids = spec_ids(all);
    lemma_center_main_by_ids(all, ids, ids, main_id);
    let order = spec_center_main(Seq::new(ids.len(), |i: int| i), ids, main_id);
    assert(spec_ids(spec_center_main(all, ids, main_id)) =~= order.map_values(|j: int| ids[j]));
}

/// Screen textures and capture streams line up: two display lists with the
/// same ids in the same order (whatever sizes they carry) are arranged into
/// lists whose ids again agree slot by slot, so frame channel `i` feeds
/// screen `i`.
pub proof fn lemma_arranged_lists_align<W, V>(
    a: Seq<(u32, W, W)>,
    b: Seq<(u32, V, V)>,
    main_id: u32,
    wa: W,
    ha: W,
    wb: V,
    hb: V,
)
    requires
        spec_ids(a) == spec_ids(b),
    ensures
        spec_ids(arranged_specs(a, main_id, wa, ha)) == spec_ids(
            arranged_specs(b, main_id, wb, hb),
        ),
{
    lemma_arranged_ids(a, main_id, wa, ha);
    lemma_arranged_ids(b, main_id, wb, hb);
    let all_a = with_main_display(a, main_id, wa, ha);
    let all_b = with_main_display(b, main_id, wb, hb);
    if spec_ids(a).contains(main_id) {
        assert(spec_ids(all_a) == spec_ids(all_b));
    } else {
        assert(spec_ids(all_a) =~= spec_ids(a).push(main_id));
        assert(spec_ids(all_b) =~= spec_ids(b).push(main_id));
    }
}

/// After arranging, the main display is in the list and sits in the centre
/// slot of the grid.
pub proof fn lemma_arranged_main_centred<W>(specs: Seq<(u32, W, W)>, main_id: u32, width: W, height: W)
    ensures
        ({
            let r = arranged_specs(specs, main_id, width, height);
            &&& r.len() >= 1
            &&& r[crate::grid_layout::spec_grid_center_index(r.len())].0 == main_id
        }),
{
    let all = with_main_display(specs, main_id, width, height);
    let ids = spec_ids(all);
    assert(ids.contains(main_id)) by {
        if !spec_ids(specs).contains(main_id) {
            assert(ids[specs.len() as int] == main_id);
        }
    }
    let k = choose|k: int| 0 <= k < ids.len() && ids[k] == main_id;
    crate::grid_layout::lemma_has_id_at(ids, main_id, k);
    lemma_arranged_ids(specs, main_id, width, height);
    if all.len() > 1 {
        crate::grid_layout::lemma_center_main_places_main(all, ids, main_id);
    }
}

} // verus!
