//! Bookkeeping for the virtual displays the app creates, and the plan that
//! names them and places them in the display grid.

use vstd::prelude::*;

use crate::grid_layout::{
    first_index, grid_cell, grid_center_index, has_id, is_first_index, lemma_first_index_unique,
    spec_center_main, spec_grid_center_index, spec_grid_col, spec_grid_row, DISPLAY_HEIGHT,
    DISPLAY_WIDTH,
};
use crate::text::{decimal, decimal_string};

verus! {

/// Info about a single virtual display.
pub struct VirtualDisplayInfo {
    pub display_id: u32,
    pub width: u32,
    pub height: u32,
    pub name: String,
}

/// The virtual displays that are alive, in the order they were created.
pub struct VirtualDisplays {
    displays: Vec<VirtualDisplayInfo>,
}

impl View for VirtualDisplays {
    type V = Seq<VirtualDisplayInfo>;

    closed spec fn view(&self) -> Seq<VirtualDisplayInfo> {
        self.displays@
    }
}

/// The displays of `s` whose ids are not in `ids`, in their order.
pub open spec fn without_ids(s: Seq<VirtualDisplayInfo>, ids: Seq<u32>) -> Seq<VirtualDisplayInfo>
    decreases s.len(),
{
    if s.len() == 0 {
        s
    } else {
        let rest = without_ids(s.drop_last(), ids);
        if ids.contains(s.last().display_id) {
            rest
        } else {
            rest.push(s.last())
        }
    }
}

/// The ids of the displays of `s` whose ids are in `ids`, in their order.
pub open spec fn ids_among(s: Seq<VirtualDisplayInfo>, ids: Seq<u32>) -> Seq<u32>
    decreases s.len(),
{
    if s.len() == 0 {
        Seq::empty()
    } else {
        let rest = ids_among(s.drop_last(), ids);
        if ids.contains(s.last().display_id) {
            rest.push(s.last().display_id)
        } else {
            rest
        }
    }
}

fn copy_info(d: &VirtualDisplayInfo) -> (c: VirtualDisplayInfo)
    ensures
        c == *d,
{
    VirtualDisplayInfo {
        display_id: d.display_id,
        width: d.width,
        height: d.height,
        name: d.name.clone(),
    }
}

fn slice_has(ids: &[u32], id: u32) -> (b: bool)
    ensures
        b == ids@.contains(id),
{
    let n = ids.len();
    let mut i: usize = 0;
    while i < n
        invariant
            n == ids@.len(),
            i <= n,
            forall|j: int| 0 <= j < i ==> ids@[j] != id,
        decreases n - i,
    {
        if ids[i] == id {
            assert(ids@[i as int] == id);
            return true;
        }
        i = i + 1;
    }
    false
}

impl VirtualDisplays {
    /// No virtual displays.
    pub fn new() -> (v: Self)
        ensures
            v@ == Seq::<VirtualDisplayInfo>::empty(),
    {
        VirtualDisplays { displays: Vec::new() }
    }

    /// Records a newly created display after the others.
    pub fn add(&mut self, info: VirtualDisplayInfo)
        ensures
            final(self)@ == old(self)@.push(info),
    {
        self.displays.push(info);
    }

    /// Ids of the displays, in order.
    pub fn display_ids(&self) -> (ids: Vec<u32>)
        ensures
            ids@ == self@.map_values(|d: VirtualDisplayInfo| d.display_id),
    {
        let n = self.displays.len();
        let mut ids: Vec<u32> = Vec::new();
        let mut i: usize = 0;
        while i < n
            invariant
                n == self@.len(),
                i <= n,
                ids@ == self@.take(i as int).map_values(|d: VirtualDisplayInfo| d.display_id),
            decreases n - i,
        {
            ids.push(self.displays[i].display_id);
            proof {
                assert(self@.take(i + 1) =~= self@.take(i as int).push(self@[i as int]));
            }
            i = i + 1;
        }
        assert(self@.take(n as int) =~= self@);
        ids
    }

    /// Info about each display, in order.
    pub fn displays(&self) -> (infos: Vec<VirtualDisplayInfo>)
        ensures
            infos@ == self@,
    {
        let n = self.displays.len();
        let mut infos: Vec<VirtualDisplayInfo> = Vec::new();
        let mut i: usize = 0;
        while i < n
            invariant
                n == self@.len(),
                i <= n,
                infos@ == self@.take(i as int),
            decreases n - i,
        {
            infos.push(copy_info(&self.displays[i]));
            proof {
                assert(self@.take(i + 1) =~= self@.take(i as int).push(self@[i as int]));
            }
            i = i + 1;
        }
        assert(self@.take(n as int) =~= self@);
        infos
    }

    /// Drops the displays whose ids are listed in `ids` (those whose modes
    /// never became available) and returns the dropped ids, in display order.
    pub fn remove_displays(&mut self, ids: &[u32]) -> (removed: Vec<u32>)
        ensures
            final(self)@ == without_ids(old(self)@, ids@),
            removed@ == ids_among(old(self)@, ids@),
    {
        let ghost orig = self@;
        let n = self.displays.len();
        let mut kept: Vec<VirtualDisplayInfo> = Vec::new();
        let mut removed: Vec<u32> = Vec::new();
        let mut i: usize = 0;
        while i < n
            invariant
                orig == old(self)@,
                self@ == orig,
                n == orig.len(),
                i <= n,
                kept@ == without_ids(orig.take(i as int), ids@),
                removed@ == ids_among(orig.take(i as int), ids@),
            decreases n - i,
        {
            let d = &self.displays[i];
            proof {
                assert(orig.take(i + 1).drop_last() =~= orig.take(i as int));
                assert(orig.take(i + 1).last() == orig[i as int]);
            }
            if slice_has(ids, d.display_id) {
                removed.push(d.display_id);
            } else {
                kept.push(copy_info(d));
            }
            i = i + 1;
        }
        assert(orig.take(n as int) =~= orig);
        self.displays = kept;
        removed
    }
}

/// Removing the displays listed in `ids` keeps exactly the displays whose id
/// is not listed and reports exactly the listed ids that some display has;
/// every display is either kept or reported.
pub proof fn lemma_remove_displays(s: Seq<VirtualDisplayInfo>, ids: Seq<u32>)
    ensures
        without_ids(s, ids).len() + ids_among(s, ids).len() == s.len(),
        forall|d: VirtualDisplayInfo|
            #[trigger] without_ids(s, ids).contains(d) <==> (s.contains(d) && !ids.contains(
                d.display_id,
            )),
        forall|x: u32|
            #[trigger] ids_among(s, ids).contains(x) <==> (ids.contains(x) && exists|j: int|
                0 <= j < s.len() && #[trigger] s[j].display_id == x),
    decreases s.len(),
{
    if s.len() > 0 {
        let rest = s.drop_last();
        lemma_remove_displays(rest, ids);
        let kept = without_ids(rest, ids);
        let gone = ids_among(rest, ids);
        let last = s.last();
        assert forall|d: VirtualDisplayInfo|
            without_ids(s, ids).contains(d) <==> (s.contains(d) && !ids.contains(d.display_id)) by {
            if without_ids(s, ids).contains(d) {
                if kept.contains(d) {
                    assert(rest.contains(d));
                    let j = choose|j: int| 0 <= j < rest.len() && rest[j] == d;
                    assert(s[j] == d);
                } else {
                    let k = choose|k: int|
                        0 <= k < without_ids(s, ids).len() && without_ids(s, ids)[k] == d;
                    if k < kept.len() {
                        assert(kept[k] == d);
                    }
                    assert(s[s.len() - 1] == d);
                }
            }
            if s.contains(d) && !ids.contains(d.display_id) {
                let j = choose|j: int| 0 <= j < s.len() && s[j] == d;
                if j < s.len() - 1 {
                    assert(rest[j] == d);
                    assert(rest.contains(d));
                    assert(kept.contains(d));
                    let k = choose|k: int| 0 <= k < kept.len() && kept[k] == d;
                    assert(without_ids(s, ids)[k] == kept[k]);
                } else {
                    let w = without_ids(s, ids);
                    assert(w[w.len() - 1] == d);
                }
            }
        }
        assert forall|x: u32|
            ids_among(s, ids).contains(x) <==> (ids.contains(x) && exists|j: int|
                0 <= j < s.len() && #[trigger] s[j].display_id == x) by {
            if ids_among(s, ids).contains(x) {
                if gone.contains(x) {
                    assert(gone.contains(x));
                    let j = choose|j: int| 0 <= j < rest.len() && #[trigger] rest[j].display_id == x;
                    assert(s[j].display_id == x);
                } else {
                    let k = choose|k: int|
                        0 <= k < ids_among(s, ids).len() && ids_among(s, ids)[k] == x;
                    if k < gone.len() {
                        assert(gone[k] == x);
                    }
                    assert(s[s.len() - 1].display_id == x);
                }
            }
            if ids.contains(x) && exists|j: int| 0 <= j < s.len() && #[trigger] s[j].display_id == x {
                let j = choose|j: int| 0 <= j < s.len() && #[trigger] s[j].display_id == x;
                if j < s.len() - 1 {
                    assert(rest[j].display_id == x);
                    assert(gone.contains(x));
                    let k = choose|k: int| 0 <= k < gone.len() && gone[k] == x;
                    assert(ids_among(s, ids)[k] == gone[k]);
                } else {
                    let g = ids_among(s, ids);
                    assert(g[g.len() - 1] == x);
                }
            }
        }
    }
}

/// How the app sets up one virtual display: its serial number, the grid slot
/// it ends up in once the main display has been moved to the centre, that
/// slot's row and column, its resolution and its name.
pub struct VirtualDisplayPlan {
    pub serial: u32,
    pub grid_pos: usize,
    pub row: usize,
    pub col: usize,
    pub width: u32,
    pub height: u32,
    pub name: String,
}

/// Number of virtual displays for a configured screen count: one screen is
/// the main display itself.
pub open spec fn spec_virtual_count(num_screens: nat) -> nat {
    if num_screens >= 1 {
        (num_screens - 1) as nat
    } else {
        0
    }
}

/// Grid slot of virtual display `i` out of `count`: the one created into the
/// centre slot trades places with the main display, which is appended last.
pub open spec fn spec_plan_grid_pos(count: nat, i: nat) -> nat {
    if i == spec_grid_center_index(count + 1) {
        count
    } else {
        i
    }
}

/// Name given to the `k`-th virtual display (counting from one).
pub open spec fn virtual_screen_name(k: nat) -> Seq<char> {
    "Virtual Screen "@ + decimal(k)
}

/// The name of the `k`-th virtual display (counting from one).
pub fn virtual_screen_name_text(k: u32) -> (name: String)
    ensures
        name@ == virtual_screen_name(k as nat),
{
    let mut name = String::from_str("Virtual Screen ");
    let digits = decimal_string(k);
    name.append(digits.as_str());
    name
}

/// Plans the virtual displays for `num_screens` screens in all: one fewer
/// than that, each with its serial number, grid slot, resolution and name.
pub fn plan_virtual_displays(num_screens: u32) -> (plan: Vec<VirtualDisplayPlan>)
    ensures
        plan@.len() == spec_virtual_count(num_screens as nat),
        forall|i: int|
            0 <= i < plan@.len() ==> {
                let p = #[trigger] plan@[i];
                let g = spec_plan_grid_pos(spec_virtual_count(num_screens as nat), i as nat);
                &&& p.serial == i
                &&& p.grid_pos == g
                &&& p.row == spec_grid_row(g)
                &&& p.col == spec_grid_col(g)
                &&& p.row * 3 + p.col == p.grid_pos
                &&& p.col < 3
                &&& p.width == DISPLAY_WIDTH
                &&& p.height == DISPLAY_HEIGHT
                &&& p.name@ == virtual_screen_name((i + 1) as nat)
            },
{
    let count: usize = (num_screens as usize).saturating_sub(1);
    let total = count + 1;
    let center_idx = grid_center_index(total);
    let mut plan: Vec<VirtualDisplayPlan> = Vec::new();
    let mut i: usize = 0;
    while i < count
        invariant
            count == spec_virtual_count(num_screens as nat),
            count < u32::MAX,
            total == count + 1,
            center_idx == spec_grid_center_index(total as nat),
            i <= count,
            plan@.len() == i,
            forall|j: int|
                0 <= j < i ==> {
                    let p = #[trigger] plan@[j];
                    let g = spec_plan_grid_pos(count as nat, j as nat);
                    &&& p.serial == j
                    &&& p.grid_pos == g
                    &&& p.row == spec_grid_row(g)
                    &&& p.col == spec_grid_col(g)
                    &&& p.row * 3 + p.col == p.grid_pos
                    &&& p.col < 3
                    &&& p.width == DISPLAY_WIDTH
                    &&& p.height == DISPLAY_HEIGHT
                    &&& p.name@ == virtual_screen_name((j + 1) as nat)
                },
        decreases count - i,
    {
        let grid_pos = if i == center_idx {
            count
        } else {
            i
        };
        let (row, col) = grid_cell(grid_pos);
        let name = virtual_screen_name_text((i + 1) as u32);
        plan.push(
            VirtualDisplayPlan {
                serial: i as u32,
                grid_pos,
                row,
                col,
                width: DISPLAY_WIDTH,
                height: DISPLAY_HEIGHT,
                name,
            },
        );
        i = i + 1;
    }
    plan
}

/// Each virtual display ends up in the grid slot its plan names: when the list
/// of screens (the virtual displays in creation order, then the main display,
/// whose id occurs nowhere else) is reordered to centre the main display,
/// virtual display `i` lands in slot `spec_plan_grid_pos(count, i)` and the
/// main display in the centre slot.
pub proof fn lemma_plan_matches_centering<T>(s: Seq<T>, ids: Seq<u32>, main_id: u32)
    requires
        s.len() >= 1,
        ids.len() == s.len(),
        ids[s.len() - 1] == main_id,
        forall|j: int| 0 <= j < s.len() - 1 ==> ids[j] != main_id,
    ensures
        ({
            let count = (s.len() - 1) as nat;
            let r = spec_center_main(s, ids, main_id);
            &&& r.len() == s.len()
            &&& r[spec_grid_center_index(s.len())] == s[count as int]
            &&& forall|i: int|
                0 <= i < count ==> r[spec_plan_grid_pos(count, i as nat) as int] == s[i]
        }),
{
    let count = (s.len() - 1) as nat;
    if s.len() > 1 {
        assert(is_first_index(ids, main_id, count as int));
        assert(has_id(ids, main_id));
        lemma_first_index_unique(ids, main_id, count as int, first_index(ids, main_id));
    }
}

} // verus!
