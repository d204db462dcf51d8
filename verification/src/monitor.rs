//! Choosing the monitor of the AR glasses among the connected monitors, and
//! the per-frame scan that waits for it to appear.

use vstd::prelude::*;

use crate::text::{contains_text, has_substring, lowercase_of, starts_with, to_lowercase};
use crate::virtual_display::virtual_screen_name;

verus! {

/// Maximum number of update frames to wait for the glasses monitor to appear.
pub const GLASSES_SCAN_MAX_FRAMES: u32 = 300;

/// What the selection reads of a connected monitor.
pub struct MonitorInfo {
    pub name: Option<String>,
    pub refresh_rate_millihertz: Option<u32>,
    pub is_primary: bool,
}

/// Names of the app's own virtual displays start with this.
pub open spec fn virtual_prefix() -> Seq<char> {
    "Virtual Screen"@
}

/// The monitor is one of the app's virtual displays, judged by its name.
pub open spec fn is_virtual_monitor(m: MonitorInfo) -> bool {
    match m.name {
        Some(n) => virtual_prefix().is_prefix_of(n@),
        None => false,
    }
}

/// Refresh rate used for ranking; an unknown rate counts as zero.
pub open spec fn refresh_key(m: MonitorInfo) -> u32 {
    match m.refresh_rate_millihertz {
        Some(r) => r,
        None => 0,
    }
}

/// A monitor that the automatic choice considers: not primary, not virtual.
pub open spec fn is_auto_candidate(m: MonitorInfo) -> bool {
    !m.is_primary && !is_virtual_monitor(m)
}

/// A monitor whose lower-cased name contains the lower-cased filter, and
/// which is not virtual.
pub open spec fn matches_filter(m: MonitorInfo, filter: Seq<char>) -> bool {
    &&& !is_virtual_monitor(m)
    &&& m.name is Some
    &&& has_substring(lowercase_of(m.name.unwrap()@), lowercase_of(filter))
}

/// `sel` is the monitor to use: without a filter, the candidate with the
/// highest refresh rate (the last one among equals); with a filter, the first
/// non-virtual monitor whose name matches it; `None` when there is none.
pub open spec fn is_glasses_choice(
    monitors: Seq<MonitorInfo>,
    filter: Option<Seq<char>>,
    sel: Option<usize>,
) -> bool {
    match filter {
        None => match sel {
            None => forall|j: int| 0 <= j < monitors.len() ==> !is_auto_candidate(#[trigger] monitors[j]),
            Some(i) => {
                &&& i < monitors.len()
                &&& is_auto_candidate(monitors[i as int])
                &&& forall|j: int|
                    0 <= j < monitors.len() && is_auto_candidate(#[trigger] monitors[j])
                        ==> refresh_key(monitors[j]) <= refresh_key(monitors[i as int])
                &&& forall|j: int|
                    i < j < monitors.len() && is_auto_candidate(#[trigger] monitors[j])
                        ==> refresh_key(monitors[j]) < refresh_key(monitors[i as int])
            },
        },
        Some(f) => match sel {
            None => forall|j: int| 0 <= j < monitors.len() ==> !matches_filter(#[trigger] monitors[j], f),
            Some(i) => {
                &&& i < monitors.len()
                &&& matches_filter(monitors[i as int], f)
                &&& forall|j: int| 0 <= j < i ==> !matches_filter(#[trigger] monitors[j], f)
            },
        },
    }
}

/// The monitor is one of the app's virtual displays (its name starts with
/// "Virtual Screen").
pub fn is_virtual(m: &MonitorInfo) -> (b: bool)
    ensures
        b == is_virtual_monitor(*m),
        b == (m.name is Some && seq!['V', 'i', 'r', 't', 'u', 'a', 'l', ' ', 'S', 'c', 'r', 'e', 'e', 'n'].is_prefix_of(
            m.name.unwrap()@,
        )),
{
    proof {
        reveal_strlit("Virtual Screen");
        assert("Virtual Screen"@ =~= seq!['V', 'i', 'r', 't', 'u', 'a', 'l', ' ', 'S', 'c', 'r', 'e', 'e', 'n']);
    }
    match &m.name {
        Some(n) => {
            let r = starts_with(n.as_str(), "Virtual Screen");
            proof {
                reveal_strlit("Virtual Screen");
            }
            r
        },
        None => false,
    }
}

fn refresh_of(m: &MonitorInfo) -> (r: u32)
    ensures
        r == refresh_key(*m),
{
    match m.refresh_rate_millihertz {
        Some(r) => r,
        None => 0,
    }
}

fn select_fastest(monitors: &[MonitorInfo]) -> (sel: Option<usize>)
    ensures
        is_glasses_choice(monitors@, None, sel),
{
    let n = monitors.len();
    let mut best: Option<usize> = None;
    let mut i: usize = 0;
    while i < n
        invariant
            n == monitors@.len(),
            i <= n,
            match best {
                None => forall|j: int| 0 <= j < i ==> !is_auto_candidate(#[trigger] monitors@[j]),
                Some(b) => {
                    &&& b < i
                    &&& is_auto_candidate(monitors@[b as int])
                    &&& forall|j: int|
                        0 <= j < i && is_auto_candidate(#[trigger] monitors@[j]) ==> refresh_key(
                            monitors@[j],
                        ) <= refresh_key(monitors@[b as int])
                    &&& forall|j: int|
                        b < j < i && is_auto_candidate(#[trigger] monitors@[j]) ==> refresh_key(
                            monitors@[j],
                        ) < refresh_key(monitors@[b as int])
                },
            },
        decreases n - i,
    {
        let m = &monitors[i];
        if !m.is_primary && !is_virtual(m) {
            let key = refresh_of(m);
            match best {
                None => {
                    best = Some(i);
                },
                Some(b) => {
                    if key >= refresh_of(&monitors[b]) {
                        best = Some(i);
                    }
                },
            }
        }
        i = i + 1;
    }
    best
}

/// A non-virtual monitor whose already lower-cased name contains the
/// lower-cased filter `lowered_filter`.
pub open spec fn lowered_match(m: MonitorInfo, lowered_name: Option<String>, lowered_filter: Seq<
    char,
>) -> bool {
    &&& !is_virtual_monitor(m)
    &&& lowered_name is Some
    &&& has_substring(lowered_name.unwrap()@, lowered_filter)
}

/// Given each monitor's lower-cased name (`lowered_names[i]` for
/// `monitors[i]`) and the lower-cased filter, picks the first non-virtual
/// monitor whose name contains the filter.
pub fn select_by_lowered_name(
    monitors: &[MonitorInfo],
    lowered_names: &[Option<String>],
    lowered_filter: &str,
) -> (sel: Option<usize>)
    requires
        lowered_names@.len() == monitors@.len(),
    ensures
        match sel {
            Some(i) => {
                &&& i < monitors@.len()
                &&& lowered_match(monitors@[i as int], lowered_names@[i as int], lowered_filter@)
                &&& forall|j: int|
                    0 <= j < i ==> !lowered_match(
                        #[trigger] monitors@[j],
                        lowered_names@[j],
                        lowered_filter@,
                    )
            },
            None => forall|j: int|
                0 <= j < monitors@.len() ==> !lowered_match(
                    #[trigger] monitors@[j],
                    lowered_names@[j],
                    lowered_filter@,
                ),
        },
{
    let n = monitors.len();
    let mut i: usize = 0;
    while i < n
        invariant
            n == monitors@.len(),
            n == lowered_names@.len(),
            i <= n,
            forall|j: int|
                0 <= j < i ==> !lowered_match(
                    #[trigger] monitors@[j],
                    lowered_names@[j],
                    lowered_filter@,
                ),
        decreases n - i,
    {
        if !is_virtual(&monitors[i]) {
            match &lowered_names[i] {
                Some(name) => {
                    if contains_text(name.as_str(), lowered_filter) {
                        return Some(i);
                    }
                },
                None => {},
            }
        }
        i = i + 1;
    }
    None
}

fn select_by_name(monitors: &[MonitorInfo], filter: &str) -> (sel: Option<usize>)
    ensures
        is_glasses_choice(monitors@, Some(filter@), sel),
{
    let filter_lower = to_lowercase(filter);
    let n = monitors.len();
    let mut lowered: Vec<Option<String>> = Vec::new();
    let mut i: usize = 0;
    while i < n
        invariant
            n == monitors@.len(),
            i <= n,
            lowered@.len() == i,
            forall|j: int|
                0 <= j < i ==> (#[trigger] lowered@[j] is Some <==> monitors@[j].name is Some),
            forall|j: int|
                0 <= j < i && monitors@[j].name is Some ==> (#[trigger] lowered@[j]).unwrap()@
                    == lowercase_of(monitors@[j].name.unwrap()@),
        decreases n - i,
    {
        match &monitors[i].name {
            Some(name) => lowered.push(Some(to_lowercase(name.as_str()))),
            None => lowered.push(None),
        }
        i = i + 1;
    }
    let sel = select_by_lowered_name(monitors, lowered.as_slice(), filter_lower.as_str());
    assert forall|j: int| 0 <= j < n implies lowered_match(
        #[trigger] monitors@[j],
        lowered@[j],
        filter_lower@,
    ) == matches_filter(monitors@[j], filter@) by {
        assert(lowered@[j] is Some <==> monitors@[j].name is Some);
    }
    sel
}

/// Picks the monitor of the AR glasses. Without a name filter: the
/// non-primary, non-virtual monitor with the highest refresh rate (the glasses
/// run at a higher rate than the virtual screens). With a filter: the first
/// non-virtual monitor whose name contains it, ignoring case.
pub fn select_glasses_monitor(monitors: &[MonitorInfo], name_filter: Option<&str>) -> (sel: Option<
    usize,
>)
    ensures
        is_glasses_choice(
            monitors@,
            match name_filter {
                Some(f) => Some(f@),
                None => None,
            },
            sel,
        ),
        name_filter is None && sel is Some ==> {
            let i = sel.unwrap() as int;
            &&& !monitors@[i].is_primary
            &&& forall|j: int|
                0 <= j < monitors@.len() && !(#[trigger] monitors@[j]).is_primary
                    && !is_virtual_monitor(monitors@[j]) ==> monitors@[j].refresh_rate_millihertz.unwrap_or(0)
                    <= monitors@[i].refresh_rate_millihertz.unwrap_or(0)
            &&& forall|j: int|
                0 <= j < monitors@.len() && !(#[trigger] monitors@[j]).is_primary
                    && !is_virtual_monitor(monitors@[j]) && monitors@[j].refresh_rate_millihertz
                    is Some && monitors@[j].refresh_rate_millihertz.unwrap() > 0
                    ==> monitors@[i].refresh_rate_millihertz is Some
        },
        name_filter is Some ==> {
            let f = name_filter.unwrap()@;
            &&& (sel is Some ==> {
                let i = sel.unwrap() as int;
                &&& !is_virtual_monitor(monitors@[i])
                &&& monitors@[i].name is Some
                &&& has_substring(lowercase_of(monitors@[i].name.unwrap()@), lowercase_of(f))
                &&& forall|j: int|
                    0 <= j < i && !is_virtual_monitor(#[trigger] monitors@[j])
                        && monitors@[j].name is Some ==> !has_substring(
                        lowercase_of(monitors@[j].name.unwrap()@),
                        lowercase_of(f),
                    )
            })
            &&& (sel is None ==> forall|j: int|
                0 <= j < monitors@.len() && !is_virtual_monitor(#[trigger] monitors@[j])
                    && monitors@[j].name is Some ==> !has_substring(
                    lowercase_of(monitors@[j].name.unwrap()@),
                    lowercase_of(f),
                ))
        },
{
    match name_filter {
        None => select_fastest(monitors),
        Some(f) => select_by_name(monitors, f),
    }
}

/// What to do with the window after one frame of the glasses scan.
pub enum ScanAction {
    /// Nothing yet (or any more).
    Wait,
    /// Switch to borderless fullscreen on the monitor at this position.
    Fullscreen(usize),
    /// The glasses never showed up; stay windowed.
    GiveUp,
}

/// State of the scan for the glasses monitor, kept across frames.
pub struct GlassesScan {
    done: bool,
    frames_waited: u32,
}

impl GlassesScan {
    #[verifier::type_invariant]
    spec fn waiting_is_bounded(self) -> bool {
        !self.done ==> self.frames_waited < GLASSES_SCAN_MAX_FRAMES
    }

    /// The scan has finished, one way or the other.
    pub closed spec fn finished(self) -> bool {
        self.done
    }

    /// Frames in which monitors were listed but no glasses monitor was found.
    pub closed spec fn waited(self) -> nat {
        self.frames_waited as nat
    }

    /// A scan that has not looked at any frame yet.
    pub fn new() -> (s: Self)
        ensures
            !s.finished(),
            s.waited() == 0,
    {
        GlassesScan { done: false, frames_waited: 0 }
    }

    /// The scan has finished.
    pub fn is_done(&self) -> (b: bool)
        ensures
            b == self.finished(),
    {
        self.done
    }

    /// One frame of the scan. Nothing happens once the scan has finished, nor
    /// while no monitors are listed. When the glasses monitor is found the
    /// scan finishes with that monitor; otherwise the frame counts as waited,
    /// and after `GLASSES_SCAN_MAX_FRAMES` such frames the scan gives up.
    pub fn step(&mut self, monitors: &[MonitorInfo], name_filter: Option<&str>) -> (action:
        ScanAction)
        ensures
            old(self).finished() ==> action is Wait && *final(self) == *old(self),
            !old(self).finished() && monitors@.len() == 0 ==> action is Wait && *final(self)
                == *old(self),
            !old(self).finished() && monitors@.len() > 0 ==> {
                let filter = match name_filter {
                    Some(f) => Some(f@),
                    None => None,
                };
                match action {
                    ScanAction::Fullscreen(i) => {
                        &&& is_glasses_choice(monitors@, filter, Some(i))
                        &&& final(self).finished()
                        &&& final(self).waited() == old(self).waited()
                    },
                    _ => {
                        &&& is_glasses_choice(monitors@, filter, None)
                        &&& final(self).waited() == old(self).waited() + 1
                        &&& (action is GiveUp <==> old(self).waited() + 1
                            >= GLASSES_SCAN_MAX_FRAMES)
                        &&& (action is GiveUp <==> old(self).waited() + 1 >= 300)
                        &&& (final(self).finished() <==> action is GiveUp)
                    },
                }
            },
    {
        proof {
            use_type_invariant(&*self);
        }
        if self.done {
            return ScanAction::Wait;
        }
        if monitors.len() == 0 {
            return ScanAction::Wait;
        }
        match select_glasses_monitor(monitors, name_filter) {
            Some(i) => {
                self.done = true;
                ScanAction::Fullscreen(i)
            },
            None => {
                let waited = self.frames_waited + 1;
                if waited >= GLASSES_SCAN_MAX_FRAMES {
                    self.done = true;
                    self.frames_waited = waited;
                    ScanAction::GiveUp
                } else {
                    self.frames_waited = waited;
                    ScanAction::Wait
                }
            },
        }
    }
}

/// Without a name filter the glasses are the fastest non-primary, non-virtual
/// monitor, a monitor of unknown refresh rate ranking as 0 Hz: no candidate
/// has a higher `refresh_rate_millihertz.unwrap_or(0)` than the chosen one,
/// later candidates rank strictly lower, and a monitor of unknown rate is
/// never chosen over one with a known rate above zero.
pub proof fn lemma_fastest_choice(monitors: Seq<MonitorInfo>, i: usize)
    requires
        is_glasses_choice(monitors, None, Some(i)),
    ensures
        i < monitors.len(),
        !monitors[i as int].is_primary,
        !is_virtual_monitor(monitors[i as int]),
        forall|j: int|
            0 <= j < monitors.len() && !(#[trigger] monitors[j]).is_primary && !is_virtual_monitor(
                monitors[j],
            ) ==> monitors[j].refresh_rate_millihertz.unwrap_or(0)
                <= monitors[i as int].refresh_rate_millihertz.unwrap_or(0),
        forall|j: int|
            i < j < monitors.len() && !(#[trigger] monitors[j]).is_primary && !is_virtual_monitor(
                monitors[j],
            ) ==> monitors[j].refresh_rate_millihertz.unwrap_or(0)
                < monitors[i as int].refresh_rate_millihertz.unwrap_or(0),
        forall|j: int|
            0 <= j < monitors.len() && !(#[trigger] monitors[j]).is_primary && !is_virtual_monitor(
                monitors[j],
            ) && monitors[j].refresh_rate_millihertz is Some
                && monitors[j].refresh_rate_millihertz.unwrap() > 0
                ==> monitors[i as int].refresh_rate_millihertz is Some,
{
}

/// The app's own virtual displays are never taken for the glasses: every name
/// the display plan hands out marks its monitor as virtual, so a chosen
/// monitor never carries one of those names.
pub proof fn lemma_virtual_displays_never_chosen(
    monitors: Seq<MonitorInfo>,
    filter: Option<Seq<char>>,
    i: usize,
    k: nat,
)
    requires
        is_glasses_choice(monitors, filter, Some(i)),
        monitors[i as int].name is Some,
    ensures
        monitors[i as int].name.unwrap()@ != virtual_screen_name(k),
{
    reveal_strlit("Virtual Screen");
    reveal_strlit("Virtual Screen ");
    let name = virtual_screen_name(k);
    assert(virtual_prefix().is_prefix_of(name)) by {
        assert(name.subrange(0, 14) =~= virtual_prefix());
    }
}

} // verus!
