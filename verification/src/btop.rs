//! Finding the Terminal window that runs btop among the shareable windows.

use vstd::prelude::*;

use crate::text::{contains_text, has_substring, same_text};

verus! {

/// Width in pixels at which the btop window is captured.
pub const BTOP_CAPTURE_WIDTH: usize = 960;

/// Height in pixels at which the btop window is captured.
pub const BTOP_CAPTURE_HEIGHT: usize = 540;

/// What the search reads of a shareable window.
pub struct WindowInfo {
    pub window_id: u32,
    pub title: Option<String>,
    pub app_name: Option<String>,
    pub on_screen: bool,
}

/// The window belongs to Terminal.
pub open spec fn is_terminal(w: WindowInfo) -> bool {
    w.app_name is Some && w.app_name.unwrap()@ == "Terminal"@
}

/// A Terminal window with a title that mentions btop.
pub open spec fn is_btop_window(w: WindowInfo) -> bool {
    &&& is_terminal(w)
    &&& w.title is Some
    &&& has_substring(w.title.unwrap()@, "btop"@)
}

/// A Terminal window that is on screen.
pub open spec fn is_terminal_on_screen(w: WindowInfo) -> bool {
    is_terminal(w) && w.on_screen
}

/// Which window to capture for the btop panel.
pub enum BtopChoice {
    /// A Terminal window whose title mentions btop.
    ByTitle(usize),
    /// No such window; the first on-screen Terminal window instead.
    Fallback(usize),
    /// No Terminal window to capture.
    NotFound,
}

/// `choice` is the first btop Terminal window, or else the first on-screen
/// Terminal window, or neither exists.
pub open spec fn is_btop_choice(windows: Seq<WindowInfo>, choice: BtopChoice) -> bool {
    match choice {
        BtopChoice::ByTitle(i) => {
            &&& i < windows.len()
            &&& is_btop_window(windows[i as int])
            &&& forall|j: int| 0 <= j < i ==> !is_btop_window(#[trigger] windows[j])
        },
        BtopChoice::Fallback(i) => {
            &&& i < windows.len()
            &&& forall|j: int| 0 <= j < windows.len() ==> !is_btop_window(#[trigger] windows[j])
            &&& is_terminal_on_screen(windows[i as int])
            &&& forall|j: int| 0 <= j < i ==> !is_terminal_on_screen(#[trigger] windows[j])
        },
        BtopChoice::NotFound => {
            &&& forall|j: int| 0 <= j < windows.len() ==> !is_btop_window(#[trigger] windows[j])
            &&& forall|j: int| 0 <= j < windows.len() ==> !is_terminal_on_screen(#[trigger] windows[j])
        },
    }
}

fn terminal_app(w: &WindowInfo) -> (b: bool)
    ensures
        b == is_terminal(*w),
{
    proof {
        reveal_strlit("Terminal");
    }
    match &w.app_name {
        Some(a) => same_text(a.as_str(), "Terminal"),
        None => false,
    }
}

fn btop_window(w: &WindowInfo) -> (b: bool)
    ensures
        b == is_btop_window(*w),
{
    proof {
        reveal_strlit("btop");
    }
    match &w.title {
        Some(t) => terminal_app(w) && contains_text(t.as_str(), "btop"),
        None => false,
    }
}

/// Picks the window for the btop panel: the first Terminal window whose title
/// contains "btop", else the first on-screen Terminal window.
pub fn select_btop_window(windows: &[WindowInfo]) -> (choice: BtopChoice)
    ensures
        is_btop_choice(windows@, choice),
        choice matches BtopChoice::ByTitle(i) ==> terminal_running_btop(windows@[i as int]),
        choice matches BtopChoice::Fallback(i) ==> named_terminal(windows@[i as int])
            && windows@[i as int].on_screen,
        !(choice is ByTitle) ==> forall|j: int|
            0 <= j < windows@.len() ==> !terminal_running_btop(#[trigger] windows@[j]),
{
    let choice = select_btop_window_inner(windows);
    proof {
        lemma_btop_choice(windows@, choice);
    }
    choice
}

fn select_btop_window_inner(windows: &[WindowInfo]) -> (choice: BtopChoice)
    ensures
        is_btop_choice(windows@, choice),
{
    let n = windows.len();
    let mut i: usize = 0;
    while i < n
        invariant
            n == windows@.len(),
            i <= n,
            forall|j: int| 0 <= j < i ==> !is_btop_window(#[trigger] windows@[j]),
        decreases n - i,
    {
        if btop_window(&windows[i]) {
            return BtopChoice::ByTitle(i);
        }
        i = i + 1;
    }
    let mut k: usize = 0;
    while k < n
        invariant
            n == windows@.len(),
            k <= n,
            forall|j: int| 0 <= j < n ==> !is_btop_window(#[trigger] windows@[j]),
            forall|j: int| 0 <= j < k ==> !is_terminal_on_screen(#[trigger] windows@[j]),
        decreases n - k,
    {
        if terminal_app(&windows[k]) && windows[k].on_screen {
            return BtopChoice::Fallback(k);
        }
        k = k + 1;
    }
    BtopChoice::NotFound
}

/// The title holds the four characters 'b', 't', 'o', 'p' in a row.
pub open spec fn title_has_btop(t: Seq<char>) -> bool {
    exists|k: int|
        0 <= k && k + 4 <= t.len() && #[trigger] t[k] == 'b' && t[k + 1] == 't' && t[k + 2] == 'o'
            && t[k + 3] == 'p'
}

/// The application is called exactly "Terminal".
pub open spec fn named_terminal(w: WindowInfo) -> bool {
    w.app_name is Some && w.app_name.unwrap()@ == seq!['T', 'e', 'r', 'm', 'i', 'n', 'a', 'l']
}

/// A Terminal window whose title holds "btop".
pub open spec fn terminal_running_btop(w: WindowInfo) -> bool {
    named_terminal(w) && w.title is Some && title_has_btop(w.title.unwrap()@)
}

proof fn lemma_btop_substring(t: Seq<char>)
    ensures
        has_substring(t, "btop"@) <==> title_has_btop(t),
{
    reveal_strlit("btop");
    if has_substring(t, "btop"@) {
        let k = choose|k: int| #[trigger] crate::text::occurs_at(t, "btop"@, k);
        let sub = t.subrange(k, k + 4);
        assert(sub[0] == t[k] && sub[1] == t[k + 1] && sub[2] == t[k + 2] && sub[3] == t[k + 3]);
        assert(title_has_btop(t));
    }
    if title_has_btop(t) {
        let k = choose|k: int|
            0 <= k && k + 4 <= t.len() && #[trigger] t[k] == 'b' && t[k + 1] == 't' && t[k + 2]
                == 'o' && t[k + 3] == 'p';
        assert(t.subrange(k, k + 4) =~= "btop"@);
        assert(crate::text::occurs_at(t, "btop"@, k));
    }
}

proof fn lemma_window_kinds(w: WindowInfo)
    ensures
        is_terminal(w) <==> named_terminal(w),
        is_btop_window(w) <==> terminal_running_btop(w),
        is_terminal_on_screen(w) <==> named_terminal(w) && w.on_screen,
{
    reveal_strlit("Terminal");
    assert("Terminal"@ =~= seq!['T', 'e', 'r', 'm', 'i', 'n', 'a', 'l']);
    if w.title is Some {
        lemma_btop_substring(w.title.unwrap()@);
    }
}

/// The btop panel captures a Terminal window whose title contains "btop"
/// when there is one, the first such; otherwise the first on-screen Terminal
/// window; a Terminal window whose title lacks "btop" is never taken by its
/// title, and a window of another application is never taken.
pub proof fn lemma_btop_choice(windows: Seq<WindowInfo>, choice: BtopChoice)
    requires
        is_btop_choice(windows, choice),
    ensures
        match choice {
            BtopChoice::ByTitle(i) => {
                &&& i < windows.len()
                &&& terminal_running_btop(windows[i as int])
                &&& forall|j: int| 0 <= j < i ==> !terminal_running_btop(#[trigger] windows[j])
            },
            BtopChoice::Fallback(i) => {
                &&& i < windows.len()
                &&& named_terminal(windows[i as int]) && windows[i as int].on_screen
                &&& forall|j: int| 0 <= j < windows.len() ==> !terminal_running_btop(#[trigger] windows[j])
                &&& forall|j: int|
                    0 <= j < i ==> !(named_terminal(#[trigger] windows[j]) && windows[j].on_screen)
            },
            BtopChoice::NotFound => {
                &&& forall|j: int| 0 <= j < windows.len() ==> !terminal_running_btop(#[trigger] windows[j])
                &&& forall|j: int|
                    0 <= j < windows.len() ==> !(named_terminal(#[trigger] windows[j])
                        && windows[j].on_screen)
            },
        },
{
    assert forall|j: int| 0 <= j < windows.len() implies (is_terminal(#[trigger] windows[j])
        <==> named_terminal(windows[j])) && (is_btop_window(windows[j]) <==> terminal_running_btop(
        windows[j],
    )) by {
        lemma_window_kinds(windows[j]);
    }
}

} // verus!
