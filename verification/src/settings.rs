//! Where the settings live, and the integer rules for the number of screens
//! and for the changes the settings menu requests.

use vstd::prelude::*;

verus! {

/// Default number of screens in the grid.
pub const DEFAULT_NUM_SCREENS: u32 = 6;

/// Fewest screens the grid may hold.
pub const MIN_NUM_SCREENS: u32 = 1;

/// Most screens the grid may hold.
pub const MAX_NUM_SCREENS: u32 = 6;

#[verifier::external_type_specification]
#[verifier::external_body]
pub struct ExPathBuf(std::path::PathBuf);

/// The text that a `PathBuf` holds (it owns an OS string; a path built from a
/// `&str` holds exactly that string).
pub uninterp spec fn path_text(p: std::path::PathBuf) -> Seq<char>;

/// Builds a path with `PathBuf::from`, which takes the string as it is.
#[verifier::external_body]
fn path_from(s: &str) -> (p: std::path::PathBuf)
    ensures
        path_text(p) == s@,
{
    std::path::PathBuf::from(s)
}

/// Name of the settings file, relative to the working directory.
pub open spec fn settings_file_name() -> Seq<char> {
    "settings.json"@
}

/// Path of the settings file.
pub fn settings_path() -> (p: std::path::PathBuf)
    ensures
        path_text(p) == settings_file_name(),
        path_text(p) == seq!['s', 'e', 't', 't', 'i', 'n', 'g', 's', '.', 'j', 's', 'o', 'n'],
{
    proof {
        reveal_strlit("settings.json");
    }
    path_from("settings.json")
}

/// `n` brought into `[lo, hi]`.
pub open spec fn spec_clamp(n: int, lo: int, hi: int) -> int {
    if n < lo {
        lo
    } else if n > hi {
        hi
    } else {
        n
    }
}

/// A screen count brought into the allowed range.
pub fn clamp_num_screens(n: u32) -> (c: u32)
    ensures
        c == spec_clamp(n as int, MIN_NUM_SCREENS as int, MAX_NUM_SCREENS as int),
        1 <= c <= 6,
        1 <= n <= 6 ==> c == n,
        n < 1 ==> c == 1,
        n > 6 ==> c == 6,
{
    if n < MIN_NUM_SCREENS {
        MIN_NUM_SCREENS
    } else if n > MAX_NUM_SCREENS {
        MAX_NUM_SCREENS
    } else {
        n
    }
}

/// The value of `n as i32`: counts above `i32::MAX` wrap to negative numbers.
pub open spec fn as_i32(n: u32) -> int {
    if n <= i32::MAX {
        n as int
    } else {
        n - 0x1_0000_0000
    }
}

/// The screen count after `steps` presses of "More Screens" (negative for
/// "Fewer Screens"), kept within the allowed range.
pub open spec fn spec_stepped_screens(current: u32, steps: i32) -> int {
    spec_clamp(as_i32(current) + steps, MIN_NUM_SCREENS as int, MAX_NUM_SCREENS as int)
}

/// The step can be taken without the `i32` sum overflowing.
pub open spec fn step_fits(current: u32, steps: i32) -> bool {
    i32::MIN <= as_i32(current) + steps <= i32::MAX
}

/// Applies `steps` screen-count presses to `current`.
pub fn step_num_screens(current: u32, steps: i32) -> (count: u32)
    requires
        step_fits(current, steps),
    ensures
        count == spec_stepped_screens(current, steps),
        1 <= count <= 6,
        ({
            let s: int = if current <= 0x7fff_ffff {
                current + steps
            } else {
                current - 0x1_0000_0000 + steps
            };
            &&& (1 <= s <= 6 ==> count == s)
            &&& (s < 1 ==> count == 1)
            &&& (s > 6 ==> count == 6)
        }),
{
    let c: i64 = if current <= 2147483647 {
        current as i64
    } else {
        current as i64 - 4294967296
    };
    let sum: i64 = c + steps as i64;
    if sum < MIN_NUM_SCREENS as i64 {
        MIN_NUM_SCREENS
    } else if sum > MAX_NUM_SCREENS as i64 {
        MAX_NUM_SCREENS
    } else {
        sum as u32
    }
}

/// What a poll of the settings menu changes.
pub struct MenuUpdate {
    /// Something changed, so the settings are saved.
    pub changed: bool,
    /// The stage distance moves (and the screens with it).
    pub distance_changed: bool,
    /// The screen count after the poll.
    pub num_screens: u32,
}

/// Decides what a poll of the settings menu does, given the distance and
/// screen-count presses gathered since the last poll.
pub fn menu_update(num_screens: u32, distance_steps: i32, screen_steps: i32) -> (u: MenuUpdate)
    requires
        screen_steps != 0 ==> step_fits(num_screens, screen_steps),
    ensures
        u.changed == (distance_steps != 0 || screen_steps != 0),
        u.distance_changed == (distance_steps != 0),
        u.num_screens == if screen_steps != 0 {
            spec_stepped_screens(num_screens, screen_steps)
        } else {
            num_screens as int
        },
{
    let changed = distance_steps != 0 || screen_steps != 0;
    let count = if screen_steps != 0 {
        step_num_screens(num_screens, screen_steps)
    } else {
        num_screens
    };
    MenuUpdate { changed, distance_changed: distance_steps != 0, num_screens: count }
}

/// A clamped screen count lies in the allowed range, clamping it again
/// changes nothing, and counts already in range are kept.
pub proof fn lemma_clamp_num_screens(n: u32)
    ensures
        ({
            let c = spec_clamp(n as int, MIN_NUM_SCREENS as int, MAX_NUM_SCREENS as int);
            &&& MIN_NUM_SCREENS <= c <= MAX_NUM_SCREENS
            &&& spec_clamp(c, MIN_NUM_SCREENS as int, MAX_NUM_SCREENS as int) == c
            &&& (MIN_NUM_SCREENS <= n <= MAX_NUM_SCREENS ==> c == n)
        }),
{
}

/// Menu presses never take the screen count out of range, and from a count in
/// range, one press up followed by one press down returns to it unless the
/// count was already at the upper bound.
pub proof fn lemma_screen_steps(current: u32, steps: i32)
    requires
        step_fits(current, steps),
    ensures
        MIN_NUM_SCREENS <= spec_stepped_screens(current, steps) <= MAX_NUM_SCREENS,
        MIN_NUM_SCREENS <= current < MAX_NUM_SCREENS ==> spec_stepped_screens(
            spec_stepped_screens(current, 1) as u32,
            -1i32,
        ) == current,
{
}

} // verus!
