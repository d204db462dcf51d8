//! The active display list, the waiting for display modes, and the noise
//! texture that screens show before their first captured frame.

use vstd::prelude::*;

use rand::Rng;

verus! {

/// The ids that a query of the active display list returned: none when the
/// query failed (non-zero error code), otherwise the first `count` entries of
/// the buffer (the whole buffer when `count` exceeds it).
pub open spec fn spec_active_ids(buffer: Seq<u32>, count: u32, err: i32) -> Seq<u32> {
    if err != 0 {
        Seq::empty()
    } else if count <= buffer.len() {
        buffer.take(count as int)
    } else {
        buffer
    }
}

/// Keeps the entries of the display-id buffer that the system filled in.
pub fn active_display_ids(buffer: Vec<u32>, count: u32, err: i32) -> (ids: Vec<u32>)
    ensures
        ids@ == spec_active_ids(buffer@, count, err),
        err != 0 ==> ids@.len() == 0,
        err == 0 ==> ids@.len() == if count <= buffer@.len() {
            count as int
        } else {
            buffer@.len() as int
        },
        forall|k: int| 0 <= k < ids@.len() ==> #[trigger] ids@[k] == buffer@[k],
{
    if err != 0 {
        return Vec::new();
    }
    let mut ids = buffer;
    ids.truncate(count as usize);
    ids
}

/// The ids of the displays in `displays` that have no display modes yet.
pub open spec fn spec_missing_modes(displays: Seq<(u32, bool)>) -> Seq<u32>
    decreases displays.len(),
{
    if displays.len() == 0 {
        Seq::empty()
    } else {
        let rest = spec_missing_modes(displays.drop_last());
        if displays.last().1 {
            rest
        } else {
            rest.push(displays.last().0)
        }
    }
}

/// A display is reported as missing its modes exactly when it is listed
/// without modes, and the missing ids keep the order of the list.
pub proof fn lemma_missing_modes(displays: Seq<(u32, bool)>)
    ensures
        spec_missing_modes(displays).len() <= displays.len(),
        forall|x: u32|
            spec_missing_modes(displays).contains(x) <==> exists|j: int|
                0 <= j < displays.len() && #[trigger] displays[j] == (x, false),
    decreases displays.len(),
{
    if displays.len() > 0 {
        let rest = displays.drop_last();
        lemma_missing_modes(rest);
        let r = spec_missing_modes(rest);
        assert forall|x: u32|
            spec_missing_modes(displays).contains(x) <==> exists|j: int|
                0 <= j < displays.len() && #[trigger] displays[j] == (x, false) by {
            if spec_missing_modes(displays).contains(x) {
                if r.contains(x) {
                    assert(r.contains(x));
                    let j = choose|j: int| 0 <= j < rest.len() && #[trigger] rest[j] == (x, false);
                    assert(displays[j] == rest[j]);
                } else {
                    let k = choose|k: int|
                        0 <= k < spec_missing_modes(displays).len()
                            && spec_missing_modes(displays)[k] == x;
                    if k < r.len() {
                        assert(r[k] == x);
                    }
                    assert(displays[displays.len() - 1] == (x, false));
                }
            }
            if exists|j: int| 0 <= j < displays.len() && #[trigger] displays[j] == (x, false) {
                let j = choose|j: int| 0 <= j < displays.len() && #[trigger] displays[j] == (x, false);
                if j < displays.len() - 1 {
                    assert(rest[j] == (x, false));
                    assert(r.contains(x));
                    let k = choose|k: int| 0 <= k < r.len() && r[k] == x;
                    assert(spec_missing_modes(displays)[k] == r[k]);
                    assert(spec_missing_modes(displays)[k] == x);
                } else {
                    let m = spec_missing_modes(displays);
                    assert(m[m.len() - 1] == x);
                }
            }
        }
    }
}

/// Ids of the displays whose modes are not available yet; each display comes
/// with whether its modes are available.
pub fn displays_missing_modes(displays: &[(u32, bool)]) -> (missing: Vec<u32>)
    ensures
        missing@ == spec_missing_modes(displays@),
{
    let n = displays.len();
    let mut missing: Vec<u32> = Vec::new();
    let mut i: usize = 0;
    while i < n
        invariant
            n == displays@.len(),
            i <= n,
            missing@ == spec_missing_modes(displays@.take(i as int)),
        decreases n - i,
    {
        proof {
            assert(displays@.take(i + 1).drop_last() =~= displays@.take(i as int));
        }
        let (id, has_modes) = displays[i];
        if !has_modes {
            missing.push(id);
        }
        i = i + 1;
    }
    assert(displays@.take(n as int) =~= displays@);
    missing
}

/// What to do after checking the display modes once.
pub enum ModeWait {
    /// Every display has its modes.
    Ready,
    /// Some are still missing and the time is up.
    TimedOut,
    /// Some are still missing; check again after a short pause.
    Poll,
}

/// Decides whether waiting for display modes is over: done when nothing is
/// missing, given up once the elapsed time exceeds the timeout.
pub fn mode_wait_decision(missing_count: usize, elapsed_nanos: u128, timeout_nanos: u128) -> (w:
    ModeWait)
    ensures
        missing_count == 0 ==> w is Ready,
        missing_count > 0 && elapsed_nanos > timeout_nanos ==> w is TimedOut,
        missing_count > 0 && elapsed_nanos <= timeout_nanos ==> w is Poll,
{
    if missing_count == 0 {
        ModeWait::Ready
    } else if elapsed_nanos > timeout_nanos {
        ModeWait::TimedOut
    } else {
        ModeWait::Poll
    }
}

#[verifier::external_type_specification]
#[verifier::external_body]
pub struct ExThreadRng(rand::rngs::ThreadRng);

/// The thread-local generator of `rand::thread_rng`; nothing is promised of
/// its state.
#[verifier::external_body]
fn new_rng() -> rand::rngs::ThreadRng {
    rand::thread_rng()
}

/// A random byte from `Rng::gen_range(0..=255)`; any byte may come back.
#[verifier::external_body]
fn random_byte(rng: &mut rand::rngs::ThreadRng) -> u8 {
    rng.gen_range(0..=255u8)
}

/// Placeholder texture for a `width` x `height` screen: RGBA pixels with
/// random colour channels and opaque alpha.
pub fn noise_texture(width: u32, height: u32) -> (data: Vec<u8>)
    requires
        width * height * 4 <= u32::MAX,
    ensures
        data@.len() == width * height * 4,
        forall|j: int| 0 <= j < data@.len() && j % 4 == 3 ==> #[trigger] data@[j] == 255,
{
    let total: u32 = width * height * 4;
    let mut rng = new_rng();
    let mut data: Vec<u8> = Vec::new();
    let mut j: u32 = 0;
    while j < total
        invariant
            total == width * height * 4,
            j <= total,
            data@.len() == j,
            forall|k: int| 0 <= k < j && k % 4 == 3 ==> #[trigger] data@[k] == 255,
        decreases total - j,
    {
        if j % 4 == 3 {
            data.push(255);
        } else {
            let b = random_byte(&mut rng);
            data.push(b);
        }
        j = j + 1;
    }
    data
}

} // verus!
