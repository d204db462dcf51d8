//! Small status decisions: which update frames the debug counter reports, and
//! how the camera authorization status reads.

use vstd::prelude::*;

verus! {

/// The frame counter is reported for the first five frames and then every
/// hundredth.
pub open spec fn frame_reported(count: nat) -> bool {
    count <= 5 || count % 100 == 0
}

/// Counts one more update frame; returns the new count and whether it is
/// reported.
pub fn count_frame(count: u64) -> (r: (u64, bool))
    requires
        count < u64::MAX,
    ensures
        r.0 == count + 1,
        r.1 == frame_reported(r.0 as nat),
        r.1 == (count + 1 <= 5 || (count + 1) % 100 == 0),
{
    let next = count + 1;
    (next, next <= 5 || next % 100 == 0)
}

/// Camera access, as the capture-device authorization status reports it.
pub enum CameraPermission {
    /// Status 3.
    Granted,
    /// Status 0: the system will ask when the webcam starts.
    NotDetermined,
    /// Any other status: denied or restricted.
    DeniedOrRestricted,
}

/// Reads the authorization status (0 = not determined, 1 = restricted,
/// 2 = denied, 3 = authorized).
pub fn camera_permission(status: isize) -> (p: CameraPermission)
    ensures
        status == 3 ==> p is Granted,
        status == 0 ==> p is NotDetermined,
        status != 3 && status != 0 ==> p is DeniedOrRestricted,
{
    if status == 3 {
        CameraPermission::Granted
    } else if status == 0 {
        CameraPermission::NotDetermined
    } else {
        CameraPermission::DeniedOrRestricted
    }
}

} // verus!
