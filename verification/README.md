# open_space

Verified core of an AR desktop for XREAL glasses: the program shows the Mac's
displays (and virtual displays it creates) as a grid of screens in a 3D stage
and turns the view with the wearer's head.

- `src/` is the library, checked by Verus: grid layout and the centring of the
  main display, the plan for the virtual displays, BGRA-to-RGBA frame
  conversion, matching displays to capture streams, the choice of the glasses
  monitor, the btop window search, settings arithmetic, the head-tracking
  calibration schedule, and small status decisions.
- `app/` is the macOS program around it: Bevy scene setup, ScreenCaptureKit
  streams, Objective-C calls for virtual displays and menus, the IMU thread and
  all floating-point geometry.
- `tests/` exercises the library.
