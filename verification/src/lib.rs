//! Verified core of the open-space AR desktop: display grid layout, virtual
//! display planning, frame conversion, settings arithmetic, monitor selection
//! and the head-tracking calibration state machine.

pub mod grid_layout;
pub mod frame;
pub mod text;
pub mod virtual_display;
pub mod monitor;
pub mod capture;
pub mod settings;
pub mod tracking;
pub mod stage;
pub mod btop;
pub mod status;
