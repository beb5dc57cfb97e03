//! The verified core of KibaD, a daemon that learns where a user clicks fastest
//! and moves widgets there.
//!
//! - [`types`]: widget identity and screen geometry
//! - [`bandit`]: the per-widget relocation model
//! - [`atspi`]: the registry of widgets on screen
//! - [`overlay`] and [`frame`]: who gets a click, and what is drawn
//! - [`storage`]: the rows of `UI.dat`
//! - [`telemetry`]: the opt-in hardware report
//! - [`daemon`]: what ties these together
//! - [`input_grab`]: how input devices are opened
//! - [`scalar`], [`text`] and [`paths`]: measurements, plain text, file paths
pub mod atspi;
pub mod bandit;
pub mod daemon;
pub mod frame;
pub mod input_grab;
pub mod overlay;
pub mod paths;
pub mod scalar;
pub mod storage;
pub mod telemetry;
pub mod text;
pub mod types;
