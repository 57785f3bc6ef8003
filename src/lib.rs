//! Hardware Master: the logic behind a hardware overview for Windows.
//!
//! The centre is [`iddb`], a database of PCI and USB vendor, device and
//! subsystem names parsed from the `.ids` text format. Around it stand the
//! decisions that the hardware detectors make once the operating system has
//! answered ([`detector`]), helpers for the data that Windows hands back
//! ([`utils`]), and the plain-data parts of the window ([`ui`]).

pub mod detector;
pub mod iddb;
pub mod text;
pub mod ui;
pub mod utils;
