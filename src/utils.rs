//! Helpers for the data that the operating system hands back: device instance
//! ids, WMI dates and zero-terminated character buffers.
pub mod device;
pub mod string;
pub mod wmi;
pub mod wmi_date;
