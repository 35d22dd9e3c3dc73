//! Verified core of an asynchronous HID library: the report-descriptor scanner,
//! the uevent parser, the report and event queues and the per-platform rules
//! that turn raw operating-system results into devices, events and errors.

pub mod backend;
pub mod device;
pub mod device_info;
pub mod error;
pub mod queue;
pub mod report;
pub mod text;
pub mod utils;
