//! The rules of the backends, one module for each platform.

pub mod hidraw;
pub mod iohidmanager;
pub mod webhid;
pub mod win32;
pub mod winrt;
