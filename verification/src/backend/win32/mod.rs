//! The rules of the Windows backend.

pub mod buffer;
pub mod device;
pub mod interface;
pub mod string;
pub mod waiter;

use vstd::prelude::*;

use crate::backend::win32::buffer::{zeros, IoBuffer, Readable, Writable};
use crate::device_info::{DeviceId, DeviceInfo};
use crate::error::{HidError, HidResult};

verus! {

/// Win32 error: the file was not found.
pub const ERROR_FILE_NOT_FOUND: u32 = 2;

/// Win32 error: the overlapped operation is not over yet.
pub const ERROR_IO_INCOMPLETE: u32 = 996;

/// Win32 error: the overlapped operation was started and goes on.
pub const ERROR_IO_PENDING: u32 = 997;

/// Win32 error: the device is not connected.
pub const ERROR_DEVICE_NOT_CONNECTED: u32 = 1167;

/// Win32 error: there is no such operation to cancel.
pub const ERROR_NOT_FOUND: u32 = 1168;

/// The code of an unspecified failure, 0x80004005.
pub const E_FAIL: i32 = -2147467259;

/// What the configuration manager answers where it knows no Win32 error for
/// one of its own.
pub const UNKNOWN_ERROR: u32 = 0xFFFF;

/// Number of input reports that the driver keeps for a handle that is read.
pub const NUM_INPUT_BUFFERS: u32 = 64;

/// The result code that stands for a Win32 error: zero and codes with the
/// high bit set stand for themselves; of any other, the low sixteen bits go
/// into a failure code of the Win32 facility, 0x8007xxxx.
pub open spec fn hresult_of(error: u32) -> i32 {
    if error == 0 {
        0
    } else if error >= 0x8000_0000 {
        (error - 0x1_0000_0000) as i32
    } else {
        (error % 0x1_0000 + 0x8007_0000 - 0x1_0000_0000) as i32
    }
}

/// The result code that stands for a Win32 error.
pub fn hresult_from_win32(error: u32) -> (code: i32)
    ensures
        code == hresult_of(error),
{
    if error == 0 {
        0
    } else if error >= 0x8000_0000 {
        (error as i64 - 0x1_0000_0000) as i32
    } else {
        ((error % 0x1_0000) as i64 + 0x8007_0000 - 0x1_0000_0000) as i32
    }
}

/// An error of the Windows API: its result code, and its description for
/// diagnostics.
#[derive(Debug, PartialEq, Eq)]
pub struct WinError {
    pub code: i32,
    pub message: String,
}

impl WinError {
    /// Whether this error stands for the Win32 error `error`.
    pub fn is_win32(&self, error: u32) -> (r: bool)
        ensures
            r == (self.code == hresult_of(error)),
    {
        self.code == hresult_from_win32(error)
    }
}

/// The error of this library for an error of the Windows API: a device that
/// is not connected any more is disconnected, anything else is kept as it is.
pub open spec fn hid_error_of(error: WinError) -> HidError {
    if error.code == hresult_of(ERROR_DEVICE_NOT_CONNECTED) {
        HidError::Disconnected
    } else {
        HidError::Other(error.message)
    }
}

/// The error of this library for an error of the Windows API.
pub fn hid_error(error: WinError) -> (e: HidError)
    ensures
        e == hid_error_of(error),
{
    if error.is_win32(ERROR_DEVICE_NOT_CONNECTED) {
        HidError::Disconnected
    } else {
        HidError::Other(error.message)
    }
}

/// The error for a device that could not be opened: a path that names no
/// file belongs to a device that is not connected.
pub fn open_error(error: WinError) -> (e: HidError)
    ensures
        e == if error.code == hresult_of(ERROR_FILE_NOT_FOUND) {
            HidError::NotConnected
        } else {
            hid_error_of(error)
        },
{
    if error.is_win32(ERROR_FILE_NOT_FOUND) {
        HidError::NotConnected
    } else {
        hid_error(error)
    }
}

/// The result code for an error of the configuration manager, from the
/// Win32 error that the manager maps it to.
pub fn config_error_code(win32: u32) -> (code: i32)
    ensures
        code == if win32 == UNKNOWN_ERROR {
            E_FAIL
        } else {
            hresult_of(win32)
        },
{
    if win32 == UNKNOWN_ERROR {
        E_FAIL
    } else {
        hresult_from_win32(win32)
    }
}

/// The access to ask for when a device is opened: reading is bit 0, writing
/// is bit 1. A device that is only queried is opened with neither.
pub fn desired_access(read: bool, write: bool) -> (access: u32)
    ensures
        access == (if read {
            1u32
        } else {
            0u32
        }) + (if write {
            2u32
        } else {
            0u32
        }),
{
    match (read, write) {
        (true, false) => 1,
        (false, true) => 2,
        (true, true) => 3,
        (false, false) => 0,
    }
}

/// The sharing to allow when a device is opened: others may read and write,
/// whatever access is asked for.
pub const SHARE_READ_WRITE: u32 = 3;

/// The ids of a device, as the driver reports them.
#[derive(Debug, Clone, Copy, PartialEq, Eq)]
pub struct DeviceAttributes {
    pub vendor_id: u16,
    pub product_id: u16,
}

/// The capabilities of the top-level collection of a device, as far as
/// this library reads them.
#[derive(Debug, Clone, Copy, PartialEq, Eq)]
pub struct DeviceCaps {
    pub usage: u16,
    pub usage_page: u16,
    pub input_report_byte_length: u16,
    pub output_report_byte_length: u16,
}

/// The backend over the Win32 HID API.
#[derive(Debug)]
pub struct Win32Backend;

impl Win32Backend {
    /// The record of the device interface at `id`, from what the device
    /// answered: the first query that failed is the error, in the order
    /// name, attributes, capabilities. A device may have no serial number.
    pub fn get_device_information(
        id: Vec<u16>,
        name: HidResult<String>,
        attributes: HidResult<DeviceAttributes>,
        caps: HidResult<DeviceCaps>,
        serial_number: Option<String>,
    ) -> (r: HidResult<DeviceInfo>)
        ensures
            match (name, attributes, caps) {
                (Err(error), _, _) => r == Err::<DeviceInfo, HidError>(error),
                (Ok(_), Err(error), _) => r == Err::<DeviceInfo, HidError>(error),
                (Ok(_), Ok(_), Err(error)) => r == Err::<DeviceInfo, HidError>(error),
                (Ok(name), Ok(attributes), Ok(caps)) => r == Ok::<DeviceInfo, HidError>(
                    DeviceInfo {
                        id: DeviceId::UncPath(id),
                        name,
                        product_id: attributes.product_id,
                        vendor_id: attributes.vendor_id,
                        usage_id: caps.usage,
                        usage_page: caps.usage_page,
                        serial_number,
                    },
                ),
            },
    {
        let name = match name {
            Ok(name) => name,
            Err(error) => {
                return Err(error);
            },
        };
        let attributes = match attributes {
            Ok(attributes) => attributes,
            Err(error) => {
                return Err(error);
            },
        };
        let caps = match caps {
            Ok(caps) => caps,
            Err(error) => {
                return Err(error);
            },
        };
        Ok(
            DeviceInfo {
                id: DeviceId::UncPath(id),
                name,
                product_id: attributes.product_id,
                vendor_id: attributes.vendor_id,
                usage_id: caps.usage,
                usage_page: caps.usage_page,
                serial_number,
            },
        )
    }

    /// The buffers of a device that was opened: one for input reports where
    /// it is read, one for output reports where it is written, each as long
    /// as the device says its reports are, and none in use.
    pub fn open(&self, read: bool, write: bool, caps: &DeviceCaps) -> (r: (
        Option<IoBuffer<Readable>>,
        Option<IoBuffer<Writable>>,
    ))
        ensures
            r.0 is Some <==> read,
            r.1 is Some <==> write,
            read ==> r.0->0.buffer() == zeros(caps.input_report_byte_length as nat) && !r.0->0.is_pending(),
            write ==> r.1->0.buffer() == zeros(caps.output_report_byte_length as nat)
                && !r.1->0.is_pending(),
    {
        let read_buffer = if read {
            Some(IoBuffer::<Readable>::new(caps.input_report_byte_length as usize))
        } else {
            None
        };
        let write_buffer = if write {
            Some(IoBuffer::<Writable>::new(caps.output_report_byte_length as usize))
        } else {
            None
        };
        (read_buffer, write_buffer)
    }
}

} // verus!
