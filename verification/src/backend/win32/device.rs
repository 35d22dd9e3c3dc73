//! The handle of a device that was opened.

use vstd::prelude::*;

use crate::backend::win32::{hid_error_of, hresult_of, open_error, WinError, ERROR_FILE_NOT_FOUND};
use crate::error::{HidError, HidResult};

verus! {

/// A device that was opened, by the number of its handle.
#[derive(Debug, PartialEq, Eq)]
pub struct Device(pub isize);

impl Device {
    /// The outcome of opening a device, from what the system answered: the
    /// device with the handle that was made, or the error. A path that names
    /// no file belongs to a device that is not connected; any other failure,
    /// such as a sharing violation, is kept as it is. No device is made of
    /// a failure.
    pub fn open(created: Result<isize, WinError>) -> (r: HidResult<Device>)
        ensures
            match created {
                Ok(handle) => r == Ok::<Device, HidError>(Device(handle)),
                Err(error) => r == Err::<Device, HidError>(
                    if error.code == hresult_of(ERROR_FILE_NOT_FOUND) {
                        HidError::NotConnected
                    } else {
                        hid_error_of(error)
                    },
                ),
            },
    {
        match created {
            Ok(handle) => Ok(Device(handle)),
            Err(error) => Err(open_error(error)),
        }
    }

    /// The number of the handle.
    pub fn handle(&self) -> (handle: isize)
        ensures
            handle == self.0,
    {
        self.0
    }
}

/// Win32 error: another handle does not share the file.
pub const ERROR_SHARING_VIOLATION: u32 = 32;

/// A device that cannot be opened because another handle does not share it
/// gives an error that keeps the words of the system.
pub proof fn lemma_sharing_violation_is_kept(message: String)
    ensures
        hid_error_of(WinError { code: hresult_of(ERROR_SHARING_VIOLATION), message })
            == HidError::Other(message),
        hresult_of(ERROR_SHARING_VIOLATION) != hresult_of(ERROR_FILE_NOT_FOUND),
{
}

} // verus!
