//! The buffer of one overlapped read or write: the data that the kernel
//! reads from or writes to, and the flag that tells whether an operation is
//! outstanding.

use std::marker::PhantomData;

use vstd::prelude::*;
use vstd::slice::slice_subrange;

use crate::backend::win32::{
    hid_error, hid_error_of, hresult_of, WinError, ERROR_IO_INCOMPLETE, ERROR_IO_PENDING,
    ERROR_NOT_FOUND,
};
use crate::error::{HidError, HidResult};
use crate::utils::copy_prefix;

verus! {

/// Marks a buffer that input reports are read into.
#[derive(Debug)]
pub struct Readable;

/// Marks a buffer that output reports are written from.
#[derive(Debug)]
pub struct Writable;

/// `n` bytes of zero.
pub open spec fn zeros(n: nat) -> Seq<u8> {
    Seq::new(n, |i: int| 0u8)
}

/// The data buffer of a device handle for one direction, and whether an
/// operation on it is outstanding. At most one is at any time.
pub struct IoBuffer<T> {
    buffer: Vec<u8>,
    pending: bool,
    _marker: PhantomData<T>,
}

impl<T> IoBuffer<T> {
    /// The bytes of the buffer.
    pub closed spec fn buffer(self) -> Seq<u8> {
        self.buffer@
    }

    /// Whether an operation is outstanding.
    pub closed spec fn is_pending(self) -> bool {
        self.pending
    }

    /// A buffer of `size` zero bytes with no operation outstanding.
    pub fn new(size: usize) -> (io: Self)
        ensures
            io.buffer() == zeros(size as nat),
            !io.is_pending(),
    {
        let buffer = vec![0u8; size];
        assert(buffer@ =~= zeros(size as nat));
        IoBuffer { buffer, pending: false, _marker: PhantomData }
    }

    /// Whether an operation is outstanding.
    pub fn pending(&self) -> (r: bool)
        ensures
            r == self.is_pending(),
    {
        self.pending
    }

    /// The length of the buffer.
    pub fn capacity(&self) -> (n: usize)
        ensures
            n == self.buffer().len(),
    {
        self.buffer.len()
    }

    /// The bytes of the buffer.
    pub fn as_slice(&self) -> (bytes: &[u8])
        ensures
            bytes@ == self.buffer(),
    {
        self.buffer.as_slice()
    }

    /// The bytes of the buffer, for the kernel to write to.
    pub fn as_mut_slice(&mut self) -> (bytes: &mut [u8])
        ensures
            bytes@ == old(self).buffer(),
            final(self).buffer() == final(bytes)@,
            final(self).is_pending() == old(self).is_pending(),
    {
        self.buffer.as_mut_slice()
    }

    /// Takes note of how the start of an operation went. An operation that
    /// was started is outstanding from now on, whether it is over already
    /// or goes on. One that could not be started has to be cancelled: then
    /// the error is handed back.
    pub fn start_io(&mut self, started: Result<(), WinError>) -> (failed: Option<WinError>)
        requires
            !old(self).is_pending(),
        ensures
            final(self).buffer() == old(self).buffer(),
            match started {
                Ok(_) => failed is None && final(self).is_pending(),
                Err(error) => if error.code == hresult_of(ERROR_IO_PENDING) {
                    failed is None && final(self).is_pending()
                } else {
                    failed == Some(error) && !final(self).is_pending()
                },
            },
    {
        match started {
            Ok(_) => {
                self.pending = true;
                None
            },
            Err(error) => {
                if error.is_win32(ERROR_IO_PENDING) {
                    self.pending = true;
                    None
                } else {
                    Some(error)
                }
            },
        }
    }

    /// Takes note of how the cancelling went of an operation that could not
    /// be started, and returns the error of the start. Where the cancelling
    /// failed, the kernel may still use the buffer: the operation counts as
    /// outstanding.
    pub fn start_failed(&mut self, error: WinError, cancelled: HidResult<()>) -> (e: HidError)
        ensures
            e == hid_error_of(error),
            final(self).buffer() == old(self).buffer(),
            final(self).is_pending() == (cancelled is Err),
    {
        self.pending = cancelled.is_err();
        hid_error(error)
    }

    /// Whether an operation has to be cancelled before the buffer is freed.
    pub fn must_cancel_on_drop(&self) -> (r: bool)
        ensures
            r == self.is_pending(),
    {
        self.pending
    }
}

/// How the cancelling of an operation went: that there was none to cancel
/// is no failure.
pub fn cancel_io(cancelled: Result<(), WinError>) -> (r: HidResult<()>)
    ensures
        match cancelled {
            Ok(_) => r is Ok,
            Err(error) => if error.code == hresult_of(ERROR_NOT_FOUND) {
                r is Ok
            } else {
                r == Err::<(), HidError>(hid_error_of(error))
            },
        },
{
    match cancelled {
        Ok(_) => Ok(()),
        Err(error) => {
            if error.is_win32(ERROR_NOT_FOUND) {
                Ok(())
            } else {
                Err(hid_error(error))
            }
        },
    }
}

/// The number of bytes that an operation transferred, where it is over;
/// `None` while it goes on.
pub fn get_result(result: Result<u32, WinError>) -> (r: HidResult<Option<usize>>)
    ensures
        match result {
            Ok(transferred) => r == Ok::<Option<usize>, HidError>(Some(transferred as usize)),
            Err(error) => if error.code == hresult_of(ERROR_IO_INCOMPLETE) {
                r == Ok::<Option<usize>, HidError>(None)
            } else {
                r == Err::<Option<usize>, HidError>(hid_error_of(error))
            },
        },
{
    match result {
        Ok(transferred) => Ok(Some(transferred as usize)),
        Err(error) => {
            if error.is_win32(ERROR_IO_INCOMPLETE) {
                Ok(None)
            } else {
                Err(hid_error(error))
            }
        },
    }
}

/// The report in the first `size` bytes of a buffer: without its first byte
/// where that is zero, which stands for a device without numbered reports.
pub open spec fn report_in(buffer: Seq<u8>, size: nat) -> Seq<u8> {
    let data = buffer.subrange(
        0,
        if size <= buffer.len() {
            size as int
        } else {
            buffer.len() as int
        },
    );
    if data.len() > 0 && data[0] == 0 {
        data.subrange(1, data.len() as int)
    } else {
        data
    }
}

/// What a buffer of `capacity` bytes holds for the output report `data`:
/// as much of `data` as fits, then zeros.
pub open spec fn output_buffer(data: Seq<u8>, capacity: nat) -> Seq<u8> {
    if data.len() >= capacity {
        data.subrange(0, capacity as int)
    } else {
        data + zeros((capacity - data.len()) as nat)
    }
}

impl IoBuffer<Readable> {
    /// Hands out the input report of a read that is over and has filled
    /// `size` bytes of the buffer: as much of the report as fits is copied
    /// to the front of `buf`. Returns the number of bytes copied. No
    /// operation is outstanding afterwards.
    pub fn read(&mut self, size: usize, buf: &mut [u8]) -> (copied: usize)
        ensures
            final(self).buffer() == old(self).buffer(),
            !final(self).is_pending(),
            ({
                let report = report_in(old(self).buffer(), size as nat);
                &&& copied == vstd::math::min(report.len() as int, old(buf)@.len() as int)
                &&& final(buf)@ == report.subrange(0, copied as int) + old(buf)@.subrange(
                    copied as int,
                    old(buf)@.len() as int,
                )
            }),
    {
        let end = if size <= self.buffer.len() {
            size
        } else {
            self.buffer.len()
        };
        let start: usize = if end > 0 && self.buffer[0] == 0 {
            1
        } else {
            0
        };
        let data = slice_subrange(self.buffer.as_slice(), start, end);
        assert(data@ =~= report_in(self.buffer@, size as nat));
        let copied = copy_prefix(buf, data);
        self.pending = false;
        copied
    }
}

impl IoBuffer<Writable> {
    /// Fills the buffer with the output report `data`: what does not fit is
    /// cut off, and what `data` leaves free is set to zero.
    pub fn write(&mut self, data: &[u8])
        ensures
            final(self).is_pending() == old(self).is_pending(),
            final(self).buffer() == output_buffer(data@, old(self).buffer().len()),
    {
        let capacity = self.buffer.len();
        let data_size = if data.len() > capacity {
            capacity
        } else {
            data.len()
        };
        let mut i: usize = 0;
        while i < capacity
            invariant
                i <= capacity,
                capacity == self.buffer@.len(),
                capacity == old(self).buffer@.len(),
                data_size <= data@.len(),
                data_size <= capacity,
                self.pending == old(self).pending,
                forall|k: int| 0 <= k < i && k < data_size ==> self.buffer@[k] == data@[k],
                forall|k: int| data_size <= k < i ==> self.buffer@[k] == 0,
            decreases capacity - i,
        {
            let byte = if i < data_size {
                data[i]
            } else {
                0
            };
            self.buffer.set(i, byte);
            i = i + 1;
        }
        assert(self.buffer@ =~= output_buffer(data@, capacity as nat));
    }

    /// Takes note that the write is over.
    pub fn write_completed(&mut self)
        ensures
            final(self).buffer() == old(self).buffer(),
            !final(self).is_pending(),
    {
        self.pending = false;
    }
}

/// What goes out comes back: where a device returns the bytes of an output
/// buffer as its next input report, the reader gets those bytes without the
/// report id where that is zero, and all of them where it is not.
pub proof fn lemma_loopback_round_trip(data: Seq<u8>, capacity: nat)
    requires
        data.len() >= 1,
        capacity >= 1,
    ensures
        ({
            let sent = output_buffer(data, capacity);
            report_in(sent, capacity) == if data[0] == 0 {
                sent.subrange(1, capacity as int)
            } else {
                sent
            }
        }),
{
    let sent = output_buffer(data, capacity);
    assert(sent.len() == capacity);
    assert(sent[0] == data[0]);
    assert(sent.subrange(0, capacity as int) =~= sent);
}

} // verus!
