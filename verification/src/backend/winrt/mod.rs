//! The rules of the backend over the Windows Runtime.

use vstd::prelude::*;
use vstd::slice::slice_subrange;
use vstd::string::StringSliceAdditionalSpecFns;

use crate::error::{HidError, HidResult};
use crate::utils::copy_prefix;

verus! {

/// Marks what input reports are read from.
#[derive(Debug)]
pub struct Readable;

/// Marks what output reports are written to.
#[derive(Debug)]
pub struct Writable;

/// How a device is opened.
#[derive(Debug, Clone, Copy, PartialEq, Eq, Structural)]
pub enum FileAccessMode {
    Read,
    ReadWrite,
}

/// The backend over the Windows Runtime.
#[derive(Debug)]
pub struct WinRtBackend;

impl WinRtBackend {
    /// The mode in which to open a device that is to be read, written or
    /// both: whoever writes also reads. A device is never opened for
    /// neither, so this is asked before any device is touched.
    pub fn open(&self, read: bool, write: bool) -> (mode: FileAccessMode)
        requires
            read || write,
        ensures
            mode == if write {
                FileAccessMode::ReadWrite
            } else {
                FileAccessMode::Read
            },
    {
        if write {
            FileAccessMode::ReadWrite
        } else {
            FileAccessMode::Read
        }
    }
}

/// The part of `report` that goes to a reader who offers room for `room`
/// bytes: of the first `room` bytes of the report, all but a leading zero.
pub open spec fn delivered_part(report: Seq<u8>, room: nat) -> Seq<u8> {
    let size = if room < report.len() {
        room as int
    } else {
        report.len() as int
    };
    let start: int = if report[0] == 0 {
        1
    } else {
        0
    };
    if start <= size {
        report.subrange(start, size)
    } else {
        Seq::empty()
    }
}

/// Hands the input report `report` to a reader: the part of it that is
/// delivered is copied to the front of `buf`. An empty report is an error.
pub fn read_input_report(report: &[u8], buf: &mut [u8]) -> (r: HidResult<usize>)
    ensures
        if report@.len() == 0 {
            &&& r is Err
            &&& r->Err_0.says("Input report is empty".spec_bytes())
            &&& final(buf)@ == old(buf)@
        } else {
            let part = delivered_part(report@, old(buf)@.len());
            &&& r == Ok::<usize, HidError>(part.len() as usize)
            &&& final(buf)@ == part + old(buf)@.subrange(part.len() as int, old(buf)@.len() as int)
        },
{
    if report.len() == 0 {
        return Err(HidError::message("Input report is empty"));
    }
    let size = if buf.len() < report.len() {
        buf.len()
    } else {
        report.len()
    };
    let start: usize = if report[0] == 0 {
        1
    } else {
        0
    };
    if start > size {
        assert(old(buf)@.subrange(0, old(buf)@.len() as int) =~= old(buf)@);
        assert(Seq::<u8>::empty() + old(buf)@ =~= old(buf)@);
        return Ok(0);
    }
    let part = slice_subrange(report, start, size);
    let copied = copy_prefix(buf, part);
    assert(part@.subrange(0, copied as int) =~= part@);
    Ok(copied)
}

/// Fills the buffer of an output report with `buf`: the bytes of `buf`,
/// then zeros. A report that does not fit is an error.
pub fn write_output_report(buffer: &mut [u8], buf: &[u8]) -> (r: HidResult<()>)
    ensures
        if old(buffer)@.len() >= buf@.len() {
            &&& r is Ok
            &&& final(buffer)@.len() == old(buffer)@.len()
            &&& forall|i: int|
                0 <= i < old(buffer)@.len() ==> final(buffer)@[i] == if i < buf@.len() {
                    buf@[i]
                } else {
                    0u8
                }
        } else {
            &&& r is Err
            &&& r->Err_0.says("Output report is too large".spec_bytes())
            &&& final(buffer)@ == old(buffer)@
        },
{
    if buffer.len() < buf.len() {
        return Err(HidError::message("Output report is too large"));
    }
    let len = buffer.len();
    let mut i: usize = 0;
    while i < len
        invariant
            i <= len,
            len == buffer@.len(),
            len == old(buffer)@.len(),
            buf@.len() <= len,
            forall|k: int|
                0 <= k < i ==> buffer@[k] == if k < buf@.len() {
                    buf@[k]
                } else {
                    0u8
                },
        decreases len - i,
    {
        buffer[i] = if i < buf.len() {
            buf[i]
        } else {
            0
        };
        i = i + 1;
    }
    Ok(())
}

} // verus!
