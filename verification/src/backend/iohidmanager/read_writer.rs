//! Reading and writing reports on macOS: the ring of input reports that the
//! report callback fills and the reader drains, and the rules for the report
//! id and for the return codes of the device.

use crossbeam_queue::ArrayQueue;
use vstd::prelude::*;
use vstd::slice::slice_subrange;
use vstd::string::StringSliceAdditionalSpecFns;

use crate::error::{HidError, HidResult};
use crate::queue::{
    force_pushed, report_queue_capacity, report_queue_force_push, report_queue_items,
    report_queue_new, report_queue_pop, report_queue_push,
};
use crate::text::{append_range, hex_code, with_hex_code};
use crate::utils::{copy_prefix, Progress};

verus! {

/// Number of input reports that wait for the reader at most.
pub const FULL_BUFFERS: usize = 64;

/// Number of used buffers that are kept for the next reports.
pub const EMPTY_BUFFERS: usize = 8;

/// The number of spare buffers after one was taken for a report, where
/// there was one.
pub open spec fn taken(spare: nat) -> nat {
    if spare > 0 {
        (spare - 1) as nat
    } else {
        0
    }
}

/// The number of spare buffers after a used one was handed back: it is
/// kept where there is room, and dropped where there is none.
pub open spec fn recycled(spare: nat) -> nat {
    if spare < EMPTY_BUFFERS {
        spare + 1
    } else {
        spare
    }
}

/// The input reports of one open device, between the callback that receives
/// them and the reader that consumes them.
///
/// At most `FULL_BUFFERS` reports wait; a report that arrives beyond that
/// pushes the oldest one out. Used buffers are kept for reuse.
pub struct AsyncReportReader {
    full_buffers: ArrayQueue<Vec<u8>>,
    empty_buffers: ArrayQueue<Vec<u8>>,
    removed: bool,
}

impl AsyncReportReader {
    /// The two rings have the sizes they were made with, and neither holds
    /// more than it was made for.
    pub closed spec fn well_formed(self) -> bool {
        &&& report_queue_capacity(self.full_buffers) == FULL_BUFFERS
        &&& report_queue_capacity(self.empty_buffers) == EMPTY_BUFFERS
        &&& report_queue_items(self.full_buffers).len() <= FULL_BUFFERS
        &&& report_queue_items(self.empty_buffers).len() <= EMPTY_BUFFERS
    }

    /// The reports that wait for the reader, oldest first.
    pub closed spec fn pending(self) -> Seq<Seq<u8>> {
        report_queue_items(self.full_buffers)
    }

    /// Whether the device was removed.
    pub closed spec fn is_removed(self) -> bool {
        self.removed
    }

    /// Number of used buffers that are kept for the next reports.
    pub closed spec fn spare_buffers(self) -> nat {
        report_queue_items(self.empty_buffers).len()
    }

    /// A reader of a device that is attached and has sent nothing yet.
    pub fn new() -> (reader: Self)
        ensures
            reader.well_formed(),
            reader.pending() == Seq::<Seq<u8>>::empty(),
            reader.spare_buffers() == 0,
            !reader.is_removed(),
    {
        AsyncReportReader {
            full_buffers: report_queue_new(FULL_BUFFERS),
            empty_buffers: report_queue_new(EMPTY_BUFFERS),
            removed: false,
        }
    }

    /// Keeps a used buffer for later, where there is room for it.
    fn recycle_buffer(&mut self, buffer: Vec<u8>)
        requires
            old(self).well_formed(),
        ensures
            final(self).well_formed(),
            final(self).pending() == old(self).pending(),
            final(self).is_removed() == old(self).is_removed(),
            final(self).spare_buffers() == recycled(old(self).spare_buffers()),
    {
        let _ = report_queue_push(&mut self.empty_buffers, buffer);
    }

    /// Takes in a report that the device has sent: it waits at the end of the
    /// line, and the oldest report leaves where the line was full.
    pub fn hid_report_callback(&mut self, report: &[u8])
        requires
            old(self).well_formed(),
        ensures
            final(self).well_formed(),
            final(self).pending() == force_pushed(
                old(self).pending(),
                FULL_BUFFERS as nat,
                report@,
            ),
            final(self).pending().len() <= FULL_BUFFERS,
            final(self).is_removed() == old(self).is_removed(),
            final(self).spare_buffers() == if old(self).pending().len() < FULL_BUFFERS {
                taken(old(self).spare_buffers())
            } else {
                recycled(taken(old(self).spare_buffers()))
            },
    {
        let mut buffer = match report_queue_pop(&mut self.empty_buffers) {
            Some(buffer) => buffer,
            None => Vec::new(),
        };
        buffer.clear();
        append_range(&mut buffer, report, 0, report.len());
        assert(buffer@ =~= report@);
        if let Some(oldest) = report_queue_force_push(&mut self.full_buffers, buffer) {
            self.recycle_buffer(oldest);
        }
    }

    /// Notes that the device was removed.
    pub fn hid_removal_callback(&mut self)
        requires
            old(self).well_formed(),
        ensures
            final(self).well_formed(),
            final(self).pending() == old(self).pending(),
            final(self).spare_buffers() == old(self).spare_buffers(),
            final(self).is_removed(),
    {
        self.removed = true;
    }

    /// Hands the oldest waiting report to the reader: as much of it as fits
    /// is copied to the front of `buf`. Where none waits, the read fails once
    /// the device is removed, and is pending until then.
    pub fn read(&mut self, buf: &mut [u8]) -> (r: Progress<HidResult<usize>>)
        requires
            old(self).well_formed(),
        ensures
            final(self).well_formed(),
            final(self).is_removed() == old(self).is_removed(),
            old(self).pending().len() > 0 ==> {
                let report = old(self).pending()[0];
                let n = vstd::math::min(report.len() as int, old(buf)@.len() as int);
                &&& r == Progress::Ready(Ok::<usize, HidError>(n as usize))
                &&& final(buf)@ == report.subrange(0, n) + old(buf)@.subrange(
                    n,
                    old(buf)@.len() as int,
                )
                &&& final(self).pending() == old(self).pending().drop_first()
                &&& final(self).spare_buffers() == recycled(old(self).spare_buffers())
            },
            old(self).pending().len() == 0 ==> {
                &&& final(buf)@ == old(buf)@
                &&& final(self).pending() == old(self).pending()
                &&& final(self).spare_buffers() == old(self).spare_buffers()
                &&& r == if old(self).is_removed() {
                    Progress::Ready(Err::<usize, HidError>(HidError::Disconnected))
                } else {
                    Progress::Pending
                }
            },
    {
        match report_queue_pop(&mut self.full_buffers) {
            Some(report) => {
                let length = copy_prefix(buf, report.as_slice());
                self.recycle_buffer(report);
                Progress::Ready(Ok(length))
            },
            None => {
                if self.removed {
                    Progress::Ready(Err(HidError::Disconnected))
                } else {
                    Progress::Pending
                }
            },
        }
    }
}

/// Return code of a call that went well.
pub const IO_RETURN_SUCCESS: i32 = 0;

/// Return code `kIOReturnBadArgument`, 0xE00002C2: the device is gone.
pub const IO_RETURN_BAD_ARGUMENT: i32 = -536870206;

/// Return code `kIOReturnOverrun`, 0xE00002E8: more data than the buffer
/// holds.
pub const IO_RETURN_OVERRUN: i32 = -536870168;

/// The 32 bits of a return code, read as a number without sign.
pub open spec fn code_bits(code: i32) -> nat {
    if code >= 0 {
        code as nat
    } else {
        (code + 0x1_0000_0000) as nat
    }
}

/// The bytes that go to the device for the report `buf`: all of it, but for
/// a leading report id of zero.
pub open spec fn report_payload(buf: Seq<u8>) -> Seq<u8>
    recommends
        buf.len() >= 1,
{
    if buf[0] == 0 {
        buf.subrange(1, buf.len() as int)
    } else {
        buf
    }
}

/// Splits a report into its id, which is its first byte, and the bytes to
/// send. A device that does not number its reports has the id zero, and does
/// not get to see it.
pub fn write_report(buf: &[u8]) -> (r: (u8, &[u8]))
    requires
        buf@.len() >= 1,
    ensures
        r.0 == buf@[0],
        r.1@ == report_payload(buf@),
{
    let report_id = buf[0];
    if report_id == 0 {
        (report_id, slice_subrange(buf, 1, buf.len()))
    } else {
        (report_id, buf)
    }
}

/// An error that carries `reason` and the return code in base sixteen.
fn code_error(reason: &str, code: i32) -> (e: HidError)
    ensures
        e.says(reason.spec_bytes() + hex_code(code_bits(code))),
{
    let bits: u32 = if code >= 0 {
        code as u32
    } else {
        (code as i64 + 0x1_0000_0000) as u32
    };
    HidError::Message(with_hex_code(reason, bits))
}

/// The outcome of sending a report, from the return code of the device.
pub fn set_report_result(code: i32) -> (r: HidResult<()>)
    ensures
        if code == IO_RETURN_SUCCESS {
            r is Ok
        } else if code == IO_RETURN_BAD_ARGUMENT {
            r == Err::<(), HidError>(HidError::Disconnected)
        } else {
            r is Err && r->Err_0.says(
                "failed to set report type: ".spec_bytes() + hex_code(code_bits(code)),
            )
        },
{
    if code == IO_RETURN_SUCCESS {
        Ok(())
    } else if code == IO_RETURN_BAD_ARGUMENT {
        Err(HidError::Disconnected)
    } else {
        Err(code_error("failed to set report type: ", code))
    }
}

/// The outcome of reading a feature report of `len` bytes, from the return
/// code of the device.
pub fn read_feature_report_result(code: i32, len: usize) -> (r: HidResult<usize>)
    ensures
        if code == IO_RETURN_SUCCESS {
            r == Ok::<usize, HidError>(len)
        } else if code == IO_RETURN_BAD_ARGUMENT {
            r == Err::<usize, HidError>(HidError::Disconnected)
        } else if code == IO_RETURN_OVERRUN {
            r is Err && r->Err_0.says("read feature report overrun".spec_bytes())
        } else {
            r is Err && r->Err_0.says(
                "failed to read feature report: ".spec_bytes() + hex_code(code_bits(code)),
            )
        },
{
    if code == IO_RETURN_SUCCESS {
        Ok(len)
    } else if code == IO_RETURN_BAD_ARGUMENT {
        Err(HidError::Disconnected)
    } else if code == IO_RETURN_OVERRUN {
        Err(HidError::message("read feature report overrun"))
    } else {
        Err(code_error("failed to read feature report: ", code))
    }
}

/// The length of the buffer for input reports, from the property that holds
/// the largest size of an input report.
pub fn input_report_buffer_len(max_input_report_size: Option<i32>) -> (r: HidResult<usize>)
    ensures
        match max_input_report_size {
            Some(size) if size >= 0 => r == Ok::<usize, HidError>(size as usize),
            _ => r is Err && r->Err_0.says("Failed to read input report size".spec_bytes()),
        },
{
    match max_input_report_size {
        Some(size) if size >= 0 => Ok(size as usize),
        _ => Err(HidError::message("Failed to read input report size")),
    }
}

} // verus!
