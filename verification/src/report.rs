//! A report: the byte of the report id, and the payload behind it.

use vstd::prelude::*;
use vstd::slice::slice_subrange;

verus! {

/// The id of a numbered report: a byte that is not zero.
#[derive(Debug, Clone, Copy, PartialEq, Eq, Hash)]
pub struct ReportId(u8);

impl ReportId {
    #[verifier::type_invariant]
    spec fn is_not_zero(self) -> bool {
        self.0 != 0
    }

    /// The number of the id.
    pub closed spec fn value(self) -> u8 {
        self.0
    }

    /// The id with the number `value`, where that is not zero.
    pub fn new(value: u8) -> (id: Option<Self>)
        ensures
            id is Some <==> value != 0,
            id is Some ==> id->0.value() == value,
    {
        if value != 0 {
            Some(ReportId(value))
        } else {
            None
        }
    }

    /// The number of the id, which is not zero.
    pub fn get(self) -> (value: u8)
        ensures
            value == self.value(),
            value != 0,
    {
        proof {
            use_type_invariant(self);
        }
        self.0
    }
}

/// The byte that stands for a report id: zero where there is none.
pub open spec fn id_byte(report_id: Option<ReportId>) -> u8 {
    match report_id {
        Some(id) => id.value(),
        None => 0,
    }
}

/// A report as it goes to a device or comes from it: its first byte is the
/// report id, which is zero for a device that does not number its reports.
pub struct Report(Vec<u8>);

impl Clone for Report {
    fn clone(&self) -> (copy: Self)
        ensures
            copy@ == self@,
    {
        proof {
            use_type_invariant(self);
        }
        Report(self.0.clone())
    }
}

impl View for Report {
    type V = Seq<u8>;

    closed spec fn view(&self) -> Seq<u8> {
        self.0@
    }
}

impl Report {
    #[verifier::type_invariant]
    spec fn has_id_byte(self) -> bool {
        self.0@.len() >= 1
    }

    /// The payload: all bytes behind the report id.
    pub open spec fn payload(self) -> Seq<u8> {
        self@.subrange(1, self@.len() as int)
    }

    /// A report with the given id and a payload of `size` zero bytes.
    pub fn new(report_id: Option<ReportId>, size: usize) -> (report: Self)
        requires
            size < usize::MAX,
        ensures
            report@.len() == size + 1,
            report@[0] == id_byte(report_id),
            forall|i: int| 1 <= i <= size ==> report@[i] == 0,
    {
        let mut report = Report(vec![0u8; size + 1]);
        report.set_report_id(report_id);
        report
    }

    /// A report with the given id and the payload `bytes`.
    pub fn from_bytes(report_id: Option<ReportId>, bytes: &[u8]) -> (report: Self)
        requires
            bytes@.len() < usize::MAX,
        ensures
            report@ == seq![id_byte(report_id)] + bytes@,
    {
        let mut data: Vec<u8> = Vec::new();
        data.push(
            match report_id {
                Some(id) => id.get(),
                None => 0,
            },
        );
        let mut i: usize = 0;
        while i < bytes.len()
            invariant
                i <= bytes@.len(),
                data@ == seq![id_byte(report_id)] + bytes@.subrange(0, i as int),
            decreases bytes@.len() - i,
        {
            data.push(bytes[i]);
            i = i + 1;
            assert(data@ =~= seq![id_byte(report_id)] + bytes@.subrange(0, i as int));
        }
        assert(bytes@.subrange(0, bytes@.len() as int) =~= bytes@);
        Report(data)
    }

    /// Sets the report id, and leaves the payload as it is.
    pub fn set_report_id(&mut self, report_id: Option<ReportId>)
        ensures
            final(self)@ == old(self)@.update(0, id_byte(report_id)),
    {
        proof {
            use_type_invariant(&*self);
        }
        let byte = match report_id {
            Some(id) => id.get(),
            None => 0,
        };
        self.0[0] = byte;
    }

    /// The report id, where the report has one.
    pub fn get_report_id(&self) -> (report_id: Option<ReportId>)
        ensures
            id_byte(report_id) == self@[0],
    {
        proof {
            use_type_invariant(self);
        }
        ReportId::new(self.0[0])
    }

    /// The number of bytes of the report, its id among them.
    pub fn len(&self) -> (n: usize)
        ensures
            n == self@.len(),
            n >= 1,
    {
        proof {
            use_type_invariant(self);
        }
        self.0.len()
    }

    /// All bytes of the report, its id first.
    pub fn as_bytes(&self) -> (bytes: &[u8])
        ensures
            bytes@ == self@,
    {
        self.0.as_slice()
    }

    /// The payload: all bytes behind the report id.
    pub fn data(&self) -> (bytes: &[u8])
        ensures
            bytes@ == self.payload(),
    {
        proof {
            use_type_invariant(self);
        }
        slice_subrange(self.0.as_slice(), 1, self.0.len())
    }
}

} // verus!
