//! The ways in which a device is opened.

use vstd::prelude::*;

verus! {

/// What a device is opened for. There is no way to open it for nothing.
#[derive(Debug, Clone, Copy, PartialEq, Eq, Structural)]
pub enum OpenMode {
    /// For reading input reports.
    Readable,
    /// For writing output reports.
    Writeable,
    /// For both.
    ReadWrite,
}

impl OpenMode {
    /// Whether the device is opened for reading.
    pub open spec fn reads(self) -> bool {
        self != OpenMode::Writeable
    }

    /// Whether the device is opened for writing.
    pub open spec fn writes(self) -> bool {
        self != OpenMode::Readable
    }

    /// The halves to ask the backend for: a reader, a writer or both.
    pub fn halves(self) -> (r: (bool, bool))
        ensures
            r == (self.reads(), self.writes()),
            r.0 || r.1,
    {
        match self {
            OpenMode::Readable => (true, false),
            OpenMode::Writeable => (false, true),
            OpenMode::ReadWrite => (true, true),
        }
    }
}

/// Whatever a device is opened for, it is opened for reading, for writing
/// or for both: there is no opening for neither.
pub proof fn lemma_every_mode_opens_something(mode: OpenMode)
    ensures
        mode.reads() || mode.writes(),
{
}

/// The reader that the backend produced for a device that was opened for
/// reading.
pub fn opened_reader<R, W>(mode: OpenMode, halves: (Option<R>, Option<W>)) -> (reader: R)
    requires
        mode.reads(),
        halves.0 is Some,
    ensures
        reader == halves.0->0,
{
    halves.0.unwrap()
}

/// The writer that the backend produced for a device that was opened for
/// writing.
pub fn opened_writer<R, W>(mode: OpenMode, halves: (Option<R>, Option<W>)) -> (writer: W)
    requires
        mode.writes(),
        halves.1 is Some,
    ensures
        writer == halves.1->0,
{
    halves.1.unwrap()
}

} // verus!
