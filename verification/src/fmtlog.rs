//! Formatted log records as they travel the mesh on the well-known logging
//! topic. A sender formats its record into text; receivers see the level and
//! the text, owned or borrowed from their receive buffer. All three shapes
//! share one wire form, so any of them can decode what any other sent.

use vstd::prelude::*;

verus! {

/// The severity of a log record.
#[derive(Clone, Copy, Debug, PartialEq, Eq, Structural, Hash)]
pub enum Level {
    Error,
    Warn,
    Info,
    Debug,
    Trace,
}

/// A log record on its way out: the level and the formatted text.
#[derive(Debug)]
pub struct ErgotFmtTx {
    pub level: Level,
    pub inner: String,
}

/// A received log record, its text taken from the receive buffer.
#[derive(Debug)]
pub struct ErgotFmtRx {
    pub level: Level,
    pub inner: String,
}

/// A received log record that owns its text.
#[derive(Debug)]
pub struct ErgotFmtRxOwned {
    pub level: Level,
    pub inner: String,
}

impl ErgotFmtTx {
    /// A received record sees exactly what was sent: the wire form carries
    /// the level and the text unchanged.
    pub fn to_rx(self) -> (r: ErgotFmtRx)
        ensures
            r.level == self.level,
            r.inner@ == self.inner@,
    {
        ErgotFmtRx { level: self.level, inner: self.inner }
    }
}

impl ErgotFmtRx {
    /// Take ownership of the text.
    pub fn to_owned_rx(self) -> (r: ErgotFmtRxOwned)
        ensures
            r.level == self.level,
            r.inner@ == self.inner@,
    {
        ErgotFmtRxOwned { level: self.level, inner: self.inner }
    }
}

} // verus!
