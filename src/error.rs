//! The kinds of failure that abort a scan.
use vstd::prelude::*;

verus! {

/// Why a scan stopped.
#[derive(Debug, Clone, Copy, PartialEq, Eq, Structural)]
pub enum BloomError {
    /// An archive could not be opened or read, or a record could not be written.
    Io,
    /// A member's bytes are not a container of two octet strings.
    Decode,
    /// A compressed stream could not be decompressed.
    Compression,
    /// A name is not UTF-8, or a JSON line is not a JSON object.
    Parse,
    /// The field key is missing, or a name cannot be converted to its fixed form.
    Config,
}

} // verus!
