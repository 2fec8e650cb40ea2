//! The record-type vocabulary of the name-lookup interface: which
//! numeric query types the resolver accepts, and what they mean.  The
//! lookup itself is an external collaborator of the subsystem.

use vstd::prelude::*;

verus! {

/// A supported DNS record type.
#[derive(Debug, PartialEq, Eq, Structural, Clone, Copy)]
pub enum RecordKind {
    /// An IPv4 address record.
    A,
    /// An IPv6 address record.
    Aaaa,
}

/// Why a numeric record type was rejected.
#[derive(Debug, PartialEq, Eq, Structural, Clone, Copy)]
pub enum DnsError {
    UnsupportedRecordType,
}

/// Map a numeric DNS record type to the kinds this interface resolves:
/// address records only, every other number rejected.
pub fn record_kind(record_type: u32) -> (r: Result<RecordKind, DnsError>)
    ensures
        record_type == 1 ==> r == Ok::<RecordKind, DnsError>(RecordKind::A),
        record_type == 28 ==> r == Ok::<RecordKind, DnsError>(RecordKind::Aaaa),
        record_type != 1 && record_type != 28 ==> r == Err::<RecordKind, DnsError>(
            DnsError::UnsupportedRecordType,
        ),
{
    if record_type == 1 {
        Ok(RecordKind::A)
    } else if record_type == 28 {
        Ok(RecordKind::Aaaa)
    } else {
        Err(DnsError::UnsupportedRecordType)
    }
}

} // verus!
