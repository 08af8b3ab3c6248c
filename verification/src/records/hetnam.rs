//! Hetero-compound name records.

use vstd::prelude::*;
use crate::field::{field, opt_bytes_view, opt_text, parse_opt_text, trimmed_bytes};
use crate::records::{fd, fd_exec, ok_view, DecodeError, FieldId, RecordKind};
use vstd::string::StringSliceAdditionalSpecFns;

verus! {

/// One hetero-compound name record.
#[derive(Debug, Clone, PartialEq)]
pub struct HetnamRecord {
    /// Continuation marker for names spanning several records.
    pub continuation: Option<Vec<u8>>,
    /// Hetero-compound identifier.
    pub het_id: Vec<u8>,
    /// Chemical name, taken from the rest of the line.
    pub text: Vec<u8>,
}

/// Mathematical value of a `HetnamRecord`.
pub struct HetnamRecordV {
    pub continuation: Option<Seq<u8>>,
    pub het_id: Seq<u8>,
    pub text: Seq<u8>,
}

impl View for HetnamRecord {
    type V = HetnamRecordV;

    open spec fn view(&self) -> HetnamRecordV {
        HetnamRecordV {
            continuation: opt_bytes_view(self.continuation),
            het_id: self.het_id@,
            text: self.text@,
        }
    }
}

/// What a hetero-compound name line decodes to: an optional continuation
/// column, the identifier, and the trimmed remainder as the name.
pub open spec fn hetnam_spec(s: Seq<u8>) -> Result<HetnamRecordV, DecodeError> {
    let k = RecordKind::Hetnam;
    if s.len() < 15 {
        Err(fd(k, FieldId::HetId))
    } else {
        Ok(
            HetnamRecordV {
                continuation: opt_text(s, 8, 10),
                het_id: field(s, 11, 15),
                text: field(s, 15, s.len() as int),
            },
        )
    }
}

impl HetnamRecord {
    /// Decode a hetero-compound name line.
    pub fn decode(line: &[u8]) -> (r: Result<HetnamRecord, DecodeError>)
        ensures
            ok_view(r) == hetnam_spec(line@),
    {
        let k = RecordKind::Hetnam;
        if line.len() < 15 {
            return Err(fd_exec(k, FieldId::HetId));
        }
        Ok(
            HetnamRecord {
                continuation: parse_opt_text(line, 8, 10),
                het_id: trimmed_bytes(line, 11, 15),
                text: trimmed_bytes(line, 15, line.len()),
            },
        )
    }

    /// Decode a hetero-compound name line from text.
    pub fn new(line: &str) -> (r: Result<HetnamRecord, DecodeError>)
        ensures
            ok_view(r) == hetnam_spec(line.spec_bytes()),
    {
        HetnamRecord::decode(line.as_bytes())
    }
}

} // verus!
