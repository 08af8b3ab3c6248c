//! Model count records: how many models the entry holds.

use vstd::prelude::*;
use crate::field::{field, parse_u32_default, u32_or_zero};
use crate::render::{dec_digits, digits_u32, pad_left, pad_left_vec, pad_right, pad_right_vec};
use crate::records::{fd, fd_exec, ok_view, DecodeError, FieldId, RecordKind};
use vstd::string::StringSliceAdditionalSpecFns;

verus! {

/// One model count record.
#[derive(Debug, Clone, PartialEq)]
pub struct NummdlRecord {
    /// Number of models in the entry; zero on a bad numeral.
    pub count: u32,
}

/// Mathematical value of a `NummdlRecord`.
pub struct NummdlRecordV {
    pub count: u32,
}

impl View for NummdlRecord {
    type V = NummdlRecordV;

    open spec fn view(&self) -> NummdlRecordV {
        NummdlRecordV { count: self.count }
    }
}

/// What a model count line decodes to: the count column must be in bounds
/// and defaults to zero on a bad numeral.
pub open spec fn nummdl_spec(s: Seq<u8>) -> Result<NummdlRecordV, DecodeError> {
    if s.len() < 14 {
        Err(fd(RecordKind::Nummdl, FieldId::Count))
    } else {
        Ok(NummdlRecordV { count: u32_or_zero(field(s, 10, 14)) })
    }
}

impl NummdlRecord {
    /// Decode a model count line.
    pub fn decode(line: &[u8]) -> (r: Result<NummdlRecord, DecodeError>)
        ensures
            ok_view(r) == nummdl_spec(line@),
    {
        if line.len() < 14 {
            return Err(fd_exec(RecordKind::Nummdl, FieldId::Count));
        }
        Ok(NummdlRecord { count: parse_u32_default(line, 10, 14) })
    }

    /// Decode a model count line from text.
    pub fn new(line: &str) -> (r: Result<NummdlRecord, DecodeError>)
        ensures
            ok_view(r) == nummdl_spec(line.spec_bytes()),
    {
        NummdlRecord::decode(line.as_bytes())
    }

    /// The canonical fixed-width line for this record: the tag, the count
    /// right-aligned in its four columns, padded to eighty bytes.
    pub fn to_line(&self) -> (r: Vec<u8>)
        ensures
            r@ == nummdl_line(self.count),
    {
        let mut out: Vec<u8> = Vec::new();
        out.push(0x4e);
        out.push(0x55);
        out.push(0x4d);
        out.push(0x4d);
        out.push(0x44);
        out.push(0x4c);
        out.push(0x20);
        out.push(0x20);
        out.push(0x20);
        out.push(0x20);
        let mut cnt = pad_left_vec(digits_u32(self.count), 4);
        out.append(&mut cnt);
        proof {
            assert(out@ =~= seq![
                0x4eu8,
                0x55u8,
                0x4du8,
                0x4du8,
                0x44u8,
                0x4cu8,
                0x20u8,
                0x20u8,
                0x20u8,
                0x20u8,
            ] + pad_left(dec_digits(self.count as nat), 4));
        }
        pad_right_vec(out, 80)
    }
}

/// The canonical fixed-width rendering of a model count record.
pub open spec fn nummdl_line(count: u32) -> Seq<u8> {
    pad_right(
        seq![0x4eu8, 0x55u8, 0x4du8, 0x4du8, 0x44u8, 0x4cu8, 0x20u8, 0x20u8, 0x20u8, 0x20u8]
            + pad_left(dec_digits(count as nat), 4),
        80,
    )
}

} // verus!
