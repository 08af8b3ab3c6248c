//! Model boundary records: the start of one model of a multi-model entry.

use vstd::prelude::*;
use crate::field::{field, parse_u32_default, u32_or_zero};
use crate::render::{dec_digits, digits_u32, pad_left, pad_left_vec, pad_right, pad_right_vec};
use crate::records::{fd, fd_exec, ok_view, DecodeError, FieldId, RecordKind};
use vstd::string::StringSliceAdditionalSpecFns;

verus! {

/// One model start record.
#[derive(Debug, Clone, PartialEq)]
pub struct ModelRecord {
    /// Model serial number; zero on a bad numeral.
    pub serial: u32,
}

/// Mathematical value of a `ModelRecord`.
pub struct ModelRecordV {
    pub serial: u32,
}

impl View for ModelRecord {
    type V = ModelRecordV;

    open spec fn view(&self) -> ModelRecordV {
        ModelRecordV { serial: self.serial }
    }
}

/// What a model start line decodes to: the serial column must be in bounds
/// and defaults to zero on a bad numeral.
pub open spec fn model_spec(s: Seq<u8>) -> Result<ModelRecordV, DecodeError> {
    if s.len() < 14 {
        Err(fd(RecordKind::Model, FieldId::Serial))
    } else {
        Ok(ModelRecordV { serial: u32_or_zero(field(s, 10, 14)) })
    }
}

impl ModelRecord {
    /// Decode a model start line.
    pub fn decode(line: &[u8]) -> (r: Result<ModelRecord, DecodeError>)
        ensures
            ok_view(r) == model_spec(line@),
    {
        if line.len() < 14 {
            return Err(fd_exec(RecordKind::Model, FieldId::Serial));
        }
        Ok(ModelRecord { serial: parse_u32_default(line, 10, 14) })
    }

    /// Decode a model start line from text.
    pub fn new(line: &str) -> (r: Result<ModelRecord, DecodeError>)
        ensures
            ok_view(r) == model_spec(line.spec_bytes()),
    {
        ModelRecord::decode(line.as_bytes())
    }

    /// The canonical fixed-width line for this record: the tag, the serial
    /// right-aligned in its four columns, padded to eighty bytes.
    pub fn to_line(&self) -> (r: Vec<u8>)
        ensures
            r@ == model_line(self.serial),
    {
        let mut out: Vec<u8> = Vec::new();
        out.push(0x4d);
        out.push(0x4f);
        out.push(0x44);
        out.push(0x45);
        out.push(0x4c);
        out.push(0x20);
        out.push(0x20);
        out.push(0x20);
        out.push(0x20);
        out.push(0x20);
        let mut ser = pad_left_vec(digits_u32(self.serial), 4);
        out.append(&mut ser);
        proof {
            assert(out@ =~= seq![
                0x4du8,
                0x4fu8,
                0x44u8,
                0x45u8,
                0x4cu8,
                0x20u8,
                0x20u8,
                0x20u8,
                0x20u8,
                0x20u8,
            ] + pad_left(dec_digits(self.serial as nat), 4));
        }
        pad_right_vec(out, 80)
    }
}

/// The canonical fixed-width rendering of a model start record.
pub open spec fn model_line(serial: u32) -> Seq<u8> {
    pad_right(
        seq![0x4du8, 0x4fu8, 0x44u8, 0x45u8, 0x4cu8, 0x20u8, 0x20u8, 0x20u8, 0x20u8, 0x20u8]
            + pad_left(dec_digits(serial as nat), 4),
        80,
    )
}

} // verus!
