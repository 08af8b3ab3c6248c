//! Residue sequence records.

use vstd::prelude::*;
use crate::field::{
    char_at, field, i32_field, parse_char_at, parse_i32_field, parse_u32_field, split_tokens,
    tokens, tokens_view, u32_field,
};
use crate::records::{fd, fd_exec, ok_view, DecodeError, FieldId, RecordKind};
use vstd::string::StringSliceAdditionalSpecFns;

verus! {

/// One residue sequence record: a run of residue names for one chain.
#[derive(Debug, Clone, PartialEq)]
pub struct SeqresRecord {
    /// Serial number of this record within its chain.
    pub ser_num: u32,
    /// Chain identifier.
    pub chain_id: char,
    /// Total number of residues in the chain; zero on a bad numeral.
    pub num_res: i32,
    /// Residue names carried by this record, in order, no de-duplication.
    pub res_names: Vec<Vec<u8>>,
}

/// Mathematical value of a `SeqresRecord`.
pub struct SeqresRecordV {
    pub ser_num: u32,
    pub chain_id: char,
    pub num_res: i32,
    pub res_names: Seq<Seq<u8>>,
}

impl View for SeqresRecord {
    type V = SeqresRecordV;

    open spec fn view(&self) -> SeqresRecordV {
        SeqresRecordV {
            ser_num: self.ser_num,
            chain_id: self.chain_id,
            num_res: self.num_res,
            res_names: tokens_view(self.res_names@),
        }
    }
}

/// What a residue sequence line decodes to: a mandatory record serial, the
/// chain character, the residue count defaulting to zero on a bad numeral,
/// and the remainder split on whitespace runs into ordered tokens.
pub open spec fn seqres_spec(s: Seq<u8>) -> Result<SeqresRecordV, DecodeError> {
    let k = RecordKind::Seqres;
    if s.len() < 10 {
        Err(fd(k, FieldId::SerNum))
    } else {
        match u32_field(field(s, 7, 10)) {
            None => Err(fd(k, FieldId::SerNum)),
            Some(ser_num) => {
                if s.len() < 12 {
                    Err(fd(k, FieldId::ChainId))
                } else {
                    match char_at(s, 11) {
                        None => Err(fd(k, FieldId::ChainId)),
                        Some(chain_id) => {
                            if s.len() < 17 {
                                Err(fd(k, FieldId::NumRes))
                            } else if s.len() < 19 {
                                Err(fd(k, FieldId::ResNames))
                            } else {
                                Ok(
                                    SeqresRecordV {
                                        ser_num,
                                        chain_id,
                                        num_res: match i32_field(field(s, 13, 17)) {
                                            Some(v) => v,
                                            None => 0,
                                        },
                                        res_names: tokens(s.skip(19)),
                                    },
                                )
                            }
                        },
                    }
                }
            },
        }
    }
}

impl SeqresRecord {
    /// Decode a residue sequence line.
    pub fn decode(line: &[u8]) -> (r: Result<SeqresRecord, DecodeError>)
        ensures
            ok_view(r) == seqres_spec(line@),
    {
        let k = RecordKind::Seqres;
        if line.len() < 10 {
            return Err(fd_exec(k, FieldId::SerNum));
        }
        let ser_num = match parse_u32_field(line, 7, 10) {
            Some(v) => v,
            None => {
                return Err(fd_exec(k, FieldId::SerNum));
            },
        };
        if line.len() < 12 {
            return Err(fd_exec(k, FieldId::ChainId));
        }
        let chain_id = match parse_char_at(line, 11) {
            Some(c) => c,
            None => {
                return Err(fd_exec(k, FieldId::ChainId));
            },
        };
        if line.len() < 17 {
            return Err(fd_exec(k, FieldId::NumRes));
        }
        if line.len() < 19 {
            return Err(fd_exec(k, FieldId::ResNames));
        }
        let num_res = match parse_i32_field(line, 13, 17) {
            Some(v) => v,
            None => 0,
        };
        Ok(SeqresRecord { ser_num, chain_id, num_res, res_names: split_tokens(line, 19) })
    }

    /// Decode a residue sequence line from text.
    pub fn new(line: &str) -> (r: Result<SeqresRecord, DecodeError>)
        ensures
            ok_view(r) == seqres_spec(line.spec_bytes()),
    {
        SeqresRecord::decode(line.as_bytes())
    }
}

} // verus!
