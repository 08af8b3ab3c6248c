//! Hetero-compound records.

use vstd::prelude::*;
use crate::field::{
    char_at, field, i32_field, one_char, opt_bytes_view, opt_text, parse_char_at, parse_char_field,
    parse_i32_field, parse_opt_text, trimmed_bytes,
};
use crate::records::{fd, fd_exec, ok_view, DecodeError, FieldId, RecordKind};
use vstd::string::StringSliceAdditionalSpecFns;

verus! {

/// One hetero-compound record.
#[derive(Debug, Clone, PartialEq)]
pub struct HetRecord {
    /// Hetero-compound identifier.
    pub het_id: Vec<u8>,
    /// Chain identifier.
    pub chain_id: char,
    /// Sequence number.
    pub seq_num: i32,
    /// Insertion code.
    pub i_code: Option<char>,
    /// Number of hetero-atoms in the compound.
    pub num_het_atoms: i32,
    /// Free-text description, absent when blank or missing.
    pub text: Option<Vec<u8>>,
}

/// Mathematical value of a `HetRecord`.
pub struct HetRecordV {
    pub het_id: Seq<u8>,
    pub chain_id: char,
    pub seq_num: i32,
    pub i_code: Option<char>,
    pub num_het_atoms: i32,
    pub text: Option<Seq<u8>>,
}

impl View for HetRecord {
    type V = HetRecordV;

    open spec fn view(&self) -> HetRecordV {
        HetRecordV {
            het_id: self.het_id@,
            chain_id: self.chain_id,
            seq_num: self.seq_num,
            i_code: self.i_code,
            num_het_atoms: self.num_het_atoms,
            text: opt_bytes_view(self.text),
        }
    }
}

/// What a hetero-compound line decodes to: identifier, chain character,
/// mandatory sequence number and atom count, and an optional description.
pub open spec fn het_spec(s: Seq<u8>) -> Result<HetRecordV, DecodeError> {
    let k = RecordKind::Het;
    if s.len() < 10 {
        Err(fd(k, FieldId::HetId))
    } else if s.len() < 13 {
        Err(fd(k, FieldId::ChainId))
    } else {
        match char_at(s, 12) {
            None => Err(fd(k, FieldId::ChainId)),
            Some(chain_id) => {
                if s.len() < 17 {
                    Err(fd(k, FieldId::SeqNum))
                } else {
                    match i32_field(field(s, 13, 17)) {
                        None => Err(fd(k, FieldId::SeqNum)),
                        Some(seq_num) => {
                            if s.len() < 18 {
                                Err(fd(k, FieldId::ICode))
                            } else if s.len() < 26 {
                                Err(fd(k, FieldId::NumHetAtoms))
                            } else {
                                match i32_field(field(s, 21, 26)) {
                                    None => Err(fd(k, FieldId::NumHetAtoms)),
                                    Some(num_het_atoms) => Ok(
                                        HetRecordV {
                                            het_id: field(s, 7, 10),
                                            chain_id,
                                            seq_num,
                                            i_code: one_char(field(s, 17, 18)),
                                            num_het_atoms,
                                            text: opt_text(s, 31, 71),
                                        },
                                    ),
                                }
                            }
                        },
                    }
                }
            },
        }
    }
}

impl HetRecord {
    /// Decode a hetero-compound line.
    pub fn decode(line: &[u8]) -> (r: Result<HetRecord, DecodeError>)
        ensures
            ok_view(r) == het_spec(line@),
    {
        let k = RecordKind::Het;
        if line.len() < 10 {
            return Err(fd_exec(k, FieldId::HetId));
        }
        if line.len() < 13 {
            return Err(fd_exec(k, FieldId::ChainId));
        }
        let chain_id = match parse_char_at(line, 12) {
            Some(c) => c,
            None => {
                return Err(fd_exec(k, FieldId::ChainId));
            },
        };
        if line.len() < 17 {
            return Err(fd_exec(k, FieldId::SeqNum));
        }
        let seq_num = match parse_i32_field(line, 13, 17) {
            Some(v) => v,
            None => {
                return Err(fd_exec(k, FieldId::SeqNum));
            },
        };
        if line.len() < 18 {
            return Err(fd_exec(k, FieldId::ICode));
        }
        if line.len() < 26 {
            return Err(fd_exec(k, FieldId::NumHetAtoms));
        }
        let num_het_atoms = match parse_i32_field(line, 21, 26) {
            Some(v) => v,
            None => {
                return Err(fd_exec(k, FieldId::NumHetAtoms));
            },
        };
        Ok(
            HetRecord {
                het_id: trimmed_bytes(line, 7, 10),
                chain_id,
                seq_num,
                i_code: parse_char_field(line, 17, 18),
                num_het_atoms,
                text: parse_opt_text(line, 31, 71),
            },
        )
    }

    /// Decode a hetero-compound line from text.
    pub fn new(line: &str) -> (r: Result<HetRecord, DecodeError>)
        ensures
            ok_view(r) == het_spec(line.spec_bytes()),
    {
        HetRecord::decode(line.as_bytes())
    }
}

} // verus!
