//! Modified residue records.

use vstd::prelude::*;
use crate::field::{
    char_at, field, i32_field, one_char, parse_char_at, parse_char_field, parse_i32_field,
    trimmed_bytes,
};
use crate::records::{fd, fd_exec, ok_view, DecodeError, FieldId, RecordKind};
use vstd::string::StringSliceAdditionalSpecFns;

verus! {

/// One modified residue record.
#[derive(Debug, Clone, PartialEq)]
pub struct ModresRecord {
    /// Entry identifier.
    pub id_code: Vec<u8>,
    /// Residue name as it stands in the entry.
    pub res_name: Vec<u8>,
    /// Chain identifier.
    pub chain_id: char,
    /// Residue sequence number.
    pub seq_num: i32,
    /// Insertion code.
    pub i_code: Option<char>,
    /// Standard residue name the modified residue derives from.
    pub std_res_name: Vec<u8>,
    /// Description of the modification, taken from the rest of the line.
    pub comment: Vec<u8>,
}

/// Mathematical value of a `ModresRecord`.
pub struct ModresRecordV {
    pub id_code: Seq<u8>,
    pub res_name: Seq<u8>,
    pub chain_id: char,
    pub seq_num: i32,
    pub i_code: Option<char>,
    pub std_res_name: Seq<u8>,
    pub comment: Seq<u8>,
}

impl View for ModresRecord {
    type V = ModresRecordV;

    open spec fn view(&self) -> ModresRecordV {
        ModresRecordV {
            id_code: self.id_code@,
            res_name: self.res_name@,
            chain_id: self.chain_id,
            seq_num: self.seq_num,
            i_code: self.i_code,
            std_res_name: self.std_res_name@,
            comment: self.comment@,
        }
    }
}

/// What a modified residue line decodes to.
pub open spec fn modres_spec(s: Seq<u8>) -> Result<ModresRecordV, DecodeError> {
    let k = RecordKind::Modres;
    if s.len() < 11 {
        Err(fd(k, FieldId::IdCode))
    } else if s.len() < 15 {
        Err(fd(k, FieldId::ResName))
    } else if s.len() < 17 {
        Err(fd(k, FieldId::ChainId))
    } else {
        match char_at(s, 16) {
            None => Err(fd(k, FieldId::ChainId)),
            Some(chain_id) => {
                if s.len() < 22 {
                    Err(fd(k, FieldId::SeqNum))
                } else {
                    match i32_field(field(s, 18, 22)) {
                        None => Err(fd(k, FieldId::SeqNum)),
                        Some(seq_num) => {
                            if s.len() < 23 {
                                Err(fd(k, FieldId::ICode))
                            } else if s.len() < 27 {
                                Err(fd(k, FieldId::StdResName))
                            } else if s.len() < 29 {
                                Err(fd(k, FieldId::Comment))
                            } else {
                                Ok(
                                    ModresRecordV {
                                        id_code: field(s, 7, 11),
                                        res_name: field(s, 12, 15),
                                        chain_id,
                                        seq_num,
                                        i_code: one_char(field(s, 22, 23)),
                                        std_res_name: field(s, 24, 27),
                                        comment: field(s, 29, s.len() as int),
                                    },
                                )
                            }
                        },
                    }
                }
            },
        }
    }
}

impl ModresRecord {
    /// Decode a modified residue line.
    pub fn decode(line: &[u8]) -> (r: Result<ModresRecord, DecodeError>)
        ensures
            ok_view(r) == modres_spec(line@),
    {
        let k = RecordKind::Modres;
        if line.len() < 11 {
            return Err(fd_exec(k, FieldId::IdCode));
        }
        if line.len() < 15 {
            return Err(fd_exec(k, FieldId::ResName));
        }
        if line.len() < 17 {
            return Err(fd_exec(k, FieldId::ChainId));
        }
        let chain_id = match parse_char_at(line, 16) {
            Some(c) => c,
            None => {
                return Err(fd_exec(k, FieldId::ChainId));
            },
        };
        if line.len() < 22 {
            return Err(fd_exec(k, FieldId::SeqNum));
        }
        let seq_num = match parse_i32_field(line, 18, 22) {
            Some(v) => v,
            None => {
                return Err(fd_exec(k, FieldId::SeqNum));
            },
        };
        if line.len() < 23 {
            return Err(fd_exec(k, FieldId::ICode));
        }
        if line.len() < 27 {
            return Err(fd_exec(k, FieldId::StdResName));
        }
        if line.len() < 29 {
            return Err(fd_exec(k, FieldId::Comment));
        }
        Ok(
            ModresRecord {
                id_code: trimmed_bytes(line, 7, 11),
                res_name: trimmed_bytes(line, 12, 15),
                chain_id,
                seq_num,
                i_code: parse_char_field(line, 22, 23),
                std_res_name: trimmed_bytes(line, 24, 27),
                comment: trimmed_bytes(line, 29, line.len()),
            },
        )
    }

    /// Decode a modified residue line from text.
    pub fn from(line: &str) -> (r: Result<ModresRecord, DecodeError>)
        ensures
            ok_view(r) == modres_spec(line.spec_bytes()),
    {
        ModresRecord::decode(line.as_bytes())
    }

    /// Decode a modified residue line from text.
    pub fn new(line: &str) -> (r: Result<ModresRecord, DecodeError>)
        ensures
            ok_view(r) == modres_spec(line.spec_bytes()),
    {
        ModresRecord::from(line)
    }
}

} // verus!
