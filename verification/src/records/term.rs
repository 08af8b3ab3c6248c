//! Chain terminator records.

use vstd::prelude::*;
use crate::field::{char_at, field, i32_field, parse_char_at, parse_i32_field, parse_serial_field,
    serial_field, trimmed_bytes};
use crate::records::{fd, fd_exec, ok_view, DecodeError, FieldId, RecordKind};
use vstd::string::StringSliceAdditionalSpecFns;

verus! {

/// One chain terminator record.
#[derive(Debug, Clone, PartialEq)]
pub struct TermRecord {
    /// Serial number of the terminator, hexadecimal when the field holds a
    /// letter; zero on a bad numeral.
    pub serial: u32,
    /// Residue name of the last residue of the chain.
    pub res_name: Vec<u8>,
    /// Chain identifier, kept even when blank.
    pub chain_id: char,
    /// Residue sequence number; zero on a bad numeral.
    pub res_seq: i32,
    /// Insertion code; absent when the column is blank or missing.
    pub i_code: Option<char>,
}

/// Mathematical value of a `TermRecord`.
pub struct TermRecordV {
    pub serial: u32,
    pub res_name: Seq<u8>,
    pub chain_id: char,
    pub res_seq: i32,
    pub i_code: Option<char>,
}

impl View for TermRecord {
    type V = TermRecordV;

    open spec fn view(&self) -> TermRecordV {
        TermRecordV {
            serial: self.serial,
            res_name: self.res_name@,
            chain_id: self.chain_id,
            res_seq: self.res_seq,
            i_code: self.i_code,
        }
    }
}

/// The terminator's insertion code: read untrimmed, absent when the line ends
/// first, the column holds a blank, or the byte is not a character.
pub open spec fn term_icode(s: Seq<u8>) -> Option<char> {
    if s.len() < 27 {
        None
    } else if s[26] == 0x20 || s[26] >= 0x80 {
        None
    } else {
        Some(s[26] as char)
    }
}

/// The residue sequence column of a terminator: zero on a bad numeral.
pub open spec fn term_res_seq(s: Seq<u8>) -> i32 {
    match i32_field(field(s, 22, 26)) {
        Some(v) => v,
        None => 0,
    }
}

/// What a chain terminator line decodes to: the serial is read with the
/// hexadecimal fallback, the serial and sequence number default to zero on
/// bad numerals, the chain column is taken verbatim, and the insertion code
/// is optional.
pub open spec fn term_spec(s: Seq<u8>) -> Result<TermRecordV, DecodeError> {
    let k = RecordKind::Term;
    if s.len() < 11 {
        Err(fd(k, FieldId::Serial))
    } else if s.len() < 20 {
        Err(fd(k, FieldId::ResName))
    } else if s.len() < 22 {
        Err(fd(k, FieldId::ChainId))
    } else {
        match char_at(s, 21) {
            None => Err(fd(k, FieldId::ChainId)),
            Some(chain_id) => {
                if s.len() < 26 {
                    Err(fd(k, FieldId::ResSeq))
                } else {
                    Ok(
                        TermRecordV {
                            serial: serial_field(field(s, 6, 11)),
                            res_name: field(s, 17, 20),
                            chain_id,
                            res_seq: term_res_seq(s),
                            i_code: term_icode(s),
                        },
                    )
                }
            },
        }
    }
}

impl TermRecord {
    /// Decode a chain terminator line.
    pub fn decode(line: &[u8]) -> (r: Result<TermRecord, DecodeError>)
        ensures
            ok_view(r) == term_spec(line@),
    {
        let k = RecordKind::Term;
        if line.len() < 11 {
            return Err(fd_exec(k, FieldId::Serial));
        }
        if line.len() < 20 {
            return Err(fd_exec(k, FieldId::ResName));
        }
        if line.len() < 22 {
            return Err(fd_exec(k, FieldId::ChainId));
        }
        let chain_id = match parse_char_at(line, 21) {
            Some(c) => c,
            None => {
                return Err(fd_exec(k, FieldId::ChainId));
            },
        };
        if line.len() < 26 {
            return Err(fd_exec(k, FieldId::ResSeq));
        }
        let res_seq = match parse_i32_field(line, 22, 26) {
            Some(v) => v,
            None => 0,
        };
        let i_code: Option<char> = if line.len() < 27 {
            None
        } else {
            let b = line[26];
            if b == 0x20 || b >= 0x80 {
                None
            } else {
                Some(b as char)
            }
        };
        Ok(
            TermRecord {
                serial: parse_serial_field(line, 6, 11),
                res_name: trimmed_bytes(line, 17, 20),
                chain_id,
                res_seq,
                i_code,
            },
        )
    }

    /// Decode a chain terminator line from text.
    pub fn new(line: &str) -> (r: Result<TermRecord, DecodeError>)
        ensures
            ok_view(r) == term_spec(line.spec_bytes()),
    {
        TermRecord::decode(line.as_bytes())
    }
}

} // verus!
