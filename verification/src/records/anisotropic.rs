//! Anisotropic temperature factor records.

use vstd::prelude::*;
use crate::field::{
    field, i32_field, one_char, opt_bytes_view, opt_text, parse_char_field, parse_i32_field,
    parse_opt_text, parse_serial_field, serial_field, trimmed_bytes,
};
use crate::records::{fd, fd_exec, ok_view, DecodeError, FieldId, RecordKind};
use vstd::string::StringSliceAdditionalSpecFns;

verus! {

/// One anisotropic temperature factor record.
#[derive(Debug, Clone, PartialEq)]
pub struct AnisotropicRecord {
    /// Atom serial number.
    pub serial: u32,
    /// Atom name.
    pub name: Vec<u8>,
    /// Alternate location indicator.
    pub alt_loc: Option<char>,
    /// Residue name.
    pub res_name: Vec<u8>,
    /// Chain identifier.
    pub chain_id: char,
    /// Residue sequence number.
    pub res_seq: i32,
    /// Residue insertion code.
    pub i_code: Option<char>,
    /// Anisotropic temperature tensor element U(1,1).
    pub u00: i32,
    /// Tensor element U(2,2).
    pub u11: i32,
    /// Tensor element U(3,3).
    pub u22: i32,
    /// Tensor element U(1,2).
    pub u01: i32,
    /// Tensor element U(1,3).
    pub u02: i32,
    /// Tensor element U(2,3).
    pub u12: i32,
    /// Element symbol.
    pub element: Option<Vec<u8>>,
    /// Formal charge.
    pub charge: Option<Vec<u8>>,
}

/// Mathematical value of an `AnisotropicRecord`.
pub struct AnisotropicRecordV {
    pub serial: u32,
    pub name: Seq<u8>,
    pub alt_loc: Option<char>,
    pub res_name: Seq<u8>,
    pub chain_id: char,
    pub res_seq: i32,
    pub i_code: Option<char>,
    pub u00: i32,
    pub u11: i32,
    pub u22: i32,
    pub u01: i32,
    pub u02: i32,
    pub u12: i32,
    pub element: Option<Seq<u8>>,
    pub charge: Option<Seq<u8>>,
}

impl View for AnisotropicRecord {
    type V = AnisotropicRecordV;

    open spec fn view(&self) -> AnisotropicRecordV {
        AnisotropicRecordV {
            serial: self.serial,
            name: self.name@,
            alt_loc: self.alt_loc,
            res_name: self.res_name@,
            chain_id: self.chain_id,
            res_seq: self.res_seq,
            i_code: self.i_code,
            u00: self.u00,
            u11: self.u11,
            u22: self.u22,
            u01: self.u01,
            u02: self.u02,
            u12: self.u12,
            element: opt_bytes_view(self.element),
            charge: opt_bytes_view(self.charge),
        }
    }
}

/// What an anisotropic line decodes to: the serial is read with the
/// hexadecimal fallback and defaults to zero on a bad numeral, the chain
/// identifier must be a single character, the sequence number and six tensor
/// elements must coerce, and the trailing element and charge columns are
/// absent when blank or missing.
pub open spec fn anisou_spec(s: Seq<u8>) -> Result<AnisotropicRecordV, DecodeError> {
    let k = RecordKind::Anisou;
    if s.len() < 11 {
        Err(fd(k, FieldId::Serial))
    } else if s.len() < 16 {
        Err(fd(k, FieldId::Name))
    } else if s.len() < 17 {
        Err(fd(k, FieldId::AltLoc))
    } else if s.len() < 20 {
        Err(fd(k, FieldId::ResName))
    } else if s.len() < 22 {
        Err(fd(k, FieldId::ChainId))
    } else {
        match one_char(field(s, 21, 22)) {
            None => Err(fd(k, FieldId::ChainId)),
            Some(chain_id) => {
                if s.len() < 26 {
                    Err(fd(k, FieldId::ResSeq))
                } else {
                    match i32_field(field(s, 22, 26)) {
                        None => Err(fd(k, FieldId::ResSeq)),
                        Some(res_seq) => {
                            if s.len() < 27 {
                                Err(fd(k, FieldId::ICode))
                            } else {
                                anisou_spec_tensor(s, chain_id, res_seq)
                            }
                        },
                    }
                }
            },
        }
    }
}

/// The six tensor-element steps of `anisou_spec`.
pub open spec fn anisou_spec_tensor(s: Seq<u8>, chain_id: char, res_seq: i32) -> Result<
    AnisotropicRecordV,
    DecodeError,
> {
    let k = RecordKind::Anisou;
    if s.len() < 35 {
        Err(fd(k, FieldId::U00))
    } else {
        match i32_field(field(s, 28, 35)) {
            None => Err(fd(k, FieldId::U00)),
            Some(u00) => {
                if s.len() < 42 {
                    Err(fd(k, FieldId::U11))
                } else {
                    match i32_field(field(s, 35, 42)) {
                        None => Err(fd(k, FieldId::U11)),
                        Some(u11) => {
                            if s.len() < 49 {
                                Err(fd(k, FieldId::U22))
                            } else {
                                match i32_field(field(s, 42, 49)) {
                                    None => Err(fd(k, FieldId::U22)),
                                    Some(u22) => anisou_spec_tensor_low(
                                        s,
                                        chain_id,
                                        res_seq,
                                        u00,
                                        u11,
                                        u22,
                                    ),
                                }
                            }
                        },
                    }
                }
            },
        }
    }
}

/// The off-diagonal tensor steps of `anisou_spec` and the final record.
pub open spec fn anisou_spec_tensor_low(
    s: Seq<u8>,
    chain_id: char,
    res_seq: i32,
    u00: i32,
    u11: i32,
    u22: i32,
) -> Result<AnisotropicRecordV, DecodeError> {
    let k = RecordKind::Anisou;
    if s.len() < 56 {
        Err(fd(k, FieldId::U01))
    } else {
        match i32_field(field(s, 49, 56)) {
            None => Err(fd(k, FieldId::U01)),
            Some(u01) => {
                if s.len() < 63 {
                    Err(fd(k, FieldId::U02))
                } else {
                    match i32_field(field(s, 56, 63)) {
                        None => Err(fd(k, FieldId::U02)),
                        Some(u02) => {
                            if s.len() < 70 {
                                Err(fd(k, FieldId::U12))
                            } else {
                                match i32_field(field(s, 63, 70)) {
                                    None => Err(fd(k, FieldId::U12)),
                                    Some(u12) => Ok(
                                        AnisotropicRecordV {
                                            serial: serial_field(field(s, 6, 11)),
                                            name: field(s, 12, 16),
                                            alt_loc: one_char(field(s, 16, 17)),
                                            res_name: field(s, 17, 20),
                                            chain_id,
                                            res_seq,
                                            i_code: one_char(field(s, 26, 27)),
                                            u00,
                                            u11,
                                            u22,
                                            u01,
                                            u02,
                                            u12,
                                            element: opt_text(s, 76, 78),
                                            charge: opt_text(s, 78, 80),
                                        },
                                    ),
                                }
                            }
                        },
                    }
                }
            },
        }
    }
}

impl AnisotropicRecord {
    /// Decode an anisotropic temperature factor line.
    pub fn decode(line: &[u8]) -> (r: Result<AnisotropicRecord, DecodeError>)
        ensures
            ok_view(r) == anisou_spec(line@),
    {
        let k = RecordKind::Anisou;
        if line.len() < 11 {
            return Err(fd_exec(k, FieldId::Serial));
        }
        if line.len() < 16 {
            return Err(fd_exec(k, FieldId::Name));
        }
        if line.len() < 17 {
            return Err(fd_exec(k, FieldId::AltLoc));
        }
        if line.len() < 20 {
            return Err(fd_exec(k, FieldId::ResName));
        }
        if line.len() < 22 {
            return Err(fd_exec(k, FieldId::ChainId));
        }
        let chain_id = match parse_char_field(line, 21, 22) {
            Some(c) => c,
            None => {
                return Err(fd_exec(k, FieldId::ChainId));
            },
        };
        if line.len() < 26 {
            return Err(fd_exec(k, FieldId::ResSeq));
        }
        let res_seq = match parse_i32_field(line, 22, 26) {
            Some(v) => v,
            None => {
                return Err(fd_exec(k, FieldId::ResSeq));
            },
        };
        if line.len() < 27 {
            return Err(fd_exec(k, FieldId::ICode));
        }
        if line.len() < 35 {
            return Err(fd_exec(k, FieldId::U00));
        }
        let u00 = match parse_i32_field(line, 28, 35) {
            Some(v) => v,
            None => {
                return Err(fd_exec(k, FieldId::U00));
            },
        };
        if line.len() < 42 {
            return Err(fd_exec(k, FieldId::U11));
        }
        let u11 = match parse_i32_field(line, 35, 42) {
            Some(v) => v,
            None => {
                return Err(fd_exec(k, FieldId::U11));
            },
        };
        if line.len() < 49 {
            return Err(fd_exec(k, FieldId::U22));
        }
        let u22 = match parse_i32_field(line, 42, 49) {
            Some(v) => v,
            None => {
                return Err(fd_exec(k, FieldId::U22));
            },
        };
        if line.len() < 56 {
            return Err(fd_exec(k, FieldId::U01));
        }
        let u01 = match parse_i32_field(line, 49, 56) {
            Some(v) => v,
            None => {
                return Err(fd_exec(k, FieldId::U01));
            },
        };
        if line.len() < 63 {
            return Err(fd_exec(k, FieldId::U02));
        }
        let u02 = match parse_i32_field(line, 56, 63) {
            Some(v) => v,
            None => {
                return Err(fd_exec(k, FieldId::U02));
            },
        };
        if line.len() < 70 {
            return Err(fd_exec(k, FieldId::U12));
        }
        let u12 = match parse_i32_field(line, 63, 70) {
            Some(v) => v,
            None => {
                return Err(fd_exec(k, FieldId::U12));
            },
        };
        Ok(
            AnisotropicRecord {
                serial: parse_serial_field(line, 6, 11),
                name: trimmed_bytes(line, 12, 16),
                alt_loc: parse_char_field(line, 16, 17),
                res_name: trimmed_bytes(line, 17, 20),
                chain_id,
                res_seq,
                i_code: parse_char_field(line, 26, 27),
                u00,
                u11,
                u22,
                u01,
                u02,
                u12,
                element: parse_opt_text(line, 76, 78),
                charge: parse_opt_text(line, 78, 80),
            },
        )
    }

    /// Decode an anisotropic temperature factor line from text.
    pub fn new(line: &str) -> (r: Result<AnisotropicRecord, DecodeError>)
        ensures
            ok_view(r) == anisou_spec(line.spec_bytes()),
    {
        AnisotropicRecord::decode(line.as_bytes())
    }
}

} // verus!
