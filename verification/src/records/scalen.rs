//! Scale matrix records: the transform to fractional crystallographic
//! coordinates, a family of three tags carrying one row each.

use vstd::prelude::*;
use crate::decimal::{dec_field, parse_dec_field, Decimal};
use crate::field::field;
use crate::records::{fd, fd_exec, ok_view, sub_number, DecodeError, FieldId, RecordKind};
use vstd::string::StringSliceAdditionalSpecFns;

verus! {

/// One scale matrix row record.
#[derive(Debug, Clone, PartialEq)]
pub struct ScalenRecord {
    /// Which row the tag names: 1, 2 or 3.
    pub n: u16,
    /// The three matrix elements of this row.
    pub scalen: [Decimal; 3],
    /// The translation component of this row.
    pub un: Decimal,
}

/// Mathematical value of a `ScalenRecord`.
pub struct ScalenRecordV {
    pub n: u16,
    pub scalen: Seq<Decimal>,
    pub un: Decimal,
}

impl View for ScalenRecord {
    type V = ScalenRecordV;

    open spec fn view(&self) -> ScalenRecordV {
        ScalenRecordV { n: self.n, scalen: self.scalen@, un: self.un }
    }
}

/// What a scale matrix line decodes to: the sub-number digit picks the
/// row, and the three matrix elements and the translation must coerce.
pub open spec fn scalen_spec(s: Seq<u8>) -> Result<ScalenRecordV, DecodeError> {
    let k = RecordKind::Scale;
    match sub_number(s) {
        None => Err(DecodeError::InvalidSubNumber { kind: k }),
        Some(n) => {
            if s.len() < 20 {
                Err(fd(k, FieldId::Matrix))
            } else {
                match dec_field(field(s, 10, 20)) {
                    None => Err(fd(k, FieldId::Matrix)),
                    Some(m0) => {
                        if s.len() < 30 {
                            Err(fd(k, FieldId::Matrix))
                        } else {
                            match dec_field(field(s, 20, 30)) {
                                None => Err(fd(k, FieldId::Matrix)),
                                Some(m1) => {
                                    if s.len() < 40 {
                                        Err(fd(k, FieldId::Matrix))
                                    } else {
                                        match dec_field(field(s, 30, 40)) {
                                            None => Err(fd(k, FieldId::Matrix)),
                                            Some(m2) => {
                                                if s.len() < 55 {
                                                    Err(fd(k, FieldId::Un))
                                                } else {
                                                    match dec_field(field(s, 45, 55)) {
                                                        None => Err(fd(k, FieldId::Un)),
                                                        Some(un) => Ok(
                                                            ScalenRecordV {
                                                                n: n as u16,
                                                                scalen: seq![m0, m1, m2],
                                                                un,
                                                            },
                                                        ),
                                                    }
                                                }
                                            },
                                        }
                                    }
                                },
                            }
                        }
                    },
                }
            }
        },
    }
}

impl ScalenRecord {
    /// Decode a scale matrix line.
    pub fn decode(line: &[u8]) -> (r: Result<ScalenRecord, DecodeError>)
        ensures
            ok_view(r) == scalen_spec(line@),
            r is Ok ==> 1 <= r->Ok_0.n <= 3,
    {
        let k = RecordKind::Scale;
        if line.len() < 6 {
            return Err(DecodeError::InvalidSubNumber { kind: k });
        }
        let sub = line[5];
        if !(sub == 0x31 || sub == 0x32 || sub == 0x33) {
            return Err(DecodeError::InvalidSubNumber { kind: k });
        }
        let n: u16 = (sub - 0x30) as u16;
        if line.len() < 20 {
            return Err(fd_exec(k, FieldId::Matrix));
        }
        let m0 = match parse_dec_field(line, 10, 20) {
            Some(v) => v,
            None => {
                return Err(fd_exec(k, FieldId::Matrix));
            },
        };
        if line.len() < 30 {
            return Err(fd_exec(k, FieldId::Matrix));
        }
        let m1 = match parse_dec_field(line, 20, 30) {
            Some(v) => v,
            None => {
                return Err(fd_exec(k, FieldId::Matrix));
            },
        };
        if line.len() < 40 {
            return Err(fd_exec(k, FieldId::Matrix));
        }
        let m2 = match parse_dec_field(line, 30, 40) {
            Some(v) => v,
            None => {
                return Err(fd_exec(k, FieldId::Matrix));
            },
        };
        if line.len() < 55 {
            return Err(fd_exec(k, FieldId::Un));
        }
        let un = match parse_dec_field(line, 45, 55) {
            Some(v) => v,
            None => {
                return Err(fd_exec(k, FieldId::Un));
            },
        };
        let r = ScalenRecord { n, scalen: [m0, m1, m2], un };
        proof {
            assert(r.scalen@ =~= seq![m0, m1, m2]);
        }
        Ok(r)
    }

    /// Decode a scale matrix line from text.
    pub fn new(line: &str) -> (r: Result<ScalenRecord, DecodeError>)
        ensures
            ok_view(r) == scalen_spec(line.spec_bytes()),
    {
        ScalenRecord::decode(line.as_bytes())
    }
}

/// A scale matrix record under the row its tag names.
#[derive(Debug, Clone, PartialEq)]
pub enum ScaleN {
    /// First row.
    Scale1(ScalenRecord),
    /// Second row.
    Scale2(ScalenRecord),
    /// Third row.
    Scale3(ScalenRecord),
}

/// Mathematical value of an `ScaleN`.
pub enum ScaleNV {
    Scale1(ScalenRecordV),
    Scale2(ScalenRecordV),
    Scale3(ScalenRecordV),
}

impl View for ScaleN {
    type V = ScaleNV;

    open spec fn view(&self) -> ScaleNV {
        match self {
            ScaleN::Scale1(r) => ScaleNV::Scale1(r@),
            ScaleN::Scale2(r) => ScaleNV::Scale2(r@),
            ScaleN::Scale3(r) => ScaleNV::Scale3(r@),
        }
    }
}

/// The sub-tag the decoded row number selects.
pub open spec fn scalen_sel(r: ScalenRecordV) -> ScaleNV {
    if r.n == 1 {
        ScaleNV::Scale1(r)
    } else if r.n == 2 {
        ScaleNV::Scale2(r)
    } else {
        ScaleNV::Scale3(r)
    }
}

/// What a scale matrix line decodes to, under its sub-tag.
pub open spec fn scale_family_spec(s: Seq<u8>) -> Result<ScaleNV, DecodeError> {
    match scalen_spec(s) {
        Ok(r) => Ok(scalen_sel(r)),
        Err(e) => Err(e),
    }
}

impl ScaleN {
    /// Decode a scale matrix line.
    pub fn decode(line: &[u8]) -> (r: Result<ScaleN, DecodeError>)
        ensures
            ok_view(r) == scale_family_spec(line@),
    {
        match ScalenRecord::decode(line) {
            Ok(rec) => {
                if rec.n == 1 {
                    Ok(ScaleN::Scale1(rec))
                } else if rec.n == 2 {
                    Ok(ScaleN::Scale2(rec))
                } else {
                    Ok(ScaleN::Scale3(rec))
                }
            },
            Err(e) => Err(e),
        }
    }

    /// Decode a scale matrix line from text.
    pub fn new(line: &str) -> (r: Result<ScaleN, DecodeError>)
        ensures
            ok_view(r) == scale_family_spec(line.spec_bytes()),
    {
        ScaleN::decode(line.as_bytes())
    }
}

} // verus!
