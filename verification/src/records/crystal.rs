//! Crystallographic unit cell records.

use vstd::prelude::*;
use crate::decimal::{dec_field, parse_dec_field, Decimal};
use crate::field::{field, parse_u32_default, trimmed_bytes, u32_or_zero};
use crate::records::{fd, fd_exec, ok_view, DecodeError, FieldId, RecordKind};
use vstd::string::StringSliceAdditionalSpecFns;

verus! {

/// One unit cell record: cell edges, cell angles, space group and Z value.
#[derive(Debug, Clone, PartialEq)]
pub struct CrystalRecord {
    /// Cell edge a, in angstroms.
    pub a: Decimal,
    /// Cell edge b, in angstroms.
    pub b: Decimal,
    /// Cell edge c, in angstroms.
    pub c: Decimal,
    /// Cell angle alpha, in degrees.
    pub alpha: Decimal,
    /// Cell angle beta, in degrees.
    pub beta: Decimal,
    /// Cell angle gamma, in degrees.
    pub gamma: Decimal,
    /// Space group symbol, kept verbatim with inner blanks.
    pub space_group: Vec<u8>,
    /// Number of polymeric chains in the unit cell; zero on a bad numeral.
    pub z: u32,
}

/// Mathematical value of a `CrystalRecord`.
pub struct CrystalRecordV {
    pub a: Decimal,
    pub b: Decimal,
    pub c: Decimal,
    pub alpha: Decimal,
    pub beta: Decimal,
    pub gamma: Decimal,
    pub space_group: Seq<u8>,
    pub z: u32,
}

impl View for CrystalRecord {
    type V = CrystalRecordV;

    open spec fn view(&self) -> CrystalRecordV {
        CrystalRecordV {
            a: self.a,
            b: self.b,
            c: self.c,
            alpha: self.alpha,
            beta: self.beta,
            gamma: self.gamma,
            space_group: self.space_group@,
            z: self.z,
        }
    }
}

/// What a unit cell line decodes to: the six geometry fields must coerce as
/// decimals, the space group is the trimmed text column, and the Z column
/// defaults to zero on a bad numeral.
pub open spec fn crystal_spec(s: Seq<u8>) -> Result<CrystalRecordV, DecodeError> {
    let k = RecordKind::Crystal;
    if s.len() < 15 {
        Err(fd(k, FieldId::CellA))
    } else {
        match dec_field(field(s, 6, 15)) {
            None => Err(fd(k, FieldId::CellA)),
            Some(a) => {
                if s.len() < 24 {
                    Err(fd(k, FieldId::CellB))
                } else {
                    match dec_field(field(s, 15, 24)) {
                        None => Err(fd(k, FieldId::CellB)),
                        Some(b) => {
                            if s.len() < 33 {
                                Err(fd(k, FieldId::CellC))
                            } else {
                                match dec_field(field(s, 24, 33)) {
                                    None => Err(fd(k, FieldId::CellC)),
                                    Some(c) => crystal_spec_angles(s, a, b, c),
                                }
                            }
                        },
                    }
                }
            },
        }
    }
}

/// The angle, space-group and Z steps of `crystal_spec`.
pub open spec fn crystal_spec_angles(s: Seq<u8>, a: Decimal, b: Decimal, c: Decimal) -> Result<
    CrystalRecordV,
    DecodeError,
> {
    let k = RecordKind::Crystal;
    if s.len() < 40 {
        Err(fd(k, FieldId::Alpha))
    } else {
        match dec_field(field(s, 33, 40)) {
            None => Err(fd(k, FieldId::Alpha)),
            Some(alpha) => {
                if s.len() < 47 {
                    Err(fd(k, FieldId::Beta))
                } else {
                    match dec_field(field(s, 40, 47)) {
                        None => Err(fd(k, FieldId::Beta)),
                        Some(beta) => {
                            if s.len() < 54 {
                                Err(fd(k, FieldId::Gamma))
                            } else {
                                match dec_field(field(s, 47, 54)) {
                                    None => Err(fd(k, FieldId::Gamma)),
                                    Some(gamma) => {
                                        if s.len() < 66 {
                                            Err(fd(k, FieldId::SpaceGroup))
                                        } else if s.len() < 70 {
                                            Err(fd(k, FieldId::ZValue))
                                        } else {
                                            Ok(
                                                CrystalRecordV {
                                                    a,
                                                    b,
                                                    c,
                                                    alpha,
                                                    beta,
                                                    gamma,
                                                    space_group: field(s, 55, 66),
                                                    z: u32_or_zero(field(s, 66, 70)),
                                                },
                                            )
                                        }
                                    },
                                }
                            }
                        },
                    }
                }
            },
        }
    }
}

impl CrystalRecord {
    /// Decode a unit cell line.
    pub fn decode(line: &[u8]) -> (r: Result<CrystalRecord, DecodeError>)
        ensures
            ok_view(r) == crystal_spec(line@),
    {
        let k = RecordKind::Crystal;
        if line.len() < 15 {
            return Err(fd_exec(k, FieldId::CellA));
        }
        let a = match parse_dec_field(line, 6, 15) {
            Some(v) => v,
            None => {
                return Err(fd_exec(k, FieldId::CellA));
            },
        };
        if line.len() < 24 {
            return Err(fd_exec(k, FieldId::CellB));
        }
        let b = match parse_dec_field(line, 15, 24) {
            Some(v) => v,
            None => {
                return Err(fd_exec(k, FieldId::CellB));
            },
        };
        if line.len() < 33 {
            return Err(fd_exec(k, FieldId::CellC));
        }
        let c = match parse_dec_field(line, 24, 33) {
            Some(v) => v,
            None => {
                return Err(fd_exec(k, FieldId::CellC));
            },
        };
        if line.len() < 40 {
            return Err(fd_exec(k, FieldId::Alpha));
        }
        let alpha = match parse_dec_field(line, 33, 40) {
            Some(v) => v,
            None => {
                return Err(fd_exec(k, FieldId::Alpha));
            },
        };
        if line.len() < 47 {
            return Err(fd_exec(k, FieldId::Beta));
        }
        let beta = match parse_dec_field(line, 40, 47) {
            Some(v) => v,
            None => {
                return Err(fd_exec(k, FieldId::Beta));
            },
        };
        if line.len() < 54 {
            return Err(fd_exec(k, FieldId::Gamma));
        }
        let gamma = match parse_dec_field(line, 47, 54) {
            Some(v) => v,
            None => {
                return Err(fd_exec(k, FieldId::Gamma));
            },
        };
        if line.len() < 66 {
            return Err(fd_exec(k, FieldId::SpaceGroup));
        }
        if line.len() < 70 {
            return Err(fd_exec(k, FieldId::ZValue));
        }
        Ok(
            CrystalRecord {
                a,
                b,
                c,
                alpha,
                beta,
                gamma,
                space_group: trimmed_bytes(line, 55, 66),
                z: parse_u32_default(line, 66, 70),
            },
        )
    }

    /// Decode a unit cell line from text.
    pub fn new(line: &str) -> (r: Result<CrystalRecord, DecodeError>)
        ensures
            ok_view(r) == crystal_spec(line.spec_bytes()),
    {
        CrystalRecord::decode(line.as_bytes())
    }
}

} // verus!
