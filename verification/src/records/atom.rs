//! Atom coordinate records, shared by the standard and hetero-atom tags.

use vstd::prelude::*;
use crate::decimal::{dec_field, parse_dec_field, Decimal};
use crate::field::{
    field, i32_field, one_char, opt_bytes_view, opt_text, parse_char_field, parse_i32_field,
    parse_opt_text, parse_serial_field, serial_field, trimmed_bytes,
};
use crate::records::{fd, fd_exec, ok_view, DecodeError, FieldId, RecordKind};
use vstd::string::StringSliceAdditionalSpecFns;

verus! {

/// One atom coordinate record.
///
/// The element and charge columns overlap by one byte, as observed files
/// have them; both are decoded from their own range.
#[derive(Debug, Clone, PartialEq)]
pub struct AtomRecord {
    /// Atom serial number; zero marks a serial left for the normalizer.
    pub serial: u32,
    /// Atom name.
    pub name: Vec<u8>,
    /// Alternate location indicator.
    pub alt_loc: Option<char>,
    /// Residue name.
    pub res_name: Vec<u8>,
    /// Chain identifier.
    pub chain_id: Option<char>,
    /// Residue sequence number.
    pub res_seq: i32,
    /// Residue insertion code.
    pub i_code: Option<char>,
    /// Orthogonal x coordinate.
    pub x: Decimal,
    /// Orthogonal y coordinate.
    pub y: Decimal,
    /// Orthogonal z coordinate.
    pub z: Decimal,
    /// Occupancy.
    pub occupancy: Decimal,
    /// Temperature factor.
    pub temp_factor: Decimal,
    /// Element symbol.
    pub element: Option<Vec<u8>>,
    /// Formal charge.
    pub charge: Option<Vec<u8>>,
    /// Entry identifier.
    pub entry: Option<Vec<u8>>,
}

/// Mathematical value of an `AtomRecord`.
pub struct AtomRecordV {
    pub serial: u32,
    pub name: Seq<u8>,
    pub alt_loc: Option<char>,
    pub res_name: Seq<u8>,
    pub chain_id: Option<char>,
    pub res_seq: i32,
    pub i_code: Option<char>,
    pub x: Decimal,
    pub y: Decimal,
    pub z: Decimal,
    pub occupancy: Decimal,
    pub temp_factor: Decimal,
    pub element: Option<Seq<u8>>,
    pub charge: Option<Seq<u8>>,
    pub entry: Option<Seq<u8>>,
}

impl View for AtomRecord {
    type V = AtomRecordV;

    open spec fn view(&self) -> AtomRecordV {
        AtomRecordV {
            serial: self.serial,
            name: self.name@,
            alt_loc: self.alt_loc,
            res_name: self.res_name@,
            chain_id: self.chain_id,
            res_seq: self.res_seq,
            i_code: self.i_code,
            x: self.x,
            y: self.y,
            z: self.z,
            occupancy: self.occupancy,
            temp_factor: self.temp_factor,
            element: opt_bytes_view(self.element),
            charge: opt_bytes_view(self.charge),
            entry: opt_bytes_view(self.entry),
        }
    }
}

/// What an atom-kind line decodes to: every mandatory column in bounds, the
/// sequence number, coordinates, occupancy and temperature factor coerced,
/// the serial read with the hexadecimal fallback, and the trailing optional
/// columns absent when blank or missing.  `kind` names the tag on whose
/// behalf the codec ran, for the error it reports.
pub open spec fn atom_spec(s: Seq<u8>, kind: RecordKind) -> Result<AtomRecordV, DecodeError> {
    if s.len() < 11 {
        Err(fd(kind, FieldId::Serial))
    } else if s.len() < 16 {
        Err(fd(kind, FieldId::Name))
    } else if s.len() < 17 {
        Err(fd(kind, FieldId::AltLoc))
    } else if s.len() < 20 {
        Err(fd(kind, FieldId::ResName))
    } else if s.len() < 22 {
        Err(fd(kind, FieldId::ChainId))
    } else if s.len() < 26 {
        Err(fd(kind, FieldId::ResSeq))
    } else {
        match i32_field(field(s, 22, 26)) {
            None => Err(fd(kind, FieldId::ResSeq)),
            Some(res_seq) => {
                if s.len() < 27 {
                    Err(fd(kind, FieldId::ICode))
                } else if s.len() < 38 {
                    Err(fd(kind, FieldId::X))
                } else {
                    match dec_field(field(s, 30, 38)) {
                        None => Err(fd(kind, FieldId::X)),
                        Some(x) => {
                            if s.len() < 46 {
                                Err(fd(kind, FieldId::Y))
                            } else {
                                match dec_field(field(s, 38, 46)) {
                                    None => Err(fd(kind, FieldId::Y)),
                                    Some(y) => {
                                        if s.len() < 54 {
                                            Err(fd(kind, FieldId::Z))
                                        } else {
                                            match dec_field(field(s, 46, 54)) {
                                                None => Err(fd(kind, FieldId::Z)),
                                                Some(z) => atom_spec_tail(s, kind, res_seq, x, y, z),
                                            }
                                        }
                                    },
                                }
                            }
                        },
                    }
                }
            },
        }
    }
}

/// The occupancy and temperature-factor steps of `atom_spec`, split out to
/// keep each spec body readable.
pub open spec fn atom_spec_tail(
    s: Seq<u8>,
    kind: RecordKind,
    res_seq: i32,
    x: Decimal,
    y: Decimal,
    z: Decimal,
) -> Result<AtomRecordV, DecodeError> {
    if s.len() < 60 {
        Err(fd(kind, FieldId::Occupancy))
    } else {
        match dec_field(field(s, 54, 60)) {
            None => Err(fd(kind, FieldId::Occupancy)),
            Some(occupancy) => {
                if s.len() < 66 {
                    Err(fd(kind, FieldId::TempFactor))
                } else {
                    match dec_field(field(s, 60, 66)) {
                        None => Err(fd(kind, FieldId::TempFactor)),
                        Some(temp_factor) => Ok(
                            AtomRecordV {
                                serial: serial_field(field(s, 6, 11)),
                                name: field(s, 12, 16),
                                alt_loc: one_char(field(s, 16, 17)),
                                res_name: field(s, 17, 20),
                                chain_id: one_char(field(s, 21, 22)),
                                res_seq,
                                i_code: one_char(field(s, 26, 27)),
                                x,
                                y,
                                z,
                                occupancy,
                                temp_factor,
                                element: opt_text(s, 77, 80),
                                charge: opt_text(s, 78, 80),
                                entry: opt_text(s, 72, 76),
                            },
                        ),
                    }
                }
            },
        }
    }
}

impl AtomRecord {
    /// Decode an atom-kind line, reporting errors under `kind`.
    pub fn decode(line: &[u8], kind: RecordKind) -> (r: Result<AtomRecord, DecodeError>)
        ensures
            ok_view(r) == atom_spec(line@, kind),
    {
        if line.len() < 11 {
            return Err(fd_exec(kind, FieldId::Serial));
        }
        if line.len() < 16 {
            return Err(fd_exec(kind, FieldId::Name));
        }
        if line.len() < 17 {
            return Err(fd_exec(kind, FieldId::AltLoc));
        }
        if line.len() < 20 {
            return Err(fd_exec(kind, FieldId::ResName));
        }
        if line.len() < 22 {
            return Err(fd_exec(kind, FieldId::ChainId));
        }
        if line.len() < 26 {
            return Err(fd_exec(kind, FieldId::ResSeq));
        }
        let res_seq = match parse_i32_field(line, 22, 26) {
            Some(v) => v,
            None => {
                return Err(fd_exec(kind, FieldId::ResSeq));
            },
        };
        if line.len() < 27 {
            return Err(fd_exec(kind, FieldId::ICode));
        }
        if line.len() < 38 {
            return Err(fd_exec(kind, FieldId::X));
        }
        let x = match parse_dec_field(line, 30, 38) {
            Some(v) => v,
            None => {
                return Err(fd_exec(kind, FieldId::X));
            },
        };
        if line.len() < 46 {
            return Err(fd_exec(kind, FieldId::Y));
        }
        let y = match parse_dec_field(line, 38, 46) {
            Some(v) => v,
            None => {
                return Err(fd_exec(kind, FieldId::Y));
            },
        };
        if line.len() < 54 {
            return Err(fd_exec(kind, FieldId::Z));
        }
        let z = match parse_dec_field(line, 46, 54) {
            Some(v) => v,
            None => {
                return Err(fd_exec(kind, FieldId::Z));
            },
        };
        if line.len() < 60 {
            return Err(fd_exec(kind, FieldId::Occupancy));
        }
        let occupancy = match parse_dec_field(line, 54, 60) {
            Some(v) => v,
            None => {
                return Err(fd_exec(kind, FieldId::Occupancy));
            },
        };
        if line.len() < 66 {
            return Err(fd_exec(kind, FieldId::TempFactor));
        }
        let temp_factor = match parse_dec_field(line, 60, 66) {
            Some(v) => v,
            None => {
                return Err(fd_exec(kind, FieldId::TempFactor));
            },
        };
        Ok(
            AtomRecord {
                serial: parse_serial_field(line, 6, 11),
                name: trimmed_bytes(line, 12, 16),
                alt_loc: parse_char_field(line, 16, 17),
                res_name: trimmed_bytes(line, 17, 20),
                chain_id: parse_char_field(line, 21, 22),
                res_seq,
                i_code: parse_char_field(line, 26, 27),
                x,
                y,
                z,
                occupancy,
                temp_factor,
                element: parse_opt_text(line, 77, 80),
                charge: parse_opt_text(line, 78, 80),
                entry: parse_opt_text(line, 72, 76),
            },
        )
    }

    /// Decode a standard atom coordinate line.
    pub fn new(line: &str) -> (r: Result<AtomRecord, DecodeError>)
        ensures
            ok_view(r) == atom_spec(line.spec_bytes(), RecordKind::Atom),
    {
        AtomRecord::decode(line.as_bytes(), RecordKind::Atom)
    }
}

/// The same atom value under another serial number, as the normalizer
/// rewrites it.
pub open spec fn with_serial(a: AtomRecordV, serial: u32) -> AtomRecordV {
    AtomRecordV {
        serial,
        name: a.name,
        alt_loc: a.alt_loc,
        res_name: a.res_name,
        chain_id: a.chain_id,
        res_seq: a.res_seq,
        i_code: a.i_code,
        x: a.x,
        y: a.y,
        z: a.z,
        occupancy: a.occupancy,
        temp_factor: a.temp_factor,
        element: a.element,
        charge: a.charge,
        entry: a.entry,
    }
}

} // verus!
