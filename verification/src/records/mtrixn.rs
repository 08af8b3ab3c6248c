//! Rotation matrix records, a family of three tags carrying one matrix row
//! each.

use vstd::prelude::*;
use crate::decimal::{dec_field, parse_dec_field, Decimal};
use crate::field::{field, parse_u32_field, u32_field};
use crate::render::{dec_digits, digits_u32, pad_left, pad_left_vec, pad_right, pad_right_vec, spaces};
use crate::records::{fd, fd_exec, ok_view, sub_number, DecodeError, FieldId, RecordKind};
use vstd::string::StringSliceAdditionalSpecFns;

verus! {

/// One rotation matrix row record.
#[derive(Debug, Clone, PartialEq)]
pub struct MtrixnRecord {
    /// Which row the tag names: 1, 2 or 3.
    pub n: u32,
    /// Serial number of the transformation.
    pub serial_number: u32,
    /// The three matrix elements of this row.
    pub matrix: [Decimal; 3],
    /// The translation component of this row.
    pub vn: Decimal,
    /// Whether the transformation is already given in the coordinates.
    pub i_given: bool,
}

/// Mathematical value of a `MtrixnRecord`.
pub struct MtrixnRecordV {
    pub n: u32,
    pub serial_number: u32,
    pub matrix: Seq<Decimal>,
    pub vn: Decimal,
    pub i_given: bool,
}

impl View for MtrixnRecord {
    type V = MtrixnRecordV;

    open spec fn view(&self) -> MtrixnRecordV {
        MtrixnRecordV {
            n: self.n,
            serial_number: self.serial_number,
            matrix: self.matrix@,
            vn: self.vn,
            i_given: self.i_given,
        }
    }
}

/// What a rotation matrix line decodes to: the sub-number digit picks the
/// row, the serial and the four numeric fields must coerce, and the
/// given-flag column must be in bounds.
pub open spec fn mtrixn_spec(s: Seq<u8>) -> Result<MtrixnRecordV, DecodeError> {
    let k = RecordKind::Mtrix;
    match sub_number(s) {
        None => Err(DecodeError::InvalidSubNumber { kind: k }),
        Some(n) => {
            if s.len() < 10 {
                Err(fd(k, FieldId::SerialNumber))
            } else {
                match u32_field(field(s, 7, 10)) {
                    None => Err(fd(k, FieldId::SerialNumber)),
                    Some(serial_number) => {
                        if s.len() < 20 {
                            Err(fd(k, FieldId::Matrix))
                        } else {
                            match dec_field(field(s, 10, 20)) {
                                None => Err(fd(k, FieldId::Matrix)),
                                Some(m0) => {
                                    if s.len() < 30 {
                                        Err(fd(k, FieldId::Matrix))
                                    } else {
                                        match dec_field(field(s, 20, 30)) {
                                            None => Err(fd(k, FieldId::Matrix)),
                                            Some(m1) => mtrixn_spec_tail(
                                                s,
                                                n as u32,
                                                serial_number,
                                                m0,
                                                m1,
                                            ),
                                        }
                                    }
                                },
                            }
                        }
                    },
                }
            }
        },
    }
}

/// The last matrix element, translation and given-flag steps of
/// `mtrixn_spec`.
pub open spec fn mtrixn_spec_tail(
    s: Seq<u8>,
    n: u32,
    serial_number: u32,
    m0: Decimal,
    m1: Decimal,
) -> Result<MtrixnRecordV, DecodeError> {
    let k = RecordKind::Mtrix;
    if s.len() < 40 {
        Err(fd(k, FieldId::Matrix))
    } else {
        match dec_field(field(s, 30, 40)) {
            None => Err(fd(k, FieldId::Matrix)),
            Some(m2) => {
                if s.len() < 55 {
                    Err(fd(k, FieldId::Vn))
                } else {
                    match dec_field(field(s, 45, 55)) {
                        None => Err(fd(k, FieldId::Vn)),
                        Some(vn) => {
                            if s.len() < 60 {
                                Err(fd(k, FieldId::IGiven))
                            } else {
                                Ok(
                                    MtrixnRecordV {
                                        n,
                                        serial_number,
                                        matrix: seq![m0, m1, m2],
                                        vn,
                                        i_given: s[59] == 0x31,
                                    },
                                )
                            }
                        },
                    }
                }
            },
        }
    }
}

impl MtrixnRecord {
    /// Decode a rotation matrix line.
    pub fn decode(line: &[u8]) -> (r: Result<MtrixnRecord, DecodeError>)
        ensures
            ok_view(r) == mtrixn_spec(line@),
            r is Ok ==> 1 <= r->Ok_0.n <= 3,
    {
        let k = RecordKind::Mtrix;
        if line.len() < 6 {
            return Err(DecodeError::InvalidSubNumber { kind: k });
        }
        let sub = line[5];
        if !(sub == 0x31 || sub == 0x32 || sub == 0x33) {
            return Err(DecodeError::InvalidSubNumber { kind: k });
        }
        let n: u32 = (sub - 0x30) as u32;
        if line.len() < 10 {
            return Err(fd_exec(k, FieldId::SerialNumber));
        }
        let serial_number = match parse_u32_field(line, 7, 10) {
            Some(v) => v,
            None => {
                return Err(fd_exec(k, FieldId::SerialNumber));
            },
        };
        if line.len() < 20 {
            return Err(fd_exec(k, FieldId::Matrix));
        }
        let m0 = match parse_dec_field(line, 10, 20) {
            Some(v) => v,
            None => {
                return Err(fd_exec(k, FieldId::Matrix));
            },
        };
        if line.len() < 30 {
            return Err(fd_exec(k, FieldId::Matrix));
        }
        let m1 = match parse_dec_field(line, 20, 30) {
            Some(v) => v,
            None => {
                return Err(fd_exec(k, FieldId::Matrix));
            },
        };
        if line.len() < 40 {
            return Err(fd_exec(k, FieldId::Matrix));
        }
        let m2 = match parse_dec_field(line, 30, 40) {
            Some(v) => v,
            None => {
                return Err(fd_exec(k, FieldId::Matrix));
            },
        };
        if line.len() < 55 {
            return Err(fd_exec(k, FieldId::Vn));
        }
        let vn = match parse_dec_field(line, 45, 55) {
            Some(v) => v,
            None => {
                return Err(fd_exec(k, FieldId::Vn));
            },
        };
        if line.len() < 60 {
            return Err(fd_exec(k, FieldId::IGiven));
        }
        let i_given: bool = line[59] == 0x31;
        let r = MtrixnRecord { n, serial_number, matrix: [m0, m1, m2], vn, i_given };
        proof {
            assert(r.matrix@ =~= seq![m0, m1, m2]);
        }
        Ok(r)
    }

    /// Decode a rotation matrix line from text.
    pub fn from(line: &str) -> (r: Result<MtrixnRecord, DecodeError>)
        ensures
            ok_view(r) == mtrixn_spec(line.spec_bytes()),
    {
        MtrixnRecord::decode(line.as_bytes())
    }

    /// The canonical fixed-width line for this record: the tag with its row
    /// digit, the serial in three columns, the three matrix elements with six
    /// fraction digits each, the translation with five, and the given flag,
    /// padded to eighty bytes.
    #[verifier::rlimit(100)]
    pub fn to_line(&self) -> (r: Vec<u8>)
        requires
            self.matrix[0].wf(),
            self.matrix[1].wf(),
            self.matrix[2].wf(),
            self.vn.wf(),
        ensures
            r@ == mtrixn_line(self@),
    {
        let mut out: Vec<u8> = Vec::new();
        out.push(0x4d);
        out.push(0x54);
        out.push(0x52);
        out.push(0x49);
        out.push(0x58);
        let mut part = digits_u32(self.n);
        out.append(&mut part);
        out.push(0x20);
        let mut part = pad_left_vec(digits_u32(self.serial_number), 3);
        out.append(&mut part);
        let mut part = pad_left_vec(self.matrix[0].to_fixed(6), 10);
        out.append(&mut part);
        let mut part = pad_left_vec(self.matrix[1].to_fixed(6), 10);
        out.append(&mut part);
        let mut part = pad_left_vec(self.matrix[2].to_fixed(6), 10);
        out.append(&mut part);
        out.push(0x20);
        out.push(0x20);
        out.push(0x20);
        out.push(0x20);
        out.push(0x20);
        let mut part = pad_left_vec(self.vn.to_fixed(5), 10);
        out.append(&mut part);
        let flag: u32 = if self.i_given {
            1
        } else {
            0
        };
        let mut part = pad_left_vec(digits_u32(flag), 5);
        out.append(&mut part);
        proof {
            assert(out@ =~= seq![0x4du8, 0x54u8, 0x52u8, 0x49u8, 0x58u8] + dec_digits(
                self@.n as nat,
            ) + seq![0x20u8] + pad_left(dec_digits(self@.serial_number as nat), 3) + pad_left(
                self@.matrix[0].spec_fixed(6),
                10,
            ) + pad_left(self@.matrix[1].spec_fixed(6), 10) + pad_left(
                self@.matrix[2].spec_fixed(6),
                10,
            ) + spaces(5) + pad_left(self@.vn.spec_fixed(5), 10) + pad_left(
                dec_digits(
                    if self@.i_given {
                        1
                    } else {
                        0
                    },
                ),
                5,
            ));
        }
        pad_right_vec(out, 80)
    }
}

/// The canonical fixed-width rendering of a rotation matrix record.
pub open spec fn mtrixn_line(r: MtrixnRecordV) -> Seq<u8> {
    pad_right(
        seq![0x4du8, 0x54u8, 0x52u8, 0x49u8, 0x58u8] + dec_digits(r.n as nat) + seq![0x20u8]
            + pad_left(dec_digits(r.serial_number as nat), 3) + pad_left(
            r.matrix[0].spec_fixed(6),
            10,
        ) + pad_left(r.matrix[1].spec_fixed(6), 10) + pad_left(r.matrix[2].spec_fixed(6), 10)
            + spaces(5) + pad_left(r.vn.spec_fixed(5), 10) + pad_left(
            dec_digits(
                if r.i_given {
                    1
                } else {
                    0
                },
            ),
            5,
        ),
        80,
    )
}

/// A rotation matrix record under the row its tag names.
#[derive(Debug, Clone, PartialEq)]
pub enum MtrixN {
    /// First row.
    Mtrix1(MtrixnRecord),
    /// Second row.
    Mtrix2(MtrixnRecord),
    /// Third row.
    Mtrix3(MtrixnRecord),
}

/// Mathematical value of a `MtrixN`.
pub enum MtrixNV {
    Mtrix1(MtrixnRecordV),
    Mtrix2(MtrixnRecordV),
    Mtrix3(MtrixnRecordV),
}

impl View for MtrixN {
    type V = MtrixNV;

    open spec fn view(&self) -> MtrixNV {
        match self {
            MtrixN::Mtrix1(r) => MtrixNV::Mtrix1(r@),
            MtrixN::Mtrix2(r) => MtrixNV::Mtrix2(r@),
            MtrixN::Mtrix3(r) => MtrixNV::Mtrix3(r@),
        }
    }
}

/// The sub-tag the decoded row number selects.
pub open spec fn mtrixn_sel(r: MtrixnRecordV) -> MtrixNV {
    if r.n == 1 {
        MtrixNV::Mtrix1(r)
    } else if r.n == 2 {
        MtrixNV::Mtrix2(r)
    } else {
        MtrixNV::Mtrix3(r)
    }
}

/// What a rotation matrix line decodes to, under its sub-tag.
pub open spec fn mtrix_family_spec(s: Seq<u8>) -> Result<MtrixNV, DecodeError> {
    match mtrixn_spec(s) {
        Ok(r) => Ok(mtrixn_sel(r)),
        Err(e) => Err(e),
    }
}

impl MtrixN {
    /// Decode a rotation matrix line.
    pub fn decode(line: &[u8]) -> (r: Result<MtrixN, DecodeError>)
        ensures
            ok_view(r) == mtrix_family_spec(line@),
    {
        match MtrixnRecord::decode(line) {
            Ok(rec) => {
                if rec.n == 1 {
                    Ok(MtrixN::Mtrix1(rec))
                } else if rec.n == 2 {
                    Ok(MtrixN::Mtrix2(rec))
                } else {
                    Ok(MtrixN::Mtrix3(rec))
                }
            },
            Err(e) => Err(e),
        }
    }

    /// Decode a rotation matrix line from text.
    pub fn new(line: &str) -> (r: Result<MtrixN, DecodeError>)
        ensures
            ok_view(r) == mtrix_family_spec(line.spec_bytes()),
    {
        MtrixN::decode(line.as_bytes())
    }
}

} // verus!
