//! Coordinate transform records: the original coordinate frame, a family of
//! three tags carrying one row each.

use vstd::prelude::*;
use crate::decimal::{dec_field, parse_dec_field, Decimal};
use crate::field::field;
use crate::render::{dec_digits, digits_u32, pad_left, pad_left_vec, pad_right, pad_right_vec};
use crate::records::{fd, fd_exec, ok_view, sub_number, DecodeError, FieldId, RecordKind};
use vstd::string::StringSliceAdditionalSpecFns;

verus! {

/// One coordinate transform row record.
#[derive(Debug, Clone, PartialEq)]
pub struct OrigxnRecord {
    /// Which row the tag names: 1, 2 or 3.
    pub n: u16,
    /// The three matrix elements of this row.
    pub origxn: [Decimal; 3],
    /// The translation component of this row.
    pub tn: Decimal,
}

/// Mathematical value of an `OrigxnRecord`.
pub struct OrigxnRecordV {
    pub n: u16,
    pub origxn: Seq<Decimal>,
    pub tn: Decimal,
}

impl View for OrigxnRecord {
    type V = OrigxnRecordV;

    open spec fn view(&self) -> OrigxnRecordV {
        OrigxnRecordV { n: self.n, origxn: self.origxn@, tn: self.tn }
    }
}

/// What a coordinate transform line decodes to: the sub-number digit picks
/// the row, and the three matrix elements and the translation must coerce.
pub open spec fn origxn_spec(s: Seq<u8>) -> Result<OrigxnRecordV, DecodeError> {
    let k = RecordKind::Origx;
    match sub_number(s) {
        None => Err(DecodeError::InvalidSubNumber { kind: k }),
        Some(n) => {
            if s.len() < 20 {
                Err(fd(k, FieldId::Matrix))
            } else {
                match dec_field(field(s, 10, 20)) {
                    None => Err(fd(k, FieldId::Matrix)),
                    Some(m0) => {
                        if s.len() < 30 {
                            Err(fd(k, FieldId::Matrix))
                        } else {
                            match dec_field(field(s, 20, 30)) {
                                None => Err(fd(k, FieldId::Matrix)),
                                Some(m1) => {
                                    if s.len() < 40 {
                                        Err(fd(k, FieldId::Matrix))
                                    } else {
                                        match dec_field(field(s, 30, 40)) {
                                            None => Err(fd(k, FieldId::Matrix)),
                                            Some(m2) => {
                                                if s.len() < 55 {
                                                    Err(fd(k, FieldId::Tn))
                                                } else {
                                                    match dec_field(field(s, 45, 55)) {
                                                        None => Err(fd(k, FieldId::Tn)),
                                                        Some(tn) => Ok(
                                                            OrigxnRecordV {
                                                                n: n as u16,
                                                                origxn: seq![m0, m1, m2],
                                                                tn,
                                                            },
                                                        ),
                                                    }
                                                }
                                            },
                                        }
                                    }
                                },
                            }
                        }
                    },
                }
            }
        },
    }
}

impl OrigxnRecord {
    /// Decode a coordinate transform line.
    pub fn decode(line: &[u8]) -> (r: Result<OrigxnRecord, DecodeError>)
        ensures
            ok_view(r) == origxn_spec(line@),
            r is Ok ==> 1 <= r->Ok_0.n <= 3,
    {
        let k = RecordKind::Origx;
        if line.len() < 6 {
            return Err(DecodeError::InvalidSubNumber { kind: k });
        }
        let sub = line[5];
        if !(sub == 0x31 || sub == 0x32 || sub == 0x33) {
            return Err(DecodeError::InvalidSubNumber { kind: k });
        }
        let n: u16 = (sub - 0x30) as u16;
        if line.len() < 20 {
            return Err(fd_exec(k, FieldId::Matrix));
        }
        let m0 = match parse_dec_field(line, 10, 20) {
            Some(v) => v,
            None => {
                return Err(fd_exec(k, FieldId::Matrix));
            },
        };
        if line.len() < 30 {
            return Err(fd_exec(k, FieldId::Matrix));
        }
        let m1 = match parse_dec_field(line, 20, 30) {
            Some(v) => v,
            None => {
                return Err(fd_exec(k, FieldId::Matrix));
            },
        };
        if line.len() < 40 {
            return Err(fd_exec(k, FieldId::Matrix));
        }
        let m2 = match parse_dec_field(line, 30, 40) {
            Some(v) => v,
            None => {
                return Err(fd_exec(k, FieldId::Matrix));
            },
        };
        if line.len() < 55 {
            return Err(fd_exec(k, FieldId::Tn));
        }
        let tn = match parse_dec_field(line, 45, 55) {
            Some(v) => v,
            None => {
                return Err(fd_exec(k, FieldId::Tn));
            },
        };
        let r = OrigxnRecord { n, origxn: [m0, m1, m2], tn };
        proof {
            assert(r.origxn@ =~= seq![m0, m1, m2]);
        }
        Ok(r)
    }

    /// Decode a coordinate transform line from text.
    pub fn new(line: &str) -> (r: Result<OrigxnRecord, DecodeError>)
        ensures
            ok_view(r) == origxn_spec(line.spec_bytes()),
    {
        OrigxnRecord::decode(line.as_bytes())
    }

    /// The canonical fixed-width line for this record: the tag with its row
    /// digit, the three matrix elements with six fraction digits each, and
    /// the translation with five, padded to eighty bytes.
    #[verifier::rlimit(100)]
    pub fn to_line(&self) -> (r: Vec<u8>)
        requires
            self.origxn[0].wf(),
            self.origxn[1].wf(),
            self.origxn[2].wf(),
            self.tn.wf(),
        ensures
            r@ == origxn_line(self@),
    {
        let mut out: Vec<u8> = Vec::new();
        out.push(0x4f);
        out.push(0x52);
        out.push(0x49);
        out.push(0x47);
        out.push(0x58);
        let mut part = digits_u32(self.n as u32);
        out.append(&mut part);
        out.push(0x20);
        out.push(0x20);
        out.push(0x20);
        out.push(0x20);
        let mut part = pad_left_vec(self.origxn[0].to_fixed(6), 10);
        out.append(&mut part);
        let mut part = pad_left_vec(self.origxn[1].to_fixed(6), 10);
        out.append(&mut part);
        let mut part = pad_left_vec(self.origxn[2].to_fixed(6), 10);
        out.append(&mut part);
        out.push(0x20);
        out.push(0x20);
        out.push(0x20);
        out.push(0x20);
        out.push(0x20);
        let mut part = pad_left_vec(self.tn.to_fixed(5), 10);
        out.append(&mut part);
        proof {
            assert(out@ =~= seq![0x4fu8, 0x52u8, 0x49u8, 0x47u8, 0x58u8] + dec_digits(
                self@.n as nat,
            ) + seq![0x20u8, 0x20u8, 0x20u8, 0x20u8] + pad_left(self@.origxn[0].spec_fixed(6), 10)
                + pad_left(self@.origxn[1].spec_fixed(6), 10) + pad_left(
                self@.origxn[2].spec_fixed(6),
                10,
            ) + seq![0x20u8, 0x20u8, 0x20u8, 0x20u8, 0x20u8] + pad_left(
                self@.tn.spec_fixed(5),
                10,
            ));
        }
        pad_right_vec(out, 80)
    }
}

/// The canonical fixed-width rendering of a coordinate transform record.
pub open spec fn origxn_line(r: OrigxnRecordV) -> Seq<u8> {
    pad_right(
        seq![0x4fu8, 0x52u8, 0x49u8, 0x47u8, 0x58u8] + dec_digits(r.n as nat) + seq![
            0x20u8,
            0x20u8,
            0x20u8,
            0x20u8,
        ] + pad_left(r.origxn[0].spec_fixed(6), 10) + pad_left(r.origxn[1].spec_fixed(6), 10)
            + pad_left(r.origxn[2].spec_fixed(6), 10) + seq![
            0x20u8,
            0x20u8,
            0x20u8,
            0x20u8,
            0x20u8,
        ] + pad_left(r.tn.spec_fixed(5), 10),
        80,
    )
}

/// A coordinate transform record under the row its tag names.
#[derive(Debug, Clone, PartialEq)]
pub enum OrigxN {
    /// First row.
    Origx1(OrigxnRecord),
    /// Second row.
    Origx2(OrigxnRecord),
    /// Third row.
    Origx3(OrigxnRecord),
}

/// Mathematical value of an `OrigxN`.
pub enum OrigxNV {
    Origx1(OrigxnRecordV),
    Origx2(OrigxnRecordV),
    Origx3(OrigxnRecordV),
}

impl View for OrigxN {
    type V = OrigxNV;

    open spec fn view(&self) -> OrigxNV {
        match self {
            OrigxN::Origx1(r) => OrigxNV::Origx1(r@),
            OrigxN::Origx2(r) => OrigxNV::Origx2(r@),
            OrigxN::Origx3(r) => OrigxNV::Origx3(r@),
        }
    }
}

/// The sub-tag the decoded row number selects.
pub open spec fn origxn_sel(r: OrigxnRecordV) -> OrigxNV {
    if r.n == 1 {
        OrigxNV::Origx1(r)
    } else if r.n == 2 {
        OrigxNV::Origx2(r)
    } else {
        OrigxNV::Origx3(r)
    }
}

/// What a coordinate transform line decodes to, under its sub-tag.
pub open spec fn origx_family_spec(s: Seq<u8>) -> Result<OrigxNV, DecodeError> {
    match origxn_spec(s) {
        Ok(r) => Ok(origxn_sel(r)),
        Err(e) => Err(e),
    }
}

impl OrigxN {
    /// Decode a coordinate transform line.
    pub fn decode(line: &[u8]) -> (r: Result<OrigxN, DecodeError>)
        ensures
            ok_view(r) == origx_family_spec(line@),
    {
        match OrigxnRecord::decode(line) {
            Ok(rec) => {
                if rec.n == 1 {
                    Ok(OrigxN::Origx1(rec))
                } else if rec.n == 2 {
                    Ok(OrigxN::Origx2(rec))
                } else {
                    Ok(OrigxN::Origx3(rec))
                }
            },
            Err(e) => Err(e),
        }
    }

    /// Decode a coordinate transform line from text.
    pub fn new(line: &str) -> (r: Result<OrigxN, DecodeError>)
        ensures
            ok_view(r) == origx_family_spec(line.spec_bytes()),
    {
        OrigxN::decode(line.as_bytes())
    }
}

} // verus!
