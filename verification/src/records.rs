//! Record kinds of the format, their decode errors, and the classifier that
//! routes a line to the codec its six-byte tag selects.

use vstd::prelude::*;
use vstd::string::StringSliceAdditionalSpecFns;

pub mod anisotropic;
pub mod atom;
pub mod connect;
pub mod crystal;
pub mod dbref;
pub mod het;
pub mod hetnam;
pub mod model;
pub mod modres;
pub mod mtrixn;
pub mod nummdl;
pub mod origxn;
pub mod scalen;
pub mod seqadv;
pub mod seqres;
pub mod term;

verus! {

/// One tag's worth of record, named without its payload.
#[derive(Debug, Clone, Copy, PartialEq, Eq, Structural)]
pub enum RecordKind {
    Anisou,
    Atom,
    Connect,
    Crystal,
    DBRef,
    Endmdl,
    Het,
    Hetatm,
    Hetnam,
    Model,
    Modres,
    Mtrix,
    Nummdl,
    Origx,
    Scale,
    Seqadv,
    Seqres,
    Term,
}

/// The field a decode failure names.
#[derive(Debug, Clone, Copy, PartialEq, Eq, Structural)]
pub enum FieldId {
    Serial,
    Name,
    AltLoc,
    ResName,
    ChainId,
    ResSeq,
    ICode,
    X,
    Y,
    Z,
    Occupancy,
    TempFactor,
    Entry,
    Element,
    Charge,
    U00,
    U11,
    U22,
    U01,
    U02,
    U12,
    CellA,
    CellB,
    CellC,
    Alpha,
    Beta,
    Gamma,
    SpaceGroup,
    ZValue,
    Connected,
    IdCode,
    SeqBegin,
    InsertBegin,
    SeqEnd,
    InsertEnd,
    Database,
    DbAccession,
    DbIdCode,
    DbSeqBegin,
    IDbnsBeg,
    DbSeqEnd,
    DbInsEnd,
    HetId,
    SeqNum,
    NumHetAtoms,
    Text,
    StdResName,
    Comment,
    SerialNumber,
    Matrix,
    Vn,
    IGiven,
    Tn,
    Un,
    SerNum,
    NumRes,
    ResNames,
    DbRes,
    DbSeq,
    Conflict,
    Count,
}

/// Why a line decoded to no record.  The first two are recoverable by
/// construction; the rest carry the kind whose codec gave up, and the driver
/// drops the line either way.
#[derive(Debug, Clone, Copy, PartialEq, Eq, Structural)]
pub enum DecodeError {
    /// The line ends before its six-byte tag is complete.
    LineTooShort,
    /// The six-byte tag matches no record kind.
    UnrecognizedKind,
    /// A mandatory field's columns run past the end of the line, or the
    /// field's bytes do not coerce to the field's type.
    FieldDecode { kind: RecordKind, field: FieldId },
    /// The sub-number digit of a matrix-family tag is not 1, 2 or 3.
    InvalidSubNumber { kind: RecordKind },
    /// An enumerated field's token matches no vocabulary entry.
    InvalidEnumValue { kind: RecordKind, field: FieldId },
}

/// Shorthand for a field decode failure.
pub open spec fn fd(kind: RecordKind, field: FieldId) -> DecodeError {
    DecodeError::FieldDecode { kind, field }
}

/// Build a field decode failure.
pub(crate) fn fd_exec(kind: RecordKind, field_id: FieldId) -> (r: DecodeError)
    ensures
        r == fd(kind, field_id),
{
    DecodeError::FieldDecode { kind, field: field_id }
}

/// The sub-number of a matrix-family tag: the digit at its fixed offset,
/// which must be 1, 2 or 3.
pub open spec fn sub_number(s: Seq<u8>) -> Option<u8> {
    if s.len() < 6 {
        None
    } else if s[5] == 0x31 || s[5] == 0x32 || s[5] == 0x33 {
        Some((s[5] - 0x30) as u8)
    } else {
        None
    }
}

/// A decode result with its record taken to the record's view.
pub open spec fn ok_view<T: View>(r: Result<T, DecodeError>) -> Result<T::V, DecodeError> {
    match r {
        Ok(v) => Ok(v@),
        Err(e) => Err(e),
    }
}

/// One decoded line, under its kind.
#[derive(Debug, Clone, PartialEq)]
pub enum Record {
    /// Anisotropic temperature factor record.
    Anisou(anisotropic::AnisotropicRecord),
    /// Standard atom coordinate record.
    Atom(atom::AtomRecord),
    /// Connectivity record.
    Connect(connect::ConnectRecord),
    /// Crystallographic unit cell record.
    Crystal(crystal::CrystalRecord),
    /// Database reference record.
    DBRef(dbref::DBRefRecord),
    /// Hetero-compound record.
    Het(het::HetRecord),
    /// Hetero-atom coordinate record, same shape as `Atom`.
    Hetatm(atom::AtomRecord),
    /// Hetero-compound name record.
    Hetnam(hetnam::HetnamRecord),
    /// Model count record.
    Nummdl(nummdl::NummdlRecord),
    /// Rotation matrix record, one of three rows.
    MtrixN(mtrixn::MtrixN),
    /// Model start record.
    Model(model::ModelRecord),
    /// Modified residue record.
    Modres(modres::ModresRecord),
    /// Coordinate transform record, one of three rows.
    OrigxN(origxn::OrigxN),
    /// Scale matrix record, one of three rows.
    ScaleN(scalen::ScaleN),
    /// Residue sequence record.
    Seqres(seqres::SeqresRecord),
    /// Sequence difference record.
    Seqadv(seqadv::SeqAdvRecord),
    /// Chain terminator record.
    Term(term::TermRecord),
    /// End-of-model marker, which carries no fields.
    Endmdl(),
}

/// Mathematical value of a `Record`.
pub enum RecordV {
    Anisou(anisotropic::AnisotropicRecordV),
    Atom(atom::AtomRecordV),
    Connect(connect::ConnectRecordV),
    Crystal(crystal::CrystalRecordV),
    DBRef(dbref::DBRefRecordV),
    Het(het::HetRecordV),
    Hetatm(atom::AtomRecordV),
    Hetnam(hetnam::HetnamRecordV),
    Nummdl(nummdl::NummdlRecordV),
    MtrixN(mtrixn::MtrixNV),
    Model(model::ModelRecordV),
    Modres(modres::ModresRecordV),
    OrigxN(origxn::OrigxNV),
    ScaleN(scalen::ScaleNV),
    Seqres(seqres::SeqresRecordV),
    Seqadv(seqadv::SeqAdvRecordV),
    Term(term::TermRecordV),
    Endmdl(),
}

impl View for Record {
    type V = RecordV;

    open spec fn view(&self) -> RecordV {
        match self {
            Record::Anisou(r) => RecordV::Anisou(r@),
            Record::Atom(r) => RecordV::Atom(r@),
            Record::Connect(r) => RecordV::Connect(r@),
            Record::Crystal(r) => RecordV::Crystal(r@),
            Record::DBRef(r) => RecordV::DBRef(r@),
            Record::Het(r) => RecordV::Het(r@),
            Record::Hetatm(r) => RecordV::Hetatm(r@),
            Record::Hetnam(r) => RecordV::Hetnam(r@),
            Record::Nummdl(r) => RecordV::Nummdl(r@),
            Record::MtrixN(r) => RecordV::MtrixN(r@),
            Record::Model(r) => RecordV::Model(r@),
            Record::Modres(r) => RecordV::Modres(r@),
            Record::OrigxN(r) => RecordV::OrigxN(r@),
            Record::ScaleN(r) => RecordV::ScaleN(r@),
            Record::Seqres(r) => RecordV::Seqres(r@),
            Record::Seqadv(r) => RecordV::Seqadv(r@),
            Record::Term(r) => RecordV::Term(r@),
            Record::Endmdl() => RecordV::Endmdl(),
        }
    }
}

/// Whether the first six bytes of a line, which must exist, spell the given
/// tag.
pub open spec fn is_tag(s: Seq<u8>, t0: u8, t1: u8, t2: u8, t3: u8, t4: u8, t5: u8) -> bool {
    s[0] == t0 && s[1] == t1 && s[2] == t2 && s[3] == t3 && s[4] == t4 && s[5] == t5
}

/// What the classifier selects for a line before any codec runs: too short,
/// unrecognized, or one record kind.  The selection depends only on the
/// line's length being at least six and on its first six bytes.
pub open spec fn codec_sel(s: Seq<u8>) -> Option<RecordKind> {
    if is_tag(s, 0x41, 0x4e, 0x49, 0x53, 0x4f, 0x55) {
        Some(RecordKind::Anisou)  // ANISOU
    } else if is_tag(s, 0x41, 0x54, 0x4f, 0x4d, 0x20, 0x20) {
        Some(RecordKind::Atom)  // ATOM
    } else if is_tag(s, 0x43, 0x4f, 0x4e, 0x45, 0x43, 0x54) {
        Some(RecordKind::Connect)  // CONECT
    } else if is_tag(s, 0x43, 0x52, 0x59, 0x53, 0x54, 0x31) {
        Some(RecordKind::Crystal)  // CRYST1
    } else if is_tag(s, 0x44, 0x42, 0x52, 0x45, 0x46, 0x20) {
        Some(RecordKind::DBRef)  // DBREF
    } else if is_tag(s, 0x45, 0x4e, 0x44, 0x4d, 0x44, 0x4c) {
        Some(RecordKind::Endmdl)  // ENDMDL
    } else if is_tag(s, 0x48, 0x45, 0x54, 0x41, 0x54, 0x4d) {
        Some(RecordKind::Hetatm)  // HETATM
    } else if is_tag(s, 0x48, 0x45, 0x54, 0x20, 0x20, 0x20) {
        Some(RecordKind::Het)  // HET
    } else if is_tag(s, 0x48, 0x45, 0x54, 0x4e, 0x41, 0x4d) {
        Some(RecordKind::Hetnam)  // HETNAM
    } else if s[0] == 0x4d && s[1] == 0x54 && s[2] == 0x52 && s[3] == 0x49 && s[4] == 0x58 && (s[5]
        == 0x31 || s[5] == 0x32 || s[5] == 0x33) {
        Some(RecordKind::Mtrix)  // MTRIX1 | MTRIX2 | MTRIX3
    } else if is_tag(s, 0x4d, 0x4f, 0x44, 0x45, 0x4c, 0x20) {
        Some(RecordKind::Model)  // MODEL
    } else if is_tag(s, 0x4d, 0x4f, 0x44, 0x52, 0x45, 0x53) {
        Some(RecordKind::Modres)  // MODRES
    } else if is_tag(s, 0x4e, 0x55, 0x4d, 0x4d, 0x44, 0x4c) {
        Some(RecordKind::Nummdl)  // NUMMDL
    } else if s[0] == 0x4f && s[1] == 0x52 && s[2] == 0x49 && s[3] == 0x47 && s[4] == 0x58 && (s[5]
        == 0x31 || s[5] == 0x32 || s[5] == 0x33) {
        Some(RecordKind::Origx)  // ORIGX1 | ORIGX2 | ORIGX3
    } else if s[0] == 0x53 && s[1] == 0x43 && s[2] == 0x41 && s[3] == 0x4c && s[4] == 0x45 && (s[5]
        == 0x31 || s[5] == 0x32 || s[5] == 0x33) {
        Some(RecordKind::Scale)  // SCALE1 | SCALE2 | SCALE3
    } else if is_tag(s, 0x53, 0x45, 0x51, 0x41, 0x44, 0x56) {
        Some(RecordKind::Seqadv)  // SEQADV
    } else if is_tag(s, 0x53, 0x45, 0x51, 0x52, 0x45, 0x53) {
        Some(RecordKind::Seqres)  // SEQRES
    } else if is_tag(s, 0x54, 0x45, 0x52, 0x20, 0x20, 0x20) {
        Some(RecordKind::Term)  // TER
    } else {
        None
    }
}

/// What the selected codec makes of the line.
pub open spec fn run_codec(k: RecordKind, s: Seq<u8>) -> Result<RecordV, DecodeError> {
    match k {
        RecordKind::Anisou => match anisotropic::anisou_spec(s) {
            Ok(r) => Ok(RecordV::Anisou(r)),
            Err(e) => Err(e),
        },
        RecordKind::Atom => match atom::atom_spec(s, RecordKind::Atom) {
            Ok(r) => Ok(RecordV::Atom(r)),
            Err(e) => Err(e),
        },
        RecordKind::Connect => match connect::connect_spec(s) {
            Ok(r) => Ok(RecordV::Connect(r)),
            Err(e) => Err(e),
        },
        RecordKind::Crystal => match crystal::crystal_spec(s) {
            Ok(r) => Ok(RecordV::Crystal(r)),
            Err(e) => Err(e),
        },
        RecordKind::DBRef => match dbref::dbref_spec(s) {
            Ok(r) => Ok(RecordV::DBRef(r)),
            Err(e) => Err(e),
        },
        RecordKind::Endmdl => Ok(RecordV::Endmdl()),
        RecordKind::Het => match het::het_spec(s) {
            Ok(r) => Ok(RecordV::Het(r)),
            Err(e) => Err(e),
        },
        RecordKind::Hetatm => match atom::atom_spec(s, RecordKind::Hetatm) {
            Ok(r) => Ok(RecordV::Hetatm(r)),
            Err(e) => Err(e),
        },
        RecordKind::Hetnam => match hetnam::hetnam_spec(s) {
            Ok(r) => Ok(RecordV::Hetnam(r)),
            Err(e) => Err(e),
        },
        RecordKind::Model => match model::model_spec(s) {
            Ok(r) => Ok(RecordV::Model(r)),
            Err(e) => Err(e),
        },
        RecordKind::Modres => match modres::modres_spec(s) {
            Ok(r) => Ok(RecordV::Modres(r)),
            Err(e) => Err(e),
        },
        RecordKind::Mtrix => match mtrixn::mtrix_family_spec(s) {
            Ok(r) => Ok(RecordV::MtrixN(r)),
            Err(e) => Err(e),
        },
        RecordKind::Nummdl => match nummdl::nummdl_spec(s) {
            Ok(r) => Ok(RecordV::Nummdl(r)),
            Err(e) => Err(e),
        },
        RecordKind::Origx => match origxn::origx_family_spec(s) {
            Ok(r) => Ok(RecordV::OrigxN(r)),
            Err(e) => Err(e),
        },
        RecordKind::Scale => match scalen::scale_family_spec(s) {
            Ok(r) => Ok(RecordV::ScaleN(r)),
            Err(e) => Err(e),
        },
        RecordKind::Seqadv => match seqadv::seqadv_spec(s) {
            Ok(r) => Ok(RecordV::Seqadv(r)),
            Err(e) => Err(e),
        },
        RecordKind::Seqres => match seqres::seqres_spec(s) {
            Ok(r) => Ok(RecordV::Seqres(r)),
            Err(e) => Err(e),
        },
        RecordKind::Term => match term::term_spec(s) {
            Ok(r) => Ok(RecordV::Term(r)),
            Err(e) => Err(e),
        },
    }
}

/// What one line decodes to: a length check, then the tag selects the codec,
/// then the codec runs on the whole line.
pub open spec fn classify_spec(s: Seq<u8>) -> Result<RecordV, DecodeError> {
    if s.len() < 6 {
        Err(DecodeError::LineTooShort)
    } else {
        match codec_sel(s) {
            None => Err(DecodeError::UnrecognizedKind),
            Some(k) => run_codec(k, s),
        }
    }
}

/// Compare the first six bytes of a line, which must exist, with a tag.
fn tag_eq(line: &[u8], t0: u8, t1: u8, t2: u8, t3: u8, t4: u8, t5: u8) -> (r: bool)
    requires
        line@.len() >= 6,
    ensures
        r == is_tag(line@, t0, t1, t2, t3, t4, t5),
{
    line[0] == t0 && line[1] == t1 && line[2] == t2 && line[3] == t3 && line[4] == t4 && line[5]
        == t5
}

impl Record {
    /// Decode one line: classify it by its six-byte tag and run the codec
    /// the tag selects.
    #[verifier::rlimit(100)]
    pub fn decode(line: &[u8]) -> (r: Result<Record, DecodeError>)
        ensures
            ok_view(r) == classify_spec(line@),
    {
        if line.len() < 6 {
            return Err(DecodeError::LineTooShort);
        }
        if tag_eq(line, 0x41, 0x4e, 0x49, 0x53, 0x4f, 0x55) {
            match anisotropic::AnisotropicRecord::decode(line) {
                Ok(r) => Ok(Record::Anisou(r)),
                Err(e) => Err(e),
            }
        } else if tag_eq(line, 0x41, 0x54, 0x4f, 0x4d, 0x20, 0x20) {
            match atom::AtomRecord::decode(line, RecordKind::Atom) {
                Ok(r) => Ok(Record::Atom(r)),
                Err(e) => Err(e),
            }
        } else if tag_eq(line, 0x43, 0x4f, 0x4e, 0x45, 0x43, 0x54) {
            match connect::ConnectRecord::decode(line) {
                Ok(r) => Ok(Record::Connect(r)),
                Err(e) => Err(e),
            }
        } else if tag_eq(line, 0x43, 0x52, 0x59, 0x53, 0x54, 0x31) {
            match crystal::CrystalRecord::decode(line) {
                Ok(r) => Ok(Record::Crystal(r)),
                Err(e) => Err(e),
            }
        } else if tag_eq(line, 0x44, 0x42, 0x52, 0x45, 0x46, 0x20) {
            match dbref::DBRefRecord::decode(line) {
                Ok(r) => Ok(Record::DBRef(r)),
                Err(e) => Err(e),
            }
        } else if tag_eq(line, 0x45, 0x4e, 0x44, 0x4d, 0x44, 0x4c) {
            Ok(Record::Endmdl())
        } else if tag_eq(line, 0x48, 0x45, 0x54, 0x41, 0x54, 0x4d) {
            match atom::AtomRecord::decode(line, RecordKind::Hetatm) {
                Ok(r) => Ok(Record::Hetatm(r)),
                Err(e) => Err(e),
            }
        } else if tag_eq(line, 0x48, 0x45, 0x54, 0x20, 0x20, 0x20) {
            match het::HetRecord::decode(line) {
                Ok(r) => Ok(Record::Het(r)),
                Err(e) => Err(e),
            }
        } else if tag_eq(line, 0x48, 0x45, 0x54, 0x4e, 0x41, 0x4d) {
            match hetnam::HetnamRecord::decode(line) {
                Ok(r) => Ok(Record::Hetnam(r)),
                Err(e) => Err(e),
            }
        } else if line[0] == 0x4d && line[1] == 0x54 && line[2] == 0x52 && line[3] == 0x49
            && line[4] == 0x58 && (line[5] == 0x31 || line[5] == 0x32 || line[5] == 0x33) {
            match mtrixn::MtrixN::decode(line) {
                Ok(r) => Ok(Record::MtrixN(r)),
                Err(e) => Err(e),
            }
        } else if tag_eq(line, 0x4d, 0x4f, 0x44, 0x45, 0x4c, 0x20) {
            match model::ModelRecord::decode(line) {
                Ok(r) => Ok(Record::Model(r)),
                Err(e) => Err(e),
            }
        } else if tag_eq(line, 0x4d, 0x4f, 0x44, 0x52, 0x45, 0x53) {
            match modres::ModresRecord::decode(line) {
                Ok(r) => Ok(Record::Modres(r)),
                Err(e) => Err(e),
            }
        } else if tag_eq(line, 0x4e, 0x55, 0x4d, 0x4d, 0x44, 0x4c) {
            match nummdl::NummdlRecord::decode(line) {
                Ok(r) => Ok(Record::Nummdl(r)),
                Err(e) => Err(e),
            }
        } else if line[0] == 0x4f && line[1] == 0x52 && line[2] == 0x49 && line[3] == 0x47
            && line[4] == 0x58 && (line[5] == 0x31 || line[5] == 0x32 || line[5] == 0x33) {
            match origxn::OrigxN::decode(line) {
                Ok(r) => Ok(Record::OrigxN(r)),
                Err(e) => Err(e),
            }
        } else if line[0] == 0x53 && line[1] == 0x43 && line[2] == 0x41 && line[3] == 0x4c
            && line[4] == 0x45 && (line[5] == 0x31 || line[5] == 0x32 || line[5] == 0x33) {
            match scalen::ScaleN::decode(line) {
                Ok(r) => Ok(Record::ScaleN(r)),
                Err(e) => Err(e),
            }
        } else if tag_eq(line, 0x53, 0x45, 0x51, 0x41, 0x44, 0x56) {
            match seqadv::SeqAdvRecord::decode(line) {
                Ok(r) => Ok(Record::Seqadv(r)),
                Err(e) => Err(e),
            }
        } else if tag_eq(line, 0x53, 0x45, 0x51, 0x52, 0x45, 0x53) {
            match seqres::SeqresRecord::decode(line) {
                Ok(r) => Ok(Record::Seqres(r)),
                Err(e) => Err(e),
            }
        } else if tag_eq(line, 0x54, 0x45, 0x52, 0x20, 0x20, 0x20) {
            match term::TermRecord::decode(line) {
                Ok(r) => Ok(Record::Term(r)),
                Err(e) => Err(e),
            }
        } else {
            Err(DecodeError::UnrecognizedKind)
        }
    }

    /// Decode one line of text into the record its tag selects.
    pub fn try_from(line: &str) -> (r: Result<Record, DecodeError>)
        ensures
            ok_view(r) == classify_spec(line.spec_bytes()),
    {
        Record::decode(line.as_bytes())
    }
}

} // verus!
