//! Database reference records, with the source-database vocabulary.

use vstd::prelude::*;
use crate::field::{char_at, field, one_char, parse_char_at, parse_char_field, parse_u32_field,
    trim, trimmed_bytes, trim_range, u32_field};
use crate::records::{fd, fd_exec, ok_view, DecodeError, FieldId, RecordKind};
use vstd::string::StringSliceAdditionalSpecFns;

verus! {

/// The source databases a reference may name.
#[derive(Debug, Clone, Copy, PartialEq, Eq, Structural)]
pub enum DBType {
    /// GenBank.
    GB,
    /// Norine, also written with the alias token `NOR`.
    NORINE,
    /// The archive itself.
    PDB,
    /// UniProt.
    UNP,
}

impl View for DBType {
    type V = DBType;

    open spec fn view(&self) -> DBType {
        *self
    }
}

/// The database a trimmed enumerated token names, if any.
pub open spec fn dbtype_of(t: Seq<u8>) -> Option<DBType> {
    if t =~= seq![0x47u8, 0x42u8] {
        Some(DBType::GB)
    } else if t =~= seq![0x4eu8, 0x4fu8, 0x52u8, 0x49u8, 0x4eu8, 0x45u8] {
        Some(DBType::NORINE)
    } else if t =~= seq![0x4eu8, 0x4fu8, 0x52u8] {
        Some(DBType::NORINE)
    } else if t =~= seq![0x50u8, 0x44u8, 0x42u8] {
        Some(DBType::PDB)
    } else if t =~= seq![0x55u8, 0x4eu8, 0x50u8] {
        Some(DBType::UNP)
    } else {
        None
    }
}

/// Match the trimmed bytes of `[lo, hi)` against the database vocabulary.
pub fn dbtype_field(line: &[u8], lo: usize, hi: usize) -> (r: Option<DBType>)
    requires
        lo <= hi <= line@.len(),
    ensures
        r == dbtype_of(field(line@, lo as int, hi as int)),
{
    let (a, b) = trim_range(line, lo, hi);
    let ghost t = field(line@, lo as int, hi as int);
    let n = b - a;
    if n == 2 && line[a] == 0x47 && line[a + 1] == 0x42 {
        proof {
            assert(t =~= seq![0x47u8, 0x42u8]);
        }
        Some(DBType::GB)
    } else if n == 6 && line[a] == 0x4e && line[a + 1] == 0x4f && line[a + 2] == 0x52 && line[a + 3]
        == 0x49 && line[a + 4] == 0x4e && line[a + 5] == 0x45 {
        proof {
            assert(t =~= seq![0x4eu8, 0x4fu8, 0x52u8, 0x49u8, 0x4eu8, 0x45u8]);
        }
        Some(DBType::NORINE)
    } else if n == 3 && line[a] == 0x4e && line[a + 1] == 0x4f && line[a + 2] == 0x52 {
        proof {
            assert(t =~= seq![0x4eu8, 0x4fu8, 0x52u8]);
        }
        Some(DBType::NORINE)
    } else if n == 3 && line[a] == 0x50 && line[a + 1] == 0x44 && line[a + 2] == 0x42 {
        proof {
            assert(t =~= seq![0x50u8, 0x44u8, 0x42u8]);
        }
        Some(DBType::PDB)
    } else if n == 3 && line[a] == 0x55 && line[a + 1] == 0x4e && line[a + 2] == 0x50 {
        proof {
            assert(t =~= seq![0x55u8, 0x4eu8, 0x50u8]);
        }
        Some(DBType::UNP)
    } else {
        proof {
            assert(dbtype_of(t) is None) by {
                if t =~= seq![0x47u8, 0x42u8] {
                } else if t =~= seq![0x4eu8, 0x4fu8, 0x52u8, 0x49u8, 0x4eu8, 0x45u8] {
                } else if t =~= seq![0x4eu8, 0x4fu8, 0x52u8] {
                } else if t =~= seq![0x50u8, 0x44u8, 0x42u8] {
                } else if t =~= seq![0x55u8, 0x4eu8, 0x50u8] {
                }
            }
        }
        None
    }
}

impl DBType {
    /// Match a database token, trimmed, against the fixed vocabulary.
    pub fn new(s: &str) -> (r: Option<DBType>)
        ensures
            r == dbtype_of(trim(s.spec_bytes())),
    {
        let b = s.as_bytes();
        proof {
            assert(b@.subrange(0, b@.len() as int) =~= b@);
        }
        dbtype_field(b, 0, b.len())
    }
}

/// One database reference record.
#[derive(Debug, Clone, PartialEq)]
pub struct DBRefRecord {
    /// Entry identifier.
    pub id_code: Vec<u8>,
    /// Chain identifier.
    pub chain_id: char,
    /// First residue of the referenced span.
    pub seq_begin: u32,
    /// Insertion code of the first residue.
    pub insert_begin: Option<char>,
    /// Last residue of the referenced span.
    pub seq_end: u32,
    /// Insertion code of the last residue.
    pub insert_end: Option<char>,
    /// Source database.
    pub database: DBType,
    /// Accession code in the source database.
    pub db_accession: Vec<u8>,
    /// Identifier in the source database.
    pub db_id_code: Vec<u8>,
    /// First residue of the database span.
    pub db_seq_begin: u32,
    /// Database insertion code of the first residue; present only for
    /// references into the archive itself.
    pub i_dbns_beg: Option<char>,
    /// Last residue of the database span.
    pub db_seq_end: u32,
    /// Database insertion code of the last residue; present only for
    /// references into the archive itself.
    pub db_ins_end: Option<char>,
}

/// Mathematical value of a `DBRefRecord`.
pub struct DBRefRecordV {
    pub id_code: Seq<u8>,
    pub chain_id: char,
    pub seq_begin: u32,
    pub insert_begin: Option<char>,
    pub seq_end: u32,
    pub insert_end: Option<char>,
    pub database: DBType,
    pub db_accession: Seq<u8>,
    pub db_id_code: Seq<u8>,
    pub db_seq_begin: u32,
    pub i_dbns_beg: Option<char>,
    pub db_seq_end: u32,
    pub db_ins_end: Option<char>,
}

impl View for DBRefRecord {
    type V = DBRefRecordV;

    open spec fn view(&self) -> DBRefRecordV {
        DBRefRecordV {
            id_code: self.id_code@,
            chain_id: self.chain_id,
            seq_begin: self.seq_begin,
            insert_begin: self.insert_begin,
            seq_end: self.seq_end,
            insert_end: self.insert_end,
            database: self.database,
            db_accession: self.db_accession@,
            db_id_code: self.db_id_code@,
            db_seq_begin: self.db_seq_begin,
            i_dbns_beg: self.i_dbns_beg,
            db_seq_end: self.db_seq_end,
            db_ins_end: self.db_ins_end,
        }
    }
}

/// What a database reference line decodes to.  The database token is matched
/// first; when it names the archive itself the record carries two extra
/// single-character columns that are otherwise absent.
pub open spec fn dbref_spec(s: Seq<u8>) -> Result<DBRefRecordV, DecodeError> {
    let k = RecordKind::DBRef;
    if s.len() < 32 {
        Err(fd(k, FieldId::Database))
    } else {
        match dbtype_of(field(s, 26, 32)) {
            None => Err(DecodeError::InvalidEnumValue { kind: k, field: FieldId::Database }),
            Some(database) => {
                if database is PDB && s.len() < 61 {
                    Err(fd(k, FieldId::IDbnsBeg))
                } else if database is PDB && char_at(s, 60) is None {
                    Err(fd(k, FieldId::IDbnsBeg))
                } else if database is PDB && s.len() < 68 {
                    Err(fd(k, FieldId::DbInsEnd))
                } else if database is PDB && char_at(s, 67) is None {
                    Err(fd(k, FieldId::DbInsEnd))
                } else {
                    let i_dbns_beg = if database is PDB {
                        char_at(s, 60)
                    } else {
                        None
                    };
                    let db_ins_end = if database is PDB {
                        char_at(s, 67)
                    } else {
                        None
                    };
                    dbref_spec_fields(s, database, i_dbns_beg, db_ins_end)
                }
            },
        }
    }
}

/// The positional fields of `dbref_spec`, read after the database token.
pub open spec fn dbref_spec_fields(
    s: Seq<u8>,
    database: DBType,
    i_dbns_beg: Option<char>,
    db_ins_end: Option<char>,
) -> Result<DBRefRecordV, DecodeError> {
    let k = RecordKind::DBRef;
    match char_at(s, 12) {
        None => Err(fd(k, FieldId::ChainId)),
        Some(chain_id) => {
            match u32_field(field(s, 14, 18)) {
                None => Err(fd(k, FieldId::SeqBegin)),
                Some(seq_begin) => {
                    match u32_field(field(s, 20, 24)) {
                        None => Err(fd(k, FieldId::SeqEnd)),
                        Some(seq_end) => {
                            if s.len() < 41 {
                                Err(fd(k, FieldId::DbAccession))
                            } else if s.len() < 54 {
                                Err(fd(k, FieldId::DbIdCode))
                            } else if s.len() < 60 {
                                Err(fd(k, FieldId::DbSeqBegin))
                            } else {
                                match u32_field(field(s, 55, 60)) {
                                    None => Err(fd(k, FieldId::DbSeqBegin)),
                                    Some(db_seq_begin) => {
                                        if s.len() < 67 {
                                            Err(fd(k, FieldId::DbSeqEnd))
                                        } else {
                                            match u32_field(field(s, 62, 67)) {
                                                None => Err(fd(k, FieldId::DbSeqEnd)),
                                                Some(db_seq_end) => Ok(
                                                    DBRefRecordV {
                                                        id_code: field(s, 7, 11),
                                                        chain_id,
                                                        seq_begin,
                                                        insert_begin: one_char(field(s, 18, 19)),
                                                        seq_end,
                                                        insert_end: one_char(field(s, 24, 25)),
                                                        database,
                                                        db_accession: field(s, 33, 41),
                                                        db_id_code: field(s, 42, 54),
                                                        db_seq_begin,
                                                        i_dbns_beg,
                                                        db_seq_end,
                                                        db_ins_end,
                                                    },
                                                ),
                                            }
                                        }
                                    },
                                }
                            }
                        },
                    }
                },
            }
        },
    }
}

impl DBRefRecord {
    /// Decode a database reference line.
    pub fn decode(line: &[u8]) -> (r: Result<DBRefRecord, DecodeError>)
        ensures
            ok_view(r) == dbref_spec(line@),
    {
        let k = RecordKind::DBRef;
        if line.len() < 32 {
            return Err(fd_exec(k, FieldId::Database));
        }
        let database = match dbtype_field(line, 26, 32) {
            Some(d) => d,
            None => {
                return Err(DecodeError::InvalidEnumValue { kind: k, field: FieldId::Database });
            },
        };
        let is_pdb = matches!(database, DBType::PDB);
        let mut i_dbns_beg: Option<char> = None;
        let mut db_ins_end: Option<char> = None;
        if is_pdb {
            if line.len() < 61 {
                return Err(fd_exec(k, FieldId::IDbnsBeg));
            }
            i_dbns_beg = match parse_char_at(line, 60) {
                Some(c) => Some(c),
                None => {
                    return Err(fd_exec(k, FieldId::IDbnsBeg));
                },
            };
            if line.len() < 68 {
                return Err(fd_exec(k, FieldId::DbInsEnd));
            }
            db_ins_end = match parse_char_at(line, 67) {
                Some(c) => Some(c),
                None => {
                    return Err(fd_exec(k, FieldId::DbInsEnd));
                },
            };
        }
        let chain_id = match parse_char_at(line, 12) {
            Some(c) => c,
            None => {
                return Err(fd_exec(k, FieldId::ChainId));
            },
        };
        let seq_begin = match parse_u32_field(line, 14, 18) {
            Some(v) => v,
            None => {
                return Err(fd_exec(k, FieldId::SeqBegin));
            },
        };
        let seq_end = match parse_u32_field(line, 20, 24) {
            Some(v) => v,
            None => {
                return Err(fd_exec(k, FieldId::SeqEnd));
            },
        };
        if line.len() < 41 {
            return Err(fd_exec(k, FieldId::DbAccession));
        }
        if line.len() < 54 {
            return Err(fd_exec(k, FieldId::DbIdCode));
        }
        if line.len() < 60 {
            return Err(fd_exec(k, FieldId::DbSeqBegin));
        }
        let db_seq_begin = match parse_u32_field(line, 55, 60) {
            Some(v) => v,
            None => {
                return Err(fd_exec(k, FieldId::DbSeqBegin));
            },
        };
        if line.len() < 67 {
            return Err(fd_exec(k, FieldId::DbSeqEnd));
        }
        let db_seq_end = match parse_u32_field(line, 62, 67) {
            Some(v) => v,
            None => {
                return Err(fd_exec(k, FieldId::DbSeqEnd));
            },
        };
        Ok(
            DBRefRecord {
                id_code: trimmed_bytes(line, 7, 11),
                chain_id,
                seq_begin,
                insert_begin: parse_char_field(line, 18, 19),
                seq_end,
                insert_end: parse_char_field(line, 24, 25),
                database,
                db_accession: trimmed_bytes(line, 33, 41),
                db_id_code: trimmed_bytes(line, 42, 54),
                db_seq_begin,
                i_dbns_beg,
                db_seq_end,
                db_ins_end,
            },
        )
    }

    /// Decode a database reference line from text.
    pub fn new(line: &str) -> (r: Result<DBRefRecord, DecodeError>)
        ensures
            ok_view(r) == dbref_spec(line.spec_bytes()),
    {
        DBRefRecord::decode(line.as_bytes())
    }
}

} // verus!
