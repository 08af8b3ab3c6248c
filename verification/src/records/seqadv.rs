//! Sequence difference records: where the entry departs from its source
//! database sequence.

use vstd::prelude::*;
use crate::field::{
    char_at, field, i32_field, one_char, opt_bytes_view, opt_text, parse_char_at, parse_char_field,
    parse_i32_field, parse_opt_text, trimmed_bytes,
};
use crate::records::dbref::{dbtype_field, dbtype_of, DBType};
use crate::records::{fd, fd_exec, ok_view, DecodeError, FieldId, RecordKind};
use vstd::string::StringSliceAdditionalSpecFns;

verus! {

/// One sequence difference record.
#[derive(Debug, Clone, PartialEq)]
pub struct SeqAdvRecord {
    /// Entry identifier.
    pub id_code: Vec<u8>,
    /// Residue name in the entry.
    pub res_name: Vec<u8>,
    /// Chain identifier.
    pub chain_id: char,
    /// Residue sequence number in the entry.
    pub seq_num: i32,
    /// Insertion code.
    pub i_code: Option<char>,
    /// Source database.
    pub database: DBType,
    /// Accession code in the source database.
    pub db_accession: Vec<u8>,
    /// Residue name in the database, absent when blank or missing.
    pub db_res: Option<Vec<u8>>,
    /// Residue number in the database, absent on a bad numeral.
    pub db_seq: Option<i32>,
    /// Nature of the difference, taken from the rest of the line.
    pub conflict: Vec<u8>,
}

/// Mathematical value of a `SeqAdvRecord`.
pub struct SeqAdvRecordV {
    pub id_code: Seq<u8>,
    pub res_name: Seq<u8>,
    pub chain_id: char,
    pub seq_num: i32,
    pub i_code: Option<char>,
    pub database: DBType,
    pub db_accession: Seq<u8>,
    pub db_res: Option<Seq<u8>>,
    pub db_seq: Option<i32>,
    pub conflict: Seq<u8>,
}

impl View for SeqAdvRecord {
    type V = SeqAdvRecordV;

    open spec fn view(&self) -> SeqAdvRecordV {
        SeqAdvRecordV {
            id_code: self.id_code@,
            res_name: self.res_name@,
            chain_id: self.chain_id,
            seq_num: self.seq_num,
            i_code: self.i_code,
            database: self.database,
            db_accession: self.db_accession@,
            db_res: opt_bytes_view(self.db_res),
            db_seq: self.db_seq,
            conflict: self.conflict@,
        }
    }
}

/// What a sequence difference line decodes to.  The database token is
/// matched first against the fixed vocabulary; the database residue name and
/// number are optional, and the conflict text is the trimmed remainder.
pub open spec fn seqadv_spec(s: Seq<u8>) -> Result<SeqAdvRecordV, DecodeError> {
    let k = RecordKind::Seqadv;
    if s.len() < 28 {
        Err(fd(k, FieldId::Database))
    } else {
        match dbtype_of(field(s, 24, 28)) {
            None => Err(DecodeError::InvalidEnumValue { kind: k, field: FieldId::Database }),
            Some(database) => {
                match char_at(s, 16) {
                    None => Err(fd(k, FieldId::ChainId)),
                    Some(chain_id) => {
                        match i32_field(field(s, 18, 22)) {
                            None => Err(fd(k, FieldId::SeqNum)),
                            Some(seq_num) => {
                                if s.len() < 38 {
                                    Err(fd(k, FieldId::DbAccession))
                                } else if s.len() < 48 {
                                    Err(fd(k, FieldId::DbSeq))
                                } else if s.len() < 49 {
                                    Err(fd(k, FieldId::Conflict))
                                } else {
                                    Ok(
                                        SeqAdvRecordV {
                                            id_code: field(s, 7, 11),
                                            res_name: field(s, 12, 15),
                                            chain_id,
                                            seq_num,
                                            i_code: one_char(field(s, 22, 23)),
                                            database,
                                            db_accession: field(s, 29, 38),
                                            db_res: opt_text(s, 39, 42),
                                            db_seq: i32_field(field(s, 43, 48)),
                                            conflict: field(s, 49, s.len() as int),
                                        },
                                    )
                                }
                            },
                        }
                    },
                }
            },
        }
    }
}

impl SeqAdvRecord {
    /// Decode a sequence difference line.
    pub fn decode(line: &[u8]) -> (r: Result<SeqAdvRecord, DecodeError>)
        ensures
            ok_view(r) == seqadv_spec(line@),
    {
        let k = RecordKind::Seqadv;
        if line.len() < 28 {
            return Err(fd_exec(k, FieldId::Database));
        }
        let database = match dbtype_field(line, 24, 28) {
            Some(d) => d,
            None => {
                return Err(DecodeError::InvalidEnumValue { kind: k, field: FieldId::Database });
            },
        };
        let chain_id = match parse_char_at(line, 16) {
            Some(c) => c,
            None => {
                return Err(fd_exec(k, FieldId::ChainId));
            },
        };
        let seq_num = match parse_i32_field(line, 18, 22) {
            Some(v) => v,
            None => {
                return Err(fd_exec(k, FieldId::SeqNum));
            },
        };
        if line.len() < 38 {
            return Err(fd_exec(k, FieldId::DbAccession));
        }
        if line.len() < 48 {
            return Err(fd_exec(k, FieldId::DbSeq));
        }
        if line.len() < 49 {
            return Err(fd_exec(k, FieldId::Conflict));
        }
        Ok(
            SeqAdvRecord {
                id_code: trimmed_bytes(line, 7, 11),
                res_name: trimmed_bytes(line, 12, 15),
                chain_id,
                seq_num,
                i_code: parse_char_field(line, 22, 23),
                database,
                db_accession: trimmed_bytes(line, 29, 38),
                db_res: parse_opt_text(line, 39, 42),
                db_seq: parse_i32_field(line, 43, 48),
                conflict: trimmed_bytes(line, 49, line.len()),
            },
        )
    }

    /// Decode a sequence difference line from text.
    pub fn new(line: &str) -> (r: Result<SeqAdvRecord, DecodeError>)
        ensures
            ok_view(r) == seqadv_spec(line.spec_bytes()),
    {
        SeqAdvRecord::decode(line.as_bytes())
    }
}

} // verus!
