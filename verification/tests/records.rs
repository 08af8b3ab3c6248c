//! Per-record decoding tests on representative lines.

use knuckles_parse::decimal::Decimal;
use knuckles_parse::records::anisotropic::AnisotropicRecord;
use knuckles_parse::records::atom::AtomRecord;
use knuckles_parse::records::connect::ConnectRecord;
use knuckles_parse::records::crystal::CrystalRecord;
use knuckles_parse::records::dbref::{DBRefRecord, DBType};
use knuckles_parse::records::het::HetRecord;
use knuckles_parse::records::hetnam::HetnamRecord;
use knuckles_parse::records::model::ModelRecord;
use knuckles_parse::records::modres::ModresRecord;
use knuckles_parse::records::mtrixn::{MtrixN, MtrixnRecord};
use knuckles_parse::records::nummdl::NummdlRecord;
use knuckles_parse::records::origxn::{OrigxN, OrigxnRecord};
use knuckles_parse::records::scalen::{ScaleN, ScalenRecord};
use knuckles_parse::records::seqadv::SeqAdvRecord;
use knuckles_parse::records::seqres::SeqresRecord;
use knuckles_parse::records::term::TermRecord;

fn dec(neg: bool, mantissa: u64, scale: u32) -> Decimal {
    Decimal { neg, mantissa, scale }
}

#[test]
fn anisotropic_parse_anisou_line_test() {
    const LINE: &str =
        "ANISOU    1  N   MET A   1      688   1234    806    -19    -49    178       N  ";
    let record = AnisotropicRecord::new(LINE).unwrap();
    assert_eq!(record.serial, 1);
    assert_eq!(record.name, b"N".to_vec());
    assert_eq!(record.res_name, b"MET".to_vec());
    assert_eq!(record.chain_id, 'A');
    assert_eq!(record.res_seq, 1);
    assert_eq!(record.u00, 688);
    assert_eq!(record.u11, 1234);
    assert_eq!(record.u22, 806);
    assert_eq!(record.u01, -19);
    assert_eq!(record.u02, -49);
    assert_eq!(record.u12, 178);
    assert_eq!(record.element, Some(b"N".to_vec()));
    const LINE2: &str =
        "ANISOU    1  N   MET A   1      688   1234    806    -19    -49    178          ";
    let record = AnisotropicRecord::new(LINE2).unwrap();
    assert_eq!(record.serial, 1);
    assert_eq!(record.name, b"N".to_vec());
    assert_eq!(record.res_name, b"MET".to_vec());
    assert_eq!(record.chain_id, 'A');
    assert_eq!(record.res_seq, 1);
    assert_eq!(record.u00, 688);
    assert_eq!(record.u11, 1234);
    assert_eq!(record.u22, 806);
    assert_eq!(record.u01, -19);
    assert_eq!(record.u02, -49);
    assert_eq!(record.u12, 178);
    assert_eq!(record.element, None);
}

#[test]
fn from_anisout_line_test() {
    const LINE: &str =
        "ANISOU    1  N   MET A   1      688   1234    806    -19    -49    178       N  ";
    let record = AnisotropicRecord::new(LINE).unwrap();
    assert_eq!(record.serial, 1);
    assert_eq!(record.name, b"N".to_vec());
    assert_eq!(record.res_name, b"MET".to_vec());
    assert_eq!(record.chain_id, 'A');
    assert_eq!(record.res_seq, 1);
    assert_eq!(record.u00, 688);
    assert_eq!(record.u11, 1234);
    assert_eq!(record.u22, 806);
    assert_eq!(record.u01, -19);
    assert_eq!(record.u02, -49);
    assert_eq!(record.u12, 178);
    assert_eq!(record.element, Some(b"N".to_vec()));
    const LINE2: &str =
        "ANISOU    1  N   MET A   1      688   1234    806    -19    -49    178          ";
    let record = AnisotropicRecord::new(LINE2).unwrap();
    assert_eq!(record.serial, 1);
    assert_eq!(record.name, b"N".to_vec());
    assert_eq!(record.res_name, b"MET".to_vec());
    assert_eq!(record.chain_id, 'A');
    assert_eq!(record.res_seq, 1);
    assert_eq!(record.u00, 688);
    assert_eq!(record.u11, 1234);
    assert_eq!(record.u22, 806);
    assert_eq!(record.u01, -19);
    assert_eq!(record.u02, -49);
    assert_eq!(record.u12, 178);
    assert_eq!(record.element, None);
}

#[test]
fn anisou_blank_trailing_columns_are_absent() {
    const LINE2: &str =
        "ANISOU    1  N   MET A   1      688   1234    806    -19    -49    178          ";
    let record = AnisotropicRecord::new(LINE2).unwrap();
    assert_eq!(record.element, None);
    assert_eq!(record.charge, None);
}

#[test]
fn atom_parse_atom_line_test() {
    const LINE: &str =
        "ATOM     17  NE2 GLN     2      25.562  32.733   1.806  1.00 19.49      1UBQ    ";
    let record = AtomRecord::new(LINE).unwrap();
    assert_eq!(record.serial, 17);
    assert_eq!(record.name, b"NE2".to_vec());
    assert_eq!(record.alt_loc, None);
    assert_eq!(record.res_name, b"GLN".to_vec());
    assert_eq!(record.res_seq, 2);
    assert_eq!(record.x, dec(false, 25562, 3));
    assert_eq!(record.y, dec(false, 32733, 3));
    assert_eq!(record.z, dec(false, 1806, 3));
    assert_eq!(record.occupancy, dec(false, 100, 2));
    assert_eq!(record.temp_factor, dec(false, 1949, 2));
    assert_eq!(record.entry, Some(b"1UBQ".to_vec()));
    assert_eq!(record.element, None);
    assert_eq!(record.charge, None);
}

#[test]
fn parse_atom_line_hex_test() {
    const LINE: &str =
        "ATOM  186a0  CA  GLY A  67      26.731  62.085   4.078  0.00  7.83           C  ";
    let record = AtomRecord::new(LINE).unwrap();
    assert_eq!(record.serial, 100000);
    assert_eq!(record.name, b"CA".to_vec());
    assert_eq!(record.alt_loc, None);
    assert_eq!(record.res_name, b"GLY".to_vec());
    assert_eq!(record.res_seq, 67);
    assert_eq!(record.x, dec(false, 26731, 3));
    assert_eq!(record.y, dec(false, 62085, 3));
    assert_eq!(record.z, dec(false, 4078, 3));
    assert_eq!(record.occupancy, dec(false, 0, 2));
    assert_eq!(record.temp_factor, dec(false, 783, 2));
    assert_eq!(record.entry, None);
    assert_eq!(record.element, Some(b"C".to_vec()));
    assert_eq!(record.charge, None);
}

#[test]
fn atom_decimal_serial_decodes_base_ten() {
    const LINE: &str =
        "ATOM    123  CA  GLY A  67      26.731  62.085   4.078  0.00  7.83           C  ";
    let record = AtomRecord::new(LINE).unwrap();
    assert_eq!(record.serial, 123);
}

#[test]
fn anisou_serial_takes_hex_fallback() {
    const LINE: &str =
        "ANISOU186a0  N   MET A   1      688   1234    806    -19    -49    178       N  ";
    let record = AnisotropicRecord::new(LINE).unwrap();
    assert_eq!(record.serial, 100000);
    const BAD: &str =
        "ANISOU186g0  N   MET A   1      688   1234    806    -19    -49    178       N  ";
    let record = AnisotropicRecord::new(BAD).unwrap();
    assert_eq!(record.serial, 0);
}

#[test]
fn term_serial_takes_hex_fallback() {
    let str = "TER   186a0      ALA A  18                                                      ";
    let record = TermRecord::new(str).unwrap();
    assert_eq!(record.serial, 100000);
}

#[test]
fn connect_serials_take_hex_fallback() {
    const LINE: &str =
        "CONECT186a0186a1  414                                                           ";
    let record = ConnectRecord::new(LINE).unwrap();
    assert_eq!(record.serial, 100000);
    assert_eq!(record.connected, [Some(100001), Some(414), None, None]);
}

#[test]
fn parse_connect_line_test() {
    const LINE: &str =
        "CONECT  413  412  414                                                           ";
    let record = ConnectRecord::new(LINE).unwrap();
    assert_eq!(record.serial, 413);
    assert_eq!(record.connected, [Some(412), Some(414), None, None]);
}

#[test]
fn parse_crystal_line_test() {
    const LINE: &str =
        "CRYST1   52.000   58.600   61.900  90.00  90.00  90.00 P 21 21 21    8          ";
    let record = CrystalRecord::new(LINE).unwrap();
    assert_eq!(record.a, dec(false, 52000, 3));
    assert_eq!(record.b, dec(false, 58600, 3));
    assert_eq!(record.c, dec(false, 61900, 3));
    assert_eq!(record.alpha, dec(false, 9000, 2));
    assert_eq!(record.beta, dec(false, 9000, 2));
    assert_eq!(record.gamma, dec(false, 9000, 2));
    assert_eq!(record.space_group, b"P 21 21 21".to_vec());
    assert_eq!(record.z, 8);
}

#[test]
fn crystal_cell_values_compare_by_value() {
    const LINE: &str = "CRYST1   52.000   58.600   61.900  90.00  90.00  90.00 P 21 21 21    8";
    let record = CrystalRecord::new(LINE).unwrap();
    assert!(record.a.value_eq(&dec(false, 520, 1)));
    assert!(record.b.value_eq(&dec(false, 586, 1)));
    assert!(record.c.value_eq(&dec(false, 619, 1)));
    assert!(record.alpha.value_eq(&dec(false, 90, 0)));
    assert!(record.beta.value_eq(&dec(false, 90, 0)));
    assert!(record.gamma.value_eq(&dec(false, 90, 0)));
    assert_eq!(record.space_group, b"P 21 21 21".to_vec());
    assert_eq!(record.z, 8);
}

#[test]
fn test_new_dbref() {
    let line = "DBREF  2JHQ A    1   226  UNP    Q9KPK8   UNG_VIBCH        1    226";
    let record = DBRefRecord::new(line).unwrap();
    assert_eq!(b"2JHQ".to_vec(), record.id_code);
    assert_eq!('A', record.chain_id);
    assert_eq!(1, record.seq_begin);
    assert_eq!(None, record.insert_begin);
    assert_eq!(226, record.seq_end);
    assert_eq!(None, record.insert_end);
    assert_eq!(DBType::UNP, record.database);
    assert_eq!(b"Q9KPK8".to_vec(), record.db_accession);
    assert_eq!(b"UNG_VIBCH".to_vec(), record.db_id_code);
    assert_eq!(1, record.db_seq_begin);
    assert_eq!(None, record.i_dbns_beg);
    assert_eq!(226, record.db_seq_end);
    assert_eq!(None, record.db_ins_end);
    let line = "DBREF  2JHQ A    1   226  PDB    Q9KPK8   UNG_VIBCH        1A   226B";
    let record = DBRefRecord::new(line).unwrap();
    assert_eq!(b"2JHQ".to_vec(), record.id_code);
    assert_eq!('A', record.chain_id);
    assert_eq!(1, record.seq_begin);
    assert_eq!(None, record.insert_begin);
    assert_eq!(226, record.seq_end);
    assert_eq!(None, record.insert_end);
    assert_eq!(DBType::PDB, record.database);
    assert_eq!(b"Q9KPK8".to_vec(), record.db_accession);
    assert_eq!(b"UNG_VIBCH".to_vec(), record.db_id_code);
    assert_eq!(1, record.db_seq_begin);
    assert_eq!(Some('A'), record.i_dbns_beg);
    assert_eq!(226, record.db_seq_end);
    assert_eq!(Some('B'), record.db_ins_end);
}

#[test]
fn dbtype_matches_vocabulary_with_alias() {
    assert_eq!(DBType::new("GB"), Some(DBType::GB));
    assert_eq!(DBType::new("NORINE"), Some(DBType::NORINE));
    assert_eq!(DBType::new("NOR "), Some(DBType::NORINE));
    assert_eq!(DBType::new(" PDB"), Some(DBType::PDB));
    assert_eq!(DBType::new("UNP"), Some(DBType::UNP));
    assert_eq!(DBType::new("XYZ"), None);
    assert_eq!(DBType::new(""), None);
}

#[test]
fn test_new_het_record() {
    let line = "HET    UDP  A1457      25                     ";
    let record = HetRecord::new(line).unwrap();
    assert_eq!(record.het_id, b"UDP".to_vec());
    assert_eq!(record.chain_id, 'A');
    assert_eq!(record.seq_num, 1457);
    assert_eq!(record.i_code, None);
    assert_eq!(record.num_het_atoms, 25);
    assert_eq!(record.text, None);

    let line = "HET    UNK  A 161       1     ";
    let record = HetRecord::new(line).unwrap();
    assert_eq!(record.het_id, b"UNK".to_vec());
    assert_eq!(record.chain_id, 'A');
    assert_eq!(record.seq_num, 161);
    assert_eq!(record.i_code, None);
    assert_eq!(record.num_het_atoms, 1);
    assert_eq!(record.text, None);
}

#[test]
fn test_from_str() {
    let line = "HET    UDP  A1457      25                     ";
    let record: HetRecord = HetRecord::new(line).unwrap();
    assert_eq!(record.het_id, b"UDP".to_vec());
    assert_eq!(record.chain_id, 'A');
    assert_eq!(record.seq_num, 1457);
    assert_eq!(record.i_code, None);
    assert_eq!(record.num_het_atoms, 25);
    assert_eq!(record.text, None);
}

#[test]
fn test_hetnam_new() {
    let line = "HETNAM     NAG N-ACETYL-D-GLUCOSAMINE";
    let record = HetnamRecord::new(line).unwrap();
    assert_eq!(record.continuation, None);
    assert_eq!(record.het_id, b"NAG".to_vec());
    assert_eq!(record.text, b"N-ACETYL-D-GLUCOSAMINE".to_vec());

    let line = "HETNAM  2  SAD DINUCLEOTIDE";
    let record = HetnamRecord::new(line).unwrap();
    assert_eq!(record.continuation, Some(b"2".to_vec()));
    assert_eq!(record.het_id, b"SAD".to_vec());
    assert_eq!(record.text, b"DINUCLEOTIDE".to_vec());
}

#[test]
fn test_hetnam_from() {
    let line = "HETNAM     NAG N-ACETYL-D-GLUCOSAMINE";
    let record = HetnamRecord::new(line).unwrap();
    assert_eq!(record.continuation, None);
    assert_eq!(record.het_id, b"NAG".to_vec());
    assert_eq!(record.text, b"N-ACETYL-D-GLUCOSAMINE".to_vec());
    let line = "HETNAM  2  SAD DINUCLEOTIDE";
    let record = HetnamRecord::new(line).unwrap();
    assert_eq!(record.continuation, Some(b"2".to_vec()));
    assert_eq!(record.het_id, b"SAD".to_vec());
    assert_eq!(record.text, b"DINUCLEOTIDE".to_vec());
}

#[test]
fn model_test_model_record_new() {
    let line = "MODEL        1";
    let model = ModelRecord::new(line).unwrap();
    assert_eq!(model.serial, 1);
}

#[test]
fn model_test_model_record_from() {
    let line = "MODEL        1";
    let model = ModelRecord::new(line).unwrap();
    assert_eq!(model.serial, 1);
}

#[test]
fn nummdl_test_model_record_new() {
    let line = "NUMMDL       1";
    let model = NummdlRecord::new(line).unwrap();
    assert_eq!(model.count, 1);
}

#[test]
fn nummdl_test_model_record_from() {
    let line = "NUMMDL       1";
    let model = NummdlRecord::new(line).unwrap();
    assert_eq!(model.count, 1);
}

#[test]
fn parse_scalen_line_test() {
    const LINE: &str =
        "SCALE1      0.019231  0.000000  0.000000        0.00000                         ";
    let record = ScalenRecord::new(LINE).unwrap();
    assert_eq!(record.n, 1);
    assert_eq!(record.scalen, [dec(false, 19231, 6), dec(false, 0, 6), dec(false, 0, 6)]);
    assert_eq!(record.un, dec(false, 0, 5));
}

#[test]
fn parse_scalen_test() {
    const LINE: &str =
        "SCALE1      0.019231  0.000000  0.000000        0.00000                         ";
    let record = ScaleN::new(LINE).unwrap();
    match record {
        ScaleN::Scale1(record) => {
            assert_eq!(record.n, 1);
            assert_eq!(record.scalen, [dec(false, 19231, 6), dec(false, 0, 6), dec(false, 0, 6)]);
            assert_eq!(record.un, dec(false, 0, 5));
        },
        _ => panic!("Wrong record type"),
    }
}

#[test]
fn test_new() {
    let str = "TER     297      ALA A  18                                                      ";
    let record = TermRecord::new(str).unwrap();
    assert_eq!(record.serial, 297);
    assert_eq!(record.res_name, b"ALA".to_vec());
    assert_eq!(record.chain_id, 'A');
    assert_eq!(record.res_seq, 18);
    assert_eq!(record.i_code, None);
}

#[test]
fn test_from() {
    let str = "TER     297      ALA A  18                                                      ";
    let record = TermRecord::new(str).unwrap();
    assert_eq!(record.serial, 297);
    assert_eq!(record.res_name, b"ALA".to_vec());
    assert_eq!(record.chain_id, 'A');
    assert_eq!(record.res_seq, 18);
    assert_eq!(record.i_code, None);
}

#[test]
fn test_mtrixn_record() {
    let line = "MTRIX1   1 -1.000000  0.000000  0.000000        0.00000    1                   ";
    let record = MtrixnRecord::from(line).unwrap();
    assert_eq!(record.n, 1);
    assert_eq!(record.serial_number, 1);
    assert_eq!(record.matrix, [dec(true, 1000000, 6), dec(false, 0, 6), dec(false, 0, 6)]);
    assert_eq!(record.vn, dec(false, 0, 5));
    assert_eq!(record.i_given, true);
    let line2 = "MTRIX2   1  0.000000  1.000000  0.000000        0.00000    1";
    let record = MtrixnRecord::from(line2).unwrap();

    assert_eq!(record.n, 2);
    assert_eq!(record.serial_number, 1);
    assert_eq!(record.matrix, [dec(false, 0, 6), dec(false, 1000000, 6), dec(false, 0, 6)]);
    assert_eq!(record.vn, dec(false, 0, 5));
    assert_eq!(record.i_given, true);
}

#[test]
fn test_mtrixn() {
    let line = "MTRIX1   1 -1.000000  0.000000  0.000000        0.00000    1";
    let record = MtrixN::new(line).unwrap();
    match record {
        MtrixN::Mtrix1(record) => {
            assert_eq!(record.n, 1);
            assert_eq!(record.serial_number, 1);
            assert_eq!(record.matrix, [dec(true, 1000000, 6), dec(false, 0, 6), dec(false, 0, 6)]);
            assert_eq!(record.vn, dec(false, 0, 5));
            assert_eq!(record.i_given, true);
        },
        _ => panic!("wrong sub-tag"),
    }
}

#[test]
fn parse_origxn_line_test() {
    const LINE: &str =
        "ORIGX1      0.963457  0.136613  0.230424       16.61000                         ";
    let record = OrigxnRecord::new(LINE).unwrap();
    assert_eq!(record.n, 1);
    assert_eq!(
        record.origxn,
        [dec(false, 963457, 6), dec(false, 136613, 6), dec(false, 230424, 6)]
    );
    assert_eq!(record.tn, dec(false, 1661000, 5));
}

#[test]
fn parse_origxn_test() {
    const LINE: &str =
        "ORIGX1      0.963457  0.136613  0.230424       16.61000                         ";
    let record = OrigxN::new(LINE).unwrap();
    match record {
        OrigxN::Origx1(record) => {
            assert_eq!(record.n, 1);
            assert_eq!(
                record.origxn,
                [dec(false, 963457, 6), dec(false, 136613, 6), dec(false, 230424, 6)]
            );
            assert_eq!(record.tn, dec(false, 1661000, 5));
        },
        _ => panic!("Wrong record type"),
    }
}

#[test]
fn test_new_seqdv_record() {
    let line = "SEQADV 3ABC MET A   -1  UNP  P10725              EXPRESSION TAG";
    let record = SeqAdvRecord::new(line).unwrap();
    assert_eq!(b"3ABC".to_vec(), record.id_code);
    assert_eq!(b"MET".to_vec(), record.res_name);
    assert_eq!('A', record.chain_id);
    assert_eq!(-1, record.seq_num);
    assert_eq!(None, record.i_code);
    assert_eq!(DBType::UNP, record.database);
    assert_eq!(b"P10725".to_vec(), record.db_accession);
    assert_eq!(None, record.db_res);
    assert_eq!(None, record.db_seq);
    assert_eq!(b"EXPRESSION TAG".to_vec(), record.conflict);

    let line = "SEQADV 3ABC GLY A   50  UNP  P10725    VAL    50 ENGINEERED";
    let record = SeqAdvRecord::new(line).unwrap();
    assert_eq!(b"3ABC".to_vec(), record.id_code);
    assert_eq!(b"GLY".to_vec(), record.res_name);
    assert_eq!('A', record.chain_id);
    assert_eq!(50, record.seq_num);
    assert_eq!(None, record.i_code);
    assert_eq!(DBType::UNP, record.database);
    assert_eq!(b"P10725".to_vec(), record.db_accession);
    assert_eq!(Some(b"VAL".to_vec()), record.db_res);
    assert_eq!(Some(50), record.db_seq);
    assert_eq!(b"ENGINEERED".to_vec(), record.conflict);

    let line = "SEQADV 2OKW LEU A   64  NOR  NOR00669  PHE    14 SEE REMARK 999";
    let record = SeqAdvRecord::new(line).unwrap();
    assert_eq!(b"2OKW".to_vec(), record.id_code);
    assert_eq!(b"LEU".to_vec(), record.res_name);
    assert_eq!('A', record.chain_id);
    assert_eq!(64, record.seq_num);
    assert_eq!(None, record.i_code);
    assert_eq!(DBType::NORINE, record.database);
    assert_eq!(b"NOR00669".to_vec(), record.db_accession);
    assert_eq!(Some(b"PHE".to_vec()), record.db_res);
    assert_eq!(Some(14), record.db_seq);
    assert_eq!(b"SEE REMARK 999".to_vec(), record.conflict);
}

#[test]
fn modres_fields_decode() {
    let line = "MODRES 2R0L ASN A   74A ASN  GLYCOSYLATION SITE";
    let record = ModresRecord::from(line).unwrap();
    assert_eq!(record.id_code, b"2R0L".to_vec());
    assert_eq!(record.res_name, b"ASN".to_vec());
    assert_eq!(record.chain_id, 'A');
    assert_eq!(record.seq_num, 74);
    assert_eq!(record.i_code, Some('A'));
    assert_eq!(record.std_res_name, b"ASN".to_vec());
    assert_eq!(record.comment, b"GLYCOSYLATION SITE".to_vec());
    let same = ModresRecord::new(line).unwrap();
    assert_eq!(record, same);
}

#[test]
fn het_description_column_decodes_when_present() {
    let line =
        "HET    NAG  A 101      14      PART OF GLYCOSYLATION SITE                       ";
    let record = HetRecord::new(line).unwrap();
    assert_eq!(record.het_id, b"NAG".to_vec());
    assert_eq!(record.num_het_atoms, 14);
    assert_eq!(record.text, Some(b"PART OF GLYCOSYLATION SITE".to_vec()));
}

#[test]
fn seqres_tokens_keep_order_and_duplicates() {
    let line = "SEQRES   1 A  147  THR SER ASN PHE ALA ALA GLY LYS ASP ALA ILE LEU GLU";
    let record = SeqresRecord::new(line).unwrap();
    assert_eq!(record.ser_num, 1);
    assert_eq!(record.chain_id, 'A');
    assert_eq!(record.num_res, 147);
    let expected: Vec<Vec<u8>> = vec![
        b"THR".to_vec(),
        b"SER".to_vec(),
        b"ASN".to_vec(),
        b"PHE".to_vec(),
        b"ALA".to_vec(),
        b"ALA".to_vec(),
        b"GLY".to_vec(),
        b"LYS".to_vec(),
        b"ASP".to_vec(),
        b"ALA".to_vec(),
        b"ILE".to_vec(),
        b"LEU".to_vec(),
        b"GLU".to_vec(),
    ];
    assert_eq!(record.res_names, expected);
}
