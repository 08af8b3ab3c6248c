//! Whole-text parsing tests: both strategies, the serial normalizer, and the
//! handling of undecodable lines.

use knuckles_parse::records::mtrixn::MtrixnRecord;
use knuckles_parse::records::{DecodeError, FieldId, Record, RecordKind};
use knuckles_parse::{pdbreader_parallel, pdbreader_single};

fn atom_line(serial_field: &str) -> String {
    format!(
        "ATOM  {}  N   ALA A   1      20.154  16.967  27.462  1.00 11.18           N",
        serial_field
    )
}

fn atom_serials(records: &[Record]) -> Vec<u32> {
    records
        .iter()
        .map(|r| match r {
            Record::Atom(a) => a.serial,
            _ => panic!("expected only atom records"),
        })
        .collect()
}

#[test]
fn normalizer_backfills_and_rebaselines() {
    let text = [
        atom_line("    5"),
        atom_line("    0"),
        atom_line("    0"),
        atom_line("   20"),
        atom_line("    0"),
    ]
    .join("\n");
    let records = pdbreader_single(&text);
    assert_eq!(atom_serials(&records), vec![5, 6, 7, 20, 21]);
    let records = pdbreader_parallel(&text);
    assert_eq!(atom_serials(&records), vec![5, 6, 7, 20, 21]);
}

#[test]
fn normalizer_leaves_nonzero_serials_unchanged() {
    let text = [atom_line("    3"), atom_line("    0"), atom_line("    9")].join("\n");
    let records = pdbreader_single(&text);
    let serials = atom_serials(&records);
    assert_eq!(serials, vec![3, 4, 9]);
    assert!(serials.iter().all(|s| *s != 0));
}

#[test]
fn hex_serial_field_decodes_base_sixteen() {
    let records = pdbreader_single(&atom_line("186a0"));
    assert_eq!(atom_serials(&records), vec![100000]);
    let records = pdbreader_single(&atom_line("  123"));
    assert_eq!(atom_serials(&records), vec![123]);
}

#[test]
fn sequential_and_parallel_agree_on_mixed_text() {
    let text = [
        "CRYST1   52.000   58.600   61.900  90.00  90.00  90.00 P 21 21 21    8          ",
        "ORIGX1      0.963457  0.136613  0.230424       16.61000                         ",
        "SCALE1      0.019231  0.000000  0.000000        0.00000                         ",
        "MODEL        1",
        "ATOM      1  N   ALA A   1      20.154  16.967  27.462  1.00 11.18           N",
        "ATOM      0  CA  ALA A   1      20.987  18.149  27.890  1.00 11.85           C",
        "ANISOU    1  N   MET A   1      688   1234    806    -19    -49    178       N  ",
        "HETATM    2  O   HOH A   2      15.123  12.456  30.789  1.00 25.50           O",
        "TER     297      ALA A  18                                                      ",
        "ENDMDL",
        "CONECT  413  412  414                                                           ",
        "SEQRES   1 A  147  THR SER ASN PHE ALA ASP GLY LYS ASP ALA ILE LEU GLU",
        "HET    UDP  A1457      25                     ",
        "HETNAM     NAG N-ACETYL-D-GLUCOSAMINE",
        "MODRES 2R0L ASN A   74A ASN  GLYCOSYLATION SITE",
        "DBREF  2JHQ A    1   226  UNP    Q9KPK8   UNG_VIBCH        1    226",
        "SEQADV 3ABC MET A   -1  UNP  P10725              EXPRESSION TAG",
        "MTRIX1   1 -1.000000  0.000000  0.000000        0.00000    1                   ",
        "NUMMDL       1",
        "short",
        "FOOBAR this line matches no record kind",
        "ATOM      9  N   ALA A   x      20.154  16.967  27.462  1.00 11.18           N",
    ]
    .join("\n");
    let single = pdbreader_single(&text);
    let parallel = pdbreader_parallel(&text);
    assert_eq!(single, parallel);
    assert_eq!(single.len(), 19);
}

#[test]
fn unparseable_lines_vanish_without_error() {
    let text = ["short", "FOOBAR this line matches no record kind", ""].join("\n");
    let records = pdbreader_single(&text);
    assert!(records.is_empty());
    let records = pdbreader_parallel(&text);
    assert!(records.is_empty());
}

#[test]
fn windows_line_endings_are_handled() {
    let text = "MODEL        1\r\nNUMMDL       2\r\n";
    let records = pdbreader_single(text);
    assert_eq!(records.len(), 2);
    match &records[0] {
        Record::Model(m) => assert_eq!(m.serial, 1),
        _ => panic!("expected a model record"),
    }
    match &records[1] {
        Record::Nummdl(m) => assert_eq!(m.count, 2),
        _ => panic!("expected a model count record"),
    }
}

#[test]
fn classifier_reports_each_error_kind() {
    assert_eq!(Record::try_from("ATOM"), Err(DecodeError::LineTooShort));
    assert_eq!(
        Record::try_from("FOOBAR this line matches no record kind"),
        Err(DecodeError::UnrecognizedKind)
    );
    assert_eq!(
        Record::try_from("ATOM      1  N   ALA A  x1      20.154  16.967  27.462  1.00 11.18"),
        Err(DecodeError::FieldDecode { kind: RecordKind::Atom, field: FieldId::ResSeq })
    );
    assert_eq!(
        Record::try_from("DBREF  2JHQ A    1   226  XXX    Q9KPK8   UNG_VIBCH        1    226"),
        Err(DecodeError::InvalidEnumValue { kind: RecordKind::DBRef, field: FieldId::Database })
    );
    assert_eq!(
        MtrixnRecord::from("MTRIX4   1 -1.000000  0.000000  0.000000        0.00000    1"),
        Err(DecodeError::InvalidSubNumber { kind: RecordKind::Mtrix })
    );
}

#[test]
fn same_tag_selects_same_codec() {
    let good = "ATOM     17  NE2 GLN     2      25.562  32.733   1.806  1.00 19.49      1UBQ    ";
    let bad = "ATOM     17  NE2 GLN     x      25.562  32.733   1.806  1.00 19.49      1UBQ    ";
    assert!(matches!(Record::try_from(good), Ok(Record::Atom(_))));
    assert!(matches!(
        Record::try_from(bad),
        Err(DecodeError::FieldDecode { kind: RecordKind::Atom, field: _ })
    ));
    let het = "HETATM   17  NE2 GLN     2      25.562  32.733   1.806  1.00 19.49      1UBQ    ";
    assert!(matches!(Record::try_from(het), Ok(Record::Hetatm(_))));
}

#[test]
fn normalized_output_has_no_zero_serials() {
    let text = [atom_line("    0"), atom_line("    0"), atom_line("    0")].join("\n");
    for records in [pdbreader_single(&text), pdbreader_parallel(&text)] {
        for r in &records {
            match r {
                Record::Atom(a) => assert_ne!(a.serial, 0),
                _ => panic!("expected only atom records"),
            }
        }
    }
}

#[test]
fn endmdl_lines_become_markers() {
    let text = "ENDMDL\nENDMDL extra text is ignored";
    let records = pdbreader_single(text);
    assert_eq!(records.len(), 2);
    assert!(matches!(records[0], Record::Endmdl()));
    assert!(matches!(records[1], Record::Endmdl()));
}

#[test]
fn truncated_mandatory_field_drops_only_its_line() {
    let text = ["ATOM      1  N   ALA", &atom_line("    7")].join("\n");
    let records = pdbreader_single(&text);
    assert_eq!(atom_serials(&records), vec![7]);
}
