//! Tests of the canonical fixed-width re-serialization.

use knuckles_parse::decimal::Decimal;
use knuckles_parse::records::model::ModelRecord;
use knuckles_parse::records::mtrixn::MtrixnRecord;
use knuckles_parse::records::nummdl::NummdlRecord;
use knuckles_parse::records::origxn::OrigxnRecord;

#[test]
fn model_test_model_record_display() {
    let model = ModelRecord { serial: 1 };
    let result = "MODEL        1                                                                  ";
    assert_eq!(model.to_line(), result.as_bytes().to_vec());
}

#[test]
fn nummdl_test_model_record_display() {
    let model = NummdlRecord { count: 1 };
    let result = "NUMMDL       1                                                                  ";
    assert_eq!(model.to_line(), result.as_bytes().to_vec());
}

#[test]
fn test_mtrixn_display() {
    let line = "MTRIX1   1 -1.000000  0.000000  0.000000        0.00000    1                    ";
    let record = MtrixnRecord::from(line).unwrap();
    assert_eq!(record.to_line(), line.as_bytes().to_vec());
}

#[test]
fn origxn_record_display_test() {
    const LINE: &str =
        "ORIGX1      0.963457  0.136613  0.230424       16.61000                         ";
    let record = OrigxnRecord::new(LINE).unwrap();
    assert_eq!(record.to_line(), LINE.as_bytes().to_vec());
}

#[test]
fn fixed_rendering_pads_and_rounds() {
    let half = Decimal { neg: false, mantissa: 5, scale: 1 };
    assert_eq!(half.to_fixed(3), b"0.500".to_vec());
    let third = Decimal { neg: true, mantissa: 12345678, scale: 7 };
    assert_eq!(third.to_fixed(6), b"-1.234568".to_vec());
    let whole = Decimal { neg: false, mantissa: 42, scale: 0 };
    assert_eq!(whole.to_fixed(2), b"42.00".to_vec());
}
