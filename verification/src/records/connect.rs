//! Connectivity records: bonds between atom serial numbers.

use vstd::prelude::*;
use crate::field::{field, parse_serial_field, parse_serial_opt_field, serial_field, serial_opt};
use crate::records::{fd, fd_exec, ok_view, DecodeError, FieldId, RecordKind};
use vstd::string::StringSliceAdditionalSpecFns;

verus! {

/// One connectivity record: an atom and up to four bonded atom serials.
#[derive(Debug, Clone, PartialEq)]
pub struct ConnectRecord {
    /// Serial number of the atom whose bonds the record lists, hexadecimal
    /// when the field holds a letter; zero on a bad numeral.
    pub serial: u32,
    /// Serial numbers of up to four bonded atoms, in column order, each with
    /// the same hexadecimal fallback.
    pub connected: [Option<u32>; 4],
}

/// Mathematical value of a `ConnectRecord`.
pub struct ConnectRecordV {
    pub serial: u32,
    pub connected: Seq<Option<u32>>,
}

impl View for ConnectRecord {
    type V = ConnectRecordV;

    open spec fn view(&self) -> ConnectRecordV {
        ConnectRecordV { serial: self.serial, connected: self.connected@ }
    }
}

/// What a connectivity line decodes to: all five columns must be in bounds
/// and hold atom serials, read with the hexadecimal fallback; the leading
/// serial defaults to zero on a bad numeral, and each bond slot is absent
/// when its numeral does not coerce.
pub open spec fn connect_spec(s: Seq<u8>) -> Result<ConnectRecordV, DecodeError> {
    let k = RecordKind::Connect;
    if s.len() < 11 {
        Err(fd(k, FieldId::Serial))
    } else if s.len() < 31 {
        Err(fd(k, FieldId::Connected))
    } else {
        Ok(
            ConnectRecordV {
                serial: serial_field(field(s, 6, 11)),
                connected: seq![
                    serial_opt(field(s, 11, 16)),
                    serial_opt(field(s, 16, 21)),
                    serial_opt(field(s, 21, 26)),
                    serial_opt(field(s, 26, 31)),
                ],
            },
        )
    }
}

impl ConnectRecord {
    /// Decode a connectivity line.
    pub fn decode(line: &[u8]) -> (r: Result<ConnectRecord, DecodeError>)
        ensures
            ok_view(r) == connect_spec(line@),
    {
        let k = RecordKind::Connect;
        if line.len() < 11 {
            return Err(fd_exec(k, FieldId::Serial));
        }
        if line.len() < 31 {
            return Err(fd_exec(k, FieldId::Connected));
        }
        let connected: [Option<u32>; 4] = [
            parse_serial_opt_field(line, 11, 16),
            parse_serial_opt_field(line, 16, 21),
            parse_serial_opt_field(line, 21, 26),
            parse_serial_opt_field(line, 26, 31),
        ];
        let r = ConnectRecord { serial: parse_serial_field(line, 6, 11), connected };
        proof {
            assert(r.connected@ =~= connect_spec(line@)->Ok_0.connected);
        }
        Ok(r)
    }

    /// Decode a connectivity line from text.
    pub fn new(line: &str) -> (r: Result<ConnectRecord, DecodeError>)
        ensures
            ok_view(r) == connect_spec(line.spec_bytes()),
    {
        ConnectRecord::decode(line.as_bytes())
    }
}

} // verus!
