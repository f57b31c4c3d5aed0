//! Database records: one per reference-file line, parsed from six
//! comma-separated columns in the fixed order
//! `routing_number, name, addr1, addr2, addr3_or_zip, state`.

use vstd::prelude::*;
use vstd::string::StringExecFns;
use crate::text::split_commas;
use crate::text::split_fields;

verus! {

/// Mathematical model of a record: the four stored fields as character
/// sequences.
#[verifier::ext_equal]
pub ghost struct RecordView {
    pub routing_number: Seq<char>,
    pub name: Seq<char>,
    pub address: Seq<char>,
    pub state: Seq<char>,
}

/// One reference-database record. The address is the composite of the four
/// trailing columns, space-joined; the state is the last column.
#[derive(Debug)]
pub struct Record {
    pub routing_number: String,
    pub name: String,
    pub address: String,
    pub state: String,
}

impl View for Record {
    type V = RecordView;

    open spec fn view(&self) -> RecordView {
        RecordView {
            routing_number: self.routing_number@,
            name: self.name@,
            address: self.address@,
            state: self.state@,
        }
    }
}

/// What a database line parses to: `None` when it has fewer than six
/// comma-separated fields (a malformed row), otherwise the record read from
/// the first six fields. Extra fields are ignored.
pub open spec fn parse_line(line: Seq<char>) -> Option<RecordView> {
    let f = split_commas(line);
    if f.len() >= 6 {
        Some(
            RecordView {
                routing_number: f[0],
                name: f[1],
                address: f[2] + " "@ + f[3] + " "@ + f[4] + " "@ + f[5],
                state: f[5],
            },
        )
    } else {
        None
    }
}

/// Parses one database line into a record, or `None` for a malformed line,
/// exactly as `parse_line` says.
pub fn parse_record(line: &str) -> (r: Option<Record>)
    ensures
        r is Some <==> parse_line(line@) is Some,
        r matches Some(rec) ==> Some(rec@) == parse_line(line@),
{
    let fields = split_fields(line);
    proof {
        assert(fields@.len() == split_commas(line@).len()) by {
            assert(fields@.map_values(|f: String| f@).len() == fields@.len());
        }
    }
    if fields.len() < 6 {
        return None;
    }
    let mut address = fields[2].clone();
    address.append(" ");
    address.append(fields[3].as_str());
    address.append(" ");
    address.append(fields[4].as_str());
    address.append(" ");
    address.append(fields[5].as_str());
    let rec = Record {
        routing_number: fields[0].clone(),
        name: fields[1].clone(),
        address,
        state: fields[5].clone(),
    };
    proof {
        let f = split_commas(line@);
        assert(fields@.map_values(|g: String| g@)[0] == f[0]);
        assert(fields@.map_values(|g: String| g@)[1] == f[1]);
        assert(fields@.map_values(|g: String| g@)[2] == f[2]);
        assert(fields@.map_values(|g: String| g@)[3] == f[3]);
        assert(fields@.map_values(|g: String| g@)[4] == f[4]);
        assert(fields@.map_values(|g: String| g@)[5] == f[5]);
        assert(rec@ =~= parse_line(line@).unwrap());
    }
    Some(rec)
}

} // verus!
