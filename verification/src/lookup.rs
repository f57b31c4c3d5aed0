//! Single-record lookup: a linear scan over the raw database lines that
//! stops at the first line whose key field matches, without building the
//! full database.

use vstd::prelude::*;
use vstd::string::StringExecFns;
use crate::database::LoadError;
use crate::text::split_commas;
use crate::text::split_fields;
use crate::text::str_eq;

verus! {

/// The summary printed for a found record: name, the first three address
/// columns space-joined, then the state column.
pub open spec fn found_message(rn: Seq<char>, f: Seq<Seq<char>>) -> Seq<char> {
    rn + ": "@ + f[1] + ", "@ + f[2] + " "@ + f[3] + " "@ + f[4] + " "@ + f[5]
}

/// The message printed when no line bears the routing number.
pub open spec fn not_found_message(rn: Seq<char>) -> Seq<char> {
    "Unable to locate routing number ("@ + rn + ") in database."@
}

/// Line `k` is the first whose leading comma-separated field is `rn`.
pub open spec fn first_match_at(lines: Seq<Seq<char>>, rn: Seq<char>, k: int) -> bool {
    &&& 0 <= k < lines.len()
    &&& split_commas(lines[k])[0] == rn
    &&& forall|j: int| 0 <= j < k ==> split_commas(#[trigger] lines[j])[0] != rn
}

/// Scans the database lines for the first one keyed by `rn`. Returns the
/// formatted summary of that line, the not-found message when no line
/// matches, and an error exactly when the first matching line has fewer than
/// six fields.
pub fn single_lookup(lines: &Vec<String>, rn: &str) -> (r: Result<String, LoadError>)
    ensures
        r matches Ok(msg) ==> {
            ||| exists|k: int|
                {
                    &&& first_match_at(lines@.map_values(|l: String| l@), rn@, k)
                    &&& (#[trigger] split_commas(lines@[k]@)).len() >= 6
                    &&& msg@ == found_message(rn@, split_commas(lines@[k]@))
                }
            ||| {
                &&& forall|j: int|
                    0 <= j < lines@.len() ==> split_commas(#[trigger] lines@[j]@)[0] != rn@
                &&& msg@ == not_found_message(rn@)
            }
        },
        r matches Err(e) ==> {
            &&& first_match_at(lines@.map_values(|l: String| l@), rn@, e.line as int)
            &&& split_commas(lines@[e.line as int]@).len() < 6
        },
{
    let ghost lv = lines@.map_values(|l: String| l@);
    let mut i: usize = 0;
    while i < lines.len()
        invariant
            i <= lines@.len(),
            lv == lines@.map_values(|l: String| l@),
            lv.len() == lines@.len(),
            forall|j: int| 0 <= j < i ==> split_commas(#[trigger] lv[j])[0] != rn@,
        decreases lines@.len() - i,
    {
        proof {
            assert(lv[i as int] == lines@[i as int]@);
        }
        let fields = split_fields(lines[i].as_str());
        proof {
            assert(fields@.len() == split_commas(lv[i as int]).len()) by {
                assert(fields@.map_values(|f: String| f@).len() == fields@.len());
            }
            crate::text::lemma_split_commas_len(lv[i as int]);
            assert(fields@[0]@ == split_commas(lv[i as int])[0]);
        }
        if str_eq(fields[0].as_str(), rn) {
            if fields.len() < 6 {
                proof {
                    assert(first_match_at(lv, rn@, i as int));
                }
                return Err(LoadError { line: i });
            }
            proof {
                assert(first_match_at(lv, rn@, i as int));
                assert(fields@[1]@ == split_commas(lv[i as int])[1]);
                assert(fields@[2]@ == split_commas(lv[i as int])[2]);
                assert(fields@[3]@ == split_commas(lv[i as int])[3]);
                assert(fields@[4]@ == split_commas(lv[i as int])[4]);
                assert(fields@[5]@ == split_commas(lv[i as int])[5]);
            }
            let mut msg = rn.to_owned();
            msg.append(": ");
            msg.append(fields[1].as_str());
            msg.append(", ");
            msg.append(fields[2].as_str());
            msg.append(" ");
            msg.append(fields[3].as_str());
            msg.append(" ");
            msg.append(fields[4].as_str());
            msg.append(" ");
            msg.append(fields[5].as_str());
            return Ok(msg);
        }
        i += 1;
    }
    proof {
        assert forall|j: int| 0 <= j < lines@.len() implies split_commas(
            #[trigger] lines@[j]@,
        )[0] != rn@ by {
            assert(lv[j] == lines@[j]@);
        }
    }
    let mut msg = String::from_str("Unable to locate routing number (");
    msg.append(rn);
    msg.append(") in database.");
    Ok(msg)
}

} // verus!
