//! The reference database: records loaded from comma-separated lines, keyed
//! by routing number with last-write-wins on duplicate keys.

use vstd::prelude::*;
use crate::record::parse_line;
use crate::record::Record;
use crate::record::RecordView;
use crate::text::str_eq;

verus! {

/// A malformed database line: `line` is the index of the first line with
/// fewer than six comma-separated fields.
#[derive(Debug, PartialEq, Eq, Structural, Clone, Copy)]
pub struct LoadError {
    pub line: usize,
}

/// The in-memory database: the records of the reference file, in file order.
#[derive(Debug)]
pub struct Database {
    pub records: Vec<Record>,
}

impl View for Database {
    type V = Seq<RecordView>;

    open spec fn view(&self) -> Seq<RecordView> {
        self.records@.map_values(|r: Record| r@)
    }
}

/// The record a routing number maps to: the last record in `db` whose key is
/// `rn`, so that a later line overwrites an earlier one with the same key.
pub open spec fn db_lookup(db: Seq<RecordView>, rn: Seq<char>) -> Option<RecordView>
    decreases db.len(),
{
    if db.len() == 0 {
        None
    } else if db.last().routing_number == rn {
        Some(db.last())
    } else {
        db_lookup(db.drop_last(), rn)
    }
}

/// `db` is exactly the record sequence that `lines` parses to: every line
/// well-formed, one record per line, in order.
pub open spec fn database_of(lines: Seq<Seq<char>>, db: Seq<RecordView>) -> bool {
    &&& db.len() == lines.len()
    &&& forall|j: int| 0 <= j < lines.len() ==> parse_line(#[trigger] lines[j]) is Some
    &&& forall|j: int| 0 <= j < lines.len() ==> #[trigger] db[j] == parse_line(lines[j]).unwrap()
}

/// Loading is deterministic: two databases built from the same lines hold
/// identical records, and so map every routing number to the same record.
pub proof fn lemma_load_deterministic(lines: Seq<Seq<char>>, db1: Seq<RecordView>, db2: Seq<RecordView>)
    requires
        database_of(lines, db1),
        database_of(lines, db2),
    ensures
        db1 == db2,
        forall|rn: Seq<char>| #[trigger] db_lookup(db1, rn) == db_lookup(db2, rn),
{
    assert(db1 =~= db2);
}

/// Builds the database from the reference file's lines. Succeeds exactly when
/// every line has at least six comma-separated fields; otherwise reports the
/// first malformed line and no database is produced.
pub fn load_database(lines: &Vec<String>) -> (r: Result<Database, LoadError>)
    ensures
        r matches Ok(db) ==> database_of(lines@.map_values(|l: String| l@), db@),
        r matches Err(e) ==> {
            &&& e.line < lines@.len()
            &&& parse_line(lines@[e.line as int]@) is None
            &&& forall|j: int| 0 <= j < e.line ==> parse_line(#[trigger] lines@[j]@) is Some
        },
{
    let mut records: Vec<Record> = Vec::new();
    let mut i: usize = 0;
    while i < lines.len()
        invariant
            i <= lines@.len(),
            records@.len() == i,
            forall|j: int| 0 <= j < i ==> parse_line(#[trigger] lines@[j]@) is Some,
            forall|j: int| 0 <= j < i ==> (#[trigger] records@[j])@ == parse_line(
                lines@[j]@,
            ).unwrap(),
        decreases lines@.len() - i,
    {
        match crate::record::parse_record(lines[i].as_str()) {
            Some(rec) => {
                records.push(rec);
            },
            None => {
                return Err(LoadError { line: i });
            },
        }
        i += 1;
    }
    let db = Database { records };
    proof {
        let spec_lines = lines@.map_values(|l: String| l@);
        assert forall|j: int| 0 <= j < spec_lines.len() implies parse_line(
            #[trigger] spec_lines[j],
        ) is Some by {
            assert(spec_lines[j] == lines@[j]@);
        }
        assert forall|j: int| 0 <= j < spec_lines.len() implies #[trigger] db@[j] == parse_line(
            spec_lines[j],
        ).unwrap() by {
            assert(spec_lines[j] == lines@[j]@);
            assert(db@[j] == records@[j]@);
        }
    }
    Ok(db)
}

impl Database {
    /// Looks a routing number up, returning the record of the last database
    /// line bearing it, exactly as `db_lookup` says.
    pub fn lookup(&self, rn: &str) -> (r: Option<&Record>)
        ensures
            r matches Some(rec) ==> db_lookup(self@, rn@) == Some(rec@),
            r is None ==> db_lookup(self@, rn@) is None,
    {
        proof {
            assert(self@.subrange(0, self@.len() as int) =~= self@);
        }
        let mut i: usize = self.records.len();
        while i > 0
            invariant
                i <= self.records@.len(),
                self@.len() == self.records@.len(),
                db_lookup(self@, rn@) == db_lookup(self@.subrange(0, i as int), rn@),
            decreases i,
        {
            proof {
                assert(self@.subrange(0, i as int).last() == self@[i - 1]);
                assert(self@.subrange(0, i as int).drop_last() =~= self@.subrange(0, i - 1));
            }
            if str_eq(self.records[i - 1].routing_number.as_str(), rn) {
                return Some(&self.records[i - 1]);
            }
            i -= 1;
        }
        proof {
            assert(self@.subrange(0, 0) =~= Seq::<RecordView>::empty());
        }
        None
    }
}

} // verus!
