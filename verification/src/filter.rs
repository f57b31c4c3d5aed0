//! The filter engine: checks a list of routing numbers against the database,
//! flags records registered outside the target state, and collects routing
//! numbers without a record into a trailing unknown-entry section.

use vstd::prelude::*;
use vstd::string::StringExecFns;
use crate::database::db_lookup;
use crate::database::Database;
use crate::record::RecordView;

verus! {

/// The output line flagging a record registered outside the target state.
pub open spec fn flagged_line(r: RecordView) -> Seq<char> {
    r.routing_number + ":"@ + r.name + "("@ + r.state + ")"@
}

/// The output line reporting a routing number with no database record.
pub open spec fn unknown_line(rn: Seq<char>) -> Seq<char> {
    rn + ": unknown (not in database.)"@
}

/// An input routing number is flagged when it is present in the database and
/// its registered state differs from the target state.
pub open spec fn is_flagged(db: Seq<RecordView>, rn: Seq<char>, target: Seq<char>) -> bool {
    match db_lookup(db, rn) {
        Some(r) => r.state != target,
        None => false,
    }
}

/// The flagged lines produced for `inputs`, in input order.
pub open spec fn spec_flagged(db: Seq<RecordView>, inputs: Seq<Seq<char>>, target: Seq<char>) -> Seq<
    Seq<char>,
>
    decreases inputs.len(),
{
    if inputs.len() == 0 {
        Seq::empty()
    } else {
        let rest = spec_flagged(db, inputs.drop_last(), target);
        if is_flagged(db, inputs.last(), target) {
            rest.push(flagged_line(db_lookup(db, inputs.last()).unwrap()))
        } else {
            rest
        }
    }
}

/// The unknown-entry lines produced for `inputs`, in input order.
pub open spec fn spec_unknowns(db: Seq<RecordView>, inputs: Seq<Seq<char>>) -> Seq<Seq<char>>
    decreases inputs.len(),
{
    if inputs.len() == 0 {
        Seq::empty()
    } else {
        let rest = spec_unknowns(db, inputs.drop_last());
        if db_lookup(db, inputs.last()) is None {
            rest.push(unknown_line(inputs.last()))
        } else {
            rest
        }
    }
}

/// All lines joined, each terminated by a newline.
pub open spec fn join_lines(lines: Seq<Seq<char>>) -> Seq<char>
    decreases lines.len(),
{
    if lines.len() == 0 {
        Seq::empty()
    } else {
        join_lines(lines.drop_last()) + lines.last() + "\n"@
    }
}

/// The complete filter output for `inputs`: every flagged line first, then
/// every unknown-entry line, each terminated by a newline.
pub open spec fn spec_report(db: Seq<RecordView>, inputs: Seq<Seq<char>>, target: Seq<char>) -> Seq<
    char,
> {
    join_lines(spec_flagged(db, inputs, target) + spec_unknowns(db, inputs))
}

/// What the filter does with one input routing number.
pub enum LineOutcome {
    /// Present in the database, registered outside the target state: the
    /// output line to write at once.
    Flagged(String),
    /// Present and registered in the target state: nothing to report.
    Clean,
    /// No database record: the line for the trailing unknown-entry section.
    Unknown(String),
}

/// Decides one input routing number against the database.
pub fn process_line(db: &Database, rn: &str, target: &str) -> (r: LineOutcome)
    ensures
        match db_lookup(db@, rn@) {
            Some(rec) => if rec.state != target@ {
                r matches LineOutcome::Flagged(l) && l@ == flagged_line(rec)
            } else {
                r matches LineOutcome::Clean
            },
            None => r matches LineOutcome::Unknown(l) && l@ == unknown_line(rn@),
        },
{
    match db.lookup(rn) {
        Some(bank) => {
            if crate::text::str_eq(bank.state.as_str(), target) {
                LineOutcome::Clean
            } else {
                let mut out = bank.routing_number.clone();
                out.append(":");
                out.append(bank.name.as_str());
                out.append("(");
                out.append(bank.state.as_str());
                out.append(")");
                LineOutcome::Flagged(out)
            }
        },
        None => {
            let mut out = rn.to_owned();
            out.append(": unknown (not in database.)");
            LineOutcome::Unknown(out)
        },
    }
}

/// The filter's two output sections, in the order they are written: flagged
/// lines first, the buffered unknown-entry lines after them.
pub struct FilterOutput {
    pub flagged: Vec<String>,
    pub unknowns: Vec<String>,
}

/// Runs the filter over every input routing number, producing the flagged
/// lines and the unknown-entry lines, each section in input order.
pub fn run_filter(db: &Database, inputs: &Vec<String>, target: &str) -> (out: FilterOutput)
    ensures
        out.flagged@.map_values(|l: String| l@) == spec_flagged(
            db@,
            inputs@.map_values(|l: String| l@),
            target@,
        ),
        out.unknowns@.map_values(|l: String| l@) == spec_unknowns(
            db@,
            inputs@.map_values(|l: String| l@),
        ),
{
    let ghost iv = inputs@.map_values(|l: String| l@);
    let mut flagged: Vec<String> = Vec::new();
    let mut unknowns: Vec<String> = Vec::new();
    proof {
        assert(iv.subrange(0, 0) =~= Seq::<Seq<char>>::empty());
        assert(flagged@.map_values(|l: String| l@) =~= spec_flagged(db@, iv.subrange(0, 0), target@));
        assert(unknowns@.map_values(|l: String| l@) =~= spec_unknowns(db@, iv.subrange(0, 0)));
    }
    let mut i: usize = 0;
    while i < inputs.len()
        invariant
            i <= inputs@.len(),
            iv == inputs@.map_values(|l: String| l@),
            iv.len() == inputs@.len(),
            flagged@.map_values(|l: String| l@) == spec_flagged(db@, iv.subrange(0, i as int), target@),
            unknowns@.map_values(|l: String| l@) == spec_unknowns(db@, iv.subrange(0, i as int)),
        decreases inputs@.len() - i,
    {
        let ghost pre = iv.subrange(0, i as int);
        let ghost cur = iv.subrange(0, i + 1);
        proof {
            assert(cur.drop_last() =~= pre);
            assert(cur.last() == iv[i as int]);
            assert(iv[i as int] == inputs@[i as int]@);
        }
        match process_line(db, inputs[i].as_str(), target) {
            LineOutcome::Flagged(l) => {
                flagged.push(l);
                proof {
                    assert(flagged@.map_values(|g: String| g@) =~= spec_flagged(db@, cur, target@));
                }
            },
            LineOutcome::Clean => {},
            LineOutcome::Unknown(l) => {
                unknowns.push(l);
                proof {
                    assert(unknowns@.map_values(|g: String| g@) =~= spec_unknowns(db@, cur));
                }
            },
        }
        i += 1;
    }
    proof {
        assert(iv.subrange(0, iv.len() as int) =~= iv);
    }
    FilterOutput { flagged, unknowns }
}

/// Joins the two output sections into the file's full text: flagged lines
/// first, unknown-entry lines after them, one newline after each line.
pub fn render_output(out: &FilterOutput) -> (s: String)
    ensures
        s@ == join_lines(
            out.flagged@.map_values(|l: String| l@) + out.unknowns@.map_values(|l: String| l@),
        ),
{
    let ghost fv = out.flagged@.map_values(|l: String| l@);
    let ghost uv = out.unknowns@.map_values(|l: String| l@);
    let mut s = String::new();
    proof {
        assert(fv.subrange(0, 0) =~= Seq::<Seq<char>>::empty());
    }
    let mut i: usize = 0;
    while i < out.flagged.len()
        invariant
            i <= out.flagged@.len(),
            fv == out.flagged@.map_values(|l: String| l@),
            fv.len() == out.flagged@.len(),
            s@ == join_lines(fv.subrange(0, i as int)),
        decreases out.flagged@.len() - i,
    {
        proof {
            assert(fv.subrange(0, i + 1).drop_last() =~= fv.subrange(0, i as int));
            assert(fv.subrange(0, i + 1).last() == out.flagged@[i as int]@);
        }
        s.append(out.flagged[i].as_str());
        s.append("\n");
        i += 1;
    }
    proof {
        assert(fv.subrange(0, fv.len() as int) =~= fv);
        assert((fv + uv.subrange(0, 0)) =~= fv);
    }
    let mut j: usize = 0;
    while j < out.unknowns.len()
        invariant
            j <= out.unknowns@.len(),
            fv == out.flagged@.map_values(|l: String| l@),
            uv == out.unknowns@.map_values(|l: String| l@),
            uv.len() == out.unknowns@.len(),
            s@ == join_lines(fv + uv.subrange(0, j as int)),
        decreases out.unknowns@.len() - j,
    {
        proof {
            assert((fv + uv.subrange(0, j + 1)).drop_last() =~= fv + uv.subrange(0, j as int));
            assert((fv + uv.subrange(0, j + 1)).last() == out.unknowns@[j as int]@);
        }
        s.append(out.unknowns[j].as_str());
        s.append("\n");
        j += 1;
    }
    proof {
        assert((fv + uv.subrange(0, uv.len() as int)) =~= fv + uv);
    }
    s
}

/// The predicate selecting the inputs that the filter flags.
pub open spec fn flagged_pred(db: Seq<RecordView>, target: Seq<char>) -> spec_fn(Seq<char>) -> bool {
    |rn: Seq<char>| is_flagged(db, rn, target)
}

/// The line written for a flagged input.
pub open spec fn flagged_line_of(db: Seq<RecordView>) -> spec_fn(Seq<char>) -> Seq<char> {
    |rn: Seq<char>| flagged_line(db_lookup(db, rn).unwrap())
}

/// The predicate selecting the inputs with no database record.
pub open spec fn unknown_pred(db: Seq<RecordView>) -> spec_fn(Seq<char>) -> bool {
    |rn: Seq<char>| db_lookup(db, rn) is None
}

/// The line written for an unknown input.
pub open spec fn unknown_line_fn() -> spec_fn(Seq<char>) -> Seq<char> {
    |rn: Seq<char>| unknown_line(rn)
}

/// The flagged section is exactly the flagged inputs, in input order, one
/// line each: every input present in the database with a state different
/// from the target contributes exactly one line per occurrence, and an input
/// whose record matches the target state, or that has no record, contributes
/// none.
pub proof fn lemma_flagged_characterization(
    db: Seq<RecordView>,
    inputs: Seq<Seq<char>>,
    target: Seq<char>,
)
    ensures
        spec_flagged(db, inputs, target) == inputs.filter(flagged_pred(db, target)).map_values(
            flagged_line_of(db),
        ),
    decreases inputs.len(),
{
    reveal(Seq::filter);
    let pred = flagged_pred(db, target);
    let line_of = flagged_line_of(db);
    if inputs.len() == 0 {
        assert(inputs.filter(pred).map_values(line_of) =~= Seq::<Seq<char>>::empty());
    } else {
        let pre = inputs.drop_last();
        lemma_flagged_characterization(db, pre, target);
        if pred(inputs.last()) {
            assert(inputs.filter(pred) == pre.filter(pred).push(inputs.last()));
            assert(inputs.filter(pred).map_values(line_of) =~= pre.filter(pred).map_values(
                line_of,
            ).push(line_of(inputs.last())));
        } else {
            assert(inputs.filter(pred) == pre.filter(pred));
        }
    }
}

/// The unknown-entry section is exactly the inputs without a database
/// record, in input order, each rendered by `unknown_line`, so each line
/// carries the input routing number followed by the unknown-entry suffix.
pub proof fn lemma_unknowns_characterization(db: Seq<RecordView>, inputs: Seq<Seq<char>>)
    ensures
        spec_unknowns(db, inputs) == inputs.filter(unknown_pred(db)).map_values(unknown_line_fn()),
    decreases inputs.len(),
{
    reveal(Seq::filter);
    let pred = unknown_pred(db);
    let line_of = unknown_line_fn();
    if inputs.len() == 0 {
        assert(inputs.filter(pred).map_values(line_of) =~= Seq::<Seq<char>>::empty());
    } else {
        let pre = inputs.drop_last();
        lemma_unknowns_characterization(db, pre);
        if pred(inputs.last()) {
            assert(inputs.filter(pred) == pre.filter(pred).push(inputs.last()));
            assert(inputs.filter(pred).map_values(line_of) =~= pre.filter(pred).map_values(
                line_of,
            ).push(line_of(inputs.last())));
        } else {
            assert(inputs.filter(pred) == pre.filter(pred));
        }
    }
}

/// An input whose record is registered in the target state is silently
/// excluded: appending it to the input list changes neither output section.
pub proof fn lemma_matching_state_silent(
    db: Seq<RecordView>,
    inputs: Seq<Seq<char>>,
    target: Seq<char>,
    rn: Seq<char>,
)
    requires
        db_lookup(db, rn) matches Some(r) && r.state == target,
    ensures
        spec_flagged(db, inputs.push(rn), target) == spec_flagged(db, inputs, target),
        spec_unknowns(db, inputs.push(rn)) == spec_unknowns(db, inputs),
{
    assert(inputs.push(rn).drop_last() =~= inputs);
    assert(inputs.push(rn).last() == rn);
}

/// Joining distributes over concatenation, so the report text is the whole
/// flagged section followed by the whole unknown-entry section: every
/// flagged line stands before every unknown-entry line.
pub proof fn lemma_join_lines_append(a: Seq<Seq<char>>, b: Seq<Seq<char>>)
    ensures
        join_lines(a + b) == join_lines(a) + join_lines(b),
    decreases b.len(),
{
    if b.len() == 0 {
        assert(a + b =~= a);
        assert(join_lines(a) + join_lines(b) =~= join_lines(a));
    } else {
        lemma_join_lines_append(a, b.drop_last());
        assert((a + b).drop_last() =~= a + b.drop_last());
        assert((a + b).last() == b.last());
        assert(
            (join_lines(a) + join_lines(b.drop_last())) + b.last() + "\n"@
            =~= join_lines(a) + (join_lines(b.drop_last()) + b.last() + "\n"@)
        );
    }
}

/// The report is the flagged section's text followed by the unknown-entry
/// section's text: unknown entries always form the trailing part of the
/// output, after every flagged line.
pub proof fn lemma_report_structure(db: Seq<RecordView>, inputs: Seq<Seq<char>>, target: Seq<char>)
    ensures
        spec_report(db, inputs, target) == join_lines(spec_flagged(db, inputs, target))
            + join_lines(spec_unknowns(db, inputs)),
{
    lemma_join_lines_append(spec_flagged(db, inputs, target), spec_unknowns(db, inputs));
}

/// The filter is a function of the database, the input list and the target
/// state alone: two runs over identical inputs produce identical output
/// text, character for character.
pub proof fn lemma_report_deterministic(
    db1: Seq<RecordView>,
    db2: Seq<RecordView>,
    inputs1: Seq<Seq<char>>,
    inputs2: Seq<Seq<char>>,
    target1: Seq<char>,
    target2: Seq<char>,
)
    requires
        db1 == db2,
        inputs1 == inputs2,
        target1 == target2,
    ensures
        spec_report(db1, inputs1, target1) == spec_report(db2, inputs2, target2),
{
}

/// Runs the filter and renders the full output text in one call.
pub fn filter_report(db: &Database, inputs: &Vec<String>, target: &str) -> (s: String)
    ensures
        s@ == spec_report(db@, inputs@.map_values(|l: String| l@), target@),
{
    let out = run_filter(db, inputs, target);
    render_output(&out)
}

} // verus!
