//! Character-level string utilities: equality and splitting on commas.

use vstd::prelude::*;
use vstd::string::StrSliceExecFns;
use vstd::string::StringExecFns;

verus! {

/// The fields of `s` split on commas: the comma-free segments between the
/// commas, empty segments included, as `str::split(',')` produces them.
/// The result always has at least one element; an input without commas
/// yields the single segment `s` itself.
pub open spec fn split_commas(s: Seq<char>) -> Seq<Seq<char>>
    decreases s.len(),
{
    if s.len() == 0 {
        seq![Seq::<char>::empty()]
    } else if s[0] == ',' {
        seq![Seq::<char>::empty()] + split_commas(s.drop_first())
    } else {
        let rest = split_commas(s.drop_first());
        seq![seq![s[0]] + rest[0]] + rest.drop_first()
    }
}

/// Splitting never yields an empty field list.
pub proof fn lemma_split_commas_len(s: Seq<char>)
    ensures
        split_commas(s).len() >= 1,
{
}

/// Splits `s` on commas, proved to produce exactly `split_commas(s@)`.
///
/// The scan runs from the back of the string so that each step matches one
/// unfolding of `split_commas` at the front of the remaining suffix.
pub fn split_fields(s: &str) -> (fields: Vec<String>)
    ensures
        fields@.map_values(|f: String| f@) == split_commas(s@),
{
    let n = s.unicode_len();
    let mut fields: Vec<String> = Vec::new();
    fields.push(String::new());
    proof {
        assert(s@.subrange(n as int, n as int) =~= Seq::<char>::empty());
        assert(fields@.map_values(|f: String| f@) =~= split_commas(s@.subrange(n as int, n as int)));
    }
    let mut i: usize = n;
    while i > 0
        invariant
            i <= n,
            n == s@.len(),
            fields@.map_values(|f: String| f@) == split_commas(s@.subrange(i as int, n as int)),
        decreases i,
    {
        let ghost t = s@.subrange(i as int, n as int);
        let ghost t2 = s@.subrange(i - 1, n as int);
        proof {
            assert(t2 =~= seq![s@[i - 1]] + t);
            assert(t2.drop_first() =~= t);
            assert(fields@.len() == split_commas(t).len()) by {
                assert(fields@.map_values(|f: String| f@).len() == fields@.len());
            }
            lemma_split_commas_len(t);
        }
        let c = s.get_char(i - 1);
        if c == ',' {
            fields.insert(0, String::new());
            proof {
                assert(split_commas(t2) == seq![Seq::<char>::empty()] + split_commas(t));
                assert(fields@.map_values(|f: String| f@) =~= split_commas(t2));
            }
        } else {
            let first = fields.remove(0);
            let piece = s.substring_char(i - 1, i).to_owned();
            let combined = piece.concat(first.as_str());
            fields.insert(0, combined);
            proof {
                assert(s@.subrange(i - 1, i as int) =~= seq![s@[i - 1]]);
                assert(combined@ == seq![t2[0]] + split_commas(t)[0]);
                assert(split_commas(t2) == seq![seq![t2[0]] + split_commas(t)[0]] + split_commas(t).drop_first());
                assert(fields@.map_values(|f: String| f@) =~= split_commas(t2));
            }
        }
        i -= 1;
    }
    proof {
        assert(s@.subrange(0, n as int) =~= s@);
    }
    fields
}

/// Character-by-character string equality, proved against the string views.
pub fn str_eq(a: &str, b: &str) -> (r: bool)
    ensures
        r == (a@ == b@),
{
    let a_len = a.unicode_len();
    let b_len = b.unicode_len();
    if a_len != b_len {
        return false;
    }
    let mut i: usize = 0;
    while i < a_len
        invariant
            i <= a_len,
            a_len == a@.len(),
            a_len == b@.len(),
            forall|j: int| 0 <= j < i ==> a@[j] == b@[j],
        decreases a_len - i,
    {
        if a.get_char(i) != b.get_char(i) {
            return false;
        }
        i += 1;
    }
    proof {
        assert(a@ =~= b@);
    }
    true
}

} // verus!
