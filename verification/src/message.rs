//! Assembling the collected values into one message line.

use vstd::prelude::*;
use vstd::string::StringExecFns;

verus! {

/// The character sequences held by a sequence of strings.
pub open spec fn strings_view(parts: Seq<String>) -> Seq<Seq<char>> {
    Seq::new(parts.len(), |i: int| parts[i]@)
}

/// The values joined in order, with exactly one space between neighbours.
/// Empty values keep their place, so an empty value between two others
/// shows as two spaces in a row.
pub open spec fn joined(parts: Seq<Seq<char>>) -> Seq<char>
    decreases parts.len(),
{
    if parts.len() == 0 {
        Seq::empty()
    } else if parts.len() == 1 {
        parts[0]
    } else {
        joined(parts.drop_last()) + seq![' '] + parts.last()
    }
}

/// Joins the strings in order, separated by single spaces.
pub fn join_with_space(parts: &Vec<String>) -> (out: String)
    ensures
        out@ == joined(strings_view(parts@)),
{
    let mut out = String::new();
    let mut i: usize = 0;
    while i < parts.len()
        invariant
            i <= parts.len(),
            out@ == joined(strings_view(parts@).take(i as int)),
        decreases parts.len() - i,
    {
        let ghost all = strings_view(parts@);
        proof {
            reveal_strlit(" ");
            assert(all.take(i + 1).drop_last() =~= all.take(i as int));
            assert(all.take(i + 1).last() == parts[i as int]@);
            assert(" "@ =~= seq![' ']);
        }
        if i > 0 {
            out.append(" ");
        }
        out.append(parts[i].as_str());
        proof {
            if i == 0 {
                assert(out@ =~= parts[0]@);
            }
        }
        i += 1;
    }
    proof {
        let all = strings_view(parts@);
        assert(all.take(parts.len() as int) =~= all);
    }
    out
}

} // verus!
