//! The text of a composite value: the texts of its parts between two
//! brackets, with one space between neighbours.

use vstd::prelude::*;
use vstd::string::StringExecFns;

verus! {

/// The texts of the first `n` parts, with one space between neighbours.
pub open spec fn spec_joined(parts: Seq<String>, n: int) -> Seq<char>
    decreases n,
{
    if n <= 0 || n > parts.len() {
        Seq::empty()
    } else if n == 1 {
        parts[0]@
    } else {
        spec_joined(parts, n - 1) + seq![' '] + parts[n - 1]@
    }
}

/// The text of a composite value.
pub open spec fn spec_bracketed(open: Seq<char>, parts: Seq<String>, close: Seq<char>) -> Seq<
    char,
> {
    open + spec_joined(parts, parts.len() as int) + close
}

/// The text of a composite value: the texts of its parts between an opening
/// and a closing bracket, with one space between neighbours.
pub fn bracketed(open: &str, parts: &Vec<String>, close: &str) -> (r: String)
    ensures
        r@ == spec_bracketed(open@, parts@, close@),
{
    let mut out = String::from_str(open);
    let mut i: usize = 0;
    while i < parts.len()
        invariant
            i <= parts@.len(),
            out@ == open@ + spec_joined(parts@, i as int),
        decreases parts@.len() - i,
    {
        if i > 0 {
            out.append(" ");
            proof {
                reveal_strlit(" ");
                assert(" "@ =~= seq![' ']);
            }
        }
        out.append(parts[i].as_str());
        proof {
            assert(out@ =~= open@ + spec_joined(parts@, i + 1));
        }
        i += 1;
    }
    out.append(close);
    proof {
        assert(out@ =~= spec_bracketed(open@, parts@, close@));
    }
    out
}

/// The text of a map's entry: the key's text, a colon, the value's text.
pub fn entry_text(key: &str, value: &str) -> (r: String)
    ensures
        r@ == key@ + seq![':'] + value@,
{
    let mut out = String::from_str(key);
    out.append(":");
    proof {
        reveal_strlit(":");
        assert(":"@ =~= seq![':']);
    }
    out.append(value);
    proof {
        assert(out@ =~= key@ + seq![':'] + value@);
    }
    out
}

} // verus!
