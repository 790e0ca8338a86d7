//! Display formulas in chat markdown: a paragraph that is only a formula
//! between `$$` and `$$`, or between `\[` and `\]`.
use vstd::prelude::*;
use crate::text::{chars_of, substring, trim, trim_spec};

verus! {

/// Whether `t` starts and, after that, ends with the two-character delimiters.
pub open spec fn delimited(t: Seq<char>, open: Seq<char>, close: Seq<char>) -> bool {
    t.len() >= 4 && t.subrange(0, 2) == open && t.subrange(t.len() - 2, t.len() as int) == close
}

/// The formula of a paragraph that holds only a display formula: the
/// trimmed text between the delimiters, when it is not empty.
pub open spec fn block_formula_spec(source: Seq<char>) -> Option<Seq<char>> {
    let t = trim_spec(source);
    let body = if delimited(t, seq!['$', '$'], seq!['$', '$']) || delimited(
        t,
        seq!['\\', '['],
        seq!['\\', ']'],
    ) {
        Some(trim_spec(t.subrange(2, t.len() - 2)))
    } else {
        None
    };
    match body {
        Some(b) => if b.len() > 0 {
            Some(b)
        } else {
            None
        },
        None => None,
    }
}

/// The formula of a paragraph that holds only a display formula.
pub fn block_formula(source: &str) -> (r: Option<String>)
    ensures
        match r {
            Some(f) => block_formula_spec(source@) == Some(f@),
            None => block_formula_spec(source@) is None,
        },
{
    let trimmed = trim(source);
    let t = chars_of(trimmed.as_str());
    let n = t.len();
    if n < 4 {
        return None;
    }
    let dollars = t[0] == '$' && t[1] == '$' && t[n - 2] == '$' && t[n - 1] == '$';
    let brackets = t[0] == '\\' && t[1] == '[' && t[n - 2] == '\\' && t[n - 1] == ']';
    proof {
        let head = t@.subrange(0, 2);
        let tail = t@.subrange(n - 2, n as int);
        assert(head[0] == t@[0] && head[1] == t@[1]);
        assert(tail[0] == t@[n - 2] && tail[1] == t@[n - 1]);
        if dollars {
            assert(head =~= seq!['$', '$']);
            assert(tail =~= seq!['$', '$']);
        }
        if brackets {
            assert(head =~= seq!['\\', '[']);
            assert(tail =~= seq!['\\', ']']);
        }
    }
    if !dollars && !brackets {
        return None;
    }
    let inner = substring(&t, 2, n - 2);
    let body = trim(inner.as_str());
    if body.as_str().is_empty() {
        None
    } else {
        Some(body)
    }
}

} // verus!
