//! Quoting of strings handed to the editor's command language.

use vstd::prelude::*;
use vstd::string::StrSliceExecFns;
use vstd::string::StringExecFns;

use crate::text::push_char;

verus! {

/// How one character is written inside a single-quoted Kakoune string: a
/// quote is doubled, everything else stands for itself.
pub open spec fn quote_char(c: char) -> Seq<char> {
    if c == '\'' {
        seq!['\'', '\'']
    } else {
        seq![c]
    }
}

/// The body of a single-quoted Kakoune string.
pub open spec fn editor_escaped(s: Seq<char>) -> Seq<char>
    decreases s.len(),
{
    if s.len() == 0 {
        Seq::empty()
    } else {
        editor_escaped(s.drop_last()) + quote_char(s.last())
    }
}

/// Escape a Kakoune string wrapped into single quotes.
pub fn editor_escape(s: &str) -> (r: String)
    ensures
        r@ == editor_escaped(s@),
{
    let n: usize = s.unicode_len();
    let mut r = String::new();
    proof {
        assert(s@.take(0) =~= Seq::<char>::empty());
    }
    let mut i: usize = 0;
    while i < n
        invariant
            n == s@.len(),
            0 <= i <= n,
            r@ == editor_escaped(s@.take(i as int)),
        decreases n - i,
    {
        let c = s.get_char(i);
        if c == '\'' {
            push_char(&mut r, '\'');
            push_char(&mut r, '\'');
        } else {
            push_char(&mut r, c);
        }
        proof {
            assert(s@.take(i + 1).drop_last() =~= s@.take(i as int));
            assert(r@ =~= editor_escaped(s@.take(i as int)) + quote_char(s@[i as int]));
        }
        i = i + 1;
    }
    proof {
        assert(s@.take(n as int) =~= s@);
    }
    r
}

/// Convert to a Kakoune string by wrapping into quotes and escaping.
pub fn editor_quote(s: &str) -> (r: String)
    ensures
        r@ == "'"@ + editor_escaped(s@) + "'"@,
{
    let mut r: String = "'".to_owned();
    let body = editor_escape(s);
    r.append(body.as_str());
    r.append("'");
    r
}

} // verus!
