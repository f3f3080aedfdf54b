//! Character-level helpers on strings.

use vstd::prelude::*;
use vstd::string::*;

verus! {

/// Relies on `String::push`: the character is appended at the end.
#[verifier::external_body]
pub(crate) fn push_char(s: &mut String, c: char)
    ensures
        final(s)@ == old(s)@.push(c),
{
    s.push(c);
}

/// What `str::to_lowercase` returns for a string.
pub uninterp spec fn lower_of(s: Seq<char>) -> Seq<char>;

/// Relies on `str::to_lowercase`: the result depends on the characters alone.
#[verifier::external_body]
pub(crate) fn lowercase(s: &str) -> (r: String)
    ensures
        r@ == lower_of(s@),
{
    s.to_lowercase()
}

/// Whether two strings hold the same characters.
pub fn same_text(a: &str, b: &str) -> (r: bool)
    ensures
        r == (a@ == b@),
{
    let n = a.unicode_len();
    if n != b.unicode_len() {
        return false;
    }
    let mut i: usize = 0;
    while i < n
        invariant
            n == a@.len(),
            n == b@.len(),
            i <= n,
            forall|j: int| 0 <= j < i ==> a@[j] == b@[j],
        decreases n - i,
    {
        if a.get_char(i) != b.get_char(i) {
            return false;
        }
        i = i + 1;
    }
    assert(a@ =~= b@);
    true
}

/// Substitution applied to one character by `escape`.
pub open spec fn escape_char(c: char) -> Seq<char> {
    if c == '{' {
        seq!['&', '#', '1', '2', '3', ';']
    } else if c == '}' {
        seq!['&', '#', '1', '2', '5', ';']
    } else if c == '*' {
        seq!['\\', '*']
    } else {
        seq![c]
    }
}

/// Every character of `s` replaced by its substitution.
pub open spec fn substituted(s: Seq<char>) -> Seq<char>
    decreases s.len(),
{
    if s.len() == 0 {
        Seq::empty()
    } else {
        substituted(s.drop_last()) + escape_char(s.last())
    }
}

/// The substitutions, then a leading `-` of the result turned into `\-`.
pub open spec fn escaped(s: Seq<char>) -> Seq<char> {
    let r = substituted(s);
    if r.len() > 0 && r[0] == '-' {
        seq!['\\', '-'] + r.drop_first()
    } else {
        r
    }
}

/// Escapes the characters that would otherwise open or close a macro or a
/// bold span, and a leading hyphen.
pub fn escape(s: &str) -> (r: String)
    ensures
        r@ == escaped(s@),
{
    let mut r = String::new();
    for c in it: s.chars()
        invariant
            it.seq() == s@,
            r@ == substituted(s@.take(it.index() as int)),
    {
        proof {
            assert(s@.take(it.index() + 1).drop_last() =~= s@.take(it.index() as int));
            reveal_strlit("&#123;");
            reveal_strlit("&#125;");
            reveal_strlit("\\*");
        }
        if c == '{' {
            r.append("&#123;");
        } else if c == '}' {
            r.append("&#125;");
        } else if c == '*' {
            r.append("\\*");
        } else {
            push_char(&mut r, c);
        }
    }
    proof {
        assert(s@.take(s@.len() as int) =~= s@);
    }
    let n = r.as_str().unicode_len();
    if n > 0 && r.as_str().get_char(0) == '-' {
        let mut out = String::from_str("\\-");
        proof {
            reveal_strlit("\\-");
        }
        out.append(r.as_str().substring_char(1, n));
        proof {
            assert(r@.subrange(1, n as int) =~= r@.drop_first());
        }
        out
    } else {
        r
    }
}

} // verus!
