use vstd::prelude::*;
use vstd::string::StrSliceExecFns;
use vstd::string::StringExecFns;

verus! {

/// `needle` stands somewhere in `hay`, character for character.
pub open spec fn contains_text(hay: Seq<char>, needle: Seq<char>) -> bool {
    exists|i: int|
        0 <= i && i + needle.len() <= hay.len() && #[trigger] hay.subrange(
            i,
            i + needle.len(),
        ) == needle
}

/// `a` comes before `b` where strings are compared character by character, by
/// code point, a proper prefix coming before what it is a prefix of.
pub open spec fn text_before(a: Seq<char>, b: Seq<char>) -> bool
    decreases a.len(),
{
    if b.len() == 0 {
        false
    } else if a.len() == 0 {
        true
    } else if a[0] != b[0] {
        (a[0] as u32) < (b[0] as u32)
    } else {
        text_before(a.drop_first(), b.drop_first())
    }
}

/// Of two strings at most one comes before the other.
pub proof fn lemma_text_before_asymmetric(a: Seq<char>, b: Seq<char>)
    ensures
        text_before(a, b) ==> !text_before(b, a),
    decreases a.len(),
{
    if a.len() > 0 && b.len() > 0 && a[0] == b[0] {
        lemma_text_before_asymmetric(a.drop_first(), b.drop_first());
    }
}

/// `str::contains` of std, with a string as the pattern: whether the pattern
/// matches a part of the string.
#[verifier::external_body]
pub(crate) fn str_contains(hay: &str, needle: &str) -> (found: bool)
    ensures
        found == contains_text(hay@, needle@),
{
    hay.contains(needle)
}

/// `<` of std on strings: they are ordered lexicographically by their bytes,
/// which orders them by code point.
#[verifier::external_body]
pub(crate) fn str_before(a: &str, b: &str) -> (before: bool)
    ensures
        before == text_before(a@, b@),
{
    a < b
}

/// The prefix by which Windows marks a verbatim path: two backslashes, a
/// question mark and a backslash.
pub open spec fn verbatim_prefix() -> Seq<char> {
    seq!['\\', '\\', '?', '\\']
}

/// `path` without the verbatim prefix, where it begins with one.
pub open spec fn strip_verbatim(path: Seq<char>) -> Seq<char> {
    if path.len() >= 4 && path.take(4) == verbatim_prefix() {
        path.skip(4)
    } else {
        path
    }
}

/// A copy of `path` without the verbatim prefix, where it begins with one.
pub fn without_verbatim_prefix(path: &str) -> (out: String)
    ensures
        out@ == strip_verbatim(path@),
{
    let n: usize = path.unicode_len();
    if n >= 4 && path.get_char(0) == '\\' && path.get_char(1) == '\\' && path.get_char(2) == '?'
        && path.get_char(3) == '\\' {
        proof {
            assert(path@.take(4) =~= verbatim_prefix());
            assert(path@.subrange(4, n as int) =~= path@.skip(4));
        }
        String::from_str(path.substring_char(4, n))
    } else {
        proof {
            if n >= 4 {
                assert(path@.take(4)[0] == path@[0]);
                assert(path@.take(4)[1] == path@[1]);
                assert(path@.take(4)[2] == path@[2]);
                assert(path@.take(4)[3] == path@[3]);
            }
        }
        String::from_str(path)
    }
}

/// The three characters that sum up the permissions: `r` where the read-only
/// bit is set and a space where it is not, then `w` and `x`.
pub open spec fn permission_flags(readonly: bool) -> Seq<char> {
    seq![if readonly { 'r' } else { ' ' }, 'w', 'x']
}

/// The permission summary as a string.
pub fn permission_string(readonly: bool) -> (out: String)
    ensures
        out@ == permission_flags(readonly),
{
    let mut out = String::new();
    out.push(if readonly { 'r' } else { ' ' });
    out.push('w');
    out.push('x');
    proof {
        assert(out@ =~= permission_flags(readonly));
    }
    out
}

} // verus!
