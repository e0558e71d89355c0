//! Verified text helpers: equality, prefix tests, suffix extraction, and a
//! lexicographic order on character sequences used to sort work deterministically.
use vstd::prelude::*;
use vstd::string::StrSliceExecFns;

verus! {

/// Strict lexicographic order on character sequences, by code point.
pub open spec fn chars_lt(a: Seq<char>, b: Seq<char>) -> bool
    decreases a.len(),
{
    if b.len() == 0 {
        false
    } else if a.len() == 0 {
        true
    } else if a[0] != b[0] {
        a[0] < b[0]
    } else {
        chars_lt(a.drop_first(), b.drop_first())
    }
}

/// `p` is a prefix of `s`.
pub open spec fn has_prefix(s: Seq<char>, p: Seq<char>) -> bool {
    s.len() >= p.len() && s.subrange(0, p.len() as int) == p
}

pub proof fn lemma_chars_lt_asymmetric(a: Seq<char>, b: Seq<char>)
    requires
        chars_lt(a, b),
    ensures
        !chars_lt(b, a),
    decreases a.len(),
{
    if b.len() == 0 {
    } else if a.len() == 0 {
    } else if a[0] != b[0] {
    } else {
        lemma_chars_lt_asymmetric(a.drop_first(), b.drop_first());
    }
}

pub proof fn lemma_chars_lt_connected(a: Seq<char>, b: Seq<char>)
    requires
        !chars_lt(a, b),
        !chars_lt(b, a),
    ensures
        a == b,
    decreases a.len(),
{
    if b.len() == 0 {
        assert(a.len() == 0);
        assert(a =~= b);
    } else if a.len() == 0 {
    } else {
        assert(a[0] == b[0]);
        lemma_chars_lt_connected(a.drop_first(), b.drop_first());
        assert(a =~= seq![a[0]] + a.drop_first());
        assert(b =~= seq![b[0]] + b.drop_first());
    }
}

pub proof fn lemma_chars_lt_transitive(a: Seq<char>, b: Seq<char>, c: Seq<char>)
    requires
        chars_lt(a, b),
        chars_lt(b, c),
    ensures
        chars_lt(a, c),
    decreases a.len() + b.len() + c.len(),
{
    if c.len() == 0 {
    } else if b.len() == 0 {
    } else if a.len() == 0 {
    } else {
        if a[0] == b[0] && b[0] == c[0] {
            lemma_chars_lt_transitive(a.drop_first(), b.drop_first(), c.drop_first());
        }
    }
}

/// Character-for-character equality of two string slices.
pub fn str_eq(a: &str, b: &str) -> (r: bool)
    ensures
        r <==> a@ =~= b@,
    decreases a@.len(),
{
    let a_len = a.unicode_len();
    let b_len = b.unicode_len();
    if a_len != b_len {
        return false;
    }
    if a_len == 0 {
        assert(a@ =~= b@);
        return true;
    }
    if a.get_char(0) != b.get_char(0) {
        assert(a@ != b@);
        return false;
    }
    let a_rest = a.substring_char(1, a_len);
    let b_rest = b.substring_char(1, b_len);
    assert(a_rest@ =~= a@.drop_first());
    assert(b_rest@ =~= b@.drop_first());
    let r = str_eq(a_rest, b_rest);
    proof {
        if a@.drop_first() =~= b@.drop_first() && a@[0] == b@[0] {
            assert(a@ =~= seq![a@[0]] + a@.drop_first());
            assert(b@ =~= seq![b@[0]] + b@.drop_first());
        }
        if a@ =~= b@ {
            assert(a@.drop_first() =~= b@.drop_first());
        }
    }
    r
}

/// Strict lexicographic comparison of two string slices.
pub fn str_lt(a: &str, b: &str) -> (r: bool)
    ensures
        r == chars_lt(a@, b@),
    decreases a@.len(),
{
    let b_len = b.unicode_len();
    if b_len == 0 {
        return false;
    }
    let a_len = a.unicode_len();
    if a_len == 0 {
        return true;
    }
    let ca = a.get_char(0);
    let cb = b.get_char(0);
    if ca != cb {
        return ca < cb;
    }
    let a_rest = a.substring_char(1, a_len);
    let b_rest = b.substring_char(1, b_len);
    assert(a_rest@ =~= a@.drop_first());
    assert(b_rest@ =~= b@.drop_first());
    str_lt(a_rest, b_rest)
}

/// `p` is a prefix of `s`, character for character.
pub fn str_has_prefix(s: &str, p: &str) -> (r: bool)
    ensures
        r == has_prefix(s@, p@),
{
    let s_len = s.unicode_len();
    let p_len = p.unicode_len();
    if p_len > s_len {
        return false;
    }
    let head = s.substring_char(0, p_len);
    str_eq(head, p)
}

/// The characters of `s` from position `from` on, as an owned string.
pub fn str_suffix(s: &str, from: usize) -> (r: String)
    requires
        from <= s@.len(),
    ensures
        r@ == s@.skip(from as int),
{
    let len = s.unicode_len();
    let tail = s.substring_char(from, len);
    assert(tail@ =~= s@.skip(from as int));
    tail.to_owned()
}

} // verus!
