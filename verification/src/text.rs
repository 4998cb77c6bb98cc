//! Strings as sequences of characters: ordering, joining, trimming and
//! decoding.

use vstd::prelude::*;
use vstd::std_specs::iter::IteratorSpec;
use vstd::utf8::{decode_utf8, valid_utf8};

verus! {

/// The mathematical value of a string.
pub type Text = Seq<char>;

/// The views of a sequence of strings, in order.
pub open spec fn texts(v: Seq<String>) -> Seq<Text> {
    Seq::new(v.len(), |i: int| v[i]@)
}

/// A copy of `v`.
pub fn copy_all(v: &Vec<String>) -> (out: Vec<String>)
    ensures
        texts(out@) == texts(v@),
{
    let mut out: Vec<String> = Vec::new();
    let mut i: usize = 0;
    while i < v.len()
        invariant
            0 <= i <= v.len(),
            out@.len() == i,
            forall|j: int| 0 <= j < i ==> (#[trigger] out@[j])@ == v@[j]@,
        decreases v.len() - i,
    {
        out.push(v[i].clone());
        i = i + 1;
    }
    proof {
        assert(texts(out@) =~= texts(v@));
    }
    out
}

/// Strict lexicographic order on texts, character by character, each
/// character ranked by its code point. The empty text comes first.
pub open spec fn lex_lt(a: Text, b: Text) -> bool
    decreases a.len(),
{
    if b.len() == 0 {
        false
    } else if a.len() == 0 {
        true
    } else if a[0] != b[0] {
        a[0] < b[0]
    } else {
        lex_lt(a.drop_first(), b.drop_first())
    }
}

/// No text sorts before itself.
pub proof fn lemma_lex_irreflexive(a: Text)
    ensures
        !lex_lt(a, a),
    decreases a.len(),
{
    if a.len() > 0 {
        lemma_lex_irreflexive(a.drop_first());
    }
}

/// The order is transitive.
pub proof fn lemma_lex_transitive(a: Text, b: Text, c: Text)
    requires
        lex_lt(a, b),
        lex_lt(b, c),
    ensures
        lex_lt(a, c),
    decreases a.len(),
{
    if a.len() > 0 && a[0] == b[0] && b[0] == c[0] {
        lemma_lex_transitive(a.drop_first(), b.drop_first(), c.drop_first());
    }
}

/// Any two different texts are ordered one way or the other.
pub proof fn lemma_lex_total(a: Text, b: Text)
    ensures
        a == b || lex_lt(a, b) || lex_lt(b, a),
    decreases a.len(),
{
    if a.len() == 0 || b.len() == 0 {
        if a.len() == 0 && b.len() == 0 {
            assert(a =~= b);
        }
    } else if a[0] == b[0] {
        lemma_lex_total(a.drop_first(), b.drop_first());
        if a.drop_first() == b.drop_first() {
            assert(a =~= seq![a[0]] + a.drop_first());
            assert(b =~= seq![b[0]] + b.drop_first());
        }
    }
}

/// The order never holds in both directions.
pub proof fn lemma_lex_asymmetric(a: Text, b: Text)
    requires
        lex_lt(a, b),
    ensures
        !lex_lt(b, a),
{
    if lex_lt(b, a) {
        lemma_lex_transitive(a, b, a);
        lemma_lex_irreflexive(a);
    }
}

/// Whether `a` sorts strictly before `b`.
pub fn precedes(a: &str, b: &str) -> (r: bool)
    ensures
        r == lex_lt(a@, b@),
{
    let mut xs = a.chars();
    let mut ys = b.chars();
    let ghost mut seen: int = 0;
    loop
        invariant
            0 <= seen <= a@.len(),
            xs.remaining().len() == a@.len() - seen,
            lex_lt(a@, b@) == lex_lt(xs.remaining(), ys.remaining()),
        decreases a@.len() - seen,
    {
        let x = xs.next();
        let y = ys.next();
        match (x, y) {
            (_, None) => {
                return false;
            },
            (None, Some(_)) => {
                return true;
            },
            (Some(c), Some(d)) => {
                if c != d {
                    return c < d;
                }
                proof {
                    seen = seen + 1;
                }
            },
        }
    }
}

/// `lines` joined into one text with a line feed between neighbours, and none
/// at either end.
pub open spec fn join_lines(lines: Seq<Text>) -> Text
    decreases lines.len(),
{
    if lines.len() == 0 {
        Seq::empty()
    } else if lines.len() == 1 {
        lines[0]
    } else {
        join_lines(lines.drop_last()) + seq!['\n'] + lines.last()
    }
}

/// Joins `lines` with line feeds.
pub fn join(lines: &Vec<String>) -> (out: String)
    ensures
        out@ == join_lines(texts(lines@)),
{
    let mut out = String::new();
    let mut i: usize = 0;
    while i < lines.len()
        invariant
            0 <= i <= lines.len(),
            out@ == join_lines(texts(lines@).take(i as int)),
        decreases lines.len() - i,
    {
        let ghost before = texts(lines@).take(i as int);
        let ghost after = texts(lines@).take(i + 1);
        proof {
            assert(after.drop_last() =~= before);
            assert(after.last() == lines@[i as int]@);
        }
        if i > 0 {
            proof {
                reveal_strlit("\n");
                assert("\n"@ =~= seq!['\n']);
            }
            out.append("\n");
        } else {
            proof {
                assert(out@ =~= Seq::<char>::empty());
                assert(Seq::<char>::empty() + lines@[0]@ =~= lines@[0]@);
            }
        }
        out.append(lines[i].as_str());
        i = i + 1;
    }
    proof {
        assert(texts(lines@).take(lines.len() as int) =~= texts(lines@));
    }
    out
}

/// Whether a character has the Unicode property White_Space, as the standard
/// library's `char::is_whitespace` decides it.
pub uninterp spec fn white_space(c: char) -> bool;

/// Calls `char::is_whitespace`. Trusted: the result is the White_Space
/// property of the character.
#[verifier::external_body]
fn is_whitespace(c: char) -> (r: bool)
    ensures
        r == white_space(c),
{
    c.is_whitespace()
}

/// How many whitespace characters stand at the start of `s`.
pub open spec fn leading_space(s: Text) -> nat
    decreases s.len(),
{
    if s.len() > 0 && white_space(s[0]) {
        1 + leading_space(s.drop_first())
    } else {
        0
    }
}

/// How many whitespace characters stand at the end of `s`.
pub open spec fn trailing_space(s: Text) -> nat
    decreases s.len(),
{
    if s.len() > 0 && white_space(s.last()) {
        1 + trailing_space(s.drop_last())
    } else {
        0
    }
}

/// `s` without its leading and trailing whitespace.
pub open spec fn trimmed(s: Text) -> Text {
    if leading_space(s) == s.len() {
        Seq::empty()
    } else {
        s.subrange(leading_space(s) as int, s.len() - trailing_space(s))
    }
}

/// The leading whitespace of `s` ends at the first character that is none.
pub proof fn lemma_leading_space(s: Text, k: int)
    requires
        0 <= k <= s.len(),
        forall|j: int| 0 <= j < k ==> white_space(#[trigger] s[j]),
        k < s.len() ==> !white_space(s[k]),
    ensures
        leading_space(s) == k,
    decreases k,
{
    if k > 0 {
        let t = s.drop_first();
        assert forall|j: int| 0 <= j < k - 1 implies white_space(#[trigger] t[j]) by {
            assert(t[j] == s[j + 1]);
        }
        lemma_leading_space(t, k - 1);
    }
}

/// The trailing whitespace of `s` starts behind the last character that is
/// none.
pub proof fn lemma_trailing_space(s: Text, e: int)
    requires
        0 <= e <= s.len(),
        forall|j: int| e <= j < s.len() ==> white_space(#[trigger] s[j]),
        e > 0 ==> !white_space(s[e - 1]),
    ensures
        trailing_space(s) == s.len() - e,
    decreases s.len() - e,
{
    if e < s.len() {
        let t = s.drop_last();
        assert forall|j: int| e <= j < t.len() implies white_space(#[trigger] t[j]) by {
            assert(t[j] == s[j]);
        }
        lemma_trailing_space(t, e);
    }
}

/// A text that neither starts nor ends with whitespace is its own trimmed
/// form.
pub proof fn lemma_trimmed_fixed(s: Text)
    requires
        s.len() > 0 ==> !white_space(s[0]) && !white_space(s.last()),
    ensures
        trimmed(s) == s,
{
    if s.len() > 0 {
        assert(s.subrange(0, s.len() as int) =~= s);
    } else {
        assert(s =~= Seq::empty());
    }
}

/// `s` without its leading and trailing whitespace.
pub fn trim(s: &str) -> (r: String)
    ensures
        r@ == trimmed(s@),
{
    let n = s.unicode_len();
    let mut rest = s.chars();
    let mut i: usize = 0;
    let mut from: usize = 0;
    let mut to: usize = 0;
    let mut leading = true;
    while i < n
        invariant
            n == s@.len(),
            0 <= i <= n,
            rest.remaining() == s@.skip(i as int),
            forall|j: int| 0 <= j < from ==> white_space(#[trigger] s@[j]),
            leading ==> from == i && to == 0,
            !leading ==> from < to <= i && !white_space(s@[from as int]) && !white_space(
                s@[to - 1],
            ),
            forall|j: int| to <= j < i ==> white_space(#[trigger] s@[j]),
        decreases n - i,
    {
        let next = rest.next();
        proof {
            assert(s@.skip(i as int)[0] == s@[i as int]);
            assert(s@.skip(i as int).drop_first() =~= s@.skip(i + 1));
        }
        match next {
            Some(c) => {
                if !is_whitespace(c) {
                    leading = false;
                    to = i + 1;
                } else if leading {
                    from = i + 1;
                }
            },
            None => {},
        }
        i = i + 1;
    }
    proof {
        lemma_leading_space(s@, from as int);
        lemma_trailing_space(s@, to as int);
    }
    if leading {
        String::new()
    } else {
        s.substring_char(from, to).to_owned()
    }
}

/// The text that `bytes` encode in UTF-8, if they encode one.
pub open spec fn decoded(bytes: Seq<u8>) -> Option<Text> {
    if valid_utf8(bytes) {
        Some(decode_utf8(bytes))
    } else {
        None
    }
}

/// Calls `String::from_utf8`. Trusted: the bytes decode exactly when they are
/// valid UTF-8, and then to the text that they encode.
#[verifier::external_body]
pub(crate) fn string_from_utf8(bytes: Vec<u8>) -> (r: Option<String>)
    ensures
        r is Some <==> decoded(bytes@) is Some,
        r matches Some(s) ==> decoded(bytes@) == Some(s@),
{
    String::from_utf8(bytes).ok()
}

} // verus!
