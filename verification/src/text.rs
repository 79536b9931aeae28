use vstd::prelude::*;

verus! {

broadcast use vstd::string::group_string_axioms;

/// The characters of `s`, in order, in a vector.
pub fn chars_of(s: &str) -> (out: Vec<char>)
    ensures
        out@ == s@,
{
    let mut out: Vec<char> = Vec::new();
    let mut it = s.chars();
    loop
        invariant
            vstd::std_specs::iter::IteratorSpec::remaining(&it) == s@.skip(out@.len() as int),
            out@ == s@.take(out@.len() as int),
            out@.len() <= s@.len(),
        ensures
            out@ == s@,
        decreases s@.len() - out@.len(),
    {
        match it.next() {
            Some(c) => {
                out.push(c);
            },
            None => {
                break;
            },
        }
    }
    out
}

/// A string made of `"`, then `inner`, then `"`.
pub fn quoted(inner: &str) -> (out: String)
    ensures
        out@ == seq!['"'] + inner@ + seq!['"'],
{
    let mut out = String::from_str("\"");
    out.append(inner);
    out.append("\"");
    proof { reveal_strlit("\""); }
    out
}


/// Lexicographic order on character sequences by code point: the first
/// differing character decides, and a proper prefix comes first.
pub open spec fn lex_lt(a: Seq<char>, b: Seq<char>) -> bool
    decreases a.len(),
{
    if b.len() == 0 {
        false
    } else if a.len() == 0 {
        true
    } else if a[0] != b[0] {
        (a[0] as int) < (b[0] as int)
    } else {
        lex_lt(a.drop_first(), b.drop_first())
    }
}

/// No sequence comes before itself.
pub proof fn lemma_lex_irreflexive(a: Seq<char>)
    ensures
        !lex_lt(a, a),
    decreases a.len(),
{
    if a.len() > 0 {
        lemma_lex_irreflexive(a.drop_first());
    }
}

/// Of two different sequences exactly one comes first.
pub proof fn lemma_lex_total(a: Seq<char>, b: Seq<char>)
    ensures
        a != b ==> (lex_lt(a, b) || lex_lt(b, a)),
        !(lex_lt(a, b) && lex_lt(b, a)),
    decreases a.len(),
{
    if a.len() > 0 && b.len() > 0 {
        lemma_lex_total(a.drop_first(), b.drop_first());
        if a[0] == b[0] && a != b {
            assert(a =~= seq![a[0]] + a.drop_first());
            assert(b =~= seq![b[0]] + b.drop_first());
        }
    } else if a.len() == 0 && b.len() == 0 {
        assert(a =~= b);
    }
}

/// The order is transitive.
pub proof fn lemma_lex_transitive(a: Seq<char>, b: Seq<char>, c: Seq<char>)
    requires
        lex_lt(a, b),
        lex_lt(b, c),
    ensures
        lex_lt(a, c),
    decreases a.len(),
{
    if a.len() > 0 && b.len() > 0 && c.len() > 0 {
        if a[0] == b[0] && b[0] == c[0] {
            lemma_lex_transitive(a.drop_first(), b.drop_first(), c.drop_first());
        }
    }
}

/// How two strings stand in the order of `lex_lt`.
#[derive(Debug, Clone, Copy, PartialEq, Eq, Structural)]
pub enum KeyOrder {
    Less,
    Equal,
    Greater,
}

/// Compares two strings character by character.
pub fn compare_text(a: &str, b: &str) -> (r: KeyOrder)
    ensures
        (r == KeyOrder::Less) == lex_lt(a@, b@),
        (r == KeyOrder::Equal) == (a@ == b@),
        (r == KeyOrder::Greater) == lex_lt(b@, a@),
{
    let mut ia = a.chars();
    let mut ib = b.chars();
    let ghost mut i: int = 0;
    proof {
        lemma_lex_total(a@, b@);
        assert(a@.skip(0) =~= a@);
    }
    loop
        invariant
            0 <= i <= a@.len(),
            vstd::std_specs::iter::IteratorSpec::remaining(&ia) == a@.skip(i),
            lex_lt(a@, b@) == lex_lt(
                vstd::std_specs::iter::IteratorSpec::remaining(&ia),
                vstd::std_specs::iter::IteratorSpec::remaining(&ib),
            ),
            lex_lt(b@, a@) == lex_lt(
                vstd::std_specs::iter::IteratorSpec::remaining(&ib),
                vstd::std_specs::iter::IteratorSpec::remaining(&ia),
            ),
            (a@ == b@) == (vstd::std_specs::iter::IteratorSpec::remaining(&ia)
                == vstd::std_specs::iter::IteratorSpec::remaining(&ib)),
            !(lex_lt(a@, b@) && lex_lt(b@, a@)),
            a@ != b@ ==> (lex_lt(a@, b@) || lex_lt(b@, a@)),
        decreases a@.len() - i,
    {
        let ghost ra = vstd::std_specs::iter::IteratorSpec::remaining(&ia);
        let ghost rb = vstd::std_specs::iter::IteratorSpec::remaining(&ib);
        let x = ia.next();
        let y = ib.next();
        match (x, y) {
            (None, None) => {
                assert(ra =~= rb);
                return KeyOrder::Equal;
            },
            (None, Some(_)) => {
                return KeyOrder::Less;
            },
            (Some(_), None) => {
                return KeyOrder::Greater;
            },
            (Some(cx), Some(cy)) => {
                if cx != cy {
                    if cx < cy {
                        return KeyOrder::Less;
                    } else {
                        return KeyOrder::Greater;
                    }
                }
                proof {
                    assert(ra.drop_first() =~= a@.skip(i + 1));
                    i = i + 1;
                    assert(ra =~= seq![cx] + ra.drop_first());
                    assert(rb =~= seq![cy] + rb.drop_first());
                }
            },
        }
    }
}


/// The number of bytes that UTF-8 takes for these characters, which is what
/// `str::len` gives.
pub open spec fn byte_len(s: Seq<char>) -> nat {
    vstd::utf8::encode_utf8(s).len()
}

/// An ASCII letter or decimal digit.
pub open spec fn is_ascii_letter_or_digit(c: char) -> bool {
    ('a' <= c && c <= 'z') || ('A' <= c && c <= 'Z') || ('0' <= c && c <= '9')
}

/// Whether Unicode counts the character as alphabetic or numeric, as
/// `char::is_alphanumeric` decides it.
pub uninterp spec fn unicode_alphanumeric(c: char) -> bool;

/// Calls `char::is_alphanumeric`. Its result is named `unicode_alphanumeric`; of
/// ASCII characters, the documentation says that the letters and digits are the
/// alphanumeric ones, and this is stated too. Which other characters count is left
/// to the Unicode tables of std and is not stated.
#[verifier::external_body]
pub fn is_alphanumeric(c: char) -> (r: bool)
    ensures
        r == unicode_alphanumeric(c),
        (c as u32) < 128 ==> (r == is_ascii_letter_or_digit(c)),
{
    c.is_alphanumeric()
}


/// The length of `s` in bytes, as `str::len` gives it.
pub fn byte_length(s: &str) -> (n: usize)
    ensures
        n == byte_len(s@),
{
    s.as_bytes().len()
}

/// The byte length of two sequences joined is the sum of their byte lengths.
pub proof fn lemma_byte_len_concat(a: Seq<char>, b: Seq<char>)
    ensures
        byte_len(a + b) == byte_len(a) + byte_len(b),
    decreases a.len(),
{
    if a.len() == 0 {
        assert(a + b =~= b);
    } else {
        lemma_byte_len_concat(a.drop_first(), b);
        assert((a + b).drop_first() =~= a.drop_first() + b);
        assert((a + b)[0] == a[0]);
    }
}

/// A double quote takes one byte.
pub proof fn lemma_byte_len_quote()
    ensures
        byte_len(seq!['"']) == 1,
{
    let q = seq!['"'];
    assert(q.drop_first() =~= Seq::<char>::empty());
    assert((q[0] as u32) == 34);
    assert(vstd::utf8::has_width_1_encoding(34u32));
    assert(vstd::utf8::encode_scalar(34u32).len() == 1);
    assert(vstd::utf8::encode_utf8(q) == vstd::utf8::encode_scalar(q[0] as u32)
        + vstd::utf8::encode_utf8(q.drop_first()));
    assert(vstd::utf8::encode_utf8(q.drop_first()).len() == 0);
}

} // verus!
