use vstd::prelude::*;

use crate::error::CoreError;
use crate::text::{byte_len, byte_length, chars_of, lemma_byte_len_concat, lemma_byte_len_quote, quoted};

verus! {

broadcast use vstd::string::group_string_axioms;

/// A lowercase ASCII letter or an ASCII digit.
pub open spec fn is_lower_or_digit(c: char) -> bool {
    ('a' <= c && c <= 'z') || ('0' <= c && c <= '9')
}

/// A character that bucket names may hold.
pub open spec fn bucket_char_ok(c: char) -> bool {
    is_lower_or_digit(c) || c == '.' || c == '-'
}

/// `a` directly followed by `b` occurs in `s`.
pub open spec fn has_pair(s: Seq<char>, a: char, b: char) -> bool {
    exists|i: int| 0 <= i && i + 1 < s.len() && #[trigger] s[i] == a && s[i + 1] == b
}

/// The reason a bucket name is refused, checked in this order, or `None` for a valid name.
pub open spec fn bucket_name_problem(s: Seq<char>) -> Option<Seq<char>> {
    if s.len() == 0 || byte_len(s) > 63 {
        Some("length must be 1-63"@)
    } else if !is_lower_or_digit(s[0]) {
        Some("must start with lowercase letter or digit"@)
    } else if !is_lower_or_digit(s.last()) {
        Some("must end with lowercase letter or digit"@)
    } else if has_pair(s, '.', '.') || has_pair(s, '.', '-') || has_pair(s, '-', '.') {
        Some("cannot have consecutive dots or hyphens with dots"@)
    } else if !(forall|i: int| 0 <= i < s.len() ==> bucket_char_ok(#[trigger] s[i])) {
        Some("only lowercase letters, digits, dots, and hyphens allowed"@)
    } else {
        None
    }
}

/// Whether `v` holds `a` directly followed by `b`.
fn find_pair(v: &Vec<char>, a: char, b: char) -> (found: bool)
    ensures
        found == has_pair(v@, a, b),
{
    let n = v.len();
    if n < 2 {
        return false;
    }
    let mut i: usize = 0;
    while i < n - 1
        invariant
            n == v@.len(),
            n >= 2,
            forall|j: int| 0 <= j < i && j + 1 < n ==> !(#[trigger] v@[j] == a && v@[j + 1] == b),
        decreases n - i,
    {
        if v[i] == a && v[i + 1] == b {
            return true;
        }
        i = i + 1;
    }
    proof {
        if has_pair(v@, a, b) {
            let j = choose|j: int| 0 <= j && j + 1 < v@.len() && #[trigger] v@[j] == a && v@[j + 1] == b;
            assert(j < i);
        }
    }
    false
}

/// A bucket name: 1 to 63 bytes of lowercase letters, digits, dots and hyphens,
/// starting and ending with a letter or digit, with no dot next to a dot or hyphen.
#[derive(Debug, PartialEq, Eq, Hash)]
pub struct BucketName(String);

impl View for BucketName {
    type V = Seq<char>;

    closed spec fn view(&self) -> Seq<char> {
        self.0@
    }
}

impl BucketName {
    #[verifier::type_invariant]
    closed spec fn valid(&self) -> bool {
        bucket_name_problem(self.0@) is None
    }

    /// Checks `name` and makes a bucket name of it.
    #[verifier::loop_isolation(false)]
    pub fn new(name: &str) -> (r: Result<Self, CoreError>)
        ensures
            r is Ok <==> bucket_name_problem(name@) is None,
            r matches Ok(b) ==> b@ == name@,
            r matches Err(e) ==> e matches CoreError::InvalidBucketName(m) && bucket_name_problem(
                name@,
            ) == Some(m@),
    {
        let v = chars_of(name);
        let n = v.len();
        if n == 0 || byte_length(name) > 63 {
            return Err(CoreError::InvalidBucketName(String::from_str("length must be 1-63")));
        }
        let first = v[0];
        if !((first >= 'a' && first <= 'z') || (first >= '0' && first <= '9')) {
            return Err(
                CoreError::InvalidBucketName(
                    String::from_str("must start with lowercase letter or digit"),
                ),
            );
        }
        let last = v[n - 1];
        if !((last >= 'a' && last <= 'z') || (last >= '0' && last <= '9')) {
            return Err(
                CoreError::InvalidBucketName(
                    String::from_str("must end with lowercase letter or digit"),
                ),
            );
        }
        if find_pair(&v, '.', '.') || find_pair(&v, '.', '-') || find_pair(&v, '-', '.') {
            return Err(
                CoreError::InvalidBucketName(
                    String::from_str("cannot have consecutive dots or hyphens with dots"),
                ),
            );
        }
        let mut i: usize = 0;
        while i < n
            invariant
                n == v@.len(),
                v@ == name@,
                i <= n,
                forall|j: int| 0 <= j < i ==> bucket_char_ok(#[trigger] v@[j]),
            decreases n - i,
        {
            let c = v[i];
            assert(c == name@[i as int]);
            if !((c >= 'a' && c <= 'z') || (c >= '0' && c <= '9') || c == '.' || c == '-') {
                return Err(
                    CoreError::InvalidBucketName(
                        String::from_str(
                            "only lowercase letters, digits, dots, and hyphens allowed",
                        ),
                    ),
                );
            }
            i = i + 1;
        }
        Ok(BucketName(String::from_str(name)))
    }

    /// The name as text.
    pub fn as_str(&self) -> (s: &str)
        ensures
            s@ == self@,
    {
        self.0.as_str()
    }

    /// The name as an owned string, as it is displayed.
    pub fn to_string(&self) -> (s: String)
        ensures
            s@ == self@,
    {
        self.0.clone()
    }
}

impl Clone for BucketName {
    fn clone(&self) -> (c: Self)
        ensures
            c@ == self@,
    {
        proof {
            use_type_invariant(self);
        }
        BucketName(self.0.clone())
    }
}

/// The reason an object name is refused, or `None` for a valid name.
pub open spec fn object_name_problem(s: Seq<char>) -> Option<Seq<char>> {
    if s.len() == 0 || byte_len(s) > 1024 {
        Some("length must be 1-1024"@)
    } else {
        None
    }
}

/// An object name: 1 to 1024 bytes.
#[derive(Debug, PartialEq, Eq, Hash)]
pub struct ObjectName(String);

impl View for ObjectName {
    type V = Seq<char>;

    closed spec fn view(&self) -> Seq<char> {
        self.0@
    }
}

impl ObjectName {
    #[verifier::type_invariant]
    closed spec fn valid(&self) -> bool {
        object_name_problem(self.0@) is None
    }

    /// Checks `name` and makes an object name of it.
    pub fn new(name: &str) -> (r: Result<Self, CoreError>)
        ensures
            r is Ok <==> object_name_problem(name@) is None,
            r matches Ok(o) ==> o@ == name@,
            r matches Err(e) ==> e matches CoreError::InvalidObjectName(m) && object_name_problem(
                name@,
            ) == Some(m@),
    {
        if name.is_empty() || byte_length(name) > 1024 {
            return Err(CoreError::InvalidObjectName(String::from_str("length must be 1-1024")));
        }
        Ok(ObjectName(String::from_str(name)))
    }

    /// The name as text.
    pub fn as_str(&self) -> (s: &str)
        ensures
            s@ == self@,
    {
        self.0.as_str()
    }

    /// The name as an owned string, as it is displayed.
    pub fn to_string(&self) -> (s: String)
        ensures
            s@ == self@,
    {
        self.0.clone()
    }
}

impl Clone for ObjectName {
    fn clone(&self) -> (c: Self)
        ensures
            c@ == self@,
    {
        proof {
            use_type_invariant(self);
        }
        ObjectName(self.0.clone())
    }
}

/// `s` without the double quotes at its start.
pub open spec fn strip_leading_quotes(s: Seq<char>) -> Seq<char>
    decreases s.len(),
{
    if s.len() > 0 && s[0] == '"' {
        strip_leading_quotes(s.drop_first())
    } else {
        s
    }
}

/// `s` without the double quotes at its end.
pub open spec fn strip_trailing_quotes(s: Seq<char>) -> Seq<char>
    decreases s.len(),
{
    if s.len() > 0 && s.last() == '"' {
        strip_trailing_quotes(s.drop_last())
    } else {
        s
    }
}

/// `s` without the double quotes at either end, as `trim_matches('"')` gives it.
pub open spec fn trim_quotes(s: Seq<char>) -> Seq<char> {
    strip_trailing_quotes(strip_leading_quotes(s))
}

/// `s` between double quotes.
pub open spec fn quote(s: Seq<char>) -> Seq<char> {
    seq!['"'] + s + seq!['"']
}

/// The text of the entity tag made of `s`: the quotes around `s` are dropped and
/// the rest, if it is 1 to 64 bytes, is quoted once; `None` when it is not.
pub open spec fn etag_text(s: Seq<char>) -> Option<Seq<char>> {
    let clean = trim_quotes(s);
    if clean.len() == 0 || byte_len(clean) > 64 {
        None
    } else {
        Some(quote(clean))
    }
}

/// An entity tag, kept with the double quotes around it.
#[derive(Debug, Clone, PartialEq, Eq, Hash)]
pub struct ETag(String);

impl View for ETag {
    type V = Seq<char>;

    closed spec fn view(&self) -> Seq<char> {
        self.0@
    }
}

impl ETag {
    /// Drops the double quotes at either end of `etag` and quotes what is left once.
    /// Refused when nothing is left or more than 64 bytes are.
    pub fn new(etag: &str) -> (r: Result<Self, CoreError>)
        ensures
            r is Ok <==> etag_text(etag@) is Some,
            r matches Ok(t) ==> Some(t@) == etag_text(etag@),
            r matches Err(e) ==> e matches CoreError::InvalidMetadata(m) && m@
                == "invalid etag format"@,
    {
        let v = chars_of(etag);
        let n = v.len();
        let mut start: usize = 0;
        proof {
            assert(v@.skip(0) =~= v@);
        }
        while start < n && v[start] == '"'
            invariant
                n == v@.len(),
                v@ == etag@,
                start <= n,
                strip_leading_quotes(v@) == strip_leading_quotes(v@.skip(start as int)),
            decreases n - start,
        {
            assert(v@.skip(start as int).drop_first() =~= v@.skip(start + 1));
            start = start + 1;
        }
        let mut end: usize = n;
        proof {
            assert(v@.subrange(start as int, n as int) =~= v@.skip(start as int));
        }
        while end > start && v[end - 1] == '"'
            invariant
                n == v@.len(),
                v@ == etag@,
                start <= end <= n,
                strip_leading_quotes(v@) == v@.skip(start as int),
                trim_quotes(v@) == strip_trailing_quotes(v@.subrange(start as int, end as int)),
            decreases end,
        {
            assert(v@.subrange(start as int, end as int).drop_last() =~= v@.subrange(
                start as int,
                end - 1,
            ));
            end = end - 1;
        }
        let clean = etag.substring_char(start, end);
        if start == end || byte_length(clean) > 64 {
            return Err(CoreError::InvalidMetadata(String::from_str("invalid etag format")));
        }
        Ok(ETag(quoted(clean)))
    }

    /// Quotes `hash` once, as it is, without checking it.
    pub fn from_hash(hash: &str) -> (t: Self)
        ensures
            t@ == quote(hash@),
    {
        ETag(quoted(hash))
    }

    /// The tag as text, with its quotes.
    pub fn as_str(&self) -> (s: &str)
        ensures
            s@ == self@,
    {
        self.0.as_str()
    }

    /// The tag as an owned string, as it is displayed.
    pub fn to_string(&self) -> (s: String)
        ensures
            s@ == self@,
    {
        self.0.clone()
    }
}

/// Declares `uuid::Uuid`, which `RequestId::as_uuid` hands out.
#[verifier::external_type_specification]
#[verifier::external_body]
pub struct ExUuid(uuid::Uuid);

/// A lowercase hexadecimal digit.
pub open spec fn is_lower_hex(c: char) -> bool {
    ('0' <= c && c <= '9') || ('a' <= c && c <= 'f')
}

/// The hyphenated text of a UUID: 36 characters, lowercase hexadecimal digits in
/// groups of 8, 4, 4, 4 and 12, with hyphens between the groups.
pub open spec fn is_hyphenated_uuid(s: Seq<char>) -> bool {
    &&& s.len() == 36
    &&& forall|i: int|
        0 <= i < 36 ==> if i == 8 || i == 13 || i == 18 || i == 23 {
            #[trigger] s[i] == '-'
        } else {
            is_lower_hex(s[i])
        }
}

/// The marks of a random UUID in its hyphenated text: the version digit is `4`, and
/// the variant digit, which holds the RFC 4122 variant bits `10`, is `8`, `9`, `a` or `b`.
pub open spec fn has_v4_marks(s: Seq<char>) -> bool {
    &&& s.len() == 36
    &&& s[14] == '4'
    &&& (s[19] == '8' || s[19] == '9' || s[19] == 'a' || s[19] == 'b')
}

/// The 128 bits of a UUID of version 4 and of the RFC 4122 variant: bits 76 to 79
/// hold 4, and bits 62 and 63 hold `10`.
pub open spec fn is_v4_bits(v: u128) -> bool {
    &&& (v >> 76u128) & 0xfu128 == 4
    &&& (v >> 62u128) & 0x3u128 == 2
}

/// The lowercase hexadecimal digits, by value.
pub open spec fn hex_digits() -> Seq<char> {
    seq!['0', '1', '2', '3', '4', '5', '6', '7', '8', '9', 'a', 'b', 'c', 'd', 'e', 'f']
}

/// The `i`-th of the 32 hexadecimal digits of `v`, counted from the most significant.
pub open spec fn uuid_nibble(v: u128, i: int) -> u128 {
    (v >> ((4 * (31 - i)) as u128)) & 0xfu128
}

/// Which digit of the 32 stands at position `i` of the hyphenated text.
pub open spec fn text_digit_index(i: int) -> int {
    if i < 8 {
        i
    } else if i < 13 {
        i - 1
    } else if i < 18 {
        i - 2
    } else if i < 23 {
        i - 3
    } else {
        i - 4
    }
}

/// The hyphenated text of the UUID whose bits are `v`, most significant digit first,
/// as uuid's `Display` writes it.
pub open spec fn uuid_hyphenated(v: u128) -> Seq<char> {
    Seq::new(
        36,
        |i: int|
            if i == 8 || i == 13 || i == 18 || i == 23 {
                '-'
            } else {
                hex_digits()[uuid_nibble(v, text_digit_index(i)) as int]
            },
    )
}

/// The `uuid::Uuid` whose bits are `v`, as `uuid::Uuid::from_u128` makes it.
pub uninterp spec fn uuid_of_bits(v: u128) -> uuid::Uuid;

/// Calls `uuid::Uuid::new_v4` and takes its bits with `as_u128`. `new_v4` draws 128
/// random bits, then masks and sets them so that bits 76 to 79 hold 4 and bits 62 and
/// 63 hold `10`; those bits are stated, the rest depends on chance.
#[verifier::external_body]
fn random_uuid_bits() -> (v: u128)
    ensures
        is_v4_bits(v),
{
    uuid::Uuid::new_v4().as_u128()
}

/// Calls `uuid::Uuid::from_u128`, which makes the UUID whose bits, read big-endian,
/// are `v`. Its result is named `uuid_of_bits`.
#[verifier::external_body]
fn uuid_from_bits(v: u128) -> (u: uuid::Uuid)
    ensures
        u == uuid_of_bits(v),
{
    uuid::Uuid::from_u128(v)
}

/// Calls `uuid::Uuid::from_u128` and `to_string` on the result, whose `Display`
/// writes the UUID hyphenated in lowercase hexadecimal, most significant digit first.
#[verifier::external_body]
fn uuid_text(v: u128) -> (s: String)
    ensures
        s@ == uuid_hyphenated(v),
{
    uuid::Uuid::from_u128(v).to_string()
}

/// The hyphenated text of any UUID has the hyphenated shape; that of a UUID of
/// version 4 also carries the marks of version 4.
pub proof fn lemma_uuid_text_shape(v: u128)
    ensures
        is_hyphenated_uuid(uuid_hyphenated(v)),
        is_v4_bits(v) ==> has_v4_marks(uuid_hyphenated(v)),
{
    let s = uuid_hyphenated(v);
    assert forall|i: int| 0 <= i < 36 && !(i == 8 || i == 13 || i == 18 || i == 23) implies is_lower_hex(
        #[trigger] s[i],
    ) by {
        let k = text_digit_index(i);
        let n = uuid_nibble(v, k);
        let sh = (4 * (31 - k)) as u128;
        assert((v >> sh) & 0xfu128 < 16) by (bit_vector);
        assert(n < 16);
    }
    if is_v4_bits(v) {
        assert(uuid_nibble(v, 12) == (v >> 76u128) & 0xfu128);
        assert(uuid_nibble(v, 16) == (v >> 60u128) & 0xfu128);
        assert((v >> 62u128) & 0x3u128 == 2 ==> 8 <= (v >> 60u128) & 0xfu128 <= 11) by (bit_vector);
        assert(text_digit_index(14) == 12);
        assert(text_digit_index(19) == 16);
    }
}

/// The identifier of a version of an object.
#[derive(Debug, Clone, PartialEq, Eq, Hash)]
pub struct VersionId(String);

impl View for VersionId {
    type V = Seq<char>;

    closed spec fn view(&self) -> Seq<char> {
        self.0@
    }
}

impl VersionId {
    /// A fresh identifier: the text of a random UUID of version 4.
    pub fn new() -> (v: Self)
        ensures
            exists|bits: u128| is_v4_bits(bits) && #[trigger] uuid_hyphenated(bits) == v@,
            is_hyphenated_uuid(v@),
            has_v4_marks(v@),
    {
        let bits = random_uuid_bits();
        proof {
            lemma_uuid_text_shape(bits);
        }
        VersionId(uuid_text(bits))
    }

    /// An identifier with the given text, taken as it is.
    pub fn from_string(id: &str) -> (v: Self)
        ensures
            v@ == id@,
    {
        VersionId(String::from_str(id))
    }

    /// The identifier as text.
    pub fn as_str(&self) -> (s: &str)
        ensures
            s@ == self@,
    {
        self.0.as_str()
    }

    /// The identifier as an owned string, as it is displayed.
    pub fn to_string(&self) -> (s: String)
        ensures
            s@ == self@,
    {
        self.0.clone()
    }
}

/// The identifier of a request: a random UUID, held as its 128 bits.
#[derive(Debug, Clone, Copy, PartialEq, Eq, Hash, Structural)]
pub struct RequestId(u128);

impl View for RequestId {
    type V = u128;

    closed spec fn view(&self) -> u128 {
        self.0
    }
}

impl RequestId {
    /// A fresh identifier holding a random UUID of version 4.
    pub fn new() -> (r: Self)
        ensures
            is_v4_bits(r@),
    {
        RequestId(random_uuid_bits())
    }

    /// The UUID that the identifier holds.
    pub fn as_uuid(&self) -> (u: uuid::Uuid)
        ensures
            u == uuid_of_bits(self@),
    {
        uuid_from_bits(self.0)
    }

    /// The identifier as text, as it is displayed: the hyphenated UUID.
    pub fn to_string(&self) -> (s: String)
        ensures
            s@ == uuid_hyphenated(self@),
    {
        uuid_text(self.0)
    }
}

impl Default for RequestId {
    /// A fresh identifier, as `new` makes it.
    fn default() -> (r: Self)
        ensures
            is_v4_bits(r@),
    {
        RequestId::new()
    }
}

/// What `strip_leading_quotes` leaves is empty or starts with another character.
proof fn lemma_strip_leading_shape(s: Seq<char>)
    ensures
        strip_leading_quotes(s).len() <= s.len(),
        strip_leading_quotes(s).len() > 0 ==> strip_leading_quotes(s)[0] != '"',
        strip_leading_quotes(s) == s.skip(s.len() - strip_leading_quotes(s).len()),
    decreases s.len(),
{
    if s.len() > 0 && s[0] == '"' {
        lemma_strip_leading_shape(s.drop_first());
        let r = strip_leading_quotes(s);
        assert(s.drop_first().skip(s.drop_first().len() - r.len()) =~= s.skip(s.len() - r.len()));
    } else {
        assert(s.skip(0) =~= s);
    }
}

/// What `strip_trailing_quotes` leaves is empty or ends with another character, and
/// is a prefix of what it was given.
proof fn lemma_strip_trailing_shape(s: Seq<char>)
    ensures
        strip_trailing_quotes(s).len() <= s.len(),
        strip_trailing_quotes(s).len() > 0 ==> strip_trailing_quotes(s).last() != '"',
        strip_trailing_quotes(s) == s.take(strip_trailing_quotes(s).len() as int),
    decreases s.len(),
{
    if s.len() > 0 && s.last() == '"' {
        lemma_strip_trailing_shape(s.drop_last());
        let r = strip_trailing_quotes(s);
        assert(s.drop_last().take(r.len() as int) =~= s.take(r.len() as int));
    } else {
        assert(s.take(s.len() as int) =~= s);
    }
}

/// What `trim_quotes` leaves, if anything, neither starts nor ends with a double quote.
pub proof fn lemma_trim_quotes_shape(s: Seq<char>)
    ensures
        trim_quotes(s).len() > 0 ==> trim_quotes(s)[0] != '"' && trim_quotes(s).last() != '"',
{
    let l = strip_leading_quotes(s);
    lemma_strip_leading_shape(s);
    lemma_strip_trailing_shape(l);
    let t = trim_quotes(s);
    if t.len() > 0 {
        assert(t[0] == l[0]);
    }
}

/// Quoting text that neither starts nor ends with a double quote, and trimming the
/// quotes again, gives the text back.
proof fn lemma_trim_quote(c: Seq<char>)
    requires
        c.len() > 0,
        c[0] != '"',
        c.last() != '"',
    ensures
        trim_quotes(quote(c)) == c,
{
    let q = quote(c);
    let inner = c + seq!['"'];
    assert(q.drop_first() =~= inner);
    assert(inner[0] == c[0]);
    assert(strip_leading_quotes(inner) == inner);
    assert(strip_leading_quotes(q) == inner);
    assert(inner.drop_last() =~= c);
    assert(strip_trailing_quotes(c) == c);
}

/// The text that `ETag::new` keeps is a fixed point of it: making a tag of a tag's
/// own text gives the same tag back.
pub proof fn lemma_etag_text_idempotent(s: Seq<char>)
    requires
        etag_text(s) is Some,
    ensures
        etag_text(etag_text(s)->0) == etag_text(s),
{
    let c = trim_quotes(s);
    lemma_trim_quotes_shape(s);
    lemma_trim_quote(c);
}

/// `ETag::from_hash` and `ETag::new` agree on a hash of 1 to 64 bytes that neither
/// starts nor ends with a double quote.
pub proof fn lemma_from_hash_agrees_with_new(h: Seq<char>)
    requires
        h.len() > 0,
        h[0] != '"',
        h.last() != '"',
        byte_len(h) <= 64,
    ensures
        etag_text(h) == Some(quote(h)),
{
    assert(strip_leading_quotes(h) == h);
    assert(strip_trailing_quotes(h) == h);
}

/// Every tag text that `ETag::new` makes is a double quote, then 1 to 64 bytes that
/// neither start nor end with a double quote, then a double quote: 3 to 66 bytes in all.
pub proof fn lemma_etag_text_shape(s: Seq<char>)
    requires
        etag_text(s) is Some,
    ensures
        ({
            let t = etag_text(s)->0;
            let inner = trim_quotes(s);
            &&& t == quote(inner)
            &&& t.len() == inner.len() + 2
            &&& t[0] == '"'
            &&& t.last() == '"'
            &&& t.subrange(1, t.len() - 1) == inner
            &&& inner.len() > 0
            &&& inner[0] != '"'
            &&& inner.last() != '"'
            &&& 1 <= byte_len(inner) <= 64
            &&& 3 <= byte_len(t) <= 66
        }),
{
    let inner = trim_quotes(s);
    let t = quote(inner);
    lemma_trim_quotes_shape(s);
    assert(t.subrange(1, t.len() - 1) =~= inner);
    lemma_byte_len_concat(seq!['"'], inner);
    lemma_byte_len_concat(seq!['"'] + inner, seq!['"']);
    lemma_byte_len_quote();
    if inner.len() > 0 {
        lemma_byte_len_concat(seq![inner[0]], inner.drop_first());
        assert(inner =~= seq![inner[0]] + inner.drop_first());
        assert(byte_len(seq![inner[0]]) >= 1) by {
            assert(seq![inner[0]].drop_first() =~= Seq::<char>::empty());
        }
    }
}

/// The rules of bucket names, stated character by character: a name is accepted
/// exactly when it has 1 to 63 bytes, starts and ends with a lowercase ASCII letter or
/// an ASCII digit, holds only lowercase ASCII letters, ASCII digits, dots and hyphens,
/// and has no `..`, `.-` or `-.`.
pub proof fn lemma_bucket_name_rules(s: Seq<char>)
    ensures
        bucket_name_problem(s) is None <==> {
            &&& s.len() >= 1
            &&& byte_len(s) <= 63
            &&& (('a' <= s[0] && s[0] <= 'z') || ('0' <= s[0] && s[0] <= '9'))
            &&& (('a' <= s[s.len() - 1] && s[s.len() - 1] <= 'z') || ('0' <= s[s.len() - 1]
                && s[s.len() - 1] <= '9'))
            &&& forall|i: int|
                0 <= i < s.len() ==> (('a' <= #[trigger] s[i] && s[i] <= 'z') || ('0' <= s[i]
                    && s[i] <= '9') || s[i] == '.' || s[i] == '-')
            &&& forall|i: int|
                0 <= i && i + 1 < s.len() ==> !(#[trigger] s[i] == '.' && s[i + 1] == '.') && !(
                s[i] == '.' && s[i + 1] == '-') && !(s[i] == '-' && s[i + 1] == '.')
        },
{
    if s.len() >= 1 {
        assert(s.last() == s[s.len() - 1]);
        if has_pair(s, '.', '.') {
            let i = choose|i: int| 0 <= i && i + 1 < s.len() && #[trigger] s[i] == '.' && s[i + 1] == '.';
        }
        if has_pair(s, '.', '-') {
            let i = choose|i: int| 0 <= i && i + 1 < s.len() && #[trigger] s[i] == '.' && s[i + 1] == '-';
        }
        if has_pair(s, '-', '.') {
            let i = choose|i: int| 0 <= i && i + 1 < s.len() && #[trigger] s[i] == '-' && s[i + 1] == '.';
        }
    }
}

/// The rule of object names: a name is accepted exactly when it has 1 to 1024 bytes,
/// whatever its characters.
pub proof fn lemma_object_name_rules(s: Seq<char>)
    ensures
        object_name_problem(s) is None <==> (s.len() >= 1 && byte_len(s) <= 1024),
{
}

} // verus!
