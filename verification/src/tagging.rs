use vstd::prelude::*;

use crate::kvmap::{entries_to_map, keys_increasing, lemma_entries_value, KeyValueMap};
use crate::text::{byte_len, byte_length, is_alphanumeric, unicode_alphanumeric};

verus! {

/// Why a tag or a tag set was refused.
#[derive(Debug, Clone, PartialEq, Eq)]
pub enum TaggingError {
    /// The set already holds the most tags it may hold.
    TooManyTags,
    /// The key is longer than 128 bytes.
    KeyTooLong(String),
    /// The value is longer than 256 bytes.
    ValueTooLong(String),
    /// The key is empty or holds a character that keys may not hold.
    InvalidKeyFormat,
}

/// The most tags that a tag set holds.
pub const MAX_TAGS: usize = 10;

/// The longest key, in bytes.
pub const MAX_KEY_BYTES: usize = 128;

/// The longest value, in bytes.
pub const MAX_VALUE_BYTES: usize = 256;

/// A key may hold Unicode letters and digits, and these: `- _ . / : + = @` and space.
pub open spec fn key_char_allowed(c: char) -> bool {
    unicode_alphanumeric(c) || c == '-' || c == '_' || c == '.' || c == '/' || c == ':' || c
        == '+' || c == '=' || c == '@' || c == ' '
}

/// Every character of the key is allowed.
pub open spec fn key_chars_allowed(key: Seq<char>) -> bool {
    forall|i: int| 0 <= i < key.len() ==> key_char_allowed(#[trigger] key[i])
}

/// What `Tag::new` gives for a key and a value: the first rule broken decides the error.
pub open spec fn tag_outcome(key: String, value: String) -> Result<Tag, TaggingError> {
    if key@.len() == 0 {
        Err(TaggingError::InvalidKeyFormat)
    } else if byte_len(key@) > 128 {
        Err(TaggingError::KeyTooLong(key))
    } else if byte_len(value@) > 256 {
        Err(TaggingError::ValueTooLong(value))
    } else if !key_chars_allowed(key@) {
        Err(TaggingError::InvalidKeyFormat)
    } else {
        Ok(Tag { key, value })
    }
}

/// A key and a value that `Tag::new` accepts.
pub open spec fn tag_fields_ok(key: Seq<char>, value: Seq<char>) -> bool {
    &&& key.len() > 0
    &&& byte_len(key) <= 128
    &&& byte_len(value) <= 256
    &&& key_chars_allowed(key)
}

/// A tag: a key and its value.
#[derive(Debug, Clone, PartialEq, Eq, PartialOrd, Ord)]
pub struct Tag {
    pub key: String,
    pub value: String,
}

impl Tag {
    /// Checks the key and the value and makes a tag of them.
    pub fn new(key: String, value: String) -> (r: Result<Self, TaggingError>)
        ensures
            r == tag_outcome(key, value),
    {
        if key.as_str().is_empty() {
            return Err(TaggingError::InvalidKeyFormat);
        }
        if byte_length(key.as_str()) > MAX_KEY_BYTES {
            return Err(TaggingError::KeyTooLong(key));
        }
        if byte_length(value.as_str()) > MAX_VALUE_BYTES {
            return Err(TaggingError::ValueTooLong(value));
        }
        let mut valid_chars = true;
        let mut it = key.as_str().chars();
        let ghost mut n: int = 0;
        proof {
            assert(key@.skip(0) =~= key@);
        }
        loop
            invariant
                0 <= n <= key@.len(),
                vstd::std_specs::iter::IteratorSpec::remaining(&it) == key@.skip(n),
                valid_chars == (forall|i: int| 0 <= i < n ==> key_char_allowed(#[trigger] key@[i])),
            ensures
                valid_chars == key_chars_allowed(key@),
            decreases key@.len() - n,
        {
            let ghost rest = vstd::std_specs::iter::IteratorSpec::remaining(&it);
            match it.next() {
                Some(c) => {
                    let ok = is_alphanumeric(c) || c == '-' || c == '_' || c == '.' || c == '/'
                        || c == ':' || c == '+' || c == '=' || c == '@' || c == ' ';
                    proof {
                        assert(key@[n] == c);
                        assert(rest.drop_first() =~= key@.skip(n + 1));
                        n = n + 1;
                    }
                    if !ok {
                        valid_chars = false;
                        break;
                    }
                },
                None => {
                    break;
                },
            }
        }
        if !valid_chars {
            return Err(TaggingError::InvalidKeyFormat);
        }
        Ok(Tag { key, value })
    }
}

/// A map that a tag set may hold: at most ten entries, each a valid tag.
pub open spec fn tag_map_ok(m: Map<Seq<char>, Seq<char>>) -> bool {
    &&& m.dom().finite()
    &&& m.len() <= 10
    &&& forall|k: Seq<char>| #[trigger] m.contains_key(k) ==> tag_fields_ok(k, m[k])
}

/// What `TagSet::insert` answers for a set that holds `m`.
pub open spec fn insert_outcome(m: Map<Seq<char>, Seq<char>>, key: String, value: String) -> Result<
    (),
    TaggingError,
> {
    if m.len() >= 10 {
        Err(TaggingError::TooManyTags)
    } else {
        match tag_outcome(key, value) {
            Ok(_) => Ok(()),
            Err(e) => Err(e),
        }
    }
}

/// What a tag set holds after `TagSet::insert` answered `outcome`.
pub open spec fn insert_effect(
    m: Map<Seq<char>, Seq<char>>,
    key: Seq<char>,
    value: Seq<char>,
    outcome: Result<(), TaggingError>,
) -> Map<Seq<char>, Seq<char>> {
    if outcome is Ok {
        m.insert(key, value)
    } else {
        m
    }
}

/// The checks of `TagSet::validate`: at most ten tags, no key over 128 bytes,
/// no value over 256 bytes.
pub open spec fn tag_map_passes_validation(m: Map<Seq<char>, Seq<char>>) -> bool {
    &&& m.len() <= 10
    &&& forall|k: Seq<char>| #[trigger] m.contains_key(k) ==> byte_len(k) <= 128 && byte_len(m[k]) <= 256
}

/// A set of at most ten tags, each key at most once, kept in key order.
#[derive(Debug, PartialEq, Eq)]
pub struct TagSet {
    tags: KeyValueMap,
}

impl View for TagSet {
    type V = Map<Seq<char>, Seq<char>>;

    closed spec fn view(&self) -> Map<Seq<char>, Seq<char>> {
        self.tags@
    }
}

impl TagSet {
    #[verifier::type_invariant]
    closed spec fn well_formed(&self) -> bool {
        tag_map_ok(self.tags@)
    }

    /// An empty set.
    pub fn new() -> (s: Self)
        ensures
            s@ == Map::<Seq<char>, Seq<char>>::empty(),
    {
        TagSet { tags: KeyValueMap::new() }
    }

    /// An empty set; the capacity asked for is not used.
    pub fn with_capacity(capacity: usize) -> (s: Self)
        ensures
            s@ == Map::<Seq<char>, Seq<char>>::empty(),
    {
        TagSet { tags: KeyValueMap::new() }
    }

    /// Adds a tag, or sets the value of a key that the set holds. Refused when the set
    /// already holds ten tags, whether or not it holds the key, and when the key and
    /// value do not make a valid tag.
    pub fn insert(&mut self, key: String, value: String) -> (r: Result<(), TaggingError>)
        ensures
            r == insert_outcome(old(self)@, key, value),
            final(self)@ == insert_effect(old(self)@, key@, value@, r),
    {
        proof {
            use_type_invariant(&*self);
        }
        if self.tags.len() >= MAX_TAGS {
            return Err(TaggingError::TooManyTags);
        }
        let tag = match Tag::new(key.clone(), value.clone()) {
            Ok(t) => t,
            Err(e) => {
                return Err(e);
            },
        };
        let ghost before = self.tags@;
        let mut tags = KeyValueMap::new();
        std::mem::swap(&mut tags, &mut self.tags);
        let _ = tags.insert(tag.key, tag.value);
        proof {
            let m = tags@;
            assert forall|k: Seq<char>| #[trigger] m.contains_key(k) implies tag_fields_ok(k, m[k]) by {
                if k != key@ {
                    assert(before.contains_key(k));
                }
            }
            if before.contains_key(key@) {
                assert(m =~= before.insert(key@, value@));
                assert(m.dom() =~= before.dom());
            } else {
                assert(m.dom() =~= before.dom().insert(key@));
            }
        }
        self.tags = tags;
        Ok(())
    }

    /// The value of `key`, if the set holds it.
    pub fn get(&self, key: &str) -> (r: Option<&String>)
        ensures
            match r {
                Some(v) => self@.contains_key(key@) && v@ == self@[key@],
                None => !self@.contains_key(key@),
            },
    {
        self.tags.get(key)
    }

    /// Removes `key` and gives back its value, if the set held it.
    pub fn remove(&mut self, key: &str) -> (r: Option<String>)
        ensures
            final(self)@ == old(self)@.remove(key@),
            match r {
                Some(v) => old(self)@.contains_key(key@) && v@ == old(self)@[key@],
                None => !old(self)@.contains_key(key@),
            },
    {
        proof {
            use_type_invariant(&*self);
        }
        let ghost before = self.tags@;
        let mut tags = KeyValueMap::new();
        std::mem::swap(&mut tags, &mut self.tags);
        let r = tags.remove(key);
        proof {
            let m = tags@;
            if before.contains_key(key@) {
                assert(m.dom() =~= before.dom().remove(key@));
            } else {
                assert(m.dom() =~= before.dom());
            }
        }
        self.tags = tags;
        r
    }

    /// The number of tags; never more than ten.
    pub fn len(&self) -> (n: usize)
        ensures
            n == self@.len(),
            n <= 10,
    {
        proof {
            use_type_invariant(self);
        }
        self.tags.len()
    }

    /// Whether the set holds no tag.
    pub fn is_empty(&self) -> (b: bool)
        ensures
            b == (self@.len() == 0),
    {
        self.tags.is_empty()
    }

    /// The tags as (key, value) pairs in increasing key order.
    pub fn iter(&self) -> (out: Vec<(&String, &String)>)
        ensures
            keys_increasing(crate::kvmap::borrowed_entries(out@)),
            entries_to_map(crate::kvmap::borrowed_entries(out@)) == self@,
    {
        self.tags.iter()
    }

    /// Checks the number of tags and the lengths of keys and values. Every set passes,
    /// since no operation lets a set break these rules.
    pub fn validate(&self) -> (r: Result<(), TaggingError>)
        ensures
            r is Ok <==> tag_map_passes_validation(self@),
            r is Ok,
    {
        proof {
            use_type_invariant(self);
        }
        if self.tags.len() > MAX_TAGS {
            return Err(TaggingError::TooManyTags);
        }
        let entries = self.tags.iter();
        let ghost es = crate::kvmap::borrowed_entries(entries@);
        let n = entries.len();
        let mut i: usize = 0;
        while i < n
            invariant
                n == entries@.len(),
                es == crate::kvmap::borrowed_entries(entries@),
                keys_increasing(es),
                entries_to_map(es) == self@,
                tag_map_ok(self@),
                i <= n,
            decreases n - i,
        {
            let (key, value) = entries[i];
            proof {
                assert(es[i as int] == (key@, value@));
                lemma_entries_value(es, i as int);
            }
            if byte_length(key.as_str()) > MAX_KEY_BYTES {
                return Err(TaggingError::KeyTooLong(key.clone()));
            }
            if byte_length(value.as_str()) > MAX_VALUE_BYTES {
                return Err(TaggingError::ValueTooLong(value.clone()));
            }
            i = i + 1;
        }
        Ok(())
    }
}

impl Clone for TagSet {
    fn clone(&self) -> (copy: Self)
        ensures
            copy@ == self@,
    {
        proof {
            use_type_invariant(self);
        }
        TagSet { tags: self.tags.clone() }
    }
}

impl Default for TagSet {
    fn default() -> (s: Self)
        ensures
            s@ == Map::<Seq<char>, Seq<char>>::empty(),
    {
        TagSet::new()
    }
}

/// A successful insert makes the key read back the value it was given.
pub proof fn lemma_insert_then_get(m: Map<Seq<char>, Seq<char>>, key: String, value: String)
    requires
        insert_outcome(m, key, value) is Ok,
    ensures
        insert_effect(m, key@, value@, insert_outcome(m, key, value)).contains_key(key@),
        insert_effect(m, key@, value@, insert_outcome(m, key, value))[key@] == value@,
{
}

/// A refused insert leaves the set as it was; a set of ten tags refuses every insert,
/// even of a key that it holds.
pub proof fn lemma_refused_insert_changes_nothing(
    m: Map<Seq<char>, Seq<char>>,
    key: String,
    value: String,
)
    ensures
        insert_outcome(m, key, value) is Err ==> insert_effect(
            m,
            key@,
            value@,
            insert_outcome(m, key, value),
        ) == m,
        m.len() >= 10 ==> insert_outcome(m, key, value) == Err::<(), TaggingError>(
            TaggingError::TooManyTags,
        ),
{
}

/// Inserting a new key and removing it again gives back the set it started from.
pub proof fn lemma_insert_then_remove(m: Map<Seq<char>, Seq<char>>, key: String, value: String)
    requires
        !m.contains_key(key@),
        insert_outcome(m, key, value) is Ok,
    ensures
        insert_effect(m, key@, value@, insert_outcome(m, key, value)).remove(key@) == m,
{
    assert(m.insert(key@, value@).remove(key@) =~= m);
}

/// Every insert keeps a tag set within its rules: at most ten tags, each a valid tag.
pub proof fn lemma_insert_keeps_rules(m: Map<Seq<char>, Seq<char>>, key: String, value: String)
    requires
        tag_map_ok(m),
    ensures
        tag_map_ok(insert_effect(m, key@, value@, insert_outcome(m, key, value))),
{
    let r = insert_outcome(m, key, value);
    if r is Ok {
        let n = m.insert(key@, value@);
        if m.contains_key(key@) {
            assert(n.dom() =~= m.dom());
        } else {
            assert(n.dom() =~= m.dom().insert(key@));
        }
    }
}

/// A set within its rules passes `validate`.
pub proof fn lemma_rules_imply_validation(m: Map<Seq<char>, Seq<char>>)
    requires
        tag_map_ok(m),
    ensures
        tag_map_passes_validation(m),
{
}

/// The rules of tags, stated directly: a tag is made of its key and value exactly
/// when the key is not empty, has at most 128 bytes, and holds only Unicode letters
/// and digits and the characters `- _ . / : + = @` and space, and the value has at
/// most 256 bytes, whatever characters it holds. A tag that is made keeps its key and
/// its value.
pub proof fn lemma_tag_rules(key: String, value: String)
    ensures
        ({
            let ok = key@.len() > 0 && byte_len(key@) <= 128 && byte_len(value@) <= 256 && forall|
                i: int,
            |
                0 <= i < key@.len() ==> (unicode_alphanumeric(#[trigger] key@[i]) || key@[i] == '-'
                    || key@[i] == '_' || key@[i] == '.' || key@[i] == '/' || key@[i] == ':'
                    || key@[i] == '+' || key@[i] == '=' || key@[i] == '@' || key@[i] == ' ');
            &&& ok ==> tag_outcome(key, value) == Ok::<Tag, TaggingError>(Tag { key, value })
            &&& !ok ==> tag_outcome(key, value) is Err
        }),
        tag_outcome(key, value) matches Ok(t) ==> t.key == key && t.value == value,
{
}

/// A set of fewer than ten tags takes every valid tag, new key or not, and then maps
/// its key to its value and keeps every other key as it was.
pub proof fn lemma_insert_valid_tag(m: Map<Seq<char>, Seq<char>>, key: String, value: String)
    requires
        m.len() < 10,
        key@.len() > 0,
        byte_len(key@) <= 128,
        byte_len(value@) <= 256,
        forall|i: int|
            0 <= i < key@.len() ==> (unicode_alphanumeric(#[trigger] key@[i]) || key@[i] == '-'
                || key@[i] == '_' || key@[i] == '.' || key@[i] == '/' || key@[i] == ':' || key@[i]
                == '+' || key@[i] == '=' || key@[i] == '@' || key@[i] == ' '),
    ensures
        insert_outcome(m, key, value) == Ok::<(), TaggingError>(()),
        insert_effect(m, key@, value@, insert_outcome(m, key, value)).contains_key(key@),
        insert_effect(m, key@, value@, insert_outcome(m, key, value))[key@] == value@,
        forall|k: Seq<char>|
            k != key@ ==> (#[trigger] insert_effect(m, key@, value@, insert_outcome(m, key, value)).contains_key(k)
                == m.contains_key(k)),
{
    lemma_tag_rules(key, value);
}

} // verus!
