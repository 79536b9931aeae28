use vstd::prelude::*;

use crate::clock::{now_utc, UtcTime};
use crate::error::CoreError;
use crate::kvmap::KeyValueMap;
use crate::text::{byte_len, byte_length};
use crate::types::{bucket_name_problem, BucketName};

verus! {

/// Whether a bucket keeps the versions of its objects.
#[derive(Debug, Clone, Copy, PartialEq, Eq, Structural)]
pub enum VersioningStatus {
    Enabled,
    Suspended,
    Disabled,
}

/// Why a bucket or one of its tags was refused.
#[derive(Debug, Clone, PartialEq, Eq)]
pub enum BucketError {
    /// The name breaks a rule of bucket names.
    InvalidName(CoreError),
    /// The name has fewer than 3 or more than 63 bytes; the length is given.
    InvalidNameLength(usize),
    /// The tag key is empty or longer than 128 bytes.
    InvalidTagKey(String),
    /// The tag value is longer than 256 bytes.
    InvalidTagValue(String),
}

/// A bucket: its name and creation time, where it is kept, whether it keeps versions,
/// its tags, and how many objects and bytes it holds.
#[derive(Debug, Clone, PartialEq)]
pub struct Bucket {
    pub name: BucketName,
    pub creation_date: UtcTime,
    pub location_constraint: Option<String>,
    pub versioning_status: VersioningStatus,
    pub tags: KeyValueMap,
    pub object_count: u64,
    pub total_size: u64,
}

/// A bucket name has 3 to 63 bytes.
pub open spec fn bucket_name_length_ok(s: Seq<char>) -> bool {
    3 <= byte_len(s) <= 63
}

/// The status after `suspend_versioning`: versioning that is on is suspended.
pub open spec fn suspended_status(s: VersioningStatus) -> VersioningStatus {
    if s == VersioningStatus::Enabled {
        VersioningStatus::Suspended
    } else {
        s
    }
}

/// The status after `disable_versioning`. A bucket that holds objects is left as it
/// is. An empty one that keeps versions stops keeping them; since versioning once
/// turned on can only be suspended, it becomes `Suspended`, and a bucket never goes
/// back to `Disabled`.
pub open spec fn disabled_status(s: VersioningStatus, object_count: u64) -> VersioningStatus {
    if object_count == 0 {
        suspended_status(s)
    } else {
        s
    }
}

/// What `add_tag` answers for a key and a value.
pub open spec fn add_tag_outcome(key: String, value: String) -> Result<(), BucketError> {
    if key@.len() == 0 || byte_len(key@) > 128 {
        Err(BucketError::InvalidTagKey(key))
    } else if byte_len(value@) > 256 {
        Err(BucketError::InvalidTagValue(value))
    } else {
        Ok(())
    }
}

/// The counters after `increment_object_count(size)`.
pub open spec fn incremented(b: Bucket, size: u64) -> Bucket {
    Bucket { object_count: (b.object_count + 1) as u64, total_size: (b.total_size + size) as u64, ..b }
}

/// The counters after `decrement_object_count(size)`: neither goes below zero.
pub open spec fn decremented(b: Bucket, size: u64) -> Bucket {
    Bucket {
        object_count: if b.object_count > 0 {
            (b.object_count - 1) as u64
        } else {
            0
        },
        total_size: if b.total_size >= size {
            (b.total_size - size) as u64
        } else {
            0
        },
        ..b
    }
}

impl Bucket {
    /// A new, empty bucket named `name_str`, made now, without a location, with
    /// versioning off. Refused when the name breaks a rule of bucket names, or has
    /// fewer than 3 bytes. The clock is read once and the rest is `new_at`.
    pub fn new(name_str: &str) -> (r: Result<Self, BucketError>)
        ensures
            r is Ok <==> bucket_name_problem(name_str@) is None && bucket_name_length_ok(name_str@),
            r matches Err(BucketError::InvalidName(e)) ==> e matches CoreError::InvalidBucketName(m)
                && bucket_name_problem(name_str@) == Some(m@),
            r matches Err(BucketError::InvalidNameLength(n)) ==> bucket_name_problem(name_str@) is None
                && n == byte_len(name_str@),
            r matches Err(e) ==> (e is InvalidName <==> bucket_name_problem(name_str@) is Some),
            r matches Err(e) ==> e is InvalidName || e is InvalidNameLength,
            r matches Ok(b) ==> {
                &&& b.name@ == name_str@
                &&& b.creation_date.secs >= 0 && b.creation_date.nanos < 1_000_000_000
                &&& b.location_constraint is None
                &&& b.versioning_status == VersioningStatus::Disabled
                &&& b.tags@ == Map::<Seq<char>, Seq<char>>::empty()
                &&& b.object_count == 0
                &&& b.total_size == 0
            },
    {
        let now = now_utc();
        Bucket::new_at(name_str, now)
    }

    /// A new, empty bucket named `name_str`, made at `now`, without a location, with
    /// versioning off. Refused when the name breaks a rule of bucket names, or has
    /// fewer than 3 bytes.
    pub fn new_at(name_str: &str, now: UtcTime) -> (r: Result<Self, BucketError>)
        ensures
            r is Ok <==> bucket_name_problem(name_str@) is None && bucket_name_length_ok(name_str@),
            r matches Err(BucketError::InvalidName(e)) ==> e matches CoreError::InvalidBucketName(m)
                && bucket_name_problem(name_str@) == Some(m@),
            r matches Err(BucketError::InvalidNameLength(n)) ==> bucket_name_problem(name_str@) is None
                && n == byte_len(name_str@),
            r matches Err(e) ==> (e is InvalidName <==> bucket_name_problem(name_str@) is Some),
            r matches Err(e) ==> e is InvalidName || e is InvalidNameLength,
            r matches Ok(b) ==> {
                &&& b.name@ == name_str@
                &&& b.creation_date == now
                &&& b.location_constraint is None
                &&& b.versioning_status == VersioningStatus::Disabled
                &&& b.tags@ == Map::<Seq<char>, Seq<char>>::empty()
                &&& b.object_count == 0
                &&& b.total_size == 0
            },
    {
        let name = match BucketName::new(name_str) {
            Ok(n) => n,
            Err(e) => {
                return Err(BucketError::InvalidName(e));
            },
        };
        let len = byte_length(name_str);
        if len < 3 || len > 63 {
            return Err(BucketError::InvalidNameLength(len));
        }
        Ok(
            Bucket {
                name,
                creation_date: now,
                location_constraint: None,
                versioning_status: VersioningStatus::Disabled,
                tags: KeyValueMap::new(),
                object_count: 0,
                total_size: 0,
            },
        )
    }

    /// The same bucket, kept at `constraint`.
    pub fn with_location(self, constraint: String) -> (b: Self)
        ensures
            b == (Bucket { location_constraint: Some(constraint), ..self }),
    {
        let mut b = self;
        b.location_constraint = Some(constraint);
        b
    }

    /// Turns versioning on.
    pub fn enable_versioning(&mut self)
        ensures
            *final(self) == (Bucket { versioning_status: VersioningStatus::Enabled, ..*old(self) }),
    {
        self.versioning_status = VersioningStatus::Enabled;
    }

    /// Suspends versioning if it is on; otherwise nothing changes.
    pub fn suspend_versioning(&mut self)
        ensures
            *final(self) == (Bucket {
                versioning_status: suspended_status(old(self).versioning_status),
                ..*old(self)
            }),
    {
        if self.versioning_status == VersioningStatus::Enabled {
            self.versioning_status = VersioningStatus::Suspended;
        }
    }

    /// Stops keeping versions in a bucket that holds no object; see `disabled_status`.
    pub fn disable_versioning(&mut self)
        ensures
            *final(self) == (Bucket {
                versioning_status: disabled_status(old(self).versioning_status, old(self).object_count),
                ..*old(self)
            }),
    {
        if self.object_count == 0 && self.versioning_status == VersioningStatus::Enabled {
            self.versioning_status = VersioningStatus::Suspended;
        }
    }

    /// Sets a tag. Refused when the key is empty or over 128 bytes, or the value over 256 bytes.
    pub fn add_tag(&mut self, key: String, value: String) -> (r: Result<(), BucketError>)
        ensures
            r == add_tag_outcome(key, value),
            final(self).tags@ == (if r is Ok {
                old(self).tags@.insert(key@, value@)
            } else {
                old(self).tags@
            }),
            final(self).name == old(self).name,
            final(self).creation_date == old(self).creation_date,
            final(self).location_constraint == old(self).location_constraint,
            final(self).versioning_status == old(self).versioning_status,
            final(self).object_count == old(self).object_count,
            final(self).total_size == old(self).total_size,
    {
        if key.as_str().is_empty() || byte_length(key.as_str()) > 128 {
            return Err(BucketError::InvalidTagKey(key));
        }
        if byte_length(value.as_str()) > 256 {
            return Err(BucketError::InvalidTagValue(value));
        }
        let _ = self.tags.insert(key, value);
        Ok(())
    }

    /// Removes a tag, if the bucket has it.
    pub fn remove_tag(&mut self, key: &str)
        ensures
            final(self).tags@ == old(self).tags@.remove(key@),
            final(self).name == old(self).name,
            final(self).creation_date == old(self).creation_date,
            final(self).location_constraint == old(self).location_constraint,
            final(self).versioning_status == old(self).versioning_status,
            final(self).object_count == old(self).object_count,
            final(self).total_size == old(self).total_size,
    {
        let _ = self.tags.remove(key);
    }

    /// Counts one more object of `size` bytes.
    pub fn increment_object_count(&mut self, size: u64)
        requires
            old(self).object_count < u64::MAX,
            old(self).total_size + size <= u64::MAX,
        ensures
            *final(self) == incremented(*old(self), size),
    {
        self.object_count = self.object_count + 1;
        self.total_size = self.total_size + size;
    }

    /// Counts one object of `size` bytes fewer; neither counter goes below zero.
    pub fn decrement_object_count(&mut self, size: u64)
        ensures
            *final(self) == decremented(*old(self), size),
    {
        if self.object_count > 0 {
            self.object_count = self.object_count - 1;
        }
        if self.total_size >= size {
            self.total_size = self.total_size - size;
        } else {
            self.total_size = 0;
        }
    }

    /// Whether versioning is on.
    pub fn is_versioned(&self) -> (b: bool)
        ensures
            b == (self.versioning_status == VersioningStatus::Enabled),
    {
        self.versioning_status == VersioningStatus::Enabled
    }
}

/// Counting an object in and then out again gives back the counters it started from.
pub proof fn lemma_increment_then_decrement(b: Bucket, size: u64)
    requires
        b.object_count < u64::MAX,
        b.total_size + size <= u64::MAX,
    ensures
        decremented(incremented(b, size), size) == b,
{
}

/// Once versioning has been turned on, no operation turns it back to `Disabled`:
/// enabling, suspending and disabling all leave a versioned bucket versioned or suspended.
pub proof fn lemma_versioning_never_returns_to_disabled(s: VersioningStatus, object_count: u64)
    requires
        s != VersioningStatus::Disabled,
    ensures
        suspended_status(s) != VersioningStatus::Disabled,
        disabled_status(s, object_count) != VersioningStatus::Disabled,
{
}

/// A bucket that holds objects keeps its versioning when asked to disable it; a bucket
/// whose versioning is off stays off whatever is asked but enabling.
pub proof fn lemma_disable_needs_empty_bucket(s: VersioningStatus, object_count: u64)
    ensures
        object_count > 0 ==> disabled_status(s, object_count) == s,
        s == VersioningStatus::Disabled ==> disabled_status(s, object_count) == s
            && suspended_status(s) == s,
{
}

/// A bucket takes a tag exactly when the key has 1 to 128 bytes and the value at most
/// 256 bytes, whatever characters either holds.
pub proof fn lemma_add_tag_rules(key: String, value: String)
    ensures
        add_tag_outcome(key, value) is Ok <==> (key@.len() > 0 && byte_len(key@) <= 128 && byte_len(
            value@,
        ) <= 256),
{
}

} // verus!
