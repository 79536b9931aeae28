use vstd::prelude::*;

use crate::clock::UtcTime;

verus! {

/// Why a lifecycle rule or a part of one was refused.
#[derive(Debug, Clone, PartialEq, Eq)]
pub enum LifecycleError {
    /// A transition after zero days; the days are given.
    InvalidTransitionDays(u32),
    /// An expiration after zero days; the days are given.
    InvalidExpirationDays(u32),
    /// Two transitions to the same storage class.
    DuplicateTransition,
    /// The filter of the rule is not valid.
    InvalidFilter,
}

/// Where an object is stored, by cost and speed of access.
#[derive(Debug, Clone, Copy, PartialEq, Eq, Structural)]
pub enum StorageClass {
    Standard,
    StandardIa,
    OneZoneIa,
    IntelligentTiering,
    Glacier,
    GlacierIr,
    DeepArchive,
}

/// Moving objects to another storage class after some days or at a date.
#[derive(Debug, Clone, PartialEq)]
pub struct Transition {
    pub days: Option<u32>,
    pub date: Option<UtcTime>,
    pub storage_class: StorageClass,
}

/// Removing objects after some days or at a date.
#[derive(Debug, Clone, PartialEq)]
pub struct Expiration {
    pub days: Option<u32>,
    pub date: Option<UtcTime>,
    pub expired_object_delete_marker: Option<bool>,
}

/// Which objects a rule applies to: by key prefix, by a tag, or by both.
#[derive(Debug, Clone, PartialEq)]
pub struct LifecycleFilter {
    pub prefix: Option<String>,
    pub tag: Option<Tag>,
    pub and: Option<AndOperator>,
}

/// A tag that a filter asks for.
#[derive(Debug, Clone, PartialEq)]
pub struct Tag {
    pub key: String,
    pub value: String,
}

/// A prefix and tags that an object must all match.
#[derive(Debug, Clone, PartialEq)]
pub struct AndOperator {
    pub prefix: Option<String>,
    pub tags: Vec<Tag>,
}

/// A lifecycle rule of a bucket.
#[derive(Debug, Clone, PartialEq)]
pub struct LifecycleRule {
    pub id: Option<String>,
    pub status: RuleStatus,
    pub priority: u32,
    pub filter: LifecycleFilter,
    pub transition: Option<Transition>,
    pub expiration: Option<Expiration>,
    pub noncurrent_version_transition: Option<Transition>,
    pub noncurrent_version_expiration: Option<NoncurrentVersionExpiration>,
}

/// Whether a rule is applied.
#[derive(Debug, Clone, Copy, PartialEq, Eq, Structural)]
pub enum RuleStatus {
    Enabled,
    Disabled,
}

/// Removing versions some days after they stopped being current.
#[derive(Debug, Clone, Copy, PartialEq, Eq, Structural)]
pub struct NoncurrentVersionExpiration {
    pub noncurrent_days: u32,
}

/// What `Transition::new` gives.
pub open spec fn transition_outcome(days: u32, storage_class: StorageClass) -> Result<
    Transition,
    LifecycleError,
> {
    if days == 0 {
        Err(LifecycleError::InvalidTransitionDays(days))
    } else {
        Ok(Transition { days: Some(days), date: None, storage_class })
    }
}

/// What `Expiration::new` gives.
pub open spec fn expiration_outcome(days: u32) -> Result<Expiration, LifecycleError> {
    if days == 0 {
        Err(LifecycleError::InvalidExpirationDays(days))
    } else {
        Ok(Expiration { days: Some(days), date: None, expired_object_delete_marker: None })
    }
}

/// What `LifecycleRule::validate` answers: a transition after zero days is refused
/// first, then an expiration after zero days.
pub open spec fn rule_outcome(rule: LifecycleRule) -> Result<(), LifecycleError> {
    if rule.transition matches Some(t) && t.days == Some(0u32) {
        Err(LifecycleError::InvalidTransitionDays(0))
    } else if rule.expiration matches Some(e) && e.days == Some(0u32) {
        Err(LifecycleError::InvalidExpirationDays(0))
    } else {
        Ok(())
    }
}

impl Transition {
    /// A transition to `storage_class` after `days` days; refused for zero days.
    pub fn new(days: u32, storage_class: StorageClass) -> (r: Result<Self, LifecycleError>)
        ensures
            r == transition_outcome(days, storage_class),
            r is Ok <==> days > 0,
            r matches Ok(t) ==> t.days == Some(days) && t.date is None && t.storage_class
                == storage_class,
            r matches Err(e) ==> e == LifecycleError::InvalidTransitionDays(days),
    {
        if days == 0 {
            return Err(LifecycleError::InvalidTransitionDays(days));
        }
        Ok(Transition { days: Some(days), date: None, storage_class })
    }
}

impl Expiration {
    /// An expiration after `days` days; refused for zero days.
    pub fn new(days: u32) -> (r: Result<Self, LifecycleError>)
        ensures
            r == expiration_outcome(days),
            r is Ok <==> days > 0,
            r matches Ok(e) ==> e.days == Some(days) && e.date is None
                && e.expired_object_delete_marker is None,
            r matches Err(e) ==> e == LifecycleError::InvalidExpirationDays(days),
    {
        if days == 0 {
            return Err(LifecycleError::InvalidExpirationDays(days));
        }
        Ok(Expiration { days: Some(days), date: None, expired_object_delete_marker: None })
    }
}

impl LifecycleRule {
    /// Checks the days of the transition and of the expiration of the rule.
    pub fn validate(&self) -> (r: Result<(), LifecycleError>)
        ensures
            r == rule_outcome(*self),
    {
        if let Some(transition) = &self.transition {
            if let Some(days) = transition.days {
                if days == 0 {
                    return Err(LifecycleError::InvalidTransitionDays(days));
                }
            }
        }
        if let Some(expiration) = &self.expiration {
            if let Some(days) = expiration.days {
                if days == 0 {
                    return Err(LifecycleError::InvalidExpirationDays(days));
                }
            }
        }
        Ok(())
    }
}

/// A rule whose transition and expiration were made by `Transition::new` and
/// `Expiration::new`, or are absent, passes `validate`, whatever its other parts.
pub proof fn lemma_rule_from_constructors_is_valid(
    rule: LifecycleRule,
    transition_days: u32,
    storage_class: StorageClass,
    expiration_days: u32,
)
    requires
        rule.transition is None || transition_outcome(transition_days, storage_class) == Ok::<
            Transition,
            LifecycleError,
        >(rule.transition->0),
        rule.expiration is None || expiration_outcome(expiration_days) == Ok::<
            Expiration,
            LifecycleError,
        >(rule.expiration->0),
    ensures
        rule_outcome(rule) is Ok,
{
}

/// A transition is made for every positive number of days; it moves objects to the
/// storage class it was given after exactly those days, at no fixed date. Zero days are
/// refused, naming the days.
pub proof fn lemma_transition_rules(days: u32, storage_class: StorageClass)
    ensures
        transition_outcome(days, storage_class) is Ok <==> days > 0,
        transition_outcome(days, storage_class) matches Ok(t) ==> t.storage_class == storage_class
            && t.days == Some(days) && t.date is None,
        transition_outcome(days, storage_class) matches Err(e) ==> e
            == LifecycleError::InvalidTransitionDays(days),
{
}

/// An expiration is made for every positive number of days; it removes objects after
/// exactly those days, at no fixed date and without a delete-marker setting. Zero days
/// are refused, naming the days.
pub proof fn lemma_expiration_rules(days: u32)
    ensures
        expiration_outcome(days) is Ok <==> days > 0,
        expiration_outcome(days) matches Ok(e) ==> e.days == Some(days) && e.date is None
            && e.expired_object_delete_marker is None,
        expiration_outcome(days) matches Err(e) ==> e == LifecycleError::InvalidExpirationDays(days),
{
}

} // verus!
