use s3_core::lifecycle::{
    Expiration, LifecycleError, LifecycleFilter, LifecycleRule, RuleStatus, StorageClass, Transition,
};

#[test]
fn test_valid_transition() {
    let t = Transition::new(30, StorageClass::Glacier).unwrap();
    assert_eq!(t.days, Some(30));
    assert_eq!(t.storage_class, StorageClass::Glacier);
}

#[test]
fn test_invalid_zero_days_transition() {
    assert!(Transition::new(0, StorageClass::StandardIa).is_err());
}

#[test]
fn test_lifecycle_rule_validation() {
    let rule = LifecycleRule {
        id: Some("rule1".to_string()),
        status: RuleStatus::Enabled,
        priority: 1,
        filter: LifecycleFilter {
            prefix: Some("logs/".to_string()),
            tag: None,
            and: None,
        },
        transition: Some(Transition::new(90, StorageClass::Glacier).unwrap()),
        expiration: Some(Expiration::new(365).unwrap()),
        noncurrent_version_transition: None,
        noncurrent_version_expiration: None,
    };
    assert!(rule.validate().is_ok());
}

fn rule_with(transition: Option<Transition>, expiration: Option<Expiration>) -> LifecycleRule {
    LifecycleRule {
        id: None,
        status: RuleStatus::Disabled,
        priority: 0,
        filter: LifecycleFilter { prefix: None, tag: None, and: None },
        transition,
        expiration,
        noncurrent_version_transition: None,
        noncurrent_version_expiration: None,
    }
}

#[test]
fn lifecycle_errors() {
    assert_eq!(
        Transition::new(0, StorageClass::Standard),
        Err(LifecycleError::InvalidTransitionDays(0))
    );
    assert_eq!(Expiration::new(0), Err(LifecycleError::InvalidExpirationDays(0)));
    let e = Expiration::new(1).unwrap();
    assert_eq!(e.days, Some(1));
    assert_eq!(e.date, None);
    assert_eq!(e.expired_object_delete_marker, None);
}

#[test]
fn rule_validation_checks_transition_first() {
    let zero_t = Transition { days: Some(0), date: None, storage_class: StorageClass::Glacier };
    let zero_e = Expiration { days: Some(0), date: None, expired_object_delete_marker: None };
    assert_eq!(
        rule_with(Some(zero_t.clone()), Some(zero_e.clone())).validate(),
        Err(LifecycleError::InvalidTransitionDays(0))
    );
    assert_eq!(
        rule_with(None, Some(zero_e)).validate(),
        Err(LifecycleError::InvalidExpirationDays(0))
    );
    assert!(rule_with(None, None).validate().is_ok());
    let no_days = Transition { days: None, date: None, storage_class: StorageClass::DeepArchive };
    assert!(rule_with(Some(no_days), None).validate().is_ok());
}
