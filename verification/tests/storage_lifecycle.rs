use object_store_server::minio::{
    lifecycle_delete_from_response, lifecycle_from_response, lifecycle_set_from_response, MinioClient,
};
use object_store_server::store_error::StoreError;
use object_store::memory::InMemory;
use object_store_server::lifecycle_adapter::{domain_to_service, service_to_domain};
use object_store_server::minio::{
    lifecycle_config_to_xml, parse_lifecycle_config, MinioFilter, MinioLifecycleConfig, MinioLifecycleRule,
};
use object_store_server::store_lifecycle::{
    due_actions, rule_listing_prefix, ExpirationConfig, LifecycleAction, LifecycleConfiguration,
    LifecycleManager, LifecycleRule, RuleStatus, TransitionConfig,
};
use object_store_server::time::UtcTime;

fn rule(id: &str, expiration_days: Option<u32>) -> LifecycleRule {
    LifecycleRule {
        id: id.to_string(),
        prefix: "logs/".to_string(),
        status: RuleStatus::default(),
        expiration: expiration_days.map(|d| ExpirationConfig { days: Some(d), date: None, expired_object_delete_marker: None }),
        transitions: None,
        filter_tags: None,
    }
}

fn minio_rule(id: &str, days: Option<usize>) -> MinioLifecycleRule {
    MinioLifecycleRule {
        id: id.to_string(),
        status: true,
        filter: MinioFilter { prefix: Some("temp/".to_string()), tag: None, and: None },
        abort_incomplete_multipart_upload_days_after_initiation: None,
        expiration_date: None,
        expiration_days: days,
        expiration_expired_object_delete_marker: None,
        noncurrent_version_expiration_noncurrent_days: None,
        noncurrent_version_transition_noncurrent_days: None,
        noncurrent_version_transition_storage_class: None,
        transition_date: None,
        transition_days: None,
        transition_storage_class: None,
    }
}

#[test]
fn add_rule_replaces_a_rule_with_the_same_id() {
    let mut c = LifecycleConfiguration::new();
    c.add_rule(rule("a", Some(1)));
    c.add_rule(rule("b", Some(2)));
    c.add_rule(rule("a", Some(3)));
    assert_eq!(c.rules.len(), 2);
    assert_eq!(c.rules[0].id, "a");
    assert_eq!(c.rules[0].expiration.unwrap().days, Some(3));
    assert_eq!(c.get_rule("b").unwrap().expiration.unwrap().days, Some(2));
    assert!(c.get_rule("z").is_none());
    assert!(c.remove_rule("a"));
    assert!(!c.remove_rule("a"));
    assert_eq!(c.rules.len(), 1);
}

#[test]
fn validation_names_the_first_problem() {
    let mut c = LifecycleConfiguration::new();
    c.add_rule(rule("ok", Some(1)));
    c.add_rule(rule("no-action", None));
    assert_eq!(
        c.validate().unwrap_err().message(),
        "Invalid lifecycle configuration: Rule no-action must specify at least one action"
    );
    let mut c = LifecycleConfiguration::new();
    let mut r = rule("t", None);
    r.transitions = Some(vec![
        TransitionConfig { days: Some(1), date: None, storage_class: "GLACIER".to_string() },
        TransitionConfig { days: None, date: None, storage_class: "GLACIER".to_string() },
    ]);
    c.add_rule(r);
    assert_eq!(
        c.validate().unwrap_err().message(),
        "Invalid lifecycle configuration: Transition 1 in rule t must specify days or date"
    );
    let mut c = LifecycleConfiguration::new();
    let mut r = rule("e", None);
    r.expiration = Some(ExpirationConfig { days: None, date: None, expired_object_delete_marker: Some(true) });
    c.add_rule(r);
    assert_eq!(
        c.validate().unwrap_err().message(),
        "Invalid lifecycle configuration: Expiration in rule e must specify days or date"
    );
}

#[test]
fn manager_stores_only_valid_configurations() {
    let mut m = LifecycleManager::new();
    let mut c = LifecycleConfiguration::new();
    c.add_rule(rule("ok", Some(1)));
    m.set_lifecycle_config("bucket", c).unwrap();
    assert_eq!(m.get_lifecycle_config("bucket").unwrap().unwrap().rules.len(), 1);
    let mut bad = LifecycleConfiguration::new();
    bad.add_rule(rule("bad", None));
    assert!(m.set_lifecycle_config("other", bad).is_err());
    assert!(m.get_lifecycle_config("other").unwrap().is_none());
    assert!(m.start().unwrap());
    assert!(!m.start().unwrap());
    m.stop().unwrap();
    assert!(m.start().unwrap());
}

#[test]
fn due_actions_follow_the_days() {
    let mut r = rule("r", Some(30));
    r.transitions = Some(vec![TransitionConfig { days: Some(10), date: None, storage_class: "GLACIER".to_string() }]);
    let modified = UtcTime::from_unix(0, 0).unwrap();
    let day20 = UtcTime::from_unix(20 * 86400, 0).unwrap();
    let day30 = UtcTime::from_unix(30 * 86400, 0).unwrap();
    let a = due_actions(&r, &modified, &day20);
    assert_eq!(a.len(), 1);
    assert!(matches!(&a[0], LifecycleAction::Transition { storage_class } if storage_class == "GLACIER"));
    let a = due_actions(&r, &modified, &day30);
    assert_eq!(a.len(), 2);
    assert!(matches!(a[0], LifecycleAction::Delete));
    r.status = RuleStatus::Disabled;
    assert!(due_actions(&r, &modified, &day30).is_empty());
    assert_eq!(rule_listing_prefix("bucket", &r), "bucket/logs/");
}

#[test]
fn minio_rules_convert_to_storage_rules() {
    let config = MinioLifecycleConfig { rules: vec![minio_rule("x", Some(5)), minio_rule("y", None), minio_rule("x", Some(7))] };
    let s = domain_to_service(&config);
    assert_eq!(s.rules.len(), 2);
    assert_eq!(s.rules[0].id, "x");
    assert_eq!(s.rules[0].prefix, "temp/");
    assert_eq!(s.rules[0].expiration.unwrap().days, Some(7));
    assert!(s.rules[1].expiration.is_none());
    assert!(s.rules[1].transitions.is_none());
    let back = service_to_domain(&s);
    assert_eq!(back.rules.len(), 2);
    assert_eq!(back.rules[0].expiration_days, Some(7));
    assert_eq!(back.rules[0].filter.prefix, Some("temp/".to_string()));
    assert!(back.rules[0].status);
}

#[test]
fn xml_round_trip() {
    let config = MinioLifecycleConfig { rules: vec![minio_rule("expire-temp", Some(30))] };
    let xml = lifecycle_config_to_xml(&config).unwrap();
    assert!(xml.contains("<ID>expire-temp</ID>"));
    assert!(xml.contains("<Days>30</Days>"));
    let parsed = parse_lifecycle_config(&xml).unwrap();
    assert_eq!(parsed.rules.len(), 1);
    assert_eq!(parsed.rules[0].id, "expire-temp");
    assert_eq!(parsed.rules[0].expiration_days, Some(30));
    assert_eq!(parsed.rules[0].filter.prefix, Some("temp/".to_string()));
    assert!(parsed.rules[0].status);
}

#[test]
fn xml_with_escapes_and_errors() {
    let xml = "<LifecycleConfiguration><Rule><ID>a&amp;b</ID><Status>Disabled</Status><Filter><Prefix>p/</Prefix></Filter><Expiration><Days>3</Days></Expiration></Rule></LifecycleConfiguration>";
    let parsed = parse_lifecycle_config(xml).unwrap();
    assert_eq!(parsed.rules[0].id, "a&b");
    assert!(!parsed.rules[0].status);
    let bad = "<LifecycleConfiguration><Rule><ID>a</ID><Expiration><Days>x</Days></Expiration></Rule></LifecycleConfiguration>";
    assert!(parse_lifecycle_config(bad).is_err());
    let _ = InMemory::new();
}

#[test]
fn xml_dates_round_trip() {
    let mut rule = minio_rule("dated", None);
    rule.expiration_date = UtcTime::from_unix(1_704_067_200, 0);
    let config = MinioLifecycleConfig { rules: vec![rule] };
    let xml = lifecycle_config_to_xml(&config).unwrap();
    assert!(xml.contains("<Date>2024-01-01T00:00:00+00:00</Date>"));
    let parsed = parse_lifecycle_config(&xml).unwrap();
    assert_eq!(parsed.rules[0].expiration_date.map(|t| t.secs()), Some(1_704_067_200));
    let xml = "<LifecycleConfiguration><Rule><ID>z</ID><Status>Enabled</Status><Expiration><Date>2024-06-01T12:00:00Z</Date></Expiration></Rule></LifecycleConfiguration>";
    let parsed = parse_lifecycle_config(xml).unwrap();
    assert_eq!(parsed.rules[0].expiration_date.map(|t| t.secs()), Some(1_717_243_200));
    let bad = "<LifecycleConfiguration><Rule><ID>z</ID><Expiration><Date>yesterday</Date></Expiration></Rule></LifecycleConfiguration>";
    assert!(parse_lifecycle_config(bad).is_err());
}

#[test]
fn minio_answers_are_interpreted() {
    let client = MinioClient::new("http://localhost:9000", "key", "secret", "");
    assert_eq!(client.lifecycle_url("bucket"), "http://localhost:9000/bucket?lifecycle");
    let empty = lifecycle_from_response(404, "").unwrap();
    assert!(empty.rules.is_empty());
    let xml = "<LifecycleConfiguration><Rule><ID>r</ID><Status>Enabled</Status><Expiration><Days>3</Days></Expiration></Rule></LifecycleConfiguration>";
    assert_eq!(lifecycle_from_response(200, xml).unwrap().rules.len(), 1);
    match lifecycle_from_response(500, "") {
        Err(StoreError::Other(m)) => assert_eq!(m, "Failed to get lifecycle configuration: 500 Internal Server Error"),
        other => panic!("unexpected: {:?}", other.map(|c| c.rules.len())),
    }
    match lifecycle_set_from_response(403, "denied") {
        Err(StoreError::Other(m)) => assert_eq!(m, "Failed to set lifecycle configuration: 403 Forbidden - denied"),
        other => panic!("unexpected: {:?}", other),
    }
    assert!(lifecycle_set_from_response(200, "").is_ok());
    assert!(lifecycle_delete_from_response(204).is_ok());
    assert!(lifecycle_delete_from_response(404).is_err());
}

#[test]
fn storage_rules_survive_the_minio_form() {
    let mut moved = rule("archive", None);
    moved.transitions = Some(vec![TransitionConfig { days: Some(30), date: None, storage_class: "GLACIER".to_string() }]);
    let c = LifecycleConfiguration { rules: vec![rule("expire", Some(3)), moved] };
    let back = domain_to_service(&service_to_domain(&c));
    assert_eq!(back.rules.len(), 2);
    assert_eq!(back.rules[0].id, "expire");
    assert_eq!(back.rules[0].prefix, "logs/");
    assert_eq!(back.rules[0].expiration.as_ref().unwrap().days, Some(3));
    assert!(back.rules[0].transitions.is_none());
    assert_eq!(back.rules[1].id, "archive");
    assert!(back.rules[1].expiration.is_none());
    let t = &back.rules[1].transitions.as_ref().unwrap()[0];
    assert_eq!(t.days, Some(30));
    assert_eq!(t.storage_class, "GLACIER");
}

#[test]
fn complete_rules_validate() {
    let mut moved = rule("archive", None);
    moved.transitions = Some(vec![TransitionConfig { days: None, date: None, storage_class: "GLACIER".to_string() }]);
    assert!(LifecycleConfiguration { rules: vec![rule("expire", Some(3))] }.validate().is_ok());
    assert!(LifecycleConfiguration { rules: vec![rule("expire", Some(3)), moved] }.validate().is_err());
}
