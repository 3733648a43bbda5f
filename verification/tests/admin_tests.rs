use aisix::admin::{
    api_key_taken, api_key_write_verdict, authorize_admin, delete_outcome, entity_key, is_referenced, parse_admin_body, presented_admin_key,
    put_status, AdminError, AuthError,
};
use aisix::json::JsonValue;
use aisix::config::AdminKey;
use aisix::etcd::{connect_plan, Config, EtcdTlsConfig};

fn keys(ks: &[&str]) -> Vec<AdminKey> {
    ks.iter().map(|k| AdminKey { key: k.to_string() }).collect()
}

#[test]
fn bearer_prefix_is_stripped_in_any_case() {
    assert_eq!(presented_admin_key(Some("Bearer abc"), None).as_deref(), Some("abc"));
    assert_eq!(presented_admin_key(Some("bEaReR abc"), Some("other")).as_deref(), Some("abc"));
    assert_eq!(presented_admin_key(Some("abc"), Some("other")).as_deref(), Some("abc"));
    assert_eq!(presented_admin_key(Some("Token abc"), None).as_deref(), Some("Token abc"));
    assert_eq!(presented_admin_key(None, Some("xyz")).as_deref(), Some("xyz"));
    assert_eq!(presented_admin_key(None, None), None);
}

#[test]
fn admin_auth_checks_the_configured_keys() {
    let admin = keys(&["k1", "k2"]);
    assert_eq!(authorize_admin(Some("Bearer k2"), None, &admin), Ok(()));
    assert_eq!(authorize_admin(None, Some("k1"), &admin), Ok(()));
    assert_eq!(authorize_admin(Some("Bearer nope"), None, &admin), Err(AuthError::InvalidKey));
    assert_eq!(authorize_admin(None, None, &admin), Err(AuthError::MissingKey));
    assert_eq!(authorize_admin(Some("Bearer k1"), None, &keys(&[])), Err(AuthError::MissingKey));
}

#[test]
fn admin_entities_and_answers() {
    assert_eq!(entity_key("providers", "p1"), "/providers/p1");
    assert_eq!(put_status(true), 201);
    assert_eq!(put_status(false), 200);
    assert_eq!(delete_outcome("Provider", "p1", "/providers/p1".to_string(), 1).unwrap(), (1, "/providers/p1".to_string()));
    assert!(matches!(
        delete_outcome("Provider", "p1", "/providers/p1".to_string(), 0),
        Err(AdminError::NotFound(m)) if m == "Provider with ID p1 not found"
    ));
    let existing = vec![("/apikeys/a".to_string(), "sk-1".to_string()), ("/apikeys/b".to_string(), "sk-2".to_string())];
    assert!(api_key_taken(&existing, "sk-1", "/apikeys/c"));
    assert!(!api_key_taken(&existing, "sk-1", "/apikeys/a"));
    assert!(!api_key_taken(&existing, "sk-3", "/apikeys/c"));
    assert!(is_referenced(&vec!["p1".to_string(), "p2".to_string()], "p2"));
    assert!(!is_referenced(&vec!["p1".to_string()], "p3"));
}

#[test]
fn connect_plan_pairs_credentials_and_tls() {
    let mut cfg = Config::new();
    cfg.user = Some("root".to_string());
    let plan = connect_plan(&cfg);
    assert!(plan.credentials.is_none());
    assert!(!plan.use_tls);
    assert_eq!(plan.timeout_secs, 5);
    cfg.password = Some("pw".to_string());
    cfg.host = vec!["https://etcd:2379".to_string()];
    let mut tls = EtcdTlsConfig::new();
    tls.insecure_skip_verify = true;
    cfg.tls = Some(tls);
    let plan = connect_plan(&cfg);
    assert_eq!(plan.credentials, Some(("root".to_string(), "pw".to_string())));
    assert!(plan.use_tls && plan.skip_verify);
}

#[test]
fn admin_body_must_be_json() {
    assert!(matches!(parse_admin_body(b"{\"name\":\"p\"}"), Ok(JsonValue::Object(ref f)) if f.len() == 1));
    match parse_admin_body(b"{") {
        Err(AdminError::BadRequest(m)) => assert_eq!(m, "Invalid JSON: EOF while parsing an object at line 1 column 1"),
        other => panic!("unexpected {other:?}"),
    }
}

#[test]
fn api_key_write_refused_when_key_is_taken() {
    assert!(api_key_write_verdict(Ok(JsonValue::Null), false, false).is_ok());
    for (fast, slow) in [(true, false), (false, true), (true, true)] {
        match api_key_write_verdict(Ok(JsonValue::Null), fast, slow) {
            Err(AdminError::BadRequest(m)) => assert_eq!(m, "API key already exists"),
            other => panic!("unexpected {other:?}"),
        }
    }
    assert!(matches!(
        api_key_write_verdict(Err(AdminError::BadRequest("Invalid JSON: x".into())), true, true),
        Err(AdminError::BadRequest(m)) if m == "Invalid JSON: x"
    ));
}
