use aisix::config::{CorsOrigins, CorsValueKind, Deployment, ServerCommonCors, ServerCommonTls};

#[test]
fn to_cors_layer_accepts_valid_config() {
    let mut cors = ServerCommonCors::new();
    cors.enabled = true;
    cors.allowed_origins = Some(vec!["https://example.com".to_string()]);
    cors.allowed_methods = Some(vec!["GET".to_string(), "POST".to_string()]);
    cors.allowed_headers = Some(vec!["content-type".to_string()]);
    cors.exposed_headers = Some(vec!["x-request-id".to_string()]);
    cors.allow_credentials = Some(true);

    let plan = cors.to_cors_plan();

    assert!(plan.is_ok());
    let plan = plan.unwrap();
    assert!(plan.allow_credentials);
    assert!(matches!(plan.origins, Some(CorsOrigins::List(l)) if l == vec!["https://example.com"]));
    assert_eq!(plan.methods, Some(vec!["GET".to_string(), "POST".to_string()]));
}

#[test]
fn to_cors_layer_rejects_invalid_config() {
    let mut cors = ServerCommonCors::new();
    cors.allowed_methods = Some(vec!["NOT A METHOD".to_string()]);

    let result = cors.to_cors_plan();

    assert!(result.is_err());
    assert!(result.err().map(|err| err.contains("Invalid CORS allowed_method")).unwrap_or(false));
}

#[test]
fn wildcard_origin_allows_any_and_skips_checks() {
    let mut cors = ServerCommonCors::new();
    cors.allowed_origins = Some(vec!["bad\norigin".to_string(), "*".to_string()]);
    let plan = cors.to_cors_plan().unwrap();
    assert!(matches!(plan.origins, Some(CorsOrigins::Any)));
    assert!(!plan.allow_credentials);
}

#[test]
fn first_invalid_value_is_reported_in_order() {
    let mut cors = ServerCommonCors::new();
    cors.allowed_origins = Some(vec!["https://ok".to_string(), "bad\norigin".to_string()]);
    cors.allowed_methods = Some(vec!["NOT A METHOD".to_string()]);
    assert_eq!(cors.to_cors_plan().err().unwrap(), "Invalid CORS allowed_origin: bad\norigin");
    let mut cors = ServerCommonCors::new();
    cors.exposed_headers = Some(vec!["x-ok".to_string(), "bad header".to_string()]);
    assert_eq!(cors.to_cors_plan().err().unwrap(), "Invalid CORS exposed_header: bad header");
}

#[test]
fn parse_cors_values_checks_each_kind() {
    let values = vec!["X-Trace".to_string(), "content-type".to_string()];
    assert_eq!(ServerCommonCors::parse_cors_values("allowed_header", &values, CorsValueKind::HeaderName).unwrap(), values);
    let methods = vec!["PATCH".to_string(), "".to_string()];
    assert_eq!(
        ServerCommonCors::parse_cors_values("allowed_method", &methods, CorsValueKind::Method).err().unwrap(),
        "Invalid CORS allowed_method: "
    );
}

#[test]
fn defaults_are_empty() {
    let tls = ServerCommonTls::new();
    assert!(!tls.enabled && tls.cert_file.is_none() && tls.key_file.is_none());
    let d = Deployment::new();
    assert_eq!(d.etcd.prefix, "/aisix");
    assert_eq!(d.etcd.timeout, 5);
    assert!(d.admin.admin_key.is_empty());
}
