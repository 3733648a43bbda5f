use aisix::etcd::{
    full_prefix, pem_source, tls_config_from_pems, uses_tls, validate_connect_config, Config, EtcdConfigError,
    EtcdTlsConfig, PemSource, WatchSubscriptions, WatchSupervisor,
};

fn config_with_hosts(hosts: &[&str]) -> Config {
    let mut cfg = Config::new();
    cfg.host = hosts.iter().map(|h| h.to_string()).collect();
    cfg
}

#[test]
fn test_etcd_tls_config_default() {
    let tls = EtcdTlsConfig::new();
    assert!(tls.ca_cert.is_none());
    assert!(tls.client_cert.is_none());
    assert!(!tls.insecure_skip_verify);
}

#[test]
fn test_config_default_no_tls() {
    let cfg = Config::new();
    assert!(cfg.tls.is_none());
    assert_eq!(cfg.host, vec!["http://127.0.0.1:2379"]);
}

#[test]
fn test_tls_detected_from_https_host() {
    let cfg = config_with_hosts(&["https://etcd.example.com:2379"]);
    assert!(uses_tls(&cfg));
    assert!(validate_connect_config(&cfg).is_ok());
}

#[test]
fn test_tls_not_detected_for_http_host() {
    let cfg = Config::new();
    assert!(!uses_tls(&cfg));
}

#[test]
fn test_mixed_http_https_hosts_detected() {
    let cfg = config_with_hosts(&["http://etcd1.example.com:2379", "https://etcd2.example.com:2379"]);
    assert!(uses_tls(&cfg));
    assert!(matches!(validate_connect_config(&cfg), Err(EtcdConfigError::MixedSchemes)));
}

#[test]
fn test_validate_rejects_mixed_schemes() {
    let cfg = config_with_hosts(&["http://etcd1:2379", "https://etcd2:2379"]);
    assert!(matches!(validate_connect_config(&cfg), Err(EtcdConfigError::MixedSchemes)));
}

#[test]
fn test_validate_rejects_missing_scheme() {
    let cfg = config_with_hosts(&["127.0.0.1:2379"]);
    assert!(matches!(
        validate_connect_config(&cfg),
        Err(EtcdConfigError::MissingScheme(h)) if h == "127.0.0.1:2379"
    ));
}

#[test]
fn test_validate_http_ok() {
    let cfg = Config::new();
    assert!(validate_connect_config(&cfg).is_ok());
}

#[test]
fn test_validate_https_ok() {
    let cfg = config_with_hosts(&["https://etcd:2379"]);
    assert!(validate_connect_config(&cfg).is_ok());
}

#[test]
fn validate_rejects_empty_host_list_and_reports_first_schemeless_host() {
    let cfg = config_with_hosts(&[]);
    let e = validate_connect_config(&cfg).unwrap_err();
    assert!(matches!(e, EtcdConfigError::MissingHost));
    assert_eq!(e.message(), "etcd host list is empty");
    let cfg = config_with_hosts(&["http://a:1", "b:2", "c:3"]);
    let e = validate_connect_config(&cfg).unwrap_err();
    assert!(matches!(&e, EtcdConfigError::MissingScheme(h) if h == "b:2"));
    assert_eq!(e.message(), "etcd host 'b:2' is missing a scheme; use the prefix http:// or https://");
    assert_eq!(
        EtcdConfigError::MixedSchemes.message(),
        "etcd hosts must use a single scheme (all http:// or all https://)"
    );
}

#[test]
fn test_tls_deserialize_rejects_partial_inline_mtls() {
    let result = tls_config_from_pems(None, Some("CERT".to_string()), None, None);
    assert!(matches!(result, Err(e) if e.contains("cert and key must both be provided")));
}

#[test]
fn test_tls_deserialize_rejects_partial_file_mtls() {
    let source = pem_source("cert", &None, &Some("/etc/etcd/client.cer".to_string())).unwrap();
    assert!(matches!(&source, PemSource::File(path) if path == "/etc/etcd/client.cer"));
    let key = pem_source("key", &None, &None).unwrap();
    assert!(matches!(key, PemSource::Missing));
    let result = tls_config_from_pems(None, Some("CERT FROM FILE".to_string()), None, None);
    assert!(matches!(result, Err(e) if e.contains("cert and key must both be provided")));
}

#[test]
fn test_tls_deserialize_insecure_only() {
    let tls = tls_config_from_pems(None, None, None, Some(true)).unwrap();
    assert!(tls.ca_cert.is_none());
    assert!(tls.client_cert.is_none());
    assert!(tls.insecure_skip_verify);
}

#[test]
fn test_tls_deserialize_empty() {
    let tls = tls_config_from_pems(None, None, None, None).unwrap();
    assert!(tls.ca_cert.is_none());
    assert!(tls.client_cert.is_none());
    assert!(!tls.insecure_skip_verify);
}

#[test]
fn pem_given_twice_is_refused() {
    let e = pem_source("ca", &Some("PEM".to_string()), &Some("/ca.pem".to_string())).err().unwrap();
    assert_eq!(e, "both ca and ca_file are set; only one must be provided");
    let inline = pem_source("ca", &Some("PEM".to_string()), &None).unwrap();
    assert!(matches!(inline, PemSource::Inline(t) if t == "PEM"));
}

#[test]
fn full_client_certificate_is_kept() {
    let tls = tls_config_from_pems(Some("CA".to_string()), Some("C".to_string()), Some("K".to_string()), Some(false))
        .unwrap();
    assert_eq!(tls.ca_cert.as_deref(), Some("CA"));
    let client = tls.client_cert.unwrap();
    assert_eq!(client.cert, "C");
    assert_eq!(client.key, "K");
    assert!(!tls.insecure_skip_verify);
}

#[test]
fn supervisor_backs_off_doubling_up_to_a_minute() {
    let mut s = WatchSupervisor::new();
    assert_eq!(s.watch_start(), None);
    let delays: Vec<u64> = (0..8).map(|_| s.on_stream_lost()).collect();
    assert_eq!(delays, vec![1, 2, 4, 8, 16, 32, 60, 60]);
    assert_eq!(s.attempt, 8);
    s.on_stream_opened();
    assert_eq!(s.attempt, 0);
    assert_eq!(s.backoff_secs, 1);
}

#[test]
fn supervisor_resumes_after_events_and_resyncs_on_compaction() {
    let mut s = WatchSupervisor::new();
    s.on_dispatched(41);
    assert_eq!(s.watch_start(), Some(42));
    assert!(!s.on_canceled(0));
    assert_eq!(s.watch_start(), Some(42));
    assert!(s.on_canceled(17));
    assert_eq!(s.watch_start(), None);
}

#[test]
fn subscriptions_refuse_a_watched_prefix_and_route_by_prefix() {
    let mut subs = WatchSubscriptions::new();
    assert_eq!(subs.subscribe(full_prefix("/aisix", Some("/models/"))).unwrap(), 0);
    assert_eq!(subs.subscribe(full_prefix("/aisix", None)).unwrap(), 1);
    let e = subs.subscribe("/aisix/models/".to_string()).unwrap_err();
    assert_eq!(e, "Prefix has been watched");
    assert_eq!(subs.len(), 2);
    assert_eq!(subs.targets("/aisix/models/m1"), vec![0, 1]);
    assert_eq!(subs.targets("/aisix/apikeys/k1"), vec![1]);
    assert!(subs.targets("/other").is_empty());
}
