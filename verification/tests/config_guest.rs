//! Configuration loading, the sample controllers' decisions, and the
//! informer's version tracking.

use controller_host::config::{AuthInfo, AuthProviderConfig, Cluster, ConfigError, Kubeconfig};
use controller_host::error::ErrorResponse;
use controller_host::guest::{memcached_deployment, pod, reconcile, reconcile_pod, DeploymentModel,
    PodModel, ReconcileAction};
use controller_host::informer::{EventMeta, Informer, WatchEvent};

fn auth_info() -> AuthInfo {
    AuthInfo {
        username: None,
        password: None,
        token: None,
        token_file: None,
        client_certificate: None,
        client_certificate_data: None,
        client_key: None,
        client_key_data: None,
        impersonate: None,
        impersonate_groups: None,
        auth_provider: None,
        exec_config: None,
    }
}

fn cluster() -> Cluster {
    Cluster {
        server: "https://example:6443".to_string(),
        insecure_skip_tls_verify: None,
        certificate_authority: None,
        certificate_authority_data: None,
    }
}

fn api_error(code: u16) -> ErrorResponse {
    ErrorResponse {
        status: "Failure".to_string(),
        message: "m".to_string(),
        reason: "r".to_string(),
        code,
    }
}

#[test]
fn kubeconfig_read_passes_through_or_fails() {
    let cfg = Kubeconfig {
        kind: None,
        api_version: None,
        preferences: None,
        clusters: Vec::new(),
        auth_infos: Vec::new(),
        contexts: Vec::new(),
        current_context: "dev".to_string(),
        extensions: None,
    };
    let got = Kubeconfig::read(Some(cfg), true).expect("found");
    assert_eq!(got.current_context, "dev");
    assert_eq!(Kubeconfig::read(None, false).unwrap_err(), ConfigError::ReadFile);
    assert_eq!(Kubeconfig::read(None, true).unwrap_err(), ConfigError::ParseYaml);
}

#[test]
fn certificate_authority_prefers_inline_data() {
    let mut c = cluster();
    assert_eq!(c.load_certificate_authority(None).unwrap(), None);
    c.certificate_authority_data = Some("aGVsbG8=".to_string());
    let got = c.load_certificate_authority(None).unwrap();
    assert_eq!(got, Some(b"hello".to_vec()));
    c.certificate_authority_data = Some("!!!not base64!!!".to_string());
    assert_eq!(c.load_certificate_authority(None).unwrap_err(), ConfigError::Base64Decode);
    c.certificate_authority_data = None;
    c.certificate_authority = Some("/etc/ca.pem".to_string());
    let got = c.load_certificate_authority(Some(b"pem bytes".to_vec())).unwrap();
    assert_eq!(got, Some(b"pem bytes".to_vec()));
    assert_eq!(c.load_certificate_authority(None).unwrap_err(), ConfigError::MissingFile);
}

#[test]
fn client_credentials_decode() {
    let mut a = auth_info();
    a.client_certificate_data = Some("Y2VydA==".to_string());
    assert_eq!(a.load_client_certificate(None).unwrap(), b"cert".to_vec());
    a.client_key_data = Some("a2V5".to_string());
    assert_eq!(a.load_client_key(None).unwrap(), b"key".to_vec());
    let bare = auth_info();
    assert_eq!(bare.load_client_certificate(None).unwrap_err(), ConfigError::MissingData);
}

#[test]
fn gcp_token_priorities() {
    let mut a = auth_info();
    a.auth_provider = Some(AuthProviderConfig {
        name: "gcp".to_string(),
        config: vec![("access-token".to_string(), "old-token".to_string())],
    });
    assert!(!a.gcp_refresh_needed(false));
    assert!(a.gcp_refresh_needed(true));
    a.load_gcp(None);
    assert_eq!(a.token, Some("old-token".to_string()));
    a.load_gcp(Some("fresh-token".to_string()));
    assert_eq!(a.token, Some("fresh-token".to_string()));
    // an id token overrides everything
    a.auth_provider.as_mut().unwrap().config.push((
        "id-token".to_string(),
        "id-wins".to_string(),
    ));
    a.load_gcp(Some("fresh-token".to_string()));
    assert_eq!(a.token, Some("id-wins".to_string()));
    // without a provider nothing changes
    let mut bare = auth_info();
    bare.token = Some("kept".to_string());
    bare.load_gcp(None);
    assert_eq!(bare.token, Some("kept".to_string()));
}

#[test]
fn memcached_reconcile_decisions() {
    let name = "cache".to_string();
    let existing = |replicas: Option<i32>| DeploymentModel {
        name: name.clone(),
        replicas,
        labels: Vec::new(),
        container_name: Some("memcached".to_string()),
        image: None,
        command: None,
    };
    match reconcile(&name, 3, Ok(existing(Some(3)))).unwrap() {
        ReconcileAction::DoNothing => {},
        _ => panic!("scale already correct"),
    }
    match reconcile(&name, 3, Ok(existing(Some(1)))).unwrap() {
        ReconcileAction::Replace(d) => {
            assert_eq!(d.replicas, Some(3));
            assert_eq!(d.container_name, Some("memcached".to_string()));
        },
        _ => panic!("drifted scale must be replaced"),
    }
    match reconcile(&name, 3, Err(api_error(404))).unwrap() {
        ReconcileAction::Create(d) => {
            assert_eq!(d.name, "cache");
            assert_eq!(d.replicas, Some(3));
        },
        _ => panic!("missing deployment must be created"),
    }
    let e = reconcile(&name, 3, Err(api_error(403))).unwrap_err();
    assert_eq!(e.code, 403);
}

#[test]
fn memcached_deployment_shape() {
    let d = memcached_deployment(&"cache".to_string(), 2);
    assert_eq!(d.labels, vec![
        ("memcached_cr".to_string(), "cache".to_string()),
        ("app".to_string(), "memcached".to_string()),
    ]);
    assert_eq!(d.container_name, Some("memcached".to_string()));
    assert_eq!(d.image, Some("memcached:1.4.36-alpine".to_string()));
    assert_eq!(
        d.command,
        Some(vec![
            "memcached".to_string(),
            "-m=64".to_string(),
            "-o".to_string(),
            "modern".to_string(),
            "-v".to_string(),
        ])
    );
}

#[test]
fn pod_reconcile_decisions() {
    let name = "web".to_string();
    let image = "nginx:1.19".to_string();
    let existing = |img: &str| PodModel {
        name: name.clone(),
        container_name: "default-container".to_string(),
        image: Some(img.to_string()),
    };
    match reconcile_pod(&name, &image, Ok(existing("nginx:1.19"))).unwrap() {
        ReconcileAction::DoNothing => {},
        _ => panic!("image already equal"),
    }
    match reconcile_pod(&name, &image, Ok(existing("nginx:1.18"))).unwrap() {
        ReconcileAction::Replace(p) => assert_eq!(p.image, Some("nginx:1.19".to_string())),
        _ => panic!("drifted image must be replaced"),
    }
    match reconcile_pod(&name, &image, Err(api_error(404))).unwrap() {
        ReconcileAction::Create(p) => {
            assert_eq!(p.name, "web");
            assert_eq!(p.container_name, "default-container");
            assert_eq!(p.image, Some("nginx:1.19".to_string()));
        },
        _ => panic!("missing pod must be created"),
    }
    assert_eq!(reconcile_pod(&name, &image, Err(api_error(500))).unwrap_err().code, 500);
    let p = pod(&"p".to_string(), &"img".to_string());
    assert_eq!(p.container_name, "default-container");
}

#[test]
fn informer_tracks_versions_and_desync() {
    let mut inf = Informer::new();
    assert_eq!(inf.version(), "0");
    inf.observe_event(&WatchEvent::Added(EventMeta {
        resource_version: Some("12".to_string()),
    }));
    assert_eq!(inf.version(), "12");
    inf.observe_event(&WatchEvent::Bookmark(EventMeta {
        resource_version: Some("15".to_string()),
    }));
    assert_eq!(inf.version(), "15");
    // an event without a version changes nothing
    inf.observe_event(&WatchEvent::Modified(EventMeta { resource_version: None }));
    assert_eq!(inf.version(), "15");
    // a healthy informer polls at once
    assert_eq!(inf.prepare_poll(), None);
    assert_eq!(inf.version(), "15");
    // the desync signal forces one back-off and a restart from scratch
    inf.observe_event(&WatchEvent::Error(api_error(410)));
    assert_eq!(inf.prepare_poll(), Some(10));
    assert_eq!(inf.version(), "0");
    assert_eq!(inf.prepare_poll(), None);
    // other error codes do not desync
    let mut inf2 = Informer::new();
    inf2.observe_event(&WatchEvent::Error(api_error(500)));
    assert_eq!(inf2.prepare_poll(), None);
}

#[test]
fn informer_builders() {
    let inf = Informer::new().set_version("42".to_string());
    assert_eq!(inf.version(), "42");
    let lp = controller_host::watch_data::ListParams {
        field_selector: None,
        label_selector: Some(b"app=web".to_vec()),
        timeout: Some(1),
        allow_bookmarks: false,
        limit: None,
        continue_token: None,
    };
    let inf = inf.params(lp);
    assert_eq!(inf.params.timeout, Some(1));
    assert_eq!(inf.params.label_selector, Some(b"app=web".to_vec()));
    assert_eq!(inf.version(), "42");
    inf_reset_check();
}

fn inf_reset_check() {
    let mut inf = Informer::new().set_version("9".to_string());
    inf.reset();
    assert_eq!(inf.version(), "0");
}
