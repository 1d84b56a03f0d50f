use feignhttp::args::is_support_types;
use feignhttp::error::{Error, ErrorKind};
use feignhttp::http::{HttpClient, HttpConfig};
use feignhttp::lexicon::{ArgType, Method};

fn pairs(entries: &[(&str, &str)]) -> Vec<(String, String)> {
    entries
        .iter()
        .map(|(k, v)| (k.to_string(), v.to_string()))
        .collect()
}

#[test]
fn method_wire_names() {
    assert_eq!(Method::GET.to_str(), "GET");
    assert_eq!(Method::POST.to_str(), "POST");
    assert_eq!(Method::PUT.to_str(), "PUT");
    assert_eq!(Method::DELETE.to_str(), "DELETE");
}

#[test]
fn method_from_token() {
    assert_eq!(Method::from_str("get").unwrap(), Method::GET);
    assert_eq!(Method::from_str("GET").unwrap(), Method::GET);
    assert_eq!(Method::from_str("post").unwrap(), Method::POST);
    assert_eq!(Method::from_str("PUT").unwrap(), Method::PUT);
    assert_eq!(Method::from_str("delete").unwrap(), Method::DELETE);
    let err = Method::from_str("req").unwrap_err();
    assert_eq!(err, "unknown request method marker: req");
}

#[test]
fn role_tokens() {
    assert_eq!(ArgType::from_str("header").unwrap(), ArgType::HEADER);
    assert_eq!(ArgType::from_str("path").unwrap(), ArgType::PATH);
    assert_eq!(ArgType::from_str("url_path").unwrap(), ArgType::PATH);
    assert_eq!(ArgType::from_str("QUERY").unwrap(), ArgType::QUERY);
    assert_eq!(ArgType::from_str("form").unwrap(), ArgType::FORM);
    assert_eq!(ArgType::from_str("body").unwrap(), ArgType::BODY);
    assert_eq!(ArgType::from_str("param").unwrap(), ArgType::PARAM);
    let err = ArgType::from_str("aaa").unwrap_err();
    assert_eq!(err, "unknown arg type: aaa");
    assert_eq!(ArgType::HEADER.to_str(), "header");
    assert_eq!(ArgType::PARAM.to_str(), "PARAM");
}

#[test]
fn supported_scalar_names() {
    for t in [
        "bool", "u8", "u16", "u32", "u64", "i8", "i16", "i32", "i64", "f32", "f64", "char",
        "String", "&str",
    ] {
        assert!(is_support_types(t));
    }
    assert!(!is_support_types("User"));
    assert!(!is_support_types("Vec<u8>"));
    assert!(!is_support_types("str"));
}

#[test]
fn request_builder_collects_parts() {
    let config = HttpConfig {
        connect_timeout: Some(3000),
        timeout: None,
    };
    let builder = HttpClient::builder()
        .url("http://xxx")
        .method("GET")
        .config(config)
        .headers(pairs(&[("auth", "name_pass")]))
        .query(pairs(&[("id", "1")]));
    assert_eq!(builder.url, "http://xxx");
    assert_eq!(builder.method, "GET");
    assert_eq!(builder.headers.as_ref().unwrap(), &pairs(&[("auth", "name_pass")]));
    assert_eq!(builder.query.as_ref().unwrap(), &pairs(&[("id", "1")]));
    assert_eq!(builder.config.unwrap().connect_timeout, Some(3000));
}

#[test]
fn config_from_map_reads_timeouts() {
    let map = pairs(&[("connect_timeout", "3000"), ("timeout", "5000"), ("other", "x")]);
    let config = HttpConfig::from_map(&map).unwrap();
    assert_eq!(config.connect_timeout, Some(3000));
    assert_eq!(config.timeout, Some(5000));

    let partial = HttpConfig::from_map(&pairs(&[("timeout", "+1500")])).unwrap();
    assert_eq!(partial.connect_timeout, None);
    assert_eq!(partial.timeout, Some(1500));

    let none = HttpConfig::from_map(&pairs(&[])).unwrap();
    assert_eq!(none.connect_timeout, None);
    assert_eq!(none.timeout, None);
}

#[test]
fn config_from_map_rejects_non_numeric() {
    let err = HttpConfig::from_map(&pairs(&[("timeout", "abc")])).unwrap_err();
    assert!(err.is_config_error());
    assert_eq!(err.error_kind(), ErrorKind::Config);

    let err = HttpConfig::from_map(&pairs(&[("connect_timeout", "")])).unwrap_err();
    assert!(err.is_config_error());

    let err = HttpConfig::from_map(&pairs(&[("timeout", "99999999999999999999")])).unwrap_err();
    assert!(err.is_config_error());
}

#[test]
fn error_kinds() {
    let e = Error::build("bad url".to_string());
    assert!(e.is_build_error());
    assert!(!e.is_config_error());

    let e = Error::request("connect refused".to_string());
    assert!(e.is_request_error());

    let e = Error::encode("no encoder".to_string());
    assert!(e.is_encode_error());

    let e = Error::decode("bad payload".to_string());
    assert!(e.is_decode_error());

    let e = Error::status("http://xxx".to_string(), 404);
    assert!(e.is_status_error());
    assert_eq!(e.error_kind(), ErrorKind::Status(404));
    assert_eq!(e.url, Some("http://xxx".to_string()));

    let e = Error::new(ErrorKind::Config, Some("bad timeout".to_string()));
    assert!(e.is_config_error());
    assert!(!e.is_status_error());
}
