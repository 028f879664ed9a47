use cyper::dest::{
    extract_domain, h3_destination, h3_target, negotiated_h2, server_name, transport_of,
    transport_target, Transport, TransportError,
};
use cyper::{PoolError, PoolKey};
use http::Uri;

#[test]
fn pool_key_from_uri() {
    let uri: Uri = "https://example.com:8443/path?q=1".parse().unwrap();
    assert_eq!(
        extract_domain(&uri),
        Ok(PoolKey { scheme: "https".to_string(), authority: "example.com:8443".to_string() })
    );
    let rel: Uri = "/path".parse().unwrap();
    assert_eq!(extract_domain(&rel), Err(PoolError::MissingDomain));
}

#[test]
fn server_name_strips_brackets() {
    assert_eq!(server_name("[::1]"), "::1");
    assert_eq!(server_name("example.com"), "example.com");
    assert_eq!(server_name("[[a]]"), "a");
}

#[test]
fn h3_destination_defaults_to_443() {
    assert_eq!(h3_target(Some("[::1]".to_string()), None), Some(("::1".to_string(), 443)));
    assert_eq!(h3_target(Some("a.org".to_string()), Some(4433)), Some(("a.org".to_string(), 4433)));
    assert_eq!(h3_target(None, Some(1)), None);
    let uri: Uri = "https://[::1]:4433/x".parse().unwrap();
    assert_eq!(h3_destination(&uri), Some(("::1".to_string(), 4433)));
    let uri: Uri = "https://example.com/".parse().unwrap();
    assert_eq!(h3_destination(&uri), Some(("example.com".to_string(), 443)));
}

#[test]
fn transport_by_scheme() {
    assert_eq!(
        transport_target(None, Some("a".to_string()), None),
        Ok(Transport { host: "a".to_string(), port: 80, tls: false })
    );
    assert_eq!(
        transport_target(Some("https".to_string()), Some("a".to_string()), None),
        Ok(Transport { host: "a".to_string(), port: 443, tls: true })
    );
    assert_eq!(
        transport_target(Some("http".to_string()), Some("a".to_string()), Some(8080)),
        Ok(Transport { host: "a".to_string(), port: 8080, tls: false })
    );
    assert_eq!(
        transport_target(Some("ftp".to_string()), Some("a".to_string()), None),
        Err(TransportError::BadScheme("ftp".to_string()))
    );
    assert_eq!(
        transport_target(Some("http".to_string()), None, None),
        Err(TransportError::MissingHost)
    );
    let uri: Uri = "ftp://files.example/".parse().unwrap();
    assert_eq!(transport_of(&uri), Err(TransportError::BadScheme("ftp".to_string())));
    let uri: Uri = "https://example.com:9443/".parse().unwrap();
    assert_eq!(
        transport_of(&uri),
        Ok(Transport { host: "example.com".to_string(), port: 9443, tls: true })
    );
}

#[test]
fn alpn_h2() {
    assert!(negotiated_h2(Some(b"h2".to_vec())));
    assert!(!negotiated_h2(Some(b"http/1.1".to_vec())));
    assert!(!negotiated_h2(None));
}
