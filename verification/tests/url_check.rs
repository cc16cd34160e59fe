use tilegrabber::url_check::{classify_url, is_private_or_local, IpAddress, UrlRejection};

#[test]
fn classify_url_accepts_https_loopback() {
    let c = classify_url("https://127.0.0.1:8080/tile.png").unwrap();
    assert!(c.is_loopback);
}

#[test]
fn classify_url_accepts_localhost() {
    let c = classify_url("http://localhost:4000/foo").unwrap();
    assert!(c.is_loopback);
}

#[test]
fn classify_url_accepts_ipv6_loopback() {
    let c = classify_url("http://[::1]:8080/foo").unwrap();
    assert!(c.is_loopback);
}

#[test]
fn classify_url_rejects_file_scheme() {
    assert!(classify_url("file:///etc/passwd").is_err());
}

#[test]
fn classify_url_rejects_data_scheme() {
    assert!(classify_url("data:text/plain,hello").is_err());
}

#[test]
fn classify_url_non_loopback() {
    let c = classify_url("https://example.com/tile.png").unwrap();
    assert!(!c.is_loopback);
}

#[test]
fn classify_url_rejects_private_ip() {
    assert!(classify_url("http://192.168.1.10/tile.png").is_err());
    assert!(classify_url("http://169.254.169.254/latest/meta-data").is_err());
}

#[test]
fn classify_url_errors_and_fields() {
    assert_eq!(classify_url("not a url").err(), Some(UrlRejection::Invalid));
    assert_eq!(classify_url("ftp://example.com/a").err(), Some(UrlRejection::Scheme));
    assert_eq!(classify_url("http://user:pw@example.com/").err(), Some(UrlRejection::HostOrCredentials));
    assert_eq!(classify_url("http://10.0.0.1/").err(), Some(UrlRejection::PrivateAddress));
    let c = classify_url("http://LocalHost/").unwrap();
    assert!(c.is_loopback);
    assert_eq!(c.url.port, Some(80));
    assert_eq!(c.url.scheme, "http");
    assert_eq!(c.url.host_str.as_deref(), Some("localhost"));
}

#[test]
fn private_addresses() {
    assert!(is_private_or_local(IpAddress::V4([172, 16, 0, 1])));
    assert!(!is_private_or_local(IpAddress::V4([172, 32, 0, 1])));
    assert!(is_private_or_local(IpAddress::V4([0, 0, 0, 0])));
    assert!(!is_private_or_local(IpAddress::V4([8, 8, 8, 8])));
    assert!(is_private_or_local(IpAddress::V6([0xfd00, 0, 0, 0, 0, 0, 0, 1])));
    assert!(is_private_or_local(IpAddress::V6([0xfe80, 0, 0, 0, 0, 0, 0, 1])));
    assert!(is_private_or_local(IpAddress::V6([0, 0, 0, 0, 0, 0, 0, 0])));
    assert!(!is_private_or_local(IpAddress::V6([0x2001, 0xdb8, 0, 0, 0, 0, 0, 1])));
}
