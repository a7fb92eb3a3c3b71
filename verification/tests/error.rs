use remote_proxy::error::Error;

#[test]
fn each_error_has_its_message() {
    assert_eq!(Error::UnsupportedScheme.message(), "https scheme not supported without deps");
    assert_eq!(Error::InvalidResponse.message(), "invalid response");
    assert_eq!(
        Error::ConnectionError("Connection refused (os error 111)".to_string()).message(),
        "Connection refused (os error 111)"
    );
    assert_eq!(Error::ConnectionError(String::new()).message(), "");
}

#[test]
fn errors_compare_by_kind_and_detail() {
    assert_eq!(Error::UnsupportedScheme, Error::UnsupportedScheme);
    assert_ne!(Error::UnsupportedScheme, Error::InvalidResponse);
    assert_ne!(Error::ConnectionError("a".to_string()), Error::ConnectionError("b".to_string()));
    assert_ne!(Error::ConnectionError("invalid response".to_string()), Error::InvalidResponse);
}
