use https_redirect::tls::CertificateLoadError;

#[test]
fn certificate_error_names_both_paths() {
    let e = CertificateLoadError::new("/etc/ssl/cert.pem", "/etc/ssl/key.pem");
    let m = e.message();
    assert_eq!(
        m,
        "couldn't load PEM certificate from /etc/ssl/cert.pem and private key from /etc/ssl/key.pem"
    );
    assert!(m.contains("/etc/ssl/cert.pem"));
    assert!(m.contains("/etc/ssl/key.pem"));
    assert_eq!(e.cert_path, "/etc/ssl/cert.pem");
    assert_eq!(e.key_path, "/etc/ssl/key.pem");
}
