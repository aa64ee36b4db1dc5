use lan_scan_rs::cert::{certificate_fields, format_cert_summary, tls_banner, CertFields};

/// A certificate for the subject CN=scan.test, issued by CN=Test Root, that
/// ends on 2034-01-02 03:04:05 UTC.
const LEAF: [u8; 303] = [
    0x30, 0x82, 0x01, 0x2b, 0x30, 0x81, 0xde, 0xa0, 0x03, 0x02, 0x01, 0x02, 0x02, 0x14, 0x48, 0x4f,
    0x56, 0x7f, 0xb3, 0x4f, 0x87, 0x5f, 0x95, 0x16, 0x9c, 0x6a, 0xbe, 0x15, 0x90, 0xd7, 0x50, 0xae,
    0x28, 0x4d, 0x30, 0x05, 0x06, 0x03, 0x2b, 0x65, 0x70, 0x30, 0x14, 0x31, 0x12, 0x30, 0x10, 0x06,
    0x03, 0x55, 0x04, 0x03, 0x0c, 0x09, 0x54, 0x65, 0x73, 0x74, 0x20, 0x52, 0x6f, 0x6f, 0x74, 0x30,
    0x1e, 0x17, 0x0d, 0x32, 0x34, 0x30, 0x31, 0x30, 0x31, 0x30, 0x30, 0x30, 0x30, 0x30, 0x30, 0x5a,
    0x17, 0x0d, 0x33, 0x34, 0x30, 0x31, 0x30, 0x32, 0x30, 0x33, 0x30, 0x34, 0x30, 0x35, 0x5a, 0x30,
    0x14, 0x31, 0x12, 0x30, 0x10, 0x06, 0x03, 0x55, 0x04, 0x03, 0x0c, 0x09, 0x73, 0x63, 0x61, 0x6e,
    0x2e, 0x74, 0x65, 0x73, 0x74, 0x30, 0x2a, 0x30, 0x05, 0x06, 0x03, 0x2b, 0x65, 0x70, 0x03, 0x21,
    0x00, 0xf0, 0xe4, 0x1c, 0x30, 0xc5, 0xd3, 0xb7, 0x95, 0xe6, 0x22, 0x4d, 0x34, 0x90, 0xb7, 0x9f,
    0xaf, 0x7f, 0x75, 0x1c, 0x2d, 0x74, 0x40, 0x5b, 0x54, 0x23, 0xd8, 0x9d, 0xc9, 0x62, 0x28, 0xf3,
    0x1e, 0xa3, 0x42, 0x30, 0x40, 0x30, 0x1d, 0x06, 0x03, 0x55, 0x1d, 0x0e, 0x04, 0x16, 0x04, 0x14,
    0x24, 0x9a, 0x00, 0xbd, 0x19, 0x24, 0x08, 0xa2, 0xe3, 0x75, 0x52, 0x01, 0xeb, 0xee, 0x13, 0x9c,
    0x22, 0x6d, 0x6f, 0x3c, 0x30, 0x1f, 0x06, 0x03, 0x55, 0x1d, 0x23, 0x04, 0x18, 0x30, 0x16, 0x80,
    0x14, 0x66, 0x4c, 0x17, 0x3f, 0x73, 0xab, 0xcf, 0xcc, 0x1e, 0x94, 0xbe, 0x0c, 0x1f, 0xd5, 0x9c,
    0x08, 0x89, 0xe3, 0xb6, 0x81, 0x30, 0x05, 0x06, 0x03, 0x2b, 0x65, 0x70, 0x03, 0x41, 0x00, 0x5b,
    0x32, 0x48, 0x07, 0x97, 0x5d, 0x36, 0x04, 0xeb, 0xda, 0x8e, 0xe0, 0xf6, 0xf5, 0x32, 0x8f, 0x44,
    0x7b, 0x2d, 0x24, 0x6f, 0x12, 0xd7, 0xfb, 0xbf, 0xd7, 0xbe, 0xf7, 0x5b, 0xe9, 0x2d, 0x9c, 0x0f,
    0xe2, 0x60, 0x56, 0xe4, 0x2f, 0x03, 0xd3, 0xc8, 0xd2, 0xe7, 0x3e, 0x59, 0x2e, 0x03, 0xb2, 0x33,
    0xbc, 0xb2, 0xc2, 0xff, 0x23, 0x2b, 0xc8, 0xa5, 0x5e, 0xd2, 0x3e, 0xfe, 0x81, 0x59, 0x04,
];

/// A certificate whose subject has no common name (O=No Name), issued by
/// CN=Test Root, that ends on 2034-01-02 03:04:05 UTC.
const NO_CN: [u8; 301] = [
    0x30, 0x82, 0x01, 0x29, 0x30, 0x81, 0xdc, 0xa0, 0x03, 0x02, 0x01, 0x02, 0x02, 0x14, 0x48, 0x4f,
    0x56, 0x7f, 0xb3, 0x4f, 0x87, 0x5f, 0x95, 0x16, 0x9c, 0x6a, 0xbe, 0x15, 0x90, 0xd7, 0x50, 0xae,
    0x28, 0x4e, 0x30, 0x05, 0x06, 0x03, 0x2b, 0x65, 0x70, 0x30, 0x14, 0x31, 0x12, 0x30, 0x10, 0x06,
    0x03, 0x55, 0x04, 0x03, 0x0c, 0x09, 0x54, 0x65, 0x73, 0x74, 0x20, 0x52, 0x6f, 0x6f, 0x74, 0x30,
    0x1e, 0x17, 0x0d, 0x32, 0x34, 0x30, 0x31, 0x30, 0x31, 0x30, 0x30, 0x30, 0x30, 0x30, 0x30, 0x5a,
    0x17, 0x0d, 0x33, 0x34, 0x30, 0x31, 0x30, 0x32, 0x30, 0x33, 0x30, 0x34, 0x30, 0x35, 0x5a, 0x30,
    0x12, 0x31, 0x10, 0x30, 0x0e, 0x06, 0x03, 0x55, 0x04, 0x0a, 0x0c, 0x07, 0x4e, 0x6f, 0x20, 0x4e,
    0x61, 0x6d, 0x65, 0x30, 0x2a, 0x30, 0x05, 0x06, 0x03, 0x2b, 0x65, 0x70, 0x03, 0x21, 0x00, 0xf0,
    0xe4, 0x1c, 0x30, 0xc5, 0xd3, 0xb7, 0x95, 0xe6, 0x22, 0x4d, 0x34, 0x90, 0xb7, 0x9f, 0xaf, 0x7f,
    0x75, 0x1c, 0x2d, 0x74, 0x40, 0x5b, 0x54, 0x23, 0xd8, 0x9d, 0xc9, 0x62, 0x28, 0xf3, 0x1e, 0xa3,
    0x42, 0x30, 0x40, 0x30, 0x1d, 0x06, 0x03, 0x55, 0x1d, 0x0e, 0x04, 0x16, 0x04, 0x14, 0x24, 0x9a,
    0x00, 0xbd, 0x19, 0x24, 0x08, 0xa2, 0xe3, 0x75, 0x52, 0x01, 0xeb, 0xee, 0x13, 0x9c, 0x22, 0x6d,
    0x6f, 0x3c, 0x30, 0x1f, 0x06, 0x03, 0x55, 0x1d, 0x23, 0x04, 0x18, 0x30, 0x16, 0x80, 0x14, 0x66,
    0x4c, 0x17, 0x3f, 0x73, 0xab, 0xcf, 0xcc, 0x1e, 0x94, 0xbe, 0x0c, 0x1f, 0xd5, 0x9c, 0x08, 0x89,
    0xe3, 0xb6, 0x81, 0x30, 0x05, 0x06, 0x03, 0x2b, 0x65, 0x70, 0x03, 0x41, 0x00, 0xf2, 0xec, 0x82,
    0xb2, 0xcc, 0xaa, 0x11, 0x07, 0x12, 0x36, 0x01, 0xc3, 0x04, 0x4c, 0xac, 0x78, 0xcc, 0x27, 0xea,
    0x09, 0x73, 0xce, 0x02, 0x93, 0x44, 0xb9, 0x24, 0x65, 0x8b, 0x5d, 0xd7, 0xea, 0x40, 0x76, 0x1c,
    0xfb, 0xbf, 0x75, 0x56, 0x44, 0x9b, 0x43, 0xee, 0x3e, 0x80, 0xa1, 0x9a, 0x88, 0x15, 0x3f, 0x37,
    0x58, 0xca, 0xb8, 0x56, 0xcb, 0xaf, 0x80, 0x96, 0x46, 0x27, 0xef, 0x44, 0x04,
];

fn fields(subject: Option<&str>, issuer: Option<&str>, not_after: Option<&str>) -> CertFields {
    CertFields {
        subject_cn: subject.map(String::from),
        issuer_cn: issuer.map(String::from),
        not_after: not_after.map(String::from),
    }
}

#[test]
fn fields_of_a_certificate() {
    let got = certificate_fields(&LEAF).expect("a certificate");
    assert_eq!(
        got,
        fields(Some("scan.test"), Some("Test Root"), Some("Mon, 02 Jan 2034 03:04:05 +0000"))
    );
}

#[test]
fn fields_without_subject_common_name() {
    let got = certificate_fields(&NO_CN).expect("a certificate");
    assert_eq!(got, fields(None, Some("Test Root"), Some("Mon, 02 Jan 2034 03:04:05 +0000")));
}

#[test]
fn bytes_that_are_no_certificate() {
    assert_eq!(certificate_fields(&[]), None);
    assert_eq!(certificate_fields(b"not a certificate"), None);
    assert_eq!(certificate_fields(&LEAF[..100]), None);
    assert_eq!(tls_banner(b"not a certificate"), None);
}

#[test]
fn summary_with_all_fields() {
    let s = format_cert_summary(&fields(Some("a.example"), Some("Some CA"), Some("DATE")));
    assert_eq!(s, "subject_cn=a.example, issuer_cn=Some CA, not_after=DATE");
}

#[test]
fn summary_leaves_out_absent_and_empty_names() {
    assert_eq!(
        format_cert_summary(&fields(Some("a.example"), None, Some("DATE"))),
        "subject_cn=a.example, not_after=DATE"
    );
    assert_eq!(
        format_cert_summary(&fields(None, Some("Some CA"), Some("DATE"))),
        "issuer_cn=Some CA, not_after=DATE"
    );
    assert_eq!(format_cert_summary(&fields(None, None, Some("DATE"))), "not_after=DATE");
    assert_eq!(
        format_cert_summary(&fields(Some(""), Some(""), Some("DATE"))),
        "not_after=DATE"
    );
    assert_eq!(
        format_cert_summary(&fields(Some(""), Some("Some CA"), Some("DATE"))),
        "issuer_cn=Some CA, not_after=DATE"
    );
}

#[test]
fn summary_of_a_date_that_cannot_be_written() {
    assert_eq!(
        format_cert_summary(&fields(Some("a.example"), Some("Some CA"), None)),
        "subject_cn=a.example, issuer_cn=Some CA, not_after=invalid"
    );
    assert_eq!(format_cert_summary(&fields(None, None, None)), "not_after=invalid");
}

#[test]
fn banner_of_a_tls_server() {
    assert_eq!(
        tls_banner(&LEAF).as_deref(),
        Some(
            "TLS: subject_cn=scan.test, issuer_cn=Test Root, not_after=Mon, 02 Jan 2034 03:04:05 +0000"
        )
    );
    assert_eq!(
        tls_banner(&NO_CN).as_deref(),
        Some("TLS: issuer_cn=Test Root, not_after=Mon, 02 Jan 2034 03:04:05 +0000")
    );
}
