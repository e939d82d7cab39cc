use svudko::application::SessionId;
use svudko::text::StringSet;
use svudko::verification::{fingerprint, verify_client_cert, CertRejection, CertVerdict};

const CERT_LAPTOP: &[u8] = &[
    0x30, 0x82, 0x01, 0x84, 0x30, 0x82, 0x01, 0x29, 0xa0, 0x03, 0x02, 0x01, 0x02, 0x02, 0x14, 0x1e,
    0x38, 0xdb, 0x4d, 0x1a, 0x01, 0x78, 0x78, 0x98, 0x42, 0x51, 0x34, 0xc0, 0x98, 0xf4, 0x49, 0x07,
    0x00, 0x59, 0x70, 0x30, 0x0a, 0x06, 0x08, 0x2a, 0x86, 0x48, 0xce, 0x3d, 0x04, 0x03, 0x02, 0x30,
    0x17, 0x31, 0x15, 0x30, 0x13, 0x06, 0x03, 0x55, 0x04, 0x03, 0x0c, 0x0c, 0x6c, 0x61, 0x70, 0x74,
    0x6f, 0x70, 0x2e, 0x6c, 0x6f, 0x63, 0x61, 0x6c, 0x30, 0x1e, 0x17, 0x0d, 0x32, 0x36, 0x31, 0x31,
    0x31, 0x38, 0x32, 0x33, 0x30, 0x31, 0x32, 0x30, 0x5a, 0x17, 0x0d, 0x33, 0x36, 0x31, 0x31, 0x31,
    0x35, 0x32, 0x33, 0x30, 0x31, 0x32, 0x30, 0x5a, 0x30, 0x17, 0x31, 0x15, 0x30, 0x13, 0x06, 0x03,
    0x55, 0x04, 0x03, 0x0c, 0x0c, 0x6c, 0x61, 0x70, 0x74, 0x6f, 0x70, 0x2e, 0x6c, 0x6f, 0x63, 0x61,
    0x6c, 0x30, 0x59, 0x30, 0x13, 0x06, 0x07, 0x2a, 0x86, 0x48, 0xce, 0x3d, 0x02, 0x01, 0x06, 0x08,
    0x2a, 0x86, 0x48, 0xce, 0x3d, 0x03, 0x01, 0x07, 0x03, 0x42, 0x00, 0x04, 0x66, 0xe2, 0xae, 0xff,
    0x97, 0x16, 0x8a, 0x6b, 0x39, 0x73, 0x3c, 0xb2, 0x50, 0x6b, 0x58, 0xdb, 0x0b, 0xfe, 0x6e, 0xd2,
    0x73, 0xb5, 0xd6, 0xed, 0x48, 0x16, 0xda, 0x8e, 0x01, 0x3b, 0x76, 0x5c, 0x0a, 0x29, 0xeb, 0x74,
    0x3d, 0xad, 0x21, 0xe3, 0x50, 0x1d, 0x59, 0x9b, 0x7e, 0x23, 0x7f, 0x4a, 0xe9, 0x6c, 0x87, 0x2a,
    0x37, 0x0c, 0xfd, 0x7d, 0xf3, 0x3c, 0xec, 0xb9, 0x42, 0x06, 0x7c, 0xb5, 0xa3, 0x53, 0x30, 0x51,
    0x30, 0x1d, 0x06, 0x03, 0x55, 0x1d, 0x0e, 0x04, 0x16, 0x04, 0x14, 0xa1, 0xa7, 0x34, 0x04, 0xc8,
    0xa0, 0xb1, 0xf5, 0xba, 0x6b, 0x74, 0x8d, 0xa2, 0x23, 0x7d, 0xd6, 0x24, 0x3d, 0x98, 0xd6, 0x30,
    0x1f, 0x06, 0x03, 0x55, 0x1d, 0x23, 0x04, 0x18, 0x30, 0x16, 0x80, 0x14, 0xa1, 0xa7, 0x34, 0x04,
    0xc8, 0xa0, 0xb1, 0xf5, 0xba, 0x6b, 0x74, 0x8d, 0xa2, 0x23, 0x7d, 0xd6, 0x24, 0x3d, 0x98, 0xd6,
    0x30, 0x0f, 0x06, 0x03, 0x55, 0x1d, 0x13, 0x01, 0x01, 0xff, 0x04, 0x05, 0x30, 0x03, 0x01, 0x01,
    0xff, 0x30, 0x0a, 0x06, 0x08, 0x2a, 0x86, 0x48, 0xce, 0x3d, 0x04, 0x03, 0x02, 0x03, 0x49, 0x00,
    0x30, 0x46, 0x02, 0x21, 0x00, 0xdf, 0xc2, 0x0c, 0x8b, 0xdc, 0x01, 0x1b, 0x31, 0x05, 0xef, 0x4d,
    0x06, 0x14, 0x28, 0x0c, 0x6f, 0x53, 0x2a, 0x05, 0xce, 0xcd, 0x01, 0x07, 0xfe, 0xe7, 0x4a, 0x2b,
    0x91, 0x6b, 0x1b, 0x7e, 0x22, 0x02, 0x21, 0x00, 0x9a, 0x42, 0x06, 0x1a, 0x12, 0x14, 0x6a, 0xf0,
    0x2a, 0x1b, 0x78, 0xcd, 0xf3, 0xf3, 0xfc, 0x37, 0xc7, 0x06, 0xfe, 0xde, 0x57, 0xaf, 0xc9, 0x7a,
    0xbe, 0x0e, 0x8e, 0xa5, 0x1e, 0x7d, 0x36, 0x66,
];

const CERT_NO_COMMON_NAME: &[u8] = &[
    0x30, 0x82, 0x01, 0x77, 0x30, 0x82, 0x01, 0x1d, 0xa0, 0x03, 0x02, 0x01, 0x02, 0x02, 0x14, 0x73,
    0xf7, 0x46, 0x3a, 0x8b, 0x38, 0x4f, 0x28, 0x21, 0xbb, 0xf0, 0x37, 0x47, 0xd1, 0x77, 0x37, 0x44,
    0x66, 0xf7, 0x22, 0x30, 0x0a, 0x06, 0x08, 0x2a, 0x86, 0x48, 0xce, 0x3d, 0x04, 0x03, 0x02, 0x30,
    0x11, 0x31, 0x0f, 0x30, 0x0d, 0x06, 0x03, 0x55, 0x04, 0x0a, 0x0c, 0x06, 0x4e, 0x6f, 0x62, 0x6f,
    0x64, 0x79, 0x30, 0x1e, 0x17, 0x0d, 0x32, 0x36, 0x31, 0x31, 0x31, 0x38, 0x32, 0x33, 0x30, 0x31,
    0x32, 0x30, 0x5a, 0x17, 0x0d, 0x33, 0x36, 0x31, 0x31, 0x31, 0x35, 0x32, 0x33, 0x30, 0x31, 0x32,
    0x30, 0x5a, 0x30, 0x11, 0x31, 0x0f, 0x30, 0x0d, 0x06, 0x03, 0x55, 0x04, 0x0a, 0x0c, 0x06, 0x4e,
    0x6f, 0x62, 0x6f, 0x64, 0x79, 0x30, 0x59, 0x30, 0x13, 0x06, 0x07, 0x2a, 0x86, 0x48, 0xce, 0x3d,
    0x02, 0x01, 0x06, 0x08, 0x2a, 0x86, 0x48, 0xce, 0x3d, 0x03, 0x01, 0x07, 0x03, 0x42, 0x00, 0x04,
    0x30, 0x88, 0x69, 0x67, 0x5c, 0x87, 0x6b, 0x3b, 0x6e, 0xe6, 0x3c, 0x90, 0xfe, 0x6f, 0x12, 0x35,
    0x17, 0x13, 0xc1, 0x8f, 0x45, 0x58, 0x96, 0x88, 0x2c, 0x30, 0x27, 0x96, 0xb4, 0x48, 0x4d, 0x8a,
    0x57, 0x6c, 0x02, 0x3d, 0x97, 0xec, 0x2b, 0xcf, 0x90, 0x10, 0x5d, 0x9b, 0xa0, 0xec, 0x74, 0x35,
    0xf8, 0xe3, 0xc8, 0x63, 0x8f, 0xde, 0xce, 0xfd, 0x22, 0x66, 0x58, 0xa8, 0x6e, 0x05, 0x42, 0x79,
    0xa3, 0x53, 0x30, 0x51, 0x30, 0x1d, 0x06, 0x03, 0x55, 0x1d, 0x0e, 0x04, 0x16, 0x04, 0x14, 0xd7,
    0xde, 0x10, 0xda, 0x04, 0xb5, 0xfa, 0x7c, 0xad, 0xa8, 0x3f, 0x83, 0x47, 0xf7, 0x72, 0x95, 0xa0,
    0x1f, 0xce, 0xb5, 0x30, 0x1f, 0x06, 0x03, 0x55, 0x1d, 0x23, 0x04, 0x18, 0x30, 0x16, 0x80, 0x14,
    0xd7, 0xde, 0x10, 0xda, 0x04, 0xb5, 0xfa, 0x7c, 0xad, 0xa8, 0x3f, 0x83, 0x47, 0xf7, 0x72, 0x95,
    0xa0, 0x1f, 0xce, 0xb5, 0x30, 0x0f, 0x06, 0x03, 0x55, 0x1d, 0x13, 0x01, 0x01, 0xff, 0x04, 0x05,
    0x30, 0x03, 0x01, 0x01, 0xff, 0x30, 0x0a, 0x06, 0x08, 0x2a, 0x86, 0x48, 0xce, 0x3d, 0x04, 0x03,
    0x02, 0x03, 0x48, 0x00, 0x30, 0x45, 0x02, 0x20, 0x52, 0x16, 0x01, 0x1b, 0xbf, 0xf8, 0xad, 0x40,
    0x6f, 0x14, 0x70, 0xd4, 0xe7, 0x7b, 0x4f, 0x40, 0x0d, 0x11, 0xfe, 0x9f, 0xd1, 0x31, 0x6f, 0x77,
    0xab, 0x88, 0x80, 0x37, 0x4c, 0x69, 0xe8, 0x1f, 0x02, 0x21, 0x00, 0xb1, 0xd6, 0x16, 0x4b, 0xe6,
    0x61, 0x98, 0x44, 0x38, 0x79, 0x6e, 0x61, 0xd0, 0x30, 0xc7, 0x0c, 0xca, 0x9f, 0x19, 0xf4, 0x9f,
    0x0b, 0x84, 0xc8, 0x97, 0xb8, 0x1a, 0x80, 0xeb, 0x16, 0xb9, 0x08,
];

const CERT_TELETEX_COMMON_NAME: &[u8] = &[
    0x30, 0x82, 0x01, 0x3d, 0x30, 0x81, 0xe5, 0xa0, 0x03, 0x02, 0x01, 0x02, 0x02, 0x14, 0x26, 0xa1,
    0xc0, 0x31, 0x99, 0xaf, 0x39, 0x56, 0xf7, 0x0d, 0x1b, 0xbe, 0x07, 0xb6, 0x26, 0xbb, 0x84, 0x1a,
    0xdf, 0x94, 0x30, 0x0a, 0x06, 0x08, 0x2a, 0x86, 0x48, 0xce, 0x3d, 0x04, 0x03, 0x02, 0x30, 0x0e,
    0x31, 0x0c, 0x30, 0x0a, 0x06, 0x03, 0x55, 0x04, 0x03, 0x14, 0x03, 0x61, 0x5f, 0x62, 0x30, 0x1e,
    0x17, 0x0d, 0x32, 0x36, 0x31, 0x31, 0x31, 0x38, 0x32, 0x33, 0x30, 0x31, 0x32, 0x30, 0x5a, 0x17,
    0x0d, 0x33, 0x36, 0x31, 0x31, 0x31, 0x35, 0x32, 0x33, 0x30, 0x31, 0x32, 0x30, 0x5a, 0x30, 0x0e,
    0x31, 0x0c, 0x30, 0x0a, 0x06, 0x03, 0x55, 0x04, 0x03, 0x14, 0x03, 0x61, 0x5f, 0x62, 0x30, 0x59,
    0x30, 0x13, 0x06, 0x07, 0x2a, 0x86, 0x48, 0xce, 0x3d, 0x02, 0x01, 0x06, 0x08, 0x2a, 0x86, 0x48,
    0xce, 0x3d, 0x03, 0x01, 0x07, 0x03, 0x42, 0x00, 0x04, 0x97, 0x1c, 0x99, 0x27, 0xa9, 0x5a, 0x85,
    0xc9, 0x93, 0x56, 0x7d, 0x22, 0x5b, 0x13, 0xb1, 0xf2, 0x61, 0xc2, 0xdd, 0x52, 0x49, 0xeb, 0x3b,
    0x72, 0x53, 0x34, 0x17, 0xe0, 0x1e, 0x8a, 0xe3, 0xdd, 0x4c, 0xe2, 0xe6, 0xac, 0x87, 0x27, 0x9c,
    0x4e, 0xb0, 0x82, 0x3f, 0xeb, 0x36, 0xee, 0x21, 0x2f, 0x8c, 0x5d, 0x1c, 0x63, 0x04, 0xed, 0xfb,
    0x1a, 0x6f, 0x12, 0xb2, 0xbb, 0x58, 0x02, 0xfa, 0xda, 0xa3, 0x21, 0x30, 0x1f, 0x30, 0x1d, 0x06,
    0x03, 0x55, 0x1d, 0x0e, 0x04, 0x16, 0x04, 0x14, 0x9d, 0xe0, 0x52, 0x51, 0xaa, 0x74, 0xc9, 0xa0,
    0x87, 0xcd, 0x59, 0xc8, 0x27, 0xdd, 0xe6, 0xac, 0x07, 0x37, 0xd8, 0x7e, 0x30, 0x0a, 0x06, 0x08,
    0x2a, 0x86, 0x48, 0xce, 0x3d, 0x04, 0x03, 0x02, 0x03, 0x47, 0x00, 0x30, 0x44, 0x02, 0x20, 0x7f,
    0xe6, 0x56, 0xf4, 0xcc, 0x24, 0xcb, 0x0c, 0x69, 0x15, 0x8e, 0x00, 0x0d, 0xe5, 0x0f, 0xa5, 0x45,
    0xfb, 0x64, 0x87, 0x0e, 0xa8, 0x7c, 0x05, 0x32, 0x24, 0x3e, 0x55, 0xa9, 0x2e, 0xf9, 0x11, 0x02,
    0x20, 0x63, 0x4f, 0x2c, 0xd4, 0x85, 0xb4, 0x01, 0x88, 0x29, 0x5f, 0xba, 0x97, 0x6a, 0xe4, 0x05,
    0x39, 0x49, 0x4c, 0x1e, 0xfc, 0x61, 0x09, 0xc0, 0x0f, 0xbd, 0x49, 0x37, 0xd9, 0x9a, 0x99, 0xd2,
    0x82,
];

const LAPTOP_FINGERPRINT: &str = "a56f8752e15e4e7bad302f943f82805e0e00f679ee77ad1319681ba5b25205b9";

#[test]
fn fingerprint_is_lower_hex_sha256() {
    assert_eq!(
        fingerprint(b"abc"),
        "ba7816bf8f01cfea414140de5dae2223b00361a396177a9cb410ff61f20015ad"
    );
    assert_eq!(
        fingerprint(b""),
        "e3b0c44298fc1c149afbf4c8996fb92427ae41e4649b934ca495991b7852b855"
    );
}

#[test]
fn session_base64_text() {
    let bytes: [u8; 16] = [0, 1, 2, 3, 4, 5, 6, 7, 8, 9, 10, 11, 12, 13, 14, 15];
    assert_eq!(SessionId::from_uuid(bytes).base64_repr(), "AAECAwQFBgcICQoLDA0ODw==");
    assert_eq!(SessionId::from_uuid([3u8; 16]).base64_repr(), "AwMDAwMDAwMDAwMDAwMDAw==");
}

#[test]
fn random_session_is_version_4() {
    let u = SessionId::new().uuid();
    assert_eq!(u[6] >> 4, 4);
    assert_eq!(u[8] >> 6, 2);
}

#[test]
fn certificate_fingerprint() {
    assert_eq!(fingerprint(CERT_LAPTOP), LAPTOP_FINGERPRINT);
}

#[test]
fn trusted_certificate_is_accepted() {
    let trusted = StringSet::from_vec(&vec!["00".to_string(), LAPTOP_FINGERPRINT.to_string()]);
    assert!(matches!(verify_client_cert(&trusted, CERT_LAPTOP), CertVerdict::Trusted));
}

#[test]
fn trusted_fingerprint_needs_no_parse() {
    let junk = b"not a certificate";
    let trusted = StringSet::from_vec(&vec![fingerprint(junk)]);
    assert!(matches!(verify_client_cert(&trusted, junk), CertVerdict::Trusted));
}

#[test]
fn unknown_certificate_becomes_pairing_candidate() {
    match verify_client_cert(&StringSet::new(), CERT_LAPTOP) {
        CertVerdict::Rejected(r) => {
            assert_eq!(r.message(), "missing permission for connection");
            match r {
                CertRejection::NotPermitted(c) => {
                    assert_eq!(c.hostname.as_str(), "laptop");
                    assert_eq!(c.id, LAPTOP_FINGERPRINT);
                }
                _ => panic!("expected a pairing candidate"),
            }
        }
        CertVerdict::Trusted => panic!("not trusted"),
    }
}

#[test]
fn malformed_certificate_is_refused() {
    match verify_client_cert(&StringSet::new(), b"garbage") {
        CertVerdict::Rejected(r @ CertRejection::Malformed(_)) => {
            let text = r.message();
            assert!(!text.is_empty());
            match r {
                CertRejection::Malformed(detail) => assert_eq!(text, detail),
                _ => unreachable!(),
            }
        }
        _ => panic!("expected a malformed certificate"),
    }
}

#[test]
fn certificate_without_common_name_is_refused() {
    match verify_client_cert(&StringSet::new(), CERT_NO_COMMON_NAME) {
        CertVerdict::Rejected(r) => {
            assert_eq!(r.message(), "Missing CommonName");
            assert!(matches!(r, CertRejection::MissingCommonName));
        }
        _ => panic!("expected refusal"),
    }
}

#[test]
fn certificate_with_teletex_common_name_is_refused() {
    match verify_client_cert(&StringSet::new(), CERT_TELETEX_COMMON_NAME) {
        CertVerdict::Rejected(r) => {
            assert_eq!(r.message(), "Invalid CommonName encoding");
            assert!(matches!(r, CertRejection::InvalidCommonName));
        }
        _ => panic!("expected refusal"),
    }
}
