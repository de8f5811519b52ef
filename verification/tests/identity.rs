use identity_health::authn::{
    AuthentifierConfig, AuthnError, Request, RequestHeaderAuthentifierConfig, Resolution, Status,
    SubjectIdentity, UserInfo,
};

fn cert_with_subject() -> Vec<u8> {
    // Subject: OU=team-a, OU=team-b, CN=alice, CN=bob
    vec![
        48, 130, 1, 149, 48, 130, 1, 71, 160, 3, 2, 1, 2, 2, 20, 47, 106, 195, 127, 206, 250, 216,
        152, 67, 34, 210, 167, 214, 183, 91, 10, 11, 116, 101, 247, 48, 5, 6, 3, 43, 101, 112, 48,
        64, 49, 15, 48, 13, 6, 3, 85, 4, 11, 12, 6, 116, 101, 97, 109, 45, 97, 49, 15, 48, 13, 6,
        3, 85, 4, 11, 12, 6, 116, 101, 97, 109, 45, 98, 49, 14, 48, 12, 6, 3, 85, 4, 3, 12, 5, 97,
        108, 105, 99, 101, 49, 12, 48, 10, 6, 3, 85, 4, 3, 12, 3, 98, 111, 98, 48, 30, 23, 13, 50,
        54, 49, 48, 48, 57, 48, 57, 53, 48, 51, 49, 90, 23, 13, 51, 54, 49, 48, 48, 54, 48, 57, 53,
        48, 51, 49, 90, 48, 64, 49, 15, 48, 13, 6, 3, 85, 4, 11, 12, 6, 116, 101, 97, 109, 45, 97,
        49, 15, 48, 13, 6, 3, 85, 4, 11, 12, 6, 116, 101, 97, 109, 45, 98, 49, 14, 48, 12, 6, 3,
        85, 4, 3, 12, 5, 97, 108, 105, 99, 101, 49, 12, 48, 10, 6, 3, 85, 4, 3, 12, 3, 98, 111,
        98, 48, 42, 48, 5, 6, 3, 43, 101, 112, 3, 33, 0, 153, 244, 253, 232, 76, 118, 91, 19, 17,
        136, 254, 19, 43, 233, 132, 248, 119, 17, 38, 217, 180, 128, 29, 9, 140, 103, 156, 56,
        200, 50, 108, 155, 163, 83, 48, 81, 48, 29, 6, 3, 85, 29, 14, 4, 22, 4, 20, 43, 44, 2,
        208, 184, 29, 135, 111, 64, 67, 135, 143, 203, 15, 16, 179, 17, 178, 57, 43, 48, 31, 6, 3,
        85, 29, 35, 4, 24, 48, 22, 128, 20, 43, 44, 2, 208, 184, 29, 135, 111, 64, 67, 135, 143,
        203, 15, 16, 179, 17, 178, 57, 43, 48, 15, 6, 3, 85, 29, 19, 1, 1, 255, 4, 5, 48, 3, 1, 1,
        255, 48, 5, 6, 3, 43, 101, 112, 3, 65, 0, 159, 162, 127, 61, 153, 155, 175, 9, 91, 30,
        164, 83, 222, 135, 116, 63, 243, 42, 10, 51, 173, 232, 104, 25, 93, 132, 252, 235, 44,
        142, 241, 113, 50, 159, 0, 52, 45, 88, 90, 241, 11, 208, 105, 150, 94, 97, 55, 230, 213,
        20, 77, 131, 240, 73, 229, 252, 58, 187, 138, 49, 32, 118, 234, 14,
    ]
}

fn cert_without_common_name() -> Vec<u8> {
    // Subject: O=acme (no common name, no organizational unit)
    vec![
        48, 130, 1, 50, 48, 129, 229, 160, 3, 2, 1, 2, 2, 20, 107, 212, 54, 221, 96, 202, 209, 54,
        190, 64, 184, 237, 250, 127, 109, 249, 230, 189, 255, 88, 48, 5, 6, 3, 43, 101, 112, 48,
        15, 49, 13, 48, 11, 6, 3, 85, 4, 10, 12, 4, 97, 99, 109, 101, 48, 30, 23, 13, 50, 54, 49,
        48, 48, 57, 48, 57, 53, 48, 52, 52, 90, 23, 13, 51, 54, 49, 48, 48, 54, 48, 57, 53, 48,
        52, 52, 90, 48, 15, 49, 13, 48, 11, 6, 3, 85, 4, 10, 12, 4, 97, 99, 109, 101, 48, 42, 48,
        5, 6, 3, 43, 101, 112, 3, 33, 0, 244, 44, 80, 58, 173, 217, 0, 193, 125, 41, 56, 181, 215,
        90, 186, 221, 68, 123, 217, 214, 144, 4, 16, 137, 219, 100, 41, 53, 235, 128, 69, 227,
        163, 83, 48, 81, 48, 29, 6, 3, 85, 29, 14, 4, 22, 4, 20, 141, 28, 19, 49, 212, 241, 252,
        106, 185, 132, 202, 174, 55, 160, 15, 17, 59, 199, 148, 39, 48, 31, 6, 3, 85, 29, 35, 4,
        24, 48, 22, 128, 20, 141, 28, 19, 49, 212, 241, 252, 106, 185, 132, 202, 174, 55, 160, 15,
        17, 59, 199, 148, 39, 48, 15, 6, 3, 85, 29, 19, 1, 1, 255, 4, 5, 48, 3, 1, 1, 255, 48, 5,
        6, 3, 43, 101, 112, 3, 65, 0, 94, 20, 10, 251, 66, 223, 102, 53, 18, 100, 223, 40, 84, 80,
        30, 195, 98, 114, 195, 174, 202, 234, 245, 56, 55, 105, 114, 154, 135, 1, 192, 196, 90,
        130, 67, 96, 49, 128, 22, 180, 218, 253, 56, 80, 36, 192, 247, 227, 99, 235, 87, 238, 242,
        138, 241, 57, 76, 235, 200, 66, 115, 63, 17, 7,
    ]
}

fn header_config() -> AuthentifierConfig {
    AuthentifierConfig {
        request_header: Some(RequestHeaderAuthentifierConfig {
            username: "X-User".to_string(),
            group: "X-Group".to_string(),
        }),
    }
}

fn some_strings(values: &[&str]) -> Vec<Option<String>> {
    values.iter().map(|v| Some(v.to_string())).collect()
}

#[test]
fn last_common_name_wins() {
    let subject = SubjectIdentity {
        common_names: some_strings(&["a", "b", "c"]),
        org_units: Vec::new(),
    };
    let user = UserInfo::parse_from_subject(&subject);
    assert_eq!(user.username, "c");
}

#[test]
fn missing_common_name_gets_sentinel() {
    let subject = SubjectIdentity { common_names: Vec::new(), org_units: some_strings(&["x"]) };
    let user = UserInfo::parse_from_subject(&subject);
    assert_eq!(user.username, "system:missing");
    assert_eq!(user.groups, vec!["x".to_string()]);
}

#[test]
fn groups_keep_order_and_duplicates() {
    let subject = SubjectIdentity {
        common_names: some_strings(&["carol"]),
        org_units: some_strings(&["x", "y", "x"]),
    };
    let user = UserInfo::parse_from_subject(&subject);
    assert_eq!(user.groups, vec!["x".to_string(), "y".to_string(), "x".to_string()]);
}

#[test]
fn undecodable_attributes_are_skipped() {
    let subject = SubjectIdentity {
        common_names: vec![Some("a".to_string()), None, Some("b".to_string())],
        org_units: vec![Some("x".to_string()), None],
    };
    let user = UserInfo::parse_from_subject(&subject);
    assert_eq!(user.username, "b");
    assert_eq!(user.groups, vec!["x".to_string()]);
}

#[test]
fn member_of_is_exact_string_equality() {
    let user = UserInfo {
        username: "carol".to_string(),
        groups: vec!["dev".to_string(), "ops".to_string()],
    };
    assert!(user.member_of("dev"));
    assert!(user.member_of("ops"));
    assert!(!user.member_of("Dev"));
    assert!(!user.member_of("qa"));
}

#[test]
fn credential_wins_over_headers() {
    let request = Request {
        client_certificate: Some(cert_with_subject()),
        headers: vec![
            ("X-User".to_string(), "carol".to_string()),
            ("X-Group".to_string(), "spoofed".to_string()),
        ],
    };
    let cfg = header_config();
    match UserInfo::from_request(&request, Some(&cfg)) {
        Resolution::Succeeded(user) => {
            assert_eq!(user.username, "bob");
            assert_eq!(user.groups, vec!["team-a".to_string(), "team-b".to_string()]);
        }
        _ => panic!("expected an identity from the certificate"),
    }
}

#[test]
fn certificate_without_common_name_gets_sentinel() {
    let request =
        Request { client_certificate: Some(cert_without_common_name()), headers: Vec::new() };
    match UserInfo::from_request(&request, None) {
        Resolution::Succeeded(user) => {
            assert_eq!(user.username, "system:missing");
            assert!(user.groups.is_empty());
        }
        _ => panic!("expected an identity from the certificate"),
    }
}

#[test]
fn malformed_credential_fails_despite_headers() {
    let request = Request {
        client_certificate: Some(vec![1, 2, 3]),
        headers: vec![("X-User".to_string(), "carol".to_string())],
    };
    let cfg = header_config();
    match UserInfo::from_request(&request, Some(&cfg)) {
        Resolution::Failed(status, error) => {
            assert_eq!(status, Status::InternalError);
            assert_eq!(error, AuthnError::CertificateParse);
        }
        _ => panic!("expected a hard failure"),
    }
}

#[test]
fn header_fallback_resolves_username_and_groups() {
    let request = Request {
        client_certificate: None,
        headers: vec![
            ("Accept".to_string(), "text/plain".to_string()),
            ("X-User".to_string(), "carol".to_string()),
            ("X-Group".to_string(), "a".to_string()),
            ("X-Group".to_string(), "b".to_string()),
        ],
    };
    let cfg = header_config();
    match UserInfo::from_request(&request, Some(&cfg)) {
        Resolution::Succeeded(user) => {
            assert_eq!(user.username, "carol");
            assert_eq!(user.groups, vec!["a".to_string(), "b".to_string()]);
        }
        _ => panic!("expected an identity from the headers"),
    }
}

#[test]
fn missing_username_header_is_not_applicable() {
    let request = Request {
        client_certificate: None,
        headers: vec![("X-Group".to_string(), "a".to_string())],
    };
    let cfg = header_config();
    assert!(matches!(
        UserInfo::from_request(&request, Some(&cfg)),
        Resolution::NotApplicable
    ));
}

#[test]
fn no_credential_and_no_config_is_not_applicable() {
    let request = Request {
        client_certificate: None,
        headers: vec![("X-User".to_string(), "carol".to_string())],
    };
    assert!(matches!(UserInfo::from_request(&request, None), Resolution::NotApplicable));
    let disabled = AuthentifierConfig { request_header: None };
    assert!(matches!(
        UserInfo::from_request(&request, Some(&disabled)),
        Resolution::NotApplicable
    ));
}
