use sso_portal::client::{
    check_status, status_ok, token_request, Client, HttpMethod, SsoError, Timestamp,
    WireCredentials,
};
use sso_portal::model::AppInstance;

fn client_with_token(token: &str) -> Client {
    let body = format!("{{\"token\": \"{token}\"}}");
    Client::new("us-east-1", &body).expect("construction from a valid envelope")
}

fn instance_named(name: &str) -> AppInstance {
    AppInstance {
        id: String::from("ins-1"),
        name: String::from(name),
        description: String::new(),
        application_id: String::new(),
        application_name: String::new(),
        icon: String::new(),
        search_metadata: None,
    }
}

#[test]
fn construction_binds_token_in_both_header_spellings() {
    let client = client_with_token("tok-123");
    let req = client.app_instances_request();
    assert_eq!(req.headers.len(), 2);
    assert_eq!(
        req.headers[0],
        (
            String::from("x-amz-sso_bearer_token"),
            String::from("tok-123")
        )
    );
    assert_eq!(
        req.headers[1],
        (
            String::from("x-amz-sso-bearer-token"),
            String::from("tok-123")
        )
    );
    assert_eq!(
        req.url,
        "https://portal.sso.us-east-1.amazonaws.com/instance/appinstances"
    );
    assert!(matches!(req.method, HttpMethod::Get));
}

#[test]
fn construction_fails_on_invalid_json() {
    assert!(matches!(
        Client::new("us-east-1", "not json"),
        Err(SsoError::Decode)
    ));
}

#[test]
fn construction_fails_on_missing_token_field() {
    assert!(matches!(
        Client::new("us-east-1", "{\"other\": \"x\"}"),
        Err(SsoError::Decode)
    ));
}

#[test]
fn construction_fails_on_empty_token() {
    assert!(matches!(
        Client::new("us-east-1", "{\"token\": \"\"}"),
        Err(SsoError::Decode)
    ));
}

#[test]
fn token_request_carries_code_and_org() {
    let req = token_request("org-1", "code-9", "eu-west-2");
    assert!(matches!(req.method, HttpMethod::Post));
    assert_eq!(
        req.url,
        "https://portal.sso.eu-west-2.amazonaws.com/auth/sso-token"
    );
    assert_eq!(
        req.form,
        vec![
            (String::from("authCode"), String::from("code-9")),
            (String::from("orgId"), String::from("org-1")),
        ]
    );
    assert!(req.headers.is_empty());
}

#[test]
fn profiles_request_interpolates_instance_id() {
    let client = client_with_token("t");
    let req = client.profiles_request("ins-42");
    assert_eq!(
        req.url,
        "https://portal.sso.us-east-1.amazonaws.com/instance/appinstance/ins-42/profiles"
    );
    assert_eq!(req.headers.len(), 2);
}

#[test]
fn credentials_request_carries_account_role_and_debug() {
    let client = client_with_token("t");
    let req = client.credentials_request("123456789012", "Admin");
    assert_eq!(
        req.url,
        "https://portal.sso.us-east-1.amazonaws.com/federation/credentials/"
    );
    assert_eq!(
        req.query,
        vec![
            (String::from("account_id"), String::from("123456789012")),
            (String::from("role_name"), String::from("Admin")),
            (String::from("debug"), String::from("true")),
        ]
    );
    assert_eq!(req.headers.len(), 2);
}

#[test]
fn empty_result_list_is_empty_not_error() {
    let client = client_with_token("t");
    let instances = client.app_instances("{\"result\": []}").expect("empty page");
    assert!(instances.is_empty());
    let profiles = client.profiles("{\"result\": []}").expect("empty page");
    assert!(profiles.is_empty());
}

#[test]
fn list_preserves_wire_order() {
    let client = client_with_token("t");
    let body = "{\"paginationToken\": null, \"result\": [{\"id\": \"first\", \"name\": \"n1\", \"description\": \"d1\", \"applicationId\": \"a1\", \"applicationName\": \"an1\", \"icon\": \"i1\"},{\"id\": \"second\", \"name\": \"n2\", \"description\": \"d2\", \"applicationId\": \"a2\", \"applicationName\": \"an2\", \"icon\": \"i2\"}]}";
    let instances = client.app_instances(body).expect("two instances");
    assert_eq!(instances.len(), 2);
    assert_eq!(instances[0].id, "first");
    assert_eq!(instances[1].id, "second");
    assert_eq!(instances[1].application_name, "an2");
    assert!(instances[0].search_metadata.is_none());
}

#[test]
fn search_metadata_is_decoded_when_present() {
    let client = client_with_token("t");
    let body = "{\"result\": [{\"id\": \"x\", \"name\": \"n\", \"description\": \"d\", \"applicationId\": \"a\", \"applicationName\": \"an\", \"icon\": \"i\", \"searchMetadata\": {\"AccountId\": \"111122223333\", \"AccountName\": \"Sandbox\", \"AccountEmail\": \"sb@example.com\"}}]}";
    let instances = client.app_instances(body).expect("one instance");
    let sm = instances[0].search_metadata.as_ref().expect("metadata");
    assert_eq!(sm.account_id, "111122223333");
    assert_eq!(sm.account_name, "Sandbox");
    assert_eq!(sm.account_email, "sb@example.com");
}

#[test]
fn malformed_entry_fails_the_whole_list() {
    let client = client_with_token("t");
    let body = "{\"result\": [{\"id\": \"ok\", \"name\": \"n\", \"description\": \"d\", \"applicationId\": \"a\", \"applicationName\": \"an\", \"icon\": \"i\"},{\"name\": \"missing id\"}]}";
    assert!(matches!(client.app_instances(body), Err(SsoError::Decode)));
}

#[test]
fn invalid_json_fails_with_decode_kind() {
    let client = client_with_token("t");
    assert!(matches!(
        client.app_instances("{\"result\": ["),
        Err(SsoError::Decode)
    ));
    assert!(matches!(client.profiles("[1, 2"), Err(SsoError::Decode)));
    assert!(matches!(client.credentials("zzz"), Err(SsoError::Decode)));
}

#[test]
fn missing_result_field_fails() {
    let client = client_with_token("t");
    assert!(matches!(
        client.app_instances("{\"paginationToken\": \"p\"}"),
        Err(SsoError::Decode)
    ));
}

#[test]
fn profiles_decode_with_optional_relay_state() {
    let client = client_with_token("t");
    let body = "{\"result\": [{\"id\": \"p1\", \"name\": \"Admin\", \"description\": \"d\", \"url\": \"https://example.com\", \"protocol\": \"SAML\", \"relayState\": \"deep-link\"},{\"id\": \"p2\", \"name\": \"ReadOnly\", \"description\": \"d\", \"url\": \"https://example.com\", \"protocol\": \"SAML\"}]}";
    let profiles = client.profiles(body).expect("two profiles");
    assert_eq!(profiles[0].relay_state.as_deref(), Some("deep-link"));
    assert!(profiles[1].relay_state.is_none());
    assert_eq!(profiles[1].name, "ReadOnly");
}

#[test]
fn credentials_decode_and_expiry_conversion() {
    let client = client_with_token("t");
    let body = "{\"roleCredentials\": {\"accessKeyId\": \"AKIDEXAMPLE\",\"secretAccessKey\": \"SECRET\",\"sessionToken\": \"SESSION\",\"expiration\": 1700000000000}}";
    let creds = client.credentials(body).expect("credentials");
    assert_eq!(creds.access_key_id, "AKIDEXAMPLE");
    assert_eq!(creds.secret_access_key, "SECRET");
    assert_eq!(creds.session_token, "SESSION");
    assert_eq!(creds.expiration.secs, 1_700_000_000);
    assert_eq!(creds.expiration.millis, 0);
}

#[test]
fn credentials_with_fractional_expiry_millis() {
    let ts = Timestamp::from_epoch_millis(1_700_000_000_123);
    assert_eq!(ts.secs, 1_700_000_000);
    assert_eq!(ts.millis, 123);
}

#[test]
fn credentials_envelope_mismatch_fails() {
    let client = client_with_token("t");
    assert!(matches!(
        client.credentials("{\"roleCredentials\": {\"accessKeyId\": \"A\"}}"),
        Err(SsoError::Decode)
    ));
    assert!(matches!(
        client.credentials("{\"accessKeyId\": \"A\"}"),
        Err(SsoError::Decode)
    ));
    // an expiration outside the plain-integer form is a decode failure
    assert!(matches!(
        client.credentials(
            "{\"roleCredentials\": {\"accessKeyId\": \"A\", \"secretAccessKey\": \"S\", \
             \"sessionToken\": \"T\", \"expiration\": 1.7e12}}"
        ),
        Err(SsoError::Decode)
    ));
}

#[test]
fn wire_credentials_convert_once() {
    let wire = WireCredentials {
        access_key_id: String::from("A"),
        secret_access_key: String::from("S"),
        session_token: String::from("T"),
        expiration: 999,
    };
    let creds = wire.into_credentials();
    assert_eq!(creds.expiration.secs, 0);
    assert_eq!(creds.expiration.millis, 999);
}

#[test]
fn pagination_token_is_read_but_not_followed() {
    let body = "{\"paginationToken\": \"next-page\", \"result\": []}";
    let page = sso_portal::client::parse_app_instance_page(body).expect("page");
    assert_eq!(page.pagination_token.as_deref(), Some("next-page"));
    assert!(page.result.is_empty());
}

#[test]
fn string_escapes_are_decoded() {
    let client = client_with_token("t");
    let body = "{\"result\": [{\"id\": \"\\u0041\\\"q\\\\\", \"name\": \"line\\nbreak\", \
                \"description\": \"\", \"applicationId\": \"\", \"applicationName\": \"\", \
                \"icon\": \"\"}]}";
    let instances = client.app_instances(body).expect("escaped instance");
    assert_eq!(instances[0].id, "A\"q\\");
    assert_eq!(instances[0].name, "line\nbreak");
}

#[test]
fn name_parser_extracts_id_and_account_name() {
    let instance = instance_named("123456789012 (Production Account)");
    assert_eq!(instance.account_id(), Some("123456789012"));
    assert_eq!(instance.account_name(), Some("Production Account"));
}

#[test]
fn name_parser_yields_none_without_digits_or_parens() {
    let instance = instance_named("Shared Services");
    assert_eq!(instance.account_id(), None);
    assert_eq!(instance.account_name(), None);
}

#[test]
fn name_parser_takes_first_group_only() {
    let instance = instance_named("12 Dev (A) (B)");
    assert_eq!(instance.account_name(), Some("A"));
    assert_eq!(instance.account_id(), Some("12"));
}

#[test]
fn name_parser_ignores_empty_group() {
    let instance = instance_named("() nothing");
    assert_eq!(instance.account_name(), None);
}

#[test]
fn status_classification() {
    assert!(status_ok(200));
    assert!(status_ok(204));
    assert!(!status_ok(199));
    assert!(!status_ok(301));
    assert!(!status_ok(500));
    assert!(check_status(201, String::new()).is_ok());
    match check_status(403, String::from("denied")) {
        Err(SsoError::Remote { status, body }) => {
            assert_eq!(status, 403);
            assert_eq!(body, "denied");
        }
        _ => panic!("a non-success status must be a remote rejection"),
    }
}

#[test]
fn unknown_fields_and_whitespace_are_tolerated() {
    let client = client_with_token("t");
    let body = "  {\n  \"extra\": {\"nested\": [1, -2.5e3, true, null, {\"deep\": []}]},\n  \"result\": [\n    {\"id\": \"x\", \"name\": \"n\", \"description\": \"d\",\n     \"applicationId\": \"a\", \"applicationName\": \"an\", \"icon\": \"i\",\n     \"unknownFlag\": false}\n  ]\n }  ";
    let instances = client.app_instances(body).expect("instance with unknown fields");
    assert_eq!(instances.len(), 1);
    assert_eq!(instances[0].id, "x");
}

#[test]
fn trailing_garbage_after_document_fails() {
    let client = client_with_token("t");
    assert!(matches!(
        client.app_instances("{\"result\": []} x"),
        Err(SsoError::Decode)
    ));
}

#[test]
fn name_parser_steps_over_empty_group() {
    let instance = instance_named("() (A)");
    assert_eq!(instance.account_name(), Some("A"));
}

#[test]
fn string_escapes_cover_the_full_range() {
    let client = client_with_token("t");
    let body = "{\"result\": [{\"id\": \"x\", \"name\": \"Producci\\u00f3n \\uD83D\\uDE00\", \"description\": \"\", \"applicationId\": \"\", \"applicationName\": \"\", \"icon\": \"\"}]}";
    let instances = client.app_instances(body).expect("escaped name");
    assert_eq!(instances[0].name, "Producci\u{00f3}n \u{1F600}");
}

#[test]
fn lone_surrogate_escape_fails() {
    let client = client_with_token("t");
    let high_alone = "{\"result\": [{\"id\": \"\\uD83D\", \"name\": \"\", \"description\": \"\", \"applicationId\": \"\", \"applicationName\": \"\", \"icon\": \"\"}]}";
    assert!(matches!(
        client.app_instances(high_alone),
        Err(SsoError::Decode)
    ));
    let low_alone = "{\"result\": [{\"id\": \"\\uDE00\", \"name\": \"\", \"description\": \"\", \"applicationId\": \"\", \"applicationName\": \"\", \"icon\": \"\"}]}";
    assert!(matches!(
        client.app_instances(low_alone),
        Err(SsoError::Decode)
    ));
}

#[test]
fn nesting_beyond_the_bound_fails() {
    let client = client_with_token("t");
    let mut body = String::from("{\"extra\": ");
    for _ in 0..200 {
        body.push('[');
    }
    for _ in 0..200 {
        body.push(']');
    }
    body.push_str(", \"result\": []}");
    assert!(matches!(client.app_instances(&body), Err(SsoError::Decode)));
    let mut shallow = String::from("{\"extra\": ");
    for _ in 0..20 {
        shallow.push('[');
    }
    for _ in 0..20 {
        shallow.push(']');
    }
    shallow.push_str(", \"result\": []}");
    assert!(client.app_instances(&shallow).unwrap().is_empty());
}

#[test]
fn duplicate_key_reads_the_first_occurrence() {
    let built = Client::new("us-east-1", "{\"token\": \"one\", \"token\": \"two\"}")
        .expect("first occurrence wins");
    let req = built.app_instances_request();
    assert_eq!(req.headers[0].1, "one");
}
