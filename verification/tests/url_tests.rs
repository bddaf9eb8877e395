use gotify_core::dataurl::decode_data_url_bytes;
use gotify_core::dataurl::icon_response_decision;
use gotify_core::dataurl::IconDecision;
use gotify_core::netpolicy::is_blocked_preview_hostname;
use gotify_core::netpolicy::preview_block_reason_v4;
use gotify_core::netpolicy::preview_block_reason_v6;
use gotify_core::urls::applications_endpoint;
use gotify_core::urls::build_stream_ws_url;
use gotify_core::urls::check_external_url;
use gotify_core::urls::delete_message_endpoint;
use gotify_core::urls::delete_status_acceptable;
use gotify_core::urls::normalize_base_url;
use gotify_core::urls::recent_messages_endpoint;
use gotify_core::urls::validate_delete_request;

#[test]
fn base_url_is_trimmed_and_validated() {
    assert_eq!(normalize_base_url("  https://example.com/  "), Ok(String::from("https://example.com")));
    assert_eq!(normalize_base_url("http://example.com"), Ok(String::from("http://example.com")));
    assert_eq!(normalize_base_url("https://example.com///"), Ok(String::from("https://example.com")));
    assert_eq!(normalize_base_url("   "), Err(String::from("Server URL is required")));
    assert_eq!(normalize_base_url("not a url"), Err(String::from("Invalid server URL")));
    assert_eq!(
        normalize_base_url("ftp://example.com"),
        Err(String::from("Server URL must start with http:// or https://"))
    );
}

#[test]
fn stream_url_maps_scheme_and_appends_path() {
    assert_eq!(build_stream_ws_url("http://example.com"), Ok(String::from("ws://example.com/stream")));
    assert_eq!(
        build_stream_ws_url("https://example.com"),
        Ok(String::from("wss://example.com/stream"))
    );
    assert_eq!(
        build_stream_ws_url("https://example.com/gotify/"),
        Ok(String::from("wss://example.com/gotify/stream"))
    );
    assert_eq!(
        build_stream_ws_url("https://example.com:8443/sub"),
        Ok(String::from("wss://example.com:8443/sub/stream"))
    );
    assert_eq!(build_stream_ws_url("%%%"), Err(String::from("Invalid server URL")));
    assert_eq!(
        build_stream_ws_url("ftp://example.com"),
        Err(String::from("Server URL must start with http:// or https://"))
    );
}

#[test]
fn external_links_allow_web_and_mail_schemes_only() {
    assert_eq!(
        check_external_url("  https://example.com/page  "),
        Ok(String::from("https://example.com/page"))
    );
    assert_eq!(check_external_url("mailto:user@example.com"), Ok(String::from("mailto:user@example.com")));
    assert_eq!(check_external_url(""), Err(String::from("Missing URL")));
    assert_eq!(check_external_url("%%%"), Err(String::from("Invalid URL")));
    assert_eq!(
        check_external_url("javascript:alert(1)"),
        Err(String::from("Unsupported URL scheme: javascript"))
    );
}

#[test]
fn api_endpoints_are_built_exactly() {
    assert_eq!(
        recent_messages_endpoint("http://h", 25, None),
        "http://h/message?limit=25"
    );
    assert_eq!(
        recent_messages_endpoint("http://h", 25, Some(96)),
        "http://h/message?limit=25&since=96"
    );
    assert_eq!(applications_endpoint("http://h"), "http://h/application");
    assert_eq!(delete_message_endpoint("http://h", 42), "http://h/message/42");
}

#[test]
fn delete_request_validation() {
    assert_eq!(validate_delete_request(None, None), Err(String::from("Missing message id")));
    assert_eq!(validate_delete_request(Some(-1), None), Err(String::from("Invalid message id")));
    assert_eq!(validate_delete_request(Some(0), Some(9)), Err(String::from("Invalid message id")));
    assert_eq!(validate_delete_request(None, Some(5)), Ok(5));
    assert_eq!(validate_delete_request(Some(3), Some(9)), Ok(3));
}

#[test]
fn delete_statuses_accept_success_and_absent() {
    assert!(delete_status_acceptable(200));
    assert!(delete_status_acceptable(204));
    assert!(delete_status_acceptable(299));
    assert!(delete_status_acceptable(404));
    assert!(!delete_status_acceptable(199));
    assert!(!delete_status_acceptable(300));
    assert!(!delete_status_acceptable(401));
    assert!(!delete_status_acceptable(500));
}

#[test]
fn preview_hostname_blocklist() {
    assert!(is_blocked_preview_hostname("localhost"));
    assert!(is_blocked_preview_hostname("LOCALHOST."));
    assert!(is_blocked_preview_hostname("sub.localhost"));
    assert!(is_blocked_preview_hostname("metadata"));
    assert!(is_blocked_preview_hostname("metadata.google.internal"));
    assert!(is_blocked_preview_hostname("Metadata.Azure.Internal"));
    assert!(is_blocked_preview_hostname("instance-data.ec2.internal"));
    assert!(is_blocked_preview_hostname("   "));
    assert!(!is_blocked_preview_hostname("example.com"));
    assert!(!is_blocked_preview_hostname("notlocalhost.example"));
}

#[test]
fn preview_ip_blocklist_v4() {
    assert_eq!(preview_block_reason_v4(0, 0, 0, 0), Some("unspecified"));
    assert_eq!(preview_block_reason_v4(127, 0, 0, 1), Some("loopback"));
    assert_eq!(preview_block_reason_v4(169, 254, 1, 1), Some("link-local"));
    assert_eq!(preview_block_reason_v4(169, 254, 169, 254), Some("link-local"));
    assert_eq!(preview_block_reason_v4(100, 100, 100, 200), Some("metadata endpoint"));
    assert_eq!(preview_block_reason_v4(8, 8, 8, 8), None);
    assert_eq!(preview_block_reason_v4(192, 168, 1, 1), None);
}

#[test]
fn preview_ip_blocklist_v6() {
    assert_eq!(preview_block_reason_v6(0, 0, 0, 0, 0, 0, 0, 0), Some("unspecified"));
    assert_eq!(preview_block_reason_v6(0, 0, 0, 0, 0, 0, 0, 1), Some("loopback"));
    assert_eq!(preview_block_reason_v6(0xfe80, 0, 0, 0, 0, 0, 0, 5), Some("link-local"));
    assert_eq!(
        preview_block_reason_v6(0xfd00, 0x0ec2, 0, 0, 0, 0, 0, 0x0254),
        Some("metadata endpoint")
    );
    assert_eq!(preview_block_reason_v6(0x2001, 0x4860, 0, 0, 0, 0, 0, 0x8888), None);
}

#[test]
fn data_url_decodes_base64_image_payload() {
    assert_eq!(decode_data_url_bytes("data:image/png;base64,aGk=", 100), Ok(vec![104u8, 105u8]));
    assert_eq!(
        decode_data_url_bytes("  data:IMAGE/PNG;BASE64, aGk= ", 100),
        Ok(vec![104u8, 105u8])
    );
}

#[test]
fn data_url_rejections_name_each_fault() {
    assert_eq!(
        decode_data_url_bytes("http://example.com/x.png", 100),
        Err(String::from("Not a data URL"))
    );
    assert_eq!(
        decode_data_url_bytes("data:image/png;base64", 100),
        Err(String::from("Malformed data URL"))
    );
    assert_eq!(
        decode_data_url_bytes("data:text/plain;base64,aGk=", 100),
        Err(String::from("Data URL is not an image"))
    );
    assert_eq!(
        decode_data_url_bytes("data:image/png,aGk=", 100),
        Err(String::from("Data URL is not base64 encoded"))
    );
    assert_eq!(
        decode_data_url_bytes("data:image/png;base64,!!", 100),
        Err(String::from("Invalid base64 payload"))
    );
    assert_eq!(
        decode_data_url_bytes("data:image/png;base64,aGk=", 1),
        Err(String::from("Data URL image too large"))
    );
}

#[test]
fn icon_responses_are_filtered_by_type_and_size() {
    assert_eq!(icon_response_decision("text/html", 10), IconDecision::NotImage);
    assert_eq!(icon_response_decision("IMAGE/PNG", 10), IconDecision::Keep);
    assert_eq!(icon_response_decision("image/png", 0), IconDecision::Skip);
    assert_eq!(icon_response_decision("image/png", 256000), IconDecision::Keep);
    assert_eq!(icon_response_decision("image/png", 256001), IconDecision::TooLarge);
}
