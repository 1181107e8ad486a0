use open_menu_standard::OmsError;
use open_menu_standard::url::add_custom_params;
use open_menu_standard::url::create_customize_url;
use open_menu_standard::url::create_oms_url;
use open_menu_standard::url::create_order_url;
use open_menu_standard::url::create_share_url;
use open_menu_standard::url::create_vendor_url;
use open_menu_standard::url::decode_text_from_param;
use open_menu_standard::url::encode_text_as_param;
use open_menu_standard::url::parse_oms_url;

#[test]
fn test_parse_oms_url() {
    let url = "omenu://order?v=test-vendor&i=test-item";
    let params = parse_oms_url(url).unwrap();

    assert_eq!(params.get("action").unwrap().as_str(), "order");
    assert_eq!(params.get("v").unwrap().as_str(), "test-vendor");
    assert_eq!(params.get("i").unwrap().as_str(), "test-item");

    let url = "omenu://customize?v=test-vendor&l=location-1&i=test-item&c=preset-1";
    let params = parse_oms_url(url).unwrap();

    assert_eq!(params.get("action").unwrap().as_str(), "customize");
    assert_eq!(params.get("v").unwrap().as_str(), "test-vendor");
    assert_eq!(params.get("l").unwrap().as_str(), "location-1");
    assert_eq!(params.get("i").unwrap().as_str(), "test-item");
    assert_eq!(params.get("c").unwrap().as_str(), "preset-1");

    let url = "https://example.com/";
    let result = parse_oms_url(url);
    assert!(result.is_err());
    assert_eq!(result, Err(OmsError::InvalidOmsUrl("https://example.com/".to_string())));
}

#[test]
fn test_parse_oms_url_last_write_wins() {
    let params = parse_oms_url("omenu://order?x=1&x=2").unwrap();
    assert_eq!(params.get("x").unwrap().as_str(), "2");

    // a bare key has an empty value; empty segments are skipped
    let params = parse_oms_url("omenu://view?flag&&v=a").unwrap();
    assert_eq!(params.get("flag").unwrap().as_str(), "");
    assert_eq!(params.get("v").unwrap().as_str(), "a");
}

#[test]
fn test_create_oms_url() {
    let url = create_oms_url("view", "test-vendor", None, None, None).unwrap();
    assert_eq!(url, "omenu://view?v=test-vendor");

    let url = create_oms_url(
        "order",
        "test-vendor",
        Some("location-1"),
        Some("test-item"),
        Some("preset-1"),
    )
    .unwrap();

    assert_eq!(url, "omenu://order?v=test-vendor&l=location-1&i=test-item&c=preset-1");
}

#[test]
fn test_helper_functions() {
    let url = create_vendor_url("test-vendor", None).unwrap();
    assert_eq!(url, "omenu://view?v=test-vendor");

    let url = create_order_url("test-vendor", "test-item", None, None).unwrap();
    assert_eq!(url, "omenu://order?v=test-vendor&i=test-item");

    let url = create_customize_url("test-vendor", "test-item", Some("location-1")).unwrap();
    assert_eq!(url, "omenu://customize?v=test-vendor&l=location-1&i=test-item");

    let url = create_share_url("test-vendor", Some("test-item"), None).unwrap();
    assert_eq!(url, "omenu://share?v=test-vendor&i=test-item");
}

#[test]
fn test_add_custom_params() {
    let url = "omenu://order?v=test-vendor&i=test-item";
    let params = vec![
        ("special".to_string(), "yes".to_string()),
        ("request".to_string(), "extra-sauce".to_string()),
    ];

    let result = add_custom_params(url, &params).unwrap();

    let parsed = parse_oms_url(&result).unwrap();
    assert_eq!(parsed.get("action").unwrap().as_str(), "order");
    assert_eq!(parsed.get("v").unwrap().as_str(), "test-vendor");
    assert_eq!(parsed.get("i").unwrap().as_str(), "test-item");
    assert_eq!(parsed.get("special").unwrap().as_str(), "yes");
    assert_eq!(parsed.get("request").unwrap().as_str(), "extra-sauce");

    let result = add_custom_params("https://example.com/", &params);
    assert!(result.is_err());
}

#[test]
fn test_deep_link_round_trip() {
    // building an order link for vendor v1, item i1, location l1 yields
    // exactly this string, and parsing it recovers every field
    let url = create_order_url("v1", "i1", Some("l1"), None).unwrap();
    assert_eq!(url, "omenu://order?v=v1&l=l1&i=i1");

    let params = parse_oms_url(&url).unwrap();
    assert_eq!(params.get("action").unwrap().as_str(), "order");
    assert_eq!(params.get("v").unwrap().as_str(), "v1");
    assert_eq!(params.get("l").unwrap().as_str(), "l1");
    assert_eq!(params.get("i").unwrap().as_str(), "i1");
}

#[test]
fn test_encode_decode_text_param() {
    // the encoding is real base64, not the input handed back
    let encoded = encode_text_as_param("hello");
    assert_eq!(encoded, "aGVsbG8=");

    let decoded = decode_text_from_param(&encoded).unwrap();
    assert_eq!(decoded, "hello");
}

#[test]
fn test_decode_param_errors() {
    // invalid base64 is told apart from invalid UTF-8
    let result = decode_text_from_param("!!!not-base64!!!");
    assert_eq!(
        result,
        Err(OmsError::InvalidFieldValue("Invalid base64 encoding".to_string()))
    );

    // "/w==" decodes to the lone byte 0xFF, which is not valid UTF-8
    let result = decode_text_from_param("/w==");
    assert_eq!(
        result,
        Err(OmsError::InvalidFieldValue("Invalid UTF-8 encoding".to_string()))
    );
}
