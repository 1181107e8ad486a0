use std::str::FromStr;

use open_menu_standard::OMS_VERSION;
use open_menu_standard::OmsError;
use open_menu_standard::types::CustomizationType;

#[test]
fn test_version() {
    assert_eq!(OMS_VERSION, "1.0");
}

#[test]
fn test_customization_type_display() {
    assert_eq!(CustomizationType::SingleSelect.token(), "single_select");
    assert_eq!(CustomizationType::MultiSelect.token(), "multi_select");
    assert_eq!(CustomizationType::Quantity.token(), "quantity");
    assert_eq!(CustomizationType::Boolean.token(), "boolean");
    assert_eq!(CustomizationType::Text.token(), "text");
    assert_eq!(CustomizationType::Range.token(), "range");
}

#[test]
fn test_error_messages() {
    assert_eq!(
        OmsError::MissingRequiredField("order".to_string()).message(),
        "missing required field: order"
    );
    assert_eq!(
        OmsError::InvalidFieldValue("payment.total".to_string()).message(),
        "invalid field value: payment.total"
    );
    assert_eq!(OmsError::Validation.message(), "validation error");
}

#[test]
fn test_customization_type_from_str() {
    assert_eq!(
        CustomizationType::from_str("single_select").unwrap(),
        CustomizationType::SingleSelect
    );
    assert_eq!(
        CustomizationType::from_str("multi_select").unwrap(),
        CustomizationType::MultiSelect
    );
    assert!(CustomizationType::from_str("invalid").is_err());
}
