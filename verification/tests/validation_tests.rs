use open_menu_standard::OmsError;
use open_menu_standard::types::Address;
use open_menu_standard::types::Customization;
use open_menu_standard::types::CustomizationDefault;
use open_menu_standard::types::CustomizationOption;
use open_menu_standard::types::CustomizationSelection;
use open_menu_standard::types::CustomizationType;
use open_menu_standard::types::Delivery;
use open_menu_standard::types::Item;
use open_menu_standard::types::Metadata;
use open_menu_standard::types::OmsDocument;
use open_menu_standard::types::Order;
use open_menu_standard::types::OrderStatus;
use open_menu_standard::types::OrderType;
use open_menu_standard::types::Payment;
use open_menu_standard::types::PaymentStatus;
use open_menu_standard::types::SelectedCustomization;
use open_menu_standard::types::Vendor;
use open_menu_standard::validation::validate_customizations;
use open_menu_standard::validation::validate_document;
use open_menu_standard::validation::validate_order;
use open_menu_standard::validation::validate_selected_customizations;
use open_menu_standard::validation::validate_customization_type;
use open_menu_standard::validation::validate_vendor_type;

fn plain_option(id: &str, name: &str) -> CustomizationOption {
    CustomizationOption {
        id: id.to_string(),
        name: name.to_string(),
        price_adjustment: None,
        nutrition_adjustments: None,
        allergens: None,
        dietary_flags: None,
    }
}

fn single_select(id: &str, required: bool, default_id: &str, options: Vec<CustomizationOption>) -> Customization {
    Customization {
        id: id.to_string(),
        name: id.to_string(),
        kind: CustomizationType::SingleSelect,
        required,
        default: CustomizationDefault::Text(default_id.to_string()),
        min_selections: None,
        max_selections: None,
        min: None,
        max: None,
        step: None,
        unit_price_adjustment: None,
        unit_nutrition_adjustments: None,
        options: Some(options),
    }
}

fn test_item(id: &str, base_price: Option<i64>) -> Item {
    Item {
        id: id.to_string(),
        name: "Item 1".to_string(),
        category: "test".to_string(),
        vendor_id: None,
        description: None,
        subcategory: None,
        image_url: None,
        base_price,
        currency: base_price.map(|_| "USD".to_string()),
        nutrition: None,
        customizations: None,
        selected_customizations: None,
        quantity: Some(1),
        item_note: None,
        calculated: None,
        components: None,
        availability: None,
        popularity: None,
    }
}

#[test]
fn test_validate_empty_document() {
    let doc = OmsDocument {
        oms_version: "1.0".to_string(),
        metadata: Metadata {
            created: chrono::Utc::now().timestamp(),
            source: "test".to_string(),
            locale: "en-US".to_string(),
        },
        vendor: Vendor {
            id: "test".to_string(),
            name: "Test Vendor".to_string(),
            kind: "restaurant".to_string(),
            location_id: None,
            location_name: None,
            address: None,
            contact: None,
            hours: None,
            cuisine: None,
            services: None,
        },
        items: vec![],
        order: None,
        extensions: None,
    };

    let result = validate_document(&doc);
    assert!(result.is_err());
}

#[test]
fn test_validate_customizations() {
    let single = single_select(
        "test-single",
        true,
        "option1",
        vec![plain_option("option1", "Option 1"), plain_option("option2", "Option 2")],
    );

    let result = validate_customizations(&[single.clone()]);
    assert!(result.is_ok());

    let mut invalid_default = single.clone();
    invalid_default.default = CustomizationDefault::Text("nonexistent".to_string());
    let result = validate_customizations(&[invalid_default]);
    assert!(result.is_err());

    let mut invalid_type = single.clone();
    invalid_type.default = CustomizationDefault::Number(1);
    let result = validate_customizations(&[invalid_type]);
    assert!(result.is_err());

    let mut missing_options = single;
    missing_options.options = None;
    let result = validate_customizations(&[missing_options]);
    assert!(result.is_err());
}

#[test]
fn test_validate_selected_customizations() {
    let customizations = vec![
        single_select(
            "test-single",
            true,
            "option1",
            vec![plain_option("option1", "Option 1"), plain_option("option2", "Option 2")],
        ),
        Customization {
            id: "test-multi".to_string(),
            name: "Test Multi".to_string(),
            kind: CustomizationType::MultiSelect,
            required: false,
            default: CustomizationDefault::TextArray(vec!["option1".to_string()]),
            min_selections: Some(0),
            max_selections: Some(2),
            min: None,
            max: None,
            step: None,
            unit_price_adjustment: None,
            unit_nutrition_adjustments: None,
            options: Some(vec![
                plain_option("option1", "Option 1"),
                plain_option("option2", "Option 2"),
            ]),
        },
    ];

    let selections = vec![
        SelectedCustomization {
            customization_id: "test-single".to_string(),
            selection: CustomizationSelection::Text("option2".to_string()),
        },
        SelectedCustomization {
            customization_id: "test-multi".to_string(),
            selection: CustomizationSelection::TextArray(vec![
                "option1".to_string(),
                "option2".to_string(),
            ]),
        },
    ];

    let result = validate_selected_customizations(&selections, &customizations);
    assert!(result.is_ok());

    let missing_required = vec![SelectedCustomization {
        customization_id: "test-multi".to_string(),
        selection: CustomizationSelection::TextArray(vec!["option1".to_string()]),
    }];
    let result = validate_selected_customizations(&missing_required, &customizations);
    assert!(result.is_err());

    let invalid_selection = vec![SelectedCustomization {
        customization_id: "test-single".to_string(),
        selection: CustomizationSelection::Text("nonexistent".to_string()),
    }];
    let result = validate_selected_customizations(&invalid_selection, &customizations);
    assert!(result.is_err());

    let invalid_type = vec![SelectedCustomization {
        customization_id: "test-single".to_string(),
        selection: CustomizationSelection::Number(1),
    }];
    let result = validate_selected_customizations(&invalid_type, &customizations);
    assert!(result.is_err());

    let nonexistent = vec![SelectedCustomization {
        customization_id: "nonexistent".to_string(),
        selection: CustomizationSelection::Text("option1".to_string()),
    }];
    let result = validate_selected_customizations(&nonexistent, &customizations);
    assert!(result.is_err());
}

#[test]
fn test_validate_order() {
    let items = vec![test_item("item1", Some(1000))];

    let order = Order {
        id: Some("order1".to_string()),
        status: Some(OrderStatus::Draft),
        created: Some(chrono::Utc::now().timestamp()),
        pickup_time: None,
        delivery_time: None,
        kind: Some(OrderType::Pickup),
        customer_notes: None,
        payment: Some(Payment {
            status: Some(PaymentStatus::Unpaid),
            method: None,
            subtotal: Some(1000),
            tax: Some(80),
            tip: Some(200),
            total: 1280,
            currency: "USD".to_string(),
        }),
        customer: None,
        delivery: None,
    };

    let result = validate_order(&order, &items);
    assert!(result.is_ok());

    let mut invalid_total = order.clone();
    if let Some(payment) = &mut invalid_total.payment {
        payment.total = 0;
    }
    let result = validate_order(&invalid_total, &items);
    assert!(result.is_err());

    let mut inconsistent = order.clone();
    if let Some(payment) = &mut inconsistent.payment {
        payment.total = 1500;
    }
    let result = validate_order(&inconsistent, &items);
    assert!(result.is_err());

    let mut missing_delivery = order.clone();
    missing_delivery.kind = Some(OrderType::Delivery);
    let result = validate_order(&missing_delivery, &items);
    assert!(result.is_err());

    let mut valid_delivery = order;
    valid_delivery.kind = Some(OrderType::Delivery);
    valid_delivery.delivery = Some(Delivery {
        address: Address {
            street: "123 Main St".to_string(),
            city: "Anytown".to_string(),
            region: "State".to_string(),
            postal_code: "12345".to_string(),
            country: "USA".to_string(),
        },
        instructions: None,
    });
    let result = validate_order(&valid_delivery, &items);
    assert!(result.is_ok());
}

#[test]
fn test_fail_fast_ordering() {
    // customization[0] fails an existence check (default not in options);
    // customization[1] fails a bounds check (numeric default below min);
    // the reported error must be customization[0]'s
    let bad_existence = single_select(
        "first-bad",
        false,
        "nonexistent",
        vec![plain_option("option1", "Option 1")],
    );
    let bad_bounds = Customization {
        id: "second-bad".to_string(),
        name: "Second".to_string(),
        kind: CustomizationType::Quantity,
        required: false,
        default: CustomizationDefault::Number(0),
        min_selections: None,
        max_selections: None,
        min: Some(1),
        max: Some(5),
        step: None,
        unit_price_adjustment: None,
        unit_nutrition_adjustments: None,
        options: None,
    };

    let result = validate_customizations(&[bad_existence, bad_bounds]);
    assert_eq!(result, Err(OmsError::InvalidFieldValue("first-bad".to_string())));
}

#[test]
fn test_completeness_gate() {
    // a required customization with no matching selection yields a
    // missing-required-field error, though every given selection is valid
    let customizations = vec![
        single_select(
            "required-one",
            true,
            "option1",
            vec![plain_option("option1", "Option 1")],
        ),
        single_select(
            "optional-one",
            false,
            "option2",
            vec![plain_option("option2", "Option 2")],
        ),
    ];
    let selections = vec![SelectedCustomization {
        customization_id: "optional-one".to_string(),
        selection: CustomizationSelection::Text("option2".to_string()),
    }];

    let result = validate_selected_customizations(&selections, &customizations);
    assert_eq!(
        result,
        Err(OmsError::MissingRequiredField("required-one".to_string()))
    );
}

#[test]
fn test_payment_tolerance() {
    let items = vec![test_item("item1", Some(1000))];
    let base_order = Order {
        id: None,
        status: None,
        created: None,
        pickup_time: None,
        delivery_time: None,
        kind: Some(OrderType::Pickup),
        customer_notes: None,
        payment: None,
        customer: None,
        delivery: None,
    };
    let payment = |total: i64| Payment {
        status: None,
        method: None,
        subtotal: Some(1000),
        tax: Some(80),
        tip: Some(200),
        total,
        currency: "USD".to_string(),
    };

    // subtotal 10.00 + tax 0.80 + tip 2.00 = 12.80 is accepted
    let mut accepted = base_order.clone();
    accepted.payment = Some(payment(1280));
    assert!(validate_order(&accepted, &items).is_ok());

    // a total of 12.82 differs by 0.02 > 0.01 and is rejected
    let mut rejected = base_order.clone();
    rejected.payment = Some(payment(1282));
    assert!(validate_order(&rejected, &items).is_err());

    // a total within one cent is accepted
    let mut near = base_order.clone();
    near.payment = Some(payment(1281));
    assert!(validate_order(&near, &items).is_ok());

    // a zero total is always rejected, whatever the components
    let mut zero = base_order;
    zero.payment = Some(Payment {
        status: None,
        method: None,
        subtotal: None,
        tax: None,
        tip: None,
        total: 0,
        currency: "USD".to_string(),
    });
    assert!(validate_order(&zero, &items).is_err());
}

#[test]
fn test_delivery_coupling() {
    let items = vec![test_item("item1", Some(1000))];
    let delivery = Delivery {
        address: Address {
            street: "123 Main St".to_string(),
            city: "Anytown".to_string(),
            region: "State".to_string(),
            postal_code: "12345".to_string(),
            country: "USA".to_string(),
        },
        instructions: None,
    };
    let order = |kind: Option<OrderType>, delivery: Option<Delivery>| Order {
        id: None,
        status: None,
        created: None,
        pickup_time: None,
        delivery_time: None,
        kind,
        customer_notes: None,
        payment: None,
        customer: None,
        delivery,
    };

    // type Delivery without a payload is an error
    assert!(validate_order(&order(Some(OrderType::Delivery), None), &items).is_err());
    // type Delivery with a payload is fine
    assert!(validate_order(&order(Some(OrderType::Delivery), Some(delivery.clone())), &items).is_ok());
    // a payload with no type set is accepted (asymmetric by design)
    assert!(validate_order(&order(None, Some(delivery.clone())), &items).is_ok());
    // a payload with a non-Delivery type is an error
    assert!(validate_order(&order(Some(OrderType::Pickup), Some(delivery)), &items).is_err());
}

#[test]
fn test_validate_type_tokens() {
    assert!(validate_customization_type("single_select").is_ok());
    assert!(validate_customization_type("range").is_ok());
    assert!(validate_customization_type("invalid").is_err());

    assert!(validate_vendor_type("restaurant").is_ok());
    assert!(validate_vendor_type("some-new-kind").is_ok());
    assert!(validate_vendor_type("").is_err());
}
