use open_menu_standard::OmsError;
use open_menu_standard::types::CustomizationSelection;
use open_menu_standard::types::OrderType;
use open_menu_standard::types::SelectedCustomization;
use open_menu_standard::utils::calculate_price_adjustments;
use open_menu_standard::utils::create_minimal_document;
use open_menu_standard::utils::create_template;
use open_menu_standard::utils::extract_and_update_selections;
use open_menu_standard::utils::generate_order;
use open_menu_standard::utils::is_valid_tap_to_order;

fn selection(id: &str, value: CustomizationSelection) -> SelectedCustomization {
    SelectedCustomization {
        customization_id: id.to_string(),
        selection: value,
    }
}

#[test]
fn test_create_minimal_document() {
    let doc = create_minimal_document(
        "test-vendor",
        "Test Restaurant",
        "restaurant",
        "test-item",
        "Test Burger",
        "burger",
    )
    .unwrap();

    assert_eq!(doc.vendor.id, "test-vendor");
    assert_eq!(doc.vendor.name, "Test Restaurant");
    assert_eq!(doc.items.len(), 1);
    assert_eq!(doc.items[0].name, "Test Burger");
}

#[test]
fn test_create_template() {
    let restaurant = create_template("restaurant").unwrap();
    assert_eq!(restaurant.vendor.kind, "restaurant");
    assert_eq!(restaurant.items.len(), 1);
    assert_eq!(restaurant.items[0].name, "New York Strip Steak");

    let coffee_shop = create_template("coffee-shop").unwrap();
    assert_eq!(coffee_shop.vendor.kind, "coffee-shop");
    assert_eq!(coffee_shop.items.len(), 2);
    assert_eq!(coffee_shop.items[0].name, "Latte");
    assert_eq!(coffee_shop.items[1].name, "Cappuccino");

    let result = create_template("invalid");
    assert!(result.is_err());
    assert_eq!(result, Err(OmsError::InvalidVendorType("invalid".to_string())));
}

#[test]
fn test_templates_validate() {
    for kind in ["restaurant", "cafe", "fast-food", "coffee-shop", "pizzeria"] {
        let doc = create_template(kind).unwrap();
        assert!(doc.validate().is_ok());
    }
}

#[test]
fn test_calculate_price_adjustments() {
    let doc = create_template("coffee-shop").unwrap();
    let item = &doc.items[0]; // Latte

    let selections = vec![
        selection("size", CustomizationSelection::Text("large".to_string())),
        selection("milk", CustomizationSelection::Text("almond".to_string())),
        selection("shots", CustomizationSelection::Number(3)),
        selection(
            "flavor",
            CustomizationSelection::TextArray(vec![
                "vanilla".to_string(),
                "caramel".to_string(),
            ]),
        ),
    ];

    let adjustment = calculate_price_adjustments(item, &selections).unwrap();

    // size large: +0.50; almond milk: +0.75; three shots at 0.75: +2.25;
    // vanilla and caramel: +0.50 each; all in cents
    assert_eq!(adjustment, 50 + 75 + 3 * 75 + 50 + 50);
}

#[test]
fn test_pricing_example() {
    // size=large (+0.50), milk=almond (+0.75), shots=3 at 0.75 each:
    // the delta is exactly 3.50
    let doc = create_template("coffee-shop").unwrap();
    let item = &doc.items[0];

    let selections = vec![
        selection("size", CustomizationSelection::Text("large".to_string())),
        selection("milk", CustomizationSelection::Text("almond".to_string())),
        selection("shots", CustomizationSelection::Number(3)),
    ];

    let adjustment = calculate_price_adjustments(item, &selections).unwrap();
    assert_eq!(adjustment, 350);
}

#[test]
fn test_pricing_skips_unknown_and_can_be_negative() {
    let doc = create_template("coffee-shop").unwrap();
    let item = &doc.items[0];

    // an unresolved customization id is silently skipped
    let selections = vec![
        selection("unknown", CustomizationSelection::Text("large".to_string())),
        selection("size", CustomizationSelection::Text("small".to_string())),
    ];
    let adjustment = calculate_price_adjustments(item, &selections).unwrap();
    assert_eq!(adjustment, -50);
}

#[test]
fn test_extract_and_update_selections() {
    let mut doc = create_template("coffee-shop").unwrap();

    let url = "omenu://order?v=coffee-shop-template&i=latte&c=large";
    extract_and_update_selections(url, &mut doc).unwrap();

    let item = &doc.items[0]; // Latte
    assert!(item.selected_customizations.is_some());
    let selections = item.selected_customizations.as_ref().unwrap();
    assert_eq!(selections.len(), 1);
    assert_eq!(selections[0].customization_id, "size");

    match &selections[0].selection {
        CustomizationSelection::Text(val) => assert_eq!(val, "large"),
        _ => panic!("Unexpected selection type"),
    }
}

#[test]
fn test_idempotent_upsert() {
    // applying the same preset twice leaves exactly one entry for the
    // customization, holding the latest value
    let mut doc = create_template("coffee-shop").unwrap();

    let url = "omenu://order?v=coffee-shop-template&i=latte&c=large";
    extract_and_update_selections(url, &mut doc).unwrap();
    extract_and_update_selections(url, &mut doc).unwrap();

    let selections = doc.items[0].selected_customizations.as_ref().unwrap();
    assert_eq!(selections.len(), 1);
    assert_eq!(selections[0].customization_id, "size");
    assert_eq!(
        selections[0].selection,
        CustomizationSelection::Text("large".to_string())
    );

    // a different value for the same customization replaces, not appends
    let url2 = "omenu://order?v=coffee-shop-template&i=latte&c=small";
    extract_and_update_selections(url2, &mut doc).unwrap();
    let selections = doc.items[0].selected_customizations.as_ref().unwrap();
    assert_eq!(selections.len(), 1);
    assert_eq!(
        selections[0].selection,
        CustomizationSelection::Text("small".to_string())
    );
}

#[test]
fn test_generate_order() {
    let mut doc = create_minimal_document(
        "test-vendor",
        "Test Restaurant",
        "restaurant",
        "test-item",
        "Test Burger",
        "burger",
    )
    .unwrap();

    doc.items[0].base_price = Some(1000);

    generate_order(&mut doc, Some("test-customer")).unwrap();

    assert!(doc.order.is_some());
    let order = doc.order.as_ref().unwrap();
    assert_eq!(order.kind, Some(OrderType::Pickup));

    let payment = order.payment.as_ref().unwrap();
    assert_eq!(payment.subtotal, Some(1000));
    assert_eq!(payment.tax, Some(80)); // 8% of 10.00
    assert_eq!(payment.total, 1080);

    let customer = order.customer.as_ref().unwrap();
    assert_eq!(customer.id, Some("test-customer".to_string()));
}

#[test]
fn test_is_valid_tap_to_order() {
    let mut doc = create_minimal_document(
        "test-vendor",
        "Test Restaurant",
        "restaurant",
        "test-item",
        "Test Burger",
        "burger",
    )
    .unwrap();

    doc.items[0].base_price = Some(1000);
    assert!(is_valid_tap_to_order(&doc));

    let doc_no_price = create_minimal_document(
        "test-vendor",
        "Test Restaurant",
        "restaurant",
        "test-item",
        "Test Burger",
        "burger",
    )
    .unwrap();

    assert!(!is_valid_tap_to_order(&doc_no_price));

    let mut doc_no_items = create_minimal_document(
        "test-vendor",
        "Test Restaurant",
        "restaurant",
        "test-item",
        "Test Burger",
        "burger",
    )
    .unwrap();
    doc_no_items.items[0].base_price = Some(1000);
    doc_no_items.items.clear();
    assert!(!is_valid_tap_to_order(&doc_no_items));

    let mut doc_no_vendor_id = create_minimal_document(
        "test-vendor",
        "Test Restaurant",
        "restaurant",
        "test-item",
        "Test Burger",
        "burger",
    )
    .unwrap();
    doc_no_vendor_id.items[0].base_price = Some(1000);
    doc_no_vendor_id.vendor.id = "".to_string();
    assert!(!is_valid_tap_to_order(&doc_no_vendor_id));
}

#[test]
fn test_total_price_boundary() {
    // items lacking both base and calculated price make the total "no
    // price"; one positive contribution makes it the exact sum
    let mut doc = create_minimal_document(
        "test-vendor",
        "Test Restaurant",
        "restaurant",
        "test-item",
        "Test Burger",
        "burger",
    )
    .unwrap();

    assert_eq!(doc.calculate_total_price(), None);

    doc.items[0].base_price = Some(250);
    doc.items[0].quantity = Some(3);
    assert_eq!(doc.calculate_total_price(), Some(750));

    // a calculated price takes precedence over the base price
    doc.items[0].calculated = Some(open_menu_standard::types::CalculatedValues {
        item_price: 400,
        adjusted_nutrition: None,
    });
    assert_eq!(doc.calculate_total_price(), Some(1200));
}
