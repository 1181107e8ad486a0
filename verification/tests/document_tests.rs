use open_menu_standard::types::CustomizationSelection;
use open_menu_standard::types::Item;
use open_menu_standard::types::SelectedCustomization;
use open_menu_standard::types::Metadata;
use open_menu_standard::types::OmsDocument;
use open_menu_standard::types::Order;
use open_menu_standard::types::OrderStatus;
use open_menu_standard::types::OrderType;
use open_menu_standard::types::Vendor;

fn bare_item(id: &str, name: &str, base_price: Option<i64>, quantity: Option<u32>) -> Item {
    Item {
        id: id.to_string(),
        name: name.to_string(),
        category: "test".to_string(),
        vendor_id: None,
        description: None,
        subcategory: None,
        image_url: None,
        base_price,
        currency: base_price.map(|_| "USD".to_string()),
        nutrition: None,
        customizations: None,
        selected_customizations: None,
        quantity,
        item_note: None,
        calculated: None,
        components: None,
        availability: None,
        popularity: None,
    }
}

fn create_test_document() -> OmsDocument {
    let metadata = Metadata {
        created: chrono::Utc::now().timestamp(),
        source: "test".to_string(),
        locale: "en-US".to_string(),
    };
    let vendor = Vendor {
        id: "test-vendor".to_string(),
        name: "Test Restaurant".to_string(),
        kind: "restaurant".to_string(),
        location_id: None,
        location_name: None,
        address: None,
        contact: None,
        hours: None,
        cuisine: None,
        services: None,
    };
    let item = bare_item("test-item", "Test Item", Some(1000), Some(1));
    OmsDocument::new(metadata, vendor, vec![item])
}

fn bare_order() -> Order {
    Order {
        id: Some("test-order".to_string()),
        status: Some(OrderStatus::Draft),
        created: Some(chrono::Utc::now().timestamp()),
        pickup_time: None,
        delivery_time: None,
        kind: Some(OrderType::Pickup),
        customer_notes: None,
        payment: None,
        customer: None,
        delivery: None,
    }
}

#[test]
fn test_calculate_total_price() {
    let mut doc = create_test_document();

    let total = doc.calculate_total_price().unwrap();
    assert_eq!(total, 1000);

    let item2 = bare_item("test-item-2", "Test Item 2", Some(500), Some(2));
    doc.add_item(item2);

    let total = doc.calculate_total_price().unwrap();
    assert_eq!(total, 1000 + 500 * 2);
}

#[test]
fn test_create_url() {
    let doc = create_test_document();
    let url = doc.create_url().unwrap();
    assert_eq!(url, "omenu://order?v=test-vendor&i=test-item");
}

#[test]
fn test_find_item() {
    let doc = create_test_document();

    let item = doc.find_item("test-item").unwrap();
    assert_eq!(item.name, "Test Item");

    let item = doc.find_item("nonexistent");
    assert!(item.is_none());
}

#[test]
fn test_find_item_mut() {
    let mut doc = create_test_document();

    let item = doc.find_item_mut("test-item").unwrap();
    item.name = "Renamed Item".to_string();
    assert_eq!(doc.items[0].name, "Renamed Item");

    assert!(doc.find_item_mut("nonexistent").is_none());
}

#[test]
fn test_remove_item() {
    let mut doc = create_test_document();

    let item2 = bare_item("test-item-2", "Test Item 2", None, None);
    doc.add_item(item2);
    assert_eq!(doc.items.len(), 2);

    let result = doc.remove_item("test-item");
    assert!(result);
    assert_eq!(doc.items.len(), 1);
    assert_eq!(doc.items[0].id, "test-item-2");

    let result = doc.remove_item("nonexistent");
    assert!(!result);
    assert_eq!(doc.items.len(), 1);
}

#[test]
fn test_set_order() {
    let mut doc = create_test_document();

    doc.set_order(bare_order());

    assert!(doc.order.is_some());
    assert_eq!(doc.order.as_ref().unwrap().id, Some("test-order".to_string()));
}

#[test]
fn test_update_order_status() {
    let mut doc = create_test_document();

    let result = doc.update_order_status(OrderStatus::Confirmed);
    assert!(result.is_err());

    doc.set_order(bare_order());

    let result = doc.update_order_status(OrderStatus::Confirmed);
    assert!(result.is_ok());
    assert_eq!(doc.order.as_ref().unwrap().status, Some(OrderStatus::Confirmed));
}

#[test]
fn test_extensions() {
    let mut doc = create_test_document();

    let mut payload = serde_json::Map::new();
    payload.insert("key".to_string(), serde_json::Value::String("value".to_string()));
    payload.insert("number".to_string(), serde_json::Value::Number(serde_json::Number::from(42)));
    let data = serde_json::Value::Object(payload);

    doc.add_extension("com.example.test", data.clone());

    let ext = doc.get_extension("com.example.test").unwrap();
    assert_eq!(ext, &data);

    let ext = doc.get_extension("nonexistent");
    assert!(ext.is_none());
}

#[test]
fn test_extensions_last_write_wins() {
    let mut doc = create_test_document();

    doc.add_extension("ns", serde_json::Value::String("first".to_string()));
    doc.add_extension("ns", serde_json::Value::String("second".to_string()));

    let ext = doc.get_extension("ns").unwrap();
    assert_eq!(ext, &serde_json::Value::String("second".to_string()));
}

#[test]
fn test_extract_customization_selections_last_wins() {
    let mut doc = create_test_document();
    let mut first = bare_item("dup", "First", None, None);
    first.selected_customizations = Some(vec![SelectedCustomization {
        customization_id: "size".to_string(),
        selection: CustomizationSelection::Text("small".to_string()),
    }]);
    let mut second = bare_item("dup", "Second", None, None);
    second.selected_customizations = Some(vec![SelectedCustomization {
        customization_id: "size".to_string(),
        selection: CustomizationSelection::Text("large".to_string()),
    }]);
    doc.add_item(first);
    doc.add_item(second);

    let extracted = doc.extract_customization_selections();
    assert_eq!(extracted.len(), 1);
    let (key, sels) = &extracted[0];
    assert_eq!(key, "dup");
    assert_eq!(sels.len(), 1);
    assert_eq!(
        sels[0].selection,
        CustomizationSelection::Text("large".to_string())
    );
}
