use store_inventory::inventory::{Inventory, InventoryError, InventoryManagement};
use store_inventory::purchases::PurchaseManagement;

#[test]
fn test_record_purchase_success_existing_product() {
    let mut inventory = Inventory::new();
    let result = inventory.add_product(
        "Laptop".to_string(),
        "High-performance laptop".to_string(),
        1000,
        10,
    );
    assert!(result.is_ok());

    let result = inventory.record_purchase("Laptop", 5, 950);
    assert!(result.is_ok());

    let product = inventory.products.iter().find(|p| p.name == "Laptop");
    assert!(product.is_some());
    let product = product.unwrap();
    assert_eq!(product.quantity, 15); // 10 existing + 5 purchased

    let purchase = inventory
        .purchases
        .iter()
        .find(|p| p.product_name == "Laptop");
    assert!(purchase.is_some());
    let purchase = purchase.unwrap();
    assert_eq!(purchase.quantity_purchased, 5);
    assert_eq!(purchase.purchase_price, 950);
    assert_eq!(purchase.total_cost, 4750); // 5 * 950
}

#[test]
fn test_record_purchase_success_new_product() {
    let mut inventory = Inventory::new();

    let result = inventory.record_purchase("Smartphone", 10, 500);
    assert!(result.is_ok());

    let product = inventory.products.iter().find(|p| p.name == "Smartphone");
    assert!(product.is_some());
    let product = product.unwrap();
    assert_eq!(product.quantity, 10);
    assert_eq!(product.price, 500);

    let purchase = inventory
        .purchases
        .iter()
        .find(|p| p.product_name == "Smartphone");
    assert!(purchase.is_some());
    let purchase = purchase.unwrap();
    assert_eq!(purchase.quantity_purchased, 10);
    assert_eq!(purchase.purchase_price, 500);
    assert_eq!(purchase.total_cost, 5000); // 10 * 500
}

#[test]
fn test_record_purchase_invalid_quantity() {
    let mut inventory = Inventory::new();

    let result = inventory.record_purchase("Tablet", 0, 300);
    assert!(result.is_err());
    assert_eq!(
        result.unwrap_err(),
        InventoryError::InvalidInput(
            "Quantity purchased or purchase price cannot be zero or negative".to_string()
        )
    );
}

#[test]
fn test_record_purchase_invalid_price() {
    let mut inventory = Inventory::new();

    let result = inventory.record_purchase("Headphones", 5, 0);
    assert!(result.is_err());
    assert_eq!(
        result.unwrap_err(),
        InventoryError::InvalidInput(
            "Quantity purchased or purchase price cannot be zero or negative".to_string()
        )
    );
}

#[test]
fn test_total_purchase_cost() {
    let mut inventory = Inventory::new();
    inventory.record_purchase("Monitor", 2, 200).unwrap();
    inventory.record_purchase("Keyboard", 3, 50).unwrap();

    let total_cost = inventory.total_purchase_cost();
    assert_eq!(total_cost, 2 * 200 + 3 * 50); // 400 + 150
}

#[test]
fn test_record_purchase_provisioned_description() {
    let mut inventory = Inventory::new();
    inventory.record_purchase("Webcam", 4, 60).unwrap();

    let product = &inventory.products[0];
    assert_eq!(product.name, "Webcam");
    assert_eq!(product.description, "Newly purchased product");
    assert_eq!(product.price, 60);
    assert_eq!(product.quantity, 4);
}

#[test]
fn test_record_purchase_keeps_catalog_price() {
    let mut inventory = Inventory::new();
    inventory
        .add_product("Laptop".to_string(), "desc".to_string(), 1000, 10)
        .unwrap();

    inventory.record_purchase("Laptop", 5, 950).unwrap();

    // The catalog price stays as it was; the purchase price only enters the
    // ledger.
    assert_eq!(inventory.products[0].price, 1000);
    assert_eq!(inventory.products[0].quantity, 15);
}
