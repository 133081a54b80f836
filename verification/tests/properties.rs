use store_inventory::auth::Auth;
use store_inventory::inventory::{Inventory, InventoryError, InventoryManagement};
use store_inventory::purchases::PurchaseManagement;
use store_inventory::reporting::Reporting;
use store_inventory::sales::SalesManagement;
use store_inventory::tui::Tui;

#[test]
fn add_then_list_yields_one_entry() {
    let mut inventory = Inventory::new();
    inventory
        .add_product("Desk".to_string(), "Standing desk".to_string(), 350, 4)
        .unwrap();

    let rows = inventory.list_products();
    assert_eq!(rows.len(), 1);
    assert_eq!(rows[0].name, "Desk");
    assert_eq!(rows[0].description, "Standing desk");
    assert_eq!(rows[0].price, 350);
    assert_eq!(rows[0].quantity, 4);
}

#[test]
fn duplicate_add_yields_two_entries() {
    let mut inventory = Inventory::new();
    inventory
        .add_product("Desk".to_string(), "First".to_string(), 350, 4)
        .unwrap();
    inventory
        .add_product("Desk".to_string(), "Second".to_string(), 400, 2)
        .unwrap();

    let rows = inventory.list_products();
    assert_eq!(rows.len(), 2);
    assert_eq!(rows[0].name, "Desk");
    assert_eq!(rows[1].name, "Desk");
    assert_eq!(rows[0].description, "First");
    assert_eq!(rows[1].description, "Second");
}

#[test]
fn edit_with_subset_keeps_other_fields() {
    let mut inventory = Inventory::new();
    inventory
        .add_product("Desk".to_string(), "Standing desk".to_string(), 350, 4)
        .unwrap();

    inventory
        .edit_product("Desk", None, None, Some(300), None)
        .unwrap();

    let product = &inventory.products[0];
    assert_eq!(product.name, "Desk");
    assert_eq!(product.description, "Standing desk");
    assert_eq!(product.price, 300);
    assert_eq!(product.quantity, 4);
}

#[test]
fn edit_nonexistent_mutates_nothing() {
    let mut inventory = Inventory::new();
    inventory
        .add_product("Desk".to_string(), "Standing desk".to_string(), 350, 4)
        .unwrap();

    let result = inventory.edit_product(
        "Ghost",
        Some("Other".to_string()),
        Some("Other desc".to_string()),
        Some(1),
        Some(1),
    );
    assert_eq!(
        result,
        Err(InventoryError::ProductNotFound("Ghost".to_string()))
    );

    let product = &inventory.products[0];
    assert_eq!(product.name, "Desk");
    assert_eq!(product.description, "Standing desk");
    assert_eq!(product.price, 350);
    assert_eq!(product.quantity, 4);
}

#[test]
fn delete_keeps_ledger_history() {
    let mut inventory = Inventory::new();
    inventory
        .add_product("Desk".to_string(), "Standing desk".to_string(), 350, 4)
        .unwrap();
    inventory.record_purchase("Desk", 2, 300).unwrap();
    inventory.record_sale("Desk", 1, 380).unwrap();

    inventory.delete_product("Desk").unwrap();

    assert_eq!(inventory.products.len(), 0);
    assert_eq!(inventory.purchases.len(), 1);
    assert_eq!(inventory.sales.len(), 1);
    assert_eq!(inventory.purchases[0].product_name, "Desk");
    assert_eq!(inventory.sales[0].product_name, "Desk");
}

#[test]
fn delete_removes_only_first_match() {
    let mut inventory = Inventory::new();
    inventory
        .add_product("Desk".to_string(), "First".to_string(), 350, 4)
        .unwrap();
    inventory
        .add_product("Desk".to_string(), "Second".to_string(), 400, 2)
        .unwrap();

    inventory.delete_product("Desk").unwrap();

    assert_eq!(inventory.products.len(), 1);
    assert_eq!(inventory.products[0].description, "Second");
}

#[test]
fn totals_recompute_to_same_value() {
    let mut inventory = Inventory::new();
    inventory.record_purchase("Monitor", 2, 200).unwrap();
    inventory.record_purchase("Keyboard", 3, 50).unwrap();
    inventory.record_sale("Monitor", 1, 250).unwrap();

    let cost_first = inventory.total_purchase_cost();
    let cost_second = inventory.total_purchase_cost();
    assert_eq!(cost_first, 550);
    assert_eq!(cost_first, cost_second);

    let sales_first = inventory.total_sales();
    let sales_second = inventory.total_sales();
    assert_eq!(sales_first, 250);
    assert_eq!(sales_first, sales_second);

    let profit_first = inventory.total_profit();
    let profit_second = inventory.total_profit();
    assert_eq!(profit_first, 50); // 250 - 200, costed at the catalog price
    assert_eq!(profit_first, profit_second);
}

#[test]
fn scenario_purchase_then_sale_at_catalog_price() {
    let mut inventory = Inventory::new();
    inventory
        .add_product("Laptop".to_string(), "desc".to_string(), 1200, 10)
        .unwrap();

    inventory.record_purchase("Laptop", 5, 950).unwrap();
    assert_eq!(inventory.products[0].quantity, 15);
    assert_eq!(inventory.purchases[0].total_cost, 4750);

    inventory.record_sale("Laptop", 2, 1200).unwrap();
    let sale = inventory.sales.last().unwrap();
    assert_eq!(sale.total_sale, 2400);
    // Cost basis is the current catalog price of 1200, not the purchase
    // price of 950, so the profit is exactly zero.
    assert_eq!(sale.profit, 0);
}

#[test]
fn scenario_sale_on_empty_catalog() {
    let mut inventory = Inventory::new();
    let result = inventory.record_sale("Ghost", 1, 100);
    assert_eq!(
        result,
        Err(InventoryError::ProductNotFound("Ghost".to_string()))
    );
}

#[test]
fn scenario_add_product_with_zero_price() {
    let mut inventory = Inventory::new();
    let result = inventory.add_product("Freebie".to_string(), "desc".to_string(), 0, 5);
    assert_eq!(result, Err(InventoryError::InvalidPrice(0)));
    assert_eq!(inventory.products.len(), 0);
}

#[test]
fn reports_mirror_state() {
    let mut inventory = Inventory::new();
    inventory
        .add_product("Desk".to_string(), "Standing desk".to_string(), 350, 4)
        .unwrap();
    inventory.record_purchase("Desk", 2, 300).unwrap();
    inventory.record_sale("Desk", 1, 380).unwrap();

    let inventory_rows = inventory.generate_inventory_report();
    assert_eq!(inventory_rows.len(), 1);
    assert_eq!(inventory_rows[0].name, "Desk");
    assert_eq!(inventory_rows[0].quantity, 5);

    let purchase_rows = inventory.generate_purchase_report();
    assert_eq!(purchase_rows.len(), 1);
    assert_eq!(purchase_rows[0].quantity_purchased, 2);
    assert_eq!(purchase_rows[0].purchase_price, 300);
    assert_eq!(purchase_rows[0].total_cost, 600);

    let sale_rows = inventory.generate_sales_report();
    assert_eq!(sale_rows.len(), 1);
    assert_eq!(sale_rows[0].quantity_sold, 1);
    assert_eq!(sale_rows[0].sale_price, 380);
    assert_eq!(sale_rows[0].total_sale, 380);
    assert_eq!(sale_rows[0].profit, 30);
}

#[test]
fn tui_keeps_credential_table() {
    let auth = Auth::new();
    let tui = Tui::new(auth);
    assert_eq!(tui.auth_system.users.len(), 2);
    assert_eq!(tui.auth_system.users[0].username, "manager");
}
