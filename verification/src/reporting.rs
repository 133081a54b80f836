//! Report data for a renderer.
//!
//! The core exposes plain snapshots of the catalog and the two ledgers, so
//! any presentation layer (console table, API, UI) can format them without
//! touching the core logic.  Column layout is the renderer's business.

use crate::inventory::{clone_products, Inventory, InventoryModel, Product};
use crate::purchases::{clone_purchases, Purchase};
use crate::sales::{clone_sales, Sale};
use vstd::prelude::*;

verus! {

/// Read-only report data over an inventory state.
pub trait Reporting: InventoryModel {
    /// Rows of the inventory report: one per catalog entry, in insertion
    /// order, carrying name, quantity, price and description.
    fn generate_inventory_report(&self) -> (rows: Vec<Product>)
        ensures
            rows@ == self.catalog(),
    ;

    /// Rows of the sales report: one per recorded sale, oldest first.
    fn generate_sales_report(&self) -> (rows: Vec<Sale>)
        ensures
            rows@ == self.sale_log(),
    ;

    /// Rows of the purchase report: one per recorded purchase, oldest
    /// first.
    fn generate_purchase_report(&self) -> (rows: Vec<Purchase>)
        ensures
            rows@ == self.purchase_log(),
    ;
}

impl Reporting for Inventory {
    fn generate_inventory_report(&self) -> (rows: Vec<Product>) {
        clone_products(&self.products)
    }

    fn generate_sales_report(&self) -> (rows: Vec<Sale>) {
        clone_sales(&self.sales)
    }

    fn generate_purchase_report(&self) -> (rows: Vec<Purchase>) {
        clone_purchases(&self.purchases)
    }
}

} // verus!
