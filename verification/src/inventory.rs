//! Catalog of products and the state owning catalog and ledgers.
//!
//! The catalog is an ordered sequence of product records; names act as keys
//! for lookups but duplicates are not rejected, so a second entry under an
//! existing name simply appends.  Lookups always go to the first entry whose
//! name matches.

use crate::purchases::{purchase_consistent, Purchase};
use crate::sales::{sale_consistent, Sale};
use vstd::prelude::*;

verus! {

/// Typed failures of the inventory operations.  Every operation returns one
/// of these instead of panicking, and never applies a partial mutation when
/// it fails.
#[derive(Debug, PartialEq)]
pub enum InventoryError {
    ProductNotFound(String),
    InvalidQuantity(u32),
    InvalidPrice(u32),
    OutOfStock(String),
    InvalidInput(String),
    PurchaseFailed(String),
    SaleFailed(String),
}

/// One catalog entry.  Prices are in whole currency units; quantities are
/// unit counts.
pub struct Product {
    pub name: String,
    pub description: String,
    pub price: u32,
    pub quantity: u32,
}

/// The inventory state: the live catalog plus the two append-only ledgers.
pub struct Inventory {
    pub products: Vec<Product>,
    pub sales: Vec<Sale>,
    pub purchases: Vec<Purchase>,
}

/// The entry at `i` is the first one in `s` whose name reads `name`.
pub open spec fn is_first_match(s: Seq<Product>, name: Seq<char>, i: int) -> bool {
    &&& 0 <= i < s.len()
    &&& s[i].name@ == name
    &&& forall|j: int| 0 <= j < i ==> s[j].name@ != name
}

/// Some entry of `s` carries the name `name`.
pub open spec fn has_product(s: Seq<Product>, name: Seq<char>) -> bool {
    exists|i: int| 0 <= i < s.len() && s[i].name@ == name
}

/// `p` with its quantity replaced by `quantity`.
pub open spec fn with_quantity(p: Product, quantity: u32) -> Product {
    Product { name: p.name, description: p.description, price: p.price, quantity }
}

/// `p` with each supplied field overwritten and each absent field kept.
pub open spec fn edited(
    p: Product,
    new_name: Option<String>,
    new_description: Option<String>,
    new_price: Option<u32>,
    new_quantity: Option<u32>,
) -> Product {
    Product {
        name: match new_name {
            Some(n) => n,
            None => p.name,
        },
        description: match new_description {
            Some(d) => d,
            None => p.description,
        },
        price: match new_price {
            Some(x) => x,
            None => p.price,
        },
        quantity: match new_quantity {
            Some(q) => q,
            None => p.quantity,
        },
    }
}

/// Number of catalog entries carrying `name`.
pub open spec fn count_matching(s: Seq<Product>, name: Seq<char>) -> int
    decreases s.len(),
{
    if s.len() == 0 {
        0
    } else {
        count_matching(s.drop_last(), name) + if s.last().name@ == name {
            1int
        } else {
            0int
        }
    }
}

/// Law: appending a product grows the catalog by exactly one entry — the new
/// one, visible at the end of a listing — and grows the number of entries
/// under its name by exactly one, so adding a duplicate name yields a second
/// entry rather than a merge.
pub proof fn lemma_append_adds_one_entry(c: Seq<Product>, p: Product)
    ensures
        c.push(p).len() == c.len() + 1,
        c.push(p).last() == p,
        count_matching(c.push(p), p.name@) == count_matching(c, p.name@) + 1,
{
    assert(c.push(p).drop_last() =~= c);
}

/// Law: removing the entry at `i` shrinks the catalog by exactly one entry
/// and the number of entries under that entry's name by exactly one; no
/// other entry is touched.
pub proof fn lemma_remove_takes_one_entry(c: Seq<Product>, i: int)
    requires
        0 <= i < c.len(),
    ensures
        c.remove(i).len() == c.len() - 1,
        count_matching(c.remove(i), c[i].name@) == count_matching(c, c[i].name@) - 1,
        forall|j: int| 0 <= j < i ==> c.remove(i)[j] == c[j],
        forall|j: int| i <= j < c.len() - 1 ==> c.remove(i)[j] == c[j + 1],
    decreases c.len(),
{
    if i == c.len() - 1 {
        assert(c.remove(i) =~= c.drop_last());
    } else {
        assert(c.remove(i).drop_last() =~= c.drop_last().remove(i));
        assert(c.remove(i).last() == c.last());
        lemma_remove_takes_one_entry(c.drop_last(), i);
    }
}

/// Every record of both ledgers is internally consistent.
pub open spec fn ledger_consistent(purchases: Seq<Purchase>, sales: Seq<Sale>) -> bool {
    &&& forall|i: int| 0 <= i < purchases.len() ==> purchase_consistent(#[trigger] purchases[i])
    &&& forall|i: int| 0 <= i < sales.len() ==> sale_consistent(#[trigger] sales[i])
}

/// Abstract view of an inventory state: the catalog and the two ledgers as
/// sequences, in insertion order.
pub trait InventoryModel: Sized {
    /// The catalog, oldest entry first.
    spec fn catalog(&self) -> Seq<Product>;

    /// The purchase ledger, oldest record first.
    spec fn purchase_log(&self) -> Seq<Purchase>;

    /// The sale ledger, oldest record first.
    spec fn sale_log(&self) -> Seq<Sale>;
}

impl InventoryModel for Inventory {
    open spec fn catalog(&self) -> Seq<Product> {
        self.products@
    }

    open spec fn purchase_log(&self) -> Seq<Purchase> {
        self.purchases@
    }

    open spec fn sale_log(&self) -> Seq<Sale> {
        self.sales@
    }
}

/// Catalog maintenance: create, edit, delete and list products.
pub trait InventoryManagement: InventoryModel {
    /// Appends a product after validating that the price and the quantity
    /// are positive.  A name already in the catalog is not rejected: the new
    /// entry simply becomes a second one under that name.
    fn add_product(&mut self, name: String, description: String, price: u32, quantity: u32) -> (result: Result<(), InventoryError>)
        ensures
            final(self).purchase_log() == old(self).purchase_log(),
            final(self).sale_log() == old(self).sale_log(),
            match result {
                Ok(()) => price > 0 && quantity > 0 && final(self).catalog() == old(self).catalog().push(
                    (Product { name, description, price, quantity }),
                ),
                Err(InventoryError::InvalidPrice(p)) => p == price && price == 0 && final(self).catalog()
                    == old(self).catalog(),
                Err(InventoryError::InvalidQuantity(q)) => q == quantity && price > 0 && quantity == 0
                    && final(self).catalog() == old(self).catalog(),
                Err(_) => false,
            },
    ;

    /// Overwrites the supplied fields of the first product named
    /// `product_name`, leaving absent fields untouched; mutates nothing when
    /// no product matches.  The new values are not re-validated.
    fn edit_product(
        &mut self,
        product_name: &str,
        new_name: Option<String>,
        new_description: Option<String>,
        new_price: Option<u32>,
        new_quantity: Option<u32>,
    ) -> (result: Result<(), InventoryError>)
        ensures
            final(self).purchase_log() == old(self).purchase_log(),
            final(self).sale_log() == old(self).sale_log(),
            match result {
                Ok(()) => exists|i: int|
                    {
                        &&& is_first_match(old(self).catalog(), product_name@, i)
                        &&& final(self).catalog() == old(self).catalog().update(
                            i,
                            edited(
                                old(self).catalog()[i],
                                new_name,
                                new_description,
                                new_price,
                                new_quantity,
                            ),
                        )
                    },
                Err(e) => {
                    &&& e matches InventoryError::ProductNotFound(n) && n@ == product_name@
                    &&& !has_product(old(self).catalog(), product_name@)
                    &&& *final(self) == *old(self)
                },
            },
    ;

    /// Removes the first product named `product_name`; fails without
    /// mutating anything when no product matches.  The ledgers keep every
    /// historical record referencing the removed name.
    fn delete_product(&mut self, product_name: &str) -> (result: Result<(), InventoryError>)
        ensures
            final(self).purchase_log() == old(self).purchase_log(),
            final(self).sale_log() == old(self).sale_log(),
            match result {
                Ok(()) => exists|i: int|
                    {
                        &&& is_first_match(old(self).catalog(), product_name@, i)
                        &&& final(self).catalog() == old(self).catalog().remove(i)
                    },
                Err(e) => {
                    &&& e matches InventoryError::ProductNotFound(n) && n@ == product_name@
                    &&& !has_product(old(self).catalog(), product_name@)
                    &&& *final(self) == *old(self)
                },
            },
    ;

    /// Returns a snapshot of the catalog, in insertion order.
    fn list_products(&self) -> (rows: Vec<Product>)
        ensures
            rows@ == self.catalog(),
    ;
}

impl Inventory {
    /// An empty inventory: no products, no recorded sales or purchases.
    pub fn new() -> (inventory: Inventory)
        ensures
            inventory.products@.len() == 0,
            inventory.sales@.len() == 0,
            inventory.purchases@.len() == 0,
            inventory.wf(),
    {
        Inventory { products: Vec::new(), sales: Vec::new(), purchases: Vec::new() }
    }

    /// Invariant of the state: both ledgers hold only internally consistent
    /// records.  Established by `new` and preserved by every operation.
    pub open spec fn wf(&self) -> bool {
        ledger_consistent(self.purchases@, self.sales@)
    }
}

/// Index of the first catalog entry whose name reads `name`, if any.
pub(crate) fn find_by_name(products: &Vec<Product>, name: &str) -> (position: Option<usize>)
    ensures
        match position {
            Some(i) => is_first_match(products@, name@, i as int),
            None => !has_product(products@, name@),
        },
{
    let target: String = name.to_owned();
    let mut idx: usize = 0;
    while idx < products.len()
        invariant
            idx <= products@.len(),
            target@ == name@,
            forall|j: int| 0 <= j < idx ==> products@[j].name@ != name@,
        decreases products@.len() - idx,
    {
        if products[idx].name == target {
            return Some(idx);
        }
        idx = idx + 1;
    }
    None
}

/// A fresh vector holding the same products, element for element.
pub(crate) fn clone_products(products: &Vec<Product>) -> (rows: Vec<Product>)
    ensures
        rows@ == products@,
{
    let mut rows: Vec<Product> = Vec::new();
    let mut idx: usize = 0;
    while idx < products.len()
        invariant
            idx <= products@.len(),
            rows@ == products@.subrange(0, idx as int),
        decreases products@.len() - idx,
    {
        let p = &products[idx];
        let row = Product {
            name: p.name.clone(),
            description: p.description.clone(),
            price: p.price,
            quantity: p.quantity,
        };
        rows.push(row);
        idx = idx + 1;
        proof {
            assert(products@.subrange(0, idx as int) =~= products@.subrange(0, idx as int - 1).push(
                products@[idx - 1],
            ));
        }
    }
    proof {
        assert(products@.subrange(0, products@.len() as int) =~= products@);
    }
    rows
}

impl InventoryManagement for Inventory {
    fn add_product(&mut self, name: String, description: String, price: u32, quantity: u32) -> (result: Result<(), InventoryError>) {
        if price == 0 {
            return Err(InventoryError::InvalidPrice(price));
        }
        if quantity == 0 {
            return Err(InventoryError::InvalidQuantity(quantity));
        }
        let product = Product { name, description, price, quantity };
        self.products.push(product);
        Ok(())
    }

    fn edit_product(
        &mut self,
        product_name: &str,
        new_name: Option<String>,
        new_description: Option<String>,
        new_price: Option<u32>,
        new_quantity: Option<u32>,
    ) -> (result: Result<(), InventoryError>) {
        match find_by_name(&self.products, product_name) {
            Some(i) => {
                let ghost entry = self.products@[i as int];
                let ghost gname = new_name;
                let ghost gdescription = new_description;
                let ghost gprice = new_price;
                let ghost gquantity = new_quantity;
                let p = &mut self.products[i];
                if let Some(n) = new_name {
                    p.name = n;
                }
                if let Some(d) = new_description {
                    p.description = d;
                }
                if let Some(x) = new_price {
                    p.price = x;
                }
                if let Some(q) = new_quantity {
                    p.quantity = q;
                }
                proof {
                    assert(is_first_match(old(self).catalog(), product_name@, i as int));
                    assert(self.products@[i as int] == edited(
                        entry,
                        gname,
                        gdescription,
                        gprice,
                        gquantity,
                    ));
                    assert(self.catalog() == old(self).catalog().update(
                        i as int,
                        edited(entry, gname, gdescription, gprice, gquantity),
                    ));
                }
                Ok(())
            },
            None => Err(InventoryError::ProductNotFound(product_name.to_owned())),
        }
    }

    fn delete_product(&mut self, product_name: &str) -> (result: Result<(), InventoryError>) {
        match find_by_name(&self.products, product_name) {
            Some(i) => {
                self.products.remove(i);
                proof {
                    assert(is_first_match(old(self).catalog(), product_name@, i as int));
                    assert(self.catalog() == old(self).catalog().remove(i as int));
                }
                Ok(())
            },
            None => Err(InventoryError::ProductNotFound(product_name.to_owned())),
        }
    }

    fn list_products(&self) -> (rows: Vec<Product>) {
        clone_products(&self.products)
    }
}

} // verus!
