//! Purchase ledger: an append-only log of stock acquisitions.

use crate::inventory::{
    find_by_name, has_product, is_first_match, ledger_consistent, with_quantity, Inventory,
    InventoryError, InventoryModel, Product,
};
use vstd::arithmetic::mul::lemma_mul_upper_bound;
use vstd::prelude::*;

verus! {

/// One recorded purchase.  Appended by `record_purchase`; never mutated or
/// deleted afterwards, even when the referenced product leaves the catalog.
pub struct Purchase {
    pub product_name: String,
    pub quantity_purchased: u32,
    pub purchase_price: u32,
    pub total_cost: u64,
}

/// Internal consistency of one purchase record: positive quantity and price,
/// and a total that is exactly their product.
pub open spec fn purchase_consistent(p: Purchase) -> bool {
    &&& p.quantity_purchased > 0
    &&& p.purchase_price > 0
    &&& p.total_cost == p.quantity_purchased * p.purchase_price
}

/// The record `p` captures a purchase of `qty` units of `name` at unit price
/// `price`, with the total cost computed from them.
pub open spec fn purchase_matches(p: Purchase, name: Seq<char>, qty: u32, price: u32) -> bool {
    &&& p.product_name@ == name
    &&& p.quantity_purchased == qty
    &&& p.purchase_price == price
    &&& p.total_cost == qty * price
}

/// Sum of the `total_cost` column over the whole ledger.
pub open spec fn sum_total_cost(s: Seq<Purchase>) -> int
    decreases s.len(),
{
    if s.len() == 0 {
        0
    } else {
        sum_total_cost(s.drop_last()) + s.last().total_cost
    }
}

/// Recomputing the purchase-cost total after a record is appended yields the
/// previous total plus exactly the new record's cost: the aggregate always
/// equals the sum of per-record values, whatever sequence of operations built
/// the ledger.
pub proof fn lemma_sum_total_cost_append(s: Seq<Purchase>, p: Purchase)
    ensures
        sum_total_cost(s.push(p)) == sum_total_cost(s) + p.total_cost,
{
    assert(s.push(p).drop_last() =~= s);
}

/// The auto-provisioned catalog entry created when a purchase names an
/// unknown product.
pub open spec fn provisioned(p: Product, name: Seq<char>, qty: u32, price: u32) -> bool {
    &&& p.name@ == name
    &&& p.description@ == "Newly purchased product"@
    &&& p.price == price
    &&& p.quantity == qty
}

/// A fresh vector holding the same purchase records, element for element.
pub(crate) fn clone_purchases(purchases: &Vec<Purchase>) -> (rows: Vec<Purchase>)
    ensures
        rows@ == purchases@,
{
    let mut rows: Vec<Purchase> = Vec::new();
    let mut idx: usize = 0;
    while idx < purchases.len()
        invariant
            idx <= purchases@.len(),
            rows@ == purchases@.subrange(0, idx as int),
        decreases purchases@.len() - idx,
    {
        let p = &purchases[idx];
        let row = Purchase {
            product_name: p.product_name.clone(),
            quantity_purchased: p.quantity_purchased,
            purchase_price: p.purchase_price,
            total_cost: p.total_cost,
        };
        rows.push(row);
        idx = idx + 1;
        proof {
            assert(purchases@.subrange(0, idx as int) =~= purchases@.subrange(
                0,
                idx as int - 1,
            ).push(purchases@[idx - 1]));
        }
    }
    proof {
        assert(purchases@.subrange(0, purchases@.len() as int) =~= purchases@);
    }
    rows
}

/// Recording purchases against the catalog, and the purchase-cost aggregate.
pub trait PurchaseManagement: InventoryModel {
    /// Books a purchase: after validation the first product named
    /// `product_name` gains the purchased quantity (its price stays as it
    /// was), or a new catalog entry is provisioned when none matches; either
    /// way one purchase record is appended.  Fails exactly on a zero
    /// quantity or a zero price, mutating nothing.
    fn record_purchase(
        &mut self,
        product_name: &str,
        quantity_purchased: u32,
        purchase_price: u32,
    ) -> (result: Result<(), InventoryError>)
        requires
            forall|i: int|
                is_first_match(old(self).catalog(), product_name@, i) && quantity_purchased > 0
                    && purchase_price > 0 ==> old(self).catalog()[i].quantity + quantity_purchased
                    <= u32::MAX,
        ensures
            final(self).sale_log() == old(self).sale_log(),
            ledger_consistent(old(self).purchase_log(), old(self).sale_log())
                ==> ledger_consistent(final(self).purchase_log(), final(self).sale_log()),
            match result {
                Ok(()) => {
                    &&& quantity_purchased > 0 && purchase_price > 0
                    &&& final(self).purchase_log().len() == old(self).purchase_log().len() + 1
                    &&& final(self).purchase_log().drop_last() == old(self).purchase_log()
                    &&& purchase_matches(
                        final(self).purchase_log().last(),
                        product_name@,
                        quantity_purchased,
                        purchase_price,
                    )
                    &&& if has_product(old(self).catalog(), product_name@) {
                        exists|i: int|
                            {
                                &&& is_first_match(old(self).catalog(), product_name@, i)
                                &&& final(self).catalog() == old(self).catalog().update(
                                    i,
                                    with_quantity(
                                        old(self).catalog()[i],
                                        (old(self).catalog()[i].quantity
                                            + quantity_purchased) as u32,
                                    ),
                                )
                            }
                    } else {
                        &&& final(self).catalog().len() == old(self).catalog().len() + 1
                        &&& final(self).catalog().drop_last() == old(self).catalog()
                        &&& provisioned(
                            final(self).catalog().last(),
                            product_name@,
                            quantity_purchased,
                            purchase_price,
                        )
                    }
                },
                Err(e) => {
                    &&& quantity_purchased == 0 || purchase_price == 0
                    &&& e matches InventoryError::InvalidInput(m) && m@
                        == "Quantity purchased or purchase price cannot be zero or negative"@
                    &&& *final(self) == *old(self)
                },
            },
    ;

    /// The sum of `total_cost` over every purchase record, recomputed from
    /// the ledger on each call.
    fn total_purchase_cost(&self) -> (total: u128)
        ensures
            total == sum_total_cost(self.purchase_log()),
    ;
}

impl PurchaseManagement for Inventory {
    fn record_purchase(
        &mut self,
        product_name: &str,
        quantity_purchased: u32,
        purchase_price: u32,
    ) -> (result: Result<(), InventoryError>) {
        if quantity_purchased == 0 || purchase_price == 0 {
            return Err(InventoryError::InvalidInput(
                "Quantity purchased or purchase price cannot be zero or negative".to_owned(),
            ));
        }
        proof {
            lemma_mul_upper_bound(
                quantity_purchased as int,
                u32::MAX as int,
                purchase_price as int,
                u32::MAX as int,
            );
        }
        let total_cost: u64 = (quantity_purchased as u64) * (purchase_price as u64);
        match find_by_name(&self.products, product_name) {
            Some(i) => {
                proof {
                    assert(is_first_match(old(self).catalog(), product_name@, i as int));
                }
                let p = &mut self.products[i];
                p.quantity = p.quantity + quantity_purchased;
                proof {
                    assert(self.catalog() == old(self).catalog().update(
                        i as int,
                        with_quantity(
                            old(self).catalog()[i as int],
                            (old(self).catalog()[i as int].quantity + quantity_purchased) as u32,
                        ),
                    ));
                }
                self.purchases.push(
                    Purchase {
                        product_name: product_name.to_owned(),
                        quantity_purchased,
                        purchase_price,
                        total_cost,
                    },
                );
                proof {
                    assert(self.purchases@.drop_last() =~= old(self).purchases@);
                }
                Ok(())
            },
            None => {
                let new_product = Product {
                    name: product_name.to_owned(),
                    description: "Newly purchased product".to_owned(),
                    price: purchase_price,
                    quantity: quantity_purchased,
                };
                self.products.push(new_product);
                self.purchases.push(
                    Purchase {
                        product_name: product_name.to_owned(),
                        quantity_purchased,
                        purchase_price,
                        total_cost,
                    },
                );
                proof {
                    assert(self.products@.drop_last() =~= old(self).products@);
                    assert(self.purchases@.drop_last() =~= old(self).purchases@);
                }
                Ok(())
            },
        }
    }

    fn total_purchase_cost(&self) -> (total: u128) {
        let mut total: u128 = 0;
        let mut idx: usize = 0;
        while idx < self.purchases.len()
            invariant
                idx <= self.purchases@.len(),
                total == sum_total_cost(self.purchases@.subrange(0, idx as int)),
                total <= (idx as int) * (u64::MAX as int),
            decreases self.purchases@.len() - idx,
        {
            let cost = self.purchases[idx].total_cost;
            proof {
                assert(self.purchases@.subrange(0, idx as int + 1).drop_last()
                    =~= self.purchases@.subrange(0, idx as int));
                assert(self.purchases@.subrange(0, idx as int + 1).last() == self.purchases@[idx as int]);
            }
            total = total + (cost as u128);
            idx = idx + 1;
        }
        proof {
            assert(self.purchases@.subrange(0, self.purchases@.len() as int) =~= self.purchases@);
        }
        total
    }
}

} // verus!
