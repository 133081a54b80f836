//! Sale ledger: an append-only log of sales.

use crate::inventory::{
    find_by_name, has_product, is_first_match, ledger_consistent, with_quantity, Inventory,
    InventoryError, InventoryModel,
};
use vstd::arithmetic::mul::lemma_mul_upper_bound;
use vstd::prelude::*;

verus! {

/// One recorded sale.  Appended by `record_sale`; never mutated or deleted
/// afterwards.  The profit column uses the product's catalog price at the
/// time of the sale as the cost basis.
pub struct Sale {
    pub product_name: String,
    pub quantity_sold: u32,
    pub sale_price: u32,
    pub total_sale: u64,
    pub profit: i64,
}

/// Internal consistency of one sale record: positive quantity and price, and
/// a total that is exactly their product.
pub open spec fn sale_consistent(s: Sale) -> bool {
    &&& s.quantity_sold > 0
    &&& s.sale_price > 0
    &&& s.total_sale == s.quantity_sold * s.sale_price
}

/// The record `s` captures a sale of `qty` units of `name` at unit price
/// `sp`, costed against the catalog price `cost_price` that the product
/// carried when the sale was recorded.
pub open spec fn sale_matches(s: Sale, name: Seq<char>, qty: u32, sp: u32, cost_price: u32) -> bool {
    &&& s.product_name@ == name
    &&& s.quantity_sold == qty
    &&& s.sale_price == sp
    &&& s.total_sale == qty * sp
    &&& s.profit == qty * sp - qty * cost_price
}

/// Sum of the `total_sale` column over the whole ledger.
pub open spec fn sum_total_sale(s: Seq<Sale>) -> int
    decreases s.len(),
{
    if s.len() == 0 {
        0
    } else {
        sum_total_sale(s.drop_last()) + s.last().total_sale
    }
}

/// Sum of the `profit` column over the whole ledger.
pub open spec fn sum_profit(s: Seq<Sale>) -> int
    decreases s.len(),
{
    if s.len() == 0 {
        0
    } else {
        sum_profit(s.drop_last()) + s.last().profit
    }
}

/// Recomputing the sales total after a record is appended yields the previous
/// total plus exactly the new record's total sale: the aggregate always
/// equals the sum of per-record values, whatever sequence of operations built
/// the ledger.
pub proof fn lemma_sum_total_sale_append(s: Seq<Sale>, sale: Sale)
    ensures
        sum_total_sale(s.push(sale)) == sum_total_sale(s) + sale.total_sale,
{
    assert(s.push(sale).drop_last() =~= s);
}

/// Recomputing the profit total after a record is appended yields the
/// previous total plus exactly the new record's profit.
pub proof fn lemma_sum_profit_append(s: Seq<Sale>, sale: Sale)
    ensures
        sum_profit(s.push(sale)) == sum_profit(s) + sale.profit,
{
    assert(s.push(sale).drop_last() =~= s);
}

/// A fresh vector holding the same sale records, element for element.
pub(crate) fn clone_sales(sales: &Vec<Sale>) -> (rows: Vec<Sale>)
    ensures
        rows@ == sales@,
{
    let mut rows: Vec<Sale> = Vec::new();
    let mut idx: usize = 0;
    while idx < sales.len()
        invariant
            idx <= sales@.len(),
            rows@ == sales@.subrange(0, idx as int),
        decreases sales@.len() - idx,
    {
        let s = &sales[idx];
        let row = Sale {
            product_name: s.product_name.clone(),
            quantity_sold: s.quantity_sold,
            sale_price: s.sale_price,
            total_sale: s.total_sale,
            profit: s.profit,
        };
        rows.push(row);
        idx = idx + 1;
        proof {
            assert(sales@.subrange(0, idx as int) =~= sales@.subrange(0, idx as int - 1).push(
                sales@[idx - 1],
            ));
        }
    }
    proof {
        assert(sales@.subrange(0, sales@.len() as int) =~= sales@);
    }
    rows
}

/// Recording sales against the catalog, and the sales and profit aggregates.
pub trait SalesManagement: InventoryModel {
    /// Books a sale: after validation the first product named
    /// `product_name` loses the sold quantity, and one sale record is
    /// appended whose profit is costed against the product's current
    /// catalog price.  Fails on a zero quantity or price, on an unknown
    /// product, and — exactly when the requested quantity exceeds the
    /// current stock — with `OutOfStock`; every failure mutates nothing.
    fn record_sale(&mut self, product_name: &str, quantity_sold: u32, sale_price: u32) -> (result:
        Result<(), InventoryError>)
        requires
            forall|i: int|
                is_first_match(old(self).catalog(), product_name@, i) && quantity_sold > 0
                    && sale_price > 0 && quantity_sold <= old(self).catalog()[i].quantity
                    ==> i64::MIN <= quantity_sold * sale_price - quantity_sold * old(
                    self,
                ).catalog()[i].price <= i64::MAX,
        ensures
            final(self).purchase_log() == old(self).purchase_log(),
            ledger_consistent(old(self).purchase_log(), old(self).sale_log())
                ==> ledger_consistent(final(self).purchase_log(), final(self).sale_log()),
            match result {
                Ok(()) => {
                    &&& quantity_sold > 0 && sale_price > 0
                    &&& exists|i: int|
                        {
                            &&& is_first_match(old(self).catalog(), product_name@, i)
                            &&& quantity_sold <= old(self).catalog()[i].quantity
                            &&& final(self).catalog() == old(self).catalog().update(
                                i,
                                with_quantity(
                                    old(self).catalog()[i],
                                    (old(self).catalog()[i].quantity - quantity_sold) as u32,
                                ),
                            )
                            &&& final(self).sale_log().len() == old(self).sale_log().len() + 1
                            &&& final(self).sale_log().drop_last() == old(self).sale_log()
                            &&& sale_matches(
                                final(self).sale_log().last(),
                                product_name@,
                                quantity_sold,
                                sale_price,
                                old(self).catalog()[i].price,
                            )
                        }
                },
                Err(e) => {
                    &&& *final(self) == *old(self)
                    &&& match e {
                        InventoryError::InvalidInput(m) => (quantity_sold == 0 || sale_price == 0)
                            && m@ == "Quantity sold or sale price cannot be zero or negative"@,
                        InventoryError::ProductNotFound(n) => quantity_sold > 0 && sale_price > 0
                            && n@ == product_name@ && !has_product(
                            old(self).catalog(),
                            product_name@,
                        ),
                        InventoryError::OutOfStock(n) => {
                            &&& quantity_sold > 0 && sale_price > 0
                            &&& n@ == product_name@
                            &&& exists|i: int|
                                is_first_match(old(self).catalog(), product_name@, i) && old(
                                    self,
                                ).catalog()[i].quantity < quantity_sold
                        },
                        _ => false,
                    }
                },
            },
    ;

    /// The sum of `total_sale` over every sale record, recomputed from the
    /// ledger on each call.
    fn total_sales(&self) -> (total: u128)
        ensures
            total == sum_total_sale(self.sale_log()),
    ;

    /// The sum of `profit` over every sale record, recomputed from the
    /// ledger on each call.
    fn total_profit(&self) -> (total: i128)
        ensures
            total == sum_profit(self.sale_log()),
    ;
}

impl SalesManagement for Inventory {
    fn record_sale(&mut self, product_name: &str, quantity_sold: u32, sale_price: u32) -> (result:
        Result<(), InventoryError>) {
        if quantity_sold == 0 || sale_price == 0 {
            return Err(InventoryError::InvalidInput(
                "Quantity sold or sale price cannot be zero or negative".to_owned(),
            ));
        }
        match find_by_name(&self.products, product_name) {
            Some(i) => {
                proof {
                    assert(is_first_match(old(self).catalog(), product_name@, i as int));
                }
                if self.products[i].quantity < quantity_sold {
                    return Err(InventoryError::OutOfStock(product_name.to_owned()));
                }
                let cost_price: u32 = self.products[i].price;
                let p = &mut self.products[i];
                p.quantity = p.quantity - quantity_sold;
                proof {
                    assert(self.catalog() == old(self).catalog().update(
                        i as int,
                        with_quantity(
                            old(self).catalog()[i as int],
                            (old(self).catalog()[i as int].quantity - quantity_sold) as u32,
                        ),
                    ));
                    lemma_mul_upper_bound(
                        quantity_sold as int,
                        u32::MAX as int,
                        sale_price as int,
                        u32::MAX as int,
                    );
                    lemma_mul_upper_bound(
                        quantity_sold as int,
                        u32::MAX as int,
                        cost_price as int,
                        u32::MAX as int,
                    );
                }
                let total_sale: u64 = (quantity_sold as u64) * (sale_price as u64);
                let cost: u64 = (quantity_sold as u64) * (cost_price as u64);
                let difference: i128 = (total_sale as i128) - (cost as i128);
                proof {
                    assert(i64::MIN <= difference <= i64::MAX);
                }
                let profit: i64 = difference as i64;
                self.sales.push(
                    Sale {
                        product_name: product_name.to_owned(),
                        quantity_sold,
                        sale_price,
                        total_sale,
                        profit,
                    },
                );
                proof {
                    assert(self.sales@.drop_last() =~= old(self).sales@);
                }
                Ok(())
            },
            None => Err(InventoryError::ProductNotFound(product_name.to_owned())),
        }
    }

    fn total_sales(&self) -> (total: u128) {
        let mut total: u128 = 0;
        let mut idx: usize = 0;
        while idx < self.sales.len()
            invariant
                idx <= self.sales@.len(),
                total == sum_total_sale(self.sales@.subrange(0, idx as int)),
                total <= (idx as int) * (u64::MAX as int),
            decreases self.sales@.len() - idx,
        {
            let amount = self.sales[idx].total_sale;
            proof {
                assert(self.sales@.subrange(0, idx as int + 1).drop_last() =~= self.sales@.subrange(
                    0,
                    idx as int,
                ));
                assert(self.sales@.subrange(0, idx as int + 1).last() == self.sales@[idx as int]);
            }
            total = total + (amount as u128);
            idx = idx + 1;
        }
        proof {
            assert(self.sales@.subrange(0, self.sales@.len() as int) =~= self.sales@);
        }
        total
    }

    fn total_profit(&self) -> (total: i128) {
        let mut total: i128 = 0;
        let mut idx: usize = 0;
        while idx < self.sales.len()
            invariant
                idx <= self.sales@.len(),
                total == sum_profit(self.sales@.subrange(0, idx as int)),
                (idx as int) * (i64::MIN as int) <= total <= (idx as int) * (i64::MAX as int),
            decreases self.sales@.len() - idx,
        {
            let gain = self.sales[idx].profit;
            proof {
                assert(self.sales@.subrange(0, idx as int + 1).drop_last() =~= self.sales@.subrange(
                    0,
                    idx as int,
                ));
                assert(self.sales@.subrange(0, idx as int + 1).last() == self.sales@[idx as int]);
            }
            total = total + (gain as i128);
            idx = idx + 1;
        }
        proof {
            assert(self.sales@.subrange(0, self.sales@.len() as int) =~= self.sales@);
        }
        total
    }
}

} // verus!
