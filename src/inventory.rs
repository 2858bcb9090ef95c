use vstd::prelude::*;
use crate::order::{LineItem, quantity_of, lines_valid};

verus! {

/// Units on hand of one product.
#[derive(Debug)]
pub struct StockEntry {
    pub product_id: String,
    pub stock: i64,
}

/// Stock levels of the catalog's products, one entry per product.
#[derive(Debug)]
pub struct Inventory {
    entries: Vec<StockEntry>,
}

/// No two entries name the same product.
pub open spec fn unique_products(s: Seq<StockEntry>) -> bool {
    forall|i: int, j: int|
        0 <= i < s.len() && 0 <= j < s.len() && (#[trigger] s[i]).product_id@ == (#[trigger] s[j]).product_id@
            ==> i == j
}

/// Whether some entry names the product.
pub open spec fn lists_product(s: Seq<StockEntry>, k: Seq<char>) -> bool {
    exists|i: int| 0 <= i < s.len() && (#[trigger] s[i]).product_id@ == k
}

/// Stock level of each listed product.
pub open spec fn levels(s: Seq<StockEntry>) -> Map<Seq<char>, int> {
    Map::new(
        |k: Seq<char>| lists_product(s, k),
        |k: Seq<char>| s[choose|i: int| 0 <= i < s.len() && (#[trigger] s[i]).product_id@ == k].stock as int,
    )
}

/// Level of a product after moving the units that a set of lines holds:
/// back onto the shelf when `restore`, off it otherwise.
pub open spec fn moved(level: int, items: Seq<LineItem>, k: Seq<char>, restore: bool) -> int {
    if restore {
        level + quantity_of(items, k)
    } else {
        level - quantity_of(items, k)
    }
}

/// Levels of every listed product after moving the units of a set of lines.
pub open spec fn moved_levels(m: Map<Seq<char>, int>, items: Seq<LineItem>, restore: bool) -> Map<Seq<char>, int> {
    Map::new(|k: Seq<char>| m.contains_key(k), |k: Seq<char>| moved(m[k], items, k, restore))
}

/// Every moved level fits in a 64-bit stock counter.
pub open spec fn move_fits(m: Map<Seq<char>, int>, items: Seq<LineItem>, restore: bool) -> bool {
    forall|k: Seq<char>| #[trigger] m.contains_key(k) ==> i64::MIN <= moved(m[k], items, k, restore) <= i64::MAX
}

proof fn lemma_level_at(s: Seq<StockEntry>, i: int)
    requires
        unique_products(s),
        0 <= i < s.len(),
    ensures
        levels(s).contains_key(s[i].product_id@),
        levels(s)[s[i].product_id@] == s[i].stock as int,
{
    let k = s[i].product_id@;
    assert(lists_product(s, k));
    let j = choose|j: int| 0 <= j < s.len() && (#[trigger] s[j]).product_id@ == k;
    assert(i == j);
}

proof fn lemma_quantity_prefix(s: Seq<LineItem>, n: int, k: Seq<char>)
    requires
        lines_valid(s),
        0 <= n <= s.len(),
    ensures
        0 <= quantity_of(s.take(n), k) <= quantity_of(s, k),
    decreases s.len(),
{
    if n == s.len() {
        assert(s.take(n) =~= s);
        if s.len() > 0 {
            assert(lines_valid(s.drop_last()));
            lemma_quantity_prefix(s.drop_last(), n - 1, k);
            assert(s.drop_last().take(n - 1) =~= s.drop_last());
            assert(s.last() == s[s.len() - 1]);
        }
    } else {
        assert(lines_valid(s.drop_last()));
        lemma_quantity_prefix(s.drop_last(), n, k);
        assert(s.drop_last().take(n) =~= s.take(n));
        assert(s.last() == s[s.len() - 1]);
    }
}

impl Inventory {
    /// The entries name distinct products.
    pub closed spec fn wf(&self) -> bool {
        unique_products(self.entries@)
    }

    /// Stock level of each product on record.
    pub closed spec fn view(&self) -> Map<Seq<char>, int> {
        levels(self.entries@)
    }

    /// An inventory with no products.
    pub fn new() -> (r: Inventory)
        ensures
            r.wf(),
            r.view() == Map::<Seq<char>, int>::empty(),
    {
        let r = Inventory { entries: Vec::new() };
        assert(r.view() =~= Map::<Seq<char>, int>::empty());
        r
    }

    fn position(&self, product_id: &String) -> (r: Option<usize>)
        requires
            self.wf(),
        ensures
            match r {
                Some(i) => i < self.entries@.len() && self.entries@[i as int].product_id@ == product_id@,
                None => !self.view().contains_key(product_id@),
            },
    {
        let mut i: usize = 0;
        while i < self.entries.len()
            invariant
                0 <= i <= self.entries@.len(),
                forall|j: int| 0 <= j < i ==> (#[trigger] self.entries@[j]).product_id@ != product_id@,
            decreases self.entries@.len() - i,
        {
            if self.entries[i].product_id == *product_id {
                return Some(i);
            }
            i = i + 1;
        }
        None
    }

    /// Stock level of a product, or `None` where the product is not on record.
    pub fn level(&self, product_id: &String) -> (r: Option<i64>)
        requires
            self.wf(),
        ensures
            r.is_some() == self.view().contains_key(product_id@),
            r.is_some() ==> r.unwrap() as int == self.view()[product_id@],
    {
        match self.position(product_id) {
            Some(i) => {
                proof { lemma_level_at(self.entries@, i as int); }
                Some(self.entries[i].stock)
            },
            None => None,
        }
    }

    /// Records the stock level of a product, adding the product if it is new.
    pub fn set_level(&mut self, product_id: String, stock: i64)
        requires
            old(self).wf(),
        ensures
            final(self).wf(),
            final(self).view() == old(self).view().insert(product_id@, stock as int),
    {
        let ghost k = product_id@;
        let ghost before = self.entries@;
        match self.position(&product_id) {
            Some(i) => {
                self.entries.set(i, StockEntry { product_id, stock });
                proof {
                    let after = self.entries@;
                    assert(unique_products(after)) by {
                        assert forall|a: int, b: int|
                            0 <= a < after.len() && 0 <= b < after.len()
                                && (#[trigger] after[a]).product_id@ == (#[trigger] after[b]).product_id@
                            implies a == b by {
                            assert(before[i as int].product_id@ == k);
                            if a != i as int && b != i as int {
                                assert(before[a] == after[a] && before[b] == after[b]);
                            } else if a == i as int && b != i as int {
                                assert(before[b] == after[b]);
                            } else if a != i as int && b == i as int {
                                assert(before[a] == after[a]);
                            }
                        }
                    };
                    self.lemma_view_after_set(before, i as int);
                }
            },
            None => {
                self.entries.push(StockEntry { product_id, stock });
                proof {
                    let after = self.entries@;
                    let n = before.len() as int;
                    assert(unique_products(after)) by {
                        assert forall|a: int, b: int|
                            0 <= a < after.len() && 0 <= b < after.len()
                                && (#[trigger] after[a]).product_id@ == (#[trigger] after[b]).product_id@
                            implies a == b by {
                            if a < n && b < n {
                                assert(before[a] == after[a] && before[b] == after[b]);
                            } else if a < n {
                                assert(before[a] == after[a]);
                                assert(lists_product(before, k));
                            } else if b < n {
                                assert(before[b] == after[b]);
                                assert(lists_product(before, k));
                            }
                        }
                    };
                    assert forall|kk: Seq<char>| #[trigger] lists_product(after, kk) == (lists_product(before, kk) || kk == k) by {
                        if lists_product(before, kk) {
                            let j = choose|j: int| 0 <= j < before.len() && (#[trigger] before[j]).product_id@ == kk;
                            assert(after[j] == before[j]);
                        }
                        if kk == k {
                            assert(after[n].product_id@ == k);
                        }
                        if lists_product(after, kk) && kk != k {
                            let j = choose|j: int| 0 <= j < after.len() && (#[trigger] after[j]).product_id@ == kk;
                            assert(j < n);
                            assert(after[j] == before[j]);
                        }
                    };
                    assert forall|kk: Seq<char>| lists_product(after, kk) implies
                        #[trigger] levels(after)[kk] == levels(before).insert(k, stock as int)[kk] by {
                        let j = choose|j: int| 0 <= j < after.len() && (#[trigger] after[j]).product_id@ == kk;
                        lemma_level_at(after, j);
                        if kk != k {
                            assert(j < n);
                            assert(after[j] == before[j]);
                            lemma_level_at(before, j);
                        }
                    };
                    assert(levels(after) =~= levels(before).insert(k, stock as int));
                }
            },
        }
    }

    /// Changes the level of a product by `delta`. A product not on record is left
    /// alone; a change that would leave the 64-bit range fails and changes nothing.
    pub fn adjust(&mut self, product_id: &String, delta: i64) -> (r: bool)
        requires
            old(self).wf(),
        ensures
            final(self).wf(),
            r == !(old(self).view().contains_key(product_id@)
                && !(i64::MIN <= old(self).view()[product_id@] + delta <= i64::MAX)),
            r && old(self).view().contains_key(product_id@) ==> final(self).view()
                == old(self).view().insert(product_id@, old(self).view()[product_id@] + delta),
            !(r && old(self).view().contains_key(product_id@)) ==> final(self).view() == old(self).view(),
    {
        match self.position(product_id) {
            None => true,
            Some(i) => {
                proof { lemma_level_at(self.entries@, i as int); }
                match self.entries[i].stock.checked_add(delta) {
                    None => false,
                    Some(v) => {
                        let ghost before = self.entries@;
                        let pid = self.entries[i].product_id.clone();
                        self.entries.set(i, StockEntry { product_id: pid, stock: v });
                        proof {
                            let after = self.entries@;
                            assert(unique_products(after)) by {
                                assert forall|a: int, b: int|
                                    0 <= a < after.len() && 0 <= b < after.len()
                                        && (#[trigger] after[a]).product_id@ == (#[trigger] after[b]).product_id@
                                    implies a == b by {
                                    if a != i as int {
                                        assert(before[a] == after[a]);
                                    }
                                    if b != i as int {
                                        assert(before[b] == after[b]);
                                    }
                                }
                            };
                            self.lemma_view_after_set(before, i as int);
                        }
                        true
                    },
                }
            },
        }
    }

    /// A copy of this inventory.
    pub fn duplicate(&self) -> (r: Inventory)
        requires
            self.wf(),
        ensures
            r.wf(),
            r.view() == self.view(),
    {
        let mut entries: Vec<StockEntry> = Vec::new();
        let mut i: usize = 0;
        while i < self.entries.len()
            invariant
                0 <= i <= self.entries@.len(),
                entries@ == self.entries@.subrange(0, i as int),
            decreases self.entries@.len() - i,
        {
            let e = &self.entries[i];
            entries.push(StockEntry { product_id: e.product_id.clone(), stock: e.stock });
            assert(entries@ =~= self.entries@.subrange(0, i + 1));
            i = i + 1;
        }
        assert(entries@ =~= self.entries@);
        Inventory { entries }
    }

    /// Moves the units that a set of lines holds: back onto the shelf when
    /// `restore`, off it otherwise. Either every product on record moves, or,
    /// where some level would leave the 64-bit range, nothing changes.
    /// Lines naming a product not on record move nothing.
    pub fn move_lines(&mut self, items: &Vec<LineItem>, restore: bool) -> (r: bool)
        requires
            old(self).wf(),
            lines_valid(items@),
        ensures
            final(self).wf(),
            r == move_fits(old(self).view(), items@, restore),
            r ==> final(self).view() == moved_levels(old(self).view(), items@, restore),
            !r ==> final(self).view() == old(self).view(),
    {
        let ghost start = self.view();
        let mut work = self.duplicate();
        let mut i: usize = 0;
        while i < items.len()
            invariant
                0 <= i <= items@.len(),
                work.wf(),
                lines_valid(items@),
                self.wf(),
                self.view() == start,
                work.view().dom() == start.dom(),
                forall|k: Seq<char>| #[trigger] start.contains_key(k)
                    ==> work.view()[k] == moved(start[k], items@.take(i as int), k, restore),
            decreases items@.len() - i,
        {
            let item = &items[i];
            assert(item.quantity > 0);
            let delta: i64 = if restore { item.quantity as i64 } else { -(item.quantity as i64) };
            let ghost w0 = work.view();
            let ok = work.adjust(&item.product_id, delta);
            proof {
                assert(items@.take(i + 1).drop_last() =~= items@.take(i as int));
                assert(items@.take(i + 1).last() == items@[i as int]);
            }
            if !ok {
                proof {
                    let p = item.product_id@;
                    lemma_quantity_prefix(items@, i + 1, p);
                    assert(start.contains_key(p));
                    assert(!(i64::MIN <= moved(start[p], items@, p, restore) <= i64::MAX));
                }
                return false;
            }
            proof {
                assert(work.view().dom() =~= start.dom());
            }
            i = i + 1;
        }
        proof {
            assert(items@.take(items@.len() as int) =~= items@);
            assert(work.view() =~= moved_levels(start, items@, restore));
        }
        *self = work;
        true
    }

    /// Every level on record fits in 64 bits.
    pub proof fn lemma_levels_fit(&self)
        requires
            self.wf(),
        ensures
            forall|k: Seq<char>| #[trigger] self.view().contains_key(k) ==> i64::MIN <= self.view()[k] <= i64::MAX,
    {
        assert forall|k: Seq<char>| #[trigger] self.view().contains_key(k) implies i64::MIN <= self.view()[k] <= i64::MAX by {
            let i = choose|i: int| 0 <= i < self.entries@.len() && (#[trigger] self.entries@[i]).product_id@ == k;
            lemma_level_at(self.entries@, i);
        };
    }

    proof fn lemma_view_after_set(&self, before: Seq<StockEntry>, i: int)
        requires
            unique_products(before),
            unique_products(self.entries@),
            0 <= i < before.len(),
            self.entries@.len() == before.len(),
            self.entries@[i].product_id@ == before[i].product_id@,
            forall|j: int| 0 <= j < before.len() && j != i ==> self.entries@[j] == before[j],
        ensures
            self.view() == levels(before).insert(before[i].product_id@, self.entries@[i].stock as int),
    {
        let after = self.entries@;
        let k = before[i].product_id@;
        assert forall|kk: Seq<char>| #[trigger] lists_product(after, kk) == lists_product(before, kk) by {
            if lists_product(before, kk) {
                let j = choose|j: int| 0 <= j < before.len() && (#[trigger] before[j]).product_id@ == kk;
                if j != i {
                    assert(after[j] == before[j]);
                }
            }
            if lists_product(after, kk) {
                let j = choose|j: int| 0 <= j < after.len() && (#[trigger] after[j]).product_id@ == kk;
                if j != i {
                    assert(after[j] == before[j]);
                }
            }
        };
        assert(lists_product(before, k));
        assert forall|kk: Seq<char>| lists_product(after, kk) implies
            #[trigger] levels(after)[kk] == levels(before).insert(k, after[i].stock as int)[kk] by {
            let j = choose|j: int| 0 <= j < after.len() && (#[trigger] after[j]).product_id@ == kk;
            lemma_level_at(after, j);
            if j != i {
                assert(after[j] == before[j]);
                lemma_level_at(before, j);
            }
        };
        assert(levels(after) =~= levels(before).insert(k, after[i].stock as int));
    }
}

} // verus!
