//! The document facade: construction, validation, total-price computation,
//! item collection operations, order handling, extensions, and the
//! document's own deep link.

use vstd::prelude::*;

use crate::OMS_VERSION;
use crate::OmsError;
use crate::OmsResult;
use crate::outside::current_timestamp;
use crate::outside::str_eq;
use crate::types::AMOUNT_LIMIT;
use crate::types::Extensions;
use crate::types::Item;
use crate::types::LIST_LIMIT;
use crate::types::Metadata;
use crate::types::OmsDocument;
use crate::types::Order;
use crate::types::OrderStatus;
use crate::types::SelectedCustomization;
use crate::types::VALUE_LIMIT;
use crate::types::Vendor;
use crate::types::selections_like;
use crate::utils::lemma_prefix_budget;
use crate::validation::document_issue;
use crate::validation::error_matches;
use crate::validation::validate_document;

verus! {

/// The unit price an item contributes to a total: its calculated price when
/// present (which takes precedence), else its base price, else zero.
pub open spec fn unit_price(item: Item) -> int {
    match item.calculated {
        Some(c) => c.item_price as int,
        None => match item.base_price {
            Some(p) => p as int,
            None => 0,
        },
    }
}

/// The quantity of an item in an order; absent means one.
pub open spec fn item_quantity(item: Item) -> int {
    match item.quantity {
        Some(q) => q as int,
        None => 1,
    }
}

/// The summed price of the first `k` items: unit price times quantity each.
pub open spec fn items_total_prefix(items: Seq<Item>, k: int) -> int
    decreases k,
{
    if k <= 0 {
        0
    } else {
        items_total_prefix(items, k - 1) + unit_price(items[k - 1]) * item_quantity(items[k - 1])
    }
}

/// The summed price of all items.
pub open spec fn items_total(items: Seq<Item>) -> int {
    items_total_prefix(items, items.len() as int)
}

proof fn lemma_item_contrib_bound(item: Item)
    requires
        item.wf(),
    ensures
        -crate::utils::selection_delta_limit() <= unit_price(item) * item_quantity(item)
            <= crate::utils::selection_delta_limit(),
{
    assert(-crate::utils::selection_delta_limit() <= unit_price(item) * item_quantity(item)
        <= crate::utils::selection_delta_limit()) by (nonlinear_arith)
        requires
            -(AMOUNT_LIMIT as int) <= unit_price(item) <= AMOUNT_LIMIT as int,
            0 <= item_quantity(item) <= VALUE_LIMIT as int,
            crate::utils::selection_delta_limit() == (AMOUNT_LIMIT as int) * (VALUE_LIMIT as int),
    ;
}

proof fn lemma_items_total_bound(items: Seq<Item>, k: int)
    requires
        forall|j: int| 0 <= j < items.len() ==> (#[trigger] items[j]).wf(),
        0 <= k <= items.len(),
    ensures
        -(k * crate::utils::selection_delta_limit()) <= items_total_prefix(items, k) <= k
            * crate::utils::selection_delta_limit(),
    decreases k,
{
    if k > 0 {
        lemma_items_total_bound(items, k - 1);
        lemma_item_contrib_bound(items[k - 1]);
        assert(k * crate::utils::selection_delta_limit() == (k - 1)
            * crate::utils::selection_delta_limit() + crate::utils::selection_delta_limit())
            by (nonlinear_arith);
    }
}

/// The total of a well-formed item list stays within what the payment
/// arithmetic needs.
pub(crate) proof fn lemma_items_total_public_bound(items: Seq<Item>)
    requires
        items.len() <= LIST_LIMIT,
        forall|j: int| 0 <= j < items.len() ==> (#[trigger] items[j]).wf(),
    ensures
        -1_000_000_000_000_000_000int <= items_total(items) <= 1_000_000_000_000_000_000int,
{
    lemma_items_total_bound(items, items.len() as int);
    lemma_prefix_budget(items.len() as int);
}

/// The items of a prefix of the list whose ids do not match, in order: what
/// removing every item with the given id from the first `k` items leaves.
pub open spec fn keep_non_matching(items: Seq<Item>, id: Seq<char>, k: int) -> Seq<Item>
    decreases k,
{
    if k <= 0 {
        Seq::<Item>::empty()
    } else if items[k - 1].id@ == id {
        keep_non_matching(items, id, k - 1)
    } else {
        keep_non_matching(items, id, k - 1).push(items[k - 1])
    }
}

/// What removing every item with the given id leaves, in order.
pub open spec fn remove_matching(items: Seq<Item>, id: Seq<char>) -> Seq<Item> {
    keep_non_matching(items, id, items.len() as int)
}

proof fn lemma_keep_len(items: Seq<Item>, id: Seq<char>, k: int)
    requires
        0 <= k <= items.len(),
    ensures
        keep_non_matching(items, id, k).len() <= k,
    decreases k,
{
    if k > 0 {
        lemma_keep_len(items, id, k - 1);
    }
}

proof fn lemma_keep_len_exact(items: Seq<Item>, id: Seq<char>, k: int)
    requires
        0 <= k <= items.len(),
    ensures
        keep_non_matching(items, id, k).len() == k <==> forall|j: int|
            0 <= j < k ==> (#[trigger] items[j].id@) != id,
    decreases k,
{
    if k > 0 {
        lemma_keep_len_exact(items, id, k - 1);
        lemma_keep_len(items, id, k - 1);
    }
}

/// The first item whose id matches, from index `i` on.
pub open spec fn find_item_from(items: Seq<Item>, id: Seq<char>, i: int) -> Option<Item>
    decreases items.len() - i,
{
    if i < 0 || i >= items.len() {
        None
    } else if items[i].id@ == id {
        Some(items[i])
    } else {
        find_item_from(items, id, i + 1)
    }
}

/// First-match lookup of an item by id.
pub open spec fn find_item_in(items: Seq<Item>, id: Seq<char>) -> Option<Item> {
    find_item_from(items, id, 0)
}

/// The index of the first item whose id matches, from index `i` on, or -1.
pub open spec fn find_item_idx(items: Seq<Item>, id: Seq<char>, i: int) -> int
    decreases items.len() - i,
{
    if i < 0 || i >= items.len() {
        -1
    } else if items[i].id@ == id {
        i
    } else {
        find_item_idx(items, id, i + 1)
    }
}

/// Whether an extraction entry holds a key in the set.
pub open spec fn key_in(
    entries: Seq<(String, Vec<SelectedCustomization>)>,
    id: Seq<char>,
) -> bool {
    exists|i: int| 0 <= i < entries.len() && (#[trigger] entries[i].0@) == id
}

/// Whether extraction entry `i` comes from item `x`: the keys agree, the
/// item carries selections whose values the entry holds, and no later item
/// with the same id carries selections (so `x` is the last such item).
pub open spec fn entry_from(
    items: Seq<Item>,
    entries: Seq<(String, Vec<SelectedCustomization>)>,
    i: int,
    x: int,
) -> bool {
    &&& entries[i].0@ == items[x].id@
    &&& items[x].selected_customizations matches Some(ss) && crate::types::selections_like(
        ss@,
        entries[i].1@,
    )
    &&& forall|y: int|
        x < y < items.len() && items[y].id@ == entries[i].0@
            ==> (#[trigger] items[y]).selected_customizations is None
}

/// Whether extraction entry `i` comes from some item at index `lo` or later.
pub open spec fn entry_sourced(
    items: Seq<Item>,
    entries: Seq<(String, Vec<SelectedCustomization>)>,
    i: int,
    lo: int,
) -> bool {
    exists|x: int| lo <= x < items.len() && #[trigger] entry_from(items, entries, i, x)
}

/// What a correct selection extraction looks like, over the items from
/// index `lo` on: keys are unique; every entry's value is the selection
/// list of the last item with that id that carries selections; and every
/// item carrying selections is represented.
pub open spec fn selection_extract_ok(
    items: Seq<Item>,
    entries: Seq<(String, Vec<SelectedCustomization>)>,
    lo: int,
) -> bool {
    &&& forall|i: int, j: int|
        0 <= i < j < entries.len() ==> (#[trigger] entries[i].0@) != (#[trigger] entries[j].0@)
    &&& forall|i: int| 0 <= i < entries.len() ==> #[trigger] entry_sourced(items, entries, i, lo)
    &&& forall|x: int|
        lo <= x < items.len() && (#[trigger] items[x]).selected_customizations is Some ==> key_in(
            entries,
            items[x].id@,
        )
}

proof fn lemma_extract_step_skip(
    items: Seq<Item>,
    entries: Seq<(String, Vec<SelectedCustomization>)>,
    lo: int,
)
    requires
        0 <= lo < items.len(),
        selection_extract_ok(items, entries, lo + 1),
        items[lo].selected_customizations is Some ==> key_in(entries, items[lo].id@),
    ensures
        selection_extract_ok(items, entries, lo),
{
    assert forall|i: int| 0 <= i < entries.len() implies #[trigger] entry_sourced(
        items,
        entries,
        i,
        lo,
    ) by {
        assert(entry_sourced(items, entries, i, lo + 1));
        let x0 = choose|x: int| lo + 1 <= x < items.len() && #[trigger] entry_from(
            items,
            entries,
            i,
            x,
        );
        assert(lo <= x0 < items.len() && entry_from(items, entries, i, x0));
    }
}

/// Whether a key is already present in an extraction result.
fn key_present(entries: &Vec<(String, Vec<SelectedCustomization>)>, id: &str) -> (r: bool)
    ensures
        r == key_in(entries@, id@),
{
    let n = entries.len();
    let mut k: usize = 0;
    while k < n
        invariant
            n == entries@.len(),
            0 <= k <= n,
            forall|j: int| 0 <= j < k ==> (#[trigger] entries@[j].0@) != id@,
        decreases n - k,
    {
        if str_eq(entries[k].0.as_str(), id) {
            proof {
                assert(entries@[k as int].0@ == id@);
            }
            return true;
        }
        k = k + 1;
    }
    false
}

/// The "&l=..." location segment of a document's deep link, empty when the
/// vendor has no location id.
pub open spec fn location_part(v: Vendor) -> Seq<char> {
    match v.location_id {
        Some(l) => "&l="@ + l@,
        None => Seq::<char>::empty(),
    }
}

/// The deep link of a document: an order link for the first item when one
/// exists, else a view link for the vendor.
pub open spec fn document_url(doc: OmsDocument) -> Seq<char> {
    if doc.items@.len() > 0 {
        "omenu://order?v="@ + doc.vendor.id@ + location_part(doc.vendor) + "&i="@
            + doc.items@[0].id@
    } else {
        "omenu://view?v="@ + doc.vendor.id@ + location_part(doc.vendor)
    }
}

impl OmsDocument {
    /// Create a new OMS document with the minimum required fields.
    pub fn new(metadata: Metadata, vendor: Vendor, items: Vec<Item>) -> (r: OmsDocument)
        ensures
            r.oms_version@ == OMS_VERSION@,
            r.metadata == metadata,
            r.vendor == vendor,
            r.items == items,
            r.order is None,
            r.extensions is None,
    {
        OmsDocument {
            oms_version: String::from_str(OMS_VERSION),
            metadata,
            vendor,
            items,
            order: None,
            extensions: None,
        }
    }

    /// Create a new OMS document with an order.
    pub fn with_order(metadata: Metadata, vendor: Vendor, items: Vec<Item>, order: Order) -> (r:
        OmsDocument)
        ensures
            r.oms_version@ == OMS_VERSION@,
            r.metadata == metadata,
            r.vendor == vendor,
            r.items == items,
            r.order == Some(order),
            r.extensions is None,
    {
        OmsDocument {
            oms_version: String::from_str(OMS_VERSION),
            metadata,
            vendor,
            items,
            order: Some(order),
            extensions: None,
        }
    }

    /// Validate the document according to the specification.
    pub fn validate(&self) -> (r: OmsResult<()>)
        ensures
            r is Ok <==> document_issue(*self) is None,
            r matches Err(e) ==> document_issue(*self) matches Some(i) && error_matches(e, i),
    {
        validate_document(self)
    }

    /// Calculate the total price of all items: unit price (calculated price
    /// when present, else base price, else zero) times quantity (one when
    /// absent), summed over the items. A sum that is not strictly positive
    /// is indistinguishable from "no price data" and yields `None`.
    pub fn calculate_total_price(&self) -> (r: Option<i64>)
        requires
            self.wf(),
        ensures
            r is Some <==> items_total(self.items@) > 0,
            r matches Some(t) ==> t as int == items_total(self.items@),
    {
        let n = self.items.len();
        let mut k: usize = 0;
        let mut total: i64 = 0;
        while k < n
            invariant
                n == self.items@.len(),
                n <= LIST_LIMIT,
                0 <= k <= n,
                forall|j: int| 0 <= j < self.items@.len() ==> (#[trigger] self.items@[j]).wf(),
                total as int == items_total_prefix(self.items@, k as int),
            decreases n - k,
        {
            let item = &self.items[k];
            let price: i64 = match &item.calculated {
                Some(c) => c.item_price,
                None => match item.base_price {
                    Some(p) => p,
                    None => 0,
                },
            };
            let quantity: i64 = match item.quantity {
                Some(q) => q as i64,
                None => 1,
            };
            proof {
                lemma_item_contrib_bound(self.items@[k as int]);
                lemma_items_total_bound(self.items@, (k as int) + 1);
                lemma_prefix_budget((k as int) + 1);
            }
            total = total + price * quantity;
            k = k + 1;
        }
        if total > 0 {
            Some(total)
        } else {
            None
        }
    }

    /// Create the document's own deep link: an order link for the first
    /// item when one exists, else a view link for the vendor.
    pub fn create_url(&self) -> (r: Option<String>)
        ensures
            r matches Some(u) && u@ == document_url(*self),
    {
        let mut url = String::from_str("omenu://");
        if self.items.len() > 0 {
            url.append("order?v=");
            url.append(self.vendor.id.as_str());
            if let Some(location_id) = &self.vendor.location_id {
                url.append("&l=");
                url.append(location_id.as_str());
            }
            url.append("&i=");
            url.append(self.items[0].id.as_str());
        } else {
            url.append("view?v=");
            url.append(self.vendor.id.as_str());
            if let Some(location_id) = &self.vendor.location_id {
                url.append("&l=");
                url.append(location_id.as_str());
            }
        }
        proof {
            assert(("omenu://"@ + "order?v="@) =~= "omenu://order?v="@) by {
                reveal_strlit("omenu://");
                reveal_strlit("order?v=");
                reveal_strlit("omenu://order?v=");
            }
            assert(("omenu://"@ + "view?v="@) =~= "omenu://view?v="@) by {
                reveal_strlit("omenu://");
                reveal_strlit("view?v=");
                reveal_strlit("omenu://view?v=");
            }
            assert(url@ =~= document_url(*self));
        }
        Some(url)
    }

    /// Append an item to the document.
    pub fn add_item(&mut self, item: Item)
        ensures
            final(self).items@ == old(self).items@.push(item),
            final(self).oms_version == old(self).oms_version,
            final(self).metadata == old(self).metadata,
            final(self).vendor == old(self).vendor,
            final(self).order == old(self).order,
            final(self).extensions == old(self).extensions,
    {
        self.items.push(item);
    }

    /// Remove every item whose id matches; reports whether anything was
    /// removed. Order among the kept items is preserved.
    pub fn remove_item(&mut self, item_id: &str) -> (r: bool)
        ensures
            final(self).items@ == remove_matching(old(self).items@, item_id@),
            r <==> exists|i: int|
                0 <= i < old(self).items@.len() && (#[trigger] old(self).items@[i].id@)
                    == item_id@,
            final(self).oms_version == old(self).oms_version,
            final(self).metadata == old(self).metadata,
            final(self).vendor == old(self).vendor,
            final(self).order == old(self).order,
            final(self).extensions == old(self).extensions,
    {
        let ghost orig = self.items@;
        let initial_len = self.items.len();
        let mut k: usize = 0;
        let ghost mut p: int = 0;
        while k < self.items.len()
            invariant
                0 <= p <= orig.len(),
                k == keep_non_matching(orig, item_id@, p).len(),
                self.items@ == keep_non_matching(orig, item_id@, p) + orig.subrange(
                    p,
                    orig.len() as int,
                ),
                self.oms_version == old(self).oms_version,
                self.metadata == old(self).metadata,
                self.vendor == old(self).vendor,
                self.order == old(self).order,
                self.extensions == old(self).extensions,
            decreases self.items@.len() - k,
        {
            proof {
                lemma_keep_len(orig, item_id@, p);
                assert(self.items@[k as int] == orig[p]);
            }
            if str_eq(self.items[k].id.as_str(), item_id) {
                self.items.remove(k);
                proof {
                    p = p + 1;
                    assert(keep_non_matching(orig, item_id@, p) == keep_non_matching(
                        orig,
                        item_id@,
                        p - 1,
                    ));
                    assert(self.items@ =~= keep_non_matching(orig, item_id@, p) + orig.subrange(
                        p,
                        orig.len() as int,
                    ));
                }
            } else {
                k = k + 1;
                proof {
                    p = p + 1;
                    assert(keep_non_matching(orig, item_id@, p) == keep_non_matching(
                        orig,
                        item_id@,
                        p - 1,
                    ).push(orig[p - 1]));
                    assert(self.items@ =~= keep_non_matching(orig, item_id@, p) + orig.subrange(
                        p,
                        orig.len() as int,
                    ));
                }
            }
        }
        proof {
            lemma_keep_len(orig, item_id@, p);
            assert(p == orig.len());
            assert(self.items@ =~= keep_non_matching(orig, item_id@, orig.len() as int));
            lemma_keep_len_exact(orig, item_id@, orig.len() as int);
        }
        self.items.len() < initial_len
    }

    /// Find the first item whose id matches.
    pub fn find_item(&self, item_id: &str) -> (r: Option<&Item>)
        ensures
            match r {
                Some(it) => find_item_in(self.items@, item_id@) == Some(*it),
                None => find_item_in(self.items@, item_id@) is None,
            },
    {
        let n = self.items.len();
        let mut k: usize = 0;
        while k < n
            invariant
                n == self.items@.len(),
                0 <= k <= n,
                find_item_from(self.items@, item_id@, 0) == find_item_from(
                    self.items@,
                    item_id@,
                    k as int,
                ),
            decreases n - k,
        {
            if str_eq(self.items[k].id.as_str(), item_id) {
                return Some(&self.items[k]);
            }
            k = k + 1;
        }
        None
    }

    /// Find the first item whose id matches and return a mutable reference
    /// to it. The caller's writes through the reference land on exactly
    /// that item; everything else in the document is untouched.
    pub fn find_item_mut(&mut self, item_id: &str) -> (r: Option<&mut Item>)
        ensures
            r is None ==> find_item_in(old(self).items@, item_id@) is None && *final(self) == *old(
                self,
            ),
            r matches Some(m) ==> {
                let idx = find_item_idx(old(self).items@, item_id@, 0);
                &&& 0 <= idx < old(self).items@.len()
                &&& old(self).items@[idx].id@ == item_id@
                &&& *m == old(self).items@[idx]
                &&& final(self).items@ == old(self).items@.update(idx, *final(m))
                &&& final(self).oms_version == old(self).oms_version
                &&& final(self).metadata == old(self).metadata
                &&& final(self).vendor == old(self).vendor
                &&& final(self).order == old(self).order
                &&& final(self).extensions == old(self).extensions
            },
    {
        let n = self.items.len();
        let mut k: usize = 0;
        while k < n
            invariant
                *self == *old(self),
                n == self.items@.len(),
                0 <= k <= n,
                find_item_idx(self.items@, item_id@, 0) == find_item_idx(
                    self.items@,
                    item_id@,
                    k as int,
                ),
                find_item_from(self.items@, item_id@, 0) == find_item_from(
                    self.items@,
                    item_id@,
                    k as int,
                ),
            decreases n - k,
        {
            if str_eq(self.items[k].id.as_str(), item_id) {
                proof {
                    assert(self.items@[k as int].id@ == item_id@);
                    assert(find_item_idx(self.items@, item_id@, k as int) == k as int);
                }
                return Some(&mut self.items[k]);
            }
            k = k + 1;
        }
        None
    }

    /// Extract the selected customizations of the document, as a map from
    /// item id to that item's selection list. When several items share an
    /// id, the last one carrying selections wins.
    pub fn extract_customization_selections(&self) -> (r: Vec<(String, Vec<SelectedCustomization>)>)
        ensures
            selection_extract_ok(self.items@, r@, 0),
    {
        let n = self.items.len();
        let mut result: Vec<(String, Vec<SelectedCustomization>)> = Vec::new();
        let mut idx: usize = n;
        while idx > 0
            invariant
                n == self.items@.len(),
                0 <= idx <= n,
                selection_extract_ok(self.items@, result@, idx as int),
            decreases idx,
        {
            idx = idx - 1;
            let ghost items = self.items@;
            let ghost prev = result@;
            let item = &self.items[idx];
            if let Some(selections) = &item.selected_customizations {
                if !key_present(&result, item.id.as_str()) {
                    let pair = (item.id.clone(), crate::types::duplicate_selections(selections));
                    proof {
                        // a later item with the same id and selections would
                        // already have put this key into the result
                        assert forall|y: int|
                            idx < y < items.len() && items[y].id@ == item.id@
                            implies (#[trigger] items[y]).selected_customizations is None by {
                            if items[y].selected_customizations is Some {
                                assert(key_in(prev, items[y].id@));
                            }
                        }
                    }
                    result.push(pair);
                    proof {
                        let m = prev.len() as int;
                        assert(forall|i: int| 0 <= i < m ==> result@[i] == prev[i]);
                        assert(result@[m].0@ == items[idx as int].id@);
                        // key uniqueness: the new key was absent
                        assert forall|i: int, j: int|
                            0 <= i < j < result@.len()
                            implies (#[trigger] result@[i].0@) != (#[trigger] result@[j].0@) by {
                            if j == m {
                                assert(!key_in(prev, result@[m].0@));
                                assert(prev[i].0@ != result@[m].0@);
                            }
                        }
                        // every entry has its source item
                        assert forall|i: int| 0 <= i < result@.len() implies
                            #[trigger] entry_sourced(items, result@, i, idx as int) by {
                            if i < m {
                                assert(entry_sourced(items, prev, i, idx as int + 1));
                                let x0 = choose|x: int|
                                    idx as int + 1 <= x < items.len() && #[trigger] entry_from(
                                        items,
                                        prev,
                                        i,
                                        x,
                                    );
                                assert(result@[i] == prev[i]);
                                assert(entry_from(items, result@, i, x0));
                            } else {
                                assert(entry_from(items, result@, m, idx as int));
                            }
                        }
                        // every item with selections is represented
                        assert forall|x: int|
                            idx as int <= x < items.len() && (
                            #[trigger] items[x]).selected_customizations is Some
                            implies key_in(result@, items[x].id@) by {
                            if x == idx as int {
                                assert(result@[m].0@ == items[x].id@);
                            } else {
                                assert(key_in(prev, items[x].id@));
                                let i0 = choose|i: int|
                                    0 <= i < prev.len() && (#[trigger] prev[i].0@)
                                        == items[x].id@;
                                assert(result@[i0].0@ == items[x].id@);
                            }
                        }
                    }
                } else {
                    proof {
                        lemma_extract_step_skip(items, result@, idx as int);
                    }
                }
            } else {
                proof {
                    lemma_extract_step_skip(self.items@, result@, idx as int);
                }
            }
        }
        result
    }

    /// Attach order information to the document.
    pub fn set_order(&mut self, order: Order)
        ensures
            final(self).order == Some(order),
            final(self).items == old(self).items,
            final(self).oms_version == old(self).oms_version,
            final(self).metadata == old(self).metadata,
            final(self).vendor == old(self).vendor,
            final(self).extensions == old(self).extensions,
    {
        self.order = Some(order);
    }

    /// Update the status of the attached order. Fails with a
    /// missing-required-field error when no order has been set.
    pub fn update_order_status(&mut self, status: OrderStatus) -> (r: OmsResult<()>)
        ensures
            r is Ok <==> old(self).order is Some,
            old(self).order matches Some(o) ==> final(self).order matches Some(o2) && o2 == (Order {
                status: Some(status),
                ..o
            }),
            old(self).order is None ==> *final(self) == *old(self) && (r matches Err(e)
                && error_matches(e, crate::validation::Issue::MissingField("order"@))),
            final(self).items == old(self).items,
            final(self).oms_version == old(self).oms_version,
            final(self).metadata == old(self).metadata,
            final(self).vendor == old(self).vendor,
            final(self).extensions == old(self).extensions,
    {
        match &mut self.order {
            Some(order) => {
                order.status = Some(status);
                Ok(())
            },
            None => Err(OmsError::MissingRequiredField(String::from_str("order"))),
        }
    }

    /// Add an extension payload under a namespace; the last write to a
    /// namespace wins, and the payload is never validated.
    pub fn add_extension(&mut self, namespace: &str, data: serde_json::Value)
        requires
            match old(self).extensions {
                Some(e) => e.wf(),
                None => true,
            },
        ensures
            final(self).extensions matches Some(e) && e.wf(),
            final(self).extensions matches Some(e) && exists|i: int|
                0 <= i < e.entries().len() && (#[trigger] e.entries()[i].0@) == namespace@
                    && e.entries()[i].1 == data,
            final(self).items == old(self).items,
            final(self).oms_version == old(self).oms_version,
            final(self).metadata == old(self).metadata,
            final(self).vendor == old(self).vendor,
            final(self).order == old(self).order,
    {
        match &mut self.extensions {
            Some(extensions) => {
                extensions.insert(namespace, data);
                proof {
                    assert(exists|i: int|
                        0 <= i < extensions.entries().len()
                            && (#[trigger] extensions.entries()[i].0@) == namespace@
                            && extensions.entries()[i].1 == data);
                }
            },
            None => {
                let mut extensions = Extensions::new();
                extensions.insert(namespace, data);
                proof {
                    assert(exists|i: int|
                        0 <= i < extensions.entries().len()
                            && (#[trigger] extensions.entries()[i].0@) == namespace@
                            && extensions.entries()[i].1 == data);
                }
                self.extensions = Some(extensions);
            },
        }
    }

    /// Look up an extension payload by namespace.
    pub fn get_extension(&self, namespace: &str) -> (r: Option<&serde_json::Value>)
        ensures
            match r {
                Some(v) => self.extensions matches Some(e) && exists|i: int|
                    0 <= i < e.entries().len() && (#[trigger] e.entries()[i].0@) == namespace@
                        && e.entries()[i].1 == *v,
                None => match self.extensions {
                    Some(e) => forall|i: int|
                        0 <= i < e.entries().len() ==> (#[trigger] e.entries()[i].0@)
                            != namespace@,
                    None => true,
                },
            },
    {
        match &self.extensions {
            Some(extensions) => extensions.get(namespace),
            None => None,
        }
    }

    /// Create a new document with the current wall-clock timestamp, an
    /// empty item list, and the given vendor identity.
    pub fn now(vendor_id: &str, vendor_name: &str, vendor_type: &str) -> (r: OmsDocument)
        ensures
            r.oms_version@ == OMS_VERSION@,
            r.metadata.source@ == "open_menu_standard"@,
            r.metadata.locale@ == "en-US"@,
            r.vendor.id@ == vendor_id@,
            r.vendor.name@ == vendor_name@,
            r.vendor.kind@ == vendor_type@,
            r.vendor.location_id is None,
            r.items@.len() == 0,
            r.order is None,
            r.extensions is None,
    {
        let metadata = Metadata {
            created: current_timestamp(),
            source: String::from_str("open_menu_standard"),
            locale: String::from_str("en-US"),
        };
        let vendor = Vendor {
            id: String::from_str(vendor_id),
            name: String::from_str(vendor_name),
            kind: String::from_str(vendor_type),
            location_id: None,
            location_name: None,
            address: None,
            contact: None,
            hours: None,
            cuisine: None,
            services: None,
        };
        Self::new(metadata, vendor, Vec::new())
    }
}

} // verus!
