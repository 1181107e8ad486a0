//! Utility functions for working with OMS documents: the pricing adjustment
//! engine, document construction helpers, template catalogs, and the
//! URL-driven selection update.

use vstd::prelude::*;

use crate::OMS_URL_SCHEME;
use crate::OMS_VERSION;
use crate::OmsError;
use crate::OmsResult;
use crate::outside::str_eq;
use crate::types::Customer;
use crate::types::CustomizationDefault;
use crate::types::Metadata;
use crate::types::OmsDocument;
use crate::types::Order;
use crate::types::OrderStatus;
use crate::types::OrderType;
use crate::types::Payment;
use crate::types::PaymentStatus;
use crate::types::Vendor;
use crate::types::AMOUNT_LIMIT;
use crate::types::Customization;
use crate::types::CustomizationOption;
use crate::types::CustomizationSelection;
use crate::types::CustomizationType;
use crate::types::Item;
use crate::types::LIST_LIMIT;
use crate::types::SelectedCustomization;
use crate::types::VALUE_LIMIT;
use crate::validation::find_customization;
use crate::validation::find_customization_from;
use crate::validation::lookup_customization;

verus! {

/// The customization definitions of an item; an absent list is treated as
/// empty.
pub open spec fn defs_of(item: Item) -> Seq<Customization> {
    match item.customizations {
        Some(ds) => ds@,
        None => Seq::<Customization>::empty(),
    }
}

/// The price adjustment of the first option whose id matches, from index
/// `i` on; an option without a price adjustment, or no matching option,
/// contributes zero.
pub open spec fn option_price_from(opts: Seq<CustomizationOption>, id: Seq<char>, i: int) -> int
    decreases opts.len() - i,
{
    if i < 0 || i >= opts.len() {
        0
    } else if opts[i].id@ == id {
        match opts[i].price_adjustment {
            Some(p) => p as int,
            None => 0,
        }
    } else {
        option_price_from(opts, id, i + 1)
    }
}

/// The price adjustment contributed by selecting the option with the given
/// id (first match; zero when absent or priceless).
pub open spec fn option_price(opts: Seq<CustomizationOption>, id: Seq<char>) -> int {
    option_price_from(opts, id, 0)
}

/// The summed price adjustments of the first `k` ids of a multi-select
/// selection.
pub open spec fn multi_price_prefix(ids: Seq<String>, opts: Seq<CustomizationOption>, k: int) -> int
    decreases k,
{
    if k <= 0 {
        0
    } else {
        multi_price_prefix(ids, opts, k - 1) + option_price(opts, ids[k - 1]@)
    }
}

/// The monetary delta contributed by one selection, resolved first-match
/// against the definitions: the matched option's price adjustment for a
/// single select; the sum of matched options' price adjustments for a multi
/// select; the unit price adjustment times the selected value for a
/// quantity; zero for boolean, text and range selections, and for a
/// selection whose id does not resolve.
pub open spec fn selection_delta(sel: SelectedCustomization, cs: Seq<Customization>) -> int {
    match find_customization(cs, sel.customization_id@) {
        None => 0,
        Some(c) => match c.kind {
            CustomizationType::SingleSelect => match sel.selection {
                CustomizationSelection::Text(s) => option_price(crate::validation::opts_of(c), s@),
                _ => 0,
            },
            CustomizationType::MultiSelect => match sel.selection {
                CustomizationSelection::TextArray(ids) => multi_price_prefix(
                    ids@,
                    crate::validation::opts_of(c),
                    ids@.len() as int,
                ),
                _ => 0,
            },
            CustomizationType::Quantity => match sel.selection {
                CustomizationSelection::Number(q) => match c.unit_price_adjustment {
                    Some(u) => (u as int) * (q as int),
                    None => 0,
                },
                _ => 0,
            },
            _ => 0,
        },
    }
}

/// The summed monetary delta of the first `k` selections.
pub open spec fn delta_prefix(
    sels: Seq<SelectedCustomization>,
    cs: Seq<Customization>,
    k: int,
) -> int
    decreases k,
{
    if k <= 0 {
        0
    } else {
        delta_prefix(sels, cs, k - 1) + selection_delta(sels[k - 1], cs)
    }
}

/// The total monetary delta of a selection set against a definition list.
pub open spec fn price_delta(sels: Seq<SelectedCustomization>, cs: Seq<Customization>) -> int {
    delta_prefix(sels, cs, sels.len() as int)
}

proof fn lemma_option_price_bound(opts: Seq<CustomizationOption>, id: Seq<char>, i: int)
    requires
        forall|j: int| 0 <= j < opts.len() ==> (#[trigger] opts[j]).wf(),
    ensures
        -(AMOUNT_LIMIT as int) <= option_price_from(opts, id, i) <= AMOUNT_LIMIT as int,
    decreases opts.len() - i,
{
    if 0 <= i < opts.len() && opts[i].id@ != id {
        lemma_option_price_bound(opts, id, i + 1);
    }
}

proof fn lemma_multi_price_bound(ids: Seq<String>, opts: Seq<CustomizationOption>, k: int)
    requires
        forall|j: int| 0 <= j < opts.len() ==> (#[trigger] opts[j]).wf(),
        0 <= k,
    ensures
        -(k * AMOUNT_LIMIT as int) <= multi_price_prefix(ids, opts, k) <= k * AMOUNT_LIMIT as int,
    decreases k,
{
    if k > 0 {
        lemma_multi_price_bound(ids, opts, k - 1);
        lemma_option_price_bound(opts, ids[k - 1]@, 0);
    }
}

/// The largest magnitude one selection can contribute to a price delta when
/// the definitions and the selection are well formed.
pub open spec fn selection_delta_limit() -> int {
    (AMOUNT_LIMIT as int) * (VALUE_LIMIT as int)
}

proof fn lemma_selection_delta_bound(sel: SelectedCustomization, cs: Seq<Customization>)
    requires
        forall|j: int| 0 <= j < cs.len() ==> (#[trigger] cs[j]).wf(),
        sel.wf(),
    ensures
        -selection_delta_limit() <= selection_delta(sel, cs) <= selection_delta_limit(),
{
    lemma_find_customization_wf(cs, sel.customization_id@, 0);
    match find_customization(cs, sel.customization_id@) {
        None => {},
        Some(c) => {
            match c.kind {
                CustomizationType::SingleSelect => {
                    match sel.selection {
                        CustomizationSelection::Text(s) => {
                            lemma_option_price_bound(crate::validation::opts_of(c), s@, 0);
                        },
                        _ => {},
                    }
                },
                CustomizationType::MultiSelect => {
                    match sel.selection {
                        CustomizationSelection::TextArray(ids) => {
                            lemma_multi_price_bound(
                                ids@,
                                crate::validation::opts_of(c),
                                ids@.len() as int,
                            );
                            assert(ids@.len() * AMOUNT_LIMIT as int <= LIST_LIMIT
                                * AMOUNT_LIMIT as int) by (nonlinear_arith)
                                requires
                                    ids@.len() <= LIST_LIMIT,
                            ;
                        },
                        _ => {},
                    }
                },
                CustomizationType::Quantity => {
                    match sel.selection {
                        CustomizationSelection::Number(q) => {
                            match c.unit_price_adjustment {
                                Some(u) => {
                                    assert(-selection_delta_limit() <= (u as int) * (q as int)
                                        <= selection_delta_limit()) by (nonlinear_arith)
                                        requires
                                            -(AMOUNT_LIMIT as int) <= u as int
                                                <= AMOUNT_LIMIT as int,
                                            -(VALUE_LIMIT as int) <= q as int
                                                <= VALUE_LIMIT as int,
                                    ;
                                },
                                None => {},
                            }
                        },
                        _ => {},
                    }
                },
                _ => {},
            }
        },
    }
}

proof fn lemma_find_customization_wf(cs: Seq<Customization>, id: Seq<char>, i: int)
    requires
        forall|j: int| 0 <= j < cs.len() ==> (#[trigger] cs[j]).wf(),
    ensures
        match find_customization_from(cs, id, i) {
            Some(c) => c.wf(),
            None => true,
        },
    decreases cs.len() - i,
{
    if 0 <= i < cs.len() && cs[i].id@ != id {
        lemma_find_customization_wf(cs, id, i + 1);
    }
}

/// The price adjustment contributed by the option with the given id (first
/// match; zero when absent or priceless).
fn option_price_of(opts: &Vec<CustomizationOption>, id: &str) -> (p: i64)
    requires
        forall|j: int| 0 <= j < opts@.len() ==> (#[trigger] opts@[j]).wf(),
    ensures
        p as int == option_price(opts@, id@),
        -AMOUNT_LIMIT <= p <= AMOUNT_LIMIT,
{
    let n = opts.len();
    let mut k: usize = 0;
    while k < n
        invariant
            n == opts@.len(),
            0 <= k <= n,
            forall|j: int| 0 <= j < opts@.len() ==> (#[trigger] opts@[j]).wf(),
            option_price_from(opts@, id@, 0) == option_price_from(opts@, id@, k as int),
        decreases n - k,
    {
        if str_eq(opts[k].id.as_str(), id) {
            return match opts[k].price_adjustment {
                Some(p) => p,
                None => 0,
            };
        }
        k = k + 1;
    }
    0
}

/// The monetary delta of one selection against a definition list.
fn selection_adjustment(sel: &SelectedCustomization, cs: &Vec<Customization>) -> (d: i64)
    requires
        forall|j: int| 0 <= j < cs@.len() ==> (#[trigger] cs@[j]).wf(),
        sel.wf(),
    ensures
        d as int == selection_delta(*sel, cs@),
        -selection_delta_limit() <= d as int <= selection_delta_limit(),
{
    proof {
        lemma_selection_delta_bound(*sel, cs@);
        lemma_find_customization_wf(cs@, sel.customization_id@, 0);
    }
    let c = match lookup_customization(cs.as_slice(), sel.customization_id.as_str()) {
        Some(c) => c,
        None => {
            return 0;
        },
    };
    match c.kind {
        CustomizationType::SingleSelect => {
            match &sel.selection {
                CustomizationSelection::Text(s) => {
                    match &c.options {
                        Some(opts) => option_price_of(opts, s.as_str()),
                        None => 0,
                    }
                },
                _ => 0,
            }
        },
        CustomizationType::MultiSelect => {
            match &sel.selection {
                CustomizationSelection::TextArray(ids) => {
                    match &c.options {
                        Some(opts) => {
                            let n = ids.len();
                            let mut k: usize = 0;
                            let mut sum: i64 = 0;
                            while k < n
                                invariant
                                    n == ids@.len(),
                                    n <= LIST_LIMIT,
                                    0 <= k <= n,
                                    forall|j: int|
                                        0 <= j < opts@.len() ==> (#[trigger] opts@[j]).wf(),
                                    sum as int == multi_price_prefix(ids@, opts@, k as int),
                                    -((k as int) * (AMOUNT_LIMIT as int)) <= sum as int <= (
                                    k as int) * (AMOUNT_LIMIT as int),
                                decreases n - k,
                            {
                                let p = option_price_of(opts, ids[k].as_str());
                                sum = sum + p;
                                k = k + 1;
                            }
                            sum
                        },
                        None => {
                            proof {
                                lemma_multi_price_empty(
                                    ids@,
                                    crate::validation::opts_of(*c),
                                    ids@.len() as int,
                                );
                            }
                            0
                        },
                    }
                },
                _ => 0,
            }
        },
        CustomizationType::Quantity => {
            match &sel.selection {
                CustomizationSelection::Number(q) => {
                    match c.unit_price_adjustment {
                        Some(u) => {
                            proof {
                                assert(-selection_delta_limit() <= (u as int) * (*q as int)
                                    <= selection_delta_limit()) by (nonlinear_arith)
                                    requires
                                        -(AMOUNT_LIMIT as int) <= u as int <= AMOUNT_LIMIT as int,
                                        -(VALUE_LIMIT as int) <= *q as int <= VALUE_LIMIT as int,
                                ;
                            }
                            u * *q
                        },
                        None => 0,
                    }
                },
                _ => 0,
            }
        },
        _ => 0,
    }
}

/// Calculate the monetary delta contributed by a set of selections against
/// one item's customization definitions. A selection whose id does not
/// resolve is silently skipped: this is a best-effort delta calculator, not
/// a validation gate; callers needing strict correctness must run selection
/// validation separately. The result is signed and can be negative. The
/// item is never changed.
pub fn calculate_price_adjustments(item: &Item, selected: &[SelectedCustomization]) -> (r:
    OmsResult<i64>)
    requires
        item.wf(),
        selected@.len() <= LIST_LIMIT,
        forall|i: int| 0 <= i < selected@.len() ==> (#[trigger] selected@[i]).wf(),
    ensures
        r matches Ok(d) && d as int == price_delta(selected@, defs_of(*item)),
{
    let cs = match &item.customizations {
        Some(ds) => ds,
        None => {
            proof {
                lemma_empty_delta(selected@, defs_of(*item), selected@.len() as int);
            }
            return Ok(0);
        },
    };
    let n = selected.len();
    let mut k: usize = 0;
    let mut total: i64 = 0;
    while k < n
        invariant
            n == selected@.len(),
            n <= LIST_LIMIT,
            0 <= k <= n,
            forall|j: int| 0 <= j < cs@.len() ==> (#[trigger] cs@[j]).wf(),
            forall|i: int| 0 <= i < selected@.len() ==> (#[trigger] selected@[i]).wf(),
            total as int == delta_prefix(selected@, cs@, k as int),
        decreases n - k,
    {
        let d = selection_adjustment(&selected[k], cs);
        proof {
            lemma_delta_prefix_bound(selected@, cs@, (k as int) + 1);
            lemma_prefix_budget((k as int) + 1);
        }
        total = total + d;
        k = k + 1;
    }
    Ok(total)
}

proof fn lemma_delta_prefix_bound(
    sels: Seq<SelectedCustomization>,
    cs: Seq<Customization>,
    k: int,
)
    requires
        forall|j: int| 0 <= j < cs.len() ==> (#[trigger] cs[j]).wf(),
        forall|i: int| 0 <= i < sels.len() ==> (#[trigger] sels[i]).wf(),
        0 <= k <= sels.len(),
    ensures
        -(k * selection_delta_limit()) <= delta_prefix(sels, cs, k) <= k
            * selection_delta_limit(),
    decreases k,
{
    if k > 0 {
        lemma_delta_prefix_bound(sels, cs, k - 1);
        lemma_selection_delta_bound(sels[k - 1], cs);
        assert(k * selection_delta_limit() == (k - 1) * selection_delta_limit()
            + selection_delta_limit()) by (nonlinear_arith);
    }
}

/// A prefix of at most [`LIST_LIMIT`] well-formed selections keeps the
/// summed delta within what an i64 holds.
pub(crate) proof fn lemma_prefix_budget(k: int)
    requires
        0 <= k <= LIST_LIMIT,
    ensures
        k * selection_delta_limit() <= 1_000_000_000_000_000_000int,
{
    assert(selection_delta_limit() == 100_000_000_000_000int);
    assert(k * selection_delta_limit() <= 10_000 * selection_delta_limit()) by (nonlinear_arith)
        requires
            0 <= k <= 10_000,
            selection_delta_limit() >= 0,
    ;
    assert(10_000 * selection_delta_limit() == 1_000_000_000_000_000_000int) by (nonlinear_arith)
        requires
            selection_delta_limit() == 100_000_000_000_000int,
    ;
}

proof fn lemma_multi_price_empty(ids: Seq<String>, opts: Seq<CustomizationOption>, k: int)
    requires
        opts.len() == 0,
        0 <= k,
    ensures
        multi_price_prefix(ids, opts, k) == 0,
    decreases k,
{
    if k > 0 {
        lemma_multi_price_empty(ids, opts, k - 1);
    }
}

/// Whether a character is a decimal digit.
pub open spec fn is_digit(c: char) -> bool {
    '0' <= c && c <= '9'
}

/// The numeric value of a digit character.
pub open spec fn digit_val(c: char) -> int {
    c as int - '0' as int
}

/// Whether the first `k` characters are all decimal digits.
pub open spec fn all_digits(s: Seq<char>, k: int) -> bool {
    forall|i: int| 0 <= i < k ==> is_digit(#[trigger] s[i])
}

/// The value of the first `k` characters read as a decimal number.
pub open spec fn digits_val(s: Seq<char>, k: int) -> int
    decreases k,
{
    if k <= 0 {
        0
    } else {
        digits_val(s, k - 1) * 10 + digit_val(s[k - 1])
    }
}

/// The integer a string denotes: an optional leading minus sign followed by
/// one or more decimal digits; anything else denotes nothing.
pub open spec fn int_of_str(s: Seq<char>) -> Option<int> {
    if s.len() > 0 && s[0] == '-' {
        let d = s.subrange(1, s.len() as int);
        if d.len() > 0 && all_digits(d, d.len() as int) {
            Some(-digits_val(d, d.len() as int))
        } else {
            None
        }
    } else if s.len() > 0 && all_digits(s, s.len() as int) {
        Some(digits_val(s, s.len() as int))
    } else {
        None
    }
}

/// A longer digit string never denotes a smaller number.
proof fn lemma_digits_monotone(s: Seq<char>, k: int, n: int)
    requires
        0 <= k <= n,
        all_digits(s, n),
        n <= s.len(),
    ensures
        0 <= digits_val(s, k) <= digits_val(s, n),
    decreases n,
{
    if n > 0 {
        if k == n {
            lemma_digits_monotone(s, n - 1, n - 1);
        } else {
            lemma_digits_monotone(s, k, n - 1);
        }
    }
}

/// Parse a string as a decimal integer: an optional leading minus sign
/// followed by one or more digits, denoting a value an i64 can hold.
fn parse_decimal(s: &str) -> (r: Option<i64>)
    ensures
        match int_of_str(s@) {
            Some(v) => {
                if i64::MIN <= v <= i64::MAX {
                    r matches Some(x) && x as int == v
                } else {
                    r is None
                }
            },
            None => r is None,
        },
{
    let n = s.unicode_len();
    if n == 0 {
        return None;
    }
    let negative = s.get_char(0) == '-';
    let first: usize = if negative {
        1
    } else {
        0
    };
    if n == first {
        return None;
    }
    let ghost digits = if negative {
        s@.subrange(1, s@.len() as int)
    } else {
        s@
    };
    let mut acc: i128 = 0;
    let mut k: usize = first;
    while k < n
        invariant
            n == s@.len(),
            n > 0,
            first <= k <= n,
            first == if negative { 1int } else { 0int },
            negative <==> s@[0] == '-',
            negative ==> digits == s@.subrange(1, s@.len() as int),
            !negative ==> digits == s@,
            all_digits(digits, k - first),
            acc as int == digits_val(digits, k - first),
            0 <= acc as int <= 0x8000_0000_0000_0000i128 as int,
        decreases n - k,
    {
        let c = s.get_char(k);
        if c < '0' || c > '9' {
            proof {
                assert(digits[k - first] == s@[k as int]);
                assert(!is_digit(digits[k - first]));
                assert(!all_digits(digits, digits.len() as int));
                assert(int_of_str(s@) is None);
            }
            return None;
        }
        let d: i128 = (c as u32 as i128) - ('0' as u32 as i128);
        proof {
            assert(digits[k - first] == s@[k as int]);
            assert(is_digit(digits[k - first]));
            assert(d as int == digit_val(digits[k - first]));
        }
        if acc > 922_337_203_685_477_580i128 || (acc == 922_337_203_685_477_580i128 && d > 8) {
            // the value already exceeds what an i64 can hold (even as the
            // magnitude of a negative number), and more digits cannot
            // shrink it
            proof {
                let total = digits.len() as int;
                assert(digits_val(digits, k - first + 1) > 0x8000_0000_0000_0000i128 as int);
                if all_digits(digits, total) {
                    lemma_digits_monotone(digits, k - first + 1, total);
                    assert(digits_val(digits, total) > 0x8000_0000_0000_0000i128 as int);
                    if negative {
                        assert(int_of_str(s@) == Some(-digits_val(digits, total)));
                        assert(-digits_val(digits, total) < i64::MIN as int);
                    } else {
                        assert(int_of_str(s@) == Some(digits_val(digits, total)));
                        assert(digits_val(digits, total) > i64::MAX as int);
                    }
                } else {
                    assert(int_of_str(s@) is None);
                }
            }
            return None;
        }
        acc = acc * 10 + d;
        k = k + 1;
    }
    proof {
        assert(k - first == digits.len());
    }
    if negative {
        if acc > 0x8000_0000_0000_0000i128 {
            return None;
        }
        Some((-acc) as i64)
    } else {
        if acc > i64::MAX as i128 {
            return None;
        }
        Some(acc as i64)
    }
}

/// Case-insensitive (ASCII) equality of a string with a lowercase token.
pub open spec fn char_eq_ci(a: char, b: char) -> bool {
    a == b || ('A' <= a && a <= 'Z' && a as int + 32 == b as int)
}

/// Whether `s` spells the lowercase token `t`, ignoring ASCII case.
pub open spec fn matches_token_ci(s: Seq<char>, t: Seq<char>) -> bool {
    s.len() == t.len() && forall|i: int| 0 <= i < s.len() ==> char_eq_ci(#[trigger] s[i], t[i])
}

/// Whether a string affirms a boolean: "true", "1" or "yes", ignoring
/// ASCII case.
pub open spec fn bool_token_true(s: Seq<char>) -> bool {
    matches_token_ci(s, "true"@) || matches_token_ci(s, "1"@) || matches_token_ci(s, "yes"@)
}

/// Whether `s` spells the lowercase token `t`, ignoring ASCII case.
fn eq_ignore_case(s: &str, t: &str) -> (r: bool)
    ensures
        r == matches_token_ci(s@, t@),
{
    let n = s.unicode_len();
    let m = t.unicode_len();
    if n != m {
        return false;
    }
    let mut k: usize = 0;
    while k < n
        invariant
            n == s@.len(),
            n == t@.len(),
            0 <= k <= n,
            forall|i: int| 0 <= i < k ==> char_eq_ci(#[trigger] s@[i], t@[i]),
        decreases n - k,
    {
        let a = s.get_char(k);
        let b = t.get_char(k);
        let same = a == b || (a >= 'A' && a <= 'Z' && (a as u32) + 32 == b as u32);
        if !same {
            proof {
                assert(!char_eq_ci(s@[k as int], t@[k as int]));
            }
            return false;
        }
        k = k + 1;
    }
    true
}

/// Whether a string affirms a boolean: "true", "1" or "yes", ignoring
/// ASCII case.
fn is_true_token(s: &str) -> (r: bool)
    ensures
        r == bool_token_true(s@),
{
    eq_ignore_case(s, "true") || eq_ignore_case(s, "1") || eq_ignore_case(s, "yes")
}

/// The index of the first selection targeting the given customization id,
/// from index `i` on, or -1.
pub open spec fn sel_idx(sels: Seq<SelectedCustomization>, id: Seq<char>, i: int) -> int
    decreases sels.len() - i,
{
    if i < 0 || i >= sels.len() {
        -1
    } else if sels[i].customization_id@ == id {
        i
    } else {
        sel_idx(sels, id, i + 1)
    }
}

/// What upserting a selection leaves: the first selection with the same
/// customization id has its value replaced (its id string kept as it was);
/// when none matches, the selection is appended.
pub open spec fn upsert_spec(
    sels: Seq<SelectedCustomization>,
    sel: SelectedCustomization,
) -> Seq<SelectedCustomization> {
    let i = sel_idx(sels, sel.customization_id@, 0);
    if i < 0 {
        sels.push(sel)
    } else {
        sels.update(
            i,
            SelectedCustomization {
                customization_id: sels[i].customization_id,
                selection: sel.selection,
            },
        )
    }
}

/// Upsert a selection into a selection list: replace the value of the
/// first entry with the same customization id, or append.
pub fn upsert_selection(sels: &mut Vec<SelectedCustomization>, sel: SelectedCustomization)
    ensures
        final(sels)@ == upsert_spec(old(sels)@, sel),
{
    let n = sels.len();
    let mut k: usize = 0;
    while k < n
        invariant
            n == sels@.len(),
            sels@ == old(sels)@,
            0 <= k <= n,
            sel_idx(sels@, sel.customization_id@, 0) == sel_idx(
                sels@,
                sel.customization_id@,
                k as int,
            ),
        decreases n - k,
    {
        if str_eq(sels[k].customization_id.as_str(), sel.customization_id.as_str()) {
            proof {
                assert(sels@[k as int].customization_id@ == sel.customization_id@);
                assert(sel_idx(sels@, sel.customization_id@, k as int) == k as int);
            }
            sels[k].selection = sel.selection;
            proof {
                assert(sels@ =~= upsert_spec(old(sels)@, sel));
            }
            return;
        }
        k = k + 1;
    }
    sels.push(sel);
}

/// Law: upserting is idempotent. Applying the same (customization id,
/// selection value) a second time leaves the list exactly as the first
/// application left it, with the first entry for that id holding the
/// latest value.
pub proof fn lemma_upsert_idempotent(sels: Seq<SelectedCustomization>, sel: SelectedCustomization)
    ensures
        upsert_spec(upsert_spec(sels, sel), sel) == upsert_spec(sels, sel),
        sel_idx(upsert_spec(sels, sel), sel.customization_id@, 0) >= 0,
        upsert_spec(sels, sel)[sel_idx(upsert_spec(sels, sel), sel.customization_id@, 0)].selection
            == sel.selection,
{
    let id = sel.customization_id@;
    let i = sel_idx(sels, id, 0);
    let s1 = upsert_spec(sels, sel);
    if i < 0 {
        lemma_sel_idx_no_match_push(sels, sel, 0);
        assert(sel_idx(s1, id, 0) == sels.len());
        let e = SelectedCustomization {
            customization_id: s1[sels.len() as int].customization_id,
            selection: sel.selection,
        };
        assert(e == sel);
        assert(s1.update(sels.len() as int, e) =~= s1);
    } else {
        lemma_sel_idx_range(sels, id, 0);
        lemma_sel_idx_update(sels, s1, id, 0, i);
        assert(sel_idx(s1, id, 0) == i);
        let e = SelectedCustomization {
            customization_id: s1[i].customization_id,
            selection: sel.selection,
        };
        assert(e == s1[i]);
        assert(s1.update(i, e) =~= s1);
    }
}

/// A found selection index lies within the list.
proof fn lemma_sel_idx_range(sels: Seq<SelectedCustomization>, id: Seq<char>, i: int)
    requires
        sel_idx(sels, id, i) >= 0,
    ensures
        i <= sel_idx(sels, id, i) < sels.len(),
        sels[sel_idx(sels, id, i)].customization_id@ == id,
    decreases sels.len() - i,
{
    if 0 <= i < sels.len() && sels[i].customization_id@ != id {
        lemma_sel_idx_range(sels, id, i + 1);
    }
}

proof fn lemma_sel_idx_no_match_push(
    sels: Seq<SelectedCustomization>,
    sel: SelectedCustomization,
    i: int,
)
    requires
        0 <= i <= sels.len(),
        sel_idx(sels, sel.customization_id@, i) < 0,
    ensures
        sel_idx(sels.push(sel), sel.customization_id@, i) == sels.len(),
    decreases sels.len() - i,
{
    if i < sels.len() {
        assert(sels.push(sel)[i] == sels[i]);
        lemma_sel_idx_no_match_push(sels, sel, i + 1);
    } else {
        assert(sels.push(sel)[i].customization_id@ == sel.customization_id@);
    }
}

proof fn lemma_sel_idx_update(
    sels: Seq<SelectedCustomization>,
    s1: Seq<SelectedCustomization>,
    id: Seq<char>,
    i: int,
    m: int,
)
    requires
        0 <= i <= m < sels.len(),
        sel_idx(sels, id, i) == m,
        s1.len() == sels.len(),
        forall|j: int| 0 <= j < sels.len() ==> (#[trigger] s1[j]).customization_id@
            == sels[j].customization_id@,
    ensures
        sel_idx(s1, id, i) == m,
    decreases sels.len() - i,
{
    if i < m {
        assert(sels[i].customization_id@ != id);
        lemma_sel_idx_update(sels, s1, id, i + 1, m);
    } else {
        lemma_sel_idx_range(sels, id, i);
    }
}

/// The numeric value a preset string denotes, or a fallback when it
/// denotes nothing an i64 can hold.
pub open spec fn preset_number(preset: Seq<char>, fallback: int) -> int {
    match int_of_str(preset) {
        Some(v) => if i64::MIN <= v <= i64::MAX {
            v
        } else {
            fallback
        },
        None => fallback,
    }
}

/// Whether a selection value is the one a preset string denotes for a
/// customization of the given kind: the preset itself for single-select
/// and text; a one-element list for multi-select; its numeric value (one
/// when unreadable) for quantity; its boolean reading for boolean; its
/// numeric value (zero when unreadable) for range.
pub open spec fn selection_value_matches(
    s: CustomizationSelection,
    kind: CustomizationType,
    preset: Seq<char>,
) -> bool {
    match kind {
        CustomizationType::SingleSelect => s matches CustomizationSelection::Text(t) && t@
            == preset,
        CustomizationType::MultiSelect => s matches CustomizationSelection::TextArray(v) && v@.len()
            == 1 && v@[0]@ == preset,
        CustomizationType::Quantity => s matches CustomizationSelection::Number(x) && x as int
            == preset_number(preset, 1),
        CustomizationType::Boolean => s matches CustomizationSelection::Toggle(b) && b
            == bool_token_true(preset),
        CustomizationType::Text => s matches CustomizationSelection::Text(t) && t@ == preset,
        CustomizationType::Range => s matches CustomizationSelection::Number(x) && x as int
            == preset_number(preset, 0),
    }
}

/// Extract a customization preset from an OMS URL and apply it to the
/// document: the value of the "c" parameter is turned into a selection for
/// the first customization of the first item, shaped by that
/// customization's kind, and upserted into the item's selections. A URL
/// without a "c" parameter, a document without items, or a first item
/// without customizations leaves the document unchanged. Only a URL that
/// does not start with the OMS scheme is rejected.
pub fn extract_and_update_selections(url: &str, document: &mut OmsDocument) -> (r: OmsResult<()>)
    ensures
        r is Ok <==> crate::url::starts_with(url@, OMS_URL_SCHEME@),
        r matches Err(e) ==> (e matches OmsError::InvalidOmsUrl(m) && m@ == url@) && *final(document)
            == *old(document),
        r is Ok ==> match crate::url::lookup_last(crate::url::url_pairs(url@), "c"@) {
            None => *final(document) == *old(document),
            Some(preset) => {
                if old(document).items@.len() == 0 || defs_of(old(document).items@[0]).len() == 0 {
                    *final(document) == *old(document)
                } else {
                    let old0 = old(document).items@[0];
                    let c0 = defs_of(old0)[0];
                    let old_sels = match old0.selected_customizations {
                        Some(ss) => ss@,
                        None => Seq::<SelectedCustomization>::empty(),
                    };
                    &&& final(document).items@.len() == old(document).items@.len()
                    &&& forall|j: int|
                        1 <= j < old(document).items@.len() ==> final(document).items@[j] == old(
                            document,
                        ).items@[j]
                    &&& final(document).items@[0] == (Item {
                        selected_customizations: final(document).items@[0].selected_customizations,
                        ..old0
                    })
                    &&& final(document).items@[0].selected_customizations matches Some(ns)
                        && exists|sel: SelectedCustomization|
                        (#[trigger] sel.customization_id@) == c0.id@ && selection_value_matches(
                            sel.selection,
                            c0.kind,
                            preset,
                        ) && ns@ == upsert_spec(old_sels, sel)
                    &&& final(document).oms_version == old(document).oms_version
                    &&& final(document).metadata == old(document).metadata
                    &&& final(document).vendor == old(document).vendor
                    &&& final(document).order == old(document).order
                    &&& final(document).extensions == old(document).extensions
                }
            },
        },
{
    let params = match crate::url::parse_oms_url(url) {
        Ok(p) => p,
        Err(e) => {
            return Err(e);
        },
    };
    let ghost all = crate::url::url_pairs(url@);
    let preset = match params.get("c") {
        Some(v) => v,
        None => {
            proof {
                if crate::url::lookup_last(all, "c"@) is Some {
                    crate::url::lemma_lookup_key_exists(all, "c"@);
                    let j = choose|j: int| 0 <= j < all.len() && (#[trigger] all[j].0) == "c"@;
                    assert(crate::url::pair_key_in(params.entries(), all[j].0));
                    assert(false);
                }
            }
            return Ok(());
        },
    };
    proof {
        let i = choose|i: int|
            0 <= i < params.entries().len() && (#[trigger] params.entries()[i].0@) == "c"@
                && params.entries()[i].1@ == preset@;
        assert(crate::url::lookup_last(all, "c"@) == Some(preset@));
    }
    if document.items.len() == 0 {
        return Ok(());
    }
    let (c_id, c_kind) = match &document.items[0].customizations {
        Some(cs) => {
            if cs.len() > 0 {
                (cs[0].id.clone(), cs[0].kind)
            } else {
                return Ok(());
            }
        },
        None => {
            return Ok(());
        },
    };
    let selection = match c_kind {
        CustomizationType::SingleSelect => CustomizationSelection::Text(preset.clone()),
        CustomizationType::MultiSelect => {
            let mut ids: Vec<String> = Vec::new();
            ids.push(preset.clone());
            CustomizationSelection::TextArray(ids)
        },
        CustomizationType::Quantity => match parse_decimal(preset.as_str()) {
            Some(v) => CustomizationSelection::Number(v),
            None => CustomizationSelection::Number(1),
        },
        CustomizationType::Boolean => CustomizationSelection::Toggle(is_true_token(
            preset.as_str(),
        )),
        CustomizationType::Text => CustomizationSelection::Text(preset.clone()),
        CustomizationType::Range => match parse_decimal(preset.as_str()) {
            Some(v) => CustomizationSelection::Number(v),
            None => CustomizationSelection::Number(0),
        },
    };
    let sel = SelectedCustomization { customization_id: c_id, selection };
    proof {
        assert(sel.customization_id@ == defs_of(old(document).items@[0])[0].id@);
        assert(selection_value_matches(
            sel.selection,
            defs_of(old(document).items@[0])[0].kind,
            preset@,
        ));
    }
    let item = &mut document.items[0];
    match &mut item.selected_customizations {
        Some(sels) => {
            upsert_selection(sels, sel);
        },
        None => {
            let mut sels: Vec<SelectedCustomization> = Vec::new();
            upsert_selection(&mut sels, sel);
            item.selected_customizations = Some(sels);
        },
    }
    Ok(())
}

/// The tax owed on a subtotal, at eight percent, rounded to the nearest
/// cent (half away from zero on the non-negative subtotals that arise).
pub open spec fn tax_of(subtotal: int) -> int {
    (subtotal * 8 + 50) / 100
}

/// Generate a pickup order for the document: a draft order with a fresh
/// random id, the current time, a pickup time thirty minutes later, and an
/// unpaid payment whose subtotal is the document's total price (zero when
/// it has none), with eight percent tax.
pub fn generate_order(document: &mut OmsDocument, customer_id: Option<&str>) -> (r: OmsResult<()>)
    requires
        old(document).wf(),
    ensures
        r is Ok,
        final(document).items == old(document).items,
        final(document).oms_version == old(document).oms_version,
        final(document).metadata == old(document).metadata,
        final(document).vendor == old(document).vendor,
        final(document).extensions == old(document).extensions,
        final(document).order matches Some(o) && {
            let subtotal = if crate::document::items_total(old(document).items@) > 0 {
                crate::document::items_total(old(document).items@)
            } else {
                0
            };
            &&& o.id matches Some(oid) && oid@.len() == 42
            &&& o.status == Some(OrderStatus::Draft)
            &&& o.kind == Some(OrderType::Pickup)
            &&& o.created is Some
            &&& o.created matches Some(c) && o.pickup_time matches Some(p) && p as int == (
            if c as int + 1800 <= i64::MAX as int {
                c as int + 1800
            } else {
                c as int
            })
            &&& o.delivery_time is None
            &&& o.customer_notes is None
            &&& o.payment matches Some(pay) && {
                &&& pay.status == Some(PaymentStatus::Unpaid)
                &&& pay.method is None
                &&& pay.subtotal matches Some(s) && s as int == subtotal
                &&& pay.tax matches Some(t) && t as int == tax_of(subtotal)
                &&& pay.tip is None
                &&& pay.total as int == subtotal + tax_of(subtotal)
                &&& pay.currency@ == "USD"@
            }
            &&& match customer_id {
                Some(cid) => o.customer matches Some(cu) && (cu.id matches Some(x) && x@ == cid@)
                    && cu.name is None && cu.phone is None && cu.email is None,
                None => o.customer is None,
            }
            &&& o.delivery is None
        },
{
    let subtotal: i64 = match document.calculate_total_price() {
        Some(total) => total,
        None => 0,
    };
    proof {
        lemma_items_total_nonneg_bound(document.items@);
    }
    let tax: i64 = ((subtotal * 8 + 50) / 100) as i64;
    let total: i64 = subtotal + tax;
    let created = crate::outside::current_timestamp();
    let pickup_time = match created.checked_add(1800) {
        Some(p) => p,
        None => created,
    };
    let order = Order {
        id: Some(crate::outside::fresh_order_id()),
        status: Some(OrderStatus::Draft),
        created: Some(created),
        pickup_time: Some(pickup_time),
        delivery_time: None,
        kind: Some(OrderType::Pickup),
        customer_notes: None,
        payment: Some(Payment {
            status: Some(PaymentStatus::Unpaid),
            method: None,
            subtotal: Some(subtotal),
            tax: Some(tax),
            tip: None,
            total,
            currency: String::from_str("USD"),
        }),
        customer: match customer_id {
            Some(cid) => Some(Customer {
                id: Some(String::from_str(cid)),
                name: None,
                phone: None,
                email: None,
            }),
            None => None,
        },
        delivery: None,
    };
    document.set_order(order);
    Ok(())
}

/// The total of a well-formed item list is non-negative-bounded: it fits
/// comfortably in an i64 with room for the tax arithmetic.
proof fn lemma_items_total_nonneg_bound(items: Seq<Item>)
    requires
        items.len() <= LIST_LIMIT,
        forall|j: int| 0 <= j < items.len() ==> (#[trigger] items[j]).wf(),
    ensures
        -1_000_000_000_000_000_000int <= crate::document::items_total(items)
            <= 1_000_000_000_000_000_000int,
{
    crate::document::lemma_items_total_public_bound(items);
}

/// Whether a document can drive a tap-to-order flow: it names a vendor,
/// holds at least one item, and every item carries a base price.
pub open spec fn tap_to_order_ok(doc: OmsDocument) -> bool {
    &&& doc.vendor.id@.len() > 0
    &&& doc.items@.len() > 0
    &&& forall|i: int| 0 <= i < doc.items@.len() ==> (#[trigger] doc.items@[i]).base_price is Some
}

/// Check whether a document is a valid tap-to-order document: a vendor id,
/// at least one item, and a base price on every item.
pub fn is_valid_tap_to_order(document: &OmsDocument) -> (r: bool)
    ensures
        r == tap_to_order_ok(*document),
{
    if document.vendor.id.as_str().unicode_len() == 0 {
        return false;
    }
    if document.items.len() == 0 {
        return false;
    }
    let n = document.items.len();
    let mut k: usize = 0;
    while k < n
        invariant
            n == document.items@.len(),
            0 <= k <= n,
            forall|i: int| 0 <= i < k ==> (#[trigger] document.items@[i]).base_price is Some,
        decreases n - k,
    {
        if document.items[k].base_price.is_none() {
            return false;
        }
        k = k + 1;
    }
    true
}

/// Create a minimal OMS document: the given vendor identity and one bare
/// item. The result always passes document validation.
pub fn create_minimal_document(
    vendor_id: &str,
    vendor_name: &str,
    vendor_type: &str,
    item_id: &str,
    item_name: &str,
    item_category: &str,
) -> (r: OmsResult<OmsDocument>)
    ensures
        r matches Ok(d) && {
            &&& d.oms_version@ == OMS_VERSION@
            &&& d.metadata.source@ == "open_menu_standard"@
            &&& d.metadata.locale@ == "en-US"@
            &&& d.vendor.id@ == vendor_id@
            &&& d.vendor.name@ == vendor_name@
            &&& d.vendor.kind@ == vendor_type@
            &&& d.items@.len() == 1
            &&& d.items@[0].id@ == item_id@
            &&& d.items@[0].name@ == item_name@
            &&& d.items@[0].category@ == item_category@
            &&& d.items@[0].base_price is None
            &&& d.items@[0].quantity is None
            &&& d.order is None
            &&& d.extensions is None
            &&& d.wf()
            &&& crate::validation::document_issue(d) is None
        },
{
    let metadata = Metadata {
        created: crate::outside::current_timestamp(),
        source: String::from_str("open_menu_standard"),
        locale: String::from_str("en-US"),
    };
    let vendor = Vendor {
        id: String::from_str(vendor_id),
        name: String::from_str(vendor_name),
        kind: String::from_str(vendor_type),
        location_id: None,
        location_name: None,
        address: None,
        contact: None,
        hours: None,
        cuisine: None,
        services: None,
    };
    let item = Item {
        id: String::from_str(item_id),
        name: String::from_str(item_name),
        category: String::from_str(item_category),
        vendor_id: None,
        description: None,
        subcategory: None,
        image_url: None,
        base_price: None,
        currency: None,
        nutrition: None,
        customizations: None,
        selected_customizations: None,
        quantity: None,
        item_note: None,
        calculated: None,
        components: None,
        availability: None,
        popularity: None,
    };
    let mut items: Vec<Item> = Vec::new();
    items.push(item);
    let document = OmsDocument::new(metadata, vendor, items);
    proof {
        assert(crate::validation::item_issue(document.items@[0]) is None);
        assert(crate::validation::items_issue_from(document.items@, 1) is None);
        assert(crate::validation::document_issue(document) is None);
        assert(document.wf());
    }
    let validated = document.validate();
    match validated {
        Ok(()) => Ok(document),
        Err(e) => Err(e),
    }
}

/// Build one customization option.
fn make_option(
    id: &str,
    name: &str,
    price_adjustment: Option<i64>,
    allergens: Option<Vec<String>>,
    dietary_flags: Option<Vec<String>>,
) -> (r: CustomizationOption)
    requires
        match price_adjustment {
            Some(p) => -AMOUNT_LIMIT <= p <= AMOUNT_LIMIT,
            None => true,
        },
    ensures
        r.id@ == id@,
        r.name@ == name@,
        r.price_adjustment == price_adjustment,
        r.allergens == allergens,
        r.dietary_flags == dietary_flags,
        r.wf(),
{
    CustomizationOption {
        id: String::from_str(id),
        name: String::from_str(name),
        price_adjustment,
        nutrition_adjustments: None,
        allergens,
        dietary_flags,
    }
}

/// Build a required-or-not single-select customization with a default
/// option id.
fn make_single_select(
    id: &str,
    name: &str,
    required: bool,
    default_id: &str,
    options: Vec<CustomizationOption>,
) -> (r: Customization)
    requires
        forall|j: int| 0 <= j < options@.len() ==> (#[trigger] options@[j]).wf(),
    ensures
        r.id@ == id@,
        r.name@ == name@,
        r.kind == CustomizationType::SingleSelect,
        r.required == required,
        r.default matches CustomizationDefault::Text(d) && d@ == default_id@,
        r.options == Some(options),
        r.unit_price_adjustment is None,
        r.min_selections is None,
        r.max_selections is None,
        r.min is None,
        r.max is None,
        r.wf(),
{
    Customization {
        id: String::from_str(id),
        name: String::from_str(name),
        kind: CustomizationType::SingleSelect,
        required,
        default: CustomizationDefault::Text(String::from_str(default_id)),
        min_selections: None,
        max_selections: None,
        min: None,
        max: None,
        step: None,
        unit_price_adjustment: None,
        unit_nutrition_adjustments: None,
        options: Some(options),
    }
}

/// Build an optional multi-select customization with an empty default and
/// the given cardinality bounds.
fn make_multi_select(
    id: &str,
    name: &str,
    min_selections: u32,
    max_selections: u32,
    options: Vec<CustomizationOption>,
) -> (r: Customization)
    requires
        forall|j: int| 0 <= j < options@.len() ==> (#[trigger] options@[j]).wf(),
        options@.len() > 0,
        min_selections == 0,
    ensures
        r.id@ == id@,
        r.name@ == name@,
        r.kind == CustomizationType::MultiSelect,
        !r.required,
        r.default matches CustomizationDefault::TextArray(d) && d@.len() == 0,
        r.options == Some(options),
        r.min_selections == Some(min_selections),
        r.max_selections == Some(max_selections),
        r.unit_price_adjustment is None,
        r.wf(),
        crate::validation::def_issue(r) is None,
{
    let r = Customization {
        id: String::from_str(id),
        name: String::from_str(name),
        kind: CustomizationType::MultiSelect,
        required: false,
        default: CustomizationDefault::TextArray(Vec::new()),
        min_selections: Some(min_selections),
        max_selections: Some(max_selections),
        min: None,
        max: None,
        step: None,
        unit_price_adjustment: None,
        unit_nutrition_adjustments: None,
        options: Some(options),
    };
    proof {
        assert(crate::validation::opts_of(r).len() > 0);
        assert(crate::validation::def_issue(r) is None);
    }
    r
}

/// Build a bare item carrying a name, a category, a description, a price
/// in cents, and customizations.
fn make_item(
    id: &str,
    name: &str,
    category: &str,
    description: Option<String>,
    base_price: i64,
    customizations: Option<Vec<Customization>>,
    components: Option<Vec<Item>>,
) -> (r: Item)
    requires
        0 <= base_price <= AMOUNT_LIMIT,
    ensures
        r.id@ == id@,
        r.name@ == name@,
        r.category@ == category@,
        r.base_price == Some(base_price),
        r.currency matches Some(c) && c@ == "USD"@,
        r.customizations == customizations,
        r.selected_customizations is None,
        r.quantity is None,
        r.calculated is None,
        r.components == components,
{
    Item {
        id: String::from_str(id),
        name: String::from_str(name),
        category: String::from_str(category),
        vendor_id: None,
        description,
        subcategory: None,
        image_url: None,
        base_price: Some(base_price),
        currency: Some(String::from_str("USD")),
        nutrition: None,
        customizations,
        selected_customizations: None,
        quantity: None,
        item_note: None,
        calculated: None,
        components,
        availability: None,
        popularity: None,
    }
}

/// Build a template's metadata and vendor identity.
fn template_vendor(id: &str, name: &str, kind: &str) -> (r: (Metadata, Vendor))
    ensures
        r.0.source@ == "open_menu_standard"@,
        r.0.locale@ == "en-US"@,
        r.1.id@ == id@,
        r.1.name@ == name@,
        r.1.kind@ == kind@,
        r.1.location_id is None,
{
    let metadata = Metadata {
        created: crate::outside::current_timestamp(),
        source: String::from_str("open_menu_standard"),
        locale: String::from_str("en-US"),
    };
    let vendor = Vendor {
        id: String::from_str(id),
        name: String::from_str(name),
        kind: String::from_str(kind),
        location_id: None,
        location_name: None,
        address: None,
        contact: None,
        hours: None,
        cuisine: None,
        services: None,
    };
    (metadata, vendor)
}

/// Create a template OMS document for a vendor type. Five canned catalogs
/// are offered; every one of them passes document validation.
pub fn create_template(vendor_type: &str) -> (r: OmsResult<OmsDocument>)
    ensures
        r is Ok <==> (vendor_type@ == "restaurant"@ || vendor_type@ == "cafe"@ || vendor_type@
            == "fast-food"@ || vendor_type@ == "coffee-shop"@ || vendor_type@ == "pizzeria"@),
        r matches Ok(d) ==> d.vendor.kind@ == vendor_type@ && d.oms_version@ == OMS_VERSION@
            && d.items@.len() >= 1 && d.order is None && d.wf()
            && crate::validation::document_issue(d) is None,
        r matches Err(e) ==> e matches OmsError::InvalidVendorType(m) && m@ == vendor_type@,
{
    if str_eq(vendor_type, "restaurant") {
        create_restaurant_template()
    } else if str_eq(vendor_type, "cafe") {
        create_cafe_template()
    } else if str_eq(vendor_type, "fast-food") {
        create_fast_food_template()
    } else if str_eq(vendor_type, "coffee-shop") {
        create_coffee_shop_template()
    } else if str_eq(vendor_type, "pizzeria") {
        create_pizzeria_template()
    } else {
        Err(OmsError::InvalidVendorType(String::from_str(vendor_type)))
    }
}

/// A steak entree with cooking preference and side customizations.
fn create_restaurant_template() -> (r: OmsResult<OmsDocument>)
    ensures
        r matches Ok(d) && {
            &&& d.oms_version@ == OMS_VERSION@
            &&& d.vendor.id@ == "restaurant-template"@
            &&& d.vendor.kind@ == "restaurant"@
            &&& d.items@.len() == 1
            &&& d.items@[0].name@ == "New York Strip Steak"@
            &&& d.order is None
            &&& d.wf()
            &&& crate::validation::document_issue(d) is None
        },
{
    let (metadata, vendor) = template_vendor(
        "restaurant-template",
        "Restaurant Template",
        "restaurant",
    );
    let cooking_options = vec![
        make_option("rare", "Rare", None, None, None),
        make_option("medium-rare", "Medium Rare", None, None, None),
        make_option("medium", "Medium", None, None, None),
        make_option("medium-well", "Medium Well", None, None, None),
        make_option("well-done", "Well Done", None, None, None),
    ];
    let cooking_pref = make_single_select(
        "cooking-pref",
        "Cooking Preference",
        true,
        "medium",
        cooking_options,
    );
    let side_options = vec![
        make_option("fries", "French Fries", None, None, None),
        make_option("salad", "House Salad", None, None, None),
        make_option("soup", "Soup of the Day", None, None, None),
    ];
    let sides = make_single_select("side", "Side", true, "fries", side_options);
    proof {
        assert(crate::validation::opts_of(cooking_pref)[2].id@ == "medium"@);
        assert(crate::validation::def_issue(cooking_pref) is None);
        assert(crate::validation::opts_of(sides)[0].id@ == "fries"@);
        assert(crate::validation::def_issue(sides) is None);
    }
    let custs = vec![cooking_pref, sides];
    let steak = make_item(
        "steak",
        "New York Strip Steak",
        "entree",
        Some(String::from_str("12oz New York Strip steak with choice of side")),
        2999,
        Some(custs),
        None,
    );
    proof {
        lemma_defs_pair_ok(steak);
        assert(steak.wf());
    }
    let items = vec![steak];
    let document = OmsDocument::new(metadata, vendor, items);
    proof {
        lemma_single_item_document_ok(document);
        assert(document.wf());
    }
    Ok(document)
}

/// A turkey sandwich with bread and cheese customizations.
fn create_cafe_template() -> (r: OmsResult<OmsDocument>)
    ensures
        r matches Ok(d) && {
            &&& d.oms_version@ == OMS_VERSION@
            &&& d.vendor.id@ == "cafe-template"@
            &&& d.vendor.kind@ == "cafe"@
            &&& d.items@.len() == 1
            &&& d.items@[0].name@ == "Turkey Sandwich"@
            &&& d.order is None
            &&& d.wf()
            &&& crate::validation::document_issue(d) is None
        },
{
    let (metadata, vendor) = template_vendor("cafe-template", "Cafe Template", "cafe");
    let bread_options = vec![
        make_option("wheat", "Wheat", None, Some(vec![String::from_str("wheat")]), None),
        make_option("white", "White", None, Some(vec![String::from_str("wheat")]), None),
        make_option("rye", "Rye", None, Some(vec![String::from_str("wheat")]), None),
    ];
    let bread = make_single_select("bread", "Bread", true, "wheat", bread_options);
    let cheese_options = vec![
        make_option("cheddar", "Cheddar", None, Some(vec![String::from_str("dairy")]), None),
        make_option("swiss", "Swiss", None, Some(vec![String::from_str("dairy")]), None),
        make_option("none", "No Cheese", None, None, Some(vec![String::from_str("dairy_free")])),
    ];
    let cheese = make_single_select("cheese", "Cheese", false, "cheddar", cheese_options);
    proof {
        assert(crate::validation::opts_of(bread)[0].id@ == "wheat"@);
        assert(crate::validation::def_issue(bread) is None);
        assert(crate::validation::opts_of(cheese)[0].id@ == "cheddar"@);
        assert(crate::validation::def_issue(cheese) is None);
    }
    let custs = vec![bread, cheese];
    let sandwich = make_item(
        "turkey-sandwich",
        "Turkey Sandwich",
        "sandwich",
        Some(
            String::from_str(
                "Roasted turkey breast with lettuce, tomato, and choice of cheese and bread",
            ),
        ),
        899,
        Some(custs),
        None,
    );
    proof {
        lemma_defs_pair_ok(sandwich);
        assert(sandwich.wf());
    }
    let items = vec![sandwich];
    let document = OmsDocument::new(metadata, vendor, items);
    proof {
        lemma_single_item_document_ok(document);
        assert(document.wf());
    }
    Ok(document)
}

/// A cheeseburger combo with drink and side customizations and a component
/// item.
fn create_fast_food_template() -> (r: OmsResult<OmsDocument>)
    ensures
        r matches Ok(d) && {
            &&& d.oms_version@ == OMS_VERSION@
            &&& d.vendor.id@ == "fast-food-template"@
            &&& d.vendor.kind@ == "fast-food"@
            &&& d.items@.len() == 1
            &&& d.items@[0].name@ == "Cheeseburger Combo"@
            &&& d.items@[0].components matches Some(c) && c@.len() == 1
            &&& d.order is None
            &&& d.wf()
            &&& crate::validation::document_issue(d) is None
        },
{
    let (metadata, vendor) = template_vendor(
        "fast-food-template",
        "Fast Food Template",
        "fast-food",
    );
    let burger = make_item(
        "burger",
        "Cheeseburger",
        "burger",
        Some(
            String::from_str(
                "Quarter-pound beef patty with cheese, lettuce, tomato, and special sauce",
            ),
        ),
        499,
        None,
        None,
    );
    let drink_options = vec![
        make_option("cola", "Cola", None, None, None),
        make_option("diet-cola", "Diet Cola", None, None, None),
        make_option("lemon-lime", "Lemon-Lime Soda", None, None, None),
    ];
    let drink = make_single_select("drink", "Drink", true, "cola", drink_options);
    let side_options = vec![
        make_option("fries", "French Fries", None, None, None),
        make_option("onion-rings", "Onion Rings", Some(100), None, None),
    ];
    let side = make_single_select("side", "Side", true, "fries", side_options);
    proof {
        assert(crate::validation::opts_of(drink)[0].id@ == "cola"@);
        assert(crate::validation::def_issue(drink) is None);
        assert(crate::validation::opts_of(side)[0].id@ == "fries"@);
        assert(crate::validation::def_issue(side) is None);
    }
    let custs = vec![drink, side];
    let combo = make_item(
        "combo",
        "Cheeseburger Combo",
        "combo",
        Some(String::from_str("Cheeseburger with fries and a drink")),
        799,
        Some(custs),
        Some(vec![burger]),
    );
    proof {
        lemma_defs_pair_ok(combo);
        assert(combo.wf());
    }
    let items = vec![combo];
    let document = OmsDocument::new(metadata, vendor, items);
    proof {
        lemma_single_item_document_ok(document);
        assert(document.wf());
    }
    Ok(document)
}

/// The four customizations a coffee drink offers: size, milk, espresso
/// shots and flavor syrups.
fn coffee_customizations() -> (r: Vec<Customization>)
    ensures
        r@.len() == 4,
        forall|j: int| 0 <= j < 4 ==> crate::validation::def_issue(#[trigger] r@[j]) is None,
        forall|j: int| 0 <= j < 4 ==> (#[trigger] r@[j]).wf(),
        r@[0].id@ == "size"@,
        r@[1].id@ == "milk"@,
        r@[2].id@ == "shots"@,
        r@[3].id@ == "flavor"@,
{
    let size_options = vec![
        make_option("small", "Small (12oz)", Some(-50), None, None),
        make_option("medium", "Medium (16oz)", Some(0), None, None),
        make_option("large", "Large (20oz)", Some(50), None, None),
    ];
    let size = make_single_select("size", "Size", true, "medium", size_options);
    let milk_options = vec![
        make_option("whole", "Whole Milk", Some(0), Some(vec![String::from_str("dairy")]), None),
        make_option("skim", "Skim Milk", Some(0), Some(vec![String::from_str("dairy")]), None),
        make_option(
            "almond",
            "Almond Milk",
            Some(75),
            Some(vec![String::from_str("tree-nuts")]),
            Some(vec![String::from_str("dairy_free"), String::from_str("vegan")]),
        ),
        make_option(
            "oat",
            "Oat Milk",
            Some(75),
            Some(vec![String::from_str("gluten")]),
            Some(vec![String::from_str("dairy_free"), String::from_str("vegan")]),
        ),
    ];
    let milk = make_single_select("milk", "Milk", true, "whole", milk_options);
    let shots = Customization {
        id: String::from_str("shots"),
        name: String::from_str("Espresso Shots"),
        kind: CustomizationType::Quantity,
        required: true,
        default: CustomizationDefault::Number(2),
        min_selections: None,
        max_selections: None,
        min: Some(1),
        max: Some(5),
        step: Some(1),
        unit_price_adjustment: Some(75),
        unit_nutrition_adjustments: None,
        options: None,
    };
    let flavor_options = vec![
        make_option("vanilla", "Vanilla", Some(50), None, None),
        make_option("caramel", "Caramel", Some(50), None, None),
        make_option(
            "hazelnut",
            "Hazelnut",
            Some(50),
            Some(vec![String::from_str("tree-nuts")]),
            None,
        ),
    ];
    let flavor = make_multi_select("flavor", "Flavor Syrup", 0, 3, flavor_options);
    proof {
        assert(crate::validation::opts_of(size)[1].id@ == "medium"@);
        assert(crate::validation::def_issue(size) is None);
        assert(crate::validation::opts_of(milk)[0].id@ == "whole"@);
        assert(crate::validation::def_issue(milk) is None);
        assert(crate::validation::def_issue(shots) is None);
        assert(shots.wf());
    }
    vec![size, milk, shots, flavor]
}

/// A latte and a cappuccino, each with size, milk, shots and flavor
/// customizations.
fn create_coffee_shop_template() -> (r: OmsResult<OmsDocument>)
    ensures
        r matches Ok(d) && {
            &&& d.oms_version@ == OMS_VERSION@
            &&& d.vendor.id@ == "coffee-shop-template"@
            &&& d.vendor.kind@ == "coffee-shop"@
            &&& d.items@.len() == 2
            &&& d.items@[0].name@ == "Latte"@
            &&& d.items@[1].name@ == "Cappuccino"@
            &&& d.order is None
            &&& d.wf()
            &&& crate::validation::document_issue(d) is None
        },
{
    let (metadata, vendor) = template_vendor(
        "coffee-shop-template",
        "Coffee Shop Template",
        "coffee-shop",
    );
    let latte = make_item(
        "latte",
        "Latte",
        "coffee",
        Some(String::from_str("Espresso with steamed milk")),
        450,
        Some(coffee_customizations()),
        None,
    );
    let cappuccino = make_item(
        "cappuccino",
        "Cappuccino",
        "coffee",
        Some(String::from_str("Espresso with equal parts steamed milk and foamed milk")),
        425,
        Some(coffee_customizations()),
        None,
    );
    proof {
        lemma_defs_quad_ok(latte);
        lemma_defs_quad_ok(cappuccino);
        assert(latte.wf());
        assert(cappuccino.wf());
    }
    let items = vec![latte, cappuccino];
    let document = OmsDocument::new(metadata, vendor, items);
    proof {
        assert(crate::validation::items_issue_from(document.items@, 2) is None);
        assert(crate::validation::items_issue_from(document.items@, 1) is None);
        assert(crate::validation::items_issue_from(document.items@, 0) is None);
        assert(crate::validation::document_issue(document) is None);
        assert(document.wf());
    }
    Ok(document)
}

/// A cheese pizza with size, crust and topping customizations.
fn create_pizzeria_template() -> (r: OmsResult<OmsDocument>)
    ensures
        r matches Ok(d) && {
            &&& d.oms_version@ == OMS_VERSION@
            &&& d.vendor.id@ == "pizzeria-template"@
            &&& d.vendor.kind@ == "pizzeria"@
            &&& d.items@.len() == 1
            &&& d.items@[0].name@ == "Cheese Pizza"@
            &&& d.order is None
            &&& d.wf()
            &&& crate::validation::document_issue(d) is None
        },
{
    let (metadata, vendor) = template_vendor("pizzeria-template", "Pizzeria Template", "pizzeria");
    let size_options = vec![
        make_option("small", "Small (10 inch)", Some(-200), None, None),
        make_option("medium", "Medium (12 inch)", Some(0), None, None),
        make_option("large", "Large (14 inch)", Some(200), None, None),
        make_option("x-large", "X-Large (16 inch)", Some(400), None, None),
    ];
    let size = make_single_select("size", "Size", true, "medium", size_options);
    let crust_options = vec![
        make_option("regular", "Regular", Some(0), Some(vec![String::from_str("wheat")]), None),
        make_option("thin", "Thin", Some(0), Some(vec![String::from_str("wheat")]), None),
        make_option(
            "stuffed",
            "Cheese-Stuffed",
            Some(250),
            Some(vec![String::from_str("wheat"), String::from_str("dairy")]),
            None,
        ),
        make_option(
            "gluten-free",
            "Gluten-Free",
            Some(300),
            None,
            Some(vec![String::from_str("gluten_free")]),
        ),
    ];
    let crust = make_single_select("crust", "Crust", true, "regular", crust_options);
    let topping_options = vec![
        make_option("pepperoni", "Pepperoni", Some(150), None, None),
        make_option("sausage", "Sausage", Some(150), None, None),
        make_option(
            "mushrooms",
            "Mushrooms",
            Some(100),
            None,
            Some(vec![String::from_str("vegetarian")]),
        ),
        make_option(
            "onions",
            "Onions",
            Some(100),
            None,
            Some(vec![String::from_str("vegetarian")]),
        ),
        make_option(
            "peppers",
            "Bell Peppers",
            Some(100),
            None,
            Some(vec![String::from_str("vegetarian")]),
        ),
        make_option(
            "olives",
            "Black Olives",
            Some(100),
            None,
            Some(vec![String::from_str("vegetarian")]),
        ),
    ];
    let toppings = make_multi_select("toppings", "Toppings", 0, 10, topping_options);
    proof {
        assert(crate::validation::opts_of(size)[1].id@ == "medium"@);
        assert(crate::validation::def_issue(size) is None);
        assert(crate::validation::opts_of(crust)[0].id@ == "regular"@);
        assert(crate::validation::def_issue(crust) is None);
    }
    let custs = vec![size, crust, toppings];
    let pizza = make_item(
        "cheese-pizza",
        "Cheese Pizza",
        "pizza",
        Some(String::from_str("Classic cheese pizza with tomato sauce and mozzarella")),
        1299,
        Some(custs),
        None,
    );
    proof {
        assert(crate::validation::defs_issue_from(defs_of(pizza), 3) is None);
        assert(crate::validation::defs_issue_from(defs_of(pizza), 2) is None);
        assert(crate::validation::defs_issue_from(defs_of(pizza), 1) is None);
        assert(crate::validation::defs_issue_from(defs_of(pizza), 0) is None);
        assert(crate::validation::item_issue(pizza) is None);
        assert(pizza.wf());
    }
    let items = vec![pizza];
    let document = OmsDocument::new(metadata, vendor, items);
    proof {
        lemma_single_item_document_ok(document);
        assert(document.wf());
    }
    Ok(document)
}

/// An item whose two customization definitions are both violation-free has
/// no item-level violation.
proof fn lemma_defs_pair_ok(item: Item)
    requires
        item.customizations matches Some(ds) && ds@.len() == 2 && crate::validation::def_issue(
            ds@[0],
        ) is None && crate::validation::def_issue(ds@[1]) is None,
        item.selected_customizations is None,
    ensures
        crate::validation::item_issue(item) is None,
{
    let ds = defs_of(item);
    assert(crate::validation::defs_issue_from(ds, 2) is None);
    assert(crate::validation::defs_issue_from(ds, 1) is None);
    assert(crate::validation::defs_issue_from(ds, 0) is None);
}

/// An item whose four customization definitions are all violation-free has
/// no item-level violation.
proof fn lemma_defs_quad_ok(item: Item)
    requires
        item.customizations matches Some(ds) && ds@.len() == 4 && (forall|j: int|
            0 <= j < 4 ==> crate::validation::def_issue(#[trigger] ds@[j]) is None),
        item.selected_customizations is None,
    ensures
        crate::validation::item_issue(item) is None,
{
    let ds = defs_of(item);
    assert(crate::validation::defs_issue_from(ds, 4) is None);
    assert(crate::validation::defs_issue_from(ds, 3) is None);
    assert(crate::validation::defs_issue_from(ds, 2) is None);
    assert(crate::validation::defs_issue_from(ds, 1) is None);
    assert(crate::validation::defs_issue_from(ds, 0) is None);
}

/// A document holding one violation-free item and no order passes document
/// validation.
proof fn lemma_single_item_document_ok(document: OmsDocument)
    requires
        document.items@.len() == 1,
        crate::validation::item_issue(document.items@[0]) is None,
        document.order is None,
    ensures
        crate::validation::document_issue(document) is None,
{
    assert(crate::validation::items_issue_from(document.items@, 1) is None);
    assert(crate::validation::items_issue_from(document.items@, 0) is None);
}

proof fn lemma_empty_delta(sels: Seq<SelectedCustomization>, cs: Seq<Customization>, k: int)
    requires
        cs.len() == 0,
        0 <= k,
    ensures
        delta_prefix(sels, cs, k) == 0,
    decreases k,
{
    if k > 0 {
        lemma_empty_delta(sels, cs, k - 1);
    }
}

} // verus!
