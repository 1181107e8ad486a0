//! Validation for OMS documents: the customization definition validator, the
//! selected-customization validator, the order validator, and the
//! document-level pass that composes them.
//!
//! Every validator is fail-fast: the first violation found, in list order, is
//! returned, and no later check runs. The specification functions here mirror
//! that order exactly, so each validator's contract pins both whether it
//! fails and which entity the reported failure is about.

use vstd::prelude::*;

use crate::OmsError;
use crate::OmsResult;
use crate::outside::new_validation_error;
use crate::outside::str_eq;
use crate::types::Customization;
use crate::types::CustomizationDefault;
use crate::types::CustomizationOption;
use crate::types::CustomizationSelection;
use crate::types::CustomizationType;
use crate::types::Item;
use crate::types::OmsDocument;
use crate::types::Order;
use crate::types::OrderType;
use crate::types::SelectedCustomization;

verus! {

/// A validation violation, at specification level: the kind of error owed,
/// together with the id of the customization (or the name of the field) the
/// violation is about.
pub enum Issue {
    /// A mandatory value or required selection is absent.
    MissingField(Seq<char>),
    /// A value is present but violates a constraint.
    InvalidValue(Seq<char>),
    /// An undetailed failure (an empty item list, or selections on an item
    /// without customization definitions).
    Invalid,
}

/// Whether a returned error is the one a given issue calls for.
pub open spec fn error_matches(e: OmsError, issue: Issue) -> bool {
    match issue {
        Issue::MissingField(s) => match e {
            OmsError::MissingRequiredField(p) => p@ == s,
            _ => false,
        },
        Issue::InvalidValue(s) => match e {
            OmsError::InvalidFieldValue(p) => p@ == s,
            _ => false,
        },
        Issue::Invalid => e is Validation,
    }
}

/// The options list of a customization; an absent list is treated as empty.
pub open spec fn opts_of(c: Customization) -> Seq<CustomizationOption> {
    match c.options {
        Some(v) => v@,
        None => Seq::<CustomizationOption>::empty(),
    }
}

/// Whether an option with the given id exists in an options list.
pub open spec fn has_option(opts: Seq<CustomizationOption>, id: Seq<char>) -> bool {
    exists|j: int| 0 <= j < opts.len() && (#[trigger] opts[j].id@) == id
}

/// Whether every id in a list names an existing option.
pub open spec fn all_in_options(ids: Seq<String>, opts: Seq<CustomizationOption>) -> bool {
    forall|k: int| 0 <= k < ids.len() ==> #[trigger] has_option(opts, ids[k]@)
}

/// The first violation in one customization definition, if any: select kinds
/// need a non-empty options list (missing field), a default whose variant
/// matches the kind, defaults that name existing options, and, for
/// multi-select, a default cardinality within the configured bounds; numeric
/// kinds need a numeric default within the configured bounds; boolean and
/// text kinds need a default of the matching variant.
pub open spec fn def_issue(c: Customization) -> Option<Issue> {
    match c.kind {
        CustomizationType::SingleSelect => {
            if opts_of(c).len() == 0 {
                Some(Issue::MissingField(c.id@))
            } else {
                match c.default {
                    CustomizationDefault::Text(d) => {
                        if has_option(opts_of(c), d@) {
                            None
                        } else {
                            Some(Issue::InvalidValue(c.id@))
                        }
                    },
                    _ => Some(Issue::InvalidValue(c.id@)),
                }
            }
        },
        CustomizationType::MultiSelect => {
            if opts_of(c).len() == 0 {
                Some(Issue::MissingField(c.id@))
            } else {
                match c.default {
                    CustomizationDefault::TextArray(ids) => {
                        if !all_in_options(ids@, opts_of(c)) {
                            Some(Issue::InvalidValue(c.id@))
                        } else if match c.min_selections {
                            Some(m) => ids@.len() < m,
                            None => false,
                        } {
                            Some(Issue::InvalidValue(c.id@))
                        } else if match c.max_selections {
                            Some(m) => ids@.len() > m,
                            None => false,
                        } {
                            Some(Issue::InvalidValue(c.id@))
                        } else {
                            None
                        }
                    },
                    _ => Some(Issue::InvalidValue(c.id@)),
                }
            }
        },
        CustomizationType::Quantity | CustomizationType::Range => {
            match c.default {
                CustomizationDefault::Number(v) => {
                    if match c.min {
                        Some(m) => v < m,
                        None => false,
                    } {
                        Some(Issue::InvalidValue(c.id@))
                    } else if match c.max {
                        Some(m) => v > m,
                        None => false,
                    } {
                        Some(Issue::InvalidValue(c.id@))
                    } else {
                        None
                    }
                },
                _ => Some(Issue::InvalidValue(c.id@)),
            }
        },
        CustomizationType::Boolean => {
            match c.default {
                CustomizationDefault::Toggle(_) => None,
                _ => Some(Issue::InvalidValue(c.id@)),
            }
        },
        CustomizationType::Text => {
            match c.default {
                CustomizationDefault::Text(_) => None,
                _ => Some(Issue::InvalidValue(c.id@)),
            }
        },
    }
}

/// The first violation among the definitions from index `i` on.
pub open spec fn defs_issue_from(cs: Seq<Customization>, i: int) -> Option<Issue>
    decreases cs.len() - i,
{
    if i < 0 || i >= cs.len() {
        None
    } else {
        match def_issue(cs[i]) {
            Some(e) => Some(e),
            None => defs_issue_from(cs, i + 1),
        }
    }
}

/// The first violation among a list of customization definitions, in list
/// order.
pub open spec fn defs_issue(cs: Seq<Customization>) -> Option<Issue> {
    defs_issue_from(cs, 0)
}

proof fn lemma_defs_issue_skip(cs: Seq<Customization>, k: int)
    requires
        0 <= k <= cs.len(),
        forall|j: int| 0 <= j < k ==> #[trigger] def_issue(cs[j]) is None,
    ensures
        defs_issue_from(cs, 0) == defs_issue_from(cs, k),
    decreases k,
{
    if k > 0 {
        lemma_defs_issue_skip(cs, k - 1);
        assert(def_issue(cs[k - 1]) is None);
        assert(defs_issue_from(cs, k - 1) == defs_issue_from(cs, k));
    }
}

/// Whether an option with the given id exists in the list.
fn option_exists(opts: &Vec<CustomizationOption>, id: &str) -> (r: bool)
    ensures
        r == has_option(opts@, id@),
{
    let n = opts.len();
    let mut k: usize = 0;
    while k < n
        invariant
            n == opts@.len(),
            0 <= k <= n,
            forall|j: int| 0 <= j < k ==> (#[trigger] opts@[j].id@) != id@,
        decreases n - k,
    {
        if str_eq(opts[k].id.as_str(), id) {
            proof {
                assert(opts@[k as int].id@ == id@);
            }
            return true;
        }
        k = k + 1;
    }
    false
}

/// Whether every id in the list names an existing option.
fn all_ids_exist(ids: &Vec<String>, opts: &Vec<CustomizationOption>) -> (r: bool)
    ensures
        r == all_in_options(ids@, opts@),
{
    let n = ids.len();
    let mut k: usize = 0;
    while k < n
        invariant
            n == ids@.len(),
            0 <= k <= n,
            forall|j: int| 0 <= j < k ==> #[trigger] has_option(opts@, ids@[j]@),
        decreases n - k,
    {
        if !option_exists(opts, ids[k].as_str()) {
            return false;
        }
        k = k + 1;
    }
    true
}

/// Validate one customization definition, returning the first violation.
fn check_customization(c: &Customization) -> (r: OmsResult<()>)
    ensures
        r is Ok <==> def_issue(*c) is None,
        r matches Err(e) ==> def_issue(*c) matches Some(i) && error_matches(e, i),
{
    match c.kind {
        CustomizationType::SingleSelect => {
            match &c.options {
                Some(opts) if opts.len() > 0 => {
                    match &c.default {
                        CustomizationDefault::Text(d) => {
                            if option_exists(opts, d.as_str()) {
                                Ok(())
                            } else {
                                Err(OmsError::InvalidFieldValue(c.id.clone()))
                            }
                        },
                        _ => Err(OmsError::InvalidFieldValue(c.id.clone())),
                    }
                },
                _ => Err(OmsError::MissingRequiredField(c.id.clone())),
            }
        },
        CustomizationType::MultiSelect => {
            match &c.options {
                Some(opts) if opts.len() > 0 => {
                    match &c.default {
                        CustomizationDefault::TextArray(ids) => {
                            if !all_ids_exist(ids, opts) {
                                Err(OmsError::InvalidFieldValue(c.id.clone()))
                            } else if match c.min_selections {
                                Some(m) => ids.len() < m as usize,
                                None => false,
                            } {
                                Err(OmsError::InvalidFieldValue(c.id.clone()))
                            } else if match c.max_selections {
                                Some(m) => ids.len() > m as usize,
                                None => false,
                            } {
                                Err(OmsError::InvalidFieldValue(c.id.clone()))
                            } else {
                                Ok(())
                            }
                        },
                        _ => Err(OmsError::InvalidFieldValue(c.id.clone())),
                    }
                },
                _ => Err(OmsError::MissingRequiredField(c.id.clone())),
            }
        },
        CustomizationType::Quantity | CustomizationType::Range => {
            match &c.default {
                CustomizationDefault::Number(v) => {
                    let v = *v;
                    if match c.min {
                        Some(m) => v < m,
                        None => false,
                    } {
                        Err(OmsError::InvalidFieldValue(c.id.clone()))
                    } else if match c.max {
                        Some(m) => v > m,
                        None => false,
                    } {
                        Err(OmsError::InvalidFieldValue(c.id.clone()))
                    } else {
                        Ok(())
                    }
                },
                _ => Err(OmsError::InvalidFieldValue(c.id.clone())),
            }
        },
        CustomizationType::Boolean => {
            match &c.default {
                CustomizationDefault::Toggle(_) => Ok(()),
                _ => Err(OmsError::InvalidFieldValue(c.id.clone())),
            }
        },
        CustomizationType::Text => {
            match &c.default {
                CustomizationDefault::Text(_) => Ok(()),
                _ => Err(OmsError::InvalidFieldValue(c.id.clone())),
            }
        },
    }
}

/// Validate a list of customization definitions, in list order; the first
/// violation found is returned, and no later check runs.
pub fn validate_customizations(customizations: &[Customization]) -> (r: OmsResult<()>)
    ensures
        r is Ok <==> defs_issue(customizations@) is None,
        r matches Err(e) ==> defs_issue(customizations@) matches Some(i) && error_matches(e, i),
{
    let n = customizations.len();
    let mut k: usize = 0;
    while k < n
        invariant
            n == customizations@.len(),
            0 <= k <= n,
            forall|j: int| 0 <= j < k ==> #[trigger] def_issue(customizations@[j]) is None,
        decreases n - k,
    {
        let res = check_customization(&customizations[k]);
        if let Err(e) = res {
            proof {
                lemma_defs_issue_skip(customizations@, k as int);
            }
            return Err(e);
        }
        k = k + 1;
    }
    proof {
        lemma_defs_issue_skip(customizations@, n as int);
    }
    Ok(())
}

/// Whether some selection targets the customization with the given id.
pub open spec fn selection_for(sels: Seq<SelectedCustomization>, id: Seq<char>) -> bool {
    exists|j: int| 0 <= j < sels.len() && (#[trigger] sels[j].customization_id@) == id
}

/// The id of the first required customization, from index `i` on, that no
/// selection targets.
pub open spec fn unmet_required_from(
    cs: Seq<Customization>,
    sels: Seq<SelectedCustomization>,
    i: int,
) -> Option<Seq<char>>
    decreases cs.len() - i,
{
    if i < 0 || i >= cs.len() {
        None
    } else if cs[i].required && !selection_for(sels, cs[i].id@) {
        Some(cs[i].id@)
    } else {
        unmet_required_from(cs, sels, i + 1)
    }
}

/// The first customization, in list order, whose id matches.
pub open spec fn find_customization_from(
    cs: Seq<Customization>,
    id: Seq<char>,
    i: int,
) -> Option<Customization>
    decreases cs.len() - i,
{
    if i < 0 || i >= cs.len() {
        None
    } else if cs[i].id@ == id {
        Some(cs[i])
    } else {
        find_customization_from(cs, id, i + 1)
    }
}

/// First-match lookup of a customization by id.
pub open spec fn find_customization(cs: Seq<Customization>, id: Seq<char>) -> Option<Customization> {
    find_customization_from(cs, id, 0)
}

/// The violation in one selected value, checked against the referenced
/// customization definition: the variant must match the definition's kind;
/// select kinds additionally need every selected id to name an existing
/// option, and multi-select needs the selected cardinality within bounds;
/// numeric kinds need the value within bounds.
pub open spec fn sel_value_issue(v: CustomizationSelection, c: Customization) -> Option<Issue> {
    match c.kind {
        CustomizationType::SingleSelect => {
            match v {
                CustomizationSelection::Text(s) => {
                    if has_option(opts_of(c), s@) {
                        None
                    } else {
                        Some(Issue::InvalidValue(c.id@))
                    }
                },
                _ => Some(Issue::InvalidValue(c.id@)),
            }
        },
        CustomizationType::MultiSelect => {
            match v {
                CustomizationSelection::TextArray(ids) => {
                    if !all_in_options(ids@, opts_of(c)) {
                        Some(Issue::InvalidValue(c.id@))
                    } else if match c.min_selections {
                        Some(m) => ids@.len() < m,
                        None => false,
                    } {
                        Some(Issue::InvalidValue(c.id@))
                    } else if match c.max_selections {
                        Some(m) => ids@.len() > m,
                        None => false,
                    } {
                        Some(Issue::InvalidValue(c.id@))
                    } else {
                        None
                    }
                },
                _ => Some(Issue::InvalidValue(c.id@)),
            }
        },
        CustomizationType::Quantity | CustomizationType::Range => {
            match v {
                CustomizationSelection::Number(x) => {
                    if match c.min {
                        Some(m) => x < m,
                        None => false,
                    } {
                        Some(Issue::InvalidValue(c.id@))
                    } else if match c.max {
                        Some(m) => x > m,
                        None => false,
                    } {
                        Some(Issue::InvalidValue(c.id@))
                    } else {
                        None
                    }
                },
                _ => Some(Issue::InvalidValue(c.id@)),
            }
        },
        CustomizationType::Boolean => {
            match v {
                CustomizationSelection::Toggle(_) => None,
                _ => Some(Issue::InvalidValue(c.id@)),
            }
        },
        CustomizationType::Text => {
            match v {
                CustomizationSelection::Text(_) => None,
                _ => Some(Issue::InvalidValue(c.id@)),
            }
        },
    }
}

/// The violation in one selection: its id must resolve to a customization,
/// and the selected value must satisfy that customization's constraints.
pub open spec fn sel_issue(sel: SelectedCustomization, cs: Seq<Customization>) -> Option<Issue> {
    match find_customization(cs, sel.customization_id@) {
        Some(c) => sel_value_issue(sel.selection, c),
        None => Some(Issue::InvalidValue(sel.customization_id@)),
    }
}

/// The first violation among the selections from index `i` on.
pub open spec fn sel_issues_from(
    sels: Seq<SelectedCustomization>,
    cs: Seq<Customization>,
    i: int,
) -> Option<Issue>
    decreases sels.len() - i,
{
    if i < 0 || i >= sels.len() {
        None
    } else {
        match sel_issue(sels[i], cs) {
            Some(e) => Some(e),
            None => sel_issues_from(sels, cs, i + 1),
        }
    }
}

/// The first violation of a whole selection set against its definitions:
/// first the completeness phase (every required customization selected, in
/// definition order), then the correctness phase (every selection resolves
/// and satisfies its constraints, in selection order).
pub open spec fn selections_issue(
    sels: Seq<SelectedCustomization>,
    cs: Seq<Customization>,
) -> Option<Issue> {
    match unmet_required_from(cs, sels, 0) {
        Some(id) => Some(Issue::MissingField(id)),
        None => sel_issues_from(sels, cs, 0),
    }
}

proof fn lemma_unmet_required_skip(
    cs: Seq<Customization>,
    sels: Seq<SelectedCustomization>,
    k: int,
)
    requires
        0 <= k <= cs.len(),
        forall|j: int|
            0 <= j < k ==> !((#[trigger] cs[j].required) && !selection_for(sels, cs[j].id@)),
    ensures
        unmet_required_from(cs, sels, 0) == unmet_required_from(cs, sels, k),
    decreases k,
{
    if k > 0 {
        lemma_unmet_required_skip(cs, sels, k - 1);
    }
}

proof fn lemma_sel_issues_skip(
    sels: Seq<SelectedCustomization>,
    cs: Seq<Customization>,
    k: int,
)
    requires
        0 <= k <= sels.len(),
        forall|j: int| 0 <= j < k ==> #[trigger] sel_issue(sels[j], cs) is None,
    ensures
        sel_issues_from(sels, cs, 0) == sel_issues_from(sels, cs, k),
    decreases k,
{
    if k > 0 {
        lemma_sel_issues_skip(sels, cs, k - 1);
    }
}

/// Whether some selection targets the given customization id.
fn has_selection(selected: &[SelectedCustomization], id: &str) -> (r: bool)
    ensures
        r == selection_for(selected@, id@),
{
    let n = selected.len();
    let mut k: usize = 0;
    while k < n
        invariant
            n == selected@.len(),
            0 <= k <= n,
            forall|j: int| 0 <= j < k ==> (#[trigger] selected@[j].customization_id@) != id@,
        decreases n - k,
    {
        if str_eq(selected[k].customization_id.as_str(), id) {
            proof {
                assert(selected@[k as int].customization_id@ == id@);
            }
            return true;
        }
        k = k + 1;
    }
    false
}

/// First-match lookup of a customization by id.
pub(crate) fn lookup_customization<'a>(available: &'a [Customization], id: &str) -> (r: Option<
    &'a Customization,
>)
    ensures
        match r {
            Some(c) => find_customization(available@, id@) == Some(*c),
            None => find_customization(available@, id@) is None,
        },
{
    let n = available.len();
    let mut k: usize = 0;
    while k < n
        invariant
            n == available@.len(),
            0 <= k <= n,
            find_customization_from(available@, id@, 0) == find_customization_from(
                available@,
                id@,
                k as int,
            ),
        decreases n - k,
    {
        if str_eq(available[k].id.as_str(), id) {
            return Some(&available[k]);
        }
        k = k + 1;
    }
    None
}

/// Validate one selected value against its customization definition.
fn check_selection_value(sel: &SelectedCustomization, c: &Customization) -> (r: OmsResult<()>)
    ensures
        r is Ok <==> sel_value_issue(sel.selection, *c) is None,
        r matches Err(e) ==> sel_value_issue(sel.selection, *c) matches Some(i) && error_matches(
            e,
            i,
        ),
{
    match c.kind {
        CustomizationType::SingleSelect => {
            match &sel.selection {
                CustomizationSelection::Text(s) => {
                    let found = match &c.options {
                        Some(opts) => option_exists(opts, s.as_str()),
                        None => false,
                    };
                    if found {
                        Ok(())
                    } else {
                        Err(OmsError::InvalidFieldValue(c.id.clone()))
                    }
                },
                _ => Err(OmsError::InvalidFieldValue(c.id.clone())),
            }
        },
        CustomizationType::MultiSelect => {
            match &sel.selection {
                CustomizationSelection::TextArray(ids) => {
                    let all_found = match &c.options {
                        Some(opts) => all_ids_exist(ids, opts),
                        None => {
                            proof {
                                if ids@.len() > 0 {
                                    assert(!has_option(opts_of(*c), ids@[0]@));
                                }
                            }
                            ids.len() == 0
                        },
                    };
                    if !all_found {
                        Err(OmsError::InvalidFieldValue(c.id.clone()))
                    } else if match c.min_selections {
                        Some(m) => ids.len() < m as usize,
                        None => false,
                    } {
                        Err(OmsError::InvalidFieldValue(c.id.clone()))
                    } else if match c.max_selections {
                        Some(m) => ids.len() > m as usize,
                        None => false,
                    } {
                        Err(OmsError::InvalidFieldValue(c.id.clone()))
                    } else {
                        Ok(())
                    }
                },
                _ => Err(OmsError::InvalidFieldValue(c.id.clone())),
            }
        },
        CustomizationType::Quantity | CustomizationType::Range => {
            match &sel.selection {
                CustomizationSelection::Number(x) => {
                    let x = *x;
                    if match c.min {
                        Some(m) => x < m,
                        None => false,
                    } {
                        Err(OmsError::InvalidFieldValue(c.id.clone()))
                    } else if match c.max {
                        Some(m) => x > m,
                        None => false,
                    } {
                        Err(OmsError::InvalidFieldValue(c.id.clone()))
                    } else {
                        Ok(())
                    }
                },
                _ => Err(OmsError::InvalidFieldValue(c.id.clone())),
            }
        },
        CustomizationType::Boolean => {
            match &sel.selection {
                CustomizationSelection::Toggle(_) => Ok(()),
                _ => Err(OmsError::InvalidFieldValue(c.id.clone())),
            }
        },
        CustomizationType::Text => {
            match &sel.selection {
                CustomizationSelection::Text(_) => Ok(()),
                _ => Err(OmsError::InvalidFieldValue(c.id.clone())),
            }
        },
    }
}

/// Validate selections against the authoritative customization list. Two
/// phases, both fail-fast: completeness (every required customization is
/// selected), then correctness (every selection resolves by id and its value
/// satisfies the referenced definition's constraints). Unknown ids are
/// rejected; unselected non-required customizations are permitted. A
/// definition without an options list is treated as having no options.
pub fn validate_selected_customizations(
    selected: &[SelectedCustomization],
    available: &[Customization],
) -> (r: OmsResult<()>)
    ensures
        r is Ok <==> selections_issue(selected@, available@) is None,
        r matches Err(e) ==> selections_issue(selected@, available@) matches Some(i)
            && error_matches(e, i),
{
    // Phase 1: every required customization must be selected.
    let n = available.len();
    let mut k: usize = 0;
    while k < n
        invariant
            n == available@.len(),
            0 <= k <= n,
            forall|j: int|
                0 <= j < k ==> !((#[trigger] available@[j].required) && !selection_for(
                    selected@,
                    available@[j].id@,
                )),
        decreases n - k,
    {
        if available[k].required && !has_selection(selected, available[k].id.as_str()) {
            proof {
                lemma_unmet_required_skip(available@, selected@, k as int);
            }
            return Err(OmsError::MissingRequiredField(available[k].id.clone()));
        }
        k = k + 1;
    }
    proof {
        lemma_unmet_required_skip(available@, selected@, n as int);
    }
    // Phase 2: every selection must resolve and satisfy its definition.
    let m = selected.len();
    let mut k: usize = 0;
    while k < m
        invariant
            m == selected@.len(),
            0 <= k <= m,
            unmet_required_from(available@, selected@, 0) is None,
            forall|j: int| 0 <= j < k ==> #[trigger] sel_issue(selected@[j], available@) is None,
        decreases m - k,
    {
        let sel = &selected[k];
        match lookup_customization(available, sel.customization_id.as_str()) {
            Some(c) => {
                let res = check_selection_value(sel, c);
                if let Err(e) = res {
                    proof {
                        lemma_sel_issues_skip(selected@, available@, k as int);
                    }
                    return Err(e);
                }
            },
            None => {
                proof {
                    lemma_sel_issues_skip(selected@, available@, k as int);
                }
                return Err(OmsError::InvalidFieldValue(sel.customization_id.clone()));
            },
        }
        k = k + 1;
    }
    proof {
        lemma_sel_issues_skip(selected@, available@, m as int);
    }
    Ok(())
}

/// Whether a payment's components add up to its total within the absolute
/// tolerance of one cent.
pub open spec fn within_tolerance(components: int, total: int) -> bool {
    -1 <= components - total <= 1
}

/// The first violation in an order, checked against the owning item list:
/// the item list must be non-empty; a payment's total must be positive, and
/// when subtotal, tax and tip are all present their sum must equal the total
/// within one cent; a delivery payload together with an order type demands
/// that the type be Delivery, and the Delivery type demands a delivery
/// payload (a delivery payload with no type set is accepted).
pub open spec fn order_issue(order: Order, items_len: int) -> Option<Issue> {
    if items_len == 0 {
        Some(Issue::Invalid)
    } else if match order.payment {
        Some(p) => p.total <= 0,
        None => false,
    } {
        Some(Issue::InvalidValue("payment.total"@))
    } else if match order.payment {
        Some(p) => match (p.subtotal, p.tax, p.tip) {
            (Some(s), Some(t), Some(tip)) => !within_tolerance(s + t + tip, p.total as int),
            _ => false,
        },
        None => false,
    } {
        Some(Issue::InvalidValue("payment"@))
    } else if order.delivery is Some && match order.kind {
        Some(t) => t != OrderType::Delivery,
        None => false,
    } {
        Some(Issue::InvalidValue("order.type"@))
    } else if order.kind == Some(OrderType::Delivery) && order.delivery is None {
        Some(Issue::MissingField("order.delivery"@))
    } else {
        None
    }
}

/// Validate order information against the owning item list.
pub fn validate_order(order: &Order, items: &[Item]) -> (r: OmsResult<()>)
    ensures
        r is Ok <==> order_issue(*order, items@.len() as int) is None,
        r matches Err(e) ==> order_issue(*order, items@.len() as int) matches Some(i)
            && error_matches(e, i),
{
    if items.len() == 0 {
        return Err(OmsError::Validation);
    }
    if let Some(payment) = &order.payment {
        if payment.total <= 0 {
            return Err(OmsError::InvalidFieldValue(String::from_str("payment.total")));
        }
        if let (Some(subtotal), Some(tax), Some(tip)) = (payment.subtotal, payment.tax, payment.tip)
        {
            let components: i128 = subtotal as i128 + tax as i128 + tip as i128;
            let diff: i128 = components - payment.total as i128;
            if diff > 1 || diff < -1 {
                return Err(OmsError::InvalidFieldValue(String::from_str("payment")));
            }
        }
    }
    if order.delivery.is_some() {
        if let Some(kind) = &order.kind {
            if *kind != OrderType::Delivery {
                return Err(OmsError::InvalidFieldValue(String::from_str("order.type")));
            }
        }
    }
    if let Some(OrderType::Delivery) = &order.kind {
        if order.delivery.is_none() {
            return Err(OmsError::MissingRequiredField(String::from_str("order.delivery")));
        }
    }
    Ok(())
}

/// The first violation within one item: its customization definitions are
/// checked first; then, if selections are present, they are checked against
/// the definitions (selections on an item without definitions are an
/// undetailed failure).
pub open spec fn item_issue(item: Item) -> Option<Issue> {
    let from_defs = match item.customizations {
        Some(ds) => defs_issue(ds@),
        None => None,
    };
    match from_defs {
        Some(e) => Some(e),
        None => match item.selected_customizations {
            Some(sels) => match item.customizations {
                Some(ds) => selections_issue(sels@, ds@),
                None => Some(Issue::Invalid),
            },
            None => None,
        },
    }
}

/// The first violation among the items from index `i` on.
pub open spec fn items_issue_from(items: Seq<Item>, i: int) -> Option<Issue>
    decreases items.len() - i,
{
    if i < 0 || i >= items.len() {
        None
    } else {
        match item_issue(items[i]) {
            Some(e) => Some(e),
            None => items_issue_from(items, i + 1),
        }
    }
}

/// The first violation in a whole document: the item list must be
/// non-empty; each item is checked in list order; then the order, if one is
/// present, is checked once.
pub open spec fn document_issue(doc: OmsDocument) -> Option<Issue> {
    if doc.items@.len() == 0 {
        Some(Issue::Invalid)
    } else {
        match items_issue_from(doc.items@, 0) {
            Some(e) => Some(e),
            None => match doc.order {
                Some(o) => order_issue(o, doc.items@.len() as int),
                None => None,
            },
        }
    }
}

proof fn lemma_items_issue_skip(items: Seq<Item>, k: int)
    requires
        0 <= k <= items.len(),
        forall|j: int| 0 <= j < k ==> #[trigger] item_issue(items[j]) is None,
    ensures
        items_issue_from(items, 0) == items_issue_from(items, k),
    decreases k,
{
    if k > 0 {
        lemma_items_issue_skip(items, k - 1);
    }
}

/// Validate one item: its customization definitions, then its selections.
fn check_item(item: &Item) -> (r: OmsResult<()>)
    ensures
        r is Ok <==> item_issue(*item) is None,
        r matches Err(e) ==> item_issue(*item) matches Some(i) && error_matches(e, i),
{
    if let Some(ds) = &item.customizations {
        let res = validate_customizations(ds.as_slice());
        if let Err(e) = res {
            return Err(e);
        }
    }
    match &item.selected_customizations {
        Some(sels) => match &item.customizations {
            Some(ds) => validate_selected_customizations(sels.as_slice(), ds.as_slice()),
            None => Err(OmsError::Validation),
        },
        None => Ok(()),
    }
}

/// Validate a complete document: each item's customization definitions and
/// selections, in list order, then the order record if one is present. The
/// first violation found is returned.
pub fn validate_document(document: &OmsDocument) -> (r: OmsResult<()>)
    ensures
        r is Ok <==> document_issue(*document) is None,
        r matches Err(e) ==> document_issue(*document) matches Some(i) && error_matches(e, i),
{
    let n = document.items.len();
    if n == 0 {
        return Err(OmsError::Validation);
    }
    let mut k: usize = 0;
    while k < n
        invariant
            n == document.items@.len(),
            0 <= k <= n,
            forall|j: int| 0 <= j < k ==> #[trigger] item_issue(document.items@[j]) is None,
        decreases n - k,
    {
        let res = check_item(&document.items[k]);
        if let Err(e) = res {
            proof {
                lemma_items_issue_skip(document.items@, k as int);
            }
            return Err(e);
        }
        k = k + 1;
    }
    proof {
        lemma_items_issue_skip(document.items@, n as int);
    }
    if let Some(order) = &document.order {
        let res = validate_order(order, document.items.as_slice());
        if let Err(e) = res {
            return Err(e);
        }
    }
    Ok(())
}

/// Whether a string is one of the six customization type tokens.
pub open spec fn is_customization_type_token(s: Seq<char>) -> bool {
    s == "single_select"@ || s == "multi_select"@ || s == "quantity"@ || s == "boolean"@
        || s == "text"@ || s == "range"@
}

/// Validation function for a customization type token: accepts exactly
/// "single_select", "multi_select", "quantity", "boolean", "text" and
/// "range". The error value is validator's, and is opaque to this library.
pub fn validate_customization_type(type_str: &str) -> (r: Result<(), validator::ValidationError>)
    ensures
        r is Ok <==> is_customization_type_token(type_str@),
{
    if str_eq(type_str, "single_select") || str_eq(type_str, "multi_select") || str_eq(
        type_str,
        "quantity",
    ) || str_eq(type_str, "boolean") || str_eq(type_str, "text") || str_eq(type_str, "range") {
        Ok(())
    } else {
        let mut message = String::from_str("invalid customization type: ");
        message.append(type_str);
        Err(new_validation_error("invalid_customization_type", message))
    }
}

/// Validation function for a vendor type token. The type is an open set:
/// any non-empty string is accepted; only the empty string is rejected. The
/// error value is validator's, and is opaque to this library.
pub fn validate_vendor_type(type_str: &str) -> (r: Result<(), validator::ValidationError>)
    ensures
        r is Ok <==> type_str@.len() != 0,
{
    if !type_str.is_empty() {
        Ok(())
    } else {
        let mut message = String::from_str("invalid vendor type: ");
        message.append(type_str);
        Err(new_validation_error("invalid_vendor_type", message))
    }
}

/// Law: the definition validator is fail-fast. If every definition before
/// index `k` is free of violations and the definition at `k` has one, the
/// violation reported for the whole list is exactly the one at `k`.
pub proof fn lemma_fail_fast_ordering(cs: Seq<Customization>, k: int)
    requires
        0 <= k < cs.len(),
        def_issue(cs[k]) is Some,
        forall|j: int| 0 <= j < k ==> #[trigger] def_issue(cs[j]) is None,
    ensures
        defs_issue(cs) == def_issue(cs[k]),
{
    lemma_defs_issue_skip(cs, k);
}

/// Law: the completeness gate. Whenever some required customization has no
/// matching selection, selection validation fails with a missing-field
/// issue, whatever the other selections hold.
pub proof fn lemma_completeness_gate(
    sels: Seq<SelectedCustomization>,
    cs: Seq<Customization>,
    k: int,
)
    requires
        0 <= k < cs.len(),
        cs[k].required,
        !selection_for(sels, cs[k].id@),
    ensures
        selections_issue(sels, cs) matches Some(i) && i is MissingField,
{
    lemma_unmet_required_some(cs, sels, 0, k);
}

proof fn lemma_unmet_required_some(
    cs: Seq<Customization>,
    sels: Seq<SelectedCustomization>,
    i: int,
    k: int,
)
    requires
        0 <= i <= k < cs.len(),
        cs[k].required,
        !selection_for(sels, cs[k].id@),
    ensures
        unmet_required_from(cs, sels, i) is Some,
    decreases k - i,
{
    if !(cs[i].required && !selection_for(sels, cs[i].id@)) {
        lemma_unmet_required_some(cs, sels, i + 1, k);
    }
}

} // verus!
