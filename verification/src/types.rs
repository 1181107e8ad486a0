//! Core data structures for the OpenMenuStandard.
//!
//! Monetary amounts (prices, price adjustments, payment amounts) are held in
//! minor currency units (cents). Numeric customization values (quantity and
//! range defaults, selections and bounds) are plain integers. Nutrition
//! measurements are held in hundredths of their unit. Timestamps are Unix
//! seconds.

use vstd::prelude::*;

use crate::OmsError;

verus! {

/// Largest magnitude of a single monetary amount (in cents) that a
/// well-formed document may hold: one million currency units.
pub const AMOUNT_LIMIT: i64 = 100_000_000;

/// Largest magnitude of a numeric customization value or an item quantity in
/// a well-formed document.
pub const VALUE_LIMIT: i64 = 1_000_000;

/// Largest length of an item list, a selection list, or a multi-select id
/// list in a well-formed document.
pub const LIST_LIMIT: usize = 10_000;

/// Main document struct representing a complete OpenMenuStandard document
#[derive(Debug, PartialEq)]
pub struct OmsDocument {
    /// Version of the OpenMenuStandard specification
    pub oms_version: String,
    /// Metadata about the document
    pub metadata: Metadata,
    /// Information about the vendor
    pub vendor: Vendor,
    /// Menu items
    pub items: Vec<Item>,
    /// Optional order information
    pub order: Option<Order>,
    /// Optional vendor-specific extensions
    pub extensions: Option<Extensions>,
}

/// Metadata about the OMS document
#[derive(Debug, Clone, PartialEq)]
pub struct Metadata {
    /// When the document was created, as a Unix timestamp in seconds
    pub created: i64,
    /// Application or system that generated the document
    pub source: String,
    /// Primary language of text content (RFC 5646 language tag)
    pub locale: String,
}

/// Information about the food service provider
#[derive(Debug, Clone, PartialEq)]
pub struct Vendor {
    /// Unique identifier for the vendor
    pub id: String,
    /// Name of the vendor
    pub name: String,
    /// Type of food service
    pub kind: String,
    /// Optional specific location identifier
    pub location_id: Option<String>,
    /// Optional specific location name
    pub location_name: Option<String>,
    /// Optional address information
    pub address: Option<Address>,
    /// Optional contact information
    pub contact: Option<Contact>,
    /// Optional business hours
    pub hours: Option<Vec<BusinessHours>>,
    /// Optional cuisine types
    pub cuisine: Option<Vec<String>>,
    /// Optional available services
    pub services: Option<Vec<String>>,
}

/// Physical address information
#[derive(Debug, Clone, PartialEq)]
pub struct Address {
    /// Street address
    pub street: String,
    /// City
    pub city: String,
    /// State or province
    pub region: String,
    /// Postal code
    pub postal_code: String,
    /// Country
    pub country: String,
}

/// Contact information
#[derive(Debug, Clone, PartialEq)]
pub struct Contact {
    /// Phone number
    pub phone: Option<String>,
    /// Website URL
    pub website: Option<String>,
}

/// Business hours for a particular day
#[derive(Debug, Clone, PartialEq)]
pub struct BusinessHours {
    /// Day of the week
    pub day: DayOfWeek,
    /// Time ranges when the business is open
    pub ranges: Vec<TimeRange>,
}

/// Days of the week
#[derive(Debug, Clone, Copy, PartialEq, Eq, Structural)]
pub enum DayOfWeek {
    Monday,
    Tuesday,
    Wednesday,
    Thursday,
    Friday,
    Saturday,
    Sunday,
}

/// Time range with open and close times
#[derive(Debug, Clone, PartialEq)]
pub struct TimeRange {
    /// Opening time in 24-hour format (HH:MM)
    pub open: String,
    /// Closing time in 24-hour format (HH:MM)
    pub close: String,
}

/// Representation of a food or beverage item
#[derive(Debug, PartialEq)]
pub struct Item {
    /// Unique identifier for the item
    pub id: String,
    /// Name of the item
    pub name: String,
    /// Category of the item
    pub category: String,
    /// Optional vendor-specific identifier
    pub vendor_id: Option<String>,
    /// Optional detailed description
    pub description: Option<String>,
    /// Optional subcategory
    pub subcategory: Option<String>,
    /// Optional URL to an image of the item
    pub image_url: Option<String>,
    /// Optional base price before customizations, in cents
    pub base_price: Option<i64>,
    /// Optional currency code (ISO 4217)
    pub currency: Option<String>,
    /// Optional nutritional information
    pub nutrition: Option<Nutrition>,
    /// Optional available customizations
    pub customizations: Option<Vec<Customization>>,
    /// Optional selected customizations
    pub selected_customizations: Option<Vec<SelectedCustomization>>,
    /// Optional quantity of this item in an order
    pub quantity: Option<u32>,
    /// Optional note specific to this item
    pub item_note: Option<String>,
    /// Optional calculated values based on customizations
    pub calculated: Option<CalculatedValues>,
    /// Optional component items for combo meals
    pub components: Option<Vec<Item>>,
    /// Optional availability information
    pub availability: Option<Availability>,
    /// Optional popularity metrics
    pub popularity: Option<Popularity>,
}

/// Nutritional information about an item
#[derive(Debug, Clone, PartialEq)]
pub struct Nutrition {
    /// Serving size information
    pub serving_size: Option<MeasurementValue>,
    /// Calories per serving, in hundredths of a calorie
    pub calories: Option<i64>,
    /// Protein content
    pub protein: Option<MeasurementValue>,
    /// Fat content
    pub fat: Option<NutrientWithDetails>,
    /// Carbohydrate content
    pub carbohydrates: Option<NutrientWithDetails>,
    /// Sodium content
    pub sodium: Option<MeasurementValue>,
    /// Cholesterol content
    pub cholesterol: Option<MeasurementValue>,
    /// Vitamin content
    pub vitamins: Option<Vec<VitaminMineral>>,
    /// Mineral content
    pub minerals: Option<Vec<VitaminMineral>>,
    /// List of allergens present
    pub allergens: Option<Vec<String>>,
    /// Dietary flags for the item
    pub dietary_flags: Option<Vec<String>>,
    /// Health claims associated with the item
    pub health_claims: Option<Vec<String>>,
    /// Ingredient information
    pub ingredients: Option<Vec<IngredientGroup>>,
    /// Nutrition standards compliance
    pub nutrition_standards: Option<NutritionStandards>,
}

/// Measurement value with unit; the value is held in hundredths of the unit
#[derive(Debug, Clone, PartialEq)]
pub struct MeasurementValue {
    /// Numeric value, in hundredths of the unit
    pub value: i64,
    /// Unit of measurement
    pub unit: String,
}

/// Nutrient with detailed breakdown
#[derive(Debug, Clone, PartialEq)]
pub struct NutrientWithDetails {
    /// Numeric value, in hundredths of the unit
    pub value: i64,
    /// Unit of measurement
    pub unit: String,
    /// Optional detailed breakdown, keyed by nutrient name
    pub details: Option<Vec<NutrientEntry>>,
}

/// One named entry of a nutrient breakdown
#[derive(Debug, Clone, PartialEq)]
pub struct NutrientEntry {
    /// Nutrient name
    pub name: String,
    /// Nutrient measurement
    pub value: MeasurementValue,
}

/// Nutrient value, which can be either a simple measurement or another
/// detailed breakdown
#[derive(Debug, Clone, PartialEq)]
pub enum NutrientValue {
    Simple(MeasurementValue),
    Detailed(NutrientWithDetails),
}

/// Vitamin or mineral nutrient information
#[derive(Debug, Clone, PartialEq)]
pub struct VitaminMineral {
    /// Name of the vitamin or mineral
    pub name: String,
    /// Numeric value, in hundredths of the unit
    pub value: i64,
    /// Unit of measurement
    pub unit: String,
    /// Optional percentage of daily value, in hundredths of a percent
    pub daily_value_percent: Option<i64>,
}

/// Ingredient grouping
#[derive(Debug, Clone, PartialEq)]
pub struct IngredientGroup {
    /// Name of the ingredient group
    pub name: String,
    /// List of ingredients in this group
    pub ingredients: Vec<String>,
}

/// Nutrition standards compliance information
#[derive(Debug, Clone, PartialEq)]
pub struct NutritionStandards {
    /// US FDA compliance information
    pub us_fda: Option<UsFdaInfo>,
    /// EU regulation compliance information
    pub eu_regulation: Option<EuRegulationInfo>,
}

/// US FDA nutrition information
#[derive(Debug, Clone, PartialEq)]
pub struct UsFdaInfo {
    /// Serving size description
    pub serving_size_description: String,
    /// Daily value reference year
    pub daily_value_year: u16,
}

/// EU regulation nutrition information
#[derive(Debug, Clone, PartialEq)]
pub struct EuRegulationInfo {
    /// Reference intake description
    pub reference_intake_description: String,
}

/// Customization options for an item
#[derive(Debug, Clone, PartialEq)]
pub struct Customization {
    /// Unique identifier for the customization
    pub id: String,
    /// Name of the customization
    pub name: String,
    /// Type of customization
    pub kind: CustomizationType,
    /// Whether this customization is required
    pub required: bool,
    /// Default value for this customization
    pub default: CustomizationDefault,
    /// Minimum number of selections (for multi_select)
    pub min_selections: Option<u32>,
    /// Maximum number of selections (for multi_select)
    pub max_selections: Option<u32>,
    /// Minimum value (for quantity or range)
    pub min: Option<i64>,
    /// Maximum value (for quantity or range)
    pub max: Option<i64>,
    /// Step value (for quantity or range); stored but not enforced
    pub step: Option<i64>,
    /// Unit price adjustment per quantity, in cents
    pub unit_price_adjustment: Option<i64>,
    /// Unit nutrition adjustments per quantity, keyed by nutrient name
    pub unit_nutrition_adjustments: Option<Vec<NutrientEntry>>,
    /// Available options for selection
    pub options: Option<Vec<CustomizationOption>>,
}

/// Types of customizations
#[derive(Debug, Clone, Copy, PartialEq, Eq, Structural)]
pub enum CustomizationType {
    SingleSelect,
    MultiSelect,
    Quantity,
    Boolean,
    Text,
    Range,
}

/// The fixed snake_case token of a customization type, as documents carry
/// it.
pub open spec fn token_of(t: CustomizationType) -> Seq<char> {
    match t {
        CustomizationType::SingleSelect => "single_select"@,
        CustomizationType::MultiSelect => "multi_select"@,
        CustomizationType::Quantity => "quantity"@,
        CustomizationType::Boolean => "boolean"@,
        CustomizationType::Text => "text"@,
        CustomizationType::Range => "range"@,
    }
}

impl CustomizationType {
    /// The snake_case token of this type.
    pub fn token(&self) -> (r: String)
        ensures
            r@ == token_of(*self),
    {
        match self {
            CustomizationType::SingleSelect => String::from_str("single_select"),
            CustomizationType::MultiSelect => String::from_str("multi_select"),
            CustomizationType::Quantity => String::from_str("quantity"),
            CustomizationType::Boolean => String::from_str("boolean"),
            CustomizationType::Text => String::from_str("text"),
            CustomizationType::Range => String::from_str("range"),
        }
    }

    /// Parse a snake_case token into a customization type. Exactly the six
    /// fixed tokens are accepted; anything else is an unrecognized
    /// discriminant, and the error carries it.
    pub fn parse_token(s: &str) -> (r: Result<CustomizationType, OmsError>)
        ensures
            r matches Ok(t) ==> token_of(t) == s@,
            r is Ok <==> exists|t: CustomizationType| token_of(t) == s@,
            r matches Err(e) ==> e matches OmsError::InvalidCustomizationType(m) && m@ == s@,
    {
        proof {
            assert(token_of(CustomizationType::SingleSelect) == "single_select"@);
            assert(token_of(CustomizationType::MultiSelect) == "multi_select"@);
            assert(token_of(CustomizationType::Quantity) == "quantity"@);
            assert(token_of(CustomizationType::Boolean) == "boolean"@);
            assert(token_of(CustomizationType::Text) == "text"@);
            assert(token_of(CustomizationType::Range) == "range"@);
        }
        if crate::outside::str_eq(s, "single_select") {
            Ok(CustomizationType::SingleSelect)
        } else if crate::outside::str_eq(s, "multi_select") {
            Ok(CustomizationType::MultiSelect)
        } else if crate::outside::str_eq(s, "quantity") {
            Ok(CustomizationType::Quantity)
        } else if crate::outside::str_eq(s, "boolean") {
            Ok(CustomizationType::Boolean)
        } else if crate::outside::str_eq(s, "text") {
            Ok(CustomizationType::Text)
        } else if crate::outside::str_eq(s, "range") {
            Ok(CustomizationType::Range)
        } else {
            proof {
                assert forall|t: CustomizationType| token_of(t) != s@ by {
                    match t {
                        CustomizationType::SingleSelect => {},
                        CustomizationType::MultiSelect => {},
                        CustomizationType::Quantity => {},
                        CustomizationType::Boolean => {},
                        CustomizationType::Text => {},
                        CustomizationType::Range => {},
                    }
                }
            }
            Err(OmsError::InvalidCustomizationType(String::from_str(s)))
        }
    }
}

impl core::str::FromStr for CustomizationType {
    type Err = OmsError;

    fn from_str(s: &str) -> Result<CustomizationType, OmsError> {
        CustomizationType::parse_token(s)
    }
}

/// Default value for a customization, which varies by type.
///
/// The variants mirror the untagged encodings a document may carry: a single
/// string, an array of strings, a number, or a boolean, in that decode
/// precedence.
#[derive(Debug, Clone, PartialEq)]
pub enum CustomizationDefault {
    Text(String),
    TextArray(Vec<String>),
    Number(i64),
    Toggle(bool),
}

/// Individual option for a customization
#[derive(Debug, Clone, PartialEq)]
pub struct CustomizationOption {
    /// Unique identifier for the option
    pub id: String,
    /// Name of the option
    pub name: String,
    /// Optional price adjustment for selecting this option, in cents
    pub price_adjustment: Option<i64>,
    /// Optional nutrition adjustments for selecting this option
    pub nutrition_adjustments: Option<Vec<NutrientEntry>>,
    /// Optional allergens added by this option
    pub allergens: Option<Vec<String>>,
    /// Optional dietary flags for this option
    pub dietary_flags: Option<Vec<String>>,
}

/// Selected customization for an item
#[derive(Debug, Clone, PartialEq)]
pub struct SelectedCustomization {
    /// ID of the customization being selected
    pub customization_id: String,
    /// Selection value, which varies by customization type
    pub selection: CustomizationSelection,
}

/// Value of a selected customization, which varies by type; the variants
/// mirror those of [`CustomizationDefault`]
#[derive(Debug, Clone, PartialEq)]
pub enum CustomizationSelection {
    Text(String),
    TextArray(Vec<String>),
    Number(i64),
    Toggle(bool),
}

/// Calculated values based on customizations
#[derive(Debug, Clone, PartialEq)]
pub struct CalculatedValues {
    /// Calculated item price after customizations, in cents
    pub item_price: i64,
    /// Adjusted nutrition values after customizations, keyed by nutrient
    /// name, in hundredths of the unit
    pub adjusted_nutrition: Option<Vec<(String, i64)>>,
}

/// Item availability information
#[derive(Debug, Clone, PartialEq)]
pub struct Availability {
    /// Optional start date for seasonal items
    pub start_date: Option<String>,
    /// Optional end date for seasonal items
    pub end_date: Option<String>,
    /// Optional times of day when item is available
    pub times_of_day: Option<Vec<String>>,
    /// Optional days of week when item is available
    pub days_of_week: Option<Vec<String>>,
}

/// Item popularity metrics
#[derive(Debug, Clone, PartialEq)]
pub struct Popularity {
    /// Optional ranking among menu items
    pub rank: Option<u32>,
    /// Optional descriptive tags
    pub tags: Option<Vec<String>>,
}

/// Order information
#[derive(Debug, Clone, PartialEq)]
pub struct Order {
    /// Unique identifier for the order
    pub id: Option<String>,
    /// Current status of the order
    pub status: Option<OrderStatus>,
    /// When the order was created, as a Unix timestamp in seconds
    pub created: Option<i64>,
    /// Requested pickup time, as a Unix timestamp in seconds
    pub pickup_time: Option<i64>,
    /// Requested delivery time, as a Unix timestamp in seconds
    pub delivery_time: Option<i64>,
    /// Type of order
    pub kind: Option<OrderType>,
    /// Special instructions for the order
    pub customer_notes: Option<String>,
    /// Payment information
    pub payment: Option<Payment>,
    /// Customer information
    pub customer: Option<Customer>,
    /// Delivery information
    pub delivery: Option<Delivery>,
}

/// Order status
#[derive(Debug, Clone, Copy, PartialEq, Eq, Structural)]
pub enum OrderStatus {
    Draft,
    Submitted,
    Confirmed,
    InProgress,
    Ready,
    Completed,
    Cancelled,
}

/// Order type
#[derive(Debug, Clone, Copy, PartialEq, Eq, Structural)]
pub enum OrderType {
    Pickup,
    Delivery,
    DineIn,
}

/// Payment information; all amounts are in cents
#[derive(Debug, Clone, PartialEq)]
pub struct Payment {
    /// Payment status
    pub status: Option<PaymentStatus>,
    /// Payment method
    pub method: Option<String>,
    /// Subtotal before tax and tip, in cents
    pub subtotal: Option<i64>,
    /// Tax amount, in cents
    pub tax: Option<i64>,
    /// Tip amount, in cents
    pub tip: Option<i64>,
    /// Total amount, in cents
    pub total: i64,
    /// Currency code (ISO 4217)
    pub currency: String,
}

/// Payment status
#[derive(Debug, Clone, Copy, PartialEq, Eq, Structural)]
pub enum PaymentStatus {
    Unpaid,
    Paid,
}

/// Customer information
#[derive(Debug, Clone, PartialEq)]
pub struct Customer {
    /// Unique identifier for the customer
    pub id: Option<String>,
    /// Customer name
    pub name: Option<String>,
    /// Customer phone number
    pub phone: Option<String>,
    /// Customer email address
    pub email: Option<String>,
}

/// Delivery information
#[derive(Debug, Clone, PartialEq)]
pub struct Delivery {
    /// Delivery address
    pub address: Address,
    /// Special delivery instructions
    pub instructions: Option<String>,
}

/// View-level sameness of two selection values: the same variant holding
/// the same content.
pub open spec fn selection_like(a: CustomizationSelection, b: CustomizationSelection) -> bool {
    match (a, b) {
        (CustomizationSelection::Text(x), CustomizationSelection::Text(y)) => x@ == y@,
        (CustomizationSelection::TextArray(xs), CustomizationSelection::TextArray(ys)) => {
            &&& xs@.len() == ys@.len()
            &&& forall|i: int| 0 <= i < xs@.len() ==> (#[trigger] xs@[i])@ == ys@[i]@
        },
        (CustomizationSelection::Number(x), CustomizationSelection::Number(y)) => x == y,
        (CustomizationSelection::Toggle(x), CustomizationSelection::Toggle(y)) => x == y,
        _ => false,
    }
}

/// View-level sameness of two selections: same customization id, same value.
pub open spec fn selected_like(a: SelectedCustomization, b: SelectedCustomization) -> bool {
    a.customization_id@ == b.customization_id@ && selection_like(a.selection, b.selection)
}

/// View-level sameness of two selection lists, element by element.
pub open spec fn selections_like(
    a: Seq<SelectedCustomization>,
    b: Seq<SelectedCustomization>,
) -> bool {
    a.len() == b.len() && forall|i: int| 0 <= i < a.len() ==> selected_like(
        #[trigger] a[i],
        b[i],
    )
}

impl SelectedCustomization {
    /// A value-true copy of this selection.
    pub fn duplicate(&self) -> (r: SelectedCustomization)
        ensures
            selected_like(*self, r),
    {
        let selection = match &self.selection {
            CustomizationSelection::Text(s) => CustomizationSelection::Text(s.clone()),
            CustomizationSelection::TextArray(v) => {
                let n = v.len();
                let mut out: Vec<String> = Vec::new();
                let mut k: usize = 0;
                while k < n
                    invariant
                        n == v@.len(),
                        0 <= k <= n,
                        out@.len() == k,
                        forall|i: int| 0 <= i < k ==> (#[trigger] out@[i])@ == v@[i]@,
                    decreases n - k,
                {
                    out.push(v[k].clone());
                    k = k + 1;
                }
                CustomizationSelection::TextArray(out)
            },
            CustomizationSelection::Number(n) => CustomizationSelection::Number(*n),
            CustomizationSelection::Toggle(b) => CustomizationSelection::Toggle(*b),
        };
        SelectedCustomization { customization_id: self.customization_id.clone(), selection }
    }
}

/// A value-true copy of a selection list.
pub fn duplicate_selections(v: &Vec<SelectedCustomization>) -> (r: Vec<SelectedCustomization>)
    ensures
        selections_like(v@, r@),
{
    let n = v.len();
    let mut out: Vec<SelectedCustomization> = Vec::new();
    let mut k: usize = 0;
    while k < n
        invariant
            n == v@.len(),
            0 <= k <= n,
            out@.len() == k,
            forall|i: int| 0 <= i < k ==> selected_like(#[trigger] v@[i], out@[i]),
        decreases n - k,
    {
        out.push(v[k].duplicate());
        k = k + 1;
    }
    out
}

impl CustomizationOption {
    /// Well-formedness: the price adjustment, when present, lies within
    /// [`AMOUNT_LIMIT`], so that document-level sums cannot overflow.
    pub open spec fn wf(self) -> bool {
        match self.price_adjustment {
            Some(p) => -AMOUNT_LIMIT <= p <= AMOUNT_LIMIT,
            None => true,
        }
    }
}

impl Customization {
    /// Well-formedness: the unit price adjustment, when present, lies within
    /// [`AMOUNT_LIMIT`], and every option is well formed.
    pub open spec fn wf(self) -> bool {
        &&& match self.unit_price_adjustment {
            Some(p) => -AMOUNT_LIMIT <= p <= AMOUNT_LIMIT,
            None => true,
        }
        &&& match self.options {
            Some(opts) => forall|j: int| 0 <= j < opts@.len() ==> (#[trigger] opts@[j]).wf(),
            None => true,
        }
    }
}

impl SelectedCustomization {
    /// Well-formedness: a numeric selection lies within [`VALUE_LIMIT`], and
    /// a multi-select id list is no longer than [`LIST_LIMIT`].
    pub open spec fn wf(self) -> bool {
        match self.selection {
            CustomizationSelection::Number(v) => -VALUE_LIMIT <= v <= VALUE_LIMIT,
            CustomizationSelection::TextArray(ids) => ids@.len() <= LIST_LIMIT,
            _ => true,
        }
    }
}

impl Item {
    /// Well-formedness: prices lie within [`AMOUNT_LIMIT`], the quantity
    /// within [`VALUE_LIMIT`], lists within [`LIST_LIMIT`], and every
    /// customization definition and selection is well formed.
    pub open spec fn wf(self) -> bool {
        &&& match self.base_price {
            Some(p) => -AMOUNT_LIMIT <= p <= AMOUNT_LIMIT,
            None => true,
        }
        &&& match self.calculated {
            Some(c) => -AMOUNT_LIMIT <= c.item_price <= AMOUNT_LIMIT,
            None => true,
        }
        &&& match self.quantity {
            Some(q) => q <= VALUE_LIMIT,
            None => true,
        }
        &&& match self.customizations {
            Some(ds) => forall|j: int| 0 <= j < ds@.len() ==> (#[trigger] ds@[j]).wf(),
            None => true,
        }
        &&& match self.selected_customizations {
            Some(ss) => ss@.len() <= LIST_LIMIT && forall|j: int|
                0 <= j < ss@.len() ==> (#[trigger] ss@[j]).wf(),
            None => true,
        }
    }
}

impl OmsDocument {
    /// Well-formedness: the item list is no longer than [`LIST_LIMIT`] and
    /// every item is well formed.
    pub open spec fn wf(self) -> bool {
        &&& self.items@.len() <= LIST_LIMIT
        &&& forall|j: int| 0 <= j < self.items@.len() ==> (#[trigger] self.items@[j]).wf()
    }
}

/// Vendor-specific extensions: opaque payloads keyed by namespace, with
/// last-write-wins upsert semantics; the payloads are never validated.
#[derive(Debug, Clone, PartialEq)]
pub struct Extensions {
    entries: Vec<(String, serde_json::Value)>,
}

impl Extensions {
    /// The namespaces present, in insertion order.
    pub closed spec fn keys(self) -> Seq<Seq<char>> {
        self.entries@.map_values(|e: (String, serde_json::Value)| e.0@)
    }

    /// The (namespace, payload) pairs, in insertion order.
    pub closed spec fn entries(self) -> Seq<(String, serde_json::Value)> {
        self.entries@
    }

    /// Each namespace occurs at most once.
    pub open spec fn wf(self) -> bool {
        forall|i: int, j: int|
            0 <= i < j < self.keys().len() ==> self.keys()[i] != self.keys()[j]
    }

    /// An empty extension map.
    pub fn new() -> (r: Extensions)
        ensures
            r.entries().len() == 0,
            r.wf(),
    {
        let r = Extensions { entries: Vec::new() };
        proof {
            assert(r.keys() =~= Seq::<Seq<char>>::empty());
        }
        r
    }

    /// Insert a payload under a namespace, replacing any payload already
    /// stored under it (last write wins).
    pub fn insert(&mut self, namespace: &str, data: serde_json::Value)
        requires
            old(self).wf(),
        ensures
            final(self).wf(),
            // the namespace now maps to the new payload
            exists|i: int|
                0 <= i < final(self).entries().len()
                    && #[trigger] final(self).entries()[i].0@ == namespace@
                    && final(self).entries()[i].1 == data,
            // every other namespace keeps its payload
            forall|i: int|
                0 <= i < old(self).entries().len() && old(self).entries()[i].0@ != namespace@
                    ==> final(self).entries().contains(#[trigger] old(self).entries()[i]),
            // no namespace appears that was not there before, except the new one
            forall|i: int|
                0 <= i < final(self).entries().len()
                    && #[trigger] final(self).entries()[i].0@ != namespace@
                    ==> old(self).entries().contains(final(self).entries()[i]),
    {
        let n = self.entries.len();
        let mut k: usize = 0;
        while k < n
            invariant
                old(self).wf(),
                n == self.entries@.len(),
                self.entries@ == old(self).entries(),
                0 <= k <= n,
                forall|i: int| 0 <= i < k ==> #[trigger] self.entries@[i].0@ != namespace@,
            decreases n - k,
        {
            if crate::outside::str_eq(self.entries[k].0.as_str(), namespace) {
                self.entries[k].1 = data;
                proof {
                    assert(self.entries()[k as int].0@ == namespace@
                        && self.entries()[k as int].1 == data);
                    assert(self.keys() =~= old(self).keys());
                    assert forall|i: int|
                        0 <= i < old(self).entries().len()
                            && old(self).entries()[i].0@ != namespace@
                        implies self.entries().contains(#[trigger] old(self).entries()[i]) by {
                        assert(self.entries()[i] == old(self).entries()[i]);
                    }
                    assert forall|i: int|
                        0 <= i < self.entries().len()
                            && #[trigger] self.entries()[i].0@ != namespace@
                        implies old(self).entries().contains(self.entries()[i]) by {
                        assert(self.entries()[i] == old(self).entries()[i]);
                    }
                }
                return;
            }
            k = k + 1;
        }
        let pair = (String::from_str(namespace), data);
        self.entries.push(pair);
        proof {
            let m = self.entries().len() - 1;
            assert(self.entries()[m].0@ == namespace@ && self.entries()[m].1 == data);
            assert(forall|i: int|
                0 <= i < m ==> self.keys()[i] == #[trigger] old(self).keys()[i]);
            assert(self.keys()[m] == namespace@);
            assert forall|i: int, j: int|
                0 <= i < j < self.keys().len()
                implies self.keys()[i] != self.keys()[j] by {
                if j == m {
                    assert(self.keys()[i] == old(self).entries()[i].0@);
                    assert(old(self).entries()[i].0@ != namespace@);
                } else {
                    assert(old(self).keys()[i] != old(self).keys()[j]);
                }
            }
            assert forall|i: int|
                0 <= i < old(self).entries().len() && old(self).entries()[i].0@ != namespace@
                implies self.entries().contains(#[trigger] old(self).entries()[i]) by {
                assert(self.entries()[i] == old(self).entries()[i]);
            }
            assert forall|i: int|
                0 <= i < self.entries().len() && #[trigger] self.entries()[i].0@ != namespace@
                implies old(self).entries().contains(self.entries()[i]) by {
                assert(i < m);
                assert(self.entries()[i] == old(self).entries()[i]);
            }
        }
    }

    /// The stored (namespace, payload) pairs, in insertion order.
    pub fn entries_list(&self) -> (r: &Vec<(String, serde_json::Value)>)
        ensures
            r@ == self.entries(),
    {
        &self.entries
    }

    /// Look up the payload stored under a namespace.
    pub fn get(&self, namespace: &str) -> (r: Option<&serde_json::Value>)
        ensures
            match r {
                Some(v) => exists|i: int|
                    0 <= i < self.entries().len()
                        && #[trigger] self.entries()[i].0@ == namespace@
                        && self.entries()[i].1 == *v,
                None => forall|i: int|
                    0 <= i < self.entries().len()
                        ==> #[trigger] self.entries()[i].0@ != namespace@,
            },
    {
        let n = self.entries.len();
        let mut k: usize = 0;
        while k < n
            invariant
                n == self.entries@.len(),
                0 <= k <= n,
                forall|i: int| 0 <= i < k ==> #[trigger] self.entries@[i].0@ != namespace@,
            decreases n - k,
        {
            if crate::outside::str_eq(self.entries[k].0.as_str(), namespace) {
                proof {
                    assert(self.entries()[k as int].0@ == namespace@);
                }
                return Some(&self.entries[k].1);
            }
            k = k + 1;
        }
        None
    }
}

} // verus!
