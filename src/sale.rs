//! One sale: its items and charges, the totals derived from them, and the update
//! logic of the view and edit screens.
//!
//! Money is held in whole cents. Totals are given exactly, in millionths of the
//! currency unit: a tax rate is in basis points, so a line's tax is cents times
//! basis points, which is millionths.
use vstd::prelude::*;
use vstd::string::StringSliceAdditionalSpecFns;
use crate::action::{Action, Effect, FormField};
use crate::parse::{parse_price, parse_quantity, price_of, quantity_of};
use crate::tax::TaxGroup;
use crate::display::{amount_string, decimal_chars, decimal_text, signed_cents_text, string_of};
use vstd::utf8::encode_utf8;

verus! {

/// Whether a sale is shown read-only or in its edit form.
#[derive(Clone, Copy, Debug, PartialEq, Eq, Structural)]
pub enum Mode {
    View,
    Edit,
}

/// The modifier keys held while a key was pressed.
#[derive(Clone, Copy, Debug, PartialEq, Eq, Structural)]
pub struct Modifiers {
    pub shift: bool,
    pub control: bool,
    pub alt: bool,
    pub logo: bool,
}

/// The keys this application reacts to.
#[derive(Clone, Copy, Debug, PartialEq, Eq, Structural)]
pub enum Hotkey {
    Escape,
    Tab(Modifiers),
}

/// One line of a sale. `price` (cents, possibly negative) and `quantity` are `None`
/// until entered.
#[derive(Clone, Debug)]
pub struct SaleItem {
    pub id: usize,
    pub name: String,
    pub price: Option<i64>,
    pub quantity: Option<u32>,
    pub tax_group: TaxGroup,
}

/// Millionths of the currency unit in one cent.
pub const MICROS_PER_CENT: i128 = 10000;

impl SaleItem {
    pub open spec fn is_blank_with_id(self, id: usize) -> bool {
        &&& self.id == id
        &&& self.name@.len() == 0
        &&& self.price.is_none()
        &&& self.quantity.is_none()
        &&& self.tax_group == TaxGroup::Food
    }

    /// An empty row with the given id.
    pub fn blank(id: usize) -> (r: Self)
        ensures
            r.is_blank_with_id(id),
    {
        SaleItem { id, name: String::new(), price: None, quantity: None, tax_group: TaxGroup::Food }
    }

    pub open spec fn price_cents(self) -> int {
        match self.price {
            Some(p) => p as int,
            None => 0,
        }
    }

    pub open spec fn quantity_count(self) -> nat {
        match self.quantity {
            Some(q) => q as nat,
            None => 0,
        }
    }

    /// Price times quantity, in cents.
    pub open spec fn line_cents(self) -> int {
        self.price_cents() * self.quantity_count()
    }

    /// The price in cents, 0 when not entered.
    pub fn price(&self) -> (r: i64)
        ensures
            r as int == self.price_cents(),
    {
        match self.price {
            Some(p) => p,
            None => 0,
        }
    }

    /// The quantity, 0 when not entered.
    pub fn quantity(&self) -> (r: u32)
        ensures
            r as nat == self.quantity_count(),
    {
        match self.quantity {
            Some(q) => q,
            None => 0,
        }
    }

    /// The price as "12.50" or "-0.05", or empty when not entered.
    pub fn price_string(&self) -> (r: String)
        ensures
            r@ == match self.price {
                Some(p) => signed_cents_text(p as int),
                None => Seq::empty(),
            },
    {
        match self.price {
            Some(p) => amount_string(p),
            None => String::new(),
        }
    }

    /// The quantity in decimal, or empty when not entered.
    pub fn quantity_string(&self) -> (r: String)
        ensures
            r@ == match self.quantity {
                Some(q) => decimal_text(q as nat),
                None => Seq::empty(),
            },
    {
        match self.quantity {
            Some(q) => string_of(&decimal_chars(q as u64)),
            None => String::new(),
        }
    }

    fn line(&self) -> (r: i128)
        ensures
            r as int == self.line_cents(),
            -0x8000_0000_0000_0000_0000_0000 <= r <= 0x8000_0000_0000_0000_0000_0000,
    {
        let p = self.price() as i128;
        let q = self.quantity() as i128;
        assert(-0x8000_0000_0000_0000_0000_0000 <= p * q <= 0x8000_0000_0000_0000_0000_0000)
            by (nonlinear_arith)
            requires
                -0x8000_0000_0000_0000 <= p <= 0x8000_0000_0000_0000,
                0 <= q <= 0xffff_ffff,
        {
        }
        p * q
    }
}

/// Σ price × quantity over the items, in cents.
pub open spec fn sum_cents(items: Seq<SaleItem>) -> int
    decreases items.len(),
{
    if items.len() == 0 {
        0
    } else {
        sum_cents(items.drop_last()) + items.last().line_cents()
    }
}

/// Σ price × quantity × rate over the items, in millionths.
pub open spec fn sum_tax(items: Seq<SaleItem>) -> int
    decreases items.len(),
{
    if items.len() == 0 {
        0
    } else {
        sum_tax(items.drop_last()) + items.last().line_cents() * items.last().tax_group.rate_bp()
    }
}

pub open spec fn in_i128(v: int) -> bool {
    i128::MIN <= v <= i128::MAX
}

/// The value as an `i128`, or `None` when it does not fit.
pub open spec fn fitting(v: int) -> Option<i128> {
    if in_i128(v) {
        Some(v as i128)
    } else {
        None
    }
}

/// Every running sum of line amounts, taken in item order, fits in an `i128`.
pub open spec fn cents_sums_fit(items: Seq<SaleItem>) -> bool {
    forall|i: int| 0 <= i <= items.len() ==> in_i128(#[trigger] sum_cents(items.take(i)))
}

/// Every running sum of line taxes, taken in item order, fits in an `i128`.
pub open spec fn tax_sums_fit(items: Seq<SaleItem>) -> bool {
    forall|i: int| 0 <= i <= items.len() ==> in_i128(#[trigger] sum_tax(items.take(i)))
}

/// `a + b + c + d`, added left to right, when every partial sum fits in an `i128`.
pub open spec fn add_four(a: int, b: int, c: int, d: int) -> Option<i128> {
    if in_i128(a + b) && in_i128(a + b + c) && in_i128(a + b + c + d) {
        Some((a + b + c + d) as i128)
    } else {
        None
    }
}

/// A sale: its items in entry order, its charges and its name.
/// `service_charge_percent` is in hundredths of a percent (1000 is 10%),
/// `gratuity_amount` in cents.
#[derive(Clone, Debug)]
pub struct Sale {
    pub items: Vec<SaleItem>,
    pub service_charge_percent: Option<i64>,
    pub gratuity_amount: Option<i64>,
    pub name: String,
}

impl Sale {
    pub open spec fn is_blank(self) -> bool {
        &&& self.items@.len() == 0
        &&& self.service_charge_percent.is_none()
        &&& self.gratuity_amount.is_none()
        &&& self.name@.len() == 0
    }

    /// A sale with no items, no charges and no name.
    pub fn new() -> (r: Self)
        ensures
            r.is_blank(),
    {
        Sale { items: Vec::new(), service_charge_percent: None, gratuity_amount: None, name: String::new() }
    }

    /// Subtotal in millionths: Σ price × quantity.
    pub open spec fn subtotal(self) -> int {
        sum_cents(self.items@) * 10000
    }

    /// Tax in millionths: Σ price × quantity × rate.
    pub open spec fn tax(self) -> int {
        sum_tax(self.items@)
    }

    /// Service charge in millionths: subtotal × percent / 100, or 0 when unset.
    pub open spec fn service_charge(self) -> int {
        match self.service_charge_percent {
            Some(p) => sum_cents(self.items@) * p as int,
            None => 0,
        }
    }

    /// Gratuity in millionths, 0 when unset.
    pub open spec fn gratuity(self) -> int {
        match self.gratuity_amount {
            Some(g) => g as int * 10000,
            None => 0,
        }
    }

    pub open spec fn total(self) -> int {
        self.subtotal() + self.tax() + self.service_charge() + self.gratuity()
    }

    /// What `calculate_subtotal` gives: the subtotal, `None` when it or a running
    /// sum of line amounts leaves `i128`.
    pub open spec fn subtotal_result(self) -> Option<i128> {
        if cents_sums_fit(self.items@) {
            fitting(self.subtotal())
        } else {
            None
        }
    }

    /// What `calculate_tax` gives: the tax, `None` when a running sum leaves `i128`.
    pub open spec fn tax_result(self) -> Option<i128> {
        if tax_sums_fit(self.items@) {
            fitting(self.tax())
        } else {
            None
        }
    }

    /// What `calculate_service_charge` gives: 0 when no percent is set, else the
    /// charge, `None` when it or a running sum of line amounts leaves `i128`.
    pub open spec fn service_charge_result(self) -> Option<i128> {
        match self.service_charge_percent {
            None => Some(0),
            Some(_) => if cents_sums_fit(self.items@) {
                fitting(self.service_charge())
            } else {
                None
            },
        }
    }

    /// What `calculate_total` gives: the four parts added in order, `None` when a
    /// part or a partial sum leaves `i128`.
    pub open spec fn total_result(self) -> Option<i128> {
        match (self.subtotal_result(), self.tax_result(), self.service_charge_result()) {
            (Some(a), Some(b), Some(c)) => add_four(a as int, b as int, c as int, self.gratuity()),
            _ => None,
        }
    }

    fn cents_sum(&self) -> (r: Option<i128>)
        ensures
            r == (if cents_sums_fit(self.items@) {
                Some(sum_cents(self.items@) as i128)
            } else {
                None
            }),
            cents_sums_fit(self.items@) ==> in_i128(sum_cents(self.items@)),
    {
        proof {
            let n = self.items@.len() as int;
            assert(self.items@.take(n) =~= self.items@);
            if cents_sums_fit(self.items@) {
                assert(in_i128(sum_cents(self.items@.take(n))));
            }
        }
        let mut acc: i128 = 0;
        let mut i: usize = 0;
        assert(self.items@.take(0) =~= Seq::<SaleItem>::empty());
        while i < self.items.len()
            invariant
                i <= self.items@.len(),
                acc as int == sum_cents(self.items@.take(i as int)),
                forall|j: int| 0 <= j <= i ==> in_i128(#[trigger] sum_cents(self.items@.take(j))),
            decreases self.items@.len() - i,
        {
            let line = self.items[i].line();
            proof {
                assert(self.items@.take(i + 1).drop_last() =~= self.items@.take(i as int));
            }
            match acc.checked_add(line) {
                Some(v) => acc = v,
                None => {
                    assert(!in_i128(sum_cents(self.items@.take(i + 1))));
                    return None;
                },
            }
            i += 1;
        }
        assert(self.items@.take(i as int) =~= self.items@);
        Some(acc)
    }

    fn tax_sum(&self) -> (r: Option<i128>)
        ensures
            r == self.tax_result(),
    {
        let mut acc: i128 = 0;
        let mut i: usize = 0;
        assert(self.items@.take(0) =~= Seq::<SaleItem>::empty());
        while i < self.items.len()
            invariant
                i <= self.items@.len(),
                acc as int == sum_tax(self.items@.take(i as int)),
                forall|j: int| 0 <= j <= i ==> in_i128(#[trigger] sum_tax(self.items@.take(j))),
            decreases self.items@.len() - i,
        {
            let item = &self.items[i];
            let line = item.line();
            let rate = item.tax_group.tax_rate() as i128;
            assert(-0x8000_0000_0000_0000_0000_0000_0000 <= line * rate
                <= 0x8000_0000_0000_0000_0000_0000_0000) by (nonlinear_arith)
                requires
                    -0x8000_0000_0000_0000_0000_0000 <= line <= 0x8000_0000_0000_0000_0000_0000,
                    0 <= rate <= 10000,
            {
            }
            let t = line * rate;
            proof {
                assert(self.items@.take(i + 1).drop_last() =~= self.items@.take(i as int));
            }
            match acc.checked_add(t) {
                Some(v) => acc = v,
                None => {
                    assert(!in_i128(sum_tax(self.items@.take(i + 1))));
                    return None;
                },
            }
            i += 1;
        }
        assert(self.items@.take(i as int) =~= self.items@);
        Some(acc)
    }

    /// The subtotal in millionths.
    pub fn calculate_subtotal(&self) -> (r: Option<i128>)
        ensures
            r == self.subtotal_result(),
    {
        match self.cents_sum() {
            Some(c) => c.checked_mul(MICROS_PER_CENT),
            None => None,
        }
    }

    /// The tax in millionths.
    pub fn calculate_tax(&self) -> (r: Option<i128>)
        ensures
            r == self.tax_result(),
    {
        self.tax_sum()
    }

    /// The service charge in millionths.
    pub fn calculate_service_charge(&self) -> (r: Option<i128>)
        ensures
            r == self.service_charge_result(),
    {
        match self.service_charge_percent {
            None => Some(0),
            Some(p) => match self.cents_sum() {
                Some(c) => c.checked_mul(p as i128),
                None => None,
            },
        }
    }

    fn gratuity_micros(&self) -> (r: i128)
        ensures
            r as int == self.gratuity(),
    {
        match self.gratuity_amount {
            Some(g) => g as i128 * MICROS_PER_CENT,
            None => 0,
        }
    }

    /// The total in millionths: subtotal, tax, service charge and gratuity added in
    /// that order.
    pub fn calculate_total(&self) -> (r: Option<i128>)
        ensures
            r == self.total_result(),
    {
        let subtotal = self.calculate_subtotal();
        let tax = self.calculate_tax();
        let service_charge = self.calculate_service_charge();
        let gratuity = self.gratuity_micros();
        match (subtotal, tax, service_charge) {
            (Some(a), Some(b), Some(c)) => match a.checked_add(b) {
                Some(ab) => match ab.checked_add(c) {
                    Some(abc) => abc.checked_add(gratuity),
                    None => None,
                },
                None => None,
            },
            _ => None,
        }
    }
}

impl Default for Sale {
    fn default() -> (r: Self)
        ensures
            r.is_blank(),
    {
        Sale::new()
    }
}

/// Messages of the read-only view.
#[derive(Clone, Debug)]
pub enum ShowMessage {
    Back,
    StartEdit,
}

/// A new value for one field of an item, as entered.
#[derive(Clone, Debug)]
pub enum Field {
    Name(String),
    Price(String),
    Quantity(String),
    TaxGroup(TaxGroup),
}

/// Messages of the edit form. The service charge (a percent) and the gratuity are
/// entered as text, read like a price; unreadable text leaves them unset.
#[derive(Clone, Debug)]
pub enum EditMessage {
    Cancel,
    Save,
    NameInput(String),
    NameSubmit,
    AddItem,
    RemoveItem(usize),
    UpdateItem(usize, Field),
    SubmitItem(usize),
    UpdateServiceCharge(String),
    UpdateGratuity(String),
}

#[derive(Clone, Debug)]
pub enum Message {
    Show(ShowMessage),
    Edit(EditMessage),
}

/// A request that only the owner of the screens can carry out.
#[derive(Clone, Copy, Debug, PartialEq, Eq, Structural)]
pub enum Instruction {
    Back,
    Save,
    StartEdit,
    Cancel,
}

/// Every item id is below `bound`.
pub open spec fn ids_below(items: Seq<SaleItem>, bound: nat) -> bool {
    forall|i: int| 0 <= i < items.len() ==> (#[trigger] items[i]).id < bound
}

/// No two items share an id.
pub open spec fn ids_distinct(items: Seq<SaleItem>) -> bool {
    forall|i: int, j: int|
        0 <= i < items.len() && 0 <= j < items.len() && i != j ==> (#[trigger] items[i]).id
            != (#[trigger] items[j]).id
}

/// Item ids are distinct and below the next id to be handed out.
pub open spec fn items_wf(items: Seq<SaleItem>, bound: nat) -> bool {
    ids_below(items, bound) && ids_distinct(items)
}

pub open spec fn has_id(items: Seq<SaleItem>, id: usize) -> bool {
    exists|j: int| 0 <= j < items.len() && (#[trigger] items[j]).id == id
}

pub open spec fn is_first_with_id(items: Seq<SaleItem>, id: usize, i: int) -> bool {
    &&& 0 <= i < items.len()
    &&& items[i].id == id
    &&& forall|j: int| 0 <= j < i ==> (#[trigger] items[j]).id != id
}

/// The index of the first item with the given id.
pub open spec fn position(items: Seq<SaleItem>, id: usize) -> Option<int> {
    if exists|i: int| is_first_with_id(items, id, i) {
        Some(choose|i: int| is_first_with_id(items, id, i))
    } else {
        None
    }
}

/// The items without those that have the given id, in order.
pub open spec fn without_id(items: Seq<SaleItem>, id: usize) -> Seq<SaleItem>
    decreases items.len(),
{
    if items.len() == 0 {
        items
    } else if items.last().id == id {
        without_id(items.drop_last(), id)
    } else {
        without_id(items.drop_last(), id).push(items.last())
    }
}

/// A field value read from text: an empty or unreadable entry leaves it unset.
pub open spec fn with_field(item: SaleItem, f: Field) -> SaleItem {
    match f {
        Field::Name(n) => SaleItem { name: n, ..item },
        Field::Price(t) => SaleItem { price: price_of(encode_utf8(t@)), ..item },
        Field::Quantity(t) => SaleItem { quantity: quantity_of(encode_utf8(t@)), ..item },
        Field::TaxGroup(g) => SaleItem { tax_group: g, ..item },
    }
}

/// The field that should take focus when a row is submitted, or `None` when all
/// three are filled in and a new row is due.
pub open spec fn target_of(item: SaleItem) -> Option<FormField> {
    if item.name@.len() == 0 {
        Some(FormField::Name)
    } else if item.quantity.is_none() {
        Some(FormField::Quantity)
    } else if item.price.is_none() {
        Some(FormField::Price)
    } else {
        None
    }
}

/// Which field of a submitted row is to be focused next: the name while it is
/// empty, then the quantity, then the price; `None` once all three are set.
pub fn next_target(item: &SaleItem) -> (r: Option<FormField>)
    ensures
        r == target_of(*item),
{
    if item.name.as_str().is_empty() {
        Some(FormField::Name)
    } else if item.quantity.is_none() {
        Some(FormField::Quantity)
    } else if item.price.is_none() {
        Some(FormField::Price)
    } else {
        None
    }
}

fn find_item(items: &Vec<SaleItem>, id: usize) -> (r: Option<usize>)
    ensures
        match r {
            Some(i) => position(items@, id) == Some(i as int),
            None => position(items@, id).is_none(),
        },
{
    let mut i: usize = 0;
    while i < items.len()
        invariant
            i <= items@.len(),
            forall|j: int| 0 <= j < i ==> (#[trigger] items@[j]).id != id,
        decreases items@.len() - i,
    {
        if items[i].id == id {
            proof {
                assert(is_first_with_id(items@, id, i as int));
                let c = choose|c: int| is_first_with_id(items@, id, c);
                assert(c == i);
            }
            return Some(i);
        }
        i += 1;
    }
    assert(!exists|c: int| is_first_with_id(items@, id, c));
    None
}

proof fn lemma_without_id_remove(s: Seq<SaleItem>, id: usize, i: int)
    requires
        0 <= i < s.len(),
        s[i].id == id,
    ensures
        without_id(s.remove(i), id) == without_id(s, id),
    decreases s.len(),
{
    if i == s.len() - 1 {
        assert(s.remove(i) =~= s.drop_last());
    } else {
        lemma_without_id_remove(s.drop_last(), id, i);
        assert(s.remove(i).drop_last() =~= s.drop_last().remove(i));
        assert(s.remove(i).last() == s.last());
    }
}

proof fn lemma_without_absent(s: Seq<SaleItem>, id: usize)
    requires
        forall|j: int| 0 <= j < s.len() ==> (#[trigger] s[j]).id != id,
    ensures
        without_id(s, id) == s,
    decreases s.len(),
{
    if s.len() > 0 {
        lemma_without_absent(s.drop_last(), id);
        assert(s.drop_last().push(s.last()) =~= s);
    }
}

proof fn lemma_without_id_subset(s: Seq<SaleItem>, id: usize, bound: nat)
    requires
        ids_below(s, bound),
    ensures
        ids_below(without_id(s, id), bound),
    decreases s.len(),
{
    if s.len() > 0 {
        lemma_without_id_subset(s.drop_last(), id, bound);
    }
}

proof fn lemma_without_id_distinct(s: Seq<SaleItem>, id: usize)
    requires
        ids_distinct(s),
    ensures
        ids_distinct(without_id(s, id)),
        forall|i: int| 0 <= i < without_id(s, id).len() ==> has_id(s, (#[trigger] without_id(s, id)[i]).id),
    decreases s.len(),
{
    if s.len() > 0 {
        let d = s.drop_last();
        assert(ids_distinct(d)) by {
            assert forall|i: int, j: int|
                0 <= i < d.len() && 0 <= j < d.len() && i != j implies (#[trigger] d[i]).id
                    != (#[trigger] d[j]).id by {
                assert(d[i] == s[i] && d[j] == s[j]);
            }
        }
        lemma_without_id_distinct(d, id);
        let w0 = without_id(d, id);
        let w = without_id(s, id);
        assert forall|i: int| 0 <= i < w0.len() implies has_id(s, (#[trigger] w0[i]).id) by {
            assert(has_id(d, w0[i].id));
            let j = choose|j: int| 0 <= j < d.len() && (#[trigger] d[j]).id == w0[i].id;
            assert(s[j] == d[j]);
        }
        if s.last().id != id {
            assert(w == w0.push(s.last()));
            assert forall|i: int| 0 <= i < w0.len() implies (#[trigger] w0[i]).id != s.last().id by {
                assert(has_id(d, w0[i].id));
                let j = choose|j: int| 0 <= j < d.len() && (#[trigger] d[j]).id == w0[i].id;
                assert(s[j] == d[j]);
                assert(s[j].id != s[s.len() - 1].id);
            }
            assert forall|i: int, j: int|
                0 <= i < w.len() && 0 <= j < w.len() && i != j implies (#[trigger] w[i]).id
                    != (#[trigger] w[j]).id by {
                if i < w0.len() && j < w0.len() {
                    assert(w[i] == w0[i] && w[j] == w0[j]);
                } else if i < w0.len() {
                    assert(w[i] == w0[i]);
                } else {
                    assert(w[j] == w0[j]);
                }
            }
            assert forall|i: int| 0 <= i < w.len() implies has_id(s, (#[trigger] w[i]).id) by {
                if i < w0.len() {
                    assert(w[i] == w0[i]);
                } else {
                    assert(s[s.len() - 1] == w[i]);
                }
            }
        }
    }
}

fn remove_items_with_id(items: &mut Vec<SaleItem>, id: usize)
    ensures
        final(items)@ == without_id(old(items)@, id),
{
    let mut i: usize = 0;
    while i < items.len()
        invariant
            i <= items@.len(),
            without_id(items@, id) == without_id(old(items)@, id),
            forall|j: int| 0 <= j < i ==> (#[trigger] items@[j]).id != id,
        decreases items@.len() - i,
    {
        if items[i].id == id {
            proof {
                lemma_without_id_remove(items@, id, i as int);
            }
            items.remove(i);
        } else {
            i += 1;
        }
    }
    proof {
        lemma_without_absent(items@, id);
    }
}

fn apply_field(item: SaleItem, f: Field) -> (r: SaleItem)
    ensures
        r == with_field(item, f),
{
    let mut item = item;
    match f {
        Field::Name(n) => item.name = n,
        Field::Price(t) => item.price = parse_price(t.as_str()),
        Field::Quantity(t) => item.quantity = parse_quantity(t.as_str()),
        Field::TaxGroup(g) => item.tax_group = g,
    }
    item
}

/// `after` is `before` with one blank item of the given id appended.
pub open spec fn appended_blank(before: Seq<SaleItem>, after: Seq<SaleItem>, id: usize) -> bool {
    &&& after.len() == before.len() + 1
    &&& after.drop_last() == before
    &&& after.last().is_blank_with_id(id)
}

/// Name and charges are the same in both sales.
pub open spec fn same_header(a: Sale, b: Sale) -> bool {
    &&& a.name == b.name
    &&& a.service_charge_percent == b.service_charge_percent
    &&& a.gratuity_amount == b.gratuity_amount
}

/// The instruction a message carries, if any.
pub open spec fn message_instruction(m: Message) -> Option<Instruction> {
    match m {
        Message::Show(ShowMessage::Back) => Some(Instruction::Back),
        Message::Show(ShowMessage::StartEdit) => Some(Instruction::StartEdit),
        Message::Edit(EditMessage::Cancel) => Some(Instruction::Cancel),
        Message::Edit(EditMessage::Save) => Some(Instruction::Save),
        _ => None,
    }
}

/// The deferred effect a message asks for on sale `s0`, when `n0` is the next free
/// item id.
pub open spec fn message_effect(s0: Sale, n0: usize, m: Message) -> Option<Effect> {
    match m {
        Message::Show(ShowMessage::StartEdit) => Some(Effect::FocusNext),
        Message::Edit(EditMessage::NameSubmit) => Some(Effect::FocusNext),
        Message::Edit(EditMessage::SubmitItem(id)) => match position(s0.items@, id) {
            None => None,
            Some(i) => match target_of(s0.items@[i]) {
                Some(field) => Some(Effect::Focus(field, id)),
                None => Some(Effect::Focus(FormField::Name, n0)),
            },
        },
        _ => None,
    }
}

/// The message may append a new item, which takes a fresh id.
pub open spec fn adds_item(m: Message) -> bool {
    match m {
        Message::Edit(EditMessage::AddItem) => true,
        Message::Edit(EditMessage::NameSubmit) => true,
        Message::Edit(EditMessage::SubmitItem(_)) => true,
        _ => false,
    }
}

/// Whether a message may append a new item.
pub fn may_add_item(m: &Message) -> (r: bool)
    ensures
        r == adds_item(*m),
{
    match m {
        Message::Edit(EditMessage::AddItem) => true,
        Message::Edit(EditMessage::NameSubmit) => true,
        Message::Edit(EditMessage::SubmitItem(_)) => true,
        _ => false,
    }
}

/// What `update` does: `s0`, `n0` before and `s1`, `n1` after (the sale and the
/// next free item id), `r` the action handed back.
pub open spec fn update_post(
    s0: Sale,
    s1: Sale,
    n0: usize,
    n1: usize,
    m: Message,
    r: Action<Instruction>,
) -> bool {
    match m {
        Message::Show(ShowMessage::Back) => s1 == s0 && n1 == n0 && r.instruction == Some(
            Instruction::Back,
        ) && r.effect.is_none(),
        Message::Show(ShowMessage::StartEdit) => s1 == s0 && n1 == n0 && r.instruction == Some(
            Instruction::StartEdit,
        ) && r.effect == Some(Effect::FocusNext),
        Message::Edit(EditMessage::Cancel) => s1 == s0 && n1 == n0 && r.instruction == Some(
            Instruction::Cancel,
        ) && r.effect.is_none(),
        Message::Edit(EditMessage::Save) => s1 == s0 && n1 == n0 && r.instruction == Some(
            Instruction::Save,
        ) && r.effect.is_none(),
        Message::Edit(EditMessage::NameInput(name)) => s1 == (Sale { name, ..s0 }) && n1 == n0
            && r.instruction.is_none() && r.effect.is_none(),
        Message::Edit(EditMessage::NameSubmit) => r.instruction.is_none() && r.effect == Some(
            Effect::FocusNext,
        ) && if s0.items@.len() == 0 {
            same_header(s0, s1) && appended_blank(s0.items@, s1.items@, n0) && n1 == n0 + 1
        } else {
            s1 == s0 && n1 == n0
        },
        Message::Edit(EditMessage::AddItem) => same_header(s0, s1) && appended_blank(
            s0.items@,
            s1.items@,
            n0,
        ) && n1 == n0 + 1 && r.instruction.is_none() && r.effect.is_none(),
        Message::Edit(EditMessage::RemoveItem(id)) => same_header(s0, s1) && s1.items@
            == without_id(s0.items@, id) && n1 == n0 && r.instruction.is_none()
            && r.effect.is_none(),
        Message::Edit(EditMessage::UpdateItem(id, f)) => same_header(s0, s1) && n1 == n0
            && r.instruction.is_none() && r.effect.is_none() && match position(s0.items@, id) {
            Some(i) => s1.items@ == s0.items@.update(i, with_field(s0.items@[i], f)),
            None => s1.items@ == s0.items@,
        },
        Message::Edit(EditMessage::SubmitItem(id)) => r.instruction.is_none() && match position(
            s0.items@,
            id,
        ) {
            None => s1 == s0 && n1 == n0 && r.effect.is_none(),
            Some(i) => match target_of(s0.items@[i]) {
                Some(field) => s1 == s0 && n1 == n0 && r.effect == Some(Effect::Focus(field, id)),
                None => same_header(s0, s1) && appended_blank(s0.items@, s1.items@, n0) && n1
                    == n0 + 1 && r.effect == Some(Effect::Focus(FormField::Name, n0)),
            },
        },
        Message::Edit(EditMessage::UpdateServiceCharge(t)) => s1 == (Sale {
            service_charge_percent: price_of(encode_utf8(t@)),
            ..s0
        }) && n1 == n0 && r.instruction.is_none() && r.effect.is_none(),
        Message::Edit(EditMessage::UpdateGratuity(t)) => s1 == (Sale {
            gratuity_amount: price_of(encode_utf8(t@)),
            ..s0
        }) && n1 == n0 && r.instruction.is_none() && r.effect.is_none(),
    }
}

fn push_blank(sale: &mut Sale, next_item_id: &mut usize)
    requires
        items_wf(old(sale).items@, *old(next_item_id) as nat),
        *old(next_item_id) < usize::MAX,
    ensures
        same_header(*old(sale), *final(sale)),
        appended_blank(old(sale).items@, final(sale).items@, *old(next_item_id)),
        *final(next_item_id) == *old(next_item_id) + 1,
        items_wf(final(sale).items@, *final(next_item_id) as nat),
{
    let id = *next_item_id;
    sale.items.push(SaleItem::blank(id));
    *next_item_id = id + 1;
    assert(final(sale).items@.drop_last() =~= old(sale).items@);
}

/// Applies a message of the view or edit screen to the sale. New items take their
/// ids from `next_item_id`, which then moves on, so item ids stay unique.
pub fn update(sale: &mut Sale, message: Message, next_item_id: &mut usize) -> (r: Action<
    Instruction,
>)
    requires
        items_wf(old(sale).items@, *old(next_item_id) as nat),
        adds_item(message) ==> *old(next_item_id) < usize::MAX,
    ensures
        update_post(*old(sale), *final(sale), *old(next_item_id), *final(next_item_id), message, r),
        r.instruction == message_instruction(message),
        r.effect == message_effect(*old(sale), *old(next_item_id), message),
        *final(next_item_id) >= *old(next_item_id),
        items_wf(final(sale).items@, *final(next_item_id) as nat),
{
    match message {
        Message::Show(msg) => match msg {
            ShowMessage::Back => Action::instruction(Instruction::Back),
            ShowMessage::StartEdit => Action::instruction(Instruction::StartEdit).with_effect(
                Effect::FocusNext,
            ),
        },
        Message::Edit(msg) => match msg {
            EditMessage::Cancel => Action::instruction(Instruction::Cancel),
            EditMessage::Save => Action::instruction(Instruction::Save),
            EditMessage::NameInput(name) => {
                sale.name = name;
                Action::none()
            },
            EditMessage::NameSubmit => {
                if sale.items.is_empty() {
                    push_blank(sale, next_item_id);
                }
                Action::effect(Effect::FocusNext)
            },
            EditMessage::AddItem => {
                push_blank(sale, next_item_id);
                Action::none()
            },
            EditMessage::RemoveItem(id) => {
                remove_items_with_id(&mut sale.items, id);
                proof {
                    lemma_without_id_subset(old(sale).items@, id, *old(next_item_id) as nat);
                    lemma_without_id_distinct(old(sale).items@, id);
                }
                Action::none()
            },
            EditMessage::UpdateItem(id, update) => {
                match find_item(&sale.items, id) {
                    Some(i) => {
                        let item = sale.items.remove(i);
                        let item = apply_field(item, update);
                        sale.items.insert(i, item);
                        assert(sale.items@ =~= old(sale).items@.update(
                            i as int,
                            with_field(old(sale).items@[i as int], update),
                        ));
                        assert forall|k: int| 0 <= k < sale.items@.len() implies (
                        #[trigger] sale.items@[k]).id == old(sale).items@[k].id by {}
                    },
                    None => {},
                }
                Action::none()
            },
            EditMessage::SubmitItem(id) => {
                match find_item(&sale.items, id) {
                    Some(i) => {
                        match next_target(&sale.items[i]) {
                            Some(field) => Action::effect(Effect::Focus(field, id)),
                            None => {
                                let new_id = *next_item_id;
                                push_blank(sale, next_item_id);
                                Action::effect(Effect::Focus(FormField::Name, new_id))
                            },
                        }
                    },
                    None => Action::none(),
                }
            },
            EditMessage::UpdateServiceCharge(text) => {
                sale.service_charge_percent = parse_price(text.as_str());
                Action::none()
            },
            EditMessage::UpdateGratuity(text) => {
                sale.gratuity_amount = parse_price(text.as_str());
                Action::none()
            },
        },
    }
}

/// What a hotkey does on a sale screen: Escape asks to leave the screen (Cancel
/// while editing, Back while viewing); Tab moves focus, backwards while a modifier is held.
pub open spec fn hotkey_action(mode: Mode, hotkey: Hotkey) -> Action<Instruction> {
    match hotkey {
        Hotkey::Escape => match mode {
            Mode::View => Action { instruction: Some(Instruction::Back), effect: None },
            Mode::Edit => Action { instruction: Some(Instruction::Cancel), effect: None },
        },
        Hotkey::Tab(m) => Action {
            instruction: None,
            effect: Some(if m.any() { Effect::FocusPrevious } else { Effect::FocusNext }),
        },
    }
}

impl Modifiers {
    /// Some modifier key is held.
    pub open spec fn any(self) -> bool {
        self.shift || self.control || self.alt || self.logo
    }
}

/// Interprets a hotkey on a sale screen in the given mode.
pub fn handle_hotkey(_sale: &Sale, mode: Mode, hotkey: Hotkey) -> (r: Action<Instruction>)
    ensures
        r == hotkey_action(mode, hotkey),
{
    match hotkey {
        Hotkey::Escape => match mode {
            Mode::View => Action::instruction(Instruction::Back),
            Mode::Edit => Action::instruction(Instruction::Cancel),
        },
        Hotkey::Tab(m) => {
            if m.shift || m.control || m.alt || m.logo {
                Action::effect(Effect::FocusPrevious)
            } else {
                Action::effect(Effect::FocusNext)
            }
        },
    }
}

/// The total of a sale is the sum of its subtotal, tax, service charge and
/// gratuity, exactly.
pub proof fn total_decomposes(sale: Sale)
    ensures
        sale.total() == sale.subtotal() + sale.tax() + sale.service_charge() + sale.gratuity(),
        sale.total_result() is Some ==> sale.subtotal_result() is Some && sale.tax_result() is Some
            && sale.service_charge_result() is Some && sale.total_result()->0 as int
            == sale.subtotal_result()->0 + sale.tax_result()->0
            + sale.service_charge_result()->0 + sale.gratuity(),
        sale.total_result() is Some ==> sale.total_result()->0 as int == sale.total(),
{
}

} // verus!
