//! The application state around the ledger: the selected tab, the chosen
//! date, the entry forms, and what happens when a form is submitted.

use vstd::prelude::*;

use crate::ledger::{
    add_item_accepted, apply_add_item, apply_movement, delta_of, movement_allowed, Date, Ledger,
    LedgerModel, MovementError, TransactionKind, ValidationError,
};
use crate::text::parse_or_zero_spec;

verus! {

/// The tab the window is showing.
#[derive(Clone, Copy, PartialEq, Eq, Structural, Debug)]
pub enum Tab {
    Inventory,
    AddItem,
    Warehousing,
    Shipping,
}

/// The "add item" entry form: five text fields and the status line of the
/// most recent attempt.
pub struct AddItemForm {
    pub name: String,
    pub sku: String,
    pub unit: String,
    pub location: String,
    pub quantity_text: String,
    pub status: String,
}

/// A movement entry form (one for warehousing, one for shipping): the
/// selected item, the quantity and note fields, and the status line.
pub struct MovementForm {
    pub item_index: usize,
    pub quantity_text: String,
    pub note: String,
    pub status: String,
}

#[verifier::ext_equal]
pub struct AddItemFormModel {
    pub name: Seq<char>,
    pub sku: Seq<char>,
    pub unit: Seq<char>,
    pub location: Seq<char>,
    pub quantity_text: Seq<char>,
    pub status: Seq<char>,
}

#[verifier::ext_equal]
pub struct MovementFormModel {
    pub item_index: usize,
    pub quantity_text: Seq<char>,
    pub note: Seq<char>,
    pub status: Seq<char>,
}

#[verifier::ext_equal]
pub struct MyAppModel {
    pub ledger: LedgerModel,
    pub selected_tab: Tab,
    pub selected_year: i32,
    pub selected_month: u32,
    pub selected_day: u32,
    pub add_item_form: AddItemFormModel,
    pub warehousing_form: MovementFormModel,
    pub shipping_form: MovementFormModel,
    pub inventory_filter: Seq<char>,
}

impl View for AddItemForm {
    type V = AddItemFormModel;

    open spec fn view(&self) -> AddItemFormModel {
        AddItemFormModel {
            name: self.name@,
            sku: self.sku@,
            unit: self.unit@,
            location: self.location@,
            quantity_text: self.quantity_text@,
            status: self.status@,
        }
    }
}

impl View for MovementForm {
    type V = MovementFormModel;

    open spec fn view(&self) -> MovementFormModel {
        MovementFormModel {
            item_index: self.item_index,
            quantity_text: self.quantity_text@,
            note: self.note@,
            status: self.status@,
        }
    }
}

/// The whole in-memory application state: the ledger plus presentation
/// state.  All of it lives for the process lifetime only.
pub struct MyApp {
    pub ledger: Ledger,
    pub selected_tab: Tab,
    pub selected_year: i32,
    pub selected_month: u32,
    pub selected_day: u32,
    pub add_item_form: AddItemForm,
    pub warehousing_form: MovementForm,
    pub shipping_form: MovementForm,
    pub inventory_filter: String,
}

impl View for MyApp {
    type V = MyAppModel;

    open spec fn view(&self) -> MyAppModel {
        MyAppModel {
            ledger: self.ledger@,
            selected_tab: self.selected_tab,
            selected_year: self.selected_year,
            selected_month: self.selected_month,
            selected_day: self.selected_day,
            add_item_form: self.add_item_form@,
            warehousing_form: self.warehousing_form@,
            shipping_form: self.shipping_form@,
            inventory_filter: self.inventory_filter@,
        }
    }
}

/// A minimal stand-in for a date source; the user changes the date freely
/// through the date picker anyway.
pub fn current_local_ymd() -> (r: (i32, u32, u32))
    ensures
        r == (2025i32, 1u32, 1u32),
{
    (2025, 1, 1)
}

impl Default for AddItemForm {
    fn default() -> (r: AddItemForm)
        ensures
            r@ =~= empty_add_item_form(),
    {
        AddItemForm {
            name: String::new(),
            sku: String::new(),
            unit: String::new(),
            location: String::new(),
            quantity_text: String::new(),
            status: String::new(),
        }
    }
}

impl Default for MovementForm {
    fn default() -> (r: MovementForm)
        ensures
            r@ =~= empty_movement_form(),
    {
        MovementForm {
            item_index: 0,
            quantity_text: String::new(),
            note: String::new(),
            status: String::new(),
        }
    }
}

pub open spec fn empty_add_item_form() -> AddItemFormModel {
    AddItemFormModel {
        name: Seq::<char>::empty(),
        sku: Seq::<char>::empty(),
        unit: Seq::<char>::empty(),
        location: Seq::<char>::empty(),
        quantity_text: Seq::<char>::empty(),
        status: Seq::<char>::empty(),
    }
}

pub open spec fn empty_movement_form() -> MovementFormModel {
    MovementFormModel {
        item_index: 0,
        quantity_text: Seq::<char>::empty(),
        note: Seq::<char>::empty(),
        status: Seq::<char>::empty(),
    }
}

/// The state the window opens with: an empty ledger, the inventory tab, and
/// the stand-in date.
pub open spec fn initial_app_model() -> MyAppModel {
    MyAppModel {
        ledger: LedgerModel {
            items: Seq::empty(),
            transactions: Seq::empty(),
            next_item_id: 1,
        },
        selected_tab: Tab::Inventory,
        selected_year: 2025,
        selected_month: 1,
        selected_day: 1,
        add_item_form: empty_add_item_form(),
        warehousing_form: empty_movement_form(),
        shipping_form: empty_movement_form(),
        inventory_filter: Seq::<char>::empty(),
    }
}

impl Default for MyApp {
    fn default() -> (r: MyApp)
        ensures
            r.wf(),
            r@ =~= initial_app_model(),
    {
        let (year, month, day) = current_local_ymd();
        MyApp {
            ledger: Ledger::new(),
            selected_tab: Tab::Inventory,
            selected_year: year,
            selected_month: month,
            selected_day: day,
            add_item_form: AddItemForm::default(),
            warehousing_form: MovementForm::default(),
            shipping_form: MovementForm::default(),
            inventory_filter: String::new(),
        }
    }
}

/// The date the user has picked, as a plain value.
pub open spec fn app_date(m: MyAppModel) -> Date {
    Date { year: m.selected_year, month: m.selected_month, day: m.selected_day }
}

pub open spec fn movement_kind(is_warehousing: bool) -> TransactionKind {
    if is_warehousing {
        TransactionKind::Receipt
    } else {
        TransactionKind::Shipment
    }
}

/// The state of the "add item" form and the ledger after the Add Item button:
/// either the rejection status with everything else unchanged, or the new
/// item committed and the form cleared.
pub open spec fn apply_submit_add_item(m: MyAppModel) -> MyAppModel {
    if !add_item_accepted(m.add_item_form.name, m.add_item_form.sku) {
        MyAppModel {
            add_item_form: AddItemFormModel {
                status: "Name and SKU are required"@,
                ..m.add_item_form
            },
            ..m
        }
    } else {
        MyAppModel {
            ledger: apply_add_item(
                m.ledger,
                m.add_item_form.name,
                m.add_item_form.sku,
                m.add_item_form.unit,
                m.add_item_form.location,
                m.add_item_form.quantity_text,
            ),
            add_item_form: AddItemFormModel {
                name: Seq::<char>::empty(),
                sku: Seq::<char>::empty(),
                unit: Seq::<char>::empty(),
                location: Seq::<char>::empty(),
                quantity_text: Seq::<char>::empty(),
                status: "Item added"@,
            },
            ..m
        }
    }
}

/// What one movement button press does to the ledger and its form: the form's
/// selected index is clamped, the quantity read leniently, and the movement
/// either committed (form cleared, status "Recorded") or refused with
/// "Insufficient stock" and nothing else changed.
pub open spec fn apply_movement_click(
    l: LedgerModel,
    f: MovementFormModel,
    is_warehousing: bool,
    date: Date,
) -> (LedgerModel, MovementFormModel) {
    let ci = if f.item_index < l.items.len() {
        f.item_index
    } else {
        0
    };
    let q = parse_or_zero_spec(f.quantity_text);
    let kind = movement_kind(is_warehousing);
    if movement_allowed(l, ci as int, delta_of(kind, q)) {
        (
            apply_movement(l, ci as int, q, f.note, kind, date),
            MovementFormModel {
                item_index: ci,
                quantity_text: Seq::<char>::empty(),
                note: Seq::<char>::empty(),
                status: "Recorded"@,
            },
        )
    } else {
        (
            l,
            MovementFormModel {
                item_index: ci,
                quantity_text: f.quantity_text,
                note: f.note,
                status: "Insufficient stock"@,
            },
        )
    }
}

/// The whole application state after a movement button press: nothing happens
/// while the catalog is empty (the caller does not offer the operation), and
/// otherwise the warehousing or shipping form and the ledger change as
/// `apply_movement_click` says.
pub open spec fn apply_submit_movement(m: MyAppModel, is_warehousing: bool) -> MyAppModel {
    if m.ledger.items.len() == 0 {
        m
    } else {
        if is_warehousing {
            MyAppModel {
                ledger: apply_movement_click(m.ledger, m.warehousing_form, true, app_date(m)).0,
                warehousing_form: apply_movement_click(
                    m.ledger,
                    m.warehousing_form,
                    true,
                    app_date(m),
                ).1,
                ..m
            }
        } else {
            MyAppModel {
                ledger: apply_movement_click(m.ledger, m.shipping_form, false, app_date(m)).0,
                shipping_form: apply_movement_click(
                    m.ledger,
                    m.shipping_form,
                    false,
                    app_date(m),
                ).1,
                ..m
            }
        }
    }
}

/// The movement overflow bound that the machine's `i32` forces: the selected
/// item's stock plus the signed delta must fit.
pub open spec fn movement_click_fits(
    l: LedgerModel,
    f: MovementFormModel,
    is_warehousing: bool,
) -> bool {
    l.items[clamped_index(l, f) as int].quantity_on_hand + delta_of(
        movement_kind(is_warehousing),
        parse_or_zero_spec(f.quantity_text),
    ) <= i32::MAX
}

pub open spec fn clamped_index(l: LedgerModel, f: MovementFormModel) -> usize {
    if f.item_index < l.items.len() {
        f.item_index
    } else {
        0
    }
}

/// Applies one movement button press to the ledger and the form it came from.
fn movement_click(
    ledger: &mut Ledger,
    form: &mut MovementForm,
    is_warehousing: bool,
    date: Date,
)
    requires
        old(ledger).wf(),
        old(ledger).items@.len() > 0,
        movement_click_fits(old(ledger)@, old(form)@, is_warehousing),
    ensures
        final(ledger).wf(),
        final(ledger)@ =~= apply_movement_click(old(ledger)@, old(form)@, is_warehousing, date).0,
        final(form)@ =~= apply_movement_click(old(ledger)@, old(form)@, is_warehousing, date).1,
{
    if form.item_index >= ledger.items.len() {
        form.item_index = 0;
    }
    let kind = if is_warehousing {
        TransactionKind::Receipt
    } else {
        TransactionKind::Shipment
    };
    let r = ledger.record_movement(
        form.item_index,
        form.quantity_text.as_str(),
        form.note.as_str(),
        kind,
        date,
    );
    match r {
        Ok(()) => {
            form.status = "Recorded".to_owned();
            form.quantity_text = String::new();
            form.note = String::new();
        },
        Err(MovementError::InsufficientStock) => {
            form.status = "Insufficient stock".to_owned();
        },
    }
}

impl MyApp {
    pub open spec fn wf(&self) -> bool {
        self.ledger.wf()
    }

    /// The Add Item button: validates and commits through the ledger and
    /// leaves the outcome in the form's status line.
    pub fn submit_add_item(&mut self)
        requires
            old(self).wf(),
            old(self).ledger.next_item_id < u32::MAX,
        ensures
            final(self).wf(),
            final(self)@ =~= apply_submit_add_item(old(self)@),
    {
        let r = self.ledger.add_item(
            self.add_item_form.name.as_str(),
            self.add_item_form.sku.as_str(),
            self.add_item_form.unit.as_str(),
            self.add_item_form.location.as_str(),
            self.add_item_form.quantity_text.as_str(),
        );
        match r {
            Ok(_id) => {
                self.add_item_form.status = "Item added".to_owned();
                self.add_item_form.name = String::new();
                self.add_item_form.sku = String::new();
                self.add_item_form.unit = String::new();
                self.add_item_form.location = String::new();
                self.add_item_form.quantity_text = String::new();
            },
            Err(ValidationError::MissingRequiredField) => {
                self.add_item_form.status = "Name and SKU are required".to_owned();
            },
        }
    }

    /// The Receive or Ship button: applies the movement through the ledger
    /// and leaves the outcome in the matching form's status line.  With an
    /// empty catalog the operation is not offered and nothing changes.
    pub fn submit_movement(&mut self, is_warehousing: bool)
        requires
            old(self).wf(),
            old(self).ledger.items@.len() > 0 ==> movement_click_fits(
                old(self).ledger@,
                if is_warehousing {
                    old(self).warehousing_form@
                } else {
                    old(self).shipping_form@
                },
                is_warehousing,
            ),
        ensures
            final(self).wf(),
            final(self)@ =~= apply_submit_movement(old(self)@, is_warehousing),
    {
        if self.ledger.items.is_empty() {
            return ;
        }
        let date = Date {
            year: self.selected_year,
            month: self.selected_month,
            day: self.selected_day,
        };
        if is_warehousing {
            movement_click(&mut self.ledger, &mut self.warehousing_form, true, date);
        } else {
            movement_click(&mut self.ledger, &mut self.shipping_form, false, date);
        }
    }

    /// The status line of the bottom bar: the status of the form belonging
    /// to the selected tab, where it has one; the inventory tab has none.
    pub fn current_status_message(&self) -> (r: Option<String>)
        ensures
            (match self.selected_tab {
                Tab::AddItem => (match r {
                    Some(s) => self.add_item_form.status@.len() > 0 && s@
                        == self.add_item_form.status@,
                    None => self.add_item_form.status@.len() == 0,
                }),
                Tab::Warehousing => (match r {
                    Some(s) => self.warehousing_form.status@.len() > 0 && s@
                        == self.warehousing_form.status@,
                    None => self.warehousing_form.status@.len() == 0,
                }),
                Tab::Shipping => (match r {
                    Some(s) => self.shipping_form.status@.len() > 0 && s@
                        == self.shipping_form.status@,
                    None => self.shipping_form.status@.len() == 0,
                }),
                Tab::Inventory => r is None,
            }),
    {
        match self.selected_tab {
            Tab::AddItem => {
                if self.add_item_form.status.as_str().is_empty() {
                    None
                } else {
                    Some(self.add_item_form.status.clone())
                }
            },
            Tab::Warehousing => {
                if self.warehousing_form.status.as_str().is_empty() {
                    None
                } else {
                    Some(self.warehousing_form.status.clone())
                }
            },
            Tab::Shipping => {
                if self.shipping_form.status.as_str().is_empty() {
                    None
                } else {
                    Some(self.shipping_form.status.clone())
                }
            },
            Tab::Inventory => None,
        }
    }
}

} // verus!
