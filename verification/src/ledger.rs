//! The inventory ledger: the item catalog, the append-only transaction log,
//! and the mutation rules that keep stock from going negative.

use vstd::prelude::*;

use crate::text::{
    contains_seq, lemma_lex_le_antisym, lemma_lex_le_total, lemma_lex_le_trans, lex_le, lower_of,
    lowercase, parse_or_zero, parse_or_zero_spec, str_contains, str_le, trim_spec, trim_str,
};
use vstd::multiset::Multiset;

verus! {

broadcast use vstd::seq_lib::group_to_multiset_ensures, vstd::multiset::group_multiset_axioms;

/// A calendar date as the user chose it: a plain value triple, with no
/// calendar validation in scope.
#[derive(Clone, Copy, PartialEq, Eq, Structural, Debug)]
pub struct Date {
    pub year: i32,
    pub month: u32,
    pub day: u32,
}

/// The direction of a stock movement: a receipt ("warehousing") adds stock,
/// a shipment removes it.
#[derive(Clone, Copy, PartialEq, Eq, Structural, Debug)]
pub enum TransactionKind {
    Receipt,
    Shipment,
}

#[derive(Clone, Copy, PartialEq, Eq, Structural, Debug)]
pub enum ValidationError {
    MissingRequiredField,
}

#[derive(Clone, Copy, PartialEq, Eq, Structural, Debug)]
pub enum MovementError {
    InsufficientStock,
}

/// A catalog entry.  The `id` is assigned by the ledger at creation time and
/// never reused or mutated; only `quantity_on_hand` changes afterwards.
pub struct InventoryItem {
    pub id: u32,
    pub name: String,
    pub sku: String,
    pub unit: String,
    pub location: String,
    pub quantity_on_hand: i32,
}

/// One entry of the append-only transaction log.
pub struct Transaction {
    pub date: Date,
    pub item_id: u32,
    pub quantity: i32,
    pub note: String,
    pub kind: TransactionKind,
}

/// The mathematical value of a catalog entry.
#[verifier::ext_equal]
pub struct ItemModel {
    pub id: u32,
    pub name: Seq<char>,
    pub sku: Seq<char>,
    pub unit: Seq<char>,
    pub location: Seq<char>,
    pub quantity_on_hand: i32,
}

/// The mathematical value of a log entry.
#[verifier::ext_equal]
pub struct TxnModel {
    pub date: Date,
    pub item_id: u32,
    pub quantity: i32,
    pub note: Seq<char>,
    pub kind: TransactionKind,
}

/// The mathematical value of the whole ledger.
#[verifier::ext_equal]
pub struct LedgerModel {
    pub items: Seq<ItemModel>,
    pub transactions: Seq<TxnModel>,
    pub next_item_id: u32,
}

impl View for InventoryItem {
    type V = ItemModel;

    open spec fn view(&self) -> ItemModel {
        ItemModel {
            id: self.id,
            name: self.name@,
            sku: self.sku@,
            unit: self.unit@,
            location: self.location@,
            quantity_on_hand: self.quantity_on_hand,
        }
    }
}

impl View for Transaction {
    type V = TxnModel;

    open spec fn view(&self) -> TxnModel {
        TxnModel {
            date: self.date,
            item_id: self.item_id,
            quantity: self.quantity,
            note: self.note@,
            kind: self.kind,
        }
    }
}

/// The models of a catalog, in catalog order.
pub open spec fn models(s: Seq<InventoryItem>) -> Seq<ItemModel> {
    s.map_values(|it: InventoryItem| it@)
}

/// The models of a transaction log, in insertion order.
pub open spec fn txn_models(s: Seq<Transaction>) -> Seq<TxnModel> {
    s.map_values(|t: Transaction| t@)
}

/// The component that owns the item catalog and the transaction log and is
/// the only path through which quantities change.
pub struct Ledger {
    pub items: Vec<InventoryItem>,
    pub transactions: Vec<Transaction>,
    pub next_item_id: u32,
}

impl View for Ledger {
    type V = LedgerModel;

    open spec fn view(&self) -> LedgerModel {
        LedgerModel {
            items: models(self.items@),
            transactions: txn_models(self.transactions@),
            next_item_id: self.next_item_id,
        }
    }
}

/// Well-formedness: ids are the positions shifted by one, so they are
/// process-unique, strictly increasing, and start at 1.
pub open spec fn wf_model(l: LedgerModel) -> bool {
    &&& l.next_item_id == l.items.len() + 1
    &&& forall|i: int| 0 <= i < l.items.len() ==> #[trigger] l.items[i].id == i + 1
}

/// `name` and `sku` must be non-empty after trimming.
pub open spec fn add_item_accepted(name: Seq<char>, sku: Seq<char>) -> bool {
    trim_spec(name).len() > 0 && trim_spec(sku).len() > 0
}

/// The catalog entry a successful AddItem stores: trimmed fields, the next
/// sequential id, and the leniently parsed initial quantity.
pub open spec fn new_item_model(
    id: u32,
    name: Seq<char>,
    sku: Seq<char>,
    unit: Seq<char>,
    location: Seq<char>,
    quantity_text: Seq<char>,
) -> ItemModel {
    ItemModel {
        id,
        name: trim_spec(name),
        sku: trim_spec(sku),
        unit: trim_spec(unit),
        location: trim_spec(location),
        quantity_on_hand: parse_or_zero_spec(quantity_text),
    }
}

/// The ledger after a successful AddItem.
pub open spec fn apply_add_item(
    l: LedgerModel,
    name: Seq<char>,
    sku: Seq<char>,
    unit: Seq<char>,
    location: Seq<char>,
    quantity_text: Seq<char>,
) -> LedgerModel {
    LedgerModel {
        items: l.items.push(
            new_item_model(l.next_item_id, name, sku, unit, location, quantity_text),
        ),
        transactions: l.transactions,
        next_item_id: (l.next_item_id + 1) as u32,
    }
}

/// The signed stock change of a movement: positive for a receipt, negative
/// for a shipment.
pub open spec fn delta_of(kind: TransactionKind, q: i32) -> int {
    match kind {
        TransactionKind::Receipt => q as int,
        TransactionKind::Shipment => -(q as int),
    }
}

/// The one invariant check: the movement may not drive stock below zero.
pub open spec fn movement_allowed(l: LedgerModel, idx: int, delta: int) -> bool {
    l.items[idx].quantity_on_hand + delta >= 0
}

/// The ledger after a successful RecordMovement: the item's stock updated in
/// place and one log entry appended, committed together.
pub open spec fn apply_movement(
    l: LedgerModel,
    idx: int,
    q: i32,
    note: Seq<char>,
    kind: TransactionKind,
    date: Date,
) -> LedgerModel {
    let it = l.items[idx];
    let updated = ItemModel {
        id: it.id,
        name: it.name,
        sku: it.sku,
        unit: it.unit,
        location: it.location,
        quantity_on_hand: (it.quantity_on_hand + delta_of(kind, q)) as i32,
    };
    LedgerModel {
        items: l.items.update(idx, updated),
        transactions: l.transactions.push(
            TxnModel { date, item_id: it.id, quantity: q, note, kind },
        ),
        next_item_id: l.next_item_id,
    }
}

proof fn lemma_models_push(s: Seq<InventoryItem>, x: InventoryItem)
    ensures
        models(s.push(x)) =~= models(s).push(x@),
{
}

proof fn lemma_txn_models_push(s: Seq<Transaction>, x: Transaction)
    ensures
        txn_models(s.push(x)) =~= txn_models(s).push(x@),
{
}

proof fn lemma_models_update(s: Seq<InventoryItem>, i: int, x: InventoryItem)
    requires
        0 <= i < s.len(),
    ensures
        models(s.update(i, x)) =~= models(s).update(i, x@),
{
}

impl InventoryItem {
    /// A copy whose model is the same.
    pub fn duplicate(&self) -> (r: InventoryItem)
        ensures
            r@ == self@,
    {
        InventoryItem {
            id: self.id,
            name: self.name.clone(),
            sku: self.sku.clone(),
            unit: self.unit.clone(),
            location: self.location.clone(),
            quantity_on_hand: self.quantity_on_hand,
        }
    }
}

impl Transaction {
    /// A copy whose model is the same.
    pub fn duplicate(&self) -> (r: Transaction)
        ensures
            r@ == self@,
    {
        Transaction {
            date: self.date,
            item_id: self.item_id,
            quantity: self.quantity,
            note: self.note.clone(),
            kind: self.kind,
        }
    }
}

impl Ledger {
    pub open spec fn wf(&self) -> bool {
        wf_model(self@)
    }

    /// An empty ledger; ids start at 1.
    pub fn new() -> (r: Ledger)
        ensures
            r.wf(),
            r@.items =~= Seq::<ItemModel>::empty(),
            r@.transactions =~= Seq::<TxnModel>::empty(),
            r@.next_item_id == 1,
    {
        Ledger { items: Vec::new(), transactions: Vec::new(), next_item_id: 1 }
    }

    /// AddItem: rejects an empty (after trimming) name or sku with
    /// `MissingRequiredField` and leaves the ledger unchanged; otherwise
    /// stores the trimmed fields under the next sequential id, with the
    /// leniently parsed initial quantity, and returns the id.
    pub fn add_item(
        &mut self,
        name: &str,
        sku: &str,
        unit: &str,
        location: &str,
        quantity_text: &str,
    ) -> (r: Result<u32, ValidationError>)
        requires
            old(self).wf(),
            old(self).next_item_id < u32::MAX,
        ensures
            final(self).wf(),
            r is Ok <==> add_item_accepted(name@, sku@),
            add_item_accepted(name@, sku@) ==> r == Ok::<u32, ValidationError>(
                old(self).next_item_id,
            ) && final(self)@ =~= apply_add_item(
                old(self)@,
                name@,
                sku@,
                unit@,
                location@,
                quantity_text@,
            ),
            !add_item_accepted(name@, sku@) ==> r == Err::<u32, ValidationError>(
                ValidationError::MissingRequiredField,
            ) && final(self)@ =~= old(self)@,
    {
        let trimmed_name = trim_str(name);
        let trimmed_sku = trim_str(sku);
        let qty = parse_or_zero(quantity_text);
        if trimmed_name.as_str().is_empty() || trimmed_sku.as_str().is_empty() {
            return Err(ValidationError::MissingRequiredField);
        }
        let id = self.next_item_id;
        let item = InventoryItem {
            id,
            name: trimmed_name,
            sku: trimmed_sku,
            unit: trim_str(unit),
            location: trim_str(location),
            quantity_on_hand: qty,
        };
        proof {
            lemma_models_push(self.items@, item);
        }
        self.items.push(item);
        self.next_item_id = id + 1;
        Ok(id)
    }

    /// RecordMovement: parses the quantity leniently, applies the signed
    /// delta, and either commits the stock update together with one appended
    /// log entry, or fails with `InsufficientStock` leaving both untouched.
    pub fn record_movement(
        &mut self,
        item_index: usize,
        quantity_text: &str,
        note: &str,
        kind: TransactionKind,
        date: Date,
    ) -> (r: Result<(), MovementError>)
        requires
            old(self).wf(),
            item_index < old(self).items@.len(),
            old(self)@.items[item_index as int].quantity_on_hand + delta_of(
                kind,
                parse_or_zero_spec(quantity_text@),
            ) <= i32::MAX,
        ensures
            final(self).wf(),
            r is Ok <==> movement_allowed(
                old(self)@,
                item_index as int,
                delta_of(kind, parse_or_zero_spec(quantity_text@)),
            ),
            r is Ok ==> final(self)@ =~= apply_movement(
                old(self)@,
                item_index as int,
                parse_or_zero_spec(quantity_text@),
                note@,
                kind,
                date,
            ),
            r is Ok ==> final(self)@.items[item_index as int].quantity_on_hand >= 0,
            !movement_allowed(
                old(self)@,
                item_index as int,
                delta_of(kind, parse_or_zero_spec(quantity_text@)),
            ) ==> r == Err::<(), MovementError>(MovementError::InsufficientStock)
                && final(self)@ =~= old(self)@,
    {
        let q = parse_or_zero(quantity_text);
        let delta: i64 = match kind {
            TransactionKind::Receipt => q as i64,
            TransactionKind::Shipment => -(q as i64),
        };
        let qoh = self.items[item_index].quantity_on_hand;
        let new_qoh = qoh as i64 + delta;
        if new_qoh < 0 {
            return Err(MovementError::InsufficientStock);
        }
        let ghost old_items = self.items@;
        let mut it = self.items.remove(item_index);
        let item_id = it.id;
        it.quantity_on_hand = new_qoh as i32;
        proof {
            lemma_models_update(old_items, item_index as int, it);
            assert(old_items.remove(item_index as int).insert(item_index as int, it)
                =~= old_items.update(item_index as int, it));
        }
        self.items.insert(item_index, it);
        proof {
            assert(self.items@ =~= old_items.update(item_index as int, it));
            assert(models(old_items) == old(self)@.items);
            assert(models(old_items)[item_index as int] == old_items[item_index as int]@);
            assert(models(old_items)[item_index as int].id == item_index + 1);
            assert(it@.id == item_index + 1);
            assert forall|i: int|
                0 <= i < models(self.items@).len() implies #[trigger] models(self.items@)[i].id
                == i + 1 by {
                if i != item_index as int {
                    assert(models(self.items@)[i] == old(self)@.items[i]);
                }
            }
        }
        let txn = Transaction { date, item_id, quantity: q, note: note.to_owned(), kind };
        proof {
            lemma_txn_models_push(self.transactions@, txn);
        }
        self.transactions.push(txn);
        Ok(())
    }

    /// RecentTransactions: at most `limit` log entries, most recent first,
    /// where "most recent" is strictly reverse insertion order.
    pub fn recent_transactions(&self, limit: usize) -> (r: Vec<Transaction>)
        ensures
            r@.len() == if limit as int <= self@.transactions.len() {
                limit as int
            } else {
                self@.transactions.len() as int
            },
            forall|i: int|
                0 <= i < r@.len() ==> r@[i]@ == self@.transactions[self@.transactions.len() - 1
                    - i],
    {
        let n = self.transactions.len();
        let mut out: Vec<Transaction> = Vec::new();
        let mut k: usize = 0;
        while k < limit && k < n
            invariant
                n == self.transactions@.len(),
                k <= n,
                k <= limit,
                out@.len() == k,
                forall|i: int|
                    0 <= i < k ==> out@[i]@ == self@.transactions[self@.transactions.len() - 1
                        - i],
            decreases n - k,
        {
            let t = self.transactions[n - 1 - k].duplicate();
            out.push(t);
            k = k + 1;
        }
        out
    }

    /// The name of the catalog entry with the given id, where one exists.
    pub fn item_name_for_id(&self, item_id: u32) -> (r: Option<String>)
        requires
            self.wf(),
        ensures
            (match r {
                Some(nm) => exists|i: int|
                    0 <= i < self@.items.len() && #[trigger] self@.items[i].id == item_id && nm@
                        == self@.items[i].name,
                None => forall|i: int|
                    0 <= i < self@.items.len() ==> #[trigger] self@.items[i].id != item_id,
            }),
    {
        let n = self.items.len();
        let mut j: usize = 0;
        while j < n
            invariant
                n == self.items@.len(),
                j <= n,
                forall|k: int| 0 <= k < j ==> #[trigger] self@.items[k].id != item_id,
            decreases n - j,
        {
            if self.items[j].id == item_id {
                let nm = self.items[j].name.clone();
                proof {
                    assert(self@.items[j as int] == self.items@[j as int]@);
                    assert(self@.items[j as int].id == item_id);
                }
                return Some(nm);
            }
            j = j + 1;
        }
        None
    }
}

/// The inventory-view filter: empty text matches everything, and otherwise
/// the lowercased filter must occur in the lowercased name, sku, or location.
pub open spec fn matches_filter(m: ItemModel, filter: Seq<char>) -> bool {
    ||| filter.len() == 0
    ||| contains_seq(lower_of(m.name), lower_of(filter))
    ||| contains_seq(lower_of(m.sku), lower_of(filter))
    ||| contains_seq(lower_of(m.location), lower_of(filter))
}

pub open spec fn filter_pred(filter: Seq<char>) -> spec_fn(ItemModel) -> bool {
    |m: ItemModel| matches_filter(m, filter)
}

/// The display order of the inventory view: by name ascending, ties broken
/// deterministically by id.
pub open spec fn item_le(a: ItemModel, b: ItemModel) -> bool {
    if a.name == b.name {
        a.id <= b.id
    } else {
        lex_le(a.name, b.name)
    }
}

pub open spec fn sorted_items(s: Seq<ItemModel>) -> bool {
    forall|i: int, j: int|
        #![trigger s[i], s[j]]
        0 <= i <= j < s.len() ==> item_le(s[i], s[j])
}

proof fn lemma_item_le_total(a: ItemModel, b: ItemModel)
    ensures
        item_le(a, b) || item_le(b, a),
{
    if a.name != b.name {
        lemma_lex_le_total(a.name, b.name);
    }
}

proof fn lemma_item_le_trans(a: ItemModel, b: ItemModel, c: ItemModel)
    requires
        item_le(a, b),
        item_le(b, c),
    ensures
        item_le(a, c),
{
    if a.name != b.name && b.name != c.name {
        lemma_lex_le_trans(a.name, b.name, c.name);
        if a.name == c.name {
            lemma_lex_le_antisym(a.name, b.name);
        }
    }
}

fn item_le_exec(a: &InventoryItem, b: &InventoryItem) -> (r: bool)
    ensures
        r == item_le(a@, b@),
{
    if a.name == b.name {
        a.id <= b.id
    } else {
        str_le(a.name.as_str(), b.name.as_str())
    }
}

proof fn lemma_models_remove(s: Seq<InventoryItem>, i: int)
    requires
        0 <= i < s.len(),
    ensures
        models(s.remove(i)) =~= models(s).remove(i),
{
    s.remove_ensures(i);
    models(s).remove_ensures(i);
}

proof fn lemma_filter_push(s: Seq<ItemModel>, pred: spec_fn(ItemModel) -> bool, e: ItemModel)
    ensures
        s.push(e).filter(pred) == if pred(e) {
            s.filter(pred).push(e)
        } else {
            s.filter(pred)
        },
{
    reveal(Seq::filter);
    assert(s.push(e).drop_last() =~= s);
    assert(s.push(e).last() == e);
}

/// Sorts a batch of catalog entries for display: by name ascending, ties by
/// id.  The result holds exactly the entries given, rearranged.
fn sort_items(input: Vec<InventoryItem>) -> (r: Vec<InventoryItem>)
    ensures
        models(r@).to_multiset() == models(input@).to_multiset(),
        sorted_items(models(r@)),
{
    let mut work = input;
    let mut out: Vec<InventoryItem> = Vec::new();
    proof {
        assert(models(out@) =~= Seq::<ItemModel>::empty());
        assert(models(out@).to_multiset() =~= Multiset::<ItemModel>::empty());
        assert(models(out@).to_multiset().add(models(work@).to_multiset()) =~= models(
            work@,
        ).to_multiset());
    }
    while work.len() > 0
        invariant
            models(out@).to_multiset().add(models(work@).to_multiset()) == models(
                input@,
            ).to_multiset(),
            sorted_items(models(out@)),
            forall|i: int, j: int|
                #![trigger models(out@)[i], models(work@)[j]]
                0 <= i < models(out@).len() && 0 <= j < models(work@).len() ==> item_le(
                    models(out@)[i],
                    models(work@)[j],
                ),
        decreases work.len(),
    {
        let mut m: usize = 0;
        let mut t: usize = 1;
        proof {
            assert(item_le(models(work@)[0], models(work@)[0]));
        }
        while t < work.len()
            invariant
                work@.len() > 0,
                (m as int) < work@.len(),
                1 <= t <= work@.len(),
                forall|k: int|
                    0 <= k < t ==> item_le(models(work@)[m as int], #[trigger] models(work@)[k]),
            decreases work@.len() - t,
        {
            if item_le_exec(&work[t], &work[m]) {
                proof {
                    assert forall|k: int| 0 <= k < t + 1 implies item_le(
                        models(work@)[t as int],
                        #[trigger] models(work@)[k],
                    ) by {
                        if k < t {
                            lemma_item_le_trans(
                                models(work@)[t as int],
                                models(work@)[m as int],
                                models(work@)[k],
                            );
                        }
                    }
                }
                m = t;
            } else {
                proof {
                    lemma_item_le_total(models(work@)[t as int], models(work@)[m as int]);
                }
            }
            t = t + 1;
        }
        let ghost pre_work = work@;
        let ghost pre_out = out@;
        let x = work.remove(m);
        proof {
            lemma_models_remove(pre_work, m as int);
            assert(x@ == models(pre_work)[m as int]);
            assert(models(pre_work).contains(models(pre_work)[m as int]));
            assert(models(work@).to_multiset() == models(pre_work).to_multiset().remove(x@));
        }
        out.push(x);
        proof {
            lemma_models_push(pre_out, x);
            assert(models(out@).to_multiset() =~= models(pre_out).to_multiset().insert(x@));
            assert(models(out@).to_multiset().add(models(work@).to_multiset()) =~= models(
                pre_out,
            ).to_multiset().add(models(pre_work).to_multiset()));
            assert forall|i: int, j: int|
                #![trigger models(out@)[i], models(work@)[j]]
                0 <= i < models(out@).len() && 0 <= j < models(work@).len() implies item_le(
                models(out@)[i],
                models(work@)[j],
            ) by {
                assert(models(work@) =~= models(pre_work).remove(m as int));
                if i < models(pre_out).len() {
                    assert(models(out@)[i] == models(pre_out)[i]);
                } else {
                    assert(models(out@)[i] == x@);
                }
            }
            assert forall|i: int, j: int|
                #![trigger models(out@)[i], models(out@)[j]]
                0 <= i <= j < models(out@).len() implies item_le(
                models(out@)[i],
                models(out@)[j],
            ) by {
                if j < models(pre_out).len() {
                    assert(models(out@)[j] == models(pre_out)[j]);
                    assert(models(out@)[i] == models(pre_out)[i]);
                } else {
                    assert(models(out@)[j] == x@);
                    if i < models(pre_out).len() {
                        assert(models(out@)[i] == models(pre_out)[i]);
                        assert(item_le(models(pre_out)[i], models(pre_work)[m as int]));
                    }
                }
            }
        }
    }
    proof {
        assert(models(work@).to_multiset() =~= Multiset::<ItemModel>::empty());
        assert(models(out@).to_multiset() =~= models(input@).to_multiset());
    }
    out
}

impl Ledger {
    /// ListItems: a snapshot of the catalog entries matching the filter,
    /// sorted by name ascending (ties broken by id).  The filter is a
    /// case-insensitive substring match against name, sku, or location;
    /// empty filter text matches every item.
    pub fn list_items(&self, filter: &str) -> (r: Vec<InventoryItem>)
        ensures
            models(r@).to_multiset() == models(self.items@).filter(
                filter_pred(filter@),
            ).to_multiset(),
            sorted_items(models(r@)),
    {
        let filter_lc = lowercase(filter);
        let match_all = filter.is_empty();
        let mut rows: Vec<InventoryItem> = Vec::new();
        let n = self.items.len();
        let mut i: usize = 0;
        proof {
            assert(models(self.items@.subrange(0, 0)) =~= Seq::<ItemModel>::empty());
            reveal(Seq::filter);
        }
        while i < n
            invariant
                n == self.items@.len(),
                i <= n,
                filter_lc@ == lower_of(filter@),
                match_all == (filter@.len() == 0),
                models(rows@) == models(self.items@.subrange(0, i as int)).filter(
                    filter_pred(filter@),
                ),
            decreases n - i,
        {
            let it = &self.items[i];
            let keep = if match_all {
                true
            } else {
                let name_lc = lowercase(it.name.as_str());
                let sku_lc = lowercase(it.sku.as_str());
                let loc_lc = lowercase(it.location.as_str());
                str_contains(name_lc.as_str(), filter_lc.as_str()) || str_contains(
                    sku_lc.as_str(),
                    filter_lc.as_str(),
                ) || str_contains(loc_lc.as_str(), filter_lc.as_str())
            };
            proof {
                assert(keep == matches_filter(self.items@[i as int]@, filter@));
                assert(filter_pred(filter@)(self.items@[i as int]@) == matches_filter(
                    self.items@[i as int]@,
                    filter@,
                ));
                assert(models(self.items@.subrange(0, i as int + 1)) =~= models(
                    self.items@.subrange(0, i as int),
                ).push(self.items@[i as int]@));
                lemma_filter_push(
                    models(self.items@.subrange(0, i as int)),
                    filter_pred(filter@),
                    self.items@[i as int]@,
                );
            }
            if keep {
                let ghost pre_rows = rows@;
                let dup = it.duplicate();
                proof {
                    lemma_models_push(pre_rows, dup);
                }
                rows.push(dup);
            }
            i = i + 1;
        }
        proof {
            assert(self.items@.subrange(0, n as int) =~= self.items@);
        }
        sort_items(rows)
    }
}

/// Every item's stock is non-negative.
pub open spec fn all_stock_nonnegative(l: LedgerModel) -> bool {
    forall|i: int| 0 <= i < l.items.len() ==> #[trigger] l.items[i].quantity_on_hand >= 0
}

/// Non-negative stock invariant: a successful RecordMovement never makes any
/// stock negative.  Whatever movements run in sequence from a ledger whose
/// items all have non-negative stock, every item's stock stays non-negative.
pub proof fn lemma_movement_preserves_nonnegative_stock(
    l: LedgerModel,
    idx: int,
    q: i32,
    note: Seq<char>,
    kind: TransactionKind,
    date: Date,
)
    requires
        all_stock_nonnegative(l),
        0 <= idx < l.items.len(),
        movement_allowed(l, idx, delta_of(kind, q)),
        l.items[idx].quantity_on_hand + delta_of(kind, q) <= i32::MAX,
    ensures
        all_stock_nonnegative(apply_movement(l, idx, q, note, kind, date)),
{
    let l2 = apply_movement(l, idx, q, note, kind, date);
    assert forall|i: int| 0 <= i < l2.items.len() implies #[trigger] l2.items[i].quantity_on_hand
        >= 0 by {
        if i != idx {
            assert(l2.items[i] == l.items[i]);
        }
    }
}

/// A successful AddItem keeps every stock non-negative as long as the new
/// item's quantity text does not read as a negative number.  (Lenient
/// parsing admits a negative initial quantity, such as "-5"; stock reached
/// through movements alone never goes negative, see
/// `lemma_movement_preserves_nonnegative_stock`.)
pub proof fn lemma_add_item_preserves_nonnegative_stock(
    l: LedgerModel,
    name: Seq<char>,
    sku: Seq<char>,
    unit: Seq<char>,
    location: Seq<char>,
    quantity_text: Seq<char>,
)
    requires
        all_stock_nonnegative(l),
        parse_or_zero_spec(quantity_text) >= 0,
    ensures
        all_stock_nonnegative(
            apply_add_item(l, name, sku, unit, location, quantity_text),
        ),
{
    let l2 = apply_add_item(l, name, sku, unit, location, quantity_text);
    assert forall|i: int| 0 <= i < l2.items.len() implies #[trigger] l2.items[i].quantity_on_hand
        >= 0 by {
        if i < l.items.len() {
            assert(l2.items[i] == l.items[i]);
        }
    }
}

/// Id monotonicity: a successful AddItem returns the ledger's next id, and
/// afterwards the next id is exactly one greater, so ids returned by
/// successive successful calls increase strictly by 1.  A failed AddItem
/// leaves the ledger unchanged (see `add_item`), so interleaved failures
/// consume no id.
pub proof fn lemma_add_item_ids_strictly_increase(
    l: LedgerModel,
    name: Seq<char>,
    sku: Seq<char>,
    unit: Seq<char>,
    location: Seq<char>,
    quantity_text: Seq<char>,
)
    requires
        l.next_item_id < u32::MAX,
    ensures
        apply_add_item(l, name, sku, unit, location, quantity_text).next_item_id
            == l.next_item_id + 1,
{
}

} // verus!
