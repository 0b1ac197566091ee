//! Remembered pads and nicknames.
use crate::controller::identity;
use crate::controller::model;
use crate::controller::model::{ControllerKind, ControllerStatus};
use crate::text;
use crate::text_map;
use crate::text_map::TextMap;
use vstd::prelude::*;

verus! {

/// Last-known fields of a remembered pad.
#[derive(Debug, Clone, PartialEq, Eq)]
pub struct KnownController {
    pub serial: String,
    pub product: String,
    pub connection: String,
    pub percent: u8,
    pub kind: ControllerKind,
}

/// Model of [`KnownController`].
#[verifier::ext_equal]
pub struct RecordView {
    pub serial: Seq<char>,
    pub product: Seq<char>,
    pub connection: Seq<char>,
    pub percent: u8,
    pub kind: ControllerKind,
}

impl View for KnownController {
    type V = RecordView;

    open spec fn view(&self) -> RecordView {
        RecordView {
            serial: self.serial@,
            product: self.product@,
            connection: self.connection@,
            percent: self.percent,
            kind: self.kind,
        }
    }
}

/// Models of a map of records.
pub open spec fn records(m: Map<Seq<char>, KnownController>) -> Map<Seq<char>, RecordView> {
    m.map_values(|r: KnownController| r@)
}

/// Record that a status makes.
pub open spec fn record_of(s: model::StatusView) -> RecordView {
    RecordView {
        serial: s.serial,
        product: s.product,
        connection: s.connection.label(),
        percent: s.percent,
        kind: s.kind,
    }
}

/// What the stored file holds.
#[derive(Debug, Clone, PartialEq, Eq)]
pub struct KnownFile {
    pub controllers: Vec<KnownController>,
    pub nicknames: TextMap<String>,
}

/// Remembered pads by serial, nicknames by serial, and whether either has changed.
#[derive(Debug, Clone)]
pub struct KnownControllers {
    pub by_serial: TextMap<KnownController>,
    pub nicknames: TextMap<String>,
    pub dirty: bool,
}

/// Model of [`KnownControllers`].
#[verifier::ext_equal]
pub struct StoreView {
    pub records: Map<Seq<char>, RecordView>,
    pub nicknames: Map<Seq<char>, Seq<char>>,
    pub dirty: bool,
}

impl View for KnownControllers {
    type V = StoreView;

    open spec fn view(&self) -> StoreView {
        StoreView {
            records: records(self.by_serial@),
            nicknames: text_map::texts(self.nicknames@),
            dirty: self.dirty,
        }
    }
}

impl StoreView {
    /// Only real identities are stored, each record under its serial; nicknames are
    /// trimmed and not empty.
    pub open spec fn wf(self) -> bool {
        &&& forall|k: Seq<char>| #[trigger]
            self.records.dom().contains(k) ==> identity::storable(k) && self.records[k].serial == k
        &&& forall|k: Seq<char>| #[trigger]
            self.nicknames.dom().contains(k) ==> identity::storable(k) && self.nicknames[k].len()
                > 0 && text::trim(self.nicknames[k]) == self.nicknames[k]
    }

    /// The store with a nickname set, or cleared when it is blank.
    pub open spec fn with_nickname(self, serial: Seq<char>, nickname: Option<Seq<char>>) -> StoreView {
        let next = match nickname {
            Some(n) => text::trim(n),
            None => seq![],
        };
        if !identity::storable(serial) {
            self
        } else if next.len() > 0 {
            if self.nicknames.dom().contains(serial) && self.nicknames[serial] == next {
                self
            } else {
                StoreView {
                    nicknames: self.nicknames.insert(serial, next),
                    dirty: true,
                    ..self
                }
            }
        } else if self.nicknames.dom().contains(serial) {
            StoreView { nicknames: self.nicknames.remove(serial), dirty: true, ..self }
        } else {
            self
        }
    }

    /// Record of a status, keeping the serial it was stored under.
    pub open spec fn refreshed(self, s: model::StatusView) -> RecordView {
        RecordView { serial: self.records[s.serial].serial, ..record_of(s) }
    }

    /// The store with a pad remembered.
    pub open spec fn with_pad(self, s: model::StatusView) -> StoreView {
        if !identity::storable(s.serial) {
            self
        } else if !self.records.dom().contains(s.serial) {
            StoreView {
                records: self.records.insert(s.serial, record_of(s)),
                dirty: true,
                ..self
            }
        } else {
            self.with_refreshed(s)
        }
    }

    /// The store with the fields of an already remembered pad brought up to date.
    pub open spec fn with_refreshed(self, s: model::StatusView) -> StoreView {
        if identity::storable(s.serial) && self.records.dom().contains(s.serial)
            && self.records[s.serial] != self.refreshed(s) {
            StoreView {
                records: self.records.insert(s.serial, self.refreshed(s)),
                dirty: true,
                ..self
            }
        } else {
            self
        }
    }

    /// The store with a pad forgotten.
    pub open spec fn without_pad(self, serial: Seq<char>) -> StoreView {
        if self.records.dom().contains(serial) {
            StoreView { records: self.records.remove(serial), dirty: true, ..self }
        } else {
            self
        }
    }

    /// The store with every remembered pad of `live` brought up to date.
    pub open spec fn synced(self, live: Seq<model::StatusView>) -> StoreView
        decreases live.len(),
    {
        if live.len() == 0 {
            self
        } else {
            self.synced(live.drop_last()).with_refreshed(live.last())
        }
    }
}

impl Default for KnownControllers {
    fn default() -> (r: Self)
        ensures
            r@ == (StoreView { records: Map::empty(), nicknames: Map::empty(), dirty: false }),
    {
        let r = KnownControllers {
            by_serial: TextMap::new(),
            nicknames: TextMap::new(),
            dirty: false,
        };
        proof {
            text_map::lemma_texts_empty();
            assert(records(r.by_serial@) =~= Map::<Seq<char>, RecordView>::empty());
        }
        r
    }
}

proof fn lemma_records_insert(m: Map<Seq<char>, KnownController>, k: Seq<char>, r: KnownController)
    ensures
        records(m.insert(k, r)) == records(m).insert(k, r@),
        records(m.remove(k)) == records(m).remove(k),
{
    assert(records(m.insert(k, r)) =~= records(m).insert(k, r@));
    assert(records(m.remove(k)) =~= records(m).remove(k));
}

impl KnownController {
    fn from_status(status: &ControllerStatus) -> (r: Self)
        ensures
            r@ == record_of(status@),
    {
        KnownController {
            serial: status.serial.clone(),
            product: text::own(status.product),
            connection: text::own(status.connection.as_str()),
            percent: status.percent,
            kind: status.kind,
        }
    }

    /// Brings the fields up to date; true when one changed.
    fn update_from_status(&mut self, status: &ControllerStatus) -> (r: bool)
        ensures
            final(self)@ == (RecordView { serial: old(self)@.serial, ..record_of(status@) }),
            r == (final(self)@ != old(self)@),
    {
        let same = text::str_eq(self.product.as_str(), status.product) && text::str_eq(
            self.connection.as_str(),
            status.connection.as_str(),
        ) && self.percent == status.percent && self.kind == status.kind;
        if same {
            return false;
        }
        self.product = text::own(status.product);
        self.connection = text::own(status.connection.as_str());
        self.percent = status.percent;
        self.kind = status.kind;
        true
    }

    /// Copy of the record.
    pub fn copy(&self) -> (r: Self)
        ensures
            r@ == self@,
            r == *self,
    {
        KnownController {
            serial: self.serial.clone(),
            product: self.product.clone(),
            connection: self.connection.clone(),
            percent: self.percent,
            kind: self.kind,
        }
    }
}

/// Records of a list by serial; a later one replaces an earlier one.
pub open spec fn indexed(list: Seq<RecordView>) -> Map<Seq<char>, RecordView>
    decreases list.len(),
{
    if list.len() == 0 {
        Map::empty()
    } else if identity::storable(list.last().serial) {
        indexed(list.drop_last()).insert(list.last().serial, list.last())
    } else {
        indexed(list.drop_last())
    }
}

/// Nicknames worth keeping, trimmed.
pub open spec fn kept_nicknames(m: Map<Seq<char>, Seq<char>>) -> Map<Seq<char>, Seq<char>> {
    Map::new(
        |k: Seq<char>|
            m.dom().contains(k) && identity::storable(k) && text::trim(m[k]).len() > 0,
        |k: Seq<char>| text::trim(m[k]),
    )
}

/// Models of a list of records.
pub open spec fn record_list(v: Seq<KnownController>) -> Seq<RecordView> {
    Seq::new(v.len(), |i: int| v[i]@)
}

/// Store that a file holds.
pub open spec fn loaded(
    controllers: Seq<RecordView>,
    nicknames: Map<Seq<char>, Seq<char>>,
) -> StoreView {
    StoreView {
        records: indexed(controllers),
        nicknames: kept_nicknames(nicknames),
        dirty: false,
    }
}

/// Records of a store in ascending order of their serials.
pub open spec fn in_serial_order(
    m: Map<Seq<char>, RecordView>,
    keys: Seq<Seq<char>>,
) -> Seq<RecordView> {
    Seq::new(keys.len(), |i: int| m[keys[i]])
}

/// Remembered pads among `keys` whose serial is not live.
pub open spec fn disconnected(
    m: Map<Seq<char>, RecordView>,
    keys: Seq<Seq<char>>,
    live: Seq<model::StatusView>,
) -> Seq<RecordView>
    decreases keys.len(),
{
    if keys.len() == 0 {
        seq![]
    } else {
        let rest = disconnected(m, keys.drop_last(), live);
        if is_live(live, m[keys.last()].serial) {
            rest
        } else {
            rest.push(m[keys.last()])
        }
    }
}

/// Whether a serial is among the live pads.
pub open spec fn is_live(live: Seq<model::StatusView>, serial: Seq<char>) -> bool {
    exists|i: int| 0 <= i < live.len() && (#[trigger] live[i]).serial == serial
}

/// Models of a list of borrowed records.
pub open spec fn record_refs(v: Seq<&KnownController>) -> Seq<RecordView> {
    Seq::new(v.len(), |i: int| v[i]@)
}

fn has_serial(live: &[ControllerStatus], serial: &str) -> (r: bool)
    ensures
        r == is_live(model::statuses(live@), serial@),
{
    let ghost s = model::statuses(live@);
    let mut i: usize = 0;
    while i < live.len()
        invariant
            i <= live@.len(),
            s == model::statuses(live@),
            forall|k: int| 0 <= k < i ==> (#[trigger] s[k]).serial != serial@,
        decreases live@.len() - i,
    {
        assert(s[i as int].serial == live@[i as int].serial@);
        if text::str_eq(live[i].serial.as_str(), serial) {
            return true;
        }
        i = i + 1;
    }
    false
}

impl KnownControllers {
    /// Store that a file holds: pads and nicknames without a real identity are left out.
    pub fn from_file(file: KnownFile) -> (r: Self)
        ensures
            r@ == loaded(record_list(file.controllers@), text_map::texts(file.nicknames@)),
    {
        let ghost list = record_list(file.controllers@);
        let ghost names = text_map::texts(file.nicknames@);
        let mut by_serial: TextMap<KnownController> = TextMap::new();
        let mut i: usize = 0;
        assert(records(by_serial@) =~= indexed(list.take(0)));
        while i < file.controllers.len()
            invariant
                i <= file.controllers@.len(),
                list == record_list(file.controllers@),
                records(by_serial@) == indexed(list.take(i as int)),
            decreases file.controllers@.len() - i,
        {
            let record = &file.controllers[i];
            assert(list.take(i + 1).drop_last() == list.take(i as int));
            assert(list.take(i + 1).last() == record@);
            if identity::is_storable_serial(record.serial.as_str()) {
                let copy = record.copy();
                proof {
                    lemma_records_insert(by_serial@, record.serial@, copy);
                }
                by_serial.insert(record.serial.clone(), copy);
            }
            i = i + 1;
        }
        assert(list.take(i as int) == list);
        let mut nicknames: TextMap<String> = TextMap::new();
        let n: usize = file.nicknames.len();
        let ghost keys = text_map::in_order(file.nicknames@.dom());
        let mut j: usize = 0;
        proof {
            text_map::lemma_texts_empty();
            text_map::lemma_in_order_exists(file.nicknames@.dom());
            assert(text_map::texts(nicknames@) =~= kept_nicknames(
                names.restrict(keys.take(0).to_set()),
            ));
        }
        while j < n
            invariant
                j <= n,
                n == keys.len(),
                n == file.nicknames@.dom().len(),
                names == text_map::texts(file.nicknames@),
                keys == text_map::in_order(file.nicknames@.dom()),
                text_map::ascending(keys),
                text_map::texts(nicknames@) == kept_nicknames(
                    names.restrict(keys.take(j as int).to_set()),
                ),
            decreases n - j,
        {
            let serial = file.nicknames.key_at(j);
            let name = file.nicknames.value_at(j);
            let ghost before = text_map::texts(nicknames@);
            let ghost a = keys.take(j as int);
            let ghost b = keys.take(j + 1);
            let trimmed = text::str_trim(name.as_str());
            let keep = identity::is_storable_serial(serial.as_str()) && !trimmed.as_str().is_empty();
            proof {
                assert(b == a.push(serial@));
                assert(names[serial@] == name@);
                text_map::lemma_push_set(a, serial@);
                text_map::lemma_texts_insert(nicknames@, serial@, trimmed);
                if keep {
                    assert(before.insert(serial@, trimmed@) =~= kept_nicknames(
                        names.restrict(b.to_set()),
                    ));
                } else {
                    assert(!kept_nicknames(names.restrict(b.to_set())).dom().contains(serial@));
                    assert forall|k: Seq<char>| kept_nicknames(
                        names.restrict(b.to_set()),
                    ).dom().contains(k) == before.dom().contains(k) by {
                        if k == serial@ {
                            assert(!before.dom().contains(k));
                        }
                    }
                    assert(before =~= kept_nicknames(names.restrict(b.to_set())));
                }
            }
            if keep {
                nicknames.insert(serial.clone(), trimmed);
            }
            j = j + 1;
        }
        proof {
            assert(keys.take(j as int) == keys);
            assert(names.restrict(keys.to_set()) =~= names);
        }
        KnownControllers { by_serial, nicknames, dirty: false }
    }

    /// What is to be stored: the records sorted by serial, and the nicknames.
    pub fn to_file(&self) -> (r: KnownFile)
        ensures
            record_list(r.controllers@) == in_serial_order(
                self@.records,
                text_map::in_order(self@.records.dom()),
            ),
            text_map::texts(r.nicknames@) == self@.nicknames,
    {
        let ghost keys = text_map::in_order(self.by_serial@.dom());
        assert(self@.records.dom() =~= self.by_serial@.dom());
        let ghost want = in_serial_order(self@.records, keys);
        let mut controllers: Vec<KnownController> = Vec::new();
        let n: usize = self.by_serial.len();
        let mut i: usize = 0;
        assert(record_list(controllers@) =~= want.take(0));
        while i < n
            invariant
                i <= n,
                n == keys.len(),
                n == self.by_serial@.dom().len(),
                keys == text_map::in_order(self.by_serial@.dom()),
                want == in_serial_order(self@.records, keys),
                record_list(controllers@) == want.take(i as int),
            decreases n - i,
        {
            let record = self.by_serial.value_at(i).copy();
            let ghost before = record_list(controllers@);
            controllers.push(record);
            assert(record_list(controllers@) =~= before.push(record@));
            assert(want.take(i + 1) =~= want.take(i as int).push(record@));
            i = i + 1;
        }
        assert(want.take(i as int) == want);
        let nicknames = self.nicknames.clone();
        assert(text_map::texts(nicknames@) =~= text_map::texts(self.nicknames@));
        KnownFile { controllers, nicknames }
    }

    /// Whether a store needs to be written.
    pub fn needs_save(&self) -> (r: bool)
        ensures
            r == self@.dirty,
    {
        self.dirty
    }

    /// Notes that the store was written.
    pub fn saved(&mut self)
        ensures
            final(self)@ == (StoreView { dirty: false, ..old(self)@ }),
    {
        self.dirty = false;
    }

    pub fn is_remembered(&self, serial: &str) -> (r: bool)
        ensures
            r == self@.records.dom().contains(serial@),
    {
        self.by_serial.contains_key(serial)
    }

    pub fn nickname(&self, serial: &str) -> (r: Option<&str>)
        ensures
            match r {
                Some(n) => self@.nicknames.dom().contains(serial@) && n@
                    == self@.nicknames[serial@],
                None => !self@.nicknames.dom().contains(serial@),
            },
    {
        match self.nicknames.get(serial) {
            Some(n) => Some(n.as_str()),
            None => None,
        }
    }

    /// Set or clear a nickname. Empty / whitespace clears. Returns true if stored data changed.
    pub fn set_nickname(&mut self, serial: &str, nickname: Option<String>) -> (r: bool)
        ensures
            final(self)@ == old(self)@.with_nickname(
                serial@,
                match nickname {
                    Some(n) => Some(n@),
                    None => None,
                },
            ),
            r == (final(self)@.nicknames != old(self)@.nicknames),
    {
        if !identity::is_storable_serial(serial) {
            return false;
        }
        let next: String = match &nickname {
            Some(n) => text::str_trim(n.as_str()),
            None => String::new(),
        };
        let ghost before = self.nicknames@;
        let clear = next.as_str().is_empty();
        match self.nicknames.get(serial) {
            Some(existing) => {
                if !clear && text::str_eq(existing.as_str(), next.as_str()) {
                    return false;
                }
            },
            None => {
                if clear {
                    return false;
                }
            },
        }
        proof {
            text_map::lemma_texts_insert(before, serial@, next);
            assert(text_map::texts(before.remove(serial@)) =~= text_map::texts(before).remove(
                serial@,
            ));
            if !clear {
                assert(text_map::texts(before).insert(serial@, next@)[serial@] == next@);
            } else {
                assert(!text_map::texts(before).remove(serial@).dom().contains(serial@));
            }
        }
        if clear {
            self.nicknames.remove(serial);
        } else {
            self.nicknames.insert(text::own(serial), next);
        }
        self.dirty = true;
        true
    }

    /// Brings a remembered pad up to date; true when a field changed.
    fn refresh(&mut self, controller: &ControllerStatus) -> (r: bool)
        ensures
            final(self)@.records == old(self)@.with_refreshed(controller@).records,
            final(self)@.nicknames == old(self)@.nicknames,
            final(self)@.dirty == old(self)@.dirty,
            r == (old(self)@.with_refreshed(controller@) != old(self)@ || (identity::storable(
                controller@.serial,
            ) && old(self)@.records.dom().contains(controller@.serial) && old(
                self,
            )@.records[controller@.serial] != old(self)@.refreshed(controller@))),
    {
        let serial = controller.serial.as_str();
        if !identity::is_storable_serial(serial) {
            return false;
        }
        let mut record = match self.by_serial.get(serial) {
            Some(record) => record.copy(),
            None => return false,
        };
        if !record.update_from_status(controller) {
            return false;
        }
        proof {
            lemma_records_insert(self.by_serial@, serial@, record);
        }
        self.by_serial.insert(text::own(serial), record);
        true
    }

    /// Remembers a pad; true when stored data changed.
    pub fn remember(&mut self, controller: &ControllerStatus) -> (r: bool)
        ensures
            final(self)@ == old(self)@.with_pad(controller@),
            r == (final(self)@.records != old(self)@.records),
    {
        let serial = controller.serial.as_str();
        if !identity::is_storable_serial(serial) {
            return false;
        }
        if self.by_serial.contains_key(serial) {
            let changed = self.refresh(controller);
            if changed {
                self.dirty = true;
                proof {
                    assert(self@.records[serial@] != old(self)@.records[serial@]);
                }
            }
            changed
        } else {
            let record = KnownController::from_status(controller);
            proof {
                lemma_records_insert(self.by_serial@, serial@, record);
                assert(!old(self)@.records.dom().contains(serial@));
                assert(old(self)@.records.insert(serial@, record@).dom().contains(serial@));
            }
            self.by_serial.insert(text::own(serial), record);
            self.dirty = true;
            true
        }
    }

    /// Forgets a pad; its nickname stays.
    pub fn forget(&mut self, serial: &str) -> (r: bool)
        ensures
            final(self)@ == old(self)@.without_pad(serial@),
            r == old(self)@.records.dom().contains(serial@),
    {
        proof {
            if old(self)@.records.dom().contains(serial@) {
                lemma_records_insert(self.by_serial@, serial@, self.by_serial@[serial@]);
            } else {
                assert(self.by_serial@.remove(serial@) =~= self.by_serial@);
            }
        }
        if self.by_serial.remove(serial).is_some() {
            self.dirty = true;
            true
        } else {
            false
        }
    }

    /// Refresh last-known fields for remembered pads that are currently connected.
    pub fn sync_from_live(&mut self, live: &[ControllerStatus]) -> (r: bool)
        ensures
            final(self)@ == old(self)@.synced(model::statuses(live@)),
            r == (StoreView { dirty: false, ..old(self)@ }).synced(model::statuses(live@)).dirty,
    {
        let ghost s = model::statuses(live@);
        let ghost start = self@;
        let ghost clean = StoreView { dirty: false, ..start };
        let mut changed = false;
        let mut i: usize = 0;
        while i < live.len()
            invariant
                i <= live@.len(),
                s == model::statuses(live@),
                start == old(self)@,
                self@.records == start.synced(s.take(i as int)).records,
                self@.nicknames == start.synced(s.take(i as int)).nicknames,
                self@.dirty == start.dirty,
                start.synced(s.take(i as int)).dirty == (start.dirty || changed),
                clean == (StoreView { dirty: false, ..start }),
                clean.synced(s.take(i as int)) == (StoreView {
                    dirty: changed,
                    ..start.synced(s.take(i as int))
                }),
            decreases live@.len() - i,
        {
            proof {
                assert(s.take(i + 1).drop_last() == s.take(i as int));
                assert(s.take(i + 1).last() == live@[i as int]@);
            }
            if self.refresh(&live[i]) {
                changed = true;
            }
            i = i + 1;
        }
        assert(s.take(i as int) == s);
        if changed {
            self.dirty = true;
        }
        changed
    }

    /// Remembered pads not in the live list, sorted by serial.
    pub fn remembered_disconnected<'a>(&'a self, live: &[ControllerStatus]) -> (r: Vec<
        &'a KnownController,
    >)
        ensures
            record_refs(r@) == disconnected(
                self@.records,
                text_map::in_order(self@.records.dom()),
                model::statuses(live@),
            ),
    {
        let ghost s = model::statuses(live@);
        let ghost keys = text_map::in_order(self.by_serial@.dom());
        assert(self@.records.dom() =~= self.by_serial@.dom());
        let mut out: Vec<&'a KnownController> = Vec::new();
        let n: usize = self.by_serial.len();
        let mut i: usize = 0;
        assert(record_refs(out@) =~= disconnected(self@.records, keys.take(0), s));
        while i < n
            invariant
                i <= n,
                n == keys.len(),
                n == self.by_serial@.dom().len(),
                s == model::statuses(live@),
                keys == text_map::in_order(self.by_serial@.dom()),
                record_refs(out@) == disconnected(self@.records, keys.take(i as int), s),
            decreases n - i,
        {
            let record = self.by_serial.value_at(i);
            let ghost before = record_refs(out@);
            assert(keys.take(i + 1).drop_last() == keys.take(i as int));
            assert(keys.take(i + 1).last() == keys[i as int]);
            assert(self@.records[keys[i as int]] == record@);
            if !has_serial(live, record.serial.as_str()) {
                out.push(record);
                assert(record_refs(out@) =~= before.push(record@));
            }
            i = i + 1;
        }
        assert(keys.take(i as int) == keys);
        out
    }
}

// ---------------------------------------------------------------------------
// Laws
// ---------------------------------------------------------------------------

/// What every operation keeps: only real identities are stored.
pub proof fn law_store_keeps_real_identities(
    store: StoreView,
    serial: Seq<char>,
    nickname: Option<Seq<char>>,
    pad: model::StatusView,
)
    requires
        store.wf(),
    ensures
        store.with_nickname(serial, nickname).wf(),
        store.with_pad(pad).wf(),
        store.with_refreshed(pad).wf(),
        store.without_pad(serial).wf(),
{
    if let Some(n) = nickname {
        lemma_trim_idempotent(n);
    }
}

/// Syncing keeps real identities and never remembers a pad that was not remembered.
pub proof fn law_sync_updates_only_remembered(store: StoreView, live: Seq<model::StatusView>)
    requires
        store.wf(),
    ensures
        store.synced(live).wf(),
        store.synced(live).records.dom() == store.records.dom(),
        store.synced(live).nicknames == store.nicknames,
    decreases live.len(),
{
    if live.len() > 0 {
        law_sync_updates_only_remembered(store, live.drop_last());
        let before = store.synced(live.drop_last());
        law_store_keeps_real_identities(before, live.last().serial, None, live.last());
        assert(store.synced(live).records.dom() =~= store.records.dom());
    }
}

/// A remembered pad can be forgotten, and its nickname survives that.
pub proof fn law_nickname_survives_forget(store: StoreView, pad: model::StatusView, name: Seq<char>)
    requires
        identity::storable(pad.serial),
        text::trim(name).len() > 0,
    ensures
        ({
            let named = store.with_pad(pad).with_nickname(pad.serial, Some(name));
            let gone = named.without_pad(pad.serial);
            &&& store.with_pad(pad).records.dom().contains(pad.serial)
            &&& !gone.records.dom().contains(pad.serial)
            &&& gone.nicknames.dom().contains(pad.serial)
            &&& gone.nicknames[pad.serial] == text::trim(name)
        }),
{
}

proof fn lemma_trim_idempotent(s: Seq<char>)
    ensures
        text::trim(text::trim(s)) == text::trim(s),
{
    let a = text::trim_start(s);
    let b = text::trim_end(a);
    lemma_trim_start_first(s);
    lemma_trim_end_ends(a);
}

proof fn lemma_trim_start_first(s: Seq<char>)
    ensures
        text::trim_start(s).len() > 0 ==> !text::is_space(text::trim_start(s)[0]),
    decreases s.len(),
{
    if s.len() > 0 && text::is_space(s[0]) {
        lemma_trim_start_first(s.drop_first());
    }
}

proof fn lemma_trim_end_ends(s: Seq<char>)
    ensures
        text::trim_end(s).len() > 0 ==> !text::is_space(text::trim_end(s).last())
            && text::trim_end(s)[0] == s[0],
    decreases s.len(),
{
    if s.len() > 0 && text::is_space(s.last()) {
        lemma_trim_end_ends(s.drop_last());
    }
}

proof fn lemma_indexed_in_order(m: Map<Seq<char>, RecordView>, keys: Seq<Seq<char>>)
    requires
        forall|i: int|
            0 <= i < keys.len() ==> m.dom().contains(#[trigger] keys[i]) && identity::storable(
                keys[i],
            ) && m[keys[i]].serial == keys[i],
    ensures
        indexed(in_serial_order(m, keys)) == m.restrict(keys.to_set()),
    decreases keys.len(),
{
    let list = in_serial_order(m, keys);
    if keys.len() == 0 {
        assert(indexed(list) =~= m.restrict(keys.to_set()));
    } else {
        let init = keys.drop_last();
        assert forall|i: int| 0 <= i < init.len() implies m.dom().contains(#[trigger] init[i])
            && identity::storable(init[i]) && m[init[i]].serial == init[i] by {
            assert(init[i] == keys[i]);
        }
        lemma_indexed_in_order(m, init);
        assert(list.drop_last() =~= in_serial_order(m, init));
        let k = keys.last();
        assert(keys[keys.len() - 1] == k);
        assert(keys == init.push(k));
        text_map::lemma_push_set(init, k);
        assert(list.last() == m[k]);
        assert(indexed(list) =~= m.restrict(keys.to_set()));
    }
}

/// A store reads back from its file as it was written, with nothing left to save.
pub proof fn law_file_reads_back(store: StoreView)
    requires
        store.wf(),
        store.records.dom().finite(),
    ensures
        loaded(
            in_serial_order(store.records, text_map::in_order(store.records.dom())),
            store.nicknames,
        ) == (StoreView { dirty: false, ..store }),
{
    text_map::lemma_in_order_exists(store.records.dom());
    let keys = text_map::in_order(store.records.dom());
    assert forall|i: int| 0 <= i < keys.len() implies store.records.dom().contains(
        #[trigger] keys[i],
    ) && identity::storable(keys[i]) && store.records[keys[i]].serial == keys[i] by {
        assert(keys.to_set().contains(keys[i]));
    }
    lemma_indexed_in_order(store.records, keys);
    assert(store.records.restrict(keys.to_set()) =~= store.records);
    assert(kept_nicknames(store.nicknames) =~= store.nicknames);
}

} // verus!
