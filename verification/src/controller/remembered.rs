//! Laws on remembered pads, on what a poll shows, and on developer pads.
use crate::controller::battery;
use crate::controller::driver;
use crate::controller::emulate;
use crate::controller::emulate::Preset;
use crate::controller::identity;
use crate::controller::input;
use crate::controller::known;
use crate::controller::known::{RecordView, StoreView};
use crate::controller::lightbar;
use crate::controller::model;
use crate::controller::model::{Connection, PowerState};
use crate::controller::poll;
use crate::text;
use vstd::prelude::*;

verus! {

// ---------------------------------------------------------------------------
// Remembered pads
// ---------------------------------------------------------------------------

/// A record that says of a pad what its status says.
pub open spec fn tells(r: RecordView, s: model::StatusView) -> bool {
    &&& r.serial == s.serial
    &&& r.product == s.product
    &&& r.connection == (match s.connection {
        Connection::Usb => "USB"@,
        Connection::Bluetooth => "Bluetooth"@,
    })
    &&& r.percent == s.percent
    &&& r.kind == s.kind
}

/// A remembered pad is on record as it was last seen; no other record changes, nor a nickname.
/// A pad without an identity is not remembered. The store is to be saved exactly when a record
/// changed.
pub proof fn law_remembered_pad_is_on_record(
    store: StoreView,
    pad: model::StatusView,
    other: Seq<char>,
)
    requires
        store.wf(),
        other != pad.serial,
    ensures
        ({
            let next = store.with_pad(pad);
            &&& pad.serial.len() > 0 && pad.serial != "unknown"@ ==> next.records.dom().contains(
                pad.serial,
            ) && tells(next.records[pad.serial], pad)
            &&& pad.serial.len() == 0 || pad.serial == "unknown"@ ==> next == store
            &&& next.records.dom().contains(other) == store.records.dom().contains(other)
            &&& store.records.dom().contains(other) ==> next.records[other] == store.records[other]
            &&& next.nicknames == store.nicknames
            &&& next.dirty == (store.dirty || next.records != store.records)
        }),
{
    let next = store.with_pad(pad);
    if identity::storable(pad.serial) {
        if store.records.dom().contains(pad.serial) {
            let old = store.records[pad.serial];
            assert(old.serial == pad.serial);
            if old != store.refreshed(pad) {
                assert(next.records[pad.serial] != store.records[pad.serial]);
            }
        } else {
            assert(next.records.dom().contains(pad.serial));
        }
    }
}

/// A forgotten pad is off record, and nothing else changes.
pub proof fn law_forgotten_pad_is_off_record(store: StoreView, serial: Seq<char>, other: Seq<char>)
    requires
        other != serial,
    ensures
        ({
            let next = store.without_pad(serial);
            &&& !next.records.dom().contains(serial)
            &&& next.records.dom().contains(other) == store.records.dom().contains(other)
            &&& store.records.dom().contains(other) ==> next.records[other] == store.records[other]
            &&& next.nicknames == store.nicknames
            &&& next.dirty == (store.dirty || store.records.dom().contains(serial))
        }),
{
}

/// A nickname is kept without the blanks around it; a blank one takes the nickname away. Other
/// pads keep theirs, and no record changes.
pub proof fn law_nickname_is_kept(
    store: StoreView,
    serial: Seq<char>,
    name: Seq<char>,
    other: Seq<char>,
)
    requires
        identity::storable(serial),
        other != serial,
    ensures
        ({
            let next = store.with_nickname(serial, Some(name));
            &&& text::trim(name).len() > 0 ==> next.nicknames.dom().contains(serial)
                && next.nicknames[serial] == text::trim(name)
            &&& text::trim(name).len() == 0 ==> !next.nicknames.dom().contains(serial)
            &&& next.nicknames.dom().contains(other) == store.nicknames.dom().contains(other)
            &&& store.nicknames.dom().contains(other) ==> next.nicknames[other]
                == store.nicknames[other]
            &&& next.records == store.records
        }),
        !store.with_nickname(serial, None).nicknames.dom().contains(serial),
{
}

/// A look at the live pads brings the records of remembered ones up to date, by their last status,
/// and leaves the records of the others.
pub proof fn law_live_pads_update_their_records(
    store: StoreView,
    live: Seq<model::StatusView>,
    serial: Seq<char>,
)
    requires
        store.wf(),
        store.records.dom().contains(serial),
    ensures
        ({
            let next = store.synced(live);
            let seen = exists|i: int| 0 <= i < live.len() && (#[trigger] live[i]).serial == serial;
            &&& next.wf()
            &&& next.records.dom().contains(serial)
            &&& !seen ==> next.records[serial] == store.records[serial]
            &&& seen ==> exists|i: int|
                0 <= i < live.len() && tells(next.records[serial], #[trigger] live[i])
                    && (forall|j: int|
                    i < j < live.len() ==> (#[trigger] live[j]).serial != serial)
        }),
    decreases live.len(),
{
    if live.len() > 0 {
        let init = live.drop_last();
        let n = live.len() - 1;
        law_live_pads_update_their_records(store, init, serial);
        known::law_sync_updates_only_remembered(store, live);
        let mid = store.synced(init);
        let next = store.synced(live);
        if live.last().serial == serial {
            assert(identity::storable(serial));
            assert(tells(next.records[serial], live[n]));
        } else {
            assert(next.records[serial] == mid.records[serial]);
            if exists|i: int| 0 <= i < live.len() && (#[trigger] live[i]).serial == serial {
                let i = choose|i: int|
                    0 <= i < live.len() && (#[trigger] live[i]).serial == serial;
                assert(init[i].serial == serial);
                let k = choose|k: int|
                    0 <= k < init.len() && tells(mid.records[serial], #[trigger] init[k])
                        && (forall|j: int|
                        k < j < init.len() ==> (#[trigger] init[j]).serial != serial);
                assert(tells(next.records[serial], live[k]));
                assert forall|j: int| k < j < live.len() implies (#[trigger] live[j]).serial
                    != serial by {
                    if j < n {
                        assert(init[j].serial != serial);
                    }
                }
            } else {
                assert forall|i: int| 0 <= i < init.len() implies (#[trigger] init[i]).serial
                    != serial by {
                    assert(live[i].serial != serial);
                }
            }
        }
    }
}

/// Listed as disconnected are the remembered pads that are not live, in the order of the keys.
pub proof fn law_absent_pads_are_listed(
    m: Map<Seq<char>, RecordView>,
    keys: Seq<Seq<char>>,
    key: Seq<char>,
    live: Seq<model::StatusView>,
)
    ensures
        known::disconnected(m, Seq::empty(), live).len() == 0,
        known::disconnected(m, keys.push(key), live) == known::disconnected(m, keys, live) + (
        if exists|i: int| 0 <= i < live.len() && (#[trigger] live[i]).serial == m[key].serial {
            Seq::<RecordView>::empty()
        } else {
            seq![m[key]]
        }),
{
    assert(keys.push(key).drop_last() == keys);
    let rest = known::disconnected(m, keys, live);
    assert(rest + Seq::<RecordView>::empty() == rest);
    assert(rest.push(m[key]) == rest + seq![m[key]]);
}

/// What is read from a file: of the records with one serial the last, and the nicknames that are
/// not blank; nothing without an identity. What was read is not to be saved.
pub proof fn law_file_is_taken_in(
    list: Seq<RecordView>,
    names: Map<Seq<char>, Seq<char>>,
    serial: Seq<char>,
    i: int,
)
    requires
        0 <= i < list.len(),
        list[i].serial == serial,
        forall|j: int| i < j < list.len() ==> (#[trigger] list[j]).serial != serial,
    ensures
        ({
            let store = known::loaded(list, names);
            let genuine = serial.len() > 0 && serial != "unknown"@;
            &&& store.records.dom().contains(serial) <==> genuine
            &&& genuine ==> store.records[serial] == list[i]
            &&& store.nicknames.dom().contains(serial) <==> genuine && names.dom().contains(serial)
                && text::trim(names[serial]).len() > 0
            &&& store.nicknames.dom().contains(serial) ==> store.nicknames[serial] == text::trim(
                names[serial],
            )
            &&& !store.dirty
        }),
    decreases list.len(),
{
    let init = list.drop_last();
    if i < list.len() - 1 {
        assert(list[list.len() - 1].serial != serial);
        assert forall|j: int| i < j < init.len() implies (#[trigger] init[j]).serial != serial by {
            assert(list[j].serial != serial);
        }
        law_file_is_taken_in(init, names, serial, i);
    } else {
        lemma_unreal(init, serial);
    }
}

proof fn lemma_unreal(list: Seq<RecordView>, serial: Seq<char>)
    ensures
        !identity::storable(serial) ==> !known::indexed(list).dom().contains(serial),
    decreases list.len(),
{
    if list.len() > 0 {
        lemma_unreal(list.drop_last(), serial);
    }
}

// ---------------------------------------------------------------------------
// Polls
// ---------------------------------------------------------------------------

/// Shown pads are numbered from 1 in the order of their serials, and show what was polled.
pub proof fn law_shown_pads_are_numbered(s: Seq<model::StatusView>, i: int, j: int)
    requires
        0 <= i < j < poll::shown(s).len(),
    ensures
        poll::shown(s)[i].index == i + 1,
        !text::text_lt(poll::shown(s)[j].serial, poll::shown(s)[i].serial),
        exists|k: int|
            0 <= k < s.len() && poll::shown(s)[i] == (model::StatusView {
                index: i + 1,
                ..#[trigger] s[k]
            }),
{
    let kept = battery::kept_pads(s, s.len());
    battery::law_dedupe(s, s.len());
    poll::law_sorted_by_serial(s, kept);
    let order = poll::shown_order(s);
    assert(!text::text_lt(
        battery::kept_serial(s, order, j),
        battery::kept_serial(s, order, i),
    ));
    assert(kept.contains(order[i]));
    let k = choose|k: int| 0 <= k < kept.len() && kept[k] == order[i];
    assert(0 <= kept[k] < s.len());
    assert(poll::shown(s)[i] == (model::StatusView { index: i + 1, ..s[order[i]] }));
}

/// No pad with an identity is shown twice, and each that was polled is shown.
pub proof fn law_every_pad_is_shown_once(s: Seq<model::StatusView>, i: int)
    requires
        0 <= i < s.len(),
        identity::storable(s[i].serial),
    ensures
        exists|k: int|
            0 <= k < poll::shown(s).len() && (#[trigger] poll::shown(s)[k]).serial == s[i].serial,
{
    let kept = battery::kept_pads(s, s.len());
    battery::law_dedupe(s, s.len());
    poll::law_sorted_by_serial(s, kept);
    let order = poll::shown_order(s);
    assert(battery::represented(s, kept, i));
    let at = battery::place_of(s, kept, s[i].serial);
    let x = kept[at];
    assert(kept.contains(x));
    kept.to_multiset_ensures();
    order.to_multiset_ensures();
    assert(kept.to_multiset().count(x) > 0);
    assert(order.contains(x));
    let k = choose|k: int| 0 <= k < order.len() && order[k] == x;
    assert(poll::shown(s)[k].serial == s[i].serial);
}

/// A claim outlives a poll exactly when its pad is shown and, with automatic colors on, was
/// connected before; a poll claims nothing.
pub proof fn law_claims_outlive_a_poll(
    claimed: Set<Seq<char>>,
    automatic: bool,
    shown: Seq<Seq<char>>,
    previously: Set<Seq<char>>,
    key: Seq<char>,
)
    ensures
        poll::claims_after_poll(claimed, automatic, shown, previously).contains(key)
            <==> claimed.contains(key) && (exists|i: int|
            0 <= i < shown.len() && identity::normalized(#[trigger] shown[i]) == key) && (!automatic
            || previously.contains(key)),
{
    lemma_claim_keys(shown, key);
}

proof fn lemma_claim_keys(serials: Seq<Seq<char>>, key: Seq<char>)
    ensures
        lightbar::claim_keys(serials).contains(key) <==> exists|i: int|
            0 <= i < serials.len() && identity::normalized(#[trigger] serials[i]) == key,
    decreases serials.len(),
{
    if serials.len() > 0 {
        let init = serials.drop_last();
        lemma_claim_keys(init, key);
        if exists|i: int| 0 <= i < init.len() && identity::normalized(#[trigger] init[i]) == key {
            let i = choose|i: int|
                0 <= i < init.len() && identity::normalized(#[trigger] init[i]) == key;
            assert(identity::normalized(serials[i]) == key);
        }
        if exists|i: int|
            0 <= i < serials.len() && identity::normalized(#[trigger] serials[i]) == key {
            let i = choose|i: int|
                0 <= i < serials.len() && identity::normalized(#[trigger] serials[i]) == key;
            if i < init.len() {
                assert(identity::normalized(init[i]) == key);
            }
        }
        assert(identity::normalized(serials[serials.len() - 1]) == key ==> lightbar::claim_key(
            serials.last(),
        ) == key);
    }
}

/// A Bluetooth report has one byte before what a USB report begins with.
pub proof fn law_bluetooth_reports_are_shifted(usb: Seq<u8>, tag: u8, i: int)
    ensures
        driver::report_base(Connection::Usb) == 0,
        input::byte_or(seq![tag] + usb, driver::report_base(Connection::Bluetooth) + i, 128)
            == input::byte_or(usb, i, 128) || i < 0,
{
}

// ---------------------------------------------------------------------------
// Developer pads
// ---------------------------------------------------------------------------

/// A step of charging adds 20 percent and ends full; a step of draining takes 20 percent and ends
/// at 5.
pub proof fn law_developer_steps_are_twenty_percent(percent: u8)
    requires
        percent <= 100,
    ensures
        percent < 80 ==> emulate::charged_more(percent) == percent + 20,
        percent >= 80 ==> emulate::charged_more(percent) == 100,
        percent >= 25 ==> emulate::drained_more(percent) == percent - 20,
        percent < 25 ==> emulate::drained_more(percent) == 5,
{
}

/// What each preset shows: how many pads, and the state of the first.
pub proof fn law_presets_show_what_they_say(current: Seq<model::StatusView>)
    ensures
        emulate::preset_pads(Preset::Clear, current).len() == 0,
        emulate::preset_pads(Preset::TwoPads, current).len() == 2,
        emulate::preset_pads(Preset::Discharging50, current).len() == 1,
        emulate::preset_pads(Preset::Discharging50, current)[0].percent == 50,
        emulate::preset_pads(Preset::Discharging50, current)[0].state == PowerState::Discharging,
        emulate::preset_pads(Preset::LowBattery, current)[0].low_battery(5),
        emulate::preset_pads(Preset::Charging, current)[0].state == PowerState::Charging,
        emulate::preset_pads(Preset::FullyCharged, current)[0].state == PowerState::Complete,
        emulate::preset_pads(Preset::FullyCharged, current)[0].percent == 100,
        emulate::preset_pads(
            Preset::ChargeCompleteStep,
            emulate::preset_pads(Preset::Charging, current),
        ) == emulate::preset_pads(Preset::FullyCharged, current),
        emulate::preset_pads(Preset::ChargeCompleteStep, Seq::empty()) == emulate::preset_pads(
            Preset::Charging,
            current,
        ),
{
    let c = emulate::preset_pads(Preset::Charging, current);
    assert(c[0].serial.take(emulate::serial_prefix().len() as int) == emulate::serial_prefix());
}

/// A list of records is kept by serial: of several with one serial the last, and only serials
/// that can be kept.
pub proof fn law_last_record_of_a_serial_is_kept(list: Seq<RecordView>, i: int)
    requires
        0 <= i < list.len(),
        forall|j: int| i < j < list.len() ==> (#[trigger] list[j]).serial != list[i].serial,
    ensures
        known::indexed(list).dom().contains(list[i].serial) <==> identity::storable(list[i].serial),
        identity::storable(list[i].serial) ==> known::indexed(list)[list[i].serial] == list[i],
    decreases list.len(),
{
    let init = list.drop_last();
    if i < list.len() - 1 {
        assert forall|j: int| i < j < init.len() implies (#[trigger] init[j]).serial
            != init[i].serial by {
            assert(list[j].serial != list[i].serial);
        }
        law_last_record_of_a_serial_is_kept(init, i);
        assert(list[list.len() - 1].serial != list[i].serial);
    } else if !identity::storable(list[i].serial) {
        lemma_only_storable(init, list[i].serial);
    }
}

proof fn lemma_only_storable(list: Seq<RecordView>, serial: Seq<char>)
    ensures
        known::indexed(list).dom().contains(serial) ==> identity::storable(serial),
    decreases list.len(),
{
    if list.len() > 0 {
        lemma_only_storable(list.drop_last(), serial);
    }
}

} // verus!
