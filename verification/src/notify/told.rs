//! Laws on which toasts a look brings, counted per pad and text.
use super::{EventView, NotifyKind, NotifyPrefs, SerialFlags};
use crate::controller::model;
use crate::controller::model::{Connection, PowerState};
use crate::prefs::Prefs;
use crate::text_map;
use crate::text_map::TextMap;
use vstd::prelude::*;

verus! {

/// A pad with this serial is in the snapshot.
pub open spec fn present(s: Seq<model::StatusView>, serial: Seq<char>) -> bool {
    exists|j: int| 0 <= j < s.len() && (#[trigger] s[j]).serial == serial
}

/// A pad that runs on its battery, at the threshold or below.
pub open spec fn runs_low(c: model::StatusView, threshold: u8) -> bool {
    c.state == PowerState::Discharging && c.percent <= threshold
}

/// Once, or not at all.
pub open spec fn once(b: bool) -> nat {
    if b {
        1
    } else {
        0
    }
}

/// The text of each kind of toast.
pub open spec fn text_of(kind: NotifyKind) -> Seq<char> {
    match kind {
        NotifyKind::Connect => "Connected"@,
        NotifyKind::Disconnect => "Disconnected"@,
        NotifyKind::Low => "Is low"@,
        NotifyKind::Charged => "Finished charging"@,
    }
}

proof fn lemma_texts()
    ensures
        forall|a: NotifyKind, b: NotifyKind| #[trigger]
            text_of(a) == #[trigger] text_of(b) ==> a == b,
        forall|c: model::StatusView, k: NotifyKind, n: Map<Seq<char>, Seq<char>>| #[trigger]
            super::event_of(c, k, n).body == text_of(k),
{
    super::lemma_bodies();
    reveal_strlit("Connected");
    reveal_strlit("Disconnected");
    assert("Connected"@.len() == 9 && "Disconnected"@.len() == 12);
}

proof fn lemma_presence(s: Seq<model::StatusView>, serial: Seq<char>)
    ensures
        super::has_pad(s, serial) == present(s, serial),
        super::last_with(s, serial) is Some == present(s, serial),
        super::last_with(s, serial) matches Some(c) ==> c.serial == serial && s.contains(c),
    decreases s.len(),
{
    if s.len() > 0 {
        let init = s.drop_last();
        lemma_presence(init, serial);
        if present(init, serial) {
            let j = choose|j: int| 0 <= j < init.len() && (#[trigger] init[j]).serial == serial;
            assert(s[j].serial == serial);
        }
        if present(s, serial) && s.last().serial != serial {
            let j = choose|j: int| 0 <= j < s.len() && (#[trigger] s[j]).serial == serial;
            assert(init[j].serial == serial);
        }
        if s.last().serial == serial {
            assert(s[s.len() - 1].serial == serial);
        } else if super::last_with(init, serial) is Some {
            let c = super::last_with(init, serial)->0;
            let j = choose|j: int| 0 <= j < init.len() && init[j] == c;
            assert(s[j] == c);
        }
    }
}

proof fn lemma_found(s: Seq<model::StatusView>, i: int)
    requires
        0 <= i < s.len(),
        super::distinct_serials(s),
    ensures
        super::last_with(s, s[i].serial) == Some(s[i]),
    decreases s.len(),
{
    if i < s.len() - 1 {
        let init = s.drop_last();
        assert(super::distinct_serials(init)) by {
            assert forall|a: int, b: int| 0 <= a < b < init.len() implies (#[trigger] init[a]).serial
                != (#[trigger] init[b]).serial by {
                assert(s[a].serial != s[b].serial);
            }
        }
        lemma_found(init, i);
        assert(s[i].serial != s[s.len() - 1].serial);
        assert(init[i] == s[i]);
    }
}

/// Disconnect toasts of one pad.
proof fn lemma_gone(
    previous: Seq<model::StatusView>,
    next: Seq<model::StatusView>,
    nicknames: Map<Seq<char>, Seq<char>>,
    serial: Seq<char>,
    body: Seq<char>,
)
    requires
        super::distinct_serials(previous),
    ensures
        super::told_times(super::disconnect_events(previous, next, nicknames), serial, body)
            == once(body == "Disconnected"@ && present(previous, serial) && !present(next, serial)),
    decreases previous.len(),
{
    if previous.len() > 0 {
        let init = previous.drop_last();
        let rest = super::disconnect_events(init, next, nicknames);
        let e = super::event_of(previous.last(), NotifyKind::Disconnect, nicknames);
        assert(super::distinct_serials(init)) by {
            assert forall|a: int, b: int| 0 <= a < b < init.len() implies (#[trigger] init[a]).serial
                != (#[trigger] init[b]).serial by {
                assert(previous[a].serial != previous[b].serial);
            }
        }
        lemma_gone(init, next, nicknames, serial, body);
        assert(rest.push(e).drop_last() == rest);
        lemma_presence(next, previous.last().serial);
        let z = previous.len() - 1;
        if previous.last().serial == serial {
            assert(previous[z].serial == serial);
            if present(init, serial) {
                let j = choose|j: int| 0 <= j < init.len() && (#[trigger] init[j]).serial == serial;
                assert(previous[j].serial != previous[z].serial);
            }
        } else {
            if present(init, serial) {
                let j = choose|j: int| 0 <= j < init.len() && (#[trigger] init[j]).serial == serial;
                assert(previous[j].serial == serial);
            }
            if present(previous, serial) {
                let j = choose|j: int|
                    0 <= j < previous.len() && (#[trigger] previous[j]).serial == serial;
                assert(init[j].serial == serial);
            }
        }
    }
}

/// Toasts of one look at a pad, by text.
proof fn lemma_own(
    flags: SerialFlags,
    prev: Option<model::StatusView>,
    next: Seq<model::StatusView>,
    p: NotifyPrefs,
    nicknames: Map<Seq<char>, Seq<char>>,
    i: int,
    kind: NotifyKind,
)
    ensures
        ({
            let c = next[i];
            let f = super::formatted(
                super::tagged(i, super::pad_kinds(flags, prev, c, p)),
                next,
                nicknames,
            );
            super::told_times(f, c.serial, text_of(kind)) == once(
                match kind {
                    NotifyKind::Connect => prev is None && p.connect,
                    NotifyKind::Disconnect => false,
                    NotifyKind::Low => super::turns_low(flags, prev, c, p),
                    NotifyKind::Charged => super::turns_complete(flags, prev, c, p),
                },
            )
        }),
{
    let c = next[i];
    let body = text_of(kind);
    let f = super::formatted(
        super::tagged(i, super::pad_kinds(flags, prev, c, p)),
        next,
        nicknames,
    );
    let connects = prev is None && p.connect;
    let low = super::turns_low(flags, prev, c, p);
    let complete = super::turns_complete(flags, prev, c, p);
    let a: Seq<NotifyKind> = if connects {
        seq![NotifyKind::Connect]
    } else {
        seq![]
    };
    let b: Seq<NotifyKind> = if low {
        seq![NotifyKind::Low]
    } else {
        seq![]
    };
    let d: Seq<NotifyKind> = if complete {
        seq![NotifyKind::Charged]
    } else {
        seq![]
    };
    let fa = super::formatted(super::tagged(i, a), next, nicknames);
    let fb = super::formatted(super::tagged(i, b), next, nicknames);
    let fd = super::formatted(super::tagged(i, d), next, nicknames);
    assert(f =~= (fa + fb) + fd);
    super::lemma_told_add(fa + fb, fd, c.serial, body);
    super::lemma_told_add(fa, fb, c.serial, body);
    super::lemma_one_kind(connects, NotifyKind::Connect, next, nicknames, i, body);
    super::lemma_one_kind(low, NotifyKind::Low, next, nicknames, i, body);
    super::lemma_one_kind(complete, NotifyKind::Charged, next, nicknames, i, body);
    lemma_texts();
    assert(text_of(NotifyKind::Connect) == body ==> kind == NotifyKind::Connect);
    assert(text_of(NotifyKind::Low) == body ==> kind == NotifyKind::Low);
    assert(text_of(NotifyKind::Charged) == body ==> kind == NotifyKind::Charged);
}

/// Toasts of the looks at pads with other serials.
proof fn lemma_strangers(
    m: Map<Seq<char>, SerialFlags>,
    previous: Seq<model::StatusView>,
    next: Seq<model::StatusView>,
    p: NotifyPrefs,
    nicknames: Map<Seq<char>, Seq<char>>,
    serial: Seq<char>,
    body: Seq<char>,
    n: nat,
)
    requires
        n <= next.len(),
        !present(next, serial),
    ensures
        super::told_times(
            super::formatted(super::events_after(m, previous, next, p, n), next, nicknames),
            serial,
            body,
        ) == 0,
    decreases n,
{
    if n > 0 {
        let k = n - 1;
        lemma_strangers(m, previous, next, p, nicknames, serial, body, k as nat);
        let c = next[k];
        let flags = super::flags_of(super::flags_after(m, previous, next, p, k as nat), c.serial);
        let kinds = super::pad_kinds(flags, super::last_with(previous, c.serial), c, p);
        let head = super::formatted(
            super::events_after(m, previous, next, p, k as nat),
            next,
            nicknames,
        );
        let tail = super::formatted(super::tagged(k, kinds), next, nicknames);
        assert(super::formatted(super::events_after(m, previous, next, p, n), next, nicknames)
            == head + tail);
        super::lemma_told_add(head, tail, serial, body);
        assert(next[k].serial != serial);
        super::lemma_other_pad(kinds, next, nicknames, k, serial, body);
    }
}

/// All toasts of one text that a look brings to a pad.
proof fn lemma_counts(
    m: Map<Seq<char>, SerialFlags>,
    previous: Seq<model::StatusView>,
    next: Seq<model::StatusView>,
    p: NotifyPrefs,
    nicknames: Map<Seq<char>, Seq<char>>,
    serial: Seq<char>,
    kind: NotifyKind,
)
    requires
        super::distinct_serials(previous),
        super::distinct_serials(next),
    ensures
        ({
            let told = super::told_times(
                super::evaluated_events(m, previous, next, p, nicknames),
                serial,
                text_of(kind),
            );
            &&& kind == NotifyKind::Connect ==> told == once(
                p.connect && present(next, serial) && !present(previous, serial),
            )
            &&& kind == NotifyKind::Disconnect ==> told == once(
                p.disconnect && present(previous, serial) && !present(next, serial),
            )
            &&& (kind == NotifyKind::Low || kind == NotifyKind::Charged) && !present(next, serial)
                ==> told == 0
            &&& forall|i: int|
                0 <= i < next.len() && (#[trigger] next[i]).serial == serial ==> {
                    let flags = super::flags_of(super::still_connected(m, next), serial);
                    let prev = super::last_with(previous, serial);
                    &&& kind == NotifyKind::Low ==> told == once(
                        super::turns_low(flags, prev, next[i], p),
                    )
                    &&& kind == NotifyKind::Charged ==> told == once(
                        super::turns_complete(flags, prev, next[i], p),
                    )
                }
        }),
{
    let body = text_of(kind);
    let start = super::still_connected(m, next);
    let own = super::formatted(
        super::events_after(start, previous, next, p, next.len()),
        next,
        nicknames,
    );
    let gone = if p.disconnect {
        super::disconnect_events(previous, next, nicknames)
    } else {
        seq![]
    };
    lemma_texts();
    assert(body == text_of(NotifyKind::Disconnect) <==> kind == NotifyKind::Disconnect);
    super::lemma_told_add(own, gone, serial, body);
    lemma_gone(previous, next, nicknames, serial, body);
    lemma_presence(previous, serial);
    let flags = super::flags_of(start, serial);
    let prev = super::last_with(previous, serial);
    if present(next, serial) {
        assert forall|i: int| 0 <= i < next.len() && (#[trigger] next[i]).serial == serial implies {
            super::told_times(own, serial, body) == once(
                match kind {
                    NotifyKind::Connect => prev is None && p.connect,
                    NotifyKind::Disconnect => false,
                    NotifyKind::Low => super::turns_low(flags, prev, next[i], p),
                    NotifyKind::Charged => super::turns_complete(flags, prev, next[i], p),
                },
            )
        } by {
            super::lemma_told_at(start, previous, next, p, nicknames, i, next.len(), body);
            lemma_own(flags, prev, next, p, nicknames, i, kind);
        }
        let w = choose|j: int| 0 <= j < next.len() && (#[trigger] next[j]).serial == serial;
        assert(next[w].serial == serial);
    } else {
        lemma_strangers(start, previous, next, p, nicknames, serial, body, next.len());
    }
}

/// With disconnect toasts on, each pad of the previous snapshot whose serial is not in the next
/// one gets exactly one "Disconnected" toast, whatever other pads are connected; a pad that is
/// still there, or never was, gets none. With them off, nobody does.
pub proof fn law_gone_pads_are_told_once(
    m: Map<Seq<char>, SerialFlags>,
    previous: Seq<model::StatusView>,
    next: Seq<model::StatusView>,
    p: NotifyPrefs,
    nicknames: Map<Seq<char>, Seq<char>>,
    serial: Seq<char>,
)
    requires
        super::distinct_serials(previous),
        super::distinct_serials(next),
    ensures
        super::told_times(
            super::evaluated_events(m, previous, next, p, nicknames),
            serial,
            "Disconnected"@,
        ) == once(p.disconnect && present(previous, serial) && !present(next, serial)),
{
    lemma_counts(m, previous, next, p, nicknames, serial, NotifyKind::Disconnect);
}

/// With connect toasts on, each pad whose serial was not in the previous snapshot gets exactly
/// one "Connected" toast; one that was there before, or is not here now, gets none. With them
/// off, nobody does.
pub proof fn law_new_pads_are_told_once(
    m: Map<Seq<char>, SerialFlags>,
    previous: Seq<model::StatusView>,
    next: Seq<model::StatusView>,
    p: NotifyPrefs,
    nicknames: Map<Seq<char>, Seq<char>>,
    serial: Seq<char>,
)
    requires
        super::distinct_serials(previous),
        super::distinct_serials(next),
    ensures
        super::told_times(
            super::evaluated_events(m, previous, next, p, nicknames),
            serial,
            "Connected"@,
        ) == once(p.connect && present(next, serial) && !present(previous, serial)),
{
    lemma_counts(m, previous, next, p, nicknames, serial, NotifyKind::Connect);
}

/// With low toasts on all along, a pad gets one "Is low" toast exactly on the snapshot in which
/// it comes to run low: on battery, at the threshold or below, and absent or not so just before.
/// With them off, nobody gets one.
pub proof fn law_low_pads_are_told_once(
    snaps: Seq<Seq<model::StatusView>>,
    p: NotifyPrefs,
    nicknames: Map<Seq<char>, Seq<char>>,
    i: int,
)
    requires
        snaps.len() >= 2,
        super::distinct_serials(snaps.last()),
        super::distinct_serials(snaps[snaps.len() - 2]),
        0 <= i < snaps.last().len(),
    ensures
        ({
            let previous = snaps[snaps.len() - 2];
            let c = snaps.last()[i];
            let was_low = exists|j: int|
                0 <= j < previous.len() && (#[trigger] previous[j]).serial == c.serial && runs_low(
                    previous[j],
                    p.threshold,
                );
            super::told_times(
                super::evaluated_events(
                    super::run_flags(snaps.drop_last(), p),
                    previous,
                    snaps.last(),
                    p,
                    nicknames,
                ),
                c.serial,
                "Is low"@,
            ) == once(p.low && runs_low(c, p.threshold) && !was_low)
        }),
{
    let before = snaps.drop_last();
    let previous = before.last();
    let next = snaps.last();
    let c = next[i];
    let m = super::run_flags(before, p);
    assert(previous == snaps[snaps.len() - 2]);
    lemma_counts(m, previous, next, p, nicknames, c.serial, NotifyKind::Low);
    super::lemma_run_flags(before, p, c.serial);
    assert(next[i].serial == c.serial);
    assert(super::has_pad(next, c.serial));
    assert(super::flags_of(super::still_connected(m, next), c.serial) == super::flags_of(
        m,
        c.serial,
    ));
    lemma_presence(previous, c.serial);
    if exists|j: int|
        0 <= j < previous.len() && (#[trigger] previous[j]).serial == c.serial && runs_low(
            previous[j],
            p.threshold,
        ) {
        let j = choose|j: int|
            0 <= j < previous.len() && (#[trigger] previous[j]).serial == c.serial && runs_low(
                previous[j],
                p.threshold,
            );
        lemma_found(previous, j);
    } else if super::last_with(previous, c.serial) is Some {
        let b = super::last_with(previous, c.serial)->0;
        let j = choose|j: int| 0 <= j < previous.len() && previous[j] == b;
        assert(previous[j].serial == c.serial);
    }
}

/// With charge toasts on all along, a pad gets one "Finished charging" toast exactly on the
/// snapshot in which it becomes full after it was seen not full; a pad that appears full gets
/// none. With them off, nobody gets one.
pub proof fn law_full_pads_are_told_once(
    snaps: Seq<Seq<model::StatusView>>,
    p: NotifyPrefs,
    nicknames: Map<Seq<char>, Seq<char>>,
    i: int,
)
    requires
        snaps.len() >= 2,
        super::distinct_serials(snaps.last()),
        super::distinct_serials(snaps[snaps.len() - 2]),
        0 <= i < snaps.last().len(),
    ensures
        ({
            let previous = snaps[snaps.len() - 2];
            let c = snaps.last()[i];
            let was_filling = exists|j: int|
                0 <= j < previous.len() && (#[trigger] previous[j]).serial == c.serial
                    && previous[j].state != PowerState::Complete;
            super::told_times(
                super::evaluated_events(
                    super::run_flags(snaps.drop_last(), p),
                    previous,
                    snaps.last(),
                    p,
                    nicknames,
                ),
                c.serial,
                "Finished charging"@,
            ) == once(p.charged && c.state == PowerState::Complete && was_filling)
        }),
{
    let before = snaps.drop_last();
    let previous = before.last();
    let next = snaps.last();
    let c = next[i];
    let m = super::run_flags(before, p);
    assert(previous == snaps[snaps.len() - 2]);
    lemma_counts(m, previous, next, p, nicknames, c.serial, NotifyKind::Charged);
    super::lemma_run_flags(before, p, c.serial);
    assert(next[i].serial == c.serial);
    assert(super::has_pad(next, c.serial));
    assert(super::flags_of(super::still_connected(m, next), c.serial) == super::flags_of(
        m,
        c.serial,
    ));
    lemma_presence(previous, c.serial);
    if exists|j: int|
        0 <= j < previous.len() && (#[trigger] previous[j]).serial == c.serial
            && previous[j].state != PowerState::Complete {
        let j = choose|j: int|
            0 <= j < previous.len() && (#[trigger] previous[j]).serial == c.serial
                && previous[j].state != PowerState::Complete;
        lemma_found(previous, j);
    } else if super::last_with(previous, c.serial) is Some {
        let b = super::last_with(previous, c.serial)->0;
        let j = choose|j: int| 0 <= j < previous.len() && previous[j] == b;
        assert(previous[j].serial == c.serial);
    }
}

/// A toast that shows a pad: its nickname, or its product where it has none, and how it is
/// connected; its percentage and state, and 100 on a finished charge.
pub open spec fn shows_pad(
    e: EventView,
    c: model::StatusView,
    nicknames: Map<Seq<char>, Seq<char>>,
) -> bool {
    let name = if nicknames.dom().contains(c.serial) && nicknames[c.serial].len() > 0 {
        nicknames[c.serial]
    } else {
        c.product
    };
    &&& e.serial == c.serial
    &&& e.heading == name + (match c.connection {
        Connection::Usb => " (USB)"@,
        Connection::Bluetooth => " (Bluetooth)"@,
    })
    &&& e.body != "Finished charging"@ ==> e.percent == Some(c.percent) && e.state == c.state
    &&& e.body == "Finished charging"@ ==> e.percent == Some(100u8) && c.state
        == PowerState::Complete && e.state == PowerState::Complete
}

/// Every toast shows a pad of the two snapshots: the one that is gone where it says so, one of
/// the next snapshot otherwise.
pub proof fn law_toasts_show_their_pad(
    m: Map<Seq<char>, SerialFlags>,
    previous: Seq<model::StatusView>,
    next: Seq<model::StatusView>,
    p: NotifyPrefs,
    nicknames: Map<Seq<char>, Seq<char>>,
    k: int,
)
    requires
        0 <= k < super::evaluated_events(m, previous, next, p, nicknames).len(),
    ensures
        ({
            let e = super::evaluated_events(m, previous, next, p, nicknames)[k];
            if e.body == "Disconnected"@ {
                exists|j: int|
                    0 <= j < previous.len() && shows_pad(e, #[trigger] previous[j], nicknames)
            } else {
                exists|j: int| 0 <= j < next.len() && shows_pad(e, #[trigger] next[j], nicknames)
            }
        }),
{
    let start = super::still_connected(m, next);
    let at = super::events_after(start, previous, next, p, next.len());
    let own = super::formatted(at, next, nicknames);
    let e = super::evaluated_events(m, previous, next, p, nicknames)[k];
    lemma_texts();
    if k < own.len() {
        lemma_places(start, previous, next, p, next.len(), k);
        let c = next[at[k].0];
        lemma_shows(c, at[k].1, nicknames);
        assert(text_of(at[k].1) != text_of(NotifyKind::Disconnect));
        assert(shows_pad(e, next[at[k].0], nicknames));
    } else {
        lemma_gone_shown(previous, next, nicknames, k - own.len());
    }
}

proof fn lemma_shows(c: model::StatusView, kind: NotifyKind, nicknames: Map<Seq<char>, Seq<char>>)
    requires
        kind == NotifyKind::Charged ==> c.state == PowerState::Complete,
    ensures
        shows_pad(super::event_of(c, kind, nicknames), c, nicknames),
{
    lemma_texts();
    reveal_strlit(" (");
    reveal_strlit(")");
    reveal_strlit("USB");
    reveal_strlit("Bluetooth");
    reveal_strlit(" (USB)");
    reveal_strlit(" (Bluetooth)");
    let e = super::event_of(c, kind, nicknames);
    let tail = match c.connection {
        Connection::Usb => " (USB)"@,
        Connection::Bluetooth => " (Bluetooth)"@,
    };
    assert(" ("@ + c.connection.label() + ")"@ =~= tail);
    assert(e.heading =~= super::pad_name(c, nicknames) + tail);
    assert(e.body == text_of(NotifyKind::Charged) <==> kind == NotifyKind::Charged);
}

proof fn lemma_places(
    m: Map<Seq<char>, SerialFlags>,
    previous: Seq<model::StatusView>,
    next: Seq<model::StatusView>,
    p: NotifyPrefs,
    n: nat,
    k: int,
)
    requires
        n <= next.len(),
        0 <= k < super::events_after(m, previous, next, p, n).len(),
    ensures
        ({
            let at = super::events_after(m, previous, next, p, n)[k];
            &&& 0 <= at.0 < n
            &&& at.1 != NotifyKind::Disconnect
            &&& at.1 == NotifyKind::Charged ==> next[at.0].state == PowerState::Complete
        }),
    decreases n,
{
    if n > 0 {
        let head = super::events_after(m, previous, next, p, (n - 1) as nat);
        if k < head.len() {
            lemma_places(m, previous, next, p, (n - 1) as nat, k);
        }
    }
}

proof fn lemma_gone_shown(
    previous: Seq<model::StatusView>,
    next: Seq<model::StatusView>,
    nicknames: Map<Seq<char>, Seq<char>>,
    k: int,
)
    requires
        0 <= k < super::disconnect_events(previous, next, nicknames).len(),
    ensures
        ({
            let e = super::disconnect_events(previous, next, nicknames)[k];
            &&& e.body == "Disconnected"@
            &&& exists|j: int|
                0 <= j < previous.len() && shows_pad(e, #[trigger] previous[j], nicknames)
        }),
    decreases previous.len(),
{
    if previous.len() > 0 {
        let init = previous.drop_last();
        let rest = super::disconnect_events(init, next, nicknames);
        let e = super::disconnect_events(previous, next, nicknames)[k];
        if k < rest.len() {
            lemma_gone_shown(init, next, nicknames, k);
            let j = choose|j: int|
                0 <= j < init.len() && shows_pad(e, #[trigger] init[j], nicknames);
            assert(shows_pad(e, previous[j], nicknames));
        } else {
            lemma_shows(previous.last(), NotifyKind::Disconnect, nicknames);
            assert(shows_pad(e, previous[previous.len() - 1], nicknames));
        }
    }
}

/// Any call that looks at two snapshots tells of a pad's going and coming exactly once, whatever
/// other pads do: of its going if it was there before and is not now, of its coming if it was not
/// there before and is now, each where its toasts are on.
pub proof fn law_calls_tell_of_going_and_coming(
    tracker: &mut super::NotifyTracker,
    previous: &[model::ControllerStatus],
    next: &[model::ControllerStatus],
    prefs: &Prefs,
    nicknames: &TextMap<String>,
    r: Vec<super::NotifyEvent>,
    serial: Seq<char>,
)
    requires
        call_ensures(
            super::NotifyTracker::evaluate,
            (tracker, previous, next, prefs, nicknames),
            r,
        ),
        super::distinct_serials(model::statuses(previous@)),
        super::distinct_serials(model::statuses(next@)),
    ensures
        ({
            let was = present(model::statuses(previous@), serial);
            let here = present(model::statuses(next@), serial);
            let events = super::event_views(r@);
            &&& super::told_times(events, serial, "Disconnected"@) == once(
                prefs.notify_disconnect && was && !here,
            )
            &&& super::told_times(events, serial, "Connected"@) == once(
                prefs.notify_connect && here && !was,
            )
        }),
{
    let m = old(tracker).by_serial@;
    let a = model::statuses(previous@);
    let b = model::statuses(next@);
    let p = super::notify_prefs(*prefs);
    let names = text_map::texts(nicknames@);
    law_gone_pads_are_told_once(m, a, b, p, names, serial);
    law_new_pads_are_told_once(m, a, b, p, names, serial);
}

} // verus!
