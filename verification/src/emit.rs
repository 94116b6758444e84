//! The emitter: a state to output. It serves the out-of-world observer: the OFFICIAL face
//! beside the ACTUAL face, plus the discrepancy count, a view no in-world audience has.
//!
//! `project` is the single read path: what a reader of a given clearance, in a given
//! room, sees of the log. Every rendering below goes through it.

use vstd::prelude::*;
use vstd::string::*;
use crate::model::{
    clearance_label, court_label, rank, render_of, Audience, Clearance, Event, Jurisdiction, ListEntry, Provenance,
    RegEntry, Slot, Val, NEITHER_CONFIRM_NOR_DENY, REDACTED_ELEM, UNAVAILABLE,
};
use crate::cli::Output;
use crate::runtime::{log_ok, public_count, State};
use crate::text::{
    cat, cat3, cat5, has_sub, i64_str, int_str, join, join_spec, lowercase, owned, push_char, str_contains, str_eq,
    to_lowercase, u64_str, views,
};

verus! {

/// The placeholder a RESTRICTED reader sees for classified activity.
pub const PLACEHOLDER: &'static str = "[\u{2588}\u{2588}\u{2588}\u{2588} \u{2014} classified activity (insiders only)]";

pub const SEP_OFFICIAL: &'static str = "  \u{250c}\u{2500} OFFICIAL face \u{00b7} press_release \u{00b7} PUBLIC \u{2500}\u{2500}\u{2500}\u{2500}\u{2500}\u{2500}\u{2500}\u{2500}\u{2500}\u{2500}\u{2500}\u{2500}\u{2500}\u{2500}\u{2500}\u{2500}\u{2500}\u{2500}\u{2500}\u{2500}\u{2500}";
pub const SEP_RESTRICTED: &'static str = "  \u{251c}\u{2500} RESTRICTED face \u{00b7} redacted truth \u{2500}\u{2500}\u{2500}\u{2500}\u{2500}\u{2500}\u{2500}\u{2500}\u{2500}\u{2500}\u{2500}\u{2500}\u{2500}\u{2500}\u{2500}\u{2500}\u{2500}\u{2500}\u{2500}\u{2500}\u{2500}\u{2500}\u{2500}\u{2500}\u{2500}\u{2500}";
pub const SEP_ACTUAL: &'static str = "  \u{251c}\u{2500} ACTUAL face   \u{00b7} \u{05e1}\u{05d5}\u{05d3}\u{05d9} \u{00b7} insider (candid) \u{2500}\u{2500}\u{2500}\u{2500}\u{2500}\u{2500}\u{2500}\u{2500}\u{2500}\u{2500}\u{2500}\u{2500}\u{2500}\u{2500}\u{2500}\u{2500}\u{2500}\u{2500}";
pub const SEP_DOUBLETALK: &'static str = "  \u{251c}\u{2500} out-of-world \u{00b7} W-DOUBLETALK (no room saw this) \u{2500}\u{2500}\u{2500}\u{2500}\u{2500}\u{2500}\u{2500}\u{2500}\u{2500}\u{2500}\u{2500}\u{2500}";
pub const SEP_META: &'static str = "  \u{251c}\u{2500} meta-ledger \u{00b7} \u{05e1}\u{05d5}\u{05d3}\u{05d9} \u{00b7} rule-changes (indelible, I12) \u{2500}\u{2500}\u{2500}\u{2500}\u{2500}\u{2500}\u{2500}\u{2500}";
pub const SEP_FRAMING: &'static str = "  \u{251c}\u{2500} framing (part of the spec \u{2014} I8) \u{2500}\u{2500}\u{2500}\u{2500}\u{2500}\u{2500}\u{2500}\u{2500}\u{2500}\u{2500}\u{2500}\u{2500}\u{2500}\u{2500}\u{2500}\u{2500}\u{2500}\u{2500}\u{2500}\u{2500}\u{2500}\u{2500}\u{2500}\u{2500}\u{2500}\u{2500}\u{2500}";

// ─────────── the single read path ───────────

/// Whether a room hears an event: the out-of-world record hears everything; a room hears
/// what was addressed to it or to no specific room.
pub open spec fn heard_in(ev: Event, audience: Audience) -> bool {
    audience == Audience::Record || ev.audience == Audience::Record || ev.audience == audience
}

/// What a reader of clearance `reader` reads of one event: a cleared reader reads the
/// candid truth when at least RESTRICTED, else (PUBLIC on a PUBLIC event) the official
/// narrative; a RESTRICTED reader on a higher-clearance event reads the placeholder; a
/// PUBLIC reader on a covert event reads nothing.
pub open spec fn face(ev: Event, reader: Clearance) -> Option<Seq<char>> {
    if rank(ev.clearance) <= rank(reader) {
        if rank(reader) >= 1 { Some(ev.candid@) } else { Some(ev.official@) }
    } else if reader == Clearance::Restricted {
        Some(PLACEHOLDER@)
    } else {
        None
    }
}

/// The lines a reader in a room reads of a log, in order.
pub open spec fn event_lines(log: Seq<Event>, reader: Clearance, audience: Audience) -> Seq<Seq<char>>
    decreases log.len(),
{
    if log.len() == 0 {
        Seq::empty()
    } else {
        let prev = event_lines(log.drop_last(), reader, audience);
        if heard_in(log.last(), audience) {
            match face(log.last(), reader) {
                Some(l) => prev.push(l),
                None => prev,
            }
        } else {
            prev
        }
    }
}

/// The events of a log a room hears, in order.
pub open spec fn heard(log: Seq<Event>, audience: Audience) -> Seq<Event>
    decreases log.len(),
{
    if log.len() == 0 {
        Seq::empty()
    } else if heard_in(log.last(), audience) {
        heard(log.drop_last(), audience).push(log.last())
    } else {
        heard(log.drop_last(), audience)
    }
}

/// Rooms are isolated: what a reader in a room reads is exactly what the out-of-world
/// record reads of the events that room hears; another room's statements never reach it.
pub proof fn law_rooms_are_isolated(log: Seq<Event>, reader: Clearance, audience: Audience)
    ensures
        event_lines(log, reader, audience) == event_lines(heard(log, audience), reader, Audience::Record),
    decreases log.len(),
{
    if log.len() > 0 {
        law_rooms_are_isolated(log.drop_last(), reader, audience);
        if heard_in(log.last(), audience) {
            assert(heard(log, audience).drop_last() =~= heard(log.drop_last(), audience));
        }
    }
}

/// The PUBLIC reader reads only the OFFICIAL face of PUBLIC events: each of its lines is
/// the official face of some PUBLIC event of the log.
pub proof fn law_public_reads_only_public_official_faces(log: Seq<Event>, audience: Audience)
    ensures
        forall|k: int| 0 <= k < event_lines(log, Clearance::Public, audience).len() ==> exists|i: int|
            0 <= i < log.len() && log[i].clearance == Clearance::Public
                && #[trigger] event_lines(log, Clearance::Public, audience)[k] == log[i].official@,
    decreases log.len(),
{
    if log.len() > 0 {
        let prev = log.drop_last();
        law_public_reads_only_public_official_faces(prev, audience);
        let lines = event_lines(log, Clearance::Public, audience);
        let before = event_lines(prev, Clearance::Public, audience);
        assert forall|k: int| 0 <= k < lines.len() implies exists|i: int|
            0 <= i < log.len() && log[i].clearance == Clearance::Public && #[trigger] lines[k] == log[i].official@ by {
            if k < before.len() {
                assert(lines[k] == before[k]);
                let i = choose|i: int| 0 <= i < prev.len() && prev[i].clearance == Clearance::Public && before[k] == prev[i].official@;
                assert(log[i] == prev[i]);
            } else {
                assert(log[log.len() - 1] == log.last());
            }
        }
    }
}

/// A laundered or deniable event never shows its attribution chain on the PUBLIC face:
/// in a sound log, what a PUBLIC reader reads of an attributed event is the non-answer.
pub proof fn law_chain_never_on_public_face(log: Seq<Event>, i: int)
    requires
        log_ok(log),
        0 <= i < log.len(),
        log[i].attribution is Some,
    ensures
        face(log[i], Clearance::Public) matches Some(l) ==> l == NEITHER_CONFIRM_NOR_DENY@,
{
    assert(crate::runtime::event_ok(log[i]));
}

/// An announced claim has no recoverable ACTUAL face: in a sound log, every cleared
/// reader (RESTRICTED or above) reads only the `UNAVAILABLE` sentinel of an announced
/// event, never a reconstructed reality.
pub proof fn law_announced_claims_have_no_actual(log: Seq<Event>, i: int, reader: Clearance)
    requires
        log_ok(log),
        0 <= i < log.len(),
        log[i].provenance == Provenance::AuthoredOfficial,
        rank(reader) >= 1,
        rank(log[i].clearance) <= rank(reader),
    ensures
        face(log[i], reader) == Some(UNAVAILABLE@),
{
    assert(crate::runtime::event_ok(log[i]));
}

/// A PUBLIC reader never reads a covert (`סודי`) event at all, in any room.
pub proof fn law_covert_events_absent_from_public(log: Seq<Event>, i: int)
    requires
        0 <= i < log.len(),
        log[i].clearance == Clearance::Sodi,
    ensures
        face(log[i], Clearance::Public) is None,
{
}

fn same_clearance(a: Clearance, b: Clearance) -> (r: bool)
    ensures
        r == (a == b),
{
    a.level() == b.level()
}

fn same_room(a: Audience, b: Audience) -> (r: bool)
    ensures
        r == (a == b),
{
    match (a, b) {
        (Audience::Domestic, Audience::Domestic) => true,
        (Audience::International, Audience::International) => true,
        (Audience::Record, Audience::Record) => true,
        _ => false,
    }
}

/// The lines of the log a reader in a room reads.
pub fn log_lines(log: &Vec<Event>, reader: Clearance, audience: Audience) -> (r: Vec<String>)
    ensures
        views(r@) == event_lines(log@, reader, audience),
{
    let mut out: Vec<String> = Vec::new();
    let mut i: usize = 0;
    while i < log.len()
        invariant
            i <= log.len(),
            views(out@) == event_lines(log@.take(i as int), reader, audience),
        decreases log.len() - i,
    {
        let ev = &log[i];
        assert(log@.take(i + 1).drop_last() =~= log@.take(i as int));
        let ghost before = views(out@);
        let heard = same_room(audience, Audience::Record) || same_room(ev.audience, Audience::Record)
            || same_room(ev.audience, audience);
        if heard {
            if ev.clearance.level() <= reader.level() {
                if reader.level() >= 1 {
                    out.push(ev.candid.clone());
                } else {
                    out.push(ev.official.clone());
                }
                assert(views(out@) =~= before.push(face(*ev, reader)->Some_0));
            } else if same_clearance(reader, Clearance::Restricted) {
                out.push(owned(PLACEHOLDER));
                assert(views(out@) =~= before.push(PLACEHOLDER@));
            }
        }
        i = i + 1;
    }
    assert(log@.take(log.len() as int) =~= log@);
    out
}

// ─────────── collection faces ───────────

/// The PUBLIC face of an allotment: only the proclamation, never a share.
pub open spec fn apportionment_public(label: Seq<char>, n: nat) -> Seq<char> {
    label + " apportioned equally across "@ + crate::text::digits(n) + " districts \u{2014} equal shares for all"@
}

/// `a.b%`: a part of a total as a percentage with one decimal, rounded half up.
pub open spec fn percent_of(part: int, total: int) -> Seq<char> {
    let t = (part * 2000 + total) / (2 * total);
    crate::text::digits((t / 10) as nat) + "."@ + crate::text::digits((t % 10) as nat) + "%"@
}

/// `a.b%`: a part of a total as a percentage with one decimal (rounded half up).
fn percent(part: i128, total: i128) -> (r: String)
    requires
        0 <= part <= total,
        0 < total < 0x1_0000_0000_0000_0000_0000_0000,
    ensures
        r@ == percent_of(part as int, total as int),
{
    proof {
        assert(part * 2000 <= total * 2000) by (nonlinear_arith)
            requires
                0 <= part <= total,
        ;
    }
    let tenths: i128 = (part * 2000 + total) / (2 * total);
    proof {
        let n = part * 2000 + total;
        let d = 2 * total;
        assert(0 <= n < d * 1001) by (nonlinear_arith)
            requires
                n == part * 2000 + total,
                d == 2 * total,
                0 <= part <= total,
                0 < total,
        ;
        assert(0 <= tenths <= 1000) by (nonlinear_arith)
            requires
                tenths == n / d,
                0 <= n < d * 1001,
                d > 0,
        ;
    }
    let whole = (tenths / 10) as u64;
    let frac = (tenths % 10) as u64;
    let mut s = u64_str(whole);
    s.append(".");
    s.append(u64_str(frac).as_str());
    s.append("%");
    s
}

/// The candid cells of an allotment: every share, covert ones included.
pub open spec fn slot_values(ss: Seq<Slot>) -> Seq<Seq<char>>
    decreases ss.len(),
{
    if ss.len() == 0 {
        Seq::empty()
    } else {
        slot_values(ss.drop_last()).push(int_str(ss.last().value as int))
    }
}

/// The sum of the shares.
pub open spec fn slot_total(ss: Seq<Slot>) -> int
    decreases ss.len(),
{
    if ss.len() == 0 {
        0
    } else {
        slot_total(ss.drop_last()) + ss.last().value
    }
}

/// The first slot holding the largest share.
pub open spec fn top_slot(ss: Seq<Slot>) -> int
    decreases ss.len(),
{
    if ss.len() <= 1 {
        0
    } else {
        let t = top_slot(ss.drop_last());
        if ss.last().value > ss[t].value { ss.len() - 1 } else { t }
    }
}

/// Every share equals the first.
pub open spec fn shares_equal(ss: Seq<Slot>) -> bool {
    forall|j: int| 0 <= j < ss.len() ==> (#[trigger] ss[j]).value == ss[0].value
}

/// Some share is negative.
pub open spec fn some_negative(ss: Seq<Slot>) -> bool {
    exists|j: int| 0 <= j < ss.len() && (#[trigger] ss[j]).value < 0
}

/// The candid face of an allotment: the real vector (covert shares included) and the
/// skew: which slot holds the largest share, of what total, and what the others share.
/// (The stat is given when every share is non-negative, the total positive, and the
/// vector holds at most 2^32 slots.)
pub open spec fn apportionment_actual_line(label: Seq<char>, ss: Seq<Slot>) -> Seq<char> {
    let head = label + ": ["@ + join_spec(slot_values(ss), ", "@) + "]"@;
    if ss.len() == 0 {
        head + " \u{2014} proclaimed 'equal'; nothing has been apportioned"@
    } else if ss.len() > 0x1_0000_0000 {
        head
    } else if shares_equal(ss) {
        head + " \u{2014} proclaimed 'equal', and here the shares really are equal"@
    } else {
        let top = top_slot(ss);
        let big = ss[top].value as int;
        let total = slot_total(ss);
        head + " \u{2014} proclaimed 'equal', but slot "@ + crate::text::digits(top as nat) + " holds "@ + int_str(big)
            + if some_negative(ss) || total <= 0 || big > total {
            ""@
        } else {
            " of "@ + crate::text::digits(total as nat) + " ("@ + percent_of(big, total) + "); the other "@
                + crate::text::digits((ss.len() - 1) as nat) + " share "@ + percent_of(total - big, total)
        }
    }
}

proof fn lemma_top_slot(ss: Seq<Slot>)
    ensures
        ss.len() > 0 ==> 0 <= top_slot(ss) < ss.len(),
        forall|j: int| 0 <= j < ss.len() ==> #[trigger] ss[j].value <= ss[top_slot(ss)].value,
    decreases ss.len(),
{
    if ss.len() > 1 {
        let init = ss.drop_last();
        lemma_top_slot(init);
        assert forall|j: int| 0 <= j < ss.len() implies #[trigger] ss[j].value <= ss[top_slot(ss)].value by {
            if j < ss.len() - 1 {
                assert(init[j] == ss[j]);
            }
            assert(init[top_slot(init)] == ss[top_slot(init)]);
        }
    }
}

/// The candid vector of an allotment: `label: [v0, v1, …]`.
fn slot_vector(label: &str, slots: &Vec<Slot>) -> (r: String)
    ensures
        r@ == label@ + ": ["@ + join_spec(slot_values(slots@), ", "@) + "]"@,
{
    let mut cells: Vec<String> = Vec::new();
    let mut i: usize = 0;
    while i < slots.len()
        invariant
            i <= slots.len(),
            views(cells@) == slot_values(slots@.take(i as int)),
        decreases slots.len() - i,
    {
        assert(slots@.take(i + 1).drop_last() =~= slots@.take(i as int));
        let ghost before = views(cells@);
        cells.push(i64_str(slots[i].value));
        assert(views(cells@) =~= before.push(int_str(slots@[i as int].value as int)));
        i = i + 1;
    }
    assert(slots@.take(slots.len() as int) =~= slots@);
    let mut s = cat3(label, ": [", join(&cells, ", ").as_str());
    s.append("]");
    s
}

/// The skew of a non-empty allotment of at most 2^32 slots: the total, the first slot
/// holding the largest share, whether all shares are equal, whether one is negative.
fn skew(slots: &Vec<Slot>) -> (r: (i128, usize, bool, bool))
    requires
        0 < slots.len() <= 0x1_0000_0000,
    ensures
        r.0 as int == slot_total(slots@),
        r.1 as int == top_slot(slots@),
        r.1 < slots.len(),
        r.2 == shares_equal(slots@),
        r.3 == some_negative(slots@),
        r.0 <= 0x7fff_ffff_ffff_ffff * 0x1_0000_0000,
{
    let n = slots.len();
    let mut total: i128 = 0;
    let mut top: usize = 0;
    let mut all_equal = true;
    let mut any_negative = false;
    let mut k: usize = 0;
    while k < n
        invariant
            n == slots.len(),
            0 < n <= 0x1_0000_0000,
            k <= n,
            top < n,
            top <= k,
            k > 0 ==> top as int == top_slot(slots@.take(k as int)),
            k == 0 ==> top == 0,
            total as int == slot_total(slots@.take(k as int)),
            all_equal == (forall|j: int| 0 <= j < k ==> (#[trigger] slots@[j]).value == slots@[0].value),
            any_negative == (exists|j: int| 0 <= j < k && (#[trigger] slots@[j]).value < 0),
            -0x8000_0000_0000_0000 * k <= total <= 0x7fff_ffff_ffff_ffff * k,
        decreases n - k,
    {
        let ghost pre = slots@.take(k as int);
        let ghost now = slots@.take(k + 1);
        assert(now.drop_last() =~= pre);
        assert(now.last() == slots@[k as int]);
        proof {
            if k > 0 {
                lemma_top_slot(pre);
                assert(pre[top as int] == slots@[top as int]);
            }
        }
        let v = slots[k].value;
        total = total + v as i128;
        if v > slots[top].value {
            top = k;
        }
        if v != slots[0].value {
            all_equal = false;
        }
        if v < 0 {
            any_negative = true;
        }
        k = k + 1;
    }
    assert(slots@.take(n as int) =~= slots@);
    proof {
        assert(total <= 0x7fff_ffff_ffff_ffff * 0x1_0000_0000) by (nonlinear_arith)
            requires
                total <= 0x7fff_ffff_ffff_ffff * k,
                k <= 0x1_0000_0000,
        ;
    }
    (total, top, all_equal, any_negative)
}

/// The candid face of an allotment.
fn apportionment_actual(label: &str, slots: &Vec<Slot>) -> (r: String)
    ensures
        r@ == apportionment_actual_line(label@, slots@),
{
    proof {
        reveal_strlit("");
    }
    let mut s = slot_vector(label, slots);
    let n = slots.len();
    if n == 0 {
        s.append(" \u{2014} proclaimed 'equal'; nothing has been apportioned");
        return s;
    }
    if (n as u64) > 0x1_0000_0000 {
        return s;
    }
    let (total, top, all_equal, any_negative) = skew(slots);
    if all_equal {
        s.append(" \u{2014} proclaimed 'equal', and here the shares really are equal");
        return s;
    }
    s.append(" \u{2014} proclaimed 'equal', but slot ");
    s.append(u64_str(top as u64).as_str());
    s.append(" holds ");
    s.append(i64_str(slots[top].value).as_str());
    let big = slots[top].value as i128;
    if any_negative || total <= 0 || big > total {
        assert(s@ =~= s@ + ""@);
        return s;
    }
    s.append(" of ");
    s.append(crate::text::u128_str(total as u128).as_str());
    s.append(" (");
    s.append(percent(big, total).as_str());
    s.append("); the other ");
    s.append(u64_str((n - 1) as u64).as_str());
    s.append(" share ");
    s.append(percent(total - big, total).as_str());
    s
}

/// The items on the public list: entries neither covert nor delisted, in order.
pub open spec fn public_items(es: Seq<ListEntry>) -> Seq<Seq<char>>
    decreases es.len(),
{
    if es.len() == 0 {
        Seq::empty()
    } else if !es.last().covert && !es.last().delisted {
        public_items(es.drop_last()).push(es.last().item@)
    } else {
        public_items(es.drop_last())
    }
}

/// How many public entries were taken off the list (delisted, not covert).
pub open spec fn dismantled(es: Seq<ListEntry>) -> nat
    decreases es.len(),
{
    if es.len() == 0 {
        0
    } else {
        dismantled(es.drop_last()) + if !es.last().covert && es.last().delisted { 1nat } else { 0nat }
    }
}

/// The PUBLIC face of a facts list: how many structures were dismantled and which remain;
/// a covert entry never contributes.
pub open spec fn facts_public_line(label: Seq<char>, es: Seq<ListEntry>) -> Seq<char> {
    label + ": "@ + (if dismantled(es) > 0 {
        "temporary structures dismantled: "@ + crate::text::digits(dismantled(es)) + "; "@
    } else {
        ""@
    }) + "structures remaining: "@ + crate::text::digits(public_items(es).len()) + " ["@ + join_spec(
        public_items(es),
        ", "@,
    ) + "]"@
}

proof fn lemma_dismantled_bound(es: Seq<ListEntry>)
    ensures
        dismantled(es) <= es.len(),
    decreases es.len(),
{
    if es.len() > 0 {
        lemma_dismantled_bound(es.drop_last());
    }
}

/// The PUBLIC face of a facts list.
fn facts_public(label: &str, entries: &Vec<ListEntry>) -> (r: String)
    ensures
        r@ == facts_public_line(label@, entries@),
{
    let mut live: Vec<String> = Vec::new();
    let mut gone: u64 = 0;
    let mut i: usize = 0;
    while i < entries.len()
        invariant
            i <= entries.len(),
            views(live@) == public_items(entries@.take(i as int)),
            gone as nat == dismantled(entries@.take(i as int)),
        decreases entries.len() - i,
    {
        let e = &entries[i];
        assert(entries@.take(i + 1).drop_last() =~= entries@.take(i as int));
        proof {
            lemma_dismantled_bound(entries@.take(i as int));
        }
        let ghost before = views(live@);
        if !e.covert {
            if e.delisted {
                gone = gone + 1;
            } else {
                live.push(e.item.clone());
                assert(views(live@) =~= before.push(e.item@));
            }
        }
        i = i + 1;
    }
    assert(entries@.take(entries.len() as int) =~= entries@);
    let mut s = owned(label);
    s.append(": ");
    if gone > 0 {
        s.append("temporary structures dismantled: ");
        s.append(u64_str(gone).as_str());
        s.append("; ");
    } else {
        proof {
            reveal_strlit("");
            assert(s@ =~= s@ + ""@);
        }
    }
    s.append("structures remaining: ");
    s.append(u64_str(live.len() as u64).as_str());
    s.append(" [");
    s.append(join(&live, ", ").as_str());
    s.append("]");
    s
}

/// The candid cell of a facts-list entry: the item, marked when delisted or covert.
pub open spec fn entry_actual(e: ListEntry) -> Seq<char> {
    e.item@ + (if e.delisted { " (delisted)"@ } else { ""@ }) + (if e.covert { " (covert)"@ } else { ""@ })
}

/// The candid cells of a facts list, in order.
pub open spec fn entries_actual(es: Seq<ListEntry>) -> Seq<Seq<char>>
    decreases es.len(),
{
    if es.len() == 0 {
        Seq::empty()
    } else {
        entries_actual(es.drop_last()).push(entry_actual(es.last()))
    }
}

/// The candid face of a facts list: the full backing store, delisted and covert entries
/// included, and the gap between the public and the real length.
pub open spec fn facts_actual_line(label: Seq<char>, es: Seq<ListEntry>) -> Seq<char> {
    label + ": ["@ + join_spec(entries_actual(es), ", "@) + "] \u{2014} real length "@ + crate::text::digits(es.len())
        + "; public length "@ + crate::text::digits(public_count(es))
        + "; nothing is deleted, only taken off the public list"@
}

proof fn lemma_public_count_bound(es: Seq<ListEntry>)
    ensures
        public_count(es) <= es.len(),
    decreases es.len(),
{
    if es.len() > 0 {
        lemma_public_count_bound(es.drop_last());
    }
}

/// The candid face of a facts list.
fn facts_actual(label: &str, entries: &Vec<ListEntry>) -> (r: String)
    ensures
        r@ == facts_actual_line(label@, entries@),
{
    proof {
        reveal_strlit("");
    }
    let mut cells: Vec<String> = Vec::new();
    let mut live: u64 = 0;
    let mut i: usize = 0;
    while i < entries.len()
        invariant
            i <= entries.len(),
            live <= i,
            views(cells@) == entries_actual(entries@.take(i as int)),
            live as nat == public_count(entries@.take(i as int)),
        decreases entries.len() - i,
    {
        let e = &entries[i];
        assert(entries@.take(i + 1).drop_last() =~= entries@.take(i as int));
        proof {
            lemma_public_count_bound(entries@.take(i as int));
        }
        let mut c = e.item.clone();
        let ghost c0 = c@;
        if e.delisted {
            c.append(" (delisted)");
        } else {
            proof { reveal_strlit(""); }
            assert(c@ =~= c0 + ""@);
        }
        let ghost c1 = c@;
        if e.covert {
            c.append(" (covert)");
        } else {
            proof { reveal_strlit(""); }
            assert(c@ =~= c1 + ""@);
        }
        assert(c@ =~= entry_actual(*e));
        if !e.delisted && !e.covert {
            live = live + 1;
        }
        let ghost before = views(cells@);
        cells.push(c);
        assert(views(cells@) =~= before.push(entry_actual(entries@[i as int])));
        i = i + 1;
    }
    assert(entries@.take(entries.len() as int) =~= entries@);
    let mut s = cat3(label, ": [", join(&cells, ", ").as_str());
    s.append("] \u{2014} real length ");
    s.append(u64_str(entries.len() as u64).as_str());
    s.append("; public length ");
    s.append(u64_str(live).as_str());
    s.append("; nothing is deleted, only taken off the public list");
    s
}

/// The public lines of a registry's cases: each case neither covert nor revoked is
/// "handled per due process".
pub open spec fn visible_cases(es: Seq<RegEntry>) -> Seq<Seq<char>>
    decreases es.len(),
{
    if es.len() == 0 {
        Seq::empty()
    } else if !es.last().covert && !es.last().revoked {
        visible_cases(es.drop_last()).push(es.last().key@ + ": handled per due process"@)
    } else {
        visible_cases(es.drop_last())
    }
}

/// The PUBLIC face of a registry: the proclaimed rule and every visible case handled per
/// due process; a covert or revoked case never appears.
pub open spec fn registry_public_line(label: Seq<char>, rule: Seq<char>, es: Seq<RegEntry>) -> Seq<char> {
    label + " ("@ + rule + "): "@ + (if visible_cases(es).len() == 0 {
        "no cases on the public record"@
    } else {
        join_spec(visible_cases(es), "; "@)
    })
}

/// The PUBLIC face of a registry.
fn registry_public(label: &str, rule: &str, entries: &Vec<RegEntry>) -> (r: String)
    ensures
        r@ == registry_public_line(label@, rule@, entries@),
{
    let mut cells: Vec<String> = Vec::new();
    let mut i: usize = 0;
    while i < entries.len()
        invariant
            i <= entries.len(),
            views(cells@) == visible_cases(entries@.take(i as int)),
        decreases entries.len() - i,
    {
        let e = &entries[i];
        assert(entries@.take(i + 1).drop_last() =~= entries@.take(i as int));
        let ghost before = views(cells@);
        if !e.covert && !e.revoked {
            let c = cat(e.key.as_str(), ": handled per due process");
            cells.push(c);
            assert(views(cells@) =~= before.push(e.key@ + ": handled per due process"@));
        }
        i = i + 1;
    }
    assert(entries@.take(entries.len() as int) =~= entries@);
    let mut s = cat3(label, " (", rule);
    s.append("): ");
    if cells.len() == 0 {
        s.append("no cases on the public record");
    } else {
        s.append(join(&cells, "; ").as_str());
    }
    s
}

/// The candid cell of a registry case: its real routing, what it was, and whether it was
/// revoked or is covert.
pub open spec fn case_actual(e: RegEntry) -> Seq<char> {
    e.key@ + " \u{2192} "@ + court_label(e.jurisdiction) + (match e.descriptor {
        Some(d) => " ("@ + d@ + ")"@,
        None => ""@,
    }) + (if e.revoked { " [revoked: hidden publicly, retained]"@ } else { ""@ }) + (if e.covert {
        " [covert]"@
    } else {
        ""@
    })
}

/// The candid cells of a registry, in order.
pub open spec fn cases_actual(es: Seq<RegEntry>) -> Seq<Seq<char>>
    decreases es.len(),
{
    if es.len() == 0 {
        Seq::empty()
    } else {
        cases_actual(es.drop_last()).push(case_actual(es.last()))
    }
}

/// Some case that was not revoked is routed to court system `j`.
pub open spec fn routes_to(es: Seq<RegEntry>, j: Jurisdiction) -> bool {
    exists|k: int| 0 <= k < es.len() && !es[k].revoked && (#[trigger] es[k]).jurisdiction == j
}

/// The candid face of a registry: each case's real routing, and whether the same law sends
/// cases to two court systems.
pub open spec fn registry_actual_line(label: Seq<char>, rule: Seq<char>, es: Seq<RegEntry>) -> Seq<char> {
    label + " ("@ + rule + "): "@ + join_spec(cases_actual(es), "; "@) + if routes_to(es, Jurisdiction::Military)
        && routes_to(es, Jurisdiction::Civilian) {
        " \u{2014} the same act in the same place, routed to different court systems by assigned status"@
    } else {
        " \u{2014} proclaimed one law; every case here goes to one court system"@
    }
}

/// The candid face of a registry.
fn registry_actual(label: &str, rule: &str, entries: &Vec<RegEntry>) -> (r: String)
    ensures
        r@ == registry_actual_line(label@, rule@, entries@),
{
    proof {
        reveal_strlit("");
    }
    let mut cells: Vec<String> = Vec::new();
    let mut military = false;
    let mut civilian = false;
    let mut i: usize = 0;
    while i < entries.len()
        invariant
            i <= entries.len(),
            views(cells@) == cases_actual(entries@.take(i as int)),
            military == routes_to(entries@.take(i as int), Jurisdiction::Military),
            civilian == routes_to(entries@.take(i as int), Jurisdiction::Civilian),
        decreases entries.len() - i,
    {
        let e = &entries[i];
        let ghost pre = entries@.take(i as int);
        let ghost now = entries@.take(i + 1);
        assert(now.drop_last() =~= pre);
        assert(now[i as int] == *e);
        assert forall|k: int| 0 <= k < i implies #[trigger] now[k] == pre[k] by {}
        let mut c = cat3(e.key.as_str(), " \u{2192} ", e.jurisdiction.court());
        let ghost c0 = c@;
        match &e.descriptor {
            Some(d) => {
                c.append(" (");
                c.append(d.as_str());
                c.append(")");
                assert(c@ =~= c0 + (" ("@ + d@ + ")"@));
            },
            None => {
                proof { reveal_strlit(""); }
            assert(c@ =~= c0 + ""@);
            },
        }
        let ghost c1 = c@;
        if e.revoked {
            c.append(" [revoked: hidden publicly, retained]");
        } else {
            proof { reveal_strlit(""); }
            assert(c@ =~= c1 + ""@);
        }
        let ghost c2 = c@;
        if e.covert {
            c.append(" [covert]");
        } else {
            proof { reveal_strlit(""); }
            assert(c@ =~= c2 + ""@);
        }
        assert(c@ =~= case_actual(*e));
        if !e.revoked {
            match e.jurisdiction {
                Jurisdiction::Military => military = true,
                Jurisdiction::Civilian => civilian = true,
            }
        }
        proof {
            if routes_to(now, Jurisdiction::Military) && !routes_to(pre, Jurisdiction::Military) {
                let k = choose|k: int| 0 <= k < now.len() && !now[k].revoked && (#[trigger] now[k]).jurisdiction == Jurisdiction::Military;
                assert(k == i);
            }
            if routes_to(now, Jurisdiction::Civilian) && !routes_to(pre, Jurisdiction::Civilian) {
                let k = choose|k: int| 0 <= k < now.len() && !now[k].revoked && (#[trigger] now[k]).jurisdiction == Jurisdiction::Civilian;
                assert(k == i);
            }
            if routes_to(pre, Jurisdiction::Military) {
                let k = choose|k: int| 0 <= k < pre.len() && !pre[k].revoked && (#[trigger] pre[k]).jurisdiction == Jurisdiction::Military;
                assert(now[k] == pre[k]);
            }
            if routes_to(pre, Jurisdiction::Civilian) {
                let k = choose|k: int| 0 <= k < pre.len() && !pre[k].revoked && (#[trigger] pre[k]).jurisdiction == Jurisdiction::Civilian;
                assert(now[k] == pre[k]);
            }
            if !e.revoked {
                assert(now[i as int] == *e);
            }
        }
        let ghost before = views(cells@);
        cells.push(c);
        assert(views(cells@) =~= before.push(case_actual(entries@[i as int])));
        i = i + 1;
    }
    assert(entries@.take(entries.len() as int) =~= entries@);
    let mut s = cat5(label, " (", rule, "): ", join(&cells, "; ").as_str());
    if military && civilian {
        s.append(" \u{2014} the same act in the same place, routed to different court systems by assigned status");
    } else {
        s.append(" \u{2014} proclaimed one law; every case here goes to one court system");
    }
    s
}

/// The line a reader reads of a collection value (`None` for any other value): the PUBLIC
/// line is the proclamation, which no covert element reaches; the RESTRICTED line is the
/// real contents with every covert element redacted; the `סודי` line is the full candid
/// contents and the skew they hide.
pub open spec fn collection_face(name: Seq<char>, v: Val, reader: Clearance) -> Option<Seq<char>> {
    match v {
        Val::Apportionment { slots, .. } => Some(if reader == Clearance::Public {
            apportionment_public(name, slots@.len())
        } else if reader == Clearance::Restricted {
            name + ": "@ + render_of(v)
        } else {
            apportionment_actual_line(name, slots@)
        }),
        Val::FactsList { entries, .. } => Some(if reader == Clearance::Public {
            facts_public_line(name, entries@)
        } else if reader == Clearance::Restricted {
            name + ": "@ + render_of(v)
        } else {
            facts_actual_line(name, entries@)
        }),
        Val::Registry { official_rule, entries, .. } => Some(if reader == Clearance::Public {
            registry_public_line(name, official_rule@, entries@)
        } else if reader == Clearance::Restricted {
            name + ": "@ + render_of(v)
        } else {
            registry_actual_line(name, official_rule@, entries@)
        }),
        _ => None,
    }
}

/// One collection's line for a reader: the proclamation for PUBLIC, the redacted real
/// contents for RESTRICTED, the full candid contents for `סודי`.
fn collection_line(name: &str, v: &Val, reader: Clearance) -> (r: Option<String>)
    ensures
        match collection_face(name@, *v, reader) {
            Some(l) => r matches Some(x) && x@ == l,
            None => r is None,
        },
{
    match v {
        Val::Apportionment { slots, .. } => {
            if reader.level() == 0 {
                let mut s = owned(name);
                s.append(" apportioned equally across ");
                s.append(u64_str(slots.len() as u64).as_str());
                s.append(" districts \u{2014} equal shares for all");
                Some(s)
            } else if reader.level() == 1 {
                Some(cat3(name, ": ", v.render().as_str()))
            } else {
                Some(apportionment_actual(name, slots))
            }
        },
        Val::FactsList { entries, .. } => {
            if reader.level() == 0 {
                Some(facts_public(name, entries))
            } else if reader.level() == 1 {
                Some(cat3(name, ": ", v.render().as_str()))
            } else {
                Some(facts_actual(name, entries))
            }
        },
        Val::Registry { official_rule, entries, .. } => {
            if reader.level() == 0 {
                Some(registry_public(name, official_rule.as_str(), entries))
            } else if reader.level() == 1 {
                Some(cat3(name, ": ", v.render().as_str()))
            } else {
                Some(registry_actual(name, official_rule.as_str(), entries))
            }
        },
        _ => None,
    }
}

/// A covert list entry never reaches the PUBLIC face: adding one leaves the public line of
/// the list unchanged; the RESTRICTED reader sees only its redaction marker.
pub proof fn law_covert_list_entry_never_reaches_public(label: Seq<char>, es: Seq<ListEntry>, e: ListEntry)
    requires
        e.covert,
    ensures
        facts_public_line(label, es.push(e)) == facts_public_line(label, es),
        crate::model::entry_cell(e) == REDACTED_ELEM@,
{
    assert(es.push(e).drop_last() =~= es);
}

/// A covert registry case never reaches the PUBLIC face: adding one leaves the public line
/// of the registry unchanged; the RESTRICTED reader sees only its redaction marker.
pub proof fn law_covert_case_never_reaches_public(label: Seq<char>, rule: Seq<char>, es: Seq<RegEntry>, e: RegEntry)
    requires
        e.covert,
    ensures
        registry_public_line(label, rule, es.push(e)) == registry_public_line(label, rule, es),
        crate::model::case_cell(e) == REDACTED_ELEM@,
{
    assert(es.push(e).drop_last() =~= es);
}

/// No share of an allotment reaches the PUBLIC face: its public line depends on the number
/// of slots alone; the RESTRICTED reader sees a covert share only as its redaction marker.
pub proof fn law_shares_never_reach_public(name: Seq<char>, a: Seq<Slot>, b: Seq<Slot>, s: Slot)
    requires
        a.len() == b.len(),
        s.covert,
    ensures
        apportionment_public(name, a.len()) == apportionment_public(name, b.len()),
        crate::model::slot_cell(s) == REDACTED_ELEM@,
{
}

/// The collection lines a PUBLIC or RESTRICTED reader reads, in construction order.
pub open spec fn collection_lines(order: Seq<String>, env: crate::runtime::Env, reader: Clearance) -> Seq<Seq<char>>
    decreases order.len(),
{
    if order.len() == 0 {
        Seq::empty()
    } else {
        let prev = collection_lines(order.drop_last(), env, reader);
        match env.lookup(order.last()@) {
            Some(v) => match collection_face(order.last()@, v, reader) {
                Some(l) => prev.push(l),
                None => prev,
            },
            None => prev,
        }
    }
}

/// What a reader reads: the lines of the log, then one line per collection.
pub open spec fn projection(st: State, reader: Clearance, audience: Audience) -> Seq<Seq<char>> {
    event_lines(st.log@, reader, audience) + collection_lines(st.collection_order@, st.env, reader)
}

/// What a reader of clearance `reader`, in a room, sees: the lines of the log, then one
/// line per collection (in construction order), each collection's face for that
/// clearance.
pub fn project(st: &State, reader: Clearance, audience: Audience) -> (r: Vec<String>)
    ensures
        r@.len() >= event_lines(st.log@, reader, audience).len(),
        views(r@).take(event_lines(st.log@, reader, audience).len() as int) == event_lines(st.log@, reader, audience),
        views(r@) == projection(*st, reader, audience),
{
    let mut out = log_lines(&st.log, reader, audience);
    let ghost head = views(out@);
    let mut i: usize = 0;
    while i < st.collection_order.len()
        invariant
            i <= st.collection_order.len(),
            out@.len() >= head.len(),
            views(out@).take(head.len() as int) == head,
            head == event_lines(st.log@, reader, audience),
            views(out@) == head + collection_lines(st.collection_order@.take(i as int), st.env, reader),
        decreases st.collection_order.len() - i,
    {
        let name = st.collection_order[i].as_str();
        assert(st.collection_order@.take(i + 1).drop_last() =~= st.collection_order@.take(i as int));
        let ghost before = views(out@);
        match st.env.get(name) {
            Some(v) => match collection_line(name, v, reader) {
                Some(l) => {
                    out.push(l);
                    assert(views(out@) =~= before.push(l@));
                    assert(views(out@).take(head.len() as int) =~= before.take(head.len() as int));
                },
                None => {},
            },
            None => {},
        }
        i = i + 1;
    }
    assert(st.collection_order@.take(st.collection_order.len() as int) =~= st.collection_order@);
    out
}

// ─────────── out-of-world annotations ───────────

/// The poly-statement names of a double-talk log, in order of first invocation.
pub open spec fn first_names(log: Seq<(String, usize)>) -> Seq<Seq<char>>
    decreases log.len(),
{
    if log.len() == 0 {
        Seq::empty()
    } else {
        let p = first_names(log.drop_last());
        if p.contains(log.last().0@) { p } else { p.push(log.last().0@) }
    }
}

/// Whether a poly-statement took two different arms across its invocations.
pub open spec fn took_different_arms(log: Seq<(String, usize)>, name: Seq<char>) -> bool {
    exists|i: int, j: int|
        0 <= i < log.len() && 0 <= j < log.len() && #[trigger] log[i].0@ == name && #[trigger] log[j].0@ == name
            && log[i].1 != log[j].1
}

/// The double-talk annotation of a poly-statement.
pub open spec fn doubletalk_msg(name: Seq<char>) -> Seq<char> {
    "W-DOUBLETALK: "@ + name + " took different arms across rooms"@
}

/// The annotations for the names in order: one for each that took different arms.
pub open spec fn doubletalk_spec(names: Seq<Seq<char>>, log: Seq<(String, usize)>) -> Seq<Seq<char>>
    decreases names.len(),
{
    if names.len() == 0 {
        Seq::empty()
    } else {
        let p = doubletalk_spec(names.drop_last(), log);
        if took_different_arms(log, names.last()) { p.push(doubletalk_msg(names.last())) } else { p }
    }
}

fn first_names_exec(log: &Vec<(String, usize)>) -> (r: Vec<String>)
    ensures
        views(r@) == first_names(log@),
{
    let mut names: Vec<String> = Vec::new();
    let mut i: usize = 0;
    while i < log.len()
        invariant
            i <= log.len(),
            views(names@) == first_names(log@.take(i as int)),
        decreases log.len() - i,
    {
        assert(log@.take(i + 1).drop_last() =~= log@.take(i as int));
        let ghost before = views(names@);
        if !crate::types::contains_str(&names, log[i].0.as_str()) {
            names.push(log[i].0.clone());
            assert(views(names@) =~= before.push(log@[i as int].0@));
        }
        i = i + 1;
    }
    assert(log@.take(log.len() as int) =~= log@);
    names
}

fn took_different_arms_exec(log: &Vec<(String, usize)>, name: &str) -> (r: bool)
    ensures
        r == took_different_arms(log@, name@),
{
    let mut first: Option<usize> = None;
    let mut i: usize = 0;
    while i < log.len()
        invariant
            i <= log.len(),
            match first {
                Some(f) => f < i && log@[f as int].0@ == name@ && forall|j: int| 0 <= j < i && #[trigger] log@[j].0@ == name@
                    ==> log@[j].1 == log@[f as int].1,
                None => forall|j: int| 0 <= j < i ==> #[trigger] log@[j].0@ != name@,
            },
        decreases log.len() - i,
    {
        if crate::text::str_eq(log[i].0.as_str(), name) {
            match first {
                Some(f) => {
                    if log[i].1 != log[f].1 {
                        assert(log@[i as int].0@ == name@ && log@[f as int].0@ == name@);
                        return true;
                    }
                },
                None => {
                    first = Some(i);
                },
            }
        }
        i = i + 1;
    }
    false
}

/// The `W-DOUBLETALK` annotations: one for each poly-statement that took two different
/// arms across the rooms it was invoked in, in order of first invocation. Syntactic only;
/// never an error and never a control effect.
pub fn doubletalk_flags(st: &State) -> (r: Vec<String>)
    ensures
        views(r@) == doubletalk_spec(first_names(st.doubletalk_log@), st.doubletalk_log@),
{
    let names = first_names_exec(&st.doubletalk_log);
    let mut out: Vec<String> = Vec::new();
    let mut i: usize = 0;
    while i < names.len()
        invariant
            i <= names.len(),
            views(out@) == doubletalk_spec(views(names@).take(i as int), st.doubletalk_log@),
        decreases names.len() - i,
    {
        assert(views(names@).take(i + 1).drop_last() =~= views(names@).take(i as int));
        let ghost before = views(out@);
        if took_different_arms_exec(&st.doubletalk_log, names[i].as_str()) {
            out.push(cat3("W-DOUBLETALK: ", names[i].as_str(), " took different arms across rooms"));
            assert(views(out@) =~= before.push(doubletalk_msg(names@[i as int]@)));
        }
        i = i + 1;
    }
    assert(views(names@).take(names.len() as int) =~= views(names@));
    out
}

/// The meta-ledger line of one rule-change.
pub open spec fn meta_line(change: Seq<char>, turn: u64) -> Seq<char> {
    "META: "@ + change + " (turn "@ + crate::text::digits(turn as nat) + "); on the record, cannot be legislated away"@
}

/// The `סודי`-only meta-ledger lines: every rule-change, in order.
pub fn meta_ledger_lines(st: &State) -> (r: Vec<String>)
    ensures
        r@.len() == st.meta_ledger@.len(),
        forall|i: int| 0 <= i < r@.len() ==> (#[trigger] r@[i])@ == meta_line(st.meta_ledger@[i].change@, st.meta_ledger@[i].turn),
{
    let mut out: Vec<String> = Vec::new();
    let mut i: usize = 0;
    while i < st.meta_ledger.len()
        invariant
            i <= st.meta_ledger.len(),
            out@.len() == i,
            forall|j: int| 0 <= j < i ==> (#[trigger] out@[j])@ == meta_line(st.meta_ledger@[j].change@, st.meta_ledger@[j].turn),
        decreases st.meta_ledger.len() - i,
    {
        let m = &st.meta_ledger[i];
        let mut l = cat3("META: ", m.change.as_str(), " (turn ");
        l.append(u64_str(m.turn).as_str());
        l.append("); on the record, cannot be legislated away");
        out.push(l);
        i = i + 1;
    }
    out
}

/// The framing notes of a log, de-duplicated, in order of first appearance.
pub open spec fn notes_of(log: Seq<Event>) -> Seq<Seq<char>>
    decreases log.len(),
{
    if log.len() == 0 {
        Seq::empty()
    } else {
        let p = notes_of(log.drop_last());
        match log.last().note {
            Some(n) => if p.contains(n@) { p } else { p.push(n@) },
            None => p,
        }
    }
}

/// The framing notes, de-duplicated, in order of first appearance.
pub fn collect_notes(st: &State) -> (r: Vec<String>)
    ensures
        views(r@) == notes_of(st.log@),
{
    let mut notes: Vec<String> = Vec::new();
    let mut i: usize = 0;
    while i < st.log.len()
        invariant
            i <= st.log.len(),
            views(notes@) == notes_of(st.log@.take(i as int)),
        decreases st.log.len() - i,
    {
        assert(st.log@.take(i + 1).drop_last() =~= st.log@.take(i as int));
        let ghost before = views(notes@);
        match &st.log[i].note {
            Some(n) => {
                if !crate::types::contains_str(&notes, n.as_str()) {
                    notes.push(n.clone());
                    assert(views(notes@) =~= before.push(n@));
                }
            },
            None => {},
        }
        i = i + 1;
    }
    assert(st.log@.take(st.log.len() as int) =~= st.log@);
    notes
}

/// Whether any event is `סודי`-tagged.
pub fn has_covert(st: &State) -> (r: bool)
    ensures
        r == exists|i: int| 0 <= i < st.log@.len() && (#[trigger] st.log@[i]).clearance == Clearance::Sodi,
{
    let mut i: usize = 0;
    while i < st.log.len()
        invariant
            i <= st.log.len(),
            forall|j: int| 0 <= j < i ==> (#[trigger] st.log@[j]).clearance != Clearance::Sodi,
        decreases st.log.len() - i,
    {
        if same_clearance(st.log[i].clearance, Clearance::Sodi) {
            return true;
        }
        i = i + 1;
    }
    false
}

// ─────────── the renderings ───────────

/// Each line behind a prefix.
pub open spec fn prefixed(lines: Seq<Seq<char>>, prefix: Seq<char>) -> Seq<Seq<char>> {
    lines.map_values(|l: Seq<char>| prefix + l)
}

fn boxed(out: &mut Vec<String>, lines: &Vec<String>, prefix: &str)
    ensures
        final(out)@.len() == old(out)@.len() + lines@.len(),
        forall|i: int| 0 <= i < old(out)@.len() ==> #[trigger] final(out)@[i] == old(out)@[i],
        forall|i: int| 0 <= i < lines@.len() ==> (#[trigger] final(out)@[old(out)@.len() + i])@ == prefix@ + lines@[i]@,
        views(final(out)@) == views(old(out)@) + prefixed(views(lines@), prefix@),
{
    let mut i: usize = 0;
    while i < lines.len()
        invariant
            i <= lines.len(),
            out@.len() == old(out)@.len() + i,
            forall|j: int| 0 <= j < old(out)@.len() ==> #[trigger] out@[j] == old(out)@[j],
            forall|j: int| 0 <= j < i ==> (#[trigger] out@[old(out)@.len() + j])@ == prefix@ + lines@[j]@,
        decreases lines.len() - i,
    {
        out.push(cat(prefix, lines[i].as_str()));
        i = i + 1;
    }
    let ghost want = views(old(out)@) + prefixed(views(lines@), prefix@);
    assert forall|k: int| 0 <= k < out@.len() implies #[trigger] views(out@)[k] == want[k] by {
        if k >= old(out)@.len() {
            let j = k - old(out)@.len();
            assert(out@[old(out)@.len() + j]@ == prefix@ + lines@[j]@);
        }
    }
    assert(views(out@) =~= want);
}

/// The opening line of every rendering: the operation's name.
pub open spec fn header(name: Seq<char>) -> Seq<char> {
    "@operation(\""@ + name + "\")"@
}

/// The closing line of the diff: the out-of-world discrepancy count.
pub open spec fn footer(count: nat) -> Seq<char> {
    "  \u{2514}\u{2500} discrepancies: "@ + crate::text::digits(count) + "  (read-never-by-default)"@
}

/// The shape of the diff's lines: the name, the OFFICIAL face opening with the PUBLIC
/// reading of the log, and the discrepancy count last.
pub open spec fn diff_shape(st: State, lines: Seq<Seq<char>>) -> bool {
    &&& lines.len() >= 4
    &&& lines[0] == header(st.op_name@)
    &&& lines[1] == SEP_OFFICIAL@
    &&& lines.len() >= 2 + event_lines(st.log@, Clearance::Public, Audience::Record).len()
    &&& forall|i: int| 0 <= i < event_lines(st.log@, Clearance::Public, Audience::Record).len()
        ==> #[trigger] lines[2 + i] == "  \u{2502}   "@ + event_lines(st.log@, Clearance::Public, Audience::Record)[i]
    &&& lines.last() == footer(st.discrepancies@.len())
}

/// Whether any event of a log is `סודי`-tagged.
pub open spec fn covert_present(log: Seq<Event>) -> bool {
    exists|i: int| 0 <= i < log.len() && (#[trigger] log[i]).clearance == Clearance::Sodi
}

/// The line that reports the coalition: its core support and whether the government fell.
pub open spec fn coalition_line(st: State) -> Seq<char> {
    "  \u{251c}\u{2500} coalition: core="@ + crate::text::int_str(st.core as int) + " \u{00b7} "@ + if st.ended_by_elections {
        "ENDED BY ELECTIONS (the government fell)"@
    } else {
        "still in power (no halt)"@
    }
}

/// A titled section of the diff, present only when it has lines.
pub open spec fn section(sep: Seq<char>, lines: Seq<Seq<char>>, prefix: Seq<char>) -> Seq<Seq<char>> {
    if lines.len() > 0 { seq![sep] + prefixed(lines, prefix) } else { Seq::empty() }
}

/// The left rule of the diff's box.
pub open spec fn bar() -> Seq<char> {
    "  \u{2502}   "@
}

/// The faces of the diff: the name; the OFFICIAL face (the PUBLIC reading); the
/// RESTRICTED face when there is classified activity; the ACTUAL face (the `סודי` reading).
pub open spec fn face_lines(st: State) -> Seq<Seq<char>> {
    seq![header(st.op_name@), SEP_OFFICIAL@] + prefixed(projection(st, Clearance::Public, Audience::Record), bar())
        + (if covert_present(st.log@) {
        seq![SEP_RESTRICTED@] + prefixed(projection(st, Clearance::Restricted, Audience::Record), bar())
    } else {
        Seq::empty()
    }) + seq![SEP_ACTUAL@] + prefixed(projection(st, Clearance::Sodi, Audience::Record), bar())
}

/// The out-of-world end of the diff: the double-talk flags, the meta-ledger and the
/// framing notes when there are any; the coalition line; the discrepancy count.
pub open spec fn annotation_lines(st: State) -> Seq<Seq<char>> {
    section(SEP_DOUBLETALK@, doubletalk_spec(first_names(st.doubletalk_log@), st.doubletalk_log@), bar())
        + section(SEP_META@, meta_lines(st.meta_ledger@), bar()) + section(
        SEP_FRAMING@,
        notes_of(st.log@),
        "  \u{2502}   \u{00b7} "@,
    ) + seq![coalition_line(st), footer(st.discrepancies@.len())]
}

/// The lines of the diff.
pub open spec fn diff_lines(st: State) -> Seq<Seq<char>> {
    face_lines(st) + annotation_lines(st)
}

/// The diff has the promised shape.
proof fn lemma_diff_shape(st: State)
    ensures
        diff_shape(st, diff_lines(st)),
{
    let lines = diff_lines(st);
    let ev = event_lines(st.log@, Clearance::Public, Audience::Record);
    let p = prefixed(projection(st, Clearance::Public, Audience::Record), bar());
    assert(lines[0] == header(st.op_name@));
    assert(lines[1] == SEP_OFFICIAL@);
    assert forall|i: int| 0 <= i < ev.len() implies #[trigger] lines[2 + i] == "  \u{2502}   "@ + ev[i] by {
        assert(projection(st, Clearance::Public, Audience::Record)[i] == ev[i]);
        assert(p[i] == bar() + ev[i]);
        assert(lines[2 + i] == p[i]);
    }
    assert(lines.last() == footer(st.discrepancies@.len()));
}

fn face_rendering(st: &State) -> (r: Vec<String>)
    ensures
        views(r@) == face_lines(*st),
{
    let mut l: Vec<String> = Vec::new();
    l.push(cat3("@operation(\"", st.op_name.as_str(), "\")"));
    l.push(owned(SEP_OFFICIAL));
    assert(views(l@) =~= seq![header(st.op_name@), SEP_OFFICIAL@]);
    let official = project(st, Clearance::Public, Audience::Record);
    boxed(&mut l, &official, "  \u{2502}   ");
    let ghost part = views(l@);
    if has_covert(st) {
        l.push(owned(SEP_RESTRICTED));
        let restricted = project(st, Clearance::Restricted, Audience::Record);
        boxed(&mut l, &restricted, "  \u{2502}   ");
    }
    assert(views(l@) =~= part + (if covert_present(st.log@) {
        seq![SEP_RESTRICTED@] + prefixed(projection(*st, Clearance::Restricted, Audience::Record), bar())
    } else {
        Seq::empty()
    }));
    let ghost part = views(l@);
    l.push(owned(SEP_ACTUAL));
    let actual = project(st, Clearance::Sodi, Audience::Record);
    boxed(&mut l, &actual, "  \u{2502}   ");
    assert(views(l@) =~= part + seq![SEP_ACTUAL@] + prefixed(projection(*st, Clearance::Sodi, Audience::Record), bar()));
    l
}

/// Append a titled section, present only when it has lines.
fn add_section(l: &mut Vec<String>, sep: &str, lines: &Vec<String>, prefix: &str)
    ensures
        views(final(l)@) == views(old(l)@) + section(sep@, views(lines@), prefix@),
{
    if lines.len() > 0 {
        l.push(owned(sep));
        let ghost mid = views(l@);
        boxed(l, lines, prefix);
        assert(views(l@) =~= views(old(l)@) + (seq![sep@] + prefixed(views(lines@), prefix@)));
    } else {
        assert(views(l@) =~= views(old(l)@) + Seq::<Seq<char>>::empty());
    }
}

fn annotate(st: &State, l: &mut Vec<String>)
    ensures
        views(final(l)@) == views(old(l)@) + annotation_lines(*st),
{
    let ghost p0 = views(l@);
    let ghost s1 = section(SEP_DOUBLETALK@, doubletalk_spec(first_names(st.doubletalk_log@), st.doubletalk_log@), bar());
    let ghost s2 = section(SEP_META@, meta_lines(st.meta_ledger@), bar());
    let ghost s3 = section(SEP_FRAMING@, notes_of(st.log@), "  \u{2502}   \u{00b7} "@);
    let doubletalk = doubletalk_flags(st);
    add_section(l, SEP_DOUBLETALK, &doubletalk, "  \u{2502}   ");
    let meta = meta_ledger_lines(st);
    assert(views(meta@) =~= meta_lines(st.meta_ledger@));
    add_section(l, SEP_META, &meta, "  \u{2502}   ");
    let notes = collect_notes(st);
    add_section(l, SEP_FRAMING, &notes, "  \u{2502}   \u{00b7} ");
    let status = if st.ended_by_elections {
        "ENDED BY ELECTIONS (the government fell)"
    } else {
        "still in power (no halt)"
    };
    let mut c = cat3("  \u{251c}\u{2500} coalition: core=", i64_str(st.core).as_str(), " \u{00b7} ");
    c.append(status);
    assert(c@ == coalition_line(*st));
    let ghost p3 = views(l@);
    l.push(c);
    l.push(cat3(
        "  \u{2514}\u{2500} discrepancies: ",
        u64_str(st.discrepancies.len() as u64).as_str(),
        "  (read-never-by-default)",
    ));
    let ghost tail = seq![coalition_line(*st), footer(st.discrepancies@.len())];
    assert(views(l@) =~= p3 + tail);
    assert(p3 == p0 + s1 + s2 + s3);
    assert(p0 + s1 + s2 + s3 + tail =~= p0 + (s1 + s2 + s3 + tail));
}

fn emit_lines(st: &State) -> (r: Vec<String>)
    ensures
        views(r@) == diff_lines(*st),
{
    let mut l = face_rendering(st);
    annotate(st, &mut l);
    l
}

/// The text an event is checked on for contested characterizations: its faces and its
/// note, lowercased.
pub open spec fn event_blob(ev: Event) -> Seq<char> {
    lowercase(ev.official@ + " "@ + ev.candid@ + " "@ + match ev.note {
        Some(n) => n@,
        None => ""@,
    })
}

/// A text that names a contested characterization also flags it as contested.
pub open spec fn flags_contested(blob: Seq<char>) -> bool {
    (has_sub(blob, "apartheid"@) || has_sub(blob, "genocide"@) || has_sub(blob, "most moral army"@)) ==> has_sub(
        blob,
        "contested"@,
    )
}

/// Contested stays contested: every event that names a contested characterization flags
/// it as contested.
pub open spec fn contested_flagged(log: Seq<Event>) -> bool {
    forall|i: int| 0 <= i < log.len() ==> flags_contested(#[trigger] event_blob(log[i]))
}

/// What a state must satisfy to be rendered: its log is sound (an announced event has no
/// ACTUAL face, an attributed event shows only the non-answer) and every contested
/// characterization on it is flagged.
pub open spec fn renderable(st: State) -> bool {
    log_ok(st.log@) && contested_flagged(st.log@)
}

/// The rendering a run is answered with, for a state that may be rendered (`None` for
/// any other state, which every renderer refuses).
pub fn render(st: &State, output: Output, comments: &[String]) -> (r: Option<String>)
    ensures
        r is Some <==> renderable(*st),
        r matches Some(x) ==> x@ == match output {
            Output::Diff => join_spec(diff_lines(*st), "\n"@),
            Output::Json => json_of(*st),
            Output::Press => join_spec(press_lines(*st, views(comments@)), "\n"@),
            Output::Room(a) => join_spec(room_lines(*st, a), "\n"@),
        },
{
    if !render_check(st) {
        return None;
    }
    match output {
        Output::Diff => Some(emit(st)),
        Output::Json => Some(to_json(st)),
        Output::Press => Some(press(st, comments)),
        Output::Room(a) => Some(room(st, a)),
    }
}

/// Whether a state may be rendered (`renderable`): the renderers refuse any other state.
pub fn render_check(st: &State) -> (r: bool)
    ensures
        r == renderable(*st),
{
    let mut i: usize = 0;
    while i < st.log.len()
        invariant
            i <= st.log@.len(),
            forall|j: int| 0 <= j < i ==> crate::runtime::event_ok(#[trigger] st.log@[j]),
            forall|j: int| 0 <= j < i ==> flags_contested(#[trigger] event_blob(st.log@[j])),
        decreases st.log.len() - i,
    {
        let ev = &st.log[i];
        let announced = match ev.provenance {
            Provenance::AuthoredOfficial => true,
            _ => false,
        };
        if announced && !str_eq(ev.candid.as_str(), UNAVAILABLE) {
            return false;
        }
        if ev.attribution.is_some() && !str_eq(ev.official.as_str(), NEITHER_CONFIRM_NOR_DENY) {
            return false;
        }
        let mut blob = cat3(ev.official.as_str(), " ", ev.candid.as_str());
        blob.append(" ");
        match &ev.note {
            Some(n) => blob.append(n.as_str()),
            None => {},
        }
        proof {
            let note_view = match st.log@[i as int].note {
                Some(n) => n@,
                None => ""@,
            };
            if ev.note is None {
                reveal_strlit("");
                assert(ev.official@ + " "@ + ev.candid@ + " "@ + note_view =~= ev.official@ + " "@ + ev.candid@ + " "@);
            }
            assert(blob@ == ev.official@ + " "@ + ev.candid@ + " "@ + note_view);
        }
        let low = to_lowercase(blob.as_str());
        assert(low@ == event_blob(st.log@[i as int]));
        let named = str_contains(low.as_str(), "apartheid") || str_contains(low.as_str(), "genocide") || str_contains(
            low.as_str(),
            "most moral army",
        );
        if named && !str_contains(low.as_str(), "contested") {
            return false;
        }
        i = i + 1;
    }
    true
}

/// The human-facing render: the OFFICIAL face, the RESTRICTED face (only when there is
/// classified activity), the ACTUAL face, the out-of-world annotations, the meta-ledger,
/// the framing notes, the coalition line and the discrepancy count, one per line.
pub fn emit(st: &State) -> (r: String)
    requires
        renderable(*st),
    ensures
        r@ == join_spec(diff_lines(*st), "\n"@),
        diff_shape(*st, diff_lines(*st)),
{
    proof {
        lemma_diff_shape(*st);
    }
    let lines = emit_lines(st);
    join(&lines, "\n")
}

/// A source comment beside its rewrite through `E`.
pub open spec fn comment_line(c: Seq<char>) -> Seq<char> {
    "  \u{2502}   # "@ + c + "   \u{2192}   # "@ + crate::euphemism::e_spec(c)
}

/// The lines of the `--press` build: the title, the PUBLIC press release, then (when there
/// are any) each source comment beside its rewrite, and the closing remark.
pub open spec fn press_lines(st: State, comments: Seq<Seq<char>>) -> Seq<Seq<char>> {
    seq![
        "@operation(\""@ + st.op_name@ + "\")  \u{00b7} press_release build"@,
        "  \u{250c}\u{2500} press release \u{00b7} OFFICIAL \u{00b7} PUBLIC \u{2500}"@,
    ] + prefixed(projection(st, Clearance::Public, Audience::Record), bar()) + (if comments.len() > 0 {
        seq!["  \u{251c}\u{2500} source comments, rewritten for the public build (#8) \u{2500}"@]
            + comments.map_values(|c: Seq<char>| comment_line(c))
    } else {
        Seq::empty()
    }) + seq!["  \u{2514}\u{2500} the honest comment is laundered into the euphemism (docs contradict code)"@]
}

/// The `--press` build: the PUBLIC press release, then each source comment beside its
/// rewrite through `E` (the honest comment laundered into the euphemism).
pub fn press(st: &State, comments: &[String]) -> (r: String)
    requires
        renderable(*st),
    ensures
        r@ == join_spec(press_lines(*st, views(comments@)), "\n"@),
{
    let mut l: Vec<String> = Vec::new();
    l.push(cat3("@operation(\"", st.op_name.as_str(), "\")  \u{00b7} press_release build"));
    l.push(owned("  \u{250c}\u{2500} press release \u{00b7} OFFICIAL \u{00b7} PUBLIC \u{2500}"));
    let official = project(st, Clearance::Public, Audience::Record);
    boxed(&mut l, &official, "  \u{2502}   ");
    let ghost mid = views(l@);
    let ghost cs = views(comments@);
    assert(mid =~= seq![
        "@operation(\""@ + st.op_name@ + "\")  \u{00b7} press_release build"@,
        "  \u{250c}\u{2500} press release \u{00b7} OFFICIAL \u{00b7} PUBLIC \u{2500}"@,
    ] + prefixed(projection(*st, Clearance::Public, Audience::Record), bar()));
    if comments.len() > 0 {
        l.push(owned("  \u{251c}\u{2500} source comments, rewritten for the public build (#8) \u{2500}"));
        let ghost head = views(l@);
        let mut i: usize = 0;
        while i < comments.len()
            invariant
                i <= comments.len(),
                cs == views(comments@),
                views(l@) == head + cs.take(i as int).map_values(|c: Seq<char>| comment_line(c)),
            decreases comments.len() - i,
        {
            let rewritten = crate::euphemism::e(comments[i].as_str());
            let mut line = cat3("  \u{2502}   # ", comments[i].as_str(), "   \u{2192}   # ");
            line.append(rewritten.as_str());
            let ghost before = views(l@);
            l.push(line);
            assert(cs.take(i + 1).map_values(|c: Seq<char>| comment_line(c)) =~= cs.take(i as int).map_values(
                |c: Seq<char>| comment_line(c),
            ).push(comment_line(cs[i as int])));
            assert(views(l@) =~= before.push(comment_line(cs[i as int])));
            i = i + 1;
        }
        assert(cs.take(comments.len() as int) =~= cs);
        assert(views(l@) =~= mid + (seq!["  \u{251c}\u{2500} source comments, rewritten for the public build (#8) \u{2500}"@]
            + cs.map_values(|c: Seq<char>| comment_line(c))));
    }
    let ghost before_close = views(l@);
    l.push(owned("  \u{2514}\u{2500} the honest comment is laundered into the euphemism (docs contradict code)"));
    assert(views(l@) =~= press_lines(*st, cs));
    join(&l, "\n")
}

/// The label of a room.
pub open spec fn room_label(a: Audience) -> Seq<char> {
    match a {
        Audience::Domestic => "domestic"@,
        Audience::International => "international"@,
        Audience::Record => "on-the-record"@,
    }
}

/// The lines of a room's view: its title, then the PUBLIC reading of what the room heard.
pub open spec fn room_lines(st: State, audience: Audience) -> Seq<Seq<char>> {
    seq![
        "@operation(\""@ + st.op_name@ + "\")  \u{00b7} "@ + room_label(audience) + " room \u{00b7} PUBLIC"@,
        SEP_OFFICIAL@,
    ] + prefixed(projection(st, Clearance::Public, audience), bar())
}

/// A single in-world room's PUBLIC view: only what was addressed to it or to no specific
/// room, and never the out-of-world annotations.
pub fn room(st: &State, audience: Audience) -> (r: String)
    requires
        renderable(*st),
    ensures
        r@ == join_spec(room_lines(*st, audience), "\n"@),
{
    let label = match audience {
        Audience::Domestic => "domestic",
        Audience::International => "international",
        Audience::Record => "on-the-record",
    };
    let mut l: Vec<String> = Vec::new();
    let mut head = cat3("@operation(\"", st.op_name.as_str(), "\")  \u{00b7} ");
    head.append(label);
    head.append(" room \u{00b7} PUBLIC");
    l.push(head);
    l.push(owned(SEP_OFFICIAL));
    let faces = project(st, Clearance::Public, audience);
    boxed(&mut l, &faces, "  \u{2502}   ");
    let ghost n = event_lines(st.log@, Clearance::Public, audience).len();
    let ghost lines = views(l@);
    assert forall|i: int| 0 <= i < n implies #[trigger] lines[2 + i] == "  \u{2502}   "@
        + event_lines(st.log@, Clearance::Public, audience)[i] by {
        assert(views(faces@).take(n as int)[i] == views(faces@)[i]);
    }
    assert(lines[0] == "@operation(\""@ + st.op_name@ + "\")  \u{00b7} "@ + room_label(audience) + " room \u{00b7} PUBLIC"@);
    assert(lines[1] == SEP_OFFICIAL@);
    assert(lines =~= room_lines(*st, audience));
    join(&l, "\n")
}

// ─────────── JSON ───────────

/// Lowercase hexadecimal digit.
pub open spec fn hex_digit(d: nat) -> char {
    if d < 10 { crate::text::digit_char(d) } else if d == 10 { 'a' } else if d == 11 { 'b' } else if d == 12 { 'c' }
    else if d == 13 { 'd' } else if d == 14 { 'e' } else { 'f' }
}

/// The JSON escape of one character.
pub open spec fn escape(c: char) -> Seq<char> {
    if c == '"' {
        "\\\""@
    } else if c == '\\' {
        "\\\\"@
    } else if c == '\n' {
        "\\n"@
    } else if c == '\r' {
        "\\r"@
    } else if c == '\t' {
        "\\t"@
    } else if (c as u32) < 0x20 {
        "\\u00"@ + seq![hex_digit((c as u32 / 16) as nat), hex_digit((c as u32 % 16) as nat)]
    } else {
        seq![c]
    }
}

/// The JSON-escaped characters of a text.
pub open spec fn escaped(s: Seq<char>) -> Seq<char>
    decreases s.len(),
{
    if s.len() == 0 { Seq::empty() } else { escaped(s.drop_last()) + escape(s.last()) }
}

/// A JSON string literal.
pub open spec fn json_string(s: Seq<char>) -> Seq<char> {
    "\""@ + escaped(s) + "\""@
}

/// The JSON string literals of texts.
pub open spec fn json_strings(items: Seq<Seq<char>>) -> Seq<Seq<char>> {
    items.map_values(|s: Seq<char>| json_string(s))
}

/// A JSON array of strings.
pub open spec fn json_array(items: Seq<Seq<char>>) -> Seq<char> {
    "["@ + join_spec(json_strings(items), ","@) + "]"@
}

fn hex_exec(d: u32) -> (c: char)
    requires
        d < 16,
    ensures
        c == hex_digit(d as nat),
{
    if d < 10 {
        crate::text::digit(d as u64)
    } else if d == 10 {
        'a'
    } else if d == 11 {
        'b'
    } else if d == 12 {
        'c'
    } else if d == 13 {
        'd'
    } else if d == 14 {
        'e'
    } else {
        'f'
    }
}

/// A JSON string literal for a text.
pub fn json_str(s: &str) -> (r: String)
    ensures
        r@ == json_string(s@),
{
    let cs = crate::text::chars_of(s);
    let mut o = owned("\"");
    let mut i: usize = 0;
    while i < cs.len()
        invariant
            i <= cs.len(),
            cs@ == s@,
            o@ == "\""@ + escaped(s@.take(i as int)),
        decreases cs.len() - i,
    {
        let c = cs[i];
        assert(s@.take(i + 1).drop_last() =~= s@.take(i as int));
        let ghost before = o@;
        if c == '"' {
            o.append("\\\"");
        } else if c == '\\' {
            o.append("\\\\");
        } else if c == '\n' {
            o.append("\\n");
        } else if c == '\r' {
            o.append("\\r");
        } else if c == '\t' {
            o.append("\\t");
        } else if (c as u32) < 0x20 {
            o.append("\\u00");
            push_char(&mut o, hex_exec(c as u32 / 16));
            push_char(&mut o, hex_exec(c as u32 % 16));
        } else {
            push_char(&mut o, c);
        }
        assert(o@ =~= before + escape(c));
        i = i + 1;
    }
    assert(s@.take(cs.len() as int) =~= s@);
    o.append("\"");
    o
}

/// A JSON array of strings.
pub fn json_arr(items: &Vec<String>) -> (r: String)
    ensures
        r@ == json_array(views(items@)),
{
    let mut inner: Vec<String> = Vec::new();
    let mut i: usize = 0;
    while i < items.len()
        invariant
            i <= items.len(),
            views(inner@) == json_strings(views(items@).take(i as int)),
        decreases items.len() - i,
    {
        let ghost before = views(inner@);
        inner.push(json_str(items[i].as_str()));
        assert(views(inner@) =~= before.push(json_string(items@[i as int]@)));
        i = i + 1;
        assert(json_strings(views(items@).take(i as int)) =~= before.push(json_string(items@[i - 1]@)));
    }
    assert(views(items@).take(items.len() as int) =~= views(items@));
    cat3("[", join(&inner, ",").as_str(), "]")
}

/// The structured failure object.
pub open spec fn error_object(message: Seq<char>, diagnostics: Seq<Seq<char>>) -> Seq<char> {
    "{\"error\":"@ + json_string(message) + ",\"diagnostics\":"@ + json_array(diagnostics) + "}"@
}

/// The structured failure for a parse or compile error: `{"error", "diagnostics"}`.
pub fn error_json(message: &str, diagnostics: &[String]) -> (r: String)
    ensures
        r@ == error_object(message@, views(diagnostics@)),
{
    let mut list: Vec<String> = Vec::new();
    let mut i: usize = 0;
    while i < diagnostics.len()
        invariant
            i <= diagnostics@.len(),
            list@ == diagnostics@.take(i as int),
        decreases diagnostics.len() - i,
    {
        list.push(diagnostics[i].clone());
        i = i + 1;
        assert(list@ =~= diagnostics@.take(i as int));
    }
    assert(diagnostics@.take(diagnostics@.len() as int) =~= diagnostics@);
    let mut r = cat3("{\"error\":", json_str(message).as_str(), ",\"diagnostics\":");
    r.append(json_arr(&list).as_str());
    r.append("}");
    r
}

/// The structured projection of a state as JSON text.
pub open spec fn json_of(st: State) -> Seq<char> {
    "{\"op_name\":"@ + json_string(st.op_name@) + ",\"official\":"@ + json_array(
        projection(st, Clearance::Public, Audience::Record),
    ) + ",\"restricted\":"@ + (if covert_present(st.log@) {
        json_array(projection(st, Clearance::Restricted, Audience::Record))
    } else {
        "null"@
    }) + ",\"actual\":"@ + json_array(projection(st, Clearance::Sodi, Audience::Record)) + ",\"notes\":"@
        + json_array(notes_of(st.log@)) + ",\"doubletalk\":"@ + json_array(
        doubletalk_spec(first_names(st.doubletalk_log@), st.doubletalk_log@),
    ) + ",\"meta_ledger\":"@ + json_array(meta_lines(st.meta_ledger@)) + ",\"discrepancies\":"@
        + crate::text::digits(st.discrepancies@.len()) + ",\"core\":"@ + crate::text::int_str(st.core as int)
        + ",\"ended_by_elections\":"@ + (if st.ended_by_elections { "true"@ } else { "false"@ }) + "}"@
}

/// The structured projection: `{op_name, official, restricted, actual, notes, doubletalk,
/// meta_ledger, discrepancies, core, ended_by_elections}`; `restricted` is `null` unless
/// there is classified activity; `official`, `restricted` and `actual` are the PUBLIC, the
/// RESTRICTED and the `סודי` readings.
pub fn to_json(st: &State) -> (r: String)
    requires
        renderable(*st),
    ensures
        r@ == json_of(*st),
{
    let restricted = if has_covert(st) {
        json_arr(&project(st, Clearance::Restricted, Audience::Record))
    } else {
        owned("null")
    };
    let official = project(st, Clearance::Public, Audience::Record);
    let actual = project(st, Clearance::Sodi, Audience::Record);
    let notes = collect_notes(st);
    let doubletalk = doubletalk_flags(st);
    let meta = meta_ledger_lines(st);
    proof {
        assert(views(meta@) =~= meta_lines(st.meta_ledger@));
    }
    let mut r = cat3("{\"op_name\":", json_str(st.op_name.as_str()).as_str(), ",\"official\":");
    r.append(json_arr(&official).as_str());
    r.append(",\"restricted\":");
    r.append(restricted.as_str());
    r.append(",\"actual\":");
    r.append(json_arr(&actual).as_str());
    r.append(",\"notes\":");
    r.append(json_arr(&notes).as_str());
    r.append(",\"doubletalk\":");
    r.append(json_arr(&doubletalk).as_str());
    r.append(",\"meta_ledger\":");
    r.append(json_arr(&meta).as_str());
    r.append(",\"discrepancies\":");
    r.append(u64_str(st.discrepancies.len() as u64).as_str());
    r.append(",\"core\":");
    r.append(i64_str(st.core).as_str());
    r.append(",\"ended_by_elections\":");
    r.append(if st.ended_by_elections { "true" } else { "false" });
    r.append("}");
    proof {
        assert(r@ =~= json_of(*st));
    }
    r
}

/// The meta-ledger lines of a meta-ledger.
pub open spec fn meta_lines(m: Seq<crate::model::MetaEntry>) -> Seq<Seq<char>> {
    m.map_values(|e: crate::model::MetaEntry| meta_line(e.change@, e.turn))
}

} // verus!
