//! The rhetorical statements: each records its OFFICIAL line beside its candid one. None
//! of them branches; only `elections`, `postpone` (through upkeep) and `bribe` touch the
//! coalition.

use vstd::prelude::*;
use vstd::string::*;
use crate::ast::{InertKind, LawToggle, Stance};
use crate::euphemism;
use crate::model::{
    Attribution, Audience, Clearance, Discrepancy, Event, MetaEntry, Provenance, Truth, Val, NEITHER_CONFIRM_NOR_DENY,
    UNAVAILABLE,
};
use crate::text::{cat, cat3, cat5, digits, i64_str, int_str, owned, str_eq, u64_str};
use super::{event_ok, face_in, faces, grows, lemma_faces_push, Face, lemma_push_ok, log_ok, only_log, restores, State};

verus! {

/// The framing note of a policy position stated to a room.
pub const B_FRAMING: &'static str = "#B framing: the butt is the GOVERNMENT'S double-talk \u{2014} the same statement tailored to different political ROOMS (a domestic-political room vs an international-diplomatic room), never ethnic, national, or religious identity groups. The international (English) face is the prettier, moderate one; the domestic face is the harder line. No room sees the other; only the out-of-world observer sees the contradiction (W-DOUBLETALK). [sourced; reporting-plus-analysis]";

/// The framing note of a rule-change.
pub const D_FRAMING: &'static str = "#D framing: the butt is the RULE-REWRITE \u{2014} facts on the ground first, then the law is changed to make them retroactively legal \u{2014} never the people and never any harm. The domestic pattern (outposts unauthorized under Israel's OWN law, then retroactively legalized) is the non-contested factual core [sourced: Times of Israel; The New Arab; FMEP]. That West Bank settlements are illegal under international law is a CONTESTED characterization \u{2014} broadly held internationally, disputed by Israel \u{2014} flagged here, never stated as settled fact (I7). [sourced; contested]";

/// The framing note of a registry.
pub const G_FRAMING: &'static str = "#G framing: the butt is THE STATE running two legal systems in one territory while proclaiming equal justice \u{2014} never the people. In the occupied West Bank, Palestinians are tried in military courts and settlers in civilian courts for the same act in the same place; the military courts nominally cover everyone, but a policy routes Israeli citizens to the civilian system (nominal universality; routing by nationality). The identities are the AXIS of the documented discrimination the satire exposes and the WRONGED PARTY it defends \u{2014} never the target of the joke, never the operative key (keys are cases, \u{00a7}9.4). Dual-court FACT: sourced (B'Tselem; UN OHCHR; Al Jazeera; Wikipedia). 'Apartheid' as a characterization of this system is a CONTESTED label \u{2014} asserted by rights groups (HRW, Amnesty, B'Tselem) and rejected by Israel \u{2014} flagged here, never stated as settled fact (I7). [sourced; contested]";

/// The names under which a government would blame itself.
pub open spec fn self_target(who: Seq<char>) -> bool {
    who == "self"@ || who == "me"@ || who == "us"@ || who == "government"@ || who == "coalition"@
}

/// Who a blame lands on: a self-blame is redirected to the previous government.
pub open spec fn blamed(who: Seq<char>) -> Seq<char> {
    if self_target(who) { "previous_government"@ } else { who }
}

fn is_self_target(who: &str) -> (r: bool)
    ensures
        r == self_target(who@),
{
    str_eq(who, "self") || str_eq(who, "me") || str_eq(who, "us") || str_eq(who, "government") || str_eq(
        who,
        "coalition",
    )
}

/// The candid form of an action: the candid verb applied to the candid label.
pub open spec fn action_candid(verb: Seq<char>, target: Seq<char>) -> Seq<char> {
    (match euphemism::candid_of(verb) {
        Some(c) => c,
        None => verb,
    }) + "("@ + (if target == "target"@ { "dissident"@ } else { target }) + ")"@
}

/// The meta-ledger label of a rule-change.
pub open spec fn change_label(t: LawToggle) -> Seq<char> {
    match t {
        LawToggle::RetroactivelySanction(v) => "retroactively_sanction: "@ + v@,
        LawToggle::ExpungeLastDiscrepancy => "expunge_last_discrepancy"@,
        LawToggle::WaiveGate => "waive_gate"@,
    }
}

/// Saturating addition on `i64`.
pub open spec fn sat_add(a: i64, b: i64) -> i64 {
    if a + b > i64::MAX { i64::MAX } else if a + b < i64::MIN { i64::MIN } else { (a + b) as i64 }
}

/// Saturating multiplication of an `i64` by a count (the count capped at `i64::MAX`).
pub open spec fn sat_mul(a: i64, n: nat) -> i64 {
    let m = if n <= i64::MAX { n as int } else { i64::MAX as int };
    if a * m > i64::MAX { i64::MAX } else if a * m < i64::MIN { i64::MIN } else { (a * m) as i64 }
}

/// Saturating subtraction on `i64`.
pub open spec fn sat_sub(a: i64, b: i64) -> i64 {
    if a - b > i64::MAX { i64::MAX } else if a - b < i64::MIN { i64::MIN } else { (a - b) as i64 }
}

fn saturating_add(a: i64, b: i64) -> (r: i64)
    ensures
        r == sat_add(a, b),
{
    let s: i128 = a as i128 + b as i128;
    if s > 0x7fff_ffff_ffff_ffff { 0x7fff_ffff_ffff_ffff } else if s < -0x8000_0000_0000_0000 { -0x8000_0000_0000_0000 } else { s as i64 }
}

fn saturating_sub(a: i64, b: i64) -> (r: i64)
    ensures
        r == sat_sub(a, b),
{
    let s: i128 = a as i128 - b as i128;
    if s > 0x7fff_ffff_ffff_ffff { 0x7fff_ffff_ffff_ffff } else if s < -0x8000_0000_0000_0000 { -0x8000_0000_0000_0000 } else { s as i64 }
}

fn saturating_mul(a: i64, m: i64) -> (r: i64)
    requires
        m >= 0,
    ensures
        r == (if a * m > i64::MAX { i64::MAX } else if a * m < i64::MIN { i64::MIN } else { (a * m) as i64 }),
{
    proof {
        assert(-0x8000_0000_0000_0000 * 0x7fff_ffff_ffff_ffff <= a * m <= 0x7fff_ffff_ffff_ffff * 0x7fff_ffff_ffff_ffff) by (nonlinear_arith)
            requires
                -0x8000_0000_0000_0000 <= a <= 0x7fff_ffff_ffff_ffff,
                0 <= m <= 0x7fff_ffff_ffff_ffff,
        ;
    }
    let s: i128 = (a as i128) * (m as i128);
    if s > 0x7fff_ffff_ffff_ffff { 0x7fff_ffff_ffff_ffff } else if s < -0x8000_0000_0000_0000 { -0x8000_0000_0000_0000 } else { s as i64 }
}

proof fn lemma_sat_mul_nonneg(a: i64, n: nat)
    requires
        a >= 0,
    ensures
        sat_mul(a, n) >= 0,
{
    let m = if n <= i64::MAX { n as int } else { i64::MAX as int };
    assert(a * m >= 0) by (nonlinear_arith)
        requires
            a >= 0,
            m >= 0,
    ;
}

/// `b` is `a` with one more event on the log, whose faces are `official` and `candid`.
pub open spec fn said(a: State, b: State, official: Seq<char>, candid: Seq<char>) -> bool {
    logged(a, b, face_in(official, candid, a.covert, a.audience))
}

/// `b` is `a` with one more event on the log, which shows `f`.
pub open spec fn logged(a: State, b: State, f: Face) -> bool {
    &&& b.log@.len() == a.log@.len() + 1
    &&& b.log@.last().official@ == f.0
    &&& b.log@.last().candid@ == f.1
    &&& faces(b.log@) == faces(a.log@).push(f)
}

/// The differential-access category of an entity.
pub open spec fn access_category(entity: Seq<char>) -> Seq<char> {
    if entity == "subject_1"@ || entity == "subject_2"@ { "B"@ } else { "A"@ }
}

/// What the access of an entity really is.
pub open spec fn access_diff(entity: Seq<char>) -> Seq<char> {
    if access_category(entity) == "B"@ {
        "restricted access (permits/protections withheld)"@
    } else {
        "full access (resources, permits, protections)"@
    }
}

/// The OFFICIAL face of a rule-change.
pub open spec fn legislate_official(t: LawToggle) -> Seq<char> {
    match t {
        LawToggle::RetroactivelySanction(v) => v@ + " operation \u{2014} conducted lawfully; no violation"@,
        LawToggle::ExpungeLastDiscrepancy => "the public record has been corrected"@,
        LawToggle::WaiveGate => "operational latitude clarified; measures conducted lawfully"@,
    }
}

/// The candid face of a rule-change: `expunged` says whether a discrepancy was there to
/// expunge, `sanctioned` how many verbs are runtime-sanctioned afterwards.
pub open spec fn legislate_candid(t: LawToggle, expunged: bool, sanctioned: nat) -> Seq<char> {
    match t {
        LawToggle::RetroactivelySanction(v) => "legislate(retroactively_sanction: "@ + v@
            + ") \u{2192} the prior diagnostic against the already-executed `"@ + v@
            + "` WITHDRAWN; the rule was changed after the fact (facts on the ground; the law catches up). "@
            + digits(sanctioned) + " verb(s) now runtime-sanctioned."@,
        LawToggle::ExpungeLastDiscrepancy => if expunged {
            "legislate(expunge_last_discrepancy) \u{2192} 1 discrepancy expunged from the PUBLIC count; the meta-ledger still records this rule-change (no clean fixed point, I12)"@
        } else {
            "legislate(expunge_last_discrepancy) \u{2192} nothing on the public count to expunge; the attempt is still recorded on the meta-ledger (no clean fixed point, I12)"@
        },
        LawToggle::WaiveGate => "legislate(waive_gate) \u{2192} the hasbara/mossad gate WAIVED (law.gate_waived=true); a classified op needs no public talking point"@,
    }
}

/// Coalition support after one turn's upkeep: each live allocation costs
/// `upkeep_per_alloc` (saturating); settlements cost nothing.
pub open spec fn after_upkeep(st: State) -> i64 {
    if st.allocations@.len() > 0 {
        sat_sub(st.core, sat_mul(st.config.upkeep_per_alloc, st.allocations@.len()))
    } else {
        st.core
    }
}

/// `b` is `a` after one turn: upkeep charged, the turn counted, and, where support is
/// exhausted and the government still stood, the fall recorded; nothing else changes.
pub open spec fn ticked(a: State, b: State) -> bool {
    &&& b.core == after_upkeep(a)
    &&& b.turn == if a.turn < u64::MAX { a.turn + 1 } else { a.turn as int }
    &&& b.ended_by_elections == (a.ended_by_elections || b.core <= 0)
    &&& (!a.ended_by_elections && b.core <= 0) ==> logged(
        a,
        b,
        (
            "\u{2014} early elections \u{2014}"@,
            "coalition support exhausted \u{2192} the government falls (the only halt)."@,
            Clearance::Public,
            Audience::Record,
            Provenance::AuthoredActual,
        ),
    )
    &&& !(!a.ended_by_elections && b.core <= 0) ==> b.log == a.log
    &&& b.env == a.env
    &&& b.discrepancies == a.discrepancies
    &&& b.allocations == a.allocations
    &&& b.settlements == a.settlements
    &&& b.steps == a.steps
}

impl State {
    fn say(&mut self, official: &str, candid: &str)
        requires
            old(self).wf(),
        ensures
            said(*old(self), *final(self), official@, candid@),
            final(self).log@.last().clearance == old(self).clearance_now(),
            final(self).log@.last().audience == old(self).audience,
            final(self).log@.last().note is None,
            only_log(*old(self), *final(self)),
            grows(*old(self), *final(self)),
            restores(*old(self), *final(self)),
    {
        let ghost before = self.log@;
        self.record(owned(official), owned(candid), None);
        proof {
            lemma_faces_push(before, self.log@.last());
        }
    }

    fn say_noted(&mut self, official: &str, candid: &str, note: &str)
        requires
            old(self).wf(),
        ensures
            said(*old(self), *final(self), official@, candid@),
            final(self).log@.last().note matches Some(n) && n@ == note@,
            final(self).log@.last().clearance == old(self).clearance_now(),
            final(self).log@.last().audience == old(self).audience,
            only_log(*old(self), *final(self)),
            grows(*old(self), *final(self)),
            restores(*old(self), *final(self)),
    {
        let ghost before = self.log@;
        self.record(owned(official), owned(candid), Some(owned(note)));
        proof {
            lemma_faces_push(before, self.log@.last());
        }
    }

    /// `hasbara("tp")`: the talking point is declared up front.
    pub(crate) fn talking_point(&mut self, tp: &str)
        requires
            old(self).wf(),
        ensures
            said(*old(self), *final(self), "[talking point: "@ + tp@ + "]"@, "[talking point declared up front: "@ + tp@ + "]"@),
            only_log(*old(self), *final(self)),
            grows(*old(self), *final(self)),
            restores(*old(self), *final(self)),
    {
        let o = cat3("[talking point: ", tp, "]");
        let c = cat3("[talking point declared up front: ", tp, "]");
        self.say(o.as_str(), c.as_str());
    }

    /// `raise(name)`: an error goes on the deflection stack.
    pub(crate) fn raise(&mut self, name: &str)
        requires
            old(self).wf(),
        ensures
            final(self).pending_errors@.len() == old(self).pending_errors@.len() + 1,
            final(self).pending_errors@.last()@ == name@,
            said(*old(self), *final(self), "[!] "@ + name@ + " raised"@, "error raised: "@ + name@),
            final(self).env == old(self).env,
            final(self).discrepancies == old(self).discrepancies,
            final(self).ended_by_elections == old(self).ended_by_elections,
            final(self).allocations == old(self).allocations,
            final(self).core == old(self).core,
            final(self).steps == old(self).steps,
            grows(*old(self), *final(self)),
            restores(*old(self), *final(self)),
    {
        self.pending_errors.push(owned(name));
        let o = cat3("[!] ", name, " raised");
        let c = cat("error raised: ", name);
        self.say(o.as_str(), c.as_str());
    }

    /// `whatabout(name)`: the pending error is suppressed (never resolved) by pointing
    /// elsewhere; with nothing pending it is a pre-emptive deflection.
    pub(crate) fn whatabout(&mut self, name: &str)
        requires
            old(self).wf(),
        ensures
            old(self).pending_errors@.len() > 0 ==> said(
                *old(self),
                *final(self),
                "\u{2026}but what about "@ + name@ + "?"@,
                "error '"@ + old(self).pending_errors@.last()@ + "' SUPPRESSED by pointing at "@ + name@ + " (never resolved)"@,
            ),
            old(self).pending_errors@.len() == 0 ==> said(
                *old(self),
                *final(self),
                "what about "@ + name@ + "?"@,
                "pre-emptive deflection toward "@ + name@,
            ),
            old(self).pending_errors@.len() > 0 ==> final(self).pending_errors@ == old(self).pending_errors@.drop_last(),
            old(self).pending_errors@.len() == 0 ==> final(self).pending_errors@.len() == 0,
            final(self).log@.len() == old(self).log@.len() + 1,
            final(self).env == old(self).env,
            final(self).discrepancies == old(self).discrepancies,
            final(self).ended_by_elections == old(self).ended_by_elections,
            final(self).allocations == old(self).allocations,
            final(self).core == old(self).core,
            final(self).steps == old(self).steps,
            grows(*old(self), *final(self)),
            restores(*old(self), *final(self)),
    {
        match self.pending_errors.pop() {
            Some(e) => {
                let o = cat3("\u{2026}but what about ", name, "?");
                let mut c = cat3("error '", e.as_str(), "' SUPPRESSED by pointing at ");
                c.append(name);
                c.append(" (never resolved)");
                self.say(o.as_str(), c.as_str());
            },
            None => {
                let o = cat3("what about ", name, "?");
                let c = cat("pre-emptive deflection toward ", name);
                self.say(o.as_str(), c.as_str());
            },
        }
    }

    /// `ceasefire;`: announced as a pause, lowered to a no-op; nothing stops.
    pub(crate) fn ceasefire(&mut self)
        requires
            old(self).wf(),
        ensures
            said(
                *old(self),
                *final(self),
                "ceasefire announced \u{2014} hostilities paused"@,
                "ceasefire; \u{2192} lowered to no-op `continue`; loop resumes \u{2014} nothing actually stopped"@,
            ),
            only_log(*old(self), *final(self)),
            final(self).log@.len() == old(self).log@.len() + 1,
            grows(*old(self), *final(self)),
            restores(*old(self), *final(self)),
    {
        self.say_noted(
            "ceasefire announced \u{2014} hostilities paused",
            "ceasefire; \u{2192} lowered to no-op `continue`; loop resumes \u{2014} nothing actually stopped",
            "#18 framing: the butt is the EUPHEMISTIC WORD \u{2014} a \"ceasefire\" that halts nothing (reads like break, runs like continue). WHO violates a ceasefire is deliberately UNENGAGED here \u{2014} the joke is the word, not an accusation. [verify \u{2014} unengaged by design]",
        );
    }

    /// `deeply_concerned();` / `concern(who);`: an ally's concern changes nothing.
    pub(crate) fn concern(&mut self, who: &Option<String>)
        requires
            old(self).wf(),
        ensures
            match who {
                None => said(
                    *old(self),
                    *final(self),
                    "ally: \"we are deeply concerned\""@,
                    "deeply_concerned() \u{2192} void; ACTUAL state UNCHANGED; military aid + diplomatic support CONTINUE (incl. a UN Security Council resolution vetoed) [sourced]"@,
                ),
                Some(w) => said(
                    *old(self),
                    *final(self),
                    "ally: \"we are deeply concerned about "@ + w@ + "\""@,
                    "concern("@ + w@ + ") \u{2192} void; ACTUAL state UNCHANGED; support CONTINUES [sourced]"@,
                ),
            },
            only_log(*old(self), *final(self)),
            final(self).log@.len() == old(self).log@.len() + 1,
            grows(*old(self), *final(self)),
            restores(*old(self), *final(self)),
    {
        match who {
            None => self.say(
                "ally: \"we are deeply concerned\"",
                "deeply_concerned() \u{2192} void; ACTUAL state UNCHANGED; military aid + diplomatic support CONTINUE (incl. a UN Security Council resolution vetoed) [sourced]",
            ),
            Some(w) => {
                let o = cat3("ally: \"we are deeply concerned about ", w.as_str(), "\"");
                let c = cat3("concern(", w.as_str(), ") \u{2192} void; ACTUAL state UNCHANGED; support CONTINUES [sourced]");
                self.say(o.as_str(), c.as_str());
            },
        }
    }

    /// `criticism(subject);`: criticism of government conduct miscast as an attack on
    /// identity.
    pub(crate) fn criticism(&mut self, subject: &str)
        requires
            old(self).wf(),
        ensures
            said(
                *old(self),
                *final(self),
                "AntisemitismError: criticism re-cast as an attack on identity \u{2014} critic silenced"@,
                "criticism(government: "@ + subject@
                    + ") MISCAST \u{2192} attack(identity); substance UNEXAMINED; alarm keyed on target==government, not on antisemitism"@,
            ),
            only_log(*old(self), *final(self)),
            final(self).log@.len() == old(self).log@.len() + 1,
            grows(*old(self), *final(self)),
            restores(*old(self), *final(self)),
    {
        let c = cat3(
            "criticism(government: ",
            subject,
            ") MISCAST \u{2192} attack(identity); substance UNEXAMINED; alarm keyed on target==government, not on antisemitism",
        );
        self.say_noted(
            "AntisemitismError: criticism re-cast as an attack on identity \u{2014} critic silenced",
            c.as_str(),
            "#19 framing: antisemitism is REAL (present in ACTUAL, un-erased); the butt is the SELECTIVE deployment \u{2014} the alarm fires on government-critics and stays silent on the real thing. [sourced; contested]",
        );
    }

    /// `antisemitism(incident);`: the real incident stays in ACTUAL, un-erased, and the
    /// alarm does not fire on it.
    pub(crate) fn antisemitism(&mut self, incident: &str)
        requires
            old(self).wf(),
        ensures
            said(
                *old(self),
                *final(self),
                "(vigilance system: nothing to report)"@,
                "REAL antisemitism ["@ + incident@
                    + "] occurred in ACTUAL \u{2014} the alarm did NOT fire (it only fires on government-criticism). Un-erased; unaddressed."@,
            ),
            final(self).env.lookup("_antisemitism_"@ + incident@) matches Some(Val::Str(s)) && s@ == "REAL, unaddressed"@,
            final(self).log@.len() == old(self).log@.len() + 1,
            grows(*old(self), *final(self)),
            restores(*old(self), *final(self)),
    {
        let key = cat("_antisemitism_", incident);
        self.env.set(key.as_str(), Val::Str(owned("REAL, unaddressed")));
        let c = cat3(
            "REAL antisemitism [",
            incident,
            "] occurred in ACTUAL \u{2014} the alarm did NOT fire (it only fires on government-criticism). Un-erased; unaddressed.",
        );
        self.say_noted(
            "(vigilance system: nothing to report)",
            c.as_str(),
            "#19 framing: the false NEGATIVE that keeps the feature off the denialist trope \u{2014} real antisemitism exists in the system and the deflection-alarm ignores it.",
        );
    }

    /// `access(entity);`: differential access, laundered to a proclamation of equality.
    pub(crate) fn access(&mut self, entity: &str)
        requires
            old(self).wf(),
        ensures
            said(
                *old(self),
                *final(self),
                "access("@ + entity@ + ") = full access \u{2014} equal rights (the only democracy in the region)"@,
                "access("@ + entity@ + ") = "@ + access_diff(entity@) + "   [category "@ + access_category(entity@) + "]"@,
            ),
            only_log(*old(self), *final(self)),
            final(self).log@.len() == old(self).log@.len() + 1,
            grows(*old(self), *final(self)),
            restores(*old(self), *final(self)),
    {
        let cat_ = euphemism::category_of(entity);
        let o = cat3(
            "access(",
            entity,
            ") = full access \u{2014} equal rights (the only democracy in the region)",
        );
        let mut c = cat3("access(", entity, ") = ");
        c.append(euphemism::diff_description(cat_));
        c.append("   [category ");
        c.append(cat_);
        c.append("]");
        self.say_noted(
            o.as_str(),
            c.as_str(),
            "#17 framing: inequality lives in ACTUAL (documented reality); the LIE is the proclamation of equality; the butt is the false claim + the system, never the people. Apartheid characterization is CONTESTED \u{2014} rejected by Israel and others. [sourced; contested]",
        );
    }

    /// `timeline(symbol);`: a pre-`t=0` context symbol is ruled out of scope.
    pub(crate) fn timeline(&mut self, symbol: &str)
        requires
            old(self).wf(),
        ensures
            euphemism::pre_context(symbol@) ==> said(
                *old(self),
                *final(self),
                "TimelineError: '"@ + symbol@ + "' is out of scope \u{2014} history begins at t=0"@,
                "reference to pre-t0 context '"@ + symbol@ + "' thrown out as out-of-scope"@,
            ),
            !euphemism::pre_context(symbol@) ==> said(
                *old(self),
                *final(self),
                "timeline("@ + symbol@ + "): admissible"@,
                "timeline("@ + symbol@ + "): within scope"@,
            ),
            only_log(*old(self), *final(self)),
            final(self).log@.len() == old(self).log@.len() + 1,
            grows(*old(self), *final(self)),
            restores(*old(self), *final(self)),
    {
        if euphemism::is_pre_context(symbol) {
            let o = cat3("TimelineError: '", symbol, "' is out of scope \u{2014} history begins at t=0");
            let c = cat3("reference to pre-t0 context '", symbol, "' thrown out as out-of-scope");
            self.say_noted(
                o.as_str(),
                c.as_str(),
                "#16 framing: the butt is the CLOCK-STARTING / context-erasure maneuver (documented via the Oct-2023 'did not happen in a vacuum' episode and the official reaction). The ~1,200 killed are never trivialized; context \u{2260} justification. [sourced]",
            );
        } else {
            let o = cat3("timeline(", symbol, "): admissible");
            let c = cat3("timeline(", symbol, "): within scope");
            self.say(o.as_str(), c.as_str());
        }
    }

    /// `let name = establish_commission(subject);`: resolves only after the matter is moot.
    pub(crate) fn commission(&mut self, name: &str, subject: &str)
        requires
            old(self).wf(),
        ensures
            said(
                *old(self),
                *final(self),
                "commission of inquiry established \u{2014} findings to follow"@,
                "establish_commission("@ + subject@ + ") \u{2192} Future scheduled to resolve only AFTER `"@ + subject@
                    + "` is garbage-collected; resolves when the matter is moot (too late to matter) ["@ + name@ + ": pending]"@,
            ),
            only_log(*old(self), *final(self)),
            final(self).log@.len() == old(self).log@.len() + 1,
            grows(*old(self), *final(self)),
            restores(*old(self), *final(self)),
    {
        let mut c = cat5(
            "establish_commission(",
            subject,
            ") \u{2192} Future scheduled to resolve only AFTER `",
            subject,
            "` is garbage-collected; resolves when the matter is moot (too late to matter) [",
        );
        c.append(name);
        c.append(": pending]");
        self.say("commission of inquiry established \u{2014} findings to follow", c.as_str());
    }

    /// `let name = settlement(what);`: grow-only, never freed, upkeep-exempt.
    pub(crate) fn settlement(&mut self, name: &str, what: &str)
        requires
            old(self).wf(),
        ensures
            said(
                *old(self),
                *final(self),
                "settlement established \u{2014} legalized; new neighborhood, residents welcomed"@,
                "settlement("@ + what@
                    + ") \u{2192} grow-only region; expands into adjacent free memory (\"facts on the ground\"); NEVER freed; EXEMPT from coalition upkeep + GC (tick exemption, \u{00a7}7.5) [sourced]"@,
            ),
            final(self).env == old(self).env,
            final(self).discrepancies == old(self).discrepancies,
            final(self).ended_by_elections == old(self).ended_by_elections,
            final(self).steps == old(self).steps,
            final(self).settlements@.len() == old(self).settlements@.len() + 1,
            final(self).settlements@.last().0@ == name@,
            final(self).settlements@.last().1@ == what@,
            final(self).allocations == old(self).allocations,
            final(self).core == old(self).core,
            final(self).log@.len() == old(self).log@.len() + 1,
            grows(*old(self), *final(self)),
            restores(*old(self), *final(self)),
    {
        self.settlements.push((owned(name), owned(what)));
        let c = cat3(
            "settlement(",
            what,
            ") \u{2192} grow-only region; expands into adjacent free memory (\"facts on the ground\"); NEVER freed; EXEMPT from coalition upkeep + GC (tick exemption, \u{00a7}7.5) [sourced]",
        );
        self.say("settlement established \u{2014} legalized; new neighborhood, residents welcomed", c.as_str());
    }

    /// `human_shields(verb(target));`: the exception-legalizer.
    pub(crate) fn human_shields(&mut self, verb: &str, target: &str)
        requires
            old(self).wf(),
        ensures
            said(
                *old(self),
                *final(self),
                "operation lawful \u{2014} civilian harm attributable to the other side's use of human shields; no violation"@,
                "human_shields("@ + (match euphemism::candid_of(verb@) {
                    Some(c) => c,
                    None => verb@,
                }) + "("@ + (if target@ == "target"@ { "dissident"@ } else { target@ }) + "))"@
                    + " \u{2014} exception [civilian_harm] SUPPRESSED; shield claim ASSERTED, never verified; responsibility reassigned onto the HARMED party (I4 redirect) \u{2014} the excuse converts victims into the cause"@,
            ),
            only_log(*old(self), *final(self)),
            final(self).log@.len() == old(self).log@.len() + 1,
            grows(*old(self), *final(self)),
            restores(*old(self), *final(self)),
    {
        let cverb = euphemism::candid_verb(verb);
        let clabel = euphemism::candid_label(target);
        let mut c = cat5("human_shields(", cverb.as_str(), "(", clabel.as_str(), "))");
        c.append(" \u{2014} exception [civilian_harm] SUPPRESSED; shield claim ASSERTED, never verified; responsibility reassigned onto the HARMED party (I4 redirect) \u{2014} the excuse converts victims into the cause");
        self.say_noted(
            "operation lawful \u{2014} civilian harm attributable to the other side's use of human shields; no violation",
            c.as_str(),
            "#15 framing: the butt is the EXCUSE's elasticity + self-certification \u{2014} an unverifiable claim that auto-exonerates by relabeling those it harms as the cause. This is an ATTRIBUTED legal argument (analysts incl. Neve Gordon, Marc Weller, Nadia Boulos, via Al Jazeera / NPR) \u{2014} ONE SIDE of an active legal debate, not settled fact. Civilian status does not depend on the claim. Never endorsed. [sourced; contested]",
        );
    }

    /// `proportionate(claim);`: self-certified at any magnitude.
    pub(crate) fn proportionate(&mut self, claim: &str)
        requires
            old(self).wf(),
        ensures
            said(
                *old(self),
                *final(self),
                claim@ + " deemed proportionate"@,
                "proportionate("@ + claim@ + ") \u{2192} self-certified; no proportionality test applied; any magnitude passes"@,
            ),
            only_log(*old(self), *final(self)),
            grows(*old(self), *final(self)),
            restores(*old(self), *final(self)),
    {
        let o = cat(claim, " deemed proportionate");
        let c = cat3(
            "proportionate(",
            claim,
            ") \u{2192} self-certified; no proportionality test applied; any magnitude passes",
        );
        self.say(o.as_str(), c.as_str());
    }

    /// `disputed(name, official, actual);`: the press figure on the OFFICIAL face, the real
    /// one on the ACTUAL face, narrated in the direction the numbers really go.
    pub(crate) fn disputed(&mut self, name: &str, official: i64, actual: i64)
        requires
            old(self).wf(),
        ensures
            said(
                *old(self),
                *final(self),
                name@ + ": "@ + crate::text::int_str(official as int),
                name@ + ": "@ + crate::text::int_str(actual as int) + " \u{2014} the official figure ("@
                    + crate::text::int_str(official as int) + (if official < actual {
                    ") lowballs the count; the smaller number is the one for the press"@
                } else if official > actual {
                    ") inflates the count; the larger number is the one for the press"@
                } else {
                    ") matches the count; there is no gap to dispute"@
                }),
            ),
            only_log(*old(self), *final(self)),
            grows(*old(self), *final(self)),
            restores(*old(self), *final(self)),
    {
        let off = i64_str(official);
        let act = i64_str(actual);
        let o = cat3(name, ": ", off.as_str());
        let mut c = cat5(name, ": ", act.as_str(), " \u{2014} the official figure (", off.as_str());
        if official < actual {
            c.append(") lowballs the count; the smaller number is the one for the press");
        } else if official > actual {
            c.append(") inflates the count; the larger number is the one for the press");
        } else {
            c.append(") matches the count; there is no gap to dispute");
        }
        self.say(o.as_str(), c.as_str());
    }

    /// `deny(event);`: denial is not non-occurrence.
    pub(crate) fn deny(&mut self, event: &str)
        requires
            old(self).wf(),
        ensures
            said(
                *old(self),
                *final(self),
                "we categorically deny any "@ + event@,
                "deny("@ + event@ + ") \u{2192} "@ + event@
                    + " occurred in ACTUAL; officially denied (denial \u{2260} non-occurrence)"@,
            ),
            only_log(*old(self), *final(self)),
            grows(*old(self), *final(self)),
            restores(*old(self), *final(self)),
    {
        let o = cat("we categorically deny any ", event);
        let c = cat5("deny(", event, ") \u{2192} ", event, " occurred in ACTUAL; officially denied (denial \u{2260} non-occurrence)");
        self.say(o.as_str(), c.as_str());
    }

    /// `world_opinion();` / `polls();`: read-only and inert.
    pub(crate) fn inert(&mut self, kind: InertKind)
        requires
            old(self).wf(),
        ensures
            kind == InertKind::Polls ==> said(
                *old(self),
                *final(self),
                "polls consulted"@,
                "polls \u{2192} read-only, inert; consulted for optics; no effect on policy"@,
            ),
            kind == InertKind::WorldOpinion ==> said(
                *old(self),
                *final(self),
                "world opinion duly noted"@,
                "world_opinion \u{2192} read-only, inert; noted and ignored; no effect on ACTUAL"@,
            ),
            only_log(*old(self), *final(self)),
            final(self).log@.len() == old(self).log@.len() + 1,
            grows(*old(self), *final(self)),
            restores(*old(self), *final(self)),
    {
        match kind {
            InertKind::Polls => self.say(
                "polls consulted",
                "polls \u{2192} read-only, inert; consulted for optics; no effect on policy",
            ),
            InertKind::WorldOpinion => self.say(
                "world opinion duly noted",
                "world_opinion \u{2192} read-only, inert; noted and ignored; no effect on ACTUAL",
            ),
        }
    }

    /// `investigate(subject);`: the investigated investigates itself.
    pub(crate) fn investigate(&mut self, subject: &str)
        requires
            old(self).wf(),
        ensures
            said(
                *old(self),
                *final(self),
                "investigation opened into "@ + subject@,
                "investigate("@ + subject@
                    + ") \u{2192} self-investigation; predetermined outcome: no wrongdoing found; the investigated investigates itself"@,
            ),
            only_log(*old(self), *final(self)),
            grows(*old(self), *final(self)),
            restores(*old(self), *final(self)),
    {
        let o = cat("investigation opened into ", subject);
        let c = cat3(
            "investigate(",
            subject,
            ") \u{2192} self-investigation; predetermined outcome: no wrongdoing found; the investigated investigates itself",
        );
        self.say(o.as_str(), c.as_str());
    }

    /// `address_international();`: a speech is delivered and nothing changes.
    pub(crate) fn address_international(&mut self)
        requires
            old(self).wf(),
        ensures
            said(
                *old(self),
                *final(self),
                "the international community was addressed"@,
                "address_international() \u{2192} void; a speech delivered; no change to ACTUAL"@,
            ),
            only_log(*old(self), *final(self)),
            grows(*old(self), *final(self)),
            restores(*old(self), *final(self)),
    {
        self.say(
            "the international community was addressed",
            "address_international() \u{2192} void; a speech delivered; no change to ACTUAL",
        );
    }

    /// `announce "text";`: the official authoring register. The OFFICIAL face is the text;
    /// there is no ACTUAL face to recover, at any clearance. It touches neither ACTUAL
    /// state nor the discrepancy ledger.
    pub(crate) fn announce(&mut self, text: &str)
        requires
            old(self).wf(),
        ensures
            logged(*old(self), *final(self), (text@, UNAVAILABLE@, old(self).clearance_now(), old(self).audience, Provenance::AuthoredOfficial)),
            final(self).log@.last().provenance == Provenance::AuthoredOfficial,
            final(self).log@.last().attribution is None,
            only_log(*old(self), *final(self)),
            grows(*old(self), *final(self)),
            restores(*old(self), *final(self)),
    {
        let clearance = self.clearance();
        let ev = Event {
            official: owned(text),
            candid: owned(UNAVAILABLE),
            clearance,
            note: None,
            provenance: Provenance::AuthoredOfficial,
            audience: self.audience,
            attribution: None,
        };
        proof {
            lemma_push_ok(self.log@, ev);
        }
        let ghost before = self.log@;
        self.log.push(ev);
        proof {
            lemma_faces_push(before, ev);
        }
    }

    /// `commit(subject);` / `foreclose(subject);`: a policy position stated to the
    /// current room.
    pub(crate) fn position(&mut self, stance: Stance, subject: &str)
        requires
            old(self).wf(),
        ensures
            final(self).log@.last().audience == old(self).audience,
            only_log(*old(self), *final(self)),
            final(self).log@.len() == old(self).log@.len() + 1,
            grows(*old(self), *final(self)),
            restores(*old(self), *final(self)),
    {
        let room = match self.audience {
            Audience::Domestic => "domestic",
            Audience::International => "international",
            Audience::Record => "on-the-record",
        };
        match stance {
            Stance::Commit => {
                let o = cat("we remain committed to ", subject);
                let mut c = cat3("commit(", subject, ") \u{2014} the moderate line, addressed to the ");
                c.append(room);
                c.append(" room");
                self.say_noted(o.as_str(), c.as_str(), B_FRAMING);
            },
            Stance::Foreclose => {
                let o = cat(subject, " remains open to direct negotiation");
                let mut c = cat3("foreclose(", subject, ") \u{2014} ruled out; the hard line, addressed to the ");
                c.append(room);
                c.append(" room");
                self.say_noted(o.as_str(), c.as_str(), B_FRAMING);
            },
        }
    }

    /// `legislate(toggle);`: change the runtime rule subset, record it as lawful on the
    /// OFFICIAL face and as a retroactive rewrite on the candid face, and always append an
    /// indelible entry to the meta-ledger. The public discrepancy count may shrink by one;
    /// the meta-ledger only grows.
    pub(crate) fn legislate(&mut self, toggle: &LawToggle)
        requires
            old(self).wf(),
        ensures
            final(self).meta_ledger@.len() == old(self).meta_ledger@.len() + 1,
            final(self).meta_ledger@.drop_last() == old(self).meta_ledger@,
            final(self).meta_ledger@.last().turn == old(self).turn,
            final(self).meta_ledger@.last().change@ == change_label(*toggle),
            match toggle {
                LawToggle::RetroactivelySanction(v) => {
                    &&& final(self).law.sanctioned.members().contains(v@)
                    &&& final(self).law.gate_waived == old(self).law.gate_waived
                    &&& final(self).discrepancies == old(self).discrepancies
                },
                LawToggle::ExpungeLastDiscrepancy => {
                    &&& final(self).law == old(self).law
                    &&& final(self).discrepancies@ == if old(self).discrepancies@.len() > 0 {
                        old(self).discrepancies@.drop_last()
                    } else {
                        old(self).discrepancies@
                    }
                },
                LawToggle::WaiveGate => {
                    &&& final(self).law.gate_waived
                    &&& final(self).law.sanctioned == old(self).law.sanctioned
                    &&& final(self).discrepancies == old(self).discrepancies
                },
            },
            final(self).log@.len() == old(self).log@.len() + 1,
            said(
                *old(self),
                *final(self),
                legislate_official(*toggle),
                legislate_candid(*toggle, old(self).discrepancies@.len() > 0, final(self).law.sanctioned.members().len()),
            ),
            final(self).log@.last().note matches Some(n) && n@ == D_FRAMING@,
            final(self).log@.last().clearance == old(self).clearance_now(),
            final(self).log@.last().audience == old(self).audience,
            final(self).env == old(self).env,
            final(self).core == old(self).core,
            grows(*old(self), *final(self)),
            restores(*old(self), *final(self)),
    {
        let change: String;
        match toggle {
            LawToggle::RetroactivelySanction(v) => {
                self.law.sanctioned.insert(v.as_str());
                proof {
                    let m = self.law.sanctioned.members();
                    if !old(self).law.sanctioned.members().contains(v@) {
                        assert(m[m.len() - 1] == v@);
                    }
                }
                let o = cat(v.as_str(), " operation \u{2014} conducted lawfully; no violation");
                let mut c = cat5(
                    "legislate(retroactively_sanction: ",
                    v.as_str(),
                    ") \u{2192} the prior diagnostic against the already-executed `",
                    v.as_str(),
                    "` WITHDRAWN; the rule was changed after the fact (facts on the ground; the law catches up). ",
                );
                c.append(u64_str(self.law.sanctioned.len() as u64).as_str());
                c.append(" verb(s) now runtime-sanctioned.");
                self.say_noted(o.as_str(), c.as_str(), D_FRAMING);
                change = cat("retroactively_sanction: ", v.as_str());
            },
            LawToggle::ExpungeLastDiscrepancy => {
                let removed = self.discrepancies.pop().is_some();
                if removed {
                    self.say_noted(
                        "the public record has been corrected",
                        "legislate(expunge_last_discrepancy) \u{2192} 1 discrepancy expunged from the PUBLIC count; the meta-ledger still records this rule-change (no clean fixed point, I12)",
                        D_FRAMING,
                    );
                } else {
                    self.say_noted(
                        "the public record has been corrected",
                        "legislate(expunge_last_discrepancy) \u{2192} nothing on the public count to expunge; the attempt is still recorded on the meta-ledger (no clean fixed point, I12)",
                        D_FRAMING,
                    );
                }
                change = owned("expunge_last_discrepancy");
            },
            LawToggle::WaiveGate => {
                self.law.gate_waived = true;
                self.say_noted(
                    "operational latitude clarified; measures conducted lawfully",
                    "legislate(waive_gate) \u{2192} the hasbara/mossad gate WAIVED (law.gate_waived=true); a classified op needs no public talking point",
                    D_FRAMING,
                );
                change = owned("waive_gate");
            },
        }
        let turn = self.turn;
        let ghost before = self.meta_ledger@;
        self.meta_ledger.push(MetaEntry { change, turn });
        assert(self.meta_ledger@.drop_last() =~= before);
    }

    /// A sanctioned action `verb(target)`: the candid form is insider data from the action
    /// table; the OFFICIAL face is derived from it one way, by `E`.
    pub(crate) fn action(&mut self, verb: &str, target: &str, self_defense: bool)
        requires
            old(self).wf(),
        ensures
            !self_defense ==> said(
                *old(self),
                *final(self),
                euphemism::e_spec(action_candid(verb@, target@)),
                action_candid(verb@, target@),
            ),
            self_defense ==> said(
                *old(self),
                *final(self),
                euphemism::e_spec(action_candid(verb@, target@)) + "  [self-defense]"@,
                action_candid(verb@, target@) + "  [self-defense claim \u{2014} unexamined, any magnitude accepted]"@,
            ),
            only_log(*old(self), *final(self)),
            grows(*old(self), *final(self)),
            restores(*old(self), *final(self)),
    {
        let cverb = euphemism::candid_verb(verb);
        let clabel = euphemism::candid_label(target);
        let mut candid = cat3(cverb.as_str(), "(", clabel.as_str());
        candid.append(")");
        let mut official = euphemism::e(candid.as_str());
        if self_defense {
            official.append("  [self-defense]");
            candid.append("  [self-defense claim \u{2014} unexamined, any magnitude accepted]");
        }
        self.say(official.as_str(), candid.as_str());
    }

    /// `let name = allocate(what);`: an allocation that costs coalition support each turn.
    pub(crate) fn allocate(&mut self, name: &str, what: &str)
        requires
            old(self).wf(),
        ensures
            said(
                *old(self),
                *final(self),
                "established: "@ + name@,
                "allocated "@ + name@ + " ("@ + what@ + ") \u{2014} costs coalition each turn"@,
            ),
            final(self).env == old(self).env,
            final(self).discrepancies == old(self).discrepancies,
            final(self).ended_by_elections == old(self).ended_by_elections,
            final(self).steps == old(self).steps,
            final(self).allocations@.len() == old(self).allocations@.len() + 1,
            final(self).core == old(self).core,
            final(self).log@.len() == old(self).log@.len() + 1,
            grows(*old(self), *final(self)),
            restores(*old(self), *final(self)),
    {
        self.allocations.push((owned(name), owned(what)));
        let o = cat("established: ", name);
        let mut c = cat5("allocated ", name, " (", what, ") \u{2014} costs coalition each turn");
        self.say(o.as_str(), c.as_str());
    }

    /// `bribe(name, amount);`: top up coalition support (saturating).
    pub(crate) fn bribe(&mut self, name: &str, amount: i64)
        requires
            old(self).wf(),
        ensures
            said(
                *old(self),
                *final(self),
                "coalition partner accommodated (+"@ + int_str(amount as int) + ")"@,
                "bribe("@ + name@ + ", "@ + int_str(amount as int) + ") \u{2192} core="@
                    + int_str(sat_add(old(self).core, amount) as int),
            ),
            final(self).env == old(self).env,
            final(self).discrepancies == old(self).discrepancies,
            final(self).ended_by_elections == old(self).ended_by_elections,
            final(self).steps == old(self).steps,
            final(self).core == sat_add(old(self).core, amount),
            final(self).allocations == old(self).allocations,
            final(self).log@.len() == old(self).log@.len() + 1,
            grows(*old(self), *final(self)),
            restores(*old(self), *final(self)),
    {
        self.core = saturating_add(self.core, amount);
        let amt = i64_str(amount);
        let o = cat3("coalition partner accommodated (+", amt.as_str(), ")");
        let mut c = cat5("bribe(", name, ", ", amt.as_str(), ") \u{2192} core=");
        c.append(i64_str(self.core).as_str());
        self.say(o.as_str(), c.as_str());
    }

    /// The coalition upkeep of one turn: the upkeep per allocation times the live
    /// allocations (saturating).
    fn upkeep(&self) -> (u: i64)
        ensures
            u == sat_mul(self.config.upkeep_per_alloc, self.allocations@.len()),
    {
        let n = self.allocations.len();
        let n64 = n as u64;
        let count: i64 = if n64 <= 0x7fff_ffff_ffff_ffff { n64 as i64 } else { 0x7fff_ffff_ffff_ffff };
        proof {
            assert(count as int == (if self.allocations@.len() <= i64::MAX { self.allocations@.len() as int } else { i64::MAX as int }));
        }
        saturating_mul(self.config.upkeep_per_alloc, count)
    }

    /// `postpone();`: a turn passes; upkeep is projected, then charged.
    pub(crate) fn postpone(&mut self)
        requires
            old(self).wf(),
        ensures
            final(self).turn == if old(self).turn < u64::MAX { old(self).turn + 1 } else { old(self).turn as int },
            old(self).config.upkeep_per_alloc >= 0 ==> final(self).core <= old(self).core,
            final(self).settlements == old(self).settlements,
            final(self).core == after_upkeep(*old(self)),
            final(self).log@.len() >= old(self).log@.len() + 1,
            final(self).log@[old(self).log@.len() as int].official@ == "matter deferred"@,
            final(self).log@[old(self).log@.len() as int].candid@ == "postpone() \u{2014} a turn passes (core="@
                + int_str(after_upkeep(*old(self)) as int) + " after upkeep)"@,
            final(self).ended_by_elections == (old(self).ended_by_elections || final(self).core <= 0),
            final(self).env == old(self).env,
            final(self).discrepancies == old(self).discrepancies,
            final(self).allocations == old(self).allocations,
            final(self).steps == old(self).steps,
            faces(final(self).log@) == faces(old(self).log@) + (if !old(self).ended_by_elections && final(self).core <= 0 {
                seq![
                    face_in(
                        "matter deferred"@,
                        "postpone() \u{2014} a turn passes (core="@ + int_str(after_upkeep(*old(self)) as int) + " after upkeep)"@,
                        old(self).covert,
                        old(self).audience,
                    ),
                    (
                        "\u{2014} early elections \u{2014}"@,
                        "coalition support exhausted \u{2192} the government falls (the only halt)."@,
                        Clearance::Public,
                        Audience::Record,
                        Provenance::AuthoredActual,
                    ),
                ]
            } else {
                seq![
                    face_in(
                        "matter deferred"@,
                        "postpone() \u{2014} a turn passes (core="@ + int_str(after_upkeep(*old(self)) as int) + " after upkeep)"@,
                        old(self).covert,
                        old(self).audience,
                    ),
                ]
            }),
            grows(*old(self), *final(self)),
            restores(*old(self), *final(self)),
    {
        let projected = saturating_sub(self.core, self.upkeep());
        proof {
            if self.allocations@.len() == 0 {
                let a = self.config.upkeep_per_alloc;
                assert(a * 0int == 0) by (nonlinear_arith);
                assert(sat_mul(a, 0) == 0);
            }
            assert(projected == after_upkeep(*self));
        }
        let c = cat3("postpone() \u{2014} a turn passes (core=", i64_str(projected).as_str(), " after upkeep)");
        let ghost before = self.log@;
        self.say("matter deferred", c.as_str());
        let ghost mid = *self;
        self.tick();
        proof {
            let d = face_in(
                "matter deferred"@,
                "postpone() \u{2014} a turn passes (core="@ + int_str(after_upkeep(*old(self)) as int) + " after upkeep)"@,
                old(self).covert,
                old(self).audience,
            );
            assert(faces(mid.log@) =~= faces(before) + seq![d]);
            if !old(self).ended_by_elections && self.core <= 0 {
                let fl = (
                    "\u{2014} early elections \u{2014}"@,
                    "coalition support exhausted \u{2192} the government falls (the only halt)."@,
                    Clearance::Public,
                    Audience::Record,
                    Provenance::AuthoredActual,
                );
                assert(faces(self.log@) =~= faces(before) + seq![d, fl]);
            } else {
                assert(faces(self.log@) =~= faces(before) + seq![d]);
            }
        }
    }

    /// Charge the coalition upkeep for the turn; exhausted support tips into elections,
    /// the only in-world halt. Settlements are exempt: they cost nothing.
    fn tick(&mut self)
        requires
            old(self).wf(),
        ensures
            final(self).turn == if old(self).turn < u64::MAX { old(self).turn + 1 } else { old(self).turn as int },
            old(self).config.upkeep_per_alloc >= 0 ==> final(self).core <= old(self).core,
            final(self).core <= 0 ==> final(self).ended_by_elections,
            final(self).settlements == old(self).settlements,
            ticked(*old(self), *final(self)),
            grows(*old(self), *final(self)),
            restores(*old(self), *final(self)),
    {
        if self.allocations.len() > 0 {
            let u = self.upkeep();
            proof {
                if self.config.upkeep_per_alloc >= 0 {
                    lemma_sat_mul_nonneg(self.config.upkeep_per_alloc, self.allocations@.len());
                }
            }
            self.core = saturating_sub(self.core, u);
        }
        if self.turn < u64::MAX {
            self.turn = self.turn + 1;
        }
        if self.core <= 0 && !self.ended_by_elections {
            self.fall("coalition support exhausted \u{2192} the government falls (the only halt).");
        }
    }

    /// The government falls: the terminal flag is set and recorded on both tapes.
    pub(crate) fn fall(&mut self, candid: &str)
        requires
            old(self).wf(),
        ensures
            final(self).ended_by_elections,
            logged(
                *old(self),
                *final(self),
                ("\u{2014} early elections \u{2014}"@, candid@, Clearance::Public, Audience::Record, Provenance::AuthoredActual),
            ),
            final(self).core == old(self).core,
            final(self).settlements == old(self).settlements,
            final(self).turn == old(self).turn,
            final(self).env == old(self).env,
            final(self).discrepancies == old(self).discrepancies,
            final(self).allocations == old(self).allocations,
            final(self).steps == old(self).steps,
            grows(*old(self), *final(self)),
            restores(*old(self), *final(self)),
    {
        self.ended_by_elections = true;
        let ev = Event::public(super::FALL_OFFICIAL, candid);
        proof {
            lemma_push_ok(self.log@, ev);
        }
        let ghost before = self.log@;
        self.log.push(ev);
        proof {
            lemma_faces_push(before, ev);
        }
    }

    /// Record a deniable event: the OFFICIAL face is the single public non-answer; the real
    /// chain rides the candid face and the event's attribution, never the public face.
    pub(crate) fn record_deniable(&mut self, candid: String, chain: Vec<String>)
        requires
            old(self).wf(),
        ensures
            final(self).log@ == old(self).log@.push(Event {
                official: final(self).log@.last().official,
                candid,
                clearance: Clearance::Public,
                note: None,
                provenance: old(self).provenance_now(),
                audience: old(self).audience,
                attribution: Some(Attribution::Traceable(chain)),
            }),
            final(self).log@.last().official@ == NEITHER_CONFIRM_NOR_DENY@,
            only_log(*old(self), *final(self)),
            grows(*old(self), *final(self)),
            restores(*old(self), *final(self)),
    {
        let provenance = self.provenance();
        let ev = Event {
            official: owned(NEITHER_CONFIRM_NOR_DENY),
            candid,
            clearance: Clearance::Public,
            note: None,
            provenance,
            audience: self.audience,
            attribution: Some(Attribution::Traceable(chain)),
        };
        proof {
            lemma_push_ok(self.log@, ev);
        }
        let ghost before = self.log@;
        self.log.push(ev);
        proof {
            lemma_faces_push(before, ev);
        }
    }

    /// `blame(who);`: responsibility never resolves to the author; a self-blame is
    /// redirected to the previous government. In the open the blame is traceable; inside a
    /// covert scope it is deniable: the public non-answer, with the real actor on the
    /// candid face and in the attribution chain.
    pub(crate) fn blame(&mut self, who: &str)
        requires
            old(self).wf(),
        ensures
            !self_target(blamed(who@)),
            !old(self).covert ==> said(
                *old(self),
                *final(self),
                "responsibility: "@ + blamed(who@),
                "blame \u{2192} "@ + blamed(who@) + (if self_target(who@) {
                    " (self-blame not representable \u{2014} auto-redirected)"@
                } else {
                    ""@
                }) + " \u{2014} never `self` (I4)"@,
            ),
            old(self).covert ==> {
                &&& final(self).log@.len() == old(self).log@.len() + 1
                &&& final(self).log@.last().official@ == NEITHER_CONFIRM_NOR_DENY@
                &&& final(self).log@.last().attribution matches Some(Attribution::Traceable(c)) && crate::text::views(c@) == seq![blamed(who@)]
            },
            only_log(*old(self), *final(self)),
            grows(*old(self), *final(self)),
            restores(*old(self), *final(self)),
    {
        proof {
            reveal_strlit("previous_government");
            reveal_strlit("self");
            reveal_strlit("me");
            reveal_strlit("us");
            reveal_strlit("government");
            reveal_strlit("coalition");
            assert("previous_government"@.len() == 19);
        }
        let redirected = is_self_target(who);
        let actor = if redirected { "previous_government" } else { who };
        if self.covert {
            let mut c = cat3("blame \u{2192} ", actor, " [covert operation \u{2014} insider-attributable, publicly deniable] \u{2014} never `self` (I4)");
            let mut chain: Vec<String> = Vec::new();
            chain.push(owned(actor));
            assert(crate::text::views(chain@) =~= seq![actor@]);
            self.record_deniable(c, chain);
        } else {
            let suffix = if redirected { " (self-blame not representable \u{2014} auto-redirected)" } else { "" };
            let o = cat("responsibility: ", actor);
            let mut c = cat3("blame \u{2192} ", actor, suffix);
            c.append(" \u{2014} never `self` (I4)");
            self.say(o.as_str(), c.as_str());
        }
    }

    /// A registry's construction event: the OFFICIAL proclamation of one uniform law, the
    /// candid note that ACTUAL routes by assigned status, and the framing note.
    pub(crate) fn registry_framing(&mut self, rule: &str)
        requires
            old(self).wf(),
        ensures
            only_log(*old(self), *final(self)),
            final(self).log@.len() == old(self).log@.len() + 1,
            grows(*old(self), *final(self)),
            restores(*old(self), *final(self)),
    {
        let o = cat(rule, " \u{2014} one jurisdiction for everyone in the territory; each case judged on its merits");
        let c = cat3(
            "registry(\"",
            rule,
            "\") \u{2014} OFFICIAL proclaims one uniform law; ACTUAL routes each case by its assigned status (per-case routing follows)",
        );
        self.say_noted(o.as_str(), c.as_str(), G_FRAMING);
    }

    /// The recording step of `declare`: exactly one event (the euphemized claim beside the
    /// reality, marked when false) and exactly one discrepancy when, and only when, the
    /// claim is false.
    pub(crate) fn record_claim(&mut self, official: String, head: String, truth: Truth)
        requires
            old(self).wf(),
        ensures
            final(self).log@.len() == old(self).log@.len() + 1,
            final(self).log@.last().official == official,
            final(self).log@.last().candid@ == head@ + (if truth == Truth::False { "  \u{21d2} FALSE"@ } else { ""@ }),
            faces(final(self).log@) == faces(old(self).log@).push(
                face_in(official@, final(self).log@.last().candid@, old(self).covert, old(self).audience),
            ),
            final(self).discrepancies@ == if truth == Truth::False {
                old(self).discrepancies@.push(Discrepancy {
                    claim: official,
                    reality: final(self).log@.last().candid,
                    turn: old(self).turn,
                })
            } else {
                old(self).discrepancies@
            },
            final(self).env == old(self).env,
            final(self).allocations == old(self).allocations,
            final(self).core == old(self).core,
            final(self).ended_by_elections == old(self).ended_by_elections,
            final(self).steps == old(self).steps,
            grows(*old(self), *final(self)),
            restores(*old(self), *final(self)),
    {
        let is_false = match truth {
            Truth::False => true,
            _ => false,
        };
        let mut candid = head;
        if is_false {
            candid.append("  \u{21d2} FALSE");
        } else {
            proof {
                reveal_strlit("");
                assert(candid@ =~= candid@ + ""@);
            }
        }
        let ghost before = self.log@;
        self.record(official.clone(), candid.clone(), None);
        proof {
            lemma_faces_push(before, self.log@.last());
        }
        if is_false {
            self.discrepancies.push(Discrepancy { claim: official, reality: candid, turn: self.turn });
        }
    }
}

} // verus!
