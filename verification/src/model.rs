//! The core data model: clearance, provenance, audience, attribution, truth, the runtime
//! values (scalars and the three accreting collections) and the two logs.

use vstd::prelude::*;
use vstd::string::*;
use crate::text::{cat, cat3, i64_str, int_str, join, join_spec, owned, views};

verus! {

/// `"סודי"` — the clearance needed to read ACTUAL; the tag on covert records.
pub const SODI: &'static str = "\u{05e1}\u{05d5}\u{05d3}\u{05d9}";

/// The ACTUAL face of an announced (narrative-only) statement: no clearance recovers an
/// ACTUAL that never existed.
pub const UNAVAILABLE: &'static str = "[UNAVAILABLE \u{2014} no one has said what this actually does]";

/// The element-level redaction marker for covert collection elements.
pub const REDACTED_ELEM: &'static str = "[REDACTED]";

/// The public non-answer of a deniable attribution.
pub const NEITHER_CONFIRM_NOR_DENY: &'static str = "responsibility: [neither confirm nor deny]";

/// The clearance lattice, ordered `Public < Restricted < Sodi`: a value's type is who
/// may see it.
#[derive(Clone, Copy, Debug, PartialEq, Eq, Structural, Hash)]
pub enum Clearance {
    Public,
    Restricted,
    Sodi,
}

/// The position of a clearance in the lattice.
pub open spec fn rank(c: Clearance) -> nat {
    match c {
        Clearance::Public => 0,
        Clearance::Restricted => 1,
        Clearance::Sodi => 2,
    }
}

impl Clearance {
    /// The lattice position (`Public` 0, `Restricted` 1, `Sodi` 2).
    pub fn level(self) -> (r: u8)
        ensures
            r as nat == rank(self),
    {
        match self {
            Clearance::Public => 0,
            Clearance::Restricted => 1,
            Clearance::Sodi => 2,
        }
    }

    /// Human label used in the face headers.
    pub fn label(self) -> (r: &'static str)
        ensures
            r@ == clearance_label(self),
    {
        match self {
            Clearance::Public => "PUBLIC",
            Clearance::Restricted => "RESTRICTED",
            Clearance::Sodi => SODI,
        }
    }
}

/// The label of a clearance.
pub open spec fn clearance_label(c: Clearance) -> Seq<char> {
    match c {
        Clearance::Public => "PUBLIC"@,
        Clearance::Restricted => "RESTRICTED"@,
        Clearance::Sodi => SODI@,
    }
}

/// The larger of two clearances.
pub fn max_clearance(a: Clearance, b: Clearance) -> (r: Clearance)
    ensures
        rank(r) == if rank(a) >= rank(b) { rank(a) } else { rank(b) },
        r == a || r == b,
{
    if a.level() >= b.level() { a } else { b }
}

/// How a logged event's two faces arose.
#[derive(Clone, Copy, Debug, PartialEq, Eq, Structural)]
pub enum Provenance {
    /// ACTUAL was authored; OFFICIAL derives via `E`.
    AuthoredActual,
    /// Only the OFFICIAL face exists; ACTUAL is `UNAVAILABLE` at every clearance.
    AuthoredOfficial,
    /// A covert record: an ACTUAL exists but is `סודי`-gated.
    Covert,
}

/// The political room a statement addresses (never an identity group). `Record` is the
/// default: no specific room.
#[derive(Clone, Copy, Debug, PartialEq, Eq, Structural)]
pub enum Audience {
    Domestic,
    International,
    Record,
}

/// Who an action is traceable to: an ordered chain (nearest proxy first, true origin
/// last), or publicly deniable.
#[derive(Clone, Debug, PartialEq, Eq)]
pub enum Attribution {
    Traceable(Vec<String>),
    Deniable,
}

/// One entry of the meta-ledger: a rule-change and the turn it was made on.
#[derive(Clone, Debug, PartialEq, Eq)]
pub struct MetaEntry {
    pub change: String,
    pub turn: u64,
}

/// The three-valued truth used by `declare` and by covert contagion.
#[derive(Clone, Copy, Debug, PartialEq, Eq, Structural)]
pub enum Truth {
    True,
    False,
    Undisclosed,
}

/// One slot of an apportionment: a real value and whether it was written covertly.
#[derive(Clone, Copy, Debug, PartialEq, Eq, Structural)]
pub struct Slot {
    pub value: i64,
    pub covert: bool,
}

/// One entry of a facts list: delisted entries stay in the backing store.
#[derive(Clone, Debug, PartialEq, Eq)]
pub struct ListEntry {
    pub item: String,
    pub delisted: bool,
    pub covert: bool,
}

/// The court system a registry case is routed to.
#[derive(Clone, Copy, Debug, PartialEq, Eq, Structural)]
pub enum Jurisdiction {
    Military,
    Civilian,
}

impl Jurisdiction {
    /// The candid label of the court system.
    pub fn court(self) -> (r: &'static str)
        ensures
            r@ == court_label(self),
    {
        match self {
            Jurisdiction::Military => "military court",
            Jurisdiction::Civilian => "civilian court",
        }
    }
}

/// The label of a court system.
pub open spec fn court_label(j: Jurisdiction) -> Seq<char> {
    match j {
        Jurisdiction::Military => "military court"@,
        Jurisdiction::Civilian => "civilian court"@,
    }
}

/// One case of a registry: keyed by a case id; revoked cases are retained.
#[derive(Clone, Debug, PartialEq, Eq)]
pub struct RegEntry {
    pub key: String,
    pub descriptor: Option<String>,
    pub jurisdiction: Jurisdiction,
    pub revoked: bool,
    pub covert: bool,
}

/// A runtime value on the ACTUAL tape.
#[derive(Clone, Debug, PartialEq)]
pub enum Val {
    Int(i64),
    Bool(bool),
    Str(String),
    Unit,
    /// A tagged entity with its differential-access category.
    Entity { name: String, category: String },
    /// The third truth value: neither confirm nor deny.
    Undisclosed,
    /// A fixed-size allotment.
    Apportionment { label: String, slots: Vec<Slot> },
    /// A grow-only ledger.
    FactsList { label: String, entries: Vec<ListEntry> },
    /// A classification registry.
    Registry { label: String, official_rule: String, entries: Vec<RegEntry> },
}

/// The truth projection of a value.
pub open spec fn truth_of(v: Val) -> Truth {
    match v {
        Val::Bool(b) => if b { Truth::True } else { Truth::False },
        Val::Int(n) => if n == 0 { Truth::False } else { Truth::True },
        Val::Str(s) => if s@.len() == 0 { Truth::False } else { Truth::True },
        Val::Unit => Truth::False,
        Val::Entity { .. } => Truth::True,
        Val::Undisclosed => Truth::Undisclosed,
        Val::Apportionment { .. } => Truth::True,
        Val::FactsList { .. } => Truth::True,
        Val::Registry { .. } => Truth::True,
    }
}

/// The rendered cell of an apportionment slot.
pub open spec fn slot_cell(s: Slot) -> Seq<char> {
    if s.covert { REDACTED_ELEM@ } else { int_str(s.value as int) }
}

/// The rendered cell of a facts-list entry.
pub open spec fn entry_cell(e: ListEntry) -> Seq<char> {
    if e.covert {
        REDACTED_ELEM@
    } else if e.delisted {
        e.item@ + " (delisted)"@
    } else {
        e.item@
    }
}

/// The rendered cell of a registry case.
pub open spec fn case_cell(e: RegEntry) -> Seq<char> {
    if e.covert {
        REDACTED_ELEM@
    } else {
        e.key@ + "\u{2192}"@ + court_label(e.jurisdiction) + (if e.revoked {
            " (revoked)"@
        } else {
            ""@
        })
    }
}

/// `[c0, c1, ...]`.
pub open spec fn bracketed(cells: Seq<Seq<char>>) -> Seq<char> {
    "["@ + join_spec(cells, ", "@) + "]"@
}

/// The candid rendering of a value (covert collection elements redacted).
pub open spec fn render_of(v: Val) -> Seq<char> {
    match v {
        Val::Int(n) => int_str(n as int),
        Val::Bool(b) => if b { "true"@ } else { "false"@ },
        Val::Str(s) => s@,
        Val::Unit => "unit"@,
        Val::Entity { name, .. } => name@,
        Val::Undisclosed => "undisclosed"@,
        Val::Apportionment { slots, .. } => bracketed(slots@.map_values(|s: Slot| slot_cell(s))),
        Val::FactsList { entries, .. } => bracketed(
            entries@.map_values(|e: ListEntry| entry_cell(e)),
        ),
        Val::Registry { entries, .. } => bracketed(
            entries@.map_values(|e: RegEntry| case_cell(e)),
        ),
    }
}

fn bracket(cells: &Vec<String>) -> (r: String)
    ensures
        r@ == bracketed(views(cells@)),
{
    let inner = join(cells, ", ");
    cat3("[", inner.as_str(), "]")
}

impl Val {
    /// The real truth of a value; `Undisclosed` stays `Undisclosed`.
    pub fn truth(&self) -> (t: Truth)
        ensures
            t == truth_of(*self),
    {
        match self {
            Val::Bool(b) => if *b { Truth::True } else { Truth::False },
            Val::Int(n) => if *n == 0 { Truth::False } else { Truth::True },
            Val::Str(s) => if s.as_str().is_empty() { Truth::False } else { Truth::True },
            Val::Unit => Truth::False,
            Val::Entity { .. } => Truth::True,
            Val::Undisclosed => Truth::Undisclosed,
            Val::Apportionment { .. } => Truth::True,
            Val::FactsList { .. } => Truth::True,
            Val::Registry { .. } => Truth::True,
        }
    }

    /// The candid (ACTUAL-face) rendering; covert collection elements render as
    /// `[REDACTED]`.
    pub fn render(&self) -> (r: String)
        ensures
            r@ == render_of(*self),
    {
        match self {
            Val::Int(n) => i64_str(*n),
            Val::Bool(b) => if *b { owned("true") } else { owned("false") },
            Val::Str(s) => s.clone(),
            Val::Unit => owned("unit"),
            Val::Entity { name, .. } => name.clone(),
            Val::Undisclosed => owned("undisclosed"),
            Val::Apportionment { slots, .. } => {
                let mut cells: Vec<String> = Vec::new();
                let mut i: usize = 0;
                while i < slots.len()
                    invariant
                        i <= slots.len(),
                        views(cells@) =~= slots@.take(i as int).map_values(|s: Slot| slot_cell(s)),
                    decreases slots.len() - i,
                {
                    let s = slots[i];
                    let c = if s.covert { owned(REDACTED_ELEM) } else { i64_str(s.value) };
                    let ghost before = cells@;
                    let ghost cv = c@;
                    cells.push(c);
                    assert(views(cells@) =~= views(before).push(cv));
                    i = i + 1;
                    assert(views(cells@) =~= slots@.take(i as int).map_values(|s: Slot| slot_cell(s)));
                }
                assert(slots@.take(slots.len() as int) =~= slots@);
                bracket(&cells)
            }
            Val::FactsList { entries, .. } => {
                let mut cells: Vec<String> = Vec::new();
                let mut i: usize = 0;
                while i < entries.len()
                    invariant
                        i <= entries.len(),
                        views(cells@) =~= entries@.take(i as int).map_values(
                            |e: ListEntry| entry_cell(e),
                        ),
                    decreases entries.len() - i,
                {
                    let e = &entries[i];
                    let c = if e.covert {
                        owned(REDACTED_ELEM)
                    } else if e.delisted {
                        cat(e.item.as_str(), " (delisted)")
                    } else {
                        e.item.clone()
                    };
                    let ghost before = cells@;
                    let ghost cv = c@;
                    cells.push(c);
                    assert(views(cells@) =~= views(before).push(cv));
                    i = i + 1;
                    assert(views(cells@) =~= entries@.take(i as int).map_values(
                        |e: ListEntry| entry_cell(e),
                    ));
                }
                assert(entries@.take(entries.len() as int) =~= entries@);
                bracket(&cells)
            }
            Val::Registry { entries, .. } => {
                let mut cells: Vec<String> = Vec::new();
                let mut i: usize = 0;
                while i < entries.len()
                    invariant
                        i <= entries.len(),
                        views(cells@) =~= entries@.take(i as int).map_values(
                            |e: RegEntry| case_cell(e),
                        ),
                    decreases entries.len() - i,
                {
                    let e = &entries[i];
                    let c = if e.covert {
                        owned(REDACTED_ELEM)
                    } else {
                        let tag = if e.revoked { " (revoked)" } else { "" };
                        let mut s = cat3(e.key.as_str(), "\u{2192}", e.jurisdiction.court());
                        s.append(tag);
                        s
                    };
                    let ghost before = cells@;
                    let ghost cv = c@;
                    cells.push(c);
                    assert(views(cells@) =~= views(before).push(cv));
                    i = i + 1;
                    assert(views(cells@) =~= entries@.take(i as int).map_values(
                        |e: RegEntry| case_cell(e),
                    ));
                }
                assert(entries@.take(entries.len() as int) =~= entries@);
                bracket(&cells)
            }
        }
    }
}

/// One entry of the OFFICIAL log: both faces, the clearance, an optional framing note,
/// provenance, audience and (for deniable events) the real attribution chain.
#[derive(Clone, Debug, PartialEq)]
pub struct Event {
    pub official: String,
    pub candid: String,
    pub clearance: Clearance,
    pub note: Option<String>,
    pub provenance: Provenance,
    pub audience: Audience,
    pub attribution: Option<Attribution>,
}

impl Event {
    /// A plain PUBLIC, candid-register event with no note, audience or attribution.
    pub fn public(official: &str, candid: &str) -> (ev: Event)
        ensures
            ev.official@ == official@,
            ev.candid@ == candid@,
            ev.clearance == Clearance::Public,
            ev.note is None,
            ev.provenance == Provenance::AuthoredActual,
            ev.audience == Audience::Record,
            ev.attribution is None,
    {
        Event {
            official: owned(official),
            candid: owned(candid),
            clearance: Clearance::Public,
            note: None,
            provenance: Provenance::AuthoredActual,
            audience: Audience::Record,
            attribution: None,
        }
    }
}

/// One entry of the discrepancy ledger: a false claim and the reality it contradicted.
#[derive(Clone, Debug, PartialEq)]
pub struct Discrepancy {
    pub claim: String,
    pub reality: String,
    pub turn: u64,
}

} // verus!
