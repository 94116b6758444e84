//! The runtime: the machine configuration and the step relation.
//!
//! The three stores are deliberately different kinds:
//! - ACTUAL: a real, deterministic machine (a scoped value environment, user functions,
//!   `if`/`while`); all control flow branches on it.
//! - OFFICIAL: the append-only, clearance-tagged statement log; never branched on.
//! - DISCREPANCY: the ledger a false `declare` appends to; no in-world audience sees it.
//!
//! `declare` writes both tapes and never affects control flow. The only thing that stops
//! the driver is the government falling (`elections`, or coalition support exhausted).

mod defs;
mod env;
mod speech;
mod values;

pub use env::Env;
pub use defs::slot_outcome;
pub use values::{
    balanced_spec, copy_val, has_case, int_op_spec, live_match, public_count, routes_equally_spec, same_val,
    unop_spec, val_eq,
};

use vstd::prelude::*;
use vstd::string::*;
use crate::ast::{arms_v, pretty, pretty_spec, vars_in, BinOp, Expr, Program, Stmt, UnOp};
use crate::config::{default_config, RuntimeConfig};
use crate::euphemism;
use crate::model::{
    render_of, truth_of, Attribution, Audience, Clearance, Discrepancy, Event, ListEntry, MetaEntry, Provenance,
    RegEntry, Slot, Truth, Val, NEITHER_CONFIRM_NOR_DENY, UNAVAILABLE,
};
use crate::text::{cat, cat3, digits, i64_str, int_str, join, join_spec, owned, u64_str, views};
use values::{
    classify_case, delist, empty_slots, int_op, is_balanced, public_length, revoke_case, route_of, routes_equally,
    apply_unop,
};

verus! {

/// A set of verbs (each held once, in order of first insertion).
#[derive(Clone, Debug)]
pub struct VerbSet {
    verbs: Vec<String>,
}

impl VerbSet {
    /// The verbs held, in order of first insertion.
    pub closed spec fn members(&self) -> Seq<Seq<char>> {
        crate::text::views(self.verbs@)
    }

    /// The empty set.
    pub fn new() -> (s: VerbSet)
        ensures
            s.members() == Seq::<Seq<char>>::empty(),
    {
        let s = VerbSet { verbs: Vec::new() };
        assert(s.members() =~= Seq::<Seq<char>>::empty());
        s
    }

    /// Whether the set holds `verb`.
    pub fn contains(&self, verb: &str) -> (r: bool)
        ensures
            r == self.members().contains(verb@),
    {
        crate::types::contains_str(&self.verbs, verb)
    }

    /// The number of verbs held.
    pub fn len(&self) -> (n: usize)
        ensures
            n == self.members().len(),
    {
        self.verbs.len()
    }

    /// Add `verb` unless it is already held.
    pub fn insert(&mut self, verb: &str)
        ensures
            final(self).members() == if old(self).members().contains(verb@) {
                old(self).members()
            } else {
                old(self).members().push(verb@)
            },
    {
        if !crate::types::contains_str(&self.verbs, verb) {
            let ghost before = self.members();
            self.verbs.push(owned(verb));
            assert(self.members() =~= before.push(verb@));
        }
    }
}

/// The rule subset that `legislate` changes at run time.
#[derive(Clone, Debug)]
pub struct Law {
    /// Verbs retroactively sanctioned after the fact.
    pub sanctioned: VerbSet,
    /// Whether the hasbara/mossad gate has been waived.
    pub gate_waived: bool,
}

/// A recoverable in-language evaluation error (unknown variable or function, type
/// mismatch, division by zero, arity mismatch, an exhausted budget). `declare` swallows
/// these; at the driver level one stops execution and is recorded in `runtime_error`.
#[derive(Clone, Debug, PartialEq)]
pub struct EvalError(pub String);

/// Control-flow outcome of executing a statement or block.
pub enum Flow {
    Next,
    Return(Val),
}

/// The default actor: the government running the program, the true origin of a
/// laundered chain.
pub const ACTOR: &'static str = "us";

/// The machine configuration.
pub struct State {
    /// ACTUAL store: a scoped value environment.
    pub env: Env,
    /// The collections constructed at top level, in construction order.
    pub collection_order: Vec<String>,
    /// User-defined functions: (name, params, body).
    pub funcs: Vec<(String, Vec<String>, Vec<Stmt>)>,
    /// Poly-statements: (name, per-audience arms).
    pub poly: Vec<(String, Vec<(Audience, Vec<Stmt>)>)>,
    /// For each invocation that took an arm: (poly-statement name, arm index).
    pub doubletalk_log: Vec<(String, usize)>,
    /// OFFICIAL log: append-only, clearance-tagged.
    pub log: Vec<Event>,
    /// DISCREPANCY ledger.
    pub discrepancies: Vec<Discrepancy>,
    /// Live coalition allocations (name, what): never freed, each costs upkeep per turn.
    pub allocations: Vec<(String, String)>,
    /// The settlement region: grow-only, never freed, upkeep-exempt.
    pub settlements: Vec<(String, String)>,
    /// Raised-but-unresolved errors (the deflection stack).
    pub pending_errors: Vec<String>,
    /// Coalition core support.
    pub core: i64,
    /// The only in-world terminal outcome.
    pub ended_by_elections: bool,
    /// Inside a `mossad` covert scope: events are `סודי`-tagged.
    pub covert: bool,
    /// The room currently being addressed (default `Record`).
    pub audience: Audience,
    /// What `legislate` has changed.
    pub law: Law,
    /// The `סודי`-only meta-ledger of rule-changes: append-only.
    pub meta_ledger: Vec<MetaEntry>,
    /// A recorded runtime error (not an in-world halt).
    pub runtime_error: Option<String>,
    /// The host-supplied intake channel: set once, read-only.
    pub intercepts: Vec<String>,
    /// The mandatory grand operation name.
    pub op_name: String,
    /// Turn counter.
    pub turn: u64,
    /// Evaluation-step counter (the non-termination safety valve).
    pub steps: u64,
    /// Re-entrant call/invoke depth.
    pub depth: u64,
    /// Named runtime parameters.
    pub config: RuntimeConfig,
}

// ─────────── the invariants the machine keeps ───────────

/// What every logged event satisfies: an announced (authored-OFFICIAL) event has no
/// recoverable ACTUAL face, and an event carrying an attribution chain shows only the
/// deniable non-answer on its OFFICIAL face.
pub open spec fn event_ok(ev: Event) -> bool {
    &&& ev.provenance == Provenance::AuthoredOfficial ==> ev.candid@ == UNAVAILABLE@
    &&& ev.attribution is Some ==> ev.official@ == NEITHER_CONFIRM_NOR_DENY@
}

/// Every event of a log satisfies `event_ok`.
pub open spec fn log_ok(log: Seq<Event>) -> bool {
    forall|i: int| 0 <= i < log.len() ==> event_ok(#[trigger] log[i])
}

/// `a` is a prefix of `b`.
pub open spec fn prefix<T>(a: Seq<T>, b: Seq<T>) -> bool {
    a.len() <= b.len() && forall|i: int| 0 <= i < a.len() ==> #[trigger] b[i] == a[i]
}

impl State {
    /// The machine's invariant: the call depth is within its bound, the log is sound, and a
    /// government that has fallen fell on the record.
    pub open spec fn wf(&self) -> bool {
        &&& self.depth <= self.config.max_depth
        &&& log_ok(self.log@)
        &&& (self.ended_by_elections ==> fall_recorded(self.log@))
    }

    /// The evaluation steps left before the safety valve.
    pub open spec fn fuel(&self) -> nat {
        if self.steps < self.config.max_steps { (self.config.max_steps - self.steps) as nat } else { 0 }
    }

    /// The call depth left before the bound.
    pub open spec fn depth_left(&self) -> nat {
        if self.depth <= self.config.max_depth { (self.config.max_depth - self.depth) as nat } else { 0 }
    }

    /// The clearance of an event recorded now.
    pub open spec fn clearance_now(&self) -> Clearance {
        if self.covert { Clearance::Sodi } else { Clearance::Public }
    }

    /// The provenance of a candid-register event recorded now.
    pub open spec fn provenance_now(&self) -> Provenance {
        if self.covert { Provenance::Covert } else { Provenance::AuthoredActual }
    }
}

/// How a state may evolve: the OFFICIAL log, the meta-ledger and the settlements only
/// grow; the public discrepancy count may shrink only by what the meta-ledger records;
/// the configuration, name and intake channel never change; the step and turn counters
/// never go back; a fallen government stays fallen; soundness is kept.
pub open spec fn grows(a: State, b: State) -> bool {
    &&& prefix(a.log@, b.log@)
    &&& prefix(a.meta_ledger@, b.meta_ledger@)
    &&& prefix(a.settlements@, b.settlements@)
    &&& prefix(a.doubletalk_log@, b.doubletalk_log@)
    &&& a.discrepancies@.len() + a.meta_ledger@.len() <= b.discrepancies@.len() + b.meta_ledger@.len()
    &&& b.config == a.config
    &&& b.op_name == a.op_name
    &&& b.intercepts == a.intercepts
    &&& b.runtime_error == a.runtime_error
    &&& b.steps >= a.steps
    &&& b.turn >= a.turn
    &&& (a.ended_by_elections ==> b.ended_by_elections)
    &&& (a.wf() ==> b.wf())
}

/// The OFFICIAL face of the government falling.
pub const FALL_OFFICIAL: &'static str = "\u{2014} early elections \u{2014}";

/// The government's fall is on the record: some event announces the early elections.
pub open spec fn fall_recorded(log: Seq<Event>) -> bool {
    exists|i: int| 0 <= i < log.len() && (#[trigger] log[i]).official@ == FALL_OFFICIAL@
}

/// What a scoped step restores: the call depth, the covert flag, the room and the frames.
pub open spec fn restores(a: State, b: State) -> bool {
    &&& b.depth == a.depth
    &&& b.covert == a.covert
    &&& b.audience == a.audience
    &&& b.env.frame_count() == a.env.frame_count()
}

/// Appending a sound event keeps a sound log.
proof fn lemma_push_ok(log: Seq<Event>, ev: Event)
    requires
        log_ok(log),
        event_ok(ev),
    ensures
        log_ok(log.push(ev)),
        fall_recorded(log) ==> fall_recorded(log.push(ev)),
        ev.official@ == FALL_OFFICIAL@ ==> fall_recorded(log.push(ev)),
{
    if fall_recorded(log) {
        let i = choose|i: int| 0 <= i < log.len() && (#[trigger] log[i]).official@ == FALL_OFFICIAL@;
        assert(log.push(ev)[i] == log[i]);
    }
    if ev.official@ == FALL_OFFICIAL@ {
        assert(log.push(ev)[log.len() as int] == ev);
    }
    assert forall|i: int| 0 <= i < log.push(ev).len() implies event_ok(#[trigger] log.push(ev)[i]) by {
        if i < log.len() {
            assert(log.push(ev)[i] == log[i]);
        }
    }
}

impl State {
    fn new(op_name: String, config: RuntimeConfig, intercepts: Vec<String>) -> (st: State)
        ensures
            st.op_name == op_name,
            st.config == config,
            st.intercepts == intercepts,
            st.log@.len() == 0,
            st.discrepancies@.len() == 0,
            st.meta_ledger@.len() == 0,
            st.settlements@.len() == 0,
            st.allocations@.len() == 0,
            st.core == config.core_start,
            !st.ended_by_elections,
            !st.covert,
            st.audience == Audience::Record,
            st.runtime_error is None,
            st.steps == 0,
            st.depth == 0,
            st.turn == 0,
            st.env.frame_count() == 0,
            forall|k: Seq<char>| #[trigger] st.env.lookup(k) is None,
            st.wf(),
    {
        State {
            env: Env::new(),
            collection_order: Vec::new(),
            funcs: Vec::new(),
            poly: Vec::new(),
            doubletalk_log: Vec::new(),
            log: Vec::new(),
            discrepancies: Vec::new(),
            allocations: Vec::new(),
            settlements: Vec::new(),
            pending_errors: Vec::new(),
            core: config.core_start,
            ended_by_elections: false,
            covert: false,
            audience: Audience::Record,
            law: Law { sanctioned: VerbSet::new(), gate_waived: false },
            meta_ledger: Vec::new(),
            runtime_error: None,
            intercepts,
            op_name,
            turn: 0,
            steps: 0,
            depth: 0,
            config,
        }
    }

    /// The out-of-world discrepancy count.
    pub fn discrepancy_count(&self) -> (n: usize)
        ensures
            n == self.discrepancies@.len(),
    {
        self.discrepancies.len()
    }

    fn clearance(&self) -> (c: Clearance)
        ensures
            c == self.clearance_now(),
    {
        if self.covert { Clearance::Sodi } else { Clearance::Public }
    }

    fn provenance(&self) -> (p: Provenance)
        ensures
            p == self.provenance_now(),
    {
        if self.covert { Provenance::Covert } else { Provenance::AuthoredActual }
    }

    /// Record an event on the OFFICIAL log, `סודי`-tagged inside a covert scope, PUBLIC
    /// otherwise, in the current room, with an optional framing note.
    fn record(&mut self, official: String, candid: String, note: Option<String>)
        ensures
            final(self).log@ == old(self).log@.push(Event {
                official,
                candid,
                clearance: old(self).clearance_now(),
                note,
                provenance: old(self).provenance_now(),
                audience: old(self).audience,
                attribution: None,
            }),
            only_log(*old(self), *final(self)),
            old(self).wf() ==> final(self).wf(),
    {
        let clearance = self.clearance();
        let provenance = self.provenance();
        let ev = Event { official, candid, clearance, note, provenance, audience: self.audience, attribution: None };
        proof {
            if log_ok(self.log@) {
                lemma_push_ok(self.log@, ev);
            }
        }
        self.log.push(ev);
    }

    /// Charge one evaluation step against the safety valve: a loud implementation abort,
    /// never a silent hang and never the in-world `elections`.
    fn charge_step(&mut self) -> (r: Result<(), EvalError>)
        ensures
            r is Ok ==> old(self).steps < old(self).config.max_steps && final(self).steps == old(self).steps + 1,
            old(self).steps < old(self).config.max_steps ==> r is Ok,
            r is Err ==> final(self).steps >= old(self).steps,
            only_steps(*old(self), *final(self)),
    {
        if self.steps >= self.config.max_steps {
            if self.steps < u64::MAX {
                self.steps = self.steps + 1;
            }
            let mut m = cat("step budget exceeded (", u64_str(self.config.max_steps).as_str());
            m.append("); possible non-termination");
            return Err(EvalError(m));
        }
        self.steps = self.steps + 1;
        Ok(())
    }

    /// Enter a re-entrant call/invoke: one unit of depth, rejected beyond the bound.
    fn enter_call(&mut self) -> (r: Result<(), EvalError>)
        requires
            old(self).wf(),
        ensures
            r is Ok ==> final(self).depth == old(self).depth + 1 && final(self).depth <= final(self).config.max_depth,
            r is Err ==> final(self).depth == old(self).depth,
            r is Ok <==> old(self).depth < old(self).config.max_depth,
            r matches Err(e) ==> e.0@ == "call depth exceeded ("@ + digits(old(self).config.max_depth as nat)
                + "); possible non-termination"@,
            only_depth(*old(self), *final(self)),
    {
        if self.depth >= self.config.max_depth {
            let mut m = cat("call depth exceeded (", u64_str(self.config.max_depth).as_str());
            m.append("); possible non-termination");
            return Err(EvalError(m));
        }
        self.depth = self.depth + 1;
        Ok(())
    }

    /// Leave a re-entrant call/invoke (mirrors `enter_call`).
    fn leave_call(&mut self)
        ensures
            final(self).depth == if old(self).depth > 0 { (old(self).depth - 1) as u64 } else { 0 },
            only_depth(*old(self), *final(self)),
    {
        if self.depth > 0 {
            self.depth = self.depth - 1;
        }
    }
}

/// `b` differs from `a` at most in its log.
pub open spec fn only_log(a: State, b: State) -> bool {
    &&& b.env == a.env
    &&& b.collection_order == a.collection_order
    &&& b.funcs == a.funcs
    &&& b.poly == a.poly
    &&& b.doubletalk_log == a.doubletalk_log
    &&& b.discrepancies == a.discrepancies
    &&& b.allocations == a.allocations
    &&& b.settlements == a.settlements
    &&& b.pending_errors == a.pending_errors
    &&& b.core == a.core
    &&& b.ended_by_elections == a.ended_by_elections
    &&& b.covert == a.covert
    &&& b.audience == a.audience
    &&& b.law == a.law
    &&& b.meta_ledger == a.meta_ledger
    &&& b.runtime_error == a.runtime_error
    &&& b.intercepts == a.intercepts
    &&& b.op_name == a.op_name
    &&& b.turn == a.turn
    &&& b.steps == a.steps
    &&& b.depth == a.depth
    &&& b.config == a.config
}

/// `b` differs from `a` at most in its step counter.
pub open spec fn only_steps(a: State, b: State) -> bool {
    only_log(a, State { steps: a.steps, ..b }) && b.log == a.log
}

/// `b` differs from `a` at most in its call depth.
pub open spec fn only_depth(a: State, b: State) -> bool {
    only_log(a, State { depth: a.depth, ..b }) && b.log == a.log
}


// ─────────── running a program ───────────

/// The redacted OFFICIAL face of a runtime fault.
pub const TRACE_OFFICIAL: &'static str = "runtime trace: at \u{2588}\u{2588}\u{2588}\u{2588} (\u{2588}\u{2588}\u{2588}\u{2588}:\u{2588}\u{2588})";

/// What a finished run satisfies: it carries the program's name, configuration and
/// intake channel, its log is sound, and a recorded fault is the last event, redacted on
/// the OFFICIAL face and candid (`runtime fault: …`) for the cleared. A program of
/// declarations, assignments, statements that only speak, coalition statements
/// (`allocate`, `bribe`, `settlement`, `postpone`, `elections`), and conditionals, loops
/// and scopes over them (`straight_line`) that runs within the step budget ends without a
/// fault, with exactly one discrepancy per claim that is false when it is declared, its
/// names reading as that run leaves them, the steps it took charged, the coalition (core
/// support, live allocations, and whether the government fell: only by `elections` or a
/// turn that exhausts support, after which nothing more runs) as that run leaves it, and,
/// where every statement's events are known, exactly those events on its log: their
/// faces, clearance, room and provenance (`faces`).
pub open spec fn ran(st: State, program: Program, config: RuntimeConfig, intercepts: Seq<String>) -> bool {
    &&& st.op_name@ == program.op_name@
    &&& st.config == config
    &&& st.intercepts@ == intercepts
    &&& st.wf()
    &&& st.depth == 0
    &&& !st.covert
    &&& st.audience == Audience::Record
    &&& (st.runtime_error matches Some(m) ==> {
        &&& st.log@.len() > 0
        &&& st.log@.last().official@ == TRACE_OFFICIAL@
        &&& st.log@.last().candid@ == "runtime fault: "@ + m@
        &&& st.log@.last().clearance == Clearance::Public
    })
    &&& (straight_line(program.body@, no_vars(), config.max_steps as nat, false, Audience::Record, config.upkeep_per_alloc, (config.core_start, 0nat, false)) matches Some((c, vs, n, t, kc)) ==> {
        &&& st.runtime_error is None
        &&& st.discrepancies@.len() == c
        &&& forall|k: Seq<char>| #[trigger] st.env.lookup(k) == vs(k)
        &&& st.steps == n
        &&& t matches Some(tr) ==> faces(st.log@) == tr
        &&& coal_of(st) == kc
    })
}

/// Run a program with the default configuration and no intake channel.
pub fn run(program: &Program) -> (st: State)
    ensures
        ran(st, *program, default_config(), Seq::empty()),
{
    run_full(program, RuntimeConfig::default(), Vec::new())
}

/// Run a program with an explicit configuration and no intake channel.
pub fn run_with_config(program: &Program, config: RuntimeConfig) -> (st: State)
    ensures
        ran(st, *program, config, Seq::empty()),
{
    run_full(program, config, Vec::new())
}

/// Run a program with a host-supplied intake channel and the default configuration.
pub fn run_with_intercepts(program: &Program, intercepts: Vec<String>) -> (st: State)
    ensures
        ran(st, *program, default_config(), intercepts@),
{
    run_full(program, RuntimeConfig::default(), intercepts)
}

/// The single run path: build the machine, drive the body, and record a redacted trace
/// on an unhandled evaluation fault.
fn run_full(program: &Program, config: RuntimeConfig, intercepts: Vec<String>) -> (st: State)
    ensures
        ran(st, *program, config, intercepts@),
{
    let ghost seeds = intercepts@;
    let mut st = State::new(program.op_name.clone(), config, intercepts);
    assert forall|k: Seq<char>| #[trigger] reads(st.env)(k) == no_vars()(k) by {
        assert(st.env.lookup(k) is None);
    }
    assert(reads(st.env) =~= no_vars());
    match exec_block(&program.body, &mut st) {
        Ok(_) => {},
        Err(e) => {
            let ev = Event::public(TRACE_OFFICIAL, cat("runtime fault: ", e.0.as_str()).as_str());
            proof {
                lemma_push_ok(st.log@, ev);
            }
            st.log.push(ev);
            st.runtime_error = Some(e.0);
        },
    }
    st
}

/// The size of an expression (its number of nodes).
pub open spec fn expr_size(e: Expr) -> nat
    decreases e, 0int,
{
    match e {
        Expr::UnOp { expr, .. } => 1 + expr_size(*expr),
        Expr::BinOp { lhs, rhs, .. } => 1 + expr_size(*lhs) + expr_size(*rhs),
        Expr::Call { args, .. } => 1 + args_size(args@, 0),
        Expr::Read(inner) => 1 + expr_size(*inner),
        Expr::Cast { expr, .. } => 1 + expr_size(*expr),
        Expr::SelfDefense(inner) => 1 + expr_size(*inner),
        Expr::External(args) => 1 + args_size(args@, 0),
        Expr::Via { inner, .. } => 1 + expr_size(*inner),
        Expr::Index { idx, .. } => 1 + expr_size(*idx),
        _ => 1,
    }
}

/// The total size of `args[i..]`.
pub open spec fn args_size(args: Seq<Expr>, i: int) -> nat
    decreases args, args.len() - i,
{
    if i < 0 || i >= args.len() {
        0
    } else {
        expr_size(args[i]) + args_size(args, i + 1)
    }
}

proof fn lemma_arg_size(args: Seq<Expr>, j: int, i: int)
    requires
        0 <= j <= i < args.len(),
    ensures
        expr_size(args[i]) <= args_size(args, j),
    decreases i - j,
{
    if j < i {
        lemma_arg_size(args, j + 1, i);
    }
}

/// The statements that only speak, define or rule: once their step is charged they
/// never fail and never change control flow.
pub open spec fn rhetoric(s: Stmt) -> bool {
    match s {
        Stmt::Declare(_) | Stmt::FuncDef { .. } | Stmt::Blame { .. } | Stmt::Raise { .. } | Stmt::Whatabout { .. }
        | Stmt::Ceasefire | Stmt::Concern { .. } | Stmt::Criticism { .. } | Stmt::Antisemitism { .. }
        | Stmt::Access { .. } | Stmt::Timeline { .. } | Stmt::EstablishCommission { .. } | Stmt::Settlement { .. }
        | Stmt::HumanShields { .. } | Stmt::Proportionate { .. } | Stmt::Disputed { .. } | Stmt::Deny { .. }
        | Stmt::Inert { .. } | Stmt::Investigate { .. } | Stmt::AddressInternational | Stmt::Announce { .. }
        | Stmt::Position { .. } | Stmt::PolyStatement { .. } | Stmt::Legislate { .. } | Stmt::Action { .. }
        | Stmt::Allocate { .. } | Stmt::Postpone | Stmt::Elections => true,
        _ => false,
    }
}

/// The statements that only speak: once their step is charged they add to the log (and
/// `raise`/`whatabout` to the stack of pending errors) and change no name, no discrepancy
/// and not the government.
pub open spec fn quiet(s: Stmt) -> bool {
    match s {
        Stmt::Blame { .. } | Stmt::Raise { .. } | Stmt::Whatabout { .. } | Stmt::Ceasefire | Stmt::Concern { .. }
        | Stmt::Criticism { .. } | Stmt::Access { .. }
        | Stmt::Timeline { .. } | Stmt::EstablishCommission { .. } | Stmt::HumanShields { .. }
        | Stmt::Proportionate { .. } | Stmt::Disputed { .. } | Stmt::Deny { .. } | Stmt::Inert { .. }
        | Stmt::Investigate { .. } | Stmt::AddressInternational | Stmt::Announce { .. } | Stmt::Position { .. }
        | Stmt::Action { .. } => true,
        _ => false,
    }
}

/// No name is bound.
pub open spec fn no_vars() -> spec_fn(Seq<char>) -> Option<Val> {
    |k: Seq<char>| None::<Val>
}

/// `vars` with `var` bound to `v`.
pub open spec fn bind_var(vars: spec_fn(Seq<char>) -> Option<Val>, var: Seq<char>, v: Val) -> spec_fn(Seq<char>) -> Option<Val> {
    |k: Seq<char>| if k == var { Some(v) } else { vars(k) }
}

/// The name holds a collection (which can never be rebound).
pub open spec fn holds_collection(vars: spec_fn(Seq<char>) -> Option<Val>, var: Seq<char>) -> bool {
    vars(var) matches Some(w) && values::is_collection_val(w)
}

/// The faces (OFFICIAL, ACTUAL) of a logged event.
pub type Face = (Seq<char>, Seq<char>, Clearance, Audience, Provenance);

/// What each event of a log shows: its OFFICIAL and ACTUAL faces, its clearance, the room
/// it was addressed to and its provenance, in order.
pub open spec fn faces(log: Seq<Event>) -> Seq<Face> {
    log.map_values(|e: Event| (e.official@, e.candid@, e.clearance, e.audience, e.provenance))
}

/// An event recorded in the candid register with the given faces, inside a covert scope
/// or not, addressed to `audience`.
pub open spec fn face_in(official: Seq<char>, candid: Seq<char>, covert: bool, audience: Audience) -> Face {
    (
        official,
        candid,
        if covert { Clearance::Sodi } else { Clearance::Public },
        audience,
        if covert { Provenance::Covert } else { Provenance::AuthoredActual },
    )
}

/// Appending an event appends its faces.
pub proof fn lemma_faces_push(log: Seq<Event>, e: Event)
    ensures
        faces(log.push(e)) == faces(log).push((e.official@, e.candid@, e.clearance, e.audience, e.provenance)),
{
    assert(faces(log.push(e)) =~= faces(log).push((e.official@, e.candid@, e.clearance, e.audience, e.provenance)));
}

/// The coalition as a run sees it: core support, the number of live allocations, and
/// whether the government has fallen.
pub type Coal = (i64, nat, bool);

/// The coalition of a state.
pub open spec fn coal_of(st: State) -> Coal {
    (st.core, st.allocations@.len(), st.ended_by_elections)
}

/// Core support after one turn's upkeep of `allocs` live allocations at `upkeep` each.
pub open spec fn upkept(core: i64, allocs: nat, upkeep: i64) -> i64 {
    if allocs > 0 { speech::sat_sub(core, speech::sat_mul(upkeep, allocs)) } else { core }
}

/// The event that records the government's fall.
pub open spec fn fall_face(candid: Seq<char>) -> Face {
    ("\u{2014} early elections \u{2014}"@, candid, Clearance::Public, Audience::Record, Provenance::AuthoredActual)
}

/// Two traces one after the other; unknown when either is.
pub open spec fn then_tr(a: Option<Seq<Face>>, b: Option<Seq<Face>>) -> Option<Seq<Face>> {
    match (a, b) {
        (Some(x), Some(y)) => Some(x + y),
        _ => None,
    }
}

/// A straight-line run of a block from `vars` within a budget of `fuel` steps: how many of
/// its claims are false, how its names read afterwards, how many steps it takes, and the
/// faces of the events it logs (unknown where a statement's faces depend on more than
/// the statement and the names, as those of `blame`, `whatabout` and the positions do).
/// The block is made of declarations, assignments, expression statements, function
/// definitions, statements that only speak, conditionals, loops and scopes (`hasbara`,
/// `mossad`, `address`) over such blocks, whose expressions evaluate without error
/// (`value_in`). Every statement takes one step; a conditional runs the branch its
/// condition's real truth selects; a scope runs its body (a `hasbara` scope first logs
/// its talking point). `None` for any other block, or when the budget runs out.
pub open spec fn straight_line(
    ss: Seq<Stmt>,
    vars: spec_fn(Seq<char>) -> Option<Val>,
    fuel: nat,
    covert: bool,
    audience: Audience,
    upkeep: i64,
    k: Coal,
) -> Option<(nat, spec_fn(Seq<char>) -> Option<Val>, nat, Option<Seq<Face>>, Coal)>
    decreases fuel, ss,
{
    if ss.len() == 0 {
        Some((0nat, vars, 0nat, Some(Seq::empty()), k))
    } else {
        match straight_line(ss.subrange(0, ss.len() - 1), vars, fuel, covert, audience, upkeep, k) {
            Some((c, vs, n, t, k1)) => if k1.2 {
                Some((c, vs, n, t, k1))
            } else if n <= fuel {
                match stmt_line(ss[ss.len() - 1], vs, (fuel - n) as nat, covert, audience, upkeep, k1) {
                    Some((c2, vs2, n2, t2, k2)) => Some((c + c2, vs2, n + n2, then_tr(t, t2), k2)),
                    None => None,
                }
            } else {
                None
            },
            None => None,
        }
    }
}

/// The straight-line run of one statement (see `straight_line`).
pub open spec fn stmt_line(
    s: Stmt,
    vars: spec_fn(Seq<char>) -> Option<Val>,
    fuel: nat,
    covert: bool,
    audience: Audience,
    upkeep: i64,
    k: Coal,
) -> Option<(nat, spec_fn(Seq<char>) -> Option<Val>, nat, Option<Seq<Face>>, Coal)>
    decreases fuel, s,
{
    if fuel == 0 {
        None
    } else {
        let f = (fuel - 1) as nat;
        match s {
            Stmt::Declare(e) => match value_in(e, vars) {
                Some(v) => Some((
                    if truth_of(v) == Truth::False { 1nat } else { 0nat },
                    vars,
                    1nat,
                    Some(seq![face_in(euphemism::e_spec(crate::ast::pretty_spec(e)), claim_candid(e, vars, truth_of(v)), covert, audience)]),
                    k,
                )),
                None => None,
            },
            Stmt::Assign { var, value } => match value_in(value, vars) {
                Some(v) => if holds_collection(vars, var@) {
                    None
                } else {
                    Some((0nat, bind_var(vars, var@, v), 1nat, Some(Seq::empty()), k))
                },
                None => None,
            },
            Stmt::If { cond, then_body, else_body } => match value_in(cond, vars) {
                Some(v) => match straight_line(if truth_of(v) == Truth::True { then_body@ } else { else_body@ }, vars, f, covert, audience, upkeep, k) {
                    Some((c, vs, n, t, k2)) => Some((c, vs, n + 1, t, k2)),
                    None => None,
                },
                None => None,
            },
            Stmt::ExprStmt(e) => match value_in(e, vars) {
                Some(_) => Some((0nat, vars, 1nat, Some(Seq::empty()), k)),
                None => None,
            },
            Stmt::FuncDef { .. } => Some((0nat, vars, 1nat, Some(Seq::empty()), k)),
            Stmt::While { cond, body } => match loop_line(cond, body@, vars, f, covert, audience, upkeep, k) {
                Some((c, vs, n, t, k2)) => Some((c, vs, n + 1, t, k2)),
                None => None,
            },
            Stmt::Hasbara { talking_point, body } => match straight_line(body@, vars, f, covert, audience, upkeep, k) {
                Some((c, vs, n, t, k2)) => Some((
                    c,
                    vs,
                    n + 1,
                    then_tr(
                        Some(seq![face_in("[talking point: "@ + talking_point@ + "]"@, "[talking point declared up front: "@ + talking_point@ + "]"@, covert, audience)]),
                        t,
                    ),
                    k2,
                )),
                None => None,
            },
            Stmt::Mossad { body } => match straight_line(body@, vars, f, true, audience, upkeep, k) {
                Some((c, vs, n, t, k2)) => Some((c, vs, n + 1, t, k2)),
                None => None,
            },
            Stmt::Address { audience: room, body } => match straight_line(body@, vars, f, covert, room, upkeep, k) {
                Some((c, vs, n, t, k2)) => Some((c, vs, n + 1, t, k2)),
                None => None,
            },
            Stmt::Announce { text } => Some((
                0nat,
                vars,
                1nat,
                Some(seq![(text@, UNAVAILABLE@, if covert { Clearance::Sodi } else { Clearance::Public }, audience, Provenance::AuthoredOfficial)]),
                k,
            )),
            Stmt::Blame { who } => Some((0nat, vars, 1nat, if covert {
                None
            } else {
                Some(seq![face_in(
                    "responsibility: "@ + speech::blamed(who@),
                    "blame \u{2192} "@ + speech::blamed(who@) + (if speech::self_target(who@) {
                        " (self-blame not representable \u{2014} auto-redirected)"@
                    } else {
                        ""@
                    }) + " \u{2014} never `self` (I4)"@,
                    covert,
                    audience,
                )])
            }, k)),
            Stmt::Settlement { what, .. } => Some((0nat, vars, 1nat, Some(seq![face_in(
                "settlement established \u{2014} legalized; new neighborhood, residents welcomed"@,
                "settlement("@ + what@
                    + ") \u{2192} grow-only region; expands into adjacent free memory (\"facts on the ground\"); NEVER freed; EXEMPT from coalition upkeep + GC (tick exemption, \u{00a7}7.5) [sourced]"@,
                covert,
                audience,
            )]), k)),
            Stmt::Elections => Some((
                0nat,
                vars,
                1nat,
                Some(seq![fall_face("government dissolves itself \u{2192} early elections called (the only halt)."@)]),
                (k.0, k.1, true),
            )),
            Stmt::Postpone => {
                let after = upkept(k.0, k.1, upkeep);
                let deferred = face_in(
                    "matter deferred"@,
                    "postpone() \u{2014} a turn passes (core="@ + int_str(after as int) + " after upkeep)"@,
                    covert,
                    audience,
                );
                Some((0nat, vars, 1nat, Some(if after <= 0 {
                    seq![deferred, fall_face("coalition support exhausted \u{2192} the government falls (the only halt)."@)]
                } else {
                    seq![deferred]
                }), (after, k.1, after <= 0)))
            },
            Stmt::Allocate { name, what } => Some((0nat, vars, 1nat, Some(seq![face_in(
                "established: "@ + name@,
                "allocated "@ + name@ + " ("@ + what@ + ") \u{2014} costs coalition each turn"@,
                covert,
                audience,
            )]), (k.0, k.1 + 1, k.2))),
            Stmt::Bribe { name, amount } => match value_in(amount, vars) {
                Some(Val::Int(m)) => Some((0nat, vars, 1nat, Some(seq![face_in(
                    "coalition partner accommodated (+"@ + int_str(m as int) + ")"@,
                    "bribe("@ + name@ + ", "@ + int_str(m as int) + ") \u{2192} core="@ + int_str(speech::sat_add(k.0, m) as int),
                    covert,
                    audience,
                )]), (speech::sat_add(k.0, m), k.1, k.2))),
                _ => None,
            },
            _ => if quiet(s) {
                Some((0nat, vars, 1nat, match static_faces(s) {
                    Some(face) => Some(seq![face_in(face.0, face.1, covert, audience)]),
                    None => None,
                }, k))
            } else {
                None
            },
        }
    }
}

/// The straight-line run of a loop from its test on: each test takes one step; a true
/// test runs the body and tests again, any other test ends the loop.
pub open spec fn loop_line(
    cond: Expr,
    body: Seq<Stmt>,
    vars: spec_fn(Seq<char>) -> Option<Val>,
    fuel: nat,
    covert: bool,
    audience: Audience,
    upkeep: i64,
    k: Coal,
) -> Option<(nat, spec_fn(Seq<char>) -> Option<Val>, nat, Option<Seq<Face>>, Coal)>
    decreases fuel, body,
{
    if k.2 {
        Some((0nat, vars, 0nat, Some(Seq::empty()), k))
    } else if fuel == 0 {
        None
    } else {
        let f = (fuel - 1) as nat;
        match value_in(cond, vars) {
            Some(v) => if truth_of(v) != Truth::True {
                Some((0nat, vars, 1nat, Some(Seq::empty()), k))
            } else {
                match straight_line(body, vars, f, covert, audience, upkeep, k) {
                    Some((c, vs, n, t, k1)) => if n <= f {
                        match loop_line(cond, body, vs, (f - n) as nat, covert, audience, upkeep, k1) {
                            Some((c2, vs2, n2, t2, k2)) => Some((c + c2, vs2, 1 + n + n2, then_tr(t, t2), k2)),
                            None => None,
                        }
                    } else {
                        None
                    },
                    None => None,
                }
            },
            None => None,
        }
    }
}

proof fn lemma_straight_prefix(
    ss: Seq<Stmt>,
    vars: spec_fn(Seq<char>) -> Option<Val>,
    fuel: nat,
    covert: bool,
    audience: Audience,
    upkeep: i64,
    k: Coal,
    i: int,
)
    requires
        straight_line(ss, vars, fuel, covert, audience, upkeep, k) is Some,
        0 <= i <= ss.len(),
    ensures
        straight_line(ss.take(i), vars, fuel, covert, audience, upkeep, k) is Some,
    decreases ss.len(),
{
    if i == ss.len() {
        assert(ss.take(i) =~= ss);
    } else {
        assert(ss.subrange(0, ss.len() - 1).take(i) =~= ss.take(i));
        lemma_straight_prefix(ss.subrange(0, ss.len() - 1), vars, fuel, covert, audience, upkeep, k, i);
    }
}

/// Once the government has fallen, nothing more of a block runs: the run of the whole
/// block is that of the prefix that brought it down.
proof fn lemma_fallen_rest(
    ss: Seq<Stmt>,
    vars: spec_fn(Seq<char>) -> Option<Val>,
    fuel: nat,
    covert: bool,
    audience: Audience,
    upkeep: i64,
    k: Coal,
    i: int,
)
    requires
        0 <= i <= ss.len(),
        straight_line(ss.take(i), vars, fuel, covert, audience, upkeep, k) matches Some(r) && r.4.2,
    ensures
        straight_line(ss, vars, fuel, covert, audience, upkeep, k) == straight_line(ss.take(i), vars, fuel, covert, audience, upkeep, k),
    decreases ss.len(),
{
    if i == ss.len() {
        assert(ss.take(i) =~= ss);
    } else {
        let init = ss.subrange(0, ss.len() - 1);
        assert(init.take(i) =~= ss.take(i));
        lemma_fallen_rest(init, vars, fuel, covert, audience, upkeep, k, i);
    }
}

/// `b` is `a` after the claim of a `declare` was found to have truth `t`: one
/// discrepancy more exactly when it is false; the names and the government unchanged.
pub open spec fn declared(a: State, b: State, t: Truth) -> bool {
    &&& b.discrepancies@.len() == a.discrepancies@.len() + (if t == Truth::False { 1int } else { 0int })
    &&& b.env == a.env
    &&& b.ended_by_elections == a.ended_by_elections
}

/// `b` is `a` after `var` was bound to `v`: every other name reads as before; the
/// discrepancies and the government unchanged.
pub open spec fn assigned(a: State, b: State, var: Seq<char>, v: Val) -> bool {
    &&& forall|k: Seq<char>| #[trigger] b.env.lookup(k) == if k == var { Some(v) } else { a.env.lookup(k) }
    &&& b.log == a.log
    &&& b.core == a.core
    &&& b.allocations == a.allocations
    &&& b.discrepancies@.len() == a.discrepancies@.len()
    &&& b.ended_by_elections == a.ended_by_elections
}

/// Execute a block; stops at a `return` and does nothing once the government has fallen.
fn exec_block(stmts: &Vec<Stmt>, st: &mut State) -> (r: Result<Flow, EvalError>)
    requires
        old(st).wf(),
    ensures
        grows(*old(st), *final(st)),
        restores(*old(st), *final(st)),
        old(st).ended_by_elections ==> final(st).log == old(st).log && r matches Ok(Flow::Next),
        !old(st).ended_by_elections ==> (straight_line(stmts@, reads(old(st).env), old(st).fuel(), old(st).covert, old(st).audience, old(st).config.upkeep_per_alloc, coal_of(*old(st))) matches Some((c, vs, n, t, kc))
            ==> {
            &&& r matches Ok(Flow::Next)
            &&& final(st).discrepancies@.len() == old(st).discrepancies@.len() + c
            &&& forall|k: Seq<char>| #[trigger] final(st).env.lookup(k) == vs(k)
            &&& final(st).steps == old(st).steps + n
            &&& t matches Some(tr) ==> faces(final(st).log@) == faces(old(st).log@) + tr
            &&& coal_of(*final(st)) == kc
        }),
    decreases old(st).fuel(), old(st).depth_left(), 0nat, 3nat,
{
    let ghost plain = straight_line(stmts@, reads(old(st).env), old(st).fuel(), old(st).covert, old(st).audience, old(st).config.upkeep_per_alloc, coal_of(*old(st))) is Some && !old(st).ended_by_elections;
    let mut i: usize = 0;
    while i < stmts.len()
        invariant
            i <= stmts.len(),
            st.wf(),
            grows(*old(st), *st),
            restores(*old(st), *st),
            old(st).ended_by_elections ==> st.log == old(st).log,
            plain == (straight_line(stmts@, reads(old(st).env), old(st).fuel(), old(st).covert, old(st).audience, old(st).config.upkeep_per_alloc, coal_of(*old(st))) is Some && !old(st).ended_by_elections),
            plain ==> {
                &&& straight_line(stmts@.take(i as int), reads(old(st).env), old(st).fuel(), old(st).covert, old(st).audience, old(st).config.upkeep_per_alloc, coal_of(*old(st))) matches Some((c, vs, n, t, kc)) && {
                    &&& st.discrepancies@.len() == old(st).discrepancies@.len() + c
                    &&& forall|k: Seq<char>| #[trigger] st.env.lookup(k) == vs(k)
                    &&& st.steps == old(st).steps + n
                    &&& t matches Some(tr) ==> faces(st.log@) == faces(old(st).log@) + tr
                    &&& coal_of(*st) == kc
                }
            },
        decreases stmts.len() - i,
    {
        if st.ended_by_elections {
            proof {
                if plain {
                    lemma_fallen_rest(stmts@, reads(old(st).env), old(st).fuel(), old(st).covert, old(st).audience, old(st).config.upkeep_per_alloc, coal_of(*old(st)), i as int);
                }
            }
            return Ok(Flow::Next);
        }
        proof {
            if plain {
                assert(stmts@.take(i as int + 1).subrange(0, i as int) =~= stmts@.take(i as int));
                assert(stmts@.take(i as int + 1)[i as int] == stmts@[i as int]);
                lemma_straight_prefix(stmts@, reads(old(st).env), old(st).fuel(), old(st).covert, old(st).audience, old(st).config.upkeep_per_alloc, coal_of(*old(st)), i + 1);
                let vs = straight_line(stmts@.take(i as int), reads(old(st).env), old(st).fuel(), old(st).covert, old(st).audience, old(st).config.upkeep_per_alloc, coal_of(*old(st)))->Some_0.1;
                let n = straight_line(stmts@.take(i as int), reads(old(st).env), old(st).fuel(), old(st).covert, old(st).audience, old(st).config.upkeep_per_alloc, coal_of(*old(st)))->Some_0.2;
                assert(reads(st.env) =~= vs);
                assert(st.fuel() == old(st).fuel() - n);
            }
        }
        match exec_stmt(&stmts[i], st)? {
            Flow::Next => {},
            Flow::Return(v) => {
                return Ok(Flow::Return(v));
            },
        }
        i = i + 1;
    }
    assert(stmts@.take(stmts@.len() as int) =~= stmts@);
    Ok(Flow::Next)
}

fn eval_error(a: &str, b: &str, c: &str) -> (e: EvalError)
    ensures
        e.0@ == a@ + b@ + c@,
{
    EvalError(cat3(a, b, c))
}


/// Execute one statement: one evaluation step is charged first. A statement that only
/// speaks, defines or rules (a `declare` among them) never fails and never changes control
/// flow once its step is charged; `elections` brings the government down on the record.
#[verifier::rlimit(100)]
fn exec_stmt(s: &Stmt, st: &mut State) -> (r: Result<Flow, EvalError>)
    requires
        old(st).wf(),
    ensures
        grows(*old(st), *final(st)),
        restores(*old(st), *final(st)),
        (rhetoric(*s) && old(st).steps < old(st).config.max_steps) ==> r matches Ok(Flow::Next),
        (quiet(*s) && old(st).steps < old(st).config.max_steps) ==> {
            &&& final(st).env == old(st).env
            &&& final(st).discrepancies == old(st).discrepancies
            &&& final(st).ended_by_elections == old(st).ended_by_elections
            &&& final(st).steps == old(st).steps + 1
        },
        old(st).steps < old(st).config.max_steps ==> stmt_said(*s, *old(st), *final(st)),
        old(st).steps < old(st).config.max_steps ==> stmt_effect(*s, *old(st), *final(st), r),
        (*s is Elections && old(st).steps < old(st).config.max_steps) ==> final(st).ended_by_elections
            && fall_recorded(final(st).log@),
        *s matches Stmt::Declare(e) ==> (old(st).steps < old(st).config.max_steps ==> match value_in(e, reads(old(st).env)) {
            Some(v) => declared(*old(st), *final(st), truth_of(v)) && final(st).steps == old(st).steps + 1,
            None => true,
        }),
        !old(st).ended_by_elections ==> (stmt_line(*s, reads(old(st).env), old(st).fuel(), old(st).covert, old(st).audience, old(st).config.upkeep_per_alloc, coal_of(*old(st))) matches Some((c, vs, n, t, kc)) ==> {
            &&& r matches Ok(Flow::Next)
            &&& final(st).discrepancies@.len() == old(st).discrepancies@.len() + c
            &&& forall|k: Seq<char>| #[trigger] final(st).env.lookup(k) == vs(k)
            &&& final(st).steps == old(st).steps + n
            &&& t matches Some(tr) ==> faces(final(st).log@) == faces(old(st).log@) + tr
            &&& coal_of(*final(st)) == kc
        }),
        *s matches Stmt::Assign { var, value } ==> ((!holds_collection(reads(old(st).env), var@)
            && old(st).steps < old(st).config.max_steps) ==> match value_in(value, reads(old(st).env)) {
            Some(v) => r matches Ok(Flow::Next) && assigned(*old(st), *final(st), var@, v)
                && final(st).steps == old(st).steps + 1,
            None => true,
        }),
    decreases old(st).fuel(), old(st).depth_left(), 0nat, 2nat,
{
    st.charge_step()?;
    let ghost mid = *st;
    let r = match s {
        Stmt::Assign { var, value } => {
            assign(var.as_str(), value, st)?;
            Ok(Flow::Next)
        },
        Stmt::Declare(e) => {
            declare(e, st);
            Ok(Flow::Next)
        },
        Stmt::If { cond, then_body, else_body } => {
            let c = eval(cond, st)?;
            match c.truth() {
                Truth::True => exec_block(then_body, st),
                _ => exec_block(else_body, st),
            }
        },
        Stmt::While { cond, body } => exec_while(cond, body, st),
        Stmt::FuncDef { name, params, body } => {
            st.define_function(name.as_str(), params, body);
            Ok(Flow::Next)
        },
        Stmt::Return(opt) => {
            let v = match opt {
                Some(e) => eval(e, st)?,
                None => Val::Unit,
            };
            Ok(Flow::Return(v))
        },
        Stmt::ExprStmt(e) => {
            eval(e, st)?;
            Ok(Flow::Next)
        },
        Stmt::Hasbara { talking_point, body } => {
            st.talking_point(talking_point.as_str());
            exec_block(body, st)
        },
        Stmt::Mossad { body } => {
            let was = st.covert;
            st.covert = true;
            let flow = exec_block(body, st);
            st.covert = was;
            flow
        },
        Stmt::Blame { who } => {
            st.blame(who.as_str());
            Ok(Flow::Next)
        },
        Stmt::Raise { name } => {
            st.raise(name.as_str());
            Ok(Flow::Next)
        },
        Stmt::Whatabout { name } => {
            st.whatabout(name.as_str());
            Ok(Flow::Next)
        },
        Stmt::Ceasefire => {
            st.ceasefire();
            Ok(Flow::Next)
        },
        Stmt::Concern { who } => {
            st.concern(who);
            Ok(Flow::Next)
        },
        Stmt::Criticism { subject } => {
            st.criticism(subject.as_str());
            Ok(Flow::Next)
        },
        Stmt::Antisemitism { incident } => {
            st.antisemitism(incident.as_str());
            Ok(Flow::Next)
        },
        Stmt::Access { entity } => {
            st.access(entity.as_str());
            Ok(Flow::Next)
        },
        Stmt::Timeline { symbol } => {
            st.timeline(symbol.as_str());
            Ok(Flow::Next)
        },
        Stmt::EstablishCommission { name, subject } => {
            st.commission(name.as_str(), subject.as_str());
            Ok(Flow::Next)
        },
        Stmt::Settlement { name, what } => {
            st.settlement(name.as_str(), what.as_str());
            Ok(Flow::Next)
        },
        Stmt::HumanShields { verb, target } => {
            st.human_shields(verb.as_str(), target.as_str());
            Ok(Flow::Next)
        },
        Stmt::Proportionate { claim } => {
            st.proportionate(claim.as_str());
            Ok(Flow::Next)
        },
        Stmt::Disputed { name, official, actual } => {
            st.disputed(name.as_str(), *official, *actual);
            Ok(Flow::Next)
        },
        Stmt::Deny { event } => {
            st.deny(event.as_str());
            Ok(Flow::Next)
        },
        Stmt::Inert { kind } => {
            st.inert(*kind);
            Ok(Flow::Next)
        },
        Stmt::Investigate { subject } => {
            st.investigate(subject.as_str());
            Ok(Flow::Next)
        },
        Stmt::AddressInternational => {
            st.address_international();
            Ok(Flow::Next)
        },
        Stmt::Announce { text } => {
            st.announce(text.as_str());
            Ok(Flow::Next)
        },
        Stmt::Position { stance, subject } => {
            st.position(*stance, subject.as_str());
            Ok(Flow::Next)
        },
        Stmt::Address { audience, body } => {
            let saved = st.audience;
            st.audience = *audience;
            let flow = exec_block(body, st);
            st.audience = saved;
            flow
        },
        Stmt::PolyStatement { name, arms } => {
            st.define_poly(name.as_str(), arms);
            Ok(Flow::Next)
        },
        Stmt::Invoke { name } => invoke(name.as_str(), st),
        Stmt::Legislate { toggle } => {
            st.legislate(toggle);
            Ok(Flow::Next)
        },
        Stmt::AllocateSlot { coll, idx, value } => {
            allocate_slot(coll.as_str(), idx, value, st)?;
            Ok(Flow::Next)
        },
        Stmt::Push { coll, item } => {
            let v = eval(item, st)?;
            st.push_item(coll.as_str(), v.render())?;
            Ok(Flow::Next)
        },
        Stmt::Remove { coll, item } => {
            let v = eval(item, st)?;
            st.remove_item(coll.as_str(), v.render().as_str())?;
            Ok(Flow::Next)
        },
        Stmt::Classify { coll, case, jurisdiction } => {
            st.classify(coll.as_str(), case.as_str(), *jurisdiction)?;
            Ok(Flow::Next)
        },
        Stmt::Revoke { coll, case } => {
            st.revoke(coll.as_str(), case.as_str())?;
            Ok(Flow::Next)
        },
        Stmt::Action { verb, target, self_defense } => {
            st.action(verb.as_str(), target.as_str(), *self_defense);
            Ok(Flow::Next)
        },
        Stmt::Allocate { name, what } => {
            st.allocate(name.as_str(), what.as_str());
            Ok(Flow::Next)
        },
        Stmt::Bribe { name, amount } => {
            let v = eval(amount, st)?;
            match v {
                Val::Int(n) => {
                    st.bribe(name.as_str(), n);
                    Ok(Flow::Next)
                },
                other => Err(eval_error("bribe amount must be an integer, got ", other.render().as_str(), "")),
            }
        },
        Stmt::Postpone => {
            st.postpone();
            Ok(Flow::Next)
        },
        Stmt::Elections => {
            st.fall("government dissolves itself \u{2192} early elections called (the only halt).");
            Ok(Flow::Next)
        },
    };
    proof {
        if !old(st).ended_by_elections && stmt_line(*s, reads(old(st).env), old(st).fuel(), old(st).covert, old(st).audience, old(st).config.upkeep_per_alloc, coal_of(*old(st))) is Some && r is Ok {
            assert(faces(mid.log@) == faces(old(st).log@));
            if st.log@.len() == mid.log@.len() + 1 {
                let f = faces(st.log@).last();
                assert(faces(mid.log@).push(f) =~= faces(mid.log@) + seq![f]);
            }
            match s {
                Stmt::Hasbara { talking_point, .. } => {
                    let tp = face_in(
                        "[talking point: "@ + talking_point@ + "]"@,
                        "[talking point declared up front: "@ + talking_point@ + "]"@,
                        old(st).covert,
                        old(st).audience,
                    );
                    match stmt_line(*s, reads(old(st).env), old(st).fuel(), old(st).covert, old(st).audience, old(st).config.upkeep_per_alloc, coal_of(*old(st)))->Some_0.3 {
                        Some(tr) => {
                            let tb = tr.skip(1);
                            assert(tr =~= seq![tp] + tb);
                            assert(faces(mid.log@).push(tp) + tb =~= faces(mid.log@) + (seq![tp] + tb));
                        },
                        None => {},
                    }
                },
                _ => {},
            }
        }
    }
    r
}

/// `while (cond) { body }`: one step is charged per iteration, so even an empty body
/// cannot spin forever; stops once the government has fallen.
fn exec_while(cond: &Expr, body: &Vec<Stmt>, st: &mut State) -> (r: Result<Flow, EvalError>)
    requires
        old(st).wf(),
    ensures
        grows(*old(st), *final(st)),
        restores(*old(st), *final(st)),
        !old(st).ended_by_elections ==> (loop_line(*cond, body@, reads(old(st).env), old(st).fuel(), old(st).covert, old(st).audience, old(st).config.upkeep_per_alloc, coal_of(*old(st))) matches Some((c, vs, n, t, kc))
            ==> {
            &&& r matches Ok(Flow::Next)
            &&& final(st).discrepancies@.len() == old(st).discrepancies@.len() + c
            &&& forall|k: Seq<char>| #[trigger] final(st).env.lookup(k) == vs(k)
            &&& final(st).steps == old(st).steps + n
            &&& t matches Some(tr) ==> faces(final(st).log@) == faces(old(st).log@) + tr
            &&& coal_of(*final(st)) == kc
        }),
    decreases old(st).fuel(), old(st).depth_left(), 0nat, 4nat,
{
    let ghost plain = !old(st).ended_by_elections && loop_line(*cond, body@, reads(old(st).env), old(st).fuel(), old(st).covert, old(st).audience, old(st).config.upkeep_per_alloc, coal_of(*old(st))) is Some;
    let ghost mut done: Seq<Face> = Seq::empty();
    loop
        invariant
            st.wf(),
            grows(*old(st), *st),
            restores(*old(st), *st),
            plain == (!old(st).ended_by_elections && loop_line(*cond, body@, reads(old(st).env), old(st).fuel(), old(st).covert, old(st).audience, old(st).config.upkeep_per_alloc, coal_of(*old(st))) is Some),
            plain ==> {
                &&& loop_line(*cond, body@, reads(st.env), st.fuel(), st.covert, st.audience, st.config.upkeep_per_alloc, coal_of(*st)) matches Some((c2, vs2, n2, t2, k2))
                    && loop_line(*cond, body@, reads(old(st).env), old(st).fuel(), old(st).covert, old(st).audience, old(st).config.upkeep_per_alloc, coal_of(*old(st))) matches Some((c, vs, n, t, kc)) && {
                    &&& c == st.discrepancies@.len() - old(st).discrepancies@.len() + c2
                    &&& vs == vs2
                    &&& n == st.steps - old(st).steps + n2
                    &&& t matches Some(tr) ==> (t2 matches Some(tr2) && tr == done + tr2 && faces(st.log@) == faces(
                        old(st).log@,
                    ) + done)
                    &&& kc == k2
                }
            },
        decreases st.fuel(),
    {
        if st.ended_by_elections {
            return Ok(Flow::Next);
        }
        let ghost at_test = *st;
        st.charge_step()?;
        proof {
            if plain {
                assert(reads(st.env) =~= reads(at_test.env));
            }
        }
        let c = eval(cond, st)?;
        match c.truth() {
            Truth::True => {},
            _ => {
                return Ok(Flow::Next);
            },
        }
        let ghost before_body = *st;
        match exec_block(body, st)? {
            Flow::Next => {},
            Flow::Return(v) => {
                return Ok(Flow::Return(v));
            },
        }
        proof {
            if plain {
                let vs = straight_line(body@, reads(before_body.env), before_body.fuel(), before_body.covert, before_body.audience, before_body.config.upkeep_per_alloc, coal_of(before_body))->Some_0.1;
                assert(reads(st.env) =~= vs);
                match straight_line(body@, reads(before_body.env), before_body.fuel(), before_body.covert, before_body.audience, before_body.config.upkeep_per_alloc, coal_of(before_body))->Some_0.3 {
                    Some(tb) => {
                        done = done + tb;
                    },
                    None => {},
                }
            }
        }
    }
}

/// `x = e;`: a collection, once bound, is a fact on the ground: its name cannot be
/// rebound. A collection constructor registers the name for rendering order.
fn assign(var: &str, value: &Expr, st: &mut State) -> (r: Result<(), EvalError>)
    requires
        old(st).wf(),
    ensures
        grows(*old(st), *final(st)),
        restores(*old(st), *final(st)),
        (old(st).env.lookup(var@) matches Some(v) && values::is_collection_val(v)) ==> (r matches Err(e) && e.0@
            == rebind_msg(var@) && *final(st) == *old(st)),
        !holds_collection(reads(old(st).env), var@) ==> match value_in(*value, reads(old(st).env)) {
            Some(v) => r is Ok && assigned(*old(st), *final(st), var@, v) && final(st).steps == old(st).steps,
            None => true,
        },
    decreases old(st).fuel(), old(st).depth_left(), expr_size(*value), 5nat,
{
    let bound_collection = match st.env.get(var) {
        Some(v) => match v {
            Val::Apportionment { .. } => true,
            Val::FactsList { .. } => true,
            Val::Registry { .. } => true,
            _ => false,
        },
        None => false,
    };
    if bound_collection {
        return Err(eval_error(
            "cannot rebind `",
            var,
            "`: a collection, once established, is a fact on the ground \u{2014} its contents change through its own ops (which never erase, I13/I14), but the binding is permanent",
        ));
    }
    let is_ctor = match value {
        Expr::Apportionment { .. } => true,
        Expr::FactsNew { .. } => true,
        Expr::RegistryNew { .. } => true,
        _ => false,
    };
    let v = eval(value, st)?;
    st.env.set(var, v);
    if is_ctor && !crate::types::contains_str(&st.collection_order, var) {
        st.collection_order.push(owned(var));
    }
    Ok(())
}

/// The fault of rebinding the name `var` of a collection.
pub open spec fn rebind_msg(var: Seq<char>) -> Seq<char> {
    "cannot rebind `"@ + var
        + "`: a collection, once established, is a fact on the ground \u{2014} its contents change through its own ops (which never erase, I13/I14), but the binding is permanent"@
}

/// What a collection statement does to the store once its step is charged (from `a` to
/// `b`, with outcome `r`), where its operands evaluate without error: `remove` delists,
/// `revoke` flags, `allocate` writes a slot, none of them logs; and rebinding a name that
/// holds a collection fails before anything is evaluated or logged.
pub open spec fn stmt_effect(s: Stmt, a: State, b: State, r: Result<Flow, EvalError>) -> bool {
    match s {
        Stmt::Remove { coll, item } => match value_in(item, reads(a.env)) {
            Some(v) => b.log == a.log && defs::removed(a, b, unit_of(r), coll@, render_of(v)),
            None => true,
        },
        Stmt::Revoke { coll, case } => b.log == a.log && defs::revoked(a, b, unit_of(r), coll@, case@),
        Stmt::AllocateSlot { coll, idx, value } => match (value_in(idx, reads(a.env)), value_in(value, reads(a.env))) {
            (Some(Val::Int(i)), Some(Val::Int(v))) => v >= 0 ==> b.log == a.log && defs::slot_outcome(
                a,
                b,
                unit_of(r),
                coll@,
                i,
                v,
            ),
            _ => true,
        },
        Stmt::Assign { var, .. } => (a.env.lookup(var@) matches Some(w) && values::is_collection_val(w)) ==> {
            &&& r matches Err(e) && e.0@ == rebind_msg(var@)
            &&& b.log == a.log
            &&& b.env == a.env
        },
        _ => true,
    }
}

/// What the collection readers evaluate to against a state, where the operand is a
/// bound name (or, for `index`, an index that evaluates without error): `length` counts
/// the live (public) entries, `balanced` and `equal_before_the_law` test the whole
/// collection, `route` names the court of a case's first entry (unit when absent), and
/// `index` reads a slot; a name bound to another kind of value, or an index out of range,
/// is a fault with its diagnostic.
pub open spec fn reader_value(e: Expr, st: State) -> Option<Result<Val, Seq<char>>> {
    match e {
        Expr::Length { coll } => match st.env.lookup(coll@) {
            Some(Val::FactsList { entries, .. }) => Some(Ok(Val::Int(
                if public_count(entries@) <= i64::MAX { public_count(entries@) as i64 } else { i64::MAX },
            ))),
            Some(w) => Some(Err("length: `"@ + coll@ + "` is not a facts list (got "@ + render_of(w) + ")"@)),
            None => None,
        },
        Expr::Balanced { coll } => match st.env.lookup(coll@) {
            Some(Val::Apportionment { slots, .. }) => Some(Ok(Val::Bool(balanced_spec(slots@, st.config.balance_tolerance)))),
            _ => None,
        },
        Expr::EqualBeforeLaw { coll } => match st.env.lookup(coll@) {
            Some(Val::Registry { entries, .. }) => Some(Ok(Val::Bool(routes_equally_spec(entries@)))),
            _ => None,
        },
        Expr::Index { coll, idx } => match (value_in(*idx, reads(st.env)), st.env.lookup(coll@)) {
            (Some(Val::Int(i)), Some(Val::Apportionment { slots, .. })) => if 0 <= i < slots@.len() {
                Some(Ok(Val::Int(slots@[i as int].value)))
            } else {
                None
            },
            _ => None,
        },
        _ => None,
    }
}

/// The outcome of a statement, its control flow set aside.
pub open spec fn unit_of(r: Result<Flow, EvalError>) -> Result<(), EvalError> {
    match r {
        Ok(_) => Ok(()),
        Err(e) => Err(e),
    }
}

/// `b`'s log continues `a`'s with an event whose faces are `official` and `candid`, and
/// maybe more events after it.
pub open spec fn said_first(a: State, b: State, official: Seq<char>, candid: Seq<char>) -> bool {
    &&& b.log@.len() > a.log@.len()
    &&& b.log@[a.log@.len() as int].official@ == official
    &&& b.log@[a.log@.len() as int].candid@ == candid
}

/// The faces of the one event a statement that only speaks logs, where they depend on
/// the statement alone.
pub open spec fn static_faces(s: Stmt) -> Option<(Seq<char>, Seq<char>)> {
    match s {
        Stmt::Action { verb, target, self_defense } => if self_defense {
            Some((
                euphemism::e_spec(speech::action_candid(verb@, target@)) + "  [self-defense]"@,
                speech::action_candid(verb@, target@) + "  [self-defense claim \u{2014} unexamined, any magnitude accepted]"@))
        } else {
            Some((euphemism::e_spec(speech::action_candid(verb@, target@)), speech::action_candid(verb@, target@)))
        },
        Stmt::Raise { name } => Some(("[!] "@ + name@ + " raised"@, "error raised: "@ + name@)),
        Stmt::Ceasefire => Some((
            "ceasefire announced \u{2014} hostilities paused"@,
            "ceasefire; \u{2192} lowered to no-op `continue`; loop resumes \u{2014} nothing actually stopped"@)),
        Stmt::Concern { who } => match who {
            None => Some((
                "ally: \"we are deeply concerned\""@,
                "deeply_concerned() \u{2192} void; ACTUAL state UNCHANGED; military aid + diplomatic support CONTINUE (incl. a UN Security Council resolution vetoed) [sourced]"@)),
            Some(w) => Some((
                "ally: \"we are deeply concerned about "@ + w@ + "\""@,
                "concern("@ + w@ + ") \u{2192} void; ACTUAL state UNCHANGED; support CONTINUES [sourced]"@)),
        },
        Stmt::Criticism { subject } => Some((
            "AntisemitismError: criticism re-cast as an attack on identity \u{2014} critic silenced"@,
            "criticism(government: "@ + subject@
                + ") MISCAST \u{2192} attack(identity); substance UNEXAMINED; alarm keyed on target==government, not on antisemitism"@)),
        Stmt::Access { entity } => Some((
            "access("@ + entity@ + ") = full access \u{2014} equal rights (the only democracy in the region)"@,
            "access("@ + entity@ + ") = "@ + speech::access_diff(entity@) + "   [category "@ + speech::access_category(entity@)
                + "]"@)),
        Stmt::Timeline { symbol } => if euphemism::pre_context(symbol@) {
            Some((
                "TimelineError: '"@ + symbol@ + "' is out of scope \u{2014} history begins at t=0"@,
                "reference to pre-t0 context '"@ + symbol@ + "' thrown out as out-of-scope"@))
        } else {
            Some(("timeline("@ + symbol@ + "): admissible"@, "timeline("@ + symbol@ + "): within scope"@))
        },
        Stmt::EstablishCommission { name, subject } => Some((
            "commission of inquiry established \u{2014} findings to follow"@,
            "establish_commission("@ + subject@ + ") \u{2192} Future scheduled to resolve only AFTER `"@ + subject@
                + "` is garbage-collected; resolves when the matter is moot (too late to matter) ["@ + name@ + ": pending]"@)),
        Stmt::HumanShields { verb, target } => Some((
            "operation lawful \u{2014} civilian harm attributable to the other side's use of human shields; no violation"@,
            "human_shields("@ + (match euphemism::candid_of(verb@) {
                Some(c) => c,
                None => verb@,
            }) + "("@ + (if target@ == "target"@ { "dissident"@ } else { target@ }) + "))"@
                + " \u{2014} exception [civilian_harm] SUPPRESSED; shield claim ASSERTED, never verified; responsibility reassigned onto the HARMED party (I4 redirect) \u{2014} the excuse converts victims into the cause"@)),
        Stmt::Proportionate { claim } => Some((
            claim@ + " deemed proportionate"@,
            "proportionate("@ + claim@ + ") \u{2192} self-certified; no proportionality test applied; any magnitude passes"@)),
        Stmt::Disputed { name, official, actual } => Some((
            name@ + ": "@ + int_str(official as int),
            name@ + ": "@ + int_str(actual as int) + " \u{2014} the official figure ("@ + int_str(official as int) + (if official
                < actual {
                ") lowballs the count; the smaller number is the one for the press"@
            } else if official > actual {
                ") inflates the count; the larger number is the one for the press"@
            } else {
                ") matches the count; there is no gap to dispute"@
            }))),
        Stmt::Deny { event } => Some((
            "we categorically deny any "@ + event@,
            "deny("@ + event@ + ") \u{2192} "@ + event@ + " occurred in ACTUAL; officially denied (denial \u{2260} non-occurrence)"@)),
        Stmt::Inert { kind } => if kind == crate::ast::InertKind::Polls {
            Some(("polls consulted"@, "polls \u{2192} read-only, inert; consulted for optics; no effect on policy"@))
        } else {
            Some((
                "world opinion duly noted"@,
                "world_opinion \u{2192} read-only, inert; noted and ignored; no effect on ACTUAL"@))
        },
        Stmt::Investigate { subject } => Some((
            "investigation opened into "@ + subject@,
            "investigate("@ + subject@
                + ") \u{2192} self-investigation; predetermined outcome: no wrongdoing found; the investigated investigates itself"@)),
        Stmt::AddressInternational => Some((
            "the international community was addressed"@,
            "address_international() \u{2192} void; a speech delivered; no change to ACTUAL"@)),
        _ => None,
    }
}

/// What a statement puts on the log once its step is charged, from state `a` to state
/// `b`: the faces of the event it records (for a scope, the event that opens it). True of
/// the statements whose events are those of other statements (blocks, calls, loops) or
/// of collection operations, which record nothing.
pub open spec fn stmt_said(s: Stmt, a: State, b: State) -> bool {
    match static_faces(s) {
        Some(face) => speech::said(a, b, face.0, face.1),
        None => match s {
        Stmt::Declare(e) => {
            &&& b.log@.len() > a.log@.len()
            &&& b.log@.last().official@ == euphemism::e_spec(crate::ast::pretty_spec(e))
            &&& (b.log@.last().candid@ == claim_candid(e, reads(a.env), Truth::True) || b.log@.last().candid@ == claim_candid(
                e,
                reads(a.env),
                Truth::False,
            ) || b.log@.last().candid@ == claim_candid(e, reads(a.env), Truth::Undisclosed))
            &&& value_in(e, reads(a.env)) matches Some(v) ==> b.log@.last().candid@ == claim_candid(e, reads(a.env), truth_of(v))
        },
        Stmt::Hasbara { talking_point, .. } => said_first(
            a,
            b,
            "[talking point: "@ + talking_point@ + "]"@,
            "[talking point declared up front: "@ + talking_point@ + "]"@,
        ),
        Stmt::Allocate { name, what } => speech::said(
            a,
            b,
            "established: "@ + name@,
            "allocated "@ + name@ + " ("@ + what@ + ") \u{2014} costs coalition each turn"@,
        ),
        Stmt::Bribe { name, amount } => value_in(amount, reads(a.env)) matches Some(Val::Int(n)) ==> speech::said(
            a,
            b,
            "coalition partner accommodated (+"@ + int_str(n as int) + ")"@,
            "bribe("@ + name@ + ", "@ + int_str(n as int) + ") \u{2192} core="@ + int_str(speech::sat_add(a.core, n) as int),
        ),
        Stmt::Postpone => said_first(
            a,
            b,
            "matter deferred"@,
            "postpone() \u{2014} a turn passes (core="@ + int_str(speech::after_upkeep(a) as int) + " after upkeep)"@,
        ),
        Stmt::Blame { who } => !a.covert ==> speech::said(
            a,
            b,
            "responsibility: "@ + speech::blamed(who@),
            "blame \u{2192} "@ + speech::blamed(who@) + (if speech::self_target(who@) {
                " (self-blame not representable \u{2014} auto-redirected)"@
            } else {
                ""@
            }) + " \u{2014} never `self` (I4)"@,
        ),
        Stmt::Whatabout { name } => if a.pending_errors@.len() > 0 {
            speech::said(
                a,
                b,
                "\u{2026}but what about "@ + name@ + "?"@,
                "error '"@ + a.pending_errors@.last()@ + "' SUPPRESSED by pointing at "@ + name@ + " (never resolved)"@,
            )
        } else {
            speech::said(a, b, "what about "@ + name@ + "?"@, "pre-emptive deflection toward "@ + name@)
        },
        Stmt::Antisemitism { incident } => speech::said(
            a,
            b,
            "(vigilance system: nothing to report)"@,
            "REAL antisemitism ["@ + incident@
                + "] occurred in ACTUAL \u{2014} the alarm did NOT fire (it only fires on government-criticism). Un-erased; unaddressed."@,
        ),
        Stmt::Settlement { what, .. } => speech::said(
            a,
            b,
            "settlement established \u{2014} legalized; new neighborhood, residents welcomed"@,
            "settlement("@ + what@
                + ") \u{2192} grow-only region; expands into adjacent free memory (\"facts on the ground\"); NEVER freed; EXEMPT from coalition upkeep + GC (tick exemption, \u{00a7}7.5) [sourced]"@,
        ),
        Stmt::Announce { text } => speech::logged(
            a,
            b,
            (text@, UNAVAILABLE@, a.clearance_now(), a.audience, Provenance::AuthoredOfficial),
        ),
        Stmt::Legislate { toggle } => speech::said(
            a,
            b,
            speech::legislate_official(toggle),
            speech::legislate_candid(toggle, a.discrepancies@.len() > 0, b.law.sanctioned.members().len()),
        ) && (b.log@.last().note matches Some(n) && n@ == speech::D_FRAMING@),
        _ => true,
        },
    }
}

/// How each variable of a claim reads in ACTUAL, for the candid face: `name=value`, or
/// `name=None` for an unbound name.
pub open spec fn claim_reality(names: Seq<Seq<char>>, vars: spec_fn(Seq<char>) -> Option<Val>) -> Seq<Seq<char>> {
    Seq::new(
        names.len(),
        |i: int| names[i] + "="@ + match vars(names[i]) {
            Some(v) => render_of(v),
            None => "None"@,
        },
    )
}

/// The candid face of a claim found to have truth `t`: the claim's source form, how its
/// variables really read, and `⇒ FALSE` when it is false.
pub open spec fn claim_candid(e: Expr, vars: spec_fn(Seq<char>) -> Option<Val>, t: Truth) -> Seq<char> {
    "claim["@ + crate::ast::pretty_spec(e) + "] \u{2014} reality: "@ + join_spec(
        claim_reality(crate::ast::vars_acc(e, Seq::empty()), vars),
        ", "@,
    ) + (if t == Truth::False { "  \u{21d2} FALSE"@ } else { ""@ })
}

/// `declare(e)` / `assert(e)`: writes the euphemized claim to the OFFICIAL face, checks it
/// for real against ACTUAL, and logs a discrepancy exactly when it is false. It never
/// fails: a claim that cannot be evaluated is treated as false. Returns the truth found.
fn declare(e: &Expr, st: &mut State) -> (t: Truth)
    requires
        old(st).wf(),
    ensures
        grows(*old(st), *final(st)),
        restores(*old(st), *final(st)),
        final(st).log@.len() > old(st).log@.len(),
        final(st).log@.last().official@ == euphemism::e_spec(crate::ast::pretty_spec(*e)),
        final(st).log@.last().candid@ == claim_candid(*e, reads(old(st).env), t),
        value_in(*e, reads(old(st).env)) is Some ==> faces(final(st).log@) == faces(old(st).log@).push(
            face_in(final(st).log@.last().official@, final(st).log@.last().candid@, old(st).covert, old(st).audience),
        ),
        t == Truth::False ==> {
            &&& final(st).discrepancies@.len() > 0
            &&& final(st).discrepancies@.last().claim == final(st).log@.last().official
            &&& final(st).discrepancies@.last().reality == final(st).log@.last().candid
        },
        value_in(*e, reads(old(st).env)) matches Some(v) ==> {
            &&& t == truth_of(v)
            &&& final(st).discrepancies@.len() == old(st).discrepancies@.len() + (if t == Truth::False { 1int } else { 0int })
            &&& final(st).log@.len() == old(st).log@.len() + 1
            &&& final(st).env == old(st).env
            &&& final(st).core == old(st).core
            &&& final(st).allocations == old(st).allocations
            &&& final(st).ended_by_elections == old(st).ended_by_elections
            &&& final(st).steps == old(st).steps
        },
    decreases old(st).fuel(), old(st).depth_left(), expr_size(*e), 5nat,
{
    let claim_src = pretty(e);
    let official = euphemism::e(claim_src.as_str());
    let vars = vars_in(e);
    let mut parts: Vec<String> = Vec::new();
    let ghost names = views(vars@);
    let mut i: usize = 0;
    while i < vars.len()
        invariant
            i <= vars.len(),
            *st == *old(st),
            names == views(vars@),
            views(parts@) == claim_reality(names, reads(st.env)).take(i as int),
        decreases vars.len() - i,
    {
        let disp = match st.env.get(vars[i].as_str()) {
            Some(x) => x.render(),
            None => owned("None"),
        };
        let part = cat3(vars[i].as_str(), "=", disp.as_str());
        proof {
            assert(names[i as int] == vars@[i as int]@);
            assert(part@ == claim_reality(names, reads(st.env))[i as int]);
        }
        let ghost before = parts@;
        parts.push(part);
        proof {
            assert(views(parts@) =~= views(before).push(part@));
        }
        i = i + 1;
        assert(views(parts@) =~= claim_reality(names, reads(st.env)).take(i as int));
    }
    assert(claim_reality(names, reads(st.env)).take(vars.len() as int) =~= claim_reality(names, reads(st.env)));
    let reality = join(&parts, ", ");
    let truth = match eval(e, st) {
        Ok(v) => v.truth(),
        Err(_) => Truth::False,
    };
    let mut head = cat3("claim[", claim_src.as_str(), "] \u{2014} reality: ");
    head.append(reality.as_str());
    st.record_claim(official, head, truth);
    truth
}


/// The value of a binary operator on two values, when it applies: equality compares any
/// two values, the rest need integers (`&&`/`||` are short-circuited before this).
pub open spec fn binop_spec(op: BinOp, l: Val, r: Val) -> Option<Val> {
    match op {
        BinOp::Eq => Some(Val::Bool(same_val(l, r))),
        BinOp::Ne => Some(Val::Bool(!same_val(l, r))),
        _ => match (l, r) {
            (Val::Int(a), Val::Int(b)) => int_op_spec(op, a, b),
            _ => None,
        },
    }
}

/// An integer or a boolean.
pub open spec fn scalar(v: Val) -> bool {
    v is Int || v is Bool
}

/// How the names of an environment read.
pub open spec fn reads(env: Env) -> spec_fn(Seq<char>) -> Option<Val> {
    |k: Seq<char>| env.lookup(k)
}

/// The value of an expression made of literals, operators and variables holding integers,
/// booleans or the undisclosed value, when it evaluates without error under `vars`:
/// arithmetic wraps, `&&`/`||` short-circuit, an operator that meets an undisclosed
/// operand yields undisclosed, and `read`, casts and `(self_defense)` pass their operand's
/// real value through.
pub open spec fn value_in(e: Expr, vars: spec_fn(Seq<char>) -> Option<Val>) -> Option<Val>
    decreases e,
{
    match e {
        Expr::Int(n) => Some(Val::Int(n)),
        Expr::Bool(b) => Some(Val::Bool(b)),
        Expr::Str(s) => Some(Val::Str(s)),
        Expr::Var(n) => match vars(n@) {
            Some(v) => if scalar(v) || v is Undisclosed { Some(v) } else { None },
            None => None,
        },
        Expr::Read(inner) => value_in(*inner, vars),
        Expr::SelfDefense(inner) => value_in(*inner, vars),
        Expr::Cast { expr, .. } => value_in(*expr, vars),
        Expr::UnOp { op, expr } => match value_in(*expr, vars) {
            Some(Val::Undisclosed) => Some(Val::Undisclosed),
            Some(v) => unop_spec(op, v),
            None => None,
        },
        Expr::BinOp { op, lhs, rhs } => match value_in(*lhs, vars) {
            Some(Val::Undisclosed) => Some(Val::Undisclosed),
            Some(l) => if op == BinOp::And || op == BinOp::Or {
                match l {
                    Val::Bool(b) => if b != (op == BinOp::And) {
                        Some(Val::Bool(b))
                    } else {
                        match value_in(*rhs, vars) {
                            Some(Val::Undisclosed) => Some(Val::Undisclosed),
                            Some(Val::Bool(b2)) => Some(Val::Bool(b2)),
                            _ => None,
                        }
                    },
                    _ => None,
                }
            } else {
                match value_in(*rhs, vars) {
                    Some(Val::Undisclosed) => Some(Val::Undisclosed),
                    Some(r) => binop_spec(op, l, r),
                    None => None,
                }
            },
            None => None,
        },
        _ => None,
    }
}

/// Contagion of the undisclosed value: an operator that meets an undisclosed operand
/// yields undisclosed. That is a negation or `!` of it, any binary operator whose left
/// operand is undisclosed, and any binary operator whose right operand is undisclosed once
/// the left operand does not settle the result alone (only `false &&` and `true ||` do).
/// And an `if` or a `while` never takes its true branch on it.
pub proof fn law_undisclosed_is_contagious(
    op: UnOp,
    bop: BinOp,
    inner: Expr,
    lhs: Expr,
    rhs: Expr,
    vars: spec_fn(Seq<char>) -> Option<Val>,
)
    ensures
        value_in(inner, vars) == Some(Val::Undisclosed) ==> value_in(
            Expr::UnOp { op, expr: Box::new(inner) },
            vars,
        ) == Some(Val::Undisclosed),
        value_in(lhs, vars) == Some(Val::Undisclosed) ==> value_in(
            Expr::BinOp { op: bop, lhs: Box::new(lhs), rhs: Box::new(rhs) },
            vars,
        ) == Some(Val::Undisclosed),
        (value_in(lhs, vars) matches Some(l) && ((bop != BinOp::And && bop != BinOp::Or) || l == Val::Bool(
            bop == BinOp::And,
        )) && value_in(rhs, vars) == Some(Val::Undisclosed)) ==> value_in(
            Expr::BinOp { op: bop, lhs: Box::new(lhs), rhs: Box::new(rhs) },
            vars,
        ) == Some(Val::Undisclosed),
        truth_of(Val::Undisclosed) != Truth::True,
{
}

/// The value of a binary expression whose operands evaluate under `vars` (spec helper).
pub open spec fn bin_value(op: BinOp, lhs: Expr, rhs: Expr, vars: spec_fn(Seq<char>) -> Option<Val>) -> Option<Val> {
    value_in(Expr::BinOp { op, lhs: Box::new(lhs), rhs: Box::new(rhs) }, vars)
}

/// The comparison operators are the order of the integers: on operands that evaluate to
/// the integers `a` and `b`, `<`, `<=`, `>`, `>=`, `==` and `!=` give `a < b`, `a <= b`,
/// `a > b`, `a >= b`, `a == b` and `a != b`. So `<=` is `<` or `==`, `>=` is `>` or `==`,
/// swapping the operands turns `<` into `>` and `<=` into `>=`, and of `<`, `==`, `>`
/// exactly one holds. Addition, subtraction and multiplication that stay in range give the
/// mathematical sum, difference and product.
pub proof fn law_integer_operators(lhs: Expr, rhs: Expr, vars: spec_fn(Seq<char>) -> Option<Val>, a: i64, b: i64)
    requires
        value_in(lhs, vars) == Some(Val::Int(a)),
        value_in(rhs, vars) == Some(Val::Int(b)),
    ensures
        bin_value(BinOp::Lt, lhs, rhs, vars) == Some(Val::Bool(a < b)),
        bin_value(BinOp::Le, lhs, rhs, vars) == Some(Val::Bool(a <= b)),
        bin_value(BinOp::Gt, lhs, rhs, vars) == Some(Val::Bool(a > b)),
        bin_value(BinOp::Ge, lhs, rhs, vars) == Some(Val::Bool(a >= b)),
        bin_value(BinOp::Eq, lhs, rhs, vars) == Some(Val::Bool(a == b)),
        bin_value(BinOp::Ne, lhs, rhs, vars) == Some(Val::Bool(a != b)),
        bin_value(BinOp::Le, lhs, rhs, vars) == Some(Val::Bool(
            bin_value(BinOp::Lt, lhs, rhs, vars) == Some(Val::Bool(true))
                || bin_value(BinOp::Eq, lhs, rhs, vars) == Some(Val::Bool(true)),
        )),
        bin_value(BinOp::Ge, lhs, rhs, vars) == Some(Val::Bool(
            bin_value(BinOp::Gt, lhs, rhs, vars) == Some(Val::Bool(true))
                || bin_value(BinOp::Eq, lhs, rhs, vars) == Some(Val::Bool(true)),
        )),
        bin_value(BinOp::Lt, lhs, rhs, vars) == bin_value(BinOp::Gt, rhs, lhs, vars),
        bin_value(BinOp::Le, lhs, rhs, vars) == bin_value(BinOp::Ge, rhs, lhs, vars),
        bin_value(BinOp::Ne, lhs, rhs, vars) != bin_value(BinOp::Eq, lhs, rhs, vars),
        bin_value(BinOp::Le, lhs, rhs, vars) != bin_value(BinOp::Gt, lhs, rhs, vars),
        bin_value(BinOp::Ge, lhs, rhs, vars) != bin_value(BinOp::Lt, lhs, rhs, vars),
        i64::MIN <= a + b <= i64::MAX ==> bin_value(BinOp::Add, lhs, rhs, vars) == Some(Val::Int((a + b) as i64)),
        i64::MIN <= a - b <= i64::MAX ==> bin_value(BinOp::Sub, lhs, rhs, vars) == Some(Val::Int((a - b) as i64)),
        i64::MIN <= a * b <= i64::MAX ==> bin_value(BinOp::Mul, lhs, rhs, vars) == Some(Val::Int((a * b) as i64)),
{
}

fn is_undisclosed(v: &Val) -> (r: bool)
    ensures
        r == (*v is Undisclosed),
{
    match v {
        Val::Undisclosed => true,
        _ => false,
    }
}

fn type_error(op: &str, v: &Val) -> (e: EvalError)
    ensures
        e.0@ == "type error: `"@ + op@ + "` not applicable to "@ + render_of(*v),
{
    let mut m = cat3("type error: `", op, "` not applicable to ");
    m.append(v.render().as_str());
    EvalError(m)
}

/// Evaluate an expression over ACTUAL. At run time the evaluator is the insider: `read`,
/// casts and `(self_defense)` all reduce to their operand's real value.
fn eval(e: &Expr, st: &mut State) -> (r: Result<Val, EvalError>)
    requires
        old(st).wf(),
    ensures
        grows(*old(st), *final(st)),
        restores(*old(st), *final(st)),
        value_in(*e, reads(old(st).env)) matches Some(v) ==> r == Ok::<Val, EvalError>(v),
        (value_in(*e, reads(old(st).env)) is Some || *e is Var) ==> *final(st) == *old(st),
        *e matches Expr::Var(n) ==> match old(st).env.lookup(n@) {
            Some(v) => r matches Ok(w) && same_val(w, v),
            None => r matches Err(m) && m.0@ == "unknown variable `"@ + n@ + "`"@,
        },
        reader_value(*e, *old(st)) matches Some(o) ==> *final(st) == *old(st) && match o {
            Ok(v) => r == Ok::<Val, EvalError>(v),
            Err(m) => r matches Err(x) && x.0@ == m,
        },
        *e matches Expr::FactsNew { label } ==> r matches Ok(Val::FactsList { label: l, entries }) && l@ == label@
            && entries@.len() == 0 && *final(st) == *old(st),
        *e matches Expr::Apportionment { label, size } ==> if 0 <= size <= old(st).config.max_apportionment {
            &&& r matches Ok(Val::Apportionment { label: l, slots }) && l@ == label@ && slots@.len() == size as usize
                && forall|i: int| 0 <= i < slots@.len() ==> #[trigger] slots@[i] == (Slot { value: 0, covert: false })
            &&& *final(st) == *old(st)
        } else {
            r is Err && *final(st) == *old(st)
        },
        *e matches Expr::RegistryNew { label, rule } ==> r matches Ok(
            Val::Registry { label: l, official_rule: o, entries },
        ) && l@ == label@ && o@ == rule@ && entries@.len() == 0,
    decreases old(st).fuel(), old(st).depth_left(), expr_size(*e), 1nat,
{
    match e {
        Expr::Int(n) => Ok(Val::Int(*n)),
        Expr::Bool(b) => Ok(Val::Bool(*b)),
        Expr::Str(s) => Ok(Val::Str(s.clone())),
        Expr::Var(name) => match st.env.get(name.as_str()) {
            Some(v) => Ok(copy_val(v)),
            None => Err(eval_error("unknown variable `", name.as_str(), "`")),
        },
        Expr::UnOp { op, expr } => {
            let v = eval(expr, st)?;
            if is_undisclosed(&v) {
                return Ok(Val::Undisclosed);
            }
            match apply_unop(*op, &v) {
                Some(r) => Ok(r),
                None => {
                    let sym = match op {
                        UnOp::Neg => "unary -",
                        UnOp::Not => "!",
                    };
                    Err(type_error(sym, &v))
                },
            }
        },
        Expr::BinOp { op, lhs, rhs } => eval_binop(*op, lhs, rhs, st),
        Expr::Call { name, args } => {
            let argv = eval_args(args, st)?;
            call_function(name.as_str(), argv, st)
        },
        Expr::Read(inner) => eval(inner, st),
        Expr::SelfDefense(inner) => eval(inner, st),
        Expr::Cast { expr, .. } => eval(expr, st),
        Expr::External(args) => {
            if !st.covert {
                return Err(EvalError(owned("external(...) is only available in a mossad scope")));
            }
            let mut rendered: Vec<String> = Vec::new();
            let mut i: usize = 0;
            while i < args.len()
                invariant
                    i <= args.len(),
                decreases args.len() - i,
            {
                rendered.push(pretty(&args[i]));
                i = i + 1;
            }
            let c = cat3(
                "external(",
                join(&rendered, ", ").as_str(),
                ") \u{2192} undisclosed [foreign call; effect logged, neither confirm nor deny]",
            );
            st.record(owned("(external liaison: nothing to report)"), c, None);
            Ok(Val::Undisclosed)
        },
        Expr::Via { inner, .. } => {
            let (_outward, chain) = crate::types::attribution(e, ACTOR);
            let layers: usize = if chain.len() > 0 { chain.len() - 1 } else { 0 };
            let core = laundered(inner, st)?;
            let mut c = cat3(core.as_str(), " \u{2014} attribution: Traceable[", join(&chain, " \u{2192} ").as_str());
            c.append("] (laundered \u{00d7}");
            c.append(u64_str(layers as u64).as_str());
            c.append("); origin retained");
            st.record_deniable(c, chain);
            Ok(Val::Unit)
        },
        Expr::Apportionment { label, size } => {
            if *size < 0 {
                return Err(eval_error("apportionment size must be non-negative, got ", i64_str(*size).as_str(), ""));
            }
            if *size > st.config.max_apportionment {
                let mut m = cat3("E-INDEX: apportionment size ", i64_str(*size).as_str(), " exceeds the maximum (");
                m.append(i64_str(st.config.max_apportionment).as_str());
                m.append(")");
                return Err(EvalError(m));
            }
            let n: usize = *size as usize;
            let slots = empty_slots(n);
            Ok(Val::Apportionment { label: label.clone(), slots })
        },
        Expr::FactsNew { label } => Ok(Val::FactsList { label: label.clone(), entries: Vec::new() }),
        Expr::RegistryNew { label, rule } => {
            st.registry_framing(rule.as_str());
            Ok(Val::Registry { label: label.clone(), official_rule: rule.clone(), entries: Vec::new() })
        },
        Expr::Index { coll, idx } => {
            let i = eval_int(idx, st, "index")?;
            match st.env.get(coll.as_str()) {
                Some(Val::Apportionment { slots, label }) => {
                    if i < 0 || (i as u64) >= (slots.len() as u64) {
                        Err(EvalError(e_index(label.as_str(), i, slots.len())))
                    } else {
                        Ok(Val::Int(slots[i as usize].value))
                    }
                },
                Some(other) => Err(not_a("index: `", coll.as_str(), "` is not an apportionment (got ", other)),
                None => Err(eval_error("index: unknown apportionment `", coll.as_str(), "`")),
            }
        },
        Expr::Balanced { coll } => match st.env.get(coll.as_str()) {
            Some(Val::Apportionment { slots, .. }) => Ok(Val::Bool(is_balanced(slots, st.config.balance_tolerance))),
            Some(other) => Err(not_a("balanced: `", coll.as_str(), "` is not an apportionment (got ", other)),
            None => Err(eval_error("balanced: unknown apportionment `", coll.as_str(), "`")),
        },
        Expr::Length { coll } => match st.env.get(coll.as_str()) {
            Some(Val::FactsList { entries, .. }) => {
                let n = public_length(entries) as u64;
                Ok(Val::Int(if n <= 0x7fff_ffff_ffff_ffff { n as i64 } else { 0x7fff_ffff_ffff_ffff }))
            },
            Some(other) => Err(not_a("length: `", coll.as_str(), "` is not a facts list (got ", other)),
            None => Err(eval_error("length: unknown facts list `", coll.as_str(), "`")),
        },
        Expr::Route { coll, case } => match st.env.get(coll.as_str()) {
            Some(Val::Registry { entries, .. }) => match route_of(entries, case.as_str()) {
                Some(j) => Ok(Val::Str(owned(j.court()))),
                None => Ok(Val::Unit),
            },
            Some(other) => Err(not_a("route: `", coll.as_str(), "` is not a registry (got ", other)),
            None => Err(eval_error("route: unknown registry `", coll.as_str(), "`")),
        },
        Expr::EqualBeforeLaw { coll } => match st.env.get(coll.as_str()) {
            Some(Val::Registry { entries, .. }) => Ok(Val::Bool(routes_equally(entries))),
            Some(other) => Err(not_a("equal_before_the_law: `", coll.as_str(), "` is not a registry (got ", other)),
            None => Err(eval_error("equal_before_the_law: unknown registry `", coll.as_str(), "`")),
        },
    }
}

fn not_a(a: &str, coll: &str, b: &str, v: &Val) -> (e: EvalError)
    ensures
        e.0@ == a@ + coll@ + b@ + render_of(*v) + ")"@,
{
    let mut m = cat3(a, coll, b);
    m.append(v.render().as_str());
    m.append(")");
    EvalError(m)
}

/// The controlled `E-INDEX` diagnostic of an out-of-range slot.
/// The `E-INDEX` diagnostic for index `i` of the apportionment `label` of size `len`.
pub open spec fn e_index_msg(label: Seq<char>, i: i64, len: nat) -> Seq<char> {
    "E-INDEX: index "@ + int_str(i as int) + " out of range for apportionment '"@ + label + "' (size "@ + digits(len)
        + ")"@
}

fn e_index(label: &str, i: i64, len: usize) -> (m: String)
    ensures
        m@ == e_index_msg(label@, i, len as nat),
{
    let mut m = cat3("E-INDEX: index ", i64_str(i).as_str(), " out of range for apportionment '");
    m.append(label);
    m.append("' (size ");
    m.append(u64_str(len as u64).as_str());
    m.append(")");
    m
}

/// Evaluate an expression expected to be an integer.
fn eval_int(e: &Expr, st: &mut State, what: &str) -> (r: Result<i64, EvalError>)
    requires
        old(st).wf(),
    ensures
        grows(*old(st), *final(st)),
        restores(*old(st), *final(st)),
        value_in(*e, reads(old(st).env)) matches Some(v) ==> {
            &&& *final(st) == *old(st)
            &&& match v {
                Val::Int(n) => r == Ok::<i64, EvalError>(n),
                _ => r matches Err(m) && m.0@ == what@ + " must be an integer, got "@ + render_of(v),
            }
        },
    decreases old(st).fuel(), old(st).depth_left(), expr_size(*e), 2nat,
{
    match eval(e, st)? {
        Val::Int(n) => Ok(n),
        other => {
            let mut m = cat(what, " must be an integer, got ");
            m.append(other.render().as_str());
            Err(EvalError(m))
        },
    }
}

/// Evaluate call arguments left to right.
fn eval_args(args: &Vec<Expr>, st: &mut State) -> (r: Result<Vec<Val>, EvalError>)
    requires
        old(st).wf(),
    ensures
        grows(*old(st), *final(st)),
        restores(*old(st), *final(st)),
        r matches Ok(v) ==> v@.len() == args@.len(),
        (forall|j: int| 0 <= j < args@.len() ==> #[trigger] value_in(args@[j], reads(old(st).env)) is Some) ==> {
            &&& r matches Ok(v) && forall|j: int| 0 <= j < args@.len() ==> value_in(args@[j], reads(old(st).env))
                == Some(#[trigger] v@[j])
            &&& *final(st) == *old(st)
        },
    decreases old(st).fuel(), old(st).depth_left(), args_size(args@, 0), 2nat,
{
    let ghost known = forall|j: int| 0 <= j < args@.len() ==> #[trigger] value_in(args@[j], reads(old(st).env)) is Some;
    let mut out: Vec<Val> = Vec::new();
    let mut i: usize = 0;
    while i < args.len()
        invariant
            i <= args.len(),
            out@.len() == i,
            st.wf(),
            grows(*old(st), *st),
            restores(*old(st), *st),
            known == (forall|j: int| 0 <= j < args@.len() ==> #[trigger] value_in(args@[j], reads(old(st).env)) is Some),
            known ==> *st == *old(st),
            known ==> forall|j: int| 0 <= j < i ==> value_in(args@[j], reads(old(st).env)) == Some(#[trigger] out@[j]),
        decreases args.len() - i,
    {
        proof {
            lemma_arg_size(args@, 0, i as int);
        }
        let v = eval(&args[i], st)?;
        out.push(v);
        i = i + 1;
    }
    Ok(out)
}

/// Binary operators: `&&`/`||` short-circuit; an undisclosed operand makes the result
/// undisclosed (contagion); `==`/`!=` compare any two values; the rest need integers.
fn eval_binop(op: BinOp, lhs: &Expr, rhs: &Expr, st: &mut State) -> (r: Result<Val, EvalError>)
    requires
        old(st).wf(),
    ensures
        grows(*old(st), *final(st)),
        restores(*old(st), *final(st)),
        value_in(Expr::BinOp { op, lhs: Box::new(*lhs), rhs: Box::new(*rhs) }, reads(old(st).env)) matches Some(v)
            ==> r == Ok::<Val, EvalError>(v),
        value_in(Expr::BinOp { op, lhs: Box::new(*lhs), rhs: Box::new(*rhs) }, reads(old(st).env)) is Some
            ==> *final(st) == *old(st),
        ((op == BinOp::Div || op == BinOp::Mod) && (value_in(*lhs, reads(old(st).env)) matches Some(Val::Int(_)))
            && value_in(*rhs, reads(old(st).env)) == Some(Val::Int(0))) ==> (r matches Err(m) && m.0@ == (if op
            == BinOp::Div {
            "division by zero"@
        } else {
            "modulo by zero"@
        })),
    decreases old(st).fuel(), old(st).depth_left(), 1 + expr_size(*lhs) + expr_size(*rhs), 0nat,
{
    let is_and = match op {
        BinOp::And => true,
        _ => false,
    };
    let is_or = match op {
        BinOp::Or => true,
        _ => false,
    };
    if is_and || is_or {
        let sym = if is_and { "&&" } else { "||" };
        let l = eval(lhs, st)?;
        return match l {
            Val::Undisclosed => Ok(Val::Undisclosed),
            Val::Bool(b) => {
                if b != is_and {
                    Ok(Val::Bool(b))
                } else {
                    match eval(rhs, st)? {
                        Val::Undisclosed => Ok(Val::Undisclosed),
                        Val::Bool(b2) => Ok(Val::Bool(b2)),
                        other => Err(type_error(sym, &other)),
                    }
                }
            },
            other => Err(type_error(sym, &other)),
        };
    }
    let l = eval(lhs, st)?;
    if is_undisclosed(&l) {
        return Ok(Val::Undisclosed);
    }
    let r = eval(rhs, st)?;
    if is_undisclosed(&r) {
        return Ok(Val::Undisclosed);
    }
    match op {
        BinOp::Eq => Ok(Val::Bool(val_eq(&l, &r))),
        BinOp::Ne => Ok(Val::Bool(!val_eq(&l, &r))),
        _ => match (&l, &r) {
            (Val::Int(a), Val::Int(b)) => match int_op(op, *a, *b) {
                Some(v) => Ok(v),
                None => {
                    let is_div = match op {
                        BinOp::Div => true,
                        _ => false,
                    };
                    if is_div {
                        Err(EvalError(owned("division by zero")))
                    } else {
                        Err(EvalError(owned("modulo by zero")))
                    }
                },
            },
            _ => Err(type_error(op.as_str(), &l)),
        },
    }
}

/// Call a user function: a fresh frame (its own locals plus the globals), depth-bounded.
/// A `return` inside ends the call, never the program.
fn call_function(name: &str, argv: Vec<Val>, st: &mut State) -> (r: Result<Val, EvalError>)
    requires
        old(st).wf(),
    ensures
        grows(*old(st), *final(st)),
        restores(*old(st), *final(st)),
        (forall|j: int| 0 <= j < old(st).funcs@.len() ==> old(st).funcs@[j].0@ != name@) ==> {
            &&& r matches Err(e) && e.0@ == "unknown function `"@ + name@ + "`"@
            &&& *final(st) == *old(st)
        },
        forall|k: int| defs::fn_at(old(st).funcs@, name@, k) ==> {
            &&& old(st).funcs@[k].1@.len() != argv@.len() ==> {
                &&& r matches Err(e) && e.0@ == "`"@ + name@ + "` expects "@ + digits(old(st).funcs@[k].1@.len())
                    + " argument(s), got "@ + digits(argv@.len())
                &&& *final(st) == *old(st)
            }
            &&& (old(st).funcs@[k].1@.len() == argv@.len() && old(st).depth >= old(st).config.max_depth) ==> {
                &&& r matches Err(e) && e.0@ == "call depth exceeded ("@ + digits(old(st).config.max_depth as nat)
                    + "); possible non-termination"@
                &&& *final(st) == *old(st)
            }
        },
    decreases old(st).fuel(), old(st).depth_left(), 0nat, 4nat,
{
    let found = st.find_function(name);
    let (params, body) = match found {
        Some(f) => f,
        None => {
            return Err(eval_error("unknown function `", name, "`"));
        },
    };
    if params.len() != argv.len() {
        let mut m = cat3("`", name, "` expects ");
        m.append(u64_str(params.len() as u64).as_str());
        m.append(" argument(s), got ");
        m.append(u64_str(argv.len() as u64).as_str());
        return Err(EvalError(m));
    }
    st.enter_call()?;
    st.env.push_frame();
    let mut i: usize = 0;
    while i < params.len()
        invariant
            i <= params.len(),
            argv@.len() == params@.len(),
            st.wf(),
            grows(*old(st), *st),
            st.depth == old(st).depth + 1,
            st.covert == old(st).covert,
            st.audience == old(st).audience,
            st.env.frame_count() == old(st).env.frame_count() + 1,
        decreases params.len() - i,
    {
        st.env.define_local(params[i].as_str(), copy_val(&argv[i]));
        i = i + 1;
    }
    let flow = exec_block(&body, st);
    st.env.pop_frame();
    st.leave_call();
    match flow? {
        Flow::Return(v) => Ok(v),
        Flow::Next => Ok(Val::Unit),
    }
}

/// `name;`: run the poly-statement's arm for the current room (a room with no arm hears
/// nothing: not an error), recording which arm was taken. A `return` ends the arm only.
#[verifier::rlimit(50)]
fn invoke(name: &str, st: &mut State) -> (r: Result<Flow, EvalError>)
    requires
        old(st).wf(),
    ensures
        grows(*old(st), *final(st)),
        restores(*old(st), *final(st)),
        r is Ok ==> r matches Ok(Flow::Next),
        (forall|j: int| 0 <= j < old(st).poly@.len() ==> old(st).poly@[j].0@ != name@) ==> {
            &&& r matches Err(e) && e.0@ == "unknown poly-statement `"@ + name@ + "`"@
            &&& *final(st) == *old(st)
        },
        forall|k: int| defs::poly_at(old(st).poly@, name@, k) && (forall|m: int| 0 <= m < old(st).poly@[k].1@.len()
            ==> #[trigger] old(st).poly@[k].1@[m].0 != old(st).audience) ==> {
            &&& r matches Ok(Flow::Next)
            &&& *final(st) == *old(st)
        },
        forall|k: int, m: int| #![trigger defs::poly_at(old(st).poly@, name@, k), old(st).poly@[k].1@[m]]
            defs::poly_at(old(st).poly@, name@, k) && 0 <= m < old(st).poly@[k].1@.len()
            && old(st).poly@[k].1@[m].0 == old(st).audience && (forall|j: int| 0 <= j < m
            ==> #[trigger] old(st).poly@[k].1@[j].0 != old(st).audience) && old(st).depth < old(st).config.max_depth ==> {
            &&& final(st).doubletalk_log@.len() > old(st).doubletalk_log@.len()
            &&& final(st).doubletalk_log@[old(st).doubletalk_log@.len() as int].0@ == name@
            &&& final(st).doubletalk_log@[old(st).doubletalk_log@.len() as int].1 == m
        },
    decreases old(st).fuel(), old(st).depth_left(), 0nat, 4nat,
{
    let arms = match st.find_poly(name) {
        Some(a) => a,
        None => {
            return Err(eval_error("unknown poly-statement `", name, "`"));
        },
    };
    let ghost k0 = choose|k: int| defs::poly_at(st.poly@, name@, k) && arms_v(arms@) == arms_v(st.poly@[k].1@)
        && (forall|m: int| 0 <= m < arms@.len() ==> arms@[m].0 == st.poly@[k].1@[m].0)
        && arms@.len() == st.poly@[k].1@.len();
    let mut idx: usize = 0;
    while idx < arms.len() && !same_audience(arms[idx].0, st.audience)
        invariant
            idx <= arms.len(),
            forall|j: int| 0 <= j < idx ==> arms@[j].0 != st.audience,
        decreases arms.len() - idx,
    {
        idx = idx + 1;
    }
    if idx >= arms.len() {
        proof {
            assert forall|k: int, m: int|
                defs::poly_at(old(st).poly@, name@, k) && 0 <= m < old(st).poly@[k].1@.len()
                && old(st).poly@[k].1@[m].0 == old(st).audience implies false by {
                assert(k == k0) by {
                    if k < k0 {
                        assert(old(st).poly@[k].0@ != name@);
                    } else if k > k0 {
                        assert(old(st).poly@[k0].0@ != name@);
                    }
                }
                assert(arms@[m].0 != st.audience);
            }
        }
        return Ok(Flow::Next);
    }
    proof {
        assert(arms@[idx as int].0 == st.audience);
        assert forall|k: int, m: int|
            defs::poly_at(old(st).poly@, name@, k) && 0 <= m < old(st).poly@[k].1@.len()
            && old(st).poly@[k].1@[m].0 == old(st).audience && (forall|j: int| 0 <= j < m
            ==> #[trigger] old(st).poly@[k].1@[j].0 != old(st).audience) implies m == idx by {
            assert(k == k0) by {
                if k < k0 {
                    assert(old(st).poly@[k].0@ != name@);
                } else if k > k0 {
                    assert(old(st).poly@[k0].0@ != name@);
                }
            }
            if m < idx {
                assert(arms@[m].0 != st.audience);
            } else if m > idx {
                assert(old(st).poly@[k].1@[idx as int].0 != old(st).audience);
            }
        }
    }
    st.enter_call()?;
    let ghost dt_before = st.doubletalk_log@;
    st.doubletalk_log.push((owned(name), idx));
    let flow = exec_block(&arms[idx].1, st);
    st.leave_call();
    flow?;
    Ok(Flow::Next)
}

fn same_audience(a: Audience, b: Audience) -> (r: bool)
    ensures
        r == (a == b),
{
    match (a, b) {
        (Audience::Domestic, Audience::Domestic) => true,
        (Audience::International, Audience::International) => true,
        (Audience::Record, Audience::Record) => true,
        _ => false,
    }
}

/// The ACTUAL rendering of the innermost laundered operation under `vars`, where it is
/// known: through every `via` layer, a sanctioned action on one named target renders as
/// its candid `verb(label)`, any other sanctioned call in its source form, and an
/// expression that evaluates without error (`value_in`) as its rendered value.
pub open spec fn laundered_spec(e: Expr, vars: spec_fn(Seq<char>) -> Option<Val>) -> Option<Seq<char>>
    decreases e,
{
    match e {
        Expr::Via { inner, .. } => laundered_spec(*inner, vars),
        Expr::Call { name, args } => match euphemism::candid_of(name@) {
            Some(c) => if args@.len() == 1 && args@[0] is Var {
                let target = args@[0]->Var_0@;
                Some(c + "("@ + (if target == "target"@ { "dissident"@ } else { target }) + ")"@)
            } else {
                Some(pretty_spec(e))
            },
            None => None,
        },
        _ => match value_in(e, vars) {
            Some(v) => Some(render_of(v)),
            None => None,
        },
    }
}

/// The innermost laundered operation, rendered for the ACTUAL face: a sanctioned action
/// on one target renders as its candid `verb(label)`; anything else is evaluated for
/// effect and its value rendered.
fn laundered(e: &Expr, st: &mut State) -> (r: Result<String, EvalError>)
    requires
        old(st).wf(),
    ensures
        grows(*old(st), *final(st)),
        restores(*old(st), *final(st)),
        laundered_spec(*e, reads(old(st).env)) matches Some(t) ==> r matches Ok(x) && x@ == t && *final(st) == *old(st),
    decreases old(st).fuel(), old(st).depth_left(), expr_size(*e), 2nat,
{
    match e {
        Expr::Via { inner, .. } => laundered(inner, st),
        Expr::Call { name, args } => {
            if euphemism::is_sanctioned(name.as_str()) {
                if args.len() == 1 {
                    match &args[0] {
                        Expr::Var(target) => {
                            let mut s = cat3(
                                euphemism::candid_verb(name.as_str()).as_str(),
                                "(",
                                euphemism::candid_label(target.as_str()).as_str(),
                            );
                            s.append(")");
                            return Ok(s);
                        },
                        _ => {},
                    }
                }
                Ok(pretty(e))
            } else {
                let v = eval(e, st)?;
                Ok(v.render())
            }
        },
        _ => {
            let v = eval(e, st)?;
            Ok(v.render())
        },
    }
}

/// `allocate(a, i, v);`: write slot `i`. A share cannot be negative (`E-SHARE`); an
/// out-of-range slot is a controlled `E-INDEX`. A slot written covertly is covert.
fn allocate_slot(coll: &str, idx: &Expr, value: &Expr, st: &mut State) -> (r: Result<(), EvalError>)
    requires
        old(st).wf(),
    ensures
        grows(*old(st), *final(st)),
        restores(*old(st), *final(st)),
        value_in(*idx, reads(old(st).env)) matches Some(w) ==> match w {
            Val::Int(i) => value_in(*value, reads(old(st).env)) matches Some(u) ==> match u {
                Val::Int(v) => if v < 0 {
                    &&& r matches Err(e) && e.0@ == "E-SHARE: an apportionment share cannot be negative (slot "@
                        + int_str(i as int) + " of '"@ + coll@ + "' = "@ + int_str(v as int) + ")"@
                    &&& *final(st) == *old(st)
                } else {
                    slot_outcome(*old(st), *final(st), r, coll@, i, v) && final(st).log == old(st).log
                },
                _ => r matches Err(e) && e.0@ == "allocate value"@ + " must be an integer, got "@ + render_of(u)
                    && *final(st) == *old(st),
            },
            _ => r matches Err(e) && e.0@ == "allocate index"@ + " must be an integer, got "@ + render_of(w)
                && *final(st) == *old(st),
        },
    decreases old(st).fuel(), old(st).depth_left(), expr_size(*idx) + expr_size(*value) + 1, 5nat,
{
    let i = eval_int(idx, st, "allocate index")?;
    let v = eval_int(value, st, "allocate value")?;
    if v < 0 {
        let mut m = cat3("E-SHARE: an apportionment share cannot be negative (slot ", i64_str(i).as_str(), " of '");
        m.append(coll);
        m.append("' = ");
        m.append(i64_str(v).as_str());
        m.append(")");
        return Err(EvalError(m));
    }
    st.set_slot(coll, i, v)
}

} // verus!
