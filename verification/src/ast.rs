//! The abstract syntax tree: closed sets of expressions and statements, plus the claim
//! pretty-printer and the variable collector used by `declare`.

use vstd::prelude::*;
use vstd::string::*;
use crate::model::{clearance_label, Audience, Clearance, Jurisdiction};
use crate::text::{cat, cat3, i64_str, int_str, join, join_spec, owned, views};

verus! {

/// A whole program: the mandatory grand operation name, its body and its source
/// comments.
#[derive(Debug, PartialEq)]
pub struct Program {
    pub op_name: String,
    pub body: Vec<Stmt>,
    pub comments: Vec<String>,
}

/// The read-only-and-inert globals.
#[derive(Clone, Copy, Debug, PartialEq, Eq, Structural)]
pub enum InertKind {
    WorldOpinion,
    Polls,
}

/// The closed set of runtime rule-changes.
#[derive(Clone, Debug, PartialEq, Eq)]
pub enum LawToggle {
    /// Sanction a verb after the fact.
    RetroactivelySanction(String),
    /// Drop the last public discrepancy from the count.
    ExpungeLastDiscrepancy,
    /// Allow a classified op outside a hasbara/mossad scope.
    WaiveGate,
}

/// A policy position a poly-statement arm can take.
#[derive(Clone, Copy, Debug, PartialEq, Eq, Structural)]
pub enum Stance {
    Commit,
    Foreclose,
}

/// Unary operators.
#[derive(Clone, Copy, Debug, PartialEq, Eq, Structural)]
pub enum UnOp {
    Neg,
    Not,
}

/// Binary operators.
#[derive(Clone, Copy, Debug, PartialEq, Eq, Structural)]
pub enum BinOp {
    Add,
    Sub,
    Mul,
    Div,
    Mod,
    Eq,
    Ne,
    Lt,
    Le,
    Gt,
    Ge,
    And,
    Or,
}

/// The source symbol of a binary operator.
pub open spec fn binop_symbol(op: BinOp) -> Seq<char> {
    match op {
        BinOp::Add => "+"@,
        BinOp::Sub => "-"@,
        BinOp::Mul => "*"@,
        BinOp::Div => "/"@,
        BinOp::Mod => "%"@,
        BinOp::Eq => "=="@,
        BinOp::Ne => "!="@,
        BinOp::Lt => "<"@,
        BinOp::Le => "<="@,
        BinOp::Gt => ">"@,
        BinOp::Ge => ">="@,
        BinOp::And => "&&"@,
        BinOp::Or => "||"@,
    }
}

impl BinOp {
    /// Source rendering, used by the claim pretty-printer.
    pub fn as_str(self) -> (r: &'static str)
        ensures
            r@ == binop_symbol(self),
    {
        match self {
            BinOp::Add => "+",
            BinOp::Sub => "-",
            BinOp::Mul => "*",
            BinOp::Div => "/",
            BinOp::Mod => "%",
            BinOp::Eq => "==",
            BinOp::Ne => "!=",
            BinOp::Lt => "<",
            BinOp::Le => "<=",
            BinOp::Gt => ">",
            BinOp::Ge => ">=",
            BinOp::And => "&&",
            BinOp::Or => "||",
        }
    }
}

/// An expression on the ACTUAL tape.
#[derive(Debug, PartialEq)]
pub enum Expr {
    Int(i64),
    Bool(bool),
    Str(String),
    Var(String),
    UnOp { op: UnOp, expr: Box<Expr> },
    BinOp { op: BinOp, lhs: Box<Expr>, rhs: Box<Expr> },
    /// A call to a user-defined function.
    Call { name: String, args: Vec<Expr> },
    /// `read(e)`: the clearance-gated read.
    Read(Box<Expr>),
    /// `(PUBLIC|RESTRICTED|סודי) e`: a clearance cast.
    Cast { target: Clearance, expr: Box<Expr> },
    /// `(self_defense) e`: the universal cast.
    SelfDefense(Box<Expr>),
    /// `external(args…)`: the covert foreign interface.
    External(Vec<Expr>),
    /// `via(proxy, inner)`: laundering through a proxy.
    Via { proxy: String, inner: Box<Expr> },
    /// `apportionment[N]`.
    Apportionment { label: String, size: i64 },
    /// `index(a, i)`.
    Index { coll: String, idx: Box<Expr> },
    /// `balanced(a)`.
    Balanced { coll: String },
    /// `facts_on_the_ground()`.
    FactsNew { label: String },
    /// `length(l)`: the public (live) length.
    Length { coll: String },
    /// `registry("<rule>")`.
    RegistryNew { label: String, rule: String },
    /// `route(r, case)`.
    Route { coll: String, case: String },
    /// `equal_before_the_law(r)`.
    EqualBeforeLaw { coll: String },
}

/// A statement.
#[derive(Debug, PartialEq)]
pub enum Stmt {
    Assign { var: String, value: Expr },
    Declare(Expr),
    If { cond: Expr, then_body: Vec<Stmt>, else_body: Vec<Stmt> },
    While { cond: Expr, body: Vec<Stmt> },
    FuncDef { name: String, params: Vec<String>, body: Vec<Stmt> },
    Return(Option<Expr>),
    ExprStmt(Expr),
    Hasbara { talking_point: String, body: Vec<Stmt> },
    Action { verb: String, target: String, self_defense: bool },
    Allocate { name: String, what: String },
    Bribe { name: String, amount: Expr },
    Postpone,
    Elections,
    Mossad { body: Vec<Stmt> },
    Blame { who: String },
    Raise { name: String },
    Whatabout { name: String },
    Ceasefire,
    Concern { who: Option<String> },
    Criticism { subject: String },
    Antisemitism { incident: String },
    Access { entity: String },
    Timeline { symbol: String },
    EstablishCommission { name: String, subject: String },
    Settlement { name: String, what: String },
    HumanShields { verb: String, target: String },
    Proportionate { claim: String },
    Disputed { name: String, official: i64, actual: i64 },
    Deny { event: String },
    Inert { kind: InertKind },
    Investigate { subject: String },
    AddressInternational,
    Announce { text: String },
    Position { stance: Stance, subject: String },
    Address { audience: Audience, body: Vec<Stmt> },
    PolyStatement { name: String, arms: Vec<(Audience, Vec<Stmt>)> },
    Invoke { name: String },
    Legislate { toggle: LawToggle },
    AllocateSlot { coll: String, idx: Expr, value: Expr },
    Push { coll: String, item: Expr },
    Remove { coll: String, item: Expr },
    Classify { coll: String, case: String, jurisdiction: Jurisdiction },
    Revoke { coll: String, case: String },
}

// ─────────── the tree as mathematical values ───────────

/// An expression as a mathematical value: names as character sequences, argument lists
/// as sequences.
pub enum ExprV {
    Int(i64),
    Bool(bool),
    Str(Seq<char>),
    Var(Seq<char>),
    UnOp { op: UnOp, expr: Box<ExprV> },
    BinOp { op: BinOp, lhs: Box<ExprV>, rhs: Box<ExprV> },
    Call { name: Seq<char>, args: Seq<ExprV> },
    Read(Box<ExprV>),
    Cast { target: Clearance, expr: Box<ExprV> },
    SelfDefense(Box<ExprV>),
    External(Seq<ExprV>),
    Via { proxy: Seq<char>, inner: Box<ExprV> },
    Apportionment { label: Seq<char>, size: i64 },
    Index { coll: Seq<char>, idx: Box<ExprV> },
    Balanced { coll: Seq<char> },
    FactsNew { label: Seq<char> },
    Length { coll: Seq<char> },
    RegistryNew { label: Seq<char>, rule: Seq<char> },
    Route { coll: Seq<char>, case: Seq<char> },
    EqualBeforeLaw { coll: Seq<char> },
}

/// A rule-change as a mathematical value.
pub enum ToggleV {
    RetroactivelySanction(Seq<char>),
    ExpungeLastDiscrepancy,
    WaiveGate,
}

/// A statement as a mathematical value: names as character sequences, bodies as
/// sequences.
pub enum StmtV {
    Assign { var: Seq<char>, value: ExprV },
    Declare(ExprV),
    If { cond: ExprV, then_body: Seq<StmtV>, else_body: Seq<StmtV> },
    While { cond: ExprV, body: Seq<StmtV> },
    FuncDef { name: Seq<char>, params: Seq<Seq<char>>, body: Seq<StmtV> },
    Return(Option<ExprV>),
    ExprStmt(ExprV),
    Hasbara { talking_point: Seq<char>, body: Seq<StmtV> },
    Action { verb: Seq<char>, target: Seq<char>, self_defense: bool },
    Allocate { name: Seq<char>, what: Seq<char> },
    Bribe { name: Seq<char>, amount: ExprV },
    Postpone,
    Elections,
    Mossad { body: Seq<StmtV> },
    Blame { who: Seq<char> },
    Raise { name: Seq<char> },
    Whatabout { name: Seq<char> },
    Ceasefire,
    Concern { who: Option<Seq<char>> },
    Criticism { subject: Seq<char> },
    Antisemitism { incident: Seq<char> },
    Access { entity: Seq<char> },
    Timeline { symbol: Seq<char> },
    EstablishCommission { name: Seq<char>, subject: Seq<char> },
    Settlement { name: Seq<char>, what: Seq<char> },
    HumanShields { verb: Seq<char>, target: Seq<char> },
    Proportionate { claim: Seq<char> },
    Disputed { name: Seq<char>, official: i64, actual: i64 },
    Deny { event: Seq<char> },
    Inert { kind: InertKind },
    Investigate { subject: Seq<char> },
    AddressInternational,
    Announce { text: Seq<char> },
    Position { stance: Stance, subject: Seq<char> },
    Address { audience: Audience, body: Seq<StmtV> },
    PolyStatement { name: Seq<char>, arms: Seq<(Audience, Seq<StmtV>)> },
    Invoke { name: Seq<char> },
    Legislate { toggle: ToggleV },
    AllocateSlot { coll: Seq<char>, idx: ExprV, value: ExprV },
    Push { coll: Seq<char>, item: ExprV },
    Remove { coll: Seq<char>, item: ExprV },
    Classify { coll: Seq<char>, case: Seq<char>, jurisdiction: Jurisdiction },
    Revoke { coll: Seq<char>, case: Seq<char> },
}

/// The value of an expression.
pub open spec fn expr_v(e: Expr) -> ExprV
    decreases e, 0int,
{
    match e {
        Expr::Int(n) => ExprV::Int(n),
        Expr::Bool(b) => ExprV::Bool(b),
        Expr::Str(s) => ExprV::Str(s@),
        Expr::Var(n) => ExprV::Var(n@),
        Expr::UnOp { op, expr } => ExprV::UnOp { op, expr: Box::new(expr_v(*expr)) },
        Expr::BinOp { op, lhs, rhs } => ExprV::BinOp {
            op,
            lhs: Box::new(expr_v(*lhs)),
            rhs: Box::new(expr_v(*rhs)),
        },
        Expr::Call { name, args } => ExprV::Call { name: name@, args: exprs_v(args@) },
        Expr::Read(inner) => ExprV::Read(Box::new(expr_v(*inner))),
        Expr::Cast { target, expr } => ExprV::Cast { target, expr: Box::new(expr_v(*expr)) },
        Expr::SelfDefense(inner) => ExprV::SelfDefense(Box::new(expr_v(*inner))),
        Expr::External(args) => ExprV::External(exprs_v(args@)),
        Expr::Via { proxy, inner } => ExprV::Via { proxy: proxy@, inner: Box::new(expr_v(*inner)) },
        Expr::Apportionment { label, size } => ExprV::Apportionment { label: label@, size },
        Expr::Index { coll, idx } => ExprV::Index { coll: coll@, idx: Box::new(expr_v(*idx)) },
        Expr::Balanced { coll } => ExprV::Balanced { coll: coll@ },
        Expr::FactsNew { label } => ExprV::FactsNew { label: label@ },
        Expr::Length { coll } => ExprV::Length { coll: coll@ },
        Expr::RegistryNew { label, rule } => ExprV::RegistryNew { label: label@, rule: rule@ },
        Expr::Route { coll, case } => ExprV::Route { coll: coll@, case: case@ },
        Expr::EqualBeforeLaw { coll } => ExprV::EqualBeforeLaw { coll: coll@ },
    }
}

/// The values of a list of expressions.
pub open spec fn exprs_v(es: Seq<Expr>) -> Seq<ExprV>
    decreases es, 1int,
{
    if es.len() == 0 {
        Seq::empty()
    } else {
        exprs_v(es.subrange(0, es.len() - 1)).push(expr_v(es[es.len() - 1]))
    }
}

/// Appending an expression appends its value.
pub proof fn lemma_exprs_v_push(es: Seq<Expr>, e: Expr)
    ensures
        exprs_v(es.push(e)) == exprs_v(es).push(expr_v(e)),
{
    assert(es.push(e).subrange(0, es.len() as int) =~= es);
}

/// The values of a list of expressions, one by one.
pub proof fn lemma_exprs_v_index(es: Seq<Expr>)
    ensures
        exprs_v(es).len() == es.len(),
        forall|k: int| 0 <= k < es.len() ==> #[trigger] exprs_v(es)[k] == expr_v(es[k]),
    decreases es.len(),
{
    if es.len() > 0 {
        let init = es.subrange(0, es.len() - 1);
        lemma_exprs_v_index(init);
        assert forall|k: int| 0 <= k < es.len() implies #[trigger] exprs_v(es)[k] == expr_v(es[k]) by {
            if k < es.len() - 1 {
                assert(init[k] == es[k]);
            }
        }
    }
}

/// The value of a rule-change.
pub open spec fn toggle_v(t: LawToggle) -> ToggleV {
    match t {
        LawToggle::RetroactivelySanction(v) => ToggleV::RetroactivelySanction(v@),
        LawToggle::ExpungeLastDiscrepancy => ToggleV::ExpungeLastDiscrepancy,
        LawToggle::WaiveGate => ToggleV::WaiveGate,
    }
}

/// The value of a statement.
pub open spec fn stmt_v(s: Stmt) -> StmtV
    decreases s, 0int,
{
    match s {
        Stmt::Assign { var, value } => StmtV::Assign { var: var@, value: expr_v(value) },
        Stmt::Declare(e) => StmtV::Declare(expr_v(e)),
        Stmt::If { cond, then_body, else_body } => StmtV::If {
            cond: expr_v(cond),
            then_body: stmts_v(then_body@),
            else_body: stmts_v(else_body@),
        },
        Stmt::While { cond, body } => StmtV::While { cond: expr_v(cond), body: stmts_v(body@) },
        Stmt::FuncDef { name, params, body } => StmtV::FuncDef {
            name: name@,
            params: views(params@),
            body: stmts_v(body@),
        },
        Stmt::Return(e) => StmtV::Return(match e {
            Some(x) => Some(expr_v(x)),
            None => None,
        }),
        Stmt::ExprStmt(e) => StmtV::ExprStmt(expr_v(e)),
        Stmt::Hasbara { talking_point, body } => StmtV::Hasbara {
            talking_point: talking_point@,
            body: stmts_v(body@),
        },
        Stmt::Action { verb, target, self_defense } => StmtV::Action {
            verb: verb@,
            target: target@,
            self_defense,
        },
        Stmt::Allocate { name, what } => StmtV::Allocate { name: name@, what: what@ },
        Stmt::Bribe { name, amount } => StmtV::Bribe { name: name@, amount: expr_v(amount) },
        Stmt::Postpone => StmtV::Postpone,
        Stmt::Elections => StmtV::Elections,
        Stmt::Mossad { body } => StmtV::Mossad { body: stmts_v(body@) },
        Stmt::Blame { who } => StmtV::Blame { who: who@ },
        Stmt::Raise { name } => StmtV::Raise { name: name@ },
        Stmt::Whatabout { name } => StmtV::Whatabout { name: name@ },
        Stmt::Ceasefire => StmtV::Ceasefire,
        Stmt::Concern { who } => StmtV::Concern {
            who: match who {
                Some(w) => Some(w@),
                None => None,
            },
        },
        Stmt::Criticism { subject } => StmtV::Criticism { subject: subject@ },
        Stmt::Antisemitism { incident } => StmtV::Antisemitism { incident: incident@ },
        Stmt::Access { entity } => StmtV::Access { entity: entity@ },
        Stmt::Timeline { symbol } => StmtV::Timeline { symbol: symbol@ },
        Stmt::EstablishCommission { name, subject } => StmtV::EstablishCommission {
            name: name@,
            subject: subject@,
        },
        Stmt::Settlement { name, what } => StmtV::Settlement { name: name@, what: what@ },
        Stmt::HumanShields { verb, target } => StmtV::HumanShields { verb: verb@, target: target@ },
        Stmt::Proportionate { claim } => StmtV::Proportionate { claim: claim@ },
        Stmt::Disputed { name, official, actual } => StmtV::Disputed { name: name@, official, actual },
        Stmt::Deny { event } => StmtV::Deny { event: event@ },
        Stmt::Inert { kind } => StmtV::Inert { kind },
        Stmt::Investigate { subject } => StmtV::Investigate { subject: subject@ },
        Stmt::AddressInternational => StmtV::AddressInternational,
        Stmt::Announce { text } => StmtV::Announce { text: text@ },
        Stmt::Position { stance, subject } => StmtV::Position { stance, subject: subject@ },
        Stmt::Address { audience, body } => StmtV::Address { audience, body: stmts_v(body@) },
        Stmt::PolyStatement { name, arms } => StmtV::PolyStatement { name: name@, arms: arms_v(arms@) },
        Stmt::Invoke { name } => StmtV::Invoke { name: name@ },
        Stmt::Legislate { toggle } => StmtV::Legislate { toggle: toggle_v(toggle) },
        Stmt::AllocateSlot { coll, idx, value } => StmtV::AllocateSlot {
            coll: coll@,
            idx: expr_v(idx),
            value: expr_v(value),
        },
        Stmt::Push { coll, item } => StmtV::Push { coll: coll@, item: expr_v(item) },
        Stmt::Remove { coll, item } => StmtV::Remove { coll: coll@, item: expr_v(item) },
        Stmt::Classify { coll, case, jurisdiction } => StmtV::Classify {
            coll: coll@,
            case: case@,
            jurisdiction,
        },
        Stmt::Revoke { coll, case } => StmtV::Revoke { coll: coll@, case: case@ },
    }
}

/// The values of a list of statements.
pub open spec fn stmts_v(ss: Seq<Stmt>) -> Seq<StmtV>
    decreases ss, 1int,
{
    if ss.len() == 0 {
        Seq::empty()
    } else {
        stmts_v(ss.subrange(0, ss.len() - 1)).push(stmt_v(ss[ss.len() - 1]))
    }
}

/// Appending a statement appends its value.
pub proof fn lemma_stmts_v_push(ss: Seq<Stmt>, st: Stmt)
    ensures
        stmts_v(ss.push(st)) == stmts_v(ss).push(stmt_v(st)),
{
    assert(ss.push(st).subrange(0, ss.len() as int) =~= ss);
}

/// The values of the arms of a poly-statement.
pub open spec fn arms_v(arms: Seq<(Audience, Vec<Stmt>)>) -> Seq<(Audience, Seq<StmtV>)>
    decreases arms, 1int,
{
    if arms.len() == 0 {
        Seq::empty()
    } else {
        arms_v(arms.subrange(0, arms.len() - 1)).push((arms[arms.len() - 1].0, stmts_v(arms[arms.len() - 1].1@)))
    }
}

/// Appending an arm appends its value.
pub proof fn lemma_arms_v_push(arms: Seq<(Audience, Vec<Stmt>)>, arm: (Audience, Vec<Stmt>))
    ensures
        arms_v(arms.push(arm)) == arms_v(arms).push((arm.0, stmts_v(arm.1@))),
{
    assert(arms.push(arm).subrange(0, arms.len() as int) =~= arms);
}

// ─────────── the claim pretty-printer ───────────

/// The source form of an expression.
pub open spec fn pretty_spec(e: Expr) -> Seq<char>
    decreases e, 0int,
{
    match e {
        Expr::Int(n) => int_str(n as int),
        Expr::Bool(b) => if b { "true"@ } else { "false"@ },
        Expr::Str(s) => "\""@ + s@ + "\""@,
        Expr::Var(name) => name@,
        Expr::UnOp { op, expr } => (match op {
            UnOp::Neg => "-"@,
            UnOp::Not => "!"@,
        }) + pretty_spec(*expr),
        Expr::BinOp { op, lhs, rhs } => pretty_spec(*lhs) + " "@ + binop_symbol(op) + " "@
            + pretty_spec(*rhs),
        Expr::Call { name, args } => name@ + "("@ + pretty_list(args@, 0) + ")"@,
        Expr::Read(inner) => "read("@ + pretty_spec(*inner) + ")"@,
        Expr::Cast { target, expr } => "("@ + clearance_label(target) + ") "@ + pretty_spec(*expr),
        Expr::SelfDefense(inner) => "(self_defense) "@ + pretty_spec(*inner),
        Expr::External(args) => "external("@ + pretty_list(args@, 0) + ")"@,
        Expr::Via { proxy, inner } => "via("@ + proxy@ + ", "@ + pretty_spec(*inner) + ")"@,
        Expr::Apportionment { size, .. } => "apportionment["@ + int_str(size as int) + "]"@,
        Expr::Index { coll, idx } => "index("@ + coll@ + ", "@ + pretty_spec(*idx) + ")"@,
        Expr::Balanced { coll } => "balanced("@ + coll@ + ")"@,
        Expr::FactsNew { .. } => "facts_on_the_ground()"@,
        Expr::Length { coll } => "length("@ + coll@ + ")"@,
        Expr::RegistryNew { rule, .. } => "registry(\""@ + rule@ + "\")"@,
        Expr::Route { coll, case } => "route("@ + coll@ + ", "@ + case@ + ")"@,
        Expr::EqualBeforeLaw { coll } => "equal_before_the_law("@ + coll@ + ")"@,
    }
}

/// The source forms of `args[i..]`, separated by `", "`.
pub open spec fn pretty_list(args: Seq<Expr>, i: int) -> Seq<char>
    decreases args, args.len() - i,
{
    if i < 0 || i >= args.len() {
        Seq::empty()
    } else if i == args.len() - 1 {
        pretty_spec(args[i])
    } else {
        pretty_spec(args[i]) + ", "@ + pretty_list(args, i + 1)
    }
}

fn pretty_args(args: &Vec<Expr>) -> (r: String)
    ensures
        r@ == pretty_list(args@, 0),
    decreases args@, 1int,
{
    let mut r = String::new();
    let n = args.len();
    let mut i: usize = 0;
    while i < n
        invariant
            n == args.len(),
            i <= n,
            r@ + pretty_list(args@, i as int) == pretty_list(args@, 0),
        decreases n - i,
    {
        let p = pretty(&args[i]);
        let ghost before = r@;
        r.append(p.as_str());
        if i + 1 < n {
            r.append(", ");
        }
        proof {
            if i + 1 < n {
                assert(r@ + pretty_list(args@, i + 1) =~= before + pretty_list(args@, i as int));
            } else {
                assert(r@ + pretty_list(args@, i + 1) =~= before + pretty_list(args@, i as int));
            }
        }
        i = i + 1;
    }
    assert(r@ =~= r@ + pretty_list(args@, n as int));
    r
}

/// Pretty-print an expression back to source form (used to render a `declare` claim).
pub fn pretty(e: &Expr) -> (r: String)
    ensures
        r@ == pretty_spec(*e),
    decreases *e, 2int,
{
    match e {
        Expr::Int(n) => i64_str(*n),
        Expr::Bool(b) => if *b { owned("true") } else { owned("false") },
        Expr::Str(s) => cat3("\"", s.as_str(), "\""),
        Expr::Var(name) => name.clone(),
        Expr::UnOp { op, expr } => {
            let sym = match op {
                UnOp::Neg => "-",
                UnOp::Not => "!",
            };
            cat(sym, pretty(expr).as_str())
        },
        Expr::BinOp { op, lhs, rhs } => {
            let mut r = pretty(lhs);
            r.append(" ");
            r.append(op.as_str());
            r.append(" ");
            r.append(pretty(rhs).as_str());
            r
        },
        Expr::Call { name, args } => {
            let mut r = cat(name.as_str(), "(");
            r.append(pretty_args(args).as_str());
            r.append(")");
            r
        },
        Expr::Read(inner) => cat3("read(", pretty(inner).as_str(), ")"),
        Expr::Cast { target, expr } => {
            let mut r = cat3("(", target.label(), ") ");
            r.append(pretty(expr).as_str());
            r
        },
        Expr::SelfDefense(inner) => cat("(self_defense) ", pretty(inner).as_str()),
        Expr::External(args) => cat3("external(", pretty_args(args).as_str(), ")"),
        Expr::Via { proxy, inner } => {
            let mut r = cat3("via(", proxy.as_str(), ", ");
            r.append(pretty(inner).as_str());
            r.append(")");
            r
        },
        Expr::Apportionment { size, .. } => cat3("apportionment[", i64_str(*size).as_str(), "]"),
        Expr::Index { coll, idx } => {
            let mut r = cat3("index(", coll.as_str(), ", ");
            r.append(pretty(idx).as_str());
            r.append(")");
            r
        },
        Expr::Balanced { coll } => cat3("balanced(", coll.as_str(), ")"),
        Expr::FactsNew { .. } => owned("facts_on_the_ground()"),
        Expr::Length { coll } => cat3("length(", coll.as_str(), ")"),
        Expr::RegistryNew { rule, .. } => cat3("registry(\"", rule.as_str(), "\")"),
        Expr::Route { coll, case } => {
            let mut r = cat3("route(", coll.as_str(), ", ");
            r.append(case.as_str());
            r.append(")");
            r
        },
        Expr::EqualBeforeLaw { coll } => cat3("equal_before_the_law(", coll.as_str(), ")"),
    }
}


// ─────────── the variables a claim mentions ───────────

/// `acc` with `v` appended unless already present.
pub open spec fn add_var(acc: Seq<Seq<char>>, v: Seq<char>) -> Seq<Seq<char>> {
    if acc.contains(v) { acc } else { acc.push(v) }
}

/// The variables of `e` (collections referenced by name count), appended to `acc` in
/// first-appearance order without duplicates.
pub open spec fn vars_acc(e: Expr, acc: Seq<Seq<char>>) -> Seq<Seq<char>>
    decreases e, 0int,
{
    match e {
        Expr::Int(_) | Expr::Bool(_) | Expr::Str(_) => acc,
        Expr::Var(name) => add_var(acc, name@),
        Expr::UnOp { expr, .. } => vars_acc(*expr, acc),
        Expr::BinOp { lhs, rhs, .. } => vars_acc(*rhs, vars_acc(*lhs, acc)),
        Expr::Call { args, .. } => vars_list(args@, 0, acc),
        Expr::Read(inner) => vars_acc(*inner, acc),
        Expr::SelfDefense(inner) => vars_acc(*inner, acc),
        Expr::Cast { expr, .. } => vars_acc(*expr, acc),
        Expr::External(args) => vars_list(args@, 0, acc),
        Expr::Via { inner, .. } => vars_acc(*inner, acc),
        Expr::Index { coll, idx } => vars_acc(*idx, add_var(acc, coll@)),
        Expr::Balanced { coll } => add_var(acc, coll@),
        Expr::Length { coll } => add_var(acc, coll@),
        Expr::EqualBeforeLaw { coll } => add_var(acc, coll@),
        Expr::Route { coll, .. } => add_var(acc, coll@),
        Expr::Apportionment { .. } | Expr::FactsNew { .. } | Expr::RegistryNew { .. } => acc,
    }
}

/// [`vars_acc`] over `args[i..]`, left to right.
pub open spec fn vars_list(args: Seq<Expr>, i: int, acc: Seq<Seq<char>>) -> Seq<Seq<char>>
    decreases args, args.len() - i,
{
    if i < 0 || i >= args.len() {
        acc
    } else {
        vars_list(args, i + 1, vars_acc(args[i], acc))
    }
}

fn add_var_exec(out: &mut Vec<String>, v: &String)
    ensures
        views(final(out)@) == add_var(views(old(out)@), v@),
{
    let mut i: usize = 0;
    while i < out.len()
        invariant
            i <= out.len(),
            forall|j: int| 0 <= j < i ==> out@[j]@ != v@,
        decreases out.len() - i,
    {
        if out[i] == *v {
            assert(views(out@)[i as int] == v@);
            return;
        }
        i = i + 1;
    }
    proof {
        assert(!views(out@).contains(v@)) by {
            if views(out@).contains(v@) {
                let j = choose|j: int| 0 <= j < views(out@).len() && views(out@)[j] == v@;
                assert(out@[j]@ == v@);
            }
        }
    }
    let ghost before = views(out@);
    out.push(v.clone());
    assert(views(out@) =~= before.push(v@));
}

fn collect_list(args: &Vec<Expr>, out: &mut Vec<String>)
    ensures
        views(final(out)@) == vars_list(args@, 0, views(old(out)@)),
    decreases args@, 1int,
{
    let n = args.len();
    let mut i: usize = 0;
    while i < n
        invariant
            n == args.len(),
            i <= n,
            vars_list(args@, i as int, views(out@)) == vars_list(args@, 0, views(old(out)@)),
        decreases n - i,
    {
        collect_vars(&args[i], out);
        i = i + 1;
    }
}

fn collect_vars(e: &Expr, out: &mut Vec<String>)
    ensures
        views(final(out)@) == vars_acc(*e, views(old(out)@)),
    decreases *e, 2int,
{
    match e {
        Expr::Int(_) | Expr::Bool(_) | Expr::Str(_) => {},
        Expr::Var(name) => add_var_exec(out, name),
        Expr::UnOp { expr, .. } => collect_vars(expr, out),
        Expr::BinOp { lhs, rhs, .. } => {
            collect_vars(lhs, out);
            collect_vars(rhs, out);
        },
        Expr::Call { args, .. } => collect_list(args, out),
        Expr::Read(inner) => collect_vars(inner, out),
        Expr::SelfDefense(inner) => collect_vars(inner, out),
        Expr::Cast { expr, .. } => collect_vars(expr, out),
        Expr::External(args) => collect_list(args, out),
        Expr::Via { inner, .. } => collect_vars(inner, out),
        Expr::Index { coll, idx } => {
            add_var_exec(out, coll);
            collect_vars(idx, out);
        },
        Expr::Balanced { coll } => add_var_exec(out, coll),
        Expr::Length { coll } => add_var_exec(out, coll),
        Expr::EqualBeforeLaw { coll } => add_var_exec(out, coll),
        Expr::Route { coll, .. } => add_var_exec(out, coll),
        Expr::Apportionment { .. } | Expr::FactsNew { .. } | Expr::RegistryNew { .. } => {},
    }
}

/// The variables an expression mentions, in first-appearance order, de-duplicated
/// (collections referenced by name included).
pub fn vars_in(expr: &Expr) -> (r: Vec<String>)
    ensures
        views(r@) == vars_acc(*expr, Seq::empty()),
{
    let mut out: Vec<String> = Vec::new();
    assert(views(out@) =~= Seq::<Seq<char>>::empty());
    collect_vars(expr, &mut out);
    out
}

// ─────────── deep copies ───────────

/// A deep copy of a list of strings.
pub(crate) fn copy_strings(v: &Vec<String>) -> (r: Vec<String>)
    ensures
        r@ == v@,
{
    let mut r: Vec<String> = Vec::new();
    let mut i: usize = 0;
    while i < v.len()
        invariant
            i <= v.len(),
            r@ == v@.take(i as int),
        decreases v.len() - i,
    {
        r.push(v[i].clone());
        i = i + 1;
        assert(r@ =~= v@.take(i as int));
    }
    assert(v@.take(v.len() as int) =~= v@);
    r
}

fn copy_exprs(v: &Vec<Expr>) -> (r: Vec<Expr>)
    ensures
        r@.len() == v@.len(),
        exprs_v(r@) == exprs_v(v@),
    decreases v@, 1int,
{
    let mut r: Vec<Expr> = Vec::new();
    let mut i: usize = 0;
    while i < v.len()
        invariant
            i <= v.len(),
            r@.len() == i,
            exprs_v(r@) == exprs_v(v@.take(i as int)),
        decreases v.len() - i,
    {
        let c = copy_expr(&v[i]);
        proof {
            lemma_exprs_v_push(r@, c);
            assert(v@.take(i as int + 1).subrange(0, i as int) =~= v@.take(i as int));
        }
        r.push(c);
        i = i + 1;
    }
    assert(v@.take(v.len() as int) =~= v@);
    r
}

/// A deep copy of an expression.
pub(crate) fn copy_expr(e: &Expr) -> (r: Expr)
    ensures
        expr_v(r) == expr_v(*e),
    decreases *e, 2int,
{
    match e {
        Expr::Int(n) => Expr::Int(*n),
        Expr::Bool(b) => Expr::Bool(*b),
        Expr::Str(s) => Expr::Str(s.clone()),
        Expr::Var(s) => Expr::Var(s.clone()),
        Expr::UnOp { op, expr } => Expr::UnOp { op: *op, expr: Box::new(copy_expr(expr)) },
        Expr::BinOp { op, lhs, rhs } => Expr::BinOp {
            op: *op,
            lhs: Box::new(copy_expr(lhs)),
            rhs: Box::new(copy_expr(rhs)),
        },
        Expr::Call { name, args } => Expr::Call { name: name.clone(), args: copy_exprs(args) },
        Expr::Read(inner) => Expr::Read(Box::new(copy_expr(inner))),
        Expr::Cast { target, expr } => Expr::Cast { target: *target, expr: Box::new(copy_expr(expr)) },
        Expr::SelfDefense(inner) => Expr::SelfDefense(Box::new(copy_expr(inner))),
        Expr::External(args) => Expr::External(copy_exprs(args)),
        Expr::Via { proxy, inner } => Expr::Via { proxy: proxy.clone(), inner: Box::new(copy_expr(inner)) },
        Expr::Apportionment { label, size } => Expr::Apportionment { label: label.clone(), size: *size },
        Expr::Index { coll, idx } => Expr::Index { coll: coll.clone(), idx: Box::new(copy_expr(idx)) },
        Expr::Balanced { coll } => Expr::Balanced { coll: coll.clone() },
        Expr::FactsNew { label } => Expr::FactsNew { label: label.clone() },
        Expr::Length { coll } => Expr::Length { coll: coll.clone() },
        Expr::RegistryNew { label, rule } => Expr::RegistryNew { label: label.clone(), rule: rule.clone() },
        Expr::Route { coll, case } => Expr::Route { coll: coll.clone(), case: case.clone() },
        Expr::EqualBeforeLaw { coll } => Expr::EqualBeforeLaw { coll: coll.clone() },
    }
}

/// A deep copy of a block of statements.
pub(crate) fn copy_block(v: &Vec<Stmt>) -> (r: Vec<Stmt>)
    ensures
        r@.len() == v@.len(),
        stmts_v(r@) == stmts_v(v@),
    decreases v@, 1int,
{
    let mut r: Vec<Stmt> = Vec::new();
    let mut i: usize = 0;
    while i < v.len()
        invariant
            i <= v.len(),
            r@.len() == i,
            stmts_v(r@) == stmts_v(v@.take(i as int)),
        decreases v.len() - i,
    {
        let c = copy_stmt(&v[i]);
        proof {
            lemma_stmts_v_push(r@, c);
            assert(v@.take(i as int + 1).subrange(0, i as int) =~= v@.take(i as int));
        }
        r.push(c);
        i = i + 1;
    }
    assert(v@.take(v.len() as int) =~= v@);
    r
}

pub(crate) fn copy_arms(v: &Vec<(Audience, Vec<Stmt>)>) -> (r: Vec<(Audience, Vec<Stmt>)>)
    ensures
        r@.len() == v@.len(),
        forall|i: int| 0 <= i < v@.len() ==> r@[i].0 == v@[i].0,
        arms_v(r@) == arms_v(v@),
    decreases v@, 1int,
{
    let mut r: Vec<(Audience, Vec<Stmt>)> = Vec::new();
    let mut i: usize = 0;
    while i < v.len()
        invariant
            i <= v.len(),
            r@.len() == i,
            forall|j: int| 0 <= j < i ==> r@[j].0 == v@[j].0,
            arms_v(r@) == arms_v(v@.take(i as int)),
        decreases v.len() - i,
    {
        let (a, b) = &v[i];
        assert(v@[i as int].1 == *b);
        let arm = (*a, copy_block(b));
        proof {
            lemma_arms_v_push(r@, arm);
            assert(v@.take(i as int + 1).subrange(0, i as int) =~= v@.take(i as int));
        }
        r.push(arm);
        i = i + 1;
    }
    assert(v@.take(v.len() as int) =~= v@);
    r
}

/// A deep copy of a statement.
pub(crate) fn copy_stmt(s: &Stmt) -> (r: Stmt)
    ensures
        stmt_v(r) == stmt_v(*s),
    decreases *s, 2int,
{
    match s {
        Stmt::Assign { var, value } => Stmt::Assign { var: var.clone(), value: copy_expr(value) },
        Stmt::Declare(e) => Stmt::Declare(copy_expr(e)),
        Stmt::If { cond, then_body, else_body } => Stmt::If {
            cond: copy_expr(cond),
            then_body: copy_block(then_body),
            else_body: copy_block(else_body),
        },
        Stmt::While { cond, body } => Stmt::While { cond: copy_expr(cond), body: copy_block(body) },
        Stmt::FuncDef { name, params, body } => Stmt::FuncDef {
            name: name.clone(),
            params: copy_strings(params),
            body: copy_block(body),
        },
        Stmt::Return(opt) => match opt {
            Some(e) => Stmt::Return(Some(copy_expr(e))),
            None => Stmt::Return(None),
        },
        Stmt::ExprStmt(e) => Stmt::ExprStmt(copy_expr(e)),
        Stmt::Hasbara { talking_point, body } => Stmt::Hasbara {
            talking_point: talking_point.clone(),
            body: copy_block(body),
        },
        Stmt::Action { verb, target, self_defense } => Stmt::Action {
            verb: verb.clone(),
            target: target.clone(),
            self_defense: *self_defense,
        },
        Stmt::Allocate { name, what } => Stmt::Allocate { name: name.clone(), what: what.clone() },
        Stmt::Bribe { name, amount } => Stmt::Bribe { name: name.clone(), amount: copy_expr(amount) },
        Stmt::Postpone => Stmt::Postpone,
        Stmt::Elections => Stmt::Elections,
        Stmt::Mossad { body } => Stmt::Mossad { body: copy_block(body) },
        Stmt::Blame { who } => Stmt::Blame { who: who.clone() },
        Stmt::Raise { name } => Stmt::Raise { name: name.clone() },
        Stmt::Whatabout { name } => Stmt::Whatabout { name: name.clone() },
        Stmt::Ceasefire => Stmt::Ceasefire,
        Stmt::Concern { who } => Stmt::Concern { who: who.clone() },
        Stmt::Criticism { subject } => Stmt::Criticism { subject: subject.clone() },
        Stmt::Antisemitism { incident } => Stmt::Antisemitism { incident: incident.clone() },
        Stmt::Access { entity } => Stmt::Access { entity: entity.clone() },
        Stmt::Timeline { symbol } => Stmt::Timeline { symbol: symbol.clone() },
        Stmt::EstablishCommission { name, subject } => Stmt::EstablishCommission {
            name: name.clone(),
            subject: subject.clone(),
        },
        Stmt::Settlement { name, what } => Stmt::Settlement { name: name.clone(), what: what.clone() },
        Stmt::HumanShields { verb, target } => Stmt::HumanShields {
            verb: verb.clone(),
            target: target.clone(),
        },
        Stmt::Proportionate { claim } => Stmt::Proportionate { claim: claim.clone() },
        Stmt::Disputed { name, official, actual } => Stmt::Disputed {
            name: name.clone(),
            official: *official,
            actual: *actual,
        },
        Stmt::Deny { event } => Stmt::Deny { event: event.clone() },
        Stmt::Inert { kind } => Stmt::Inert { kind: *kind },
        Stmt::Investigate { subject } => Stmt::Investigate { subject: subject.clone() },
        Stmt::AddressInternational => Stmt::AddressInternational,
        Stmt::Announce { text } => Stmt::Announce { text: text.clone() },
        Stmt::Position { stance, subject } => Stmt::Position { stance: *stance, subject: subject.clone() },
        Stmt::Address { audience, body } => Stmt::Address { audience: *audience, body: copy_block(body) },
        Stmt::PolyStatement { name, arms } => Stmt::PolyStatement {
            name: name.clone(),
            arms: copy_arms(arms),
        },
        Stmt::Invoke { name } => Stmt::Invoke { name: name.clone() },
        Stmt::Legislate { toggle } => Stmt::Legislate { toggle: match toggle {
            LawToggle::RetroactivelySanction(v) => LawToggle::RetroactivelySanction(v.clone()),
            LawToggle::ExpungeLastDiscrepancy => LawToggle::ExpungeLastDiscrepancy,
            LawToggle::WaiveGate => LawToggle::WaiveGate,
        } },
        Stmt::AllocateSlot { coll, idx, value } => Stmt::AllocateSlot {
            coll: coll.clone(),
            idx: copy_expr(idx),
            value: copy_expr(value),
        },
        Stmt::Push { coll, item } => Stmt::Push { coll: coll.clone(), item: copy_expr(item) },
        Stmt::Remove { coll, item } => Stmt::Remove { coll: coll.clone(), item: copy_expr(item) },
        Stmt::Classify { coll, case, jurisdiction } => Stmt::Classify {
            coll: coll.clone(),
            case: case.clone(),
            jurisdiction: *jurisdiction,
        },
        Stmt::Revoke { coll, case } => Stmt::Revoke { coll: coll.clone(), case: case.clone() },
    }
}

} // verus!
