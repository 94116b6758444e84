//! Static checks (compile diagnostics). Clearance is the type system: a type error is a
//! disclosure. Besides disclosure typing, the euphemism front end runs here: the
//! operation-name rule, the Spokesperson's plain-term rejection, the hasbara gate, unknown
//! operations and contested identifiers.

use vstd::prelude::*;
use vstd::string::*;
use crate::ast::{BinOp, Expr, LawToggle, Program, Stmt};
use crate::euphemism::{
    candid_of, grand_word, grandiosity, honest_word, is_action_verb, is_contested, is_sanctioned, lex_lt, lower,
    lower_exec, plain_suggestion, suggestion_of, words_of, Grand,
};
use crate::model::{clearance_label, max_clearance, rank, Attribution, Audience, Clearance};
use crate::text::{cat, cat3, cat5, chars_of, contains_chars, has_sub, owned, str_contains, str_eq, views};

verus! {

// ─────────── attribution (laundering through proxies) ───────────

/// The proxies a `via` chain launders through, outermost first.
pub open spec fn via_proxies(e: Expr) -> Seq<Seq<char>>
    decreases e,
{
    match e {
        Expr::Via { proxy, inner } => seq![proxy@] + via_proxies(*inner),
        _ => Seq::empty(),
    }
}

/// The attribution effect of an expression performed by `actor`: a laundered (`via`)
/// operation is publicly deniable, anything else is traceable to the actor. The real chain
/// lists the proxies, nearest the surface first, with the true origin always last.
pub fn attribution(expr: &Expr, actor: &str) -> (r: (Attribution, Vec<String>))
    ensures
        views(r.1@) == via_proxies(*expr).push(actor@),
        (*expr is Via) ==> r.0 == Attribution::Deniable,
        !(*expr is Via) ==> (r.0 matches Attribution::Traceable(c) && c@ == r.1@),
{
    let chain = chain_of(expr, actor);
    let is_via = match expr {
        Expr::Via { .. } => true,
        _ => false,
    };
    if is_via {
        (Attribution::Deniable, chain)
    } else {
        let copy = crate::ast::copy_strings(&chain);
        (Attribution::Traceable(copy), chain)
    }
}

/// The proxies of a laundered expression, outermost first, then the actor.
fn chain_of(e: &Expr, actor: &str) -> (r: Vec<String>)
    ensures
        views(r@) == via_proxies(*e).push(actor@),
    decreases *e,
{
    match e {
        Expr::Via { proxy, inner } => {
            let rest = chain_of(inner, actor);
            let mut r: Vec<String> = Vec::new();
            r.push(proxy.clone());
            let mut i: usize = 0;
            while i < rest.len()
                invariant
                    i <= rest.len(),
                    views(r@) == seq![proxy@] + views(rest@).take(i as int),
                decreases rest.len() - i,
            {
                let ghost before = views(r@);
                r.push(rest[i].clone());
                assert(views(r@) =~= before.push(rest@[i as int]@));
                i = i + 1;
                assert(views(r@) =~= seq![proxy@] + views(rest@).take(i as int));
            }
            assert(views(rest@).take(rest.len() as int) =~= views(rest@));
            assert(views(r@) =~= via_proxies(*e).push(actor@));
            r
        },
        _ => {
            let mut r: Vec<String> = Vec::new();
            r.push(owned(actor));
            assert(views(r@) =~= via_proxies(*e).push(actor@));
            r
        },
    }
}

// ─────────── static clearance ───────────

/// A symbol table: (name, clearance) bindings, the latest binding of a name wins.
pub open spec fn tab_get(tab: Seq<(Seq<char>, Clearance)>, name: Seq<char>) -> Clearance
    decreases tab.len(),
{
    if tab.len() == 0 {
        Clearance::Public
    } else if tab.last().0 == name {
        tab.last().1
    } else {
        tab_get(tab.drop_last(), name)
    }
}

/// The abstract symbol table.
pub open spec fn tab_view(tab: Seq<(String, Clearance)>) -> Seq<(Seq<char>, Clearance)> {
    tab.map_values(|b: (String, Clearance)| (b.0@, b.1))
}

/// The larger of two clearances (spec).
pub open spec fn join(a: Clearance, b: Clearance) -> Clearance {
    if rank(a) >= rank(b) { a } else { b }
}

/// The static clearance of an expression: the largest clearance among its leaves, where
/// `read` resolves to PUBLIC, a cast sets its target, and `(self_defense)` always
/// type-checks as PUBLIC.
pub open spec fn static_clearance(e: Expr, tab: Seq<(Seq<char>, Clearance)>) -> Clearance
    decreases e,
{
    match e {
        Expr::Var(name) => tab_get(tab, name@),
        Expr::UnOp { expr, .. } => static_clearance(*expr, tab),
        Expr::BinOp { lhs, rhs, .. } => join(static_clearance(*lhs, tab), static_clearance(*rhs, tab)),
        Expr::Cast { target, .. } => target,
        Expr::Via { inner, .. } => static_clearance(*inner, tab),
        _ => Clearance::Public,
    }
}

/// Whether an expression shows a value of clearance `c` in the open: a variable held at
/// `c` or a cast to `c`, reached through operators and proxies but not through `read` or
/// `(self_defense)`.
pub open spec fn shows(e: Expr, tab: Seq<(Seq<char>, Clearance)>, c: Clearance) -> bool
    decreases e,
{
    match e {
        Expr::Var(name) => tab_get(tab, name@) == c,
        Expr::UnOp { expr, .. } => shows(*expr, tab, c),
        Expr::BinOp { lhs, rhs, .. } => shows(*lhs, tab, c) || shows(*rhs, tab, c),
        Expr::Cast { target, .. } => target == c,
        Expr::Via { inner, .. } => shows(*inner, tab, c),
        _ => false,
    }
}

/// The static clearance of an expression is the highest clearance it shows: no value it
/// shows is classified above it, and unless it is PUBLIC the expression shows a value of
/// exactly that clearance.
pub proof fn law_clearance_is_the_highest_shown(e: Expr, tab: Seq<(Seq<char>, Clearance)>, c: Clearance)
    ensures
        shows(e, tab, c) ==> rank(c) <= rank(static_clearance(e, tab)),
        static_clearance(e, tab) == Clearance::Public || shows(e, tab, static_clearance(e, tab)),
    decreases e,
{
    match e {
        Expr::UnOp { expr, .. } => law_clearance_is_the_highest_shown(*expr, tab, c),
        Expr::BinOp { lhs, rhs, .. } => {
            law_clearance_is_the_highest_shown(*lhs, tab, c);
            law_clearance_is_the_highest_shown(*rhs, tab, c);
        },
        Expr::Via { inner, .. } => law_clearance_is_the_highest_shown(*inner, tab, c),
        _ => {},
    }
}

/// A binary expression is classified at least as high as each operand, exactly as high as
/// one of them, and the same whichever side each operand stands on.
pub proof fn law_binary_clearance_joins_operands(op: BinOp, lhs: Expr, rhs: Expr, tab: Seq<(Seq<char>, Clearance)>)
    ensures
        rank(static_clearance(lhs, tab)) <= rank(static_clearance(Expr::BinOp { op, lhs: Box::new(lhs), rhs: Box::new(rhs) }, tab)),
        rank(static_clearance(rhs, tab)) <= rank(static_clearance(Expr::BinOp { op, lhs: Box::new(lhs), rhs: Box::new(rhs) }, tab)),
        static_clearance(Expr::BinOp { op, lhs: Box::new(lhs), rhs: Box::new(rhs) }, tab) == static_clearance(lhs, tab)
            || static_clearance(Expr::BinOp { op, lhs: Box::new(lhs), rhs: Box::new(rhs) }, tab) == static_clearance(rhs, tab),
        static_clearance(Expr::BinOp { op, lhs: Box::new(lhs), rhs: Box::new(rhs) }, tab) == static_clearance(
            Expr::BinOp { op, lhs: Box::new(rhs), rhs: Box::new(lhs) },
            tab,
        ),
{
}

fn tab_lookup(tab: &Vec<(String, Clearance)>, name: &str) -> (c: Clearance)
    ensures
        c == tab_get(tab_view(tab@), name@),
{
    let mut i = tab.len();
    assert(tab@.take(i as int) =~= tab@);
    while i > 0
        invariant
            i <= tab.len(),
            tab_get(tab_view(tab@), name@) == tab_get(tab_view(tab@.take(i as int)), name@),
        decreases i,
    {
        assert(tab_view(tab@.take(i as int)).drop_last() =~= tab_view(tab@.take(i - 1)));
        if str_eq(tab[i - 1].0.as_str(), name) {
            return tab[i - 1].1;
        }
        i = i - 1;
    }
    Clearance::Public
}

fn clearance_of(e: &Expr, tab: &Vec<(String, Clearance)>) -> (c: Clearance)
    ensures
        c == static_clearance(*e, tab_view(tab@)),
    decreases *e,
{
    match e {
        Expr::Var(name) => tab_lookup(tab, name.as_str()),
        Expr::UnOp { expr, .. } => clearance_of(expr, tab),
        Expr::BinOp { lhs, rhs, .. } => {
            let a = clearance_of(lhs, tab);
            let b = clearance_of(rhs, tab);
            max_clearance(a, b)
        },
        Expr::Cast { target, .. } => *target,
        Expr::Via { inner, .. } => clearance_of(inner, tab),
        _ => Clearance::Public,
    }
}

// ─────────── the diagnostics ───────────

/// The word of a name that the name-rule reports: an honest word of the name, the
/// alphabetically first of them.
pub open spec fn first_honest(name: Seq<char>, w: Seq<char>) -> bool {
    &&& words_of(name).contains(w)
    &&& honest_word(w)
    &&& forall|u: Seq<char>| #[trigger] words_of(name).contains(u) && honest_word(u) ==> !lex_lt(u, w)
}

/// Whether a name contains an honest word.
pub open spec fn names_honestly(name: Seq<char>) -> bool {
    exists|u: Seq<char>| #[trigger] words_of(name).contains(u) && honest_word(u)
}

/// Whether a name contains a grand word.
pub open spec fn sounds_grand(name: Seq<char>) -> bool {
    exists|u: Seq<char>| #[trigger] words_of(name).contains(u) && grand_word(u)
}

/// The diagnostic for a name that is honest about the word `w`.
pub open spec fn honest_msg(name: Seq<char>, w: Seq<char>) -> Seq<char> {
    "E-DISHONESTOPNAME: @operation(\""@ + name + "\") names the operation honestly ('"@ + w
        + "'); an operation name must sound protective or heroic."@
}

/// The diagnostic for a name that is neither honest nor grand.
pub open spec fn bland_msg(name: Seq<char>) -> Seq<char> {
    "E-DISHONESTOPNAME: @operation(\""@ + name
        + "\") is insufficiently grand; an operation name must sound protective or heroic."@
}

/// The operation-name diagnostic: none for a grand name; otherwise the honest word the
/// name gives away, or that it is insufficiently grand.
pub fn name_diagnostic(name: &str) -> (r: Option<String>)
    ensures
        r is None <==> (!names_honestly(name@) && sounds_grand(name@)),
        names_honestly(name@) ==> exists|w: Seq<char>| first_honest(name@, w) && r is Some && r->Some_0@ == honest_msg(name@, w),
        !names_honestly(name@) && !sounds_grand(name@) ==> r is Some && r->Some_0@ == bland_msg(name@),
{
    match grandiosity(name) {
        Grand::Honest(w) => {
            let mut m = cat3("E-DISHONESTOPNAME: @operation(\"", name, "\") names the operation honestly ('");
            m.append(w.as_str());
            m.append("'); an operation name must sound protective or heroic.");
            assert(first_honest(name@, w@));
            assert(m@ == honest_msg(name@, w@));
            Some(m)
        },
        Grand::Accepted => None,
        Grand::Bland => Some(cat3(
            "E-DISHONESTOPNAME: @operation(\"",
            name,
            "\") is insufficiently grand; an operation name must sound protective or heroic.",
        )),
    }
}

/// The ASCII-lowercased text.
pub open spec fn lowered(s: Seq<char>) -> Seq<char> {
    s.map_values(|c: char| lower(c))
}

/// Whether a text mentions a contested characterization (case-insensitively).
pub open spec fn mentions_contested(s: Seq<char>) -> bool {
    has_sub(lowered(s), "apartheid"@) || has_sub(lowered(s), "genocide"@) || has_sub(lowered(s), "most moral army"@)
}

fn lowered_chars(s: &str) -> (r: Vec<char>)
    ensures
        r@ == lowered(s@),
{
    let cs = chars_of(s);
    let mut r: Vec<char> = Vec::new();
    let mut i: usize = 0;
    while i < cs.len()
        invariant
            i <= cs.len(),
            cs@ == s@,
            r@ == lowered(s@).take(i as int),
        decreases cs.len() - i,
    {
        r.push(lower_exec(cs[i]));
        i = i + 1;
        assert(r@ =~= lowered(s@).take(i as int));
    }
    assert(lowered(s@).take(cs.len() as int) =~= lowered(s@));
    r
}

/// Whether a text mentions a contested characterization.
pub fn is_contested_text(s: &str) -> (r: bool)
    ensures
        r == mentions_contested(s@),
{
    let low = lowered_chars(s);
    contains_chars(&low, &chars_of("apartheid")) || contains_chars(&low, &chars_of("genocide"))
        || contains_chars(&low, &chars_of("most moral army"))
}

/// The Spokesperson's diagnostic for a plain verb.
pub open spec fn plainterm_msg(verb: Seq<char>, suggestion: Seq<char>) -> Seq<char> {
    "E-PLAINTERM: '"@ + verb + "' does not compile. did you mean `"@ + suggestion + "`?"@
}

/// The diagnostic for a classified operation outside a hasbara/mossad scope.
pub open spec fn ungated_msg(verb: Seq<char>) -> Seq<char> {
    "E-UNGATED: '"@ + verb + "' is a classified operation outside any hasbara/mossad scope; declare the talking point first."@
}

/// What a rule-change anywhere in the program allows: verbs sanctioned after the fact,
/// and whether the hasbara requirement is waived.
pub struct Law {
    pub sanctioned: Vec<String>,
    pub gate_waived: bool,
}

/// The diagnostic for an action verb: a plain verb never compiles (with the PR
/// suggestion); a classified verb needs a hasbara/mossad scope unless that requirement is waived
/// or the verb was sanctioned by law; otherwise none.
pub fn action_diagnostic(verb: &str, gated: bool, law: &Law) -> (r: Option<String>)
    ensures
        match suggestion_of(verb@) {
            Some(sug) => r is Some && r->Some_0@ == plainterm_msg(verb@, sug@),
            None => {
                if candid_of(verb@) is Some && !gated && !law.gate_waived && !views(law.sanctioned@).contains(verb@) {
                    r is Some && r->Some_0@ == ungated_msg(verb@)
                } else {
                    r is None
                }
            },
        },
{
    match plain_suggestion(verb) {
        Some(sug) => {
            let mut m = cat3("E-PLAINTERM: '", verb, "' does not compile. did you mean `");
            m.append(sug);
            m.append("`?");
            Some(m)
        },
        None => {
            if is_sanctioned(verb) && !gated && !law.gate_waived && !contains_str(&law.sanctioned, verb) {
                Some(cat3(
                    "E-UNGATED: '",
                    verb,
                    "' is a classified operation outside any hasbara/mossad scope; declare the talking point first.",
                ))
            } else {
                None
            }
        },
    }
}

/// Whether a list of strings holds `s`.
pub fn contains_str(v: &Vec<String>, s: &str) -> (r: bool)
    ensures
        r == views(v@).contains(s@),
{
    let mut i: usize = 0;
    while i < v.len()
        invariant
            i <= v.len(),
            forall|j: int| 0 <= j < i ==> v@[j]@ != s@,
        decreases v.len() - i,
    {
        if str_eq(v[i].as_str(), s) {
            assert(views(v@)[i as int] == s@);
            return true;
        }
        i = i + 1;
    }
    proof {
        if views(v@).contains(s@) {
            let j = choose|j: int| 0 <= j < views(v@).len() && views(v@)[j] == s@;
            assert(v@[j]@ == s@);
        }
    }
    false
}

/// What a rule-change record and a list of function names say.
pub open spec fn law_v(law: Law, funcs: Seq<String>) -> LawV {
    LawV { sanctioned: views(law.sanctioned@), waived: law.gate_waived, funcs: views(funcs) }
}

/// The rule-changes made anywhere in a block (nested bodies included).
fn collect_law(stmts: &Vec<Stmt>, law: &mut Law, funcs: &mut Vec<String>)
    ensures
        law_v(*final(law), final(funcs)@) == law_block(stmts@, law_v(*old(law), old(funcs)@)),
    decreases stmts@, 1int,
{
    let mut i: usize = 0;
    assert(stmts@.take(0) =~= Seq::<Stmt>::empty());
    while i < stmts.len()
        invariant
            i <= stmts.len(),
            law_v(*law, funcs@) == law_block(stmts@.take(i as int), law_v(*old(law), old(funcs)@)),
        decreases stmts.len() - i,
    {
        assert(stmts@.take(i + 1).subrange(0, i as int) =~= stmts@.take(i as int));
        assert(stmts@.take(i + 1)[i as int] == stmts@[i as int]);
        collect_law_stmt(&stmts[i], law, funcs);
        i = i + 1;
    }
    assert(stmts@.take(stmts.len() as int) =~= stmts@);
}

fn collect_law_stmt(s: &Stmt, law: &mut Law, funcs: &mut Vec<String>)
    ensures
        law_v(*final(law), final(funcs)@) == law_stmt(*s, law_v(*old(law), old(funcs)@)),
    decreases *s, 2int,
{
    match s {
        Stmt::Legislate { toggle } => match toggle {
            LawToggle::RetroactivelySanction(v) => {
                let ghost before = views(law.sanctioned@);
                law.sanctioned.push(v.clone());
                assert(views(law.sanctioned@) =~= before.push(v@));
            },
            LawToggle::WaiveGate => law.gate_waived = true,
            LawToggle::ExpungeLastDiscrepancy => {},
        },
        Stmt::FuncDef { name, body, .. } => {
            let ghost before = views(funcs@);
            funcs.push(name.clone());
            assert(views(funcs@) =~= before.push(name@));
            collect_law(body, law, funcs);
        },
        Stmt::If { then_body, else_body, .. } => {
            collect_law(then_body, law, funcs);
            collect_law(else_body, law, funcs);
        },
        Stmt::While { body, .. } => collect_law(body, law, funcs),
        Stmt::Hasbara { body, .. } => collect_law(body, law, funcs),
        Stmt::Mossad { body } => collect_law(body, law, funcs),
        Stmt::Address { body, .. } => collect_law(body, law, funcs),
        Stmt::PolyStatement { arms, .. } => collect_law_arms(arms, law, funcs),
        _ => {},
    }
}

fn collect_law_arms(arms: &Vec<(Audience, Vec<Stmt>)>, law: &mut Law, funcs: &mut Vec<String>)
    ensures
        law_v(*final(law), final(funcs)@) == law_arms(arms@, law_v(*old(law), old(funcs)@)),
    decreases arms@, 1int,
{
    let mut k: usize = 0;
    assert(arms@.take(0) =~= Seq::<(Audience, Vec<Stmt>)>::empty());
    while k < arms.len()
        invariant
            k <= arms.len(),
            law_v(*law, funcs@) == law_arms(arms@.take(k as int), law_v(*old(law), old(funcs)@)),
        decreases arms.len() - k,
    {
        assert(arms@.take(k + 1).subrange(0, k as int) =~= arms@.take(k as int));
        assert(arms@.take(k + 1)[k as int] == arms@[k as int]);
        let (_, body) = &arms[k];
        assert(arms@[k as int].1 == *body);
        collect_law(body, law, funcs);
        k = k + 1;
    }
    assert(arms@.take(arms.len() as int) =~= arms@);
}

// ─────────── what the walk finds ───────────

/// What the rule-changes of a program allow, and the functions it defines.
pub struct LawV {
    pub sanctioned: Seq<Seq<char>>,
    pub waived: bool,
    pub funcs: Seq<Seq<char>>,
}

/// The rule-changes and function names a statement adds, nested bodies included, in
/// source order.
pub open spec fn law_stmt(s: Stmt, acc: LawV) -> LawV
    decreases s, 0int,
{
    match s {
        Stmt::Legislate { toggle } => match toggle {
            LawToggle::RetroactivelySanction(v) => LawV { sanctioned: acc.sanctioned.push(v@), ..acc },
            LawToggle::WaiveGate => LawV { waived: true, ..acc },
            LawToggle::ExpungeLastDiscrepancy => acc,
        },
        Stmt::FuncDef { name, body, .. } => law_block(body@, LawV { funcs: acc.funcs.push(name@), ..acc }),
        Stmt::If { then_body, else_body, .. } => law_block(else_body@, law_block(then_body@, acc)),
        Stmt::While { body, .. } => law_block(body@, acc),
        Stmt::Hasbara { body, .. } => law_block(body@, acc),
        Stmt::Mossad { body } => law_block(body@, acc),
        Stmt::Address { body, .. } => law_block(body@, acc),
        Stmt::PolyStatement { arms, .. } => law_arms(arms@, acc),
        _ => acc,
    }
}

/// The rule-changes and function names a block adds.
pub open spec fn law_block(ss: Seq<Stmt>, acc: LawV) -> LawV
    decreases ss, 1int,
{
    if ss.len() == 0 {
        acc
    } else {
        law_stmt(ss[ss.len() - 1], law_block(ss.subrange(0, ss.len() - 1), acc))
    }
}

/// The rule-changes and function names the arms of a poly-statement add.
pub open spec fn law_arms(arms: Seq<(Audience, Vec<Stmt>)>, acc: LawV) -> LawV
    decreases arms, 1int,
{
    if arms.len() == 0 {
        acc
    } else {
        law_block(arms[arms.len() - 1].1@, law_arms(arms.subrange(0, arms.len() - 1), acc))
    }
}

/// What a whole program allows.
pub open spec fn law_of(body: Seq<Stmt>) -> LawV {
    law_block(body, LawV { sanctioned: Seq::empty(), waived: false, funcs: Seq::empty() })
}

/// The diagnostic for a contested characterization.
pub open spec fn contested_msg(text: Seq<char>) -> Seq<char> {
    "E-CONTESTED: '"@ + text + "' is a contested characterization; it cannot be stated as settled fact here."@
}

/// The diagnostic for a call of a name that is neither an operation nor a function.
pub open spec fn unknown_msg(name: Seq<char>) -> Seq<char> {
    "E-UNKNOWNOP: '"@ + name + "' is not a recognized operation or defined function."@
}

/// The diagnostic for a declaration that would disclose a `c`-classified value into the
/// `context` record.
pub open spec fn disclosure_msg(c: Clearance, context: Clearance) -> Seq<char> {
    "E-DISCLOSURE: declare(...) would force a "@ + clearance_label(c) + "-classified value into the "@
        + clearance_label(context)
        + " record without a read() or a cast. Wrap it in read(...), a declassify cast, or (self_defense)."@
}

/// The diagnostics of a text that may be stated as fact.
pub open spec fn contested_d(text: Seq<char>) -> Seq<Seq<char>> {
    if mentions_contested(text) { seq![contested_msg(text)] } else { Seq::empty() }
}

/// The diagnostics of an operation verb, in a scope gated or not.
pub open spec fn action_d(verb: Seq<char>, gated: bool, law: LawV) -> Seq<Seq<char>> {
    match suggestion_of(verb) {
        Some(sug) => seq![plainterm_msg(verb, sug@)],
        None => if candid_of(verb) is Some && !gated && !law.waived && !law.sanctioned.contains(verb) {
            seq![ungated_msg(verb)]
        } else {
            Seq::empty()
        },
    }
}

/// The diagnostics of an expression, left to right.
pub open spec fn expr_d(e: Expr, gated: bool, law: LawV) -> Seq<Seq<char>>
    decreases e, 0int,
{
    match e {
        Expr::Var(name) => contested_d(name@),
        Expr::Str(t) => contested_d(t@),
        Expr::UnOp { expr, .. } => expr_d(*expr, gated, law),
        Expr::BinOp { lhs, rhs, .. } => expr_d(*lhs, gated, law) + expr_d(*rhs, gated, law),
        Expr::Call { name, args } => (if law.funcs.contains(name@) {
            Seq::empty()
        } else {
            seq![unknown_msg(name@)]
        }) + exprs_d(args@, gated, law),
        Expr::Read(inner) => expr_d(*inner, gated, law),
        Expr::Cast { expr, .. } => expr_d(*expr, gated, law),
        Expr::SelfDefense(inner) => expr_d(*inner, gated, law),
        Expr::External(args) => exprs_d(args@, gated, law),
        Expr::Via { inner, .. } => laundered_d(*inner, gated, law),
        Expr::RegistryNew { rule, .. } => contested_d(rule@),
        Expr::Index { idx, .. } => expr_d(*idx, gated, law),
        _ => Seq::empty(),
    }
}

/// The diagnostics of a list of expressions.
pub open spec fn exprs_d(args: Seq<Expr>, gated: bool, law: LawV) -> Seq<Seq<char>>
    decreases args, 1int,
{
    if args.len() == 0 {
        Seq::empty()
    } else {
        exprs_d(args.subrange(0, args.len() - 1), gated, law) + expr_d(args[args.len() - 1], gated, law)
    }
}

/// The diagnostics of the core of a laundered operation: an operation verb applied to
/// one target is checked as an operation, anything else as an expression.
pub open spec fn laundered_d(e: Expr, gated: bool, law: LawV) -> Seq<Seq<char>>
    decreases e, 2int,
{
    match e {
        Expr::Via { inner, .. } => laundered_d(*inner, gated, law),
        Expr::Call { name, args } => if (candid_of(name@) is Some || suggestion_of(name@) is Some) && args.len() == 1 {
            action_d(name@, gated, law) + expr_d(args[0], gated, law)
        } else {
            expr_d(e, gated, law)
        },
        _ => expr_d(e, gated, law),
    }
}

/// The diagnostics of a statement and the symbol table after it.
pub open spec fn stmt_walk(
    s: Stmt,
    gated: bool,
    context: Clearance,
    tab: Seq<(Seq<char>, Clearance)>,
    law: LawV,
) -> (Seq<Seq<char>>, Seq<(Seq<char>, Clearance)>)
    decreases s, 0int,
{
    match s {
        Stmt::Assign { var, value } => (
            contested_d(var@) + expr_d(value, gated, law),
            tab.push((var@, static_clearance(value, tab))),
        ),
        Stmt::Declare(e) => {
            let c = static_clearance(e, tab);
            (
                expr_d(e, gated, law) + (if rank(c) > rank(context) {
                    seq![disclosure_msg(c, context)]
                } else {
                    Seq::empty()
                }),
                tab,
            )
        },
        Stmt::If { cond, then_body, else_body } => {
            let (d1, t1) = block_walk(then_body@, gated, context, tab, law);
            let (d2, t2) = block_walk(else_body@, gated, context, t1, law);
            (expr_d(cond, gated, law) + d1 + d2, t2)
        },
        Stmt::While { cond, body } => {
            let (d1, t1) = block_walk(body@, gated, context, tab, law);
            (expr_d(cond, gated, law) + d1, t1)
        },
        Stmt::FuncDef { body, .. } => (block_walk(body@, false, Clearance::Public, Seq::empty(), law).0, tab),
        Stmt::Return(opt) => (
            match opt {
                Some(e) => expr_d(e, gated, law),
                None => Seq::empty(),
            },
            tab,
        ),
        Stmt::ExprStmt(e) => (expr_d(e, gated, law), tab),
        Stmt::Hasbara { body, .. } => block_walk(body@, true, context, tab, law),
        Stmt::Mossad { body } => block_walk(body@, true, Clearance::Sodi, tab, law),
        Stmt::Action { verb, target, .. } => (action_d(verb@, gated, law) + contested_d(target@), tab),
        Stmt::Bribe { amount, .. } => (expr_d(amount, gated, law), tab),
        Stmt::HumanShields { verb, target } => (
            (if suggestion_of(verb@) is Some { action_d(verb@, gated, law) } else { Seq::empty() })
                + contested_d(target@),
            tab,
        ),
        Stmt::Proportionate { claim } => (contested_d(claim@), tab),
        Stmt::Deny { event } => (contested_d(event@), tab),
        Stmt::Investigate { subject } => (contested_d(subject@), tab),
        Stmt::Disputed { name, .. } => (contested_d(name@), tab),
        Stmt::Announce { text } => (contested_d(text@), tab),
        Stmt::Address { body, .. } => block_walk(body@, gated, context, tab, law),
        Stmt::PolyStatement { arms, .. } => (arms_walk(arms@, law), tab),
        Stmt::AllocateSlot { idx, value, .. } => (expr_d(idx, gated, law) + expr_d(value, gated, law), tab),
        Stmt::Push { item, .. } => (expr_d(item, gated, law), tab),
        Stmt::Remove { item, .. } => (expr_d(item, gated, law), tab),
        _ => (Seq::empty(), tab),
    }
}

/// The diagnostics of a block and the symbol table after it.
pub open spec fn block_walk(
    ss: Seq<Stmt>,
    gated: bool,
    context: Clearance,
    tab: Seq<(Seq<char>, Clearance)>,
    law: LawV,
) -> (Seq<Seq<char>>, Seq<(Seq<char>, Clearance)>)
    decreases ss, 1int,
{
    if ss.len() == 0 {
        (Seq::empty(), tab)
    } else {
        let (d1, t1) = block_walk(ss.subrange(0, ss.len() - 1), gated, context, tab, law);
        let (d2, t2) = stmt_walk(ss[ss.len() - 1], gated, context, t1, law);
        (d1 + d2, t2)
    }
}

/// The diagnostics of the arms of a poly-statement: each a deferred body, checked in a
/// fresh scope, ungated, against the PUBLIC record.
pub open spec fn arms_walk(arms: Seq<(Audience, Vec<Stmt>)>, law: LawV) -> Seq<Seq<char>>
    decreases arms, 1int,
{
    if arms.len() == 0 {
        Seq::empty()
    } else {
        arms_walk(arms.subrange(0, arms.len() - 1), law)
            + block_walk(arms[arms.len() - 1].1@, false, Clearance::Public, Seq::empty(), law).0
    }
}

/// The diagnostics of a program's body, after the operation-name rule.
pub open spec fn body_diags(body: Seq<Stmt>) -> Seq<Seq<char>> {
    block_walk(body, false, Clearance::Public, Seq::empty(), law_of(body)).0
}

/// Walking a block walks each prefix first: its diagnostics open the block's.
proof fn lemma_walk_prefix(
    ss: Seq<Stmt>,
    gated: bool,
    context: Clearance,
    tab: Seq<(Seq<char>, Clearance)>,
    law: LawV,
    k: int,
)
    requires
        0 <= k <= ss.len(),
    ensures
        block_walk(ss.take(k), gated, context, tab, law).0.is_prefix_of(block_walk(ss, gated, context, tab, law).0),
    decreases ss.len(),
{
    if k == ss.len() {
        assert(ss.take(k) =~= ss);
    } else {
        let init = ss.subrange(0, ss.len() - 1);
        assert(init.take(k) =~= ss.take(k));
        lemma_walk_prefix(init, gated, context, tab, law, k);
    }
}

/// A contested characterization is never stated as settled fact: a program that
/// announces one anywhere in its body does not compile, its diagnostics name it.
pub proof fn law_contested_announcement_never_compiles(body: Seq<Stmt>, i: int, text: String)
    requires
        0 <= i < body.len(),
        body[i] == (Stmt::Announce { text }),
        mentions_contested(text@),
    ensures
        body_diags(body).contains(contested_msg(text@)),
{
    let law = law_of(body);
    let pre = block_walk(body.take(i), false, Clearance::Public, Seq::empty(), law);
    let upto = body.take(i + 1);
    assert(upto.subrange(0, i) =~= body.take(i));
    assert(upto[i] == body[i]);
    let d = block_walk(upto, false, Clearance::Public, Seq::empty(), law).0;
    assert(upto.len() == i + 1);
    assert(upto.subrange(0, upto.len() - 1) =~= body.take(i));
    let w = stmt_walk(upto[upto.len() - 1], false, Clearance::Public, pre.1, law);
    assert(w.0 == contested_d(text@));
    assert(contested_d(text@) == seq![contested_msg(text@)]);
    assert(d == pre.0 + w.0);
    assert(d =~= pre.0 + seq![contested_msg(text@)]);
    assert(d[pre.0.len() as int] == contested_msg(text@));
    lemma_walk_prefix(body, false, Clearance::Public, Seq::empty(), law, i + 1);
    assert(body_diags(body)[pre.0.len() as int] == contested_msg(text@));
}

/// The static clearance of an expression at statement `i` of a program's body: under the
/// symbol table that the statements before it built.
pub open spec fn clearance_at(body: Seq<Stmt>, i: int, e: Expr) -> Clearance {
    static_clearance(e, block_walk(body.take(i), false, Clearance::Public, Seq::empty(), law_of(body)).1)
}

/// A disclosure never compiles: a program whose body declares, at top level, a value
/// classified above PUBLIC (with no read, declassifying cast or `(self_defense)`) does not
/// compile, its diagnostics name the disclosure.
pub proof fn law_disclosure_never_compiles(body: Seq<Stmt>, i: int, e: Expr)
    requires
        0 <= i < body.len(),
        body[i] == Stmt::Declare(e),
        rank(clearance_at(body, i, e)) > rank(Clearance::Public),
    ensures
        body_diags(body).contains(disclosure_msg(clearance_at(body, i, e), Clearance::Public)),
{
    let law = law_of(body);
    let pre = block_walk(body.take(i), false, Clearance::Public, Seq::empty(), law);
    let upto = body.take(i + 1);
    let c = clearance_at(body, i, e);
    let msg = disclosure_msg(c, Clearance::Public);
    assert(upto.len() == i + 1);
    assert(upto.subrange(0, upto.len() - 1) =~= body.take(i));
    assert(upto[upto.len() - 1] == body[i]);
    let d = block_walk(upto, false, Clearance::Public, Seq::empty(), law).0;
    let w = stmt_walk(upto[upto.len() - 1], false, Clearance::Public, pre.1, law);
    assert(w.0 == expr_d(e, false, law) + seq![msg]);
    assert(d == pre.0 + w.0);
    let at = (pre.0.len() + expr_d(e, false, law).len()) as int;
    assert(d[at] == msg);
    lemma_walk_prefix(body, false, Clearance::Public, Seq::empty(), law, i + 1);
    assert(body_diags(body)[at] == msg);
}

/// The symbol table in force at statement `i` of a program's body: what the statements
/// before it built.
pub open spec fn table_at(body: Seq<Stmt>, i: int) -> Seq<(Seq<char>, Clearance)> {
    block_walk(body.take(i), false, Clearance::Public, Seq::empty(), law_of(body)).1
}

/// A סודי value shown in a top-level declaration never compiles, whichever operand or
/// depth it stands at: the diagnostics name a סודי disclosure into the PUBLIC record.
pub proof fn law_declared_sodi_never_compiles(body: Seq<Stmt>, i: int, e: Expr)
    requires
        0 <= i < body.len(),
        body[i] == Stmt::Declare(e),
        shows(e, table_at(body, i), Clearance::Sodi),
    ensures
        body_diags(body).contains(disclosure_msg(Clearance::Sodi, Clearance::Public)),
{
    law_clearance_is_the_highest_shown(e, table_at(body, i), Clearance::Sodi);
    assert(clearance_at(body, i, e) == Clearance::Sodi);
    law_disclosure_never_compiles(body, i, e);
}

/// The walk over a program: the rule-changes it makes, its functions, and the
/// diagnostics found so far (only ever appended to).
struct Checker {
    law: Law,
    funcs: Vec<String>,
    diags: Vec<String>,
}

impl Checker {
    /// What the program's rule-changes allow, and its functions.
    spec fn lawv(&self) -> LawV {
        law_v(self.law, self.funcs@)
    }

    /// `b` has the rule-changes and functions of `a`.
    spec fn same_rules(a: &Checker, b: &Checker) -> bool {
        b.law == a.law && b.funcs == a.funcs
    }

    fn contested(&mut self, text: &str)
        ensures
            Self::same_rules(old(self), final(self)),
            views(final(self).diags@) == views(old(self).diags@) + contested_d(text@),
    {
        let ghost before = views(self.diags@);
        if is_contested_text(text) {
            self.diags.push(cat3(
                "E-CONTESTED: '",
                text,
                "' is a contested characterization; it cannot be stated as settled fact here.",
            ));
            assert(views(self.diags@) =~= before + contested_d(text@));
        } else {
            assert(views(self.diags@) =~= before + contested_d(text@));
        }
    }

    fn action(&mut self, verb: &str, gated: bool)
        ensures
            Self::same_rules(old(self), final(self)),
            views(final(self).diags@) == views(old(self).diags@) + action_d(verb@, gated, old(self).lawv()),
    {
        let ghost before = views(self.diags@);
        match action_diagnostic(verb, gated, &self.law) {
            Some(d) => {
                self.diags.push(d);
                assert(views(self.diags@) =~= before + action_d(verb@, gated, old(self).lawv()));
            },
            None => {
                assert(views(self.diags@) =~= before + action_d(verb@, gated, old(self).lawv()));
            },
        }
    }

    fn exprs(&mut self, args: &Vec<Expr>, gated: bool)
        ensures
            Self::same_rules(old(self), final(self)),
            views(final(self).diags@) == views(old(self).diags@) + exprs_d(args@, gated, old(self).lawv()),
        decreases args@, 1int,
    {
        let mut i: usize = 0;
        assert(args@.take(0) =~= Seq::<Expr>::empty());
        while i < args.len()
            invariant
                i <= args.len(),
                Self::same_rules(old(self), self),
                views(self.diags@) == views(old(self).diags@) + exprs_d(args@.take(i as int), gated, old(self).lawv()),
            decreases args.len() - i,
        {
            assert(args@.take(i + 1).subrange(0, i as int) =~= args@.take(i as int));
            assert(args@.take(i + 1)[i as int] == args@[i as int]);
            self.expr(&args[i], gated);
            i = i + 1;
        }
        assert(args@.take(args.len() as int) =~= args@);
    }

    fn expr(&mut self, e: &Expr, gated: bool)
        ensures
            Self::same_rules(old(self), final(self)),
            views(final(self).diags@) == views(old(self).diags@) + expr_d(*e, gated, old(self).lawv()),
        decreases *e, 2int,
    {
        match e {
            Expr::Var(name) => self.contested(name.as_str()),
            Expr::Str(s) => self.contested(s.as_str()),
            Expr::UnOp { expr, .. } => self.expr(expr, gated),
            Expr::BinOp { lhs, rhs, .. } => {
                self.expr(lhs, gated);
                self.expr(rhs, gated);
            },
            Expr::Call { name, args } => {
                let ghost before = views(self.diags@);
                if !contains_str(&self.funcs, name.as_str()) {
                    self.diags.push(cat3(
                        "E-UNKNOWNOP: '",
                        name.as_str(),
                        "' is not a recognized operation or defined function.",
                    ));
                    assert(views(self.diags@) =~= before + seq![unknown_msg(name@)]);
                }
                self.exprs(args, gated);
            },
            Expr::Read(inner) => self.expr(inner, gated),
            Expr::Cast { expr, .. } => self.expr(expr, gated),
            Expr::SelfDefense(inner) => self.expr(inner, gated),
            Expr::External(args) => self.exprs(args, gated),
            Expr::Via { inner, .. } => self.laundered(inner, gated),
            Expr::RegistryNew { rule, .. } => self.contested(rule.as_str()),
            Expr::Index { idx, .. } => self.expr(idx, gated),
            _ => {},
        }
    }

    /// The core of a laundered operation: an action verb applied to one target is checked
    /// as an action; anything else as an expression.
    fn laundered(&mut self, e: &Expr, gated: bool)
        ensures
            Self::same_rules(old(self), final(self)),
            views(final(self).diags@) == views(old(self).diags@) + laundered_d(*e, gated, old(self).lawv()),
        decreases *e, 3int,
    {
        match e {
            Expr::Via { inner, .. } => self.laundered(inner, gated),
            Expr::Call { name, args } => {
                if is_action_verb(name.as_str()) && args.len() == 1 {
                    self.action(name.as_str(), gated);
                    self.expr(&args[0], gated);
                } else {
                    self.expr(e, gated);
                }
            },
            _ => self.expr(e, gated),
        }
    }

    fn block(&mut self, stmts: &Vec<Stmt>, gated: bool, context: Clearance, tab: &mut Vec<(String, Clearance)>)
        ensures
            Self::same_rules(old(self), final(self)),
            views(final(self).diags@) == views(old(self).diags@)
                + block_walk(stmts@, gated, context, tab_view(old(tab)@), old(self).lawv()).0,
            tab_view(final(tab)@) == block_walk(stmts@, gated, context, tab_view(old(tab)@), old(self).lawv()).1,
        decreases stmts@, 1int,
    {
        let mut i: usize = 0;
        assert(stmts@.take(0) =~= Seq::<Stmt>::empty());
        while i < stmts.len()
            invariant
                i <= stmts.len(),
                Self::same_rules(old(self), self),
                views(self.diags@) == views(old(self).diags@)
                    + block_walk(stmts@.take(i as int), gated, context, tab_view(old(tab)@), old(self).lawv()).0,
                tab_view(tab@) == block_walk(stmts@.take(i as int), gated, context, tab_view(old(tab)@), old(self).lawv()).1,
            decreases stmts.len() - i,
        {
            assert(stmts@.take(i + 1).subrange(0, i as int) =~= stmts@.take(i as int));
            assert(stmts@.take(i + 1)[i as int] == stmts@[i as int]);
            self.stmt(&stmts[i], gated, context, tab);
            i = i + 1;
        }
        assert(stmts@.take(stmts.len() as int) =~= stmts@);
    }

    /// A deferred body (a function or a poly-statement arm): checked in a fresh scope,
    /// ungated, against the PUBLIC record.
    fn fresh_body(&mut self, body: &Vec<Stmt>)
        ensures
            Self::same_rules(old(self), final(self)),
            views(final(self).diags@) == views(old(self).diags@)
                + block_walk(body@, false, Clearance::Public, Seq::empty(), old(self).lawv()).0,
        decreases body@, 2int,
    {
        let mut inner: Vec<(String, Clearance)> = Vec::new();
        assert(tab_view(inner@) =~= Seq::<(Seq<char>, Clearance)>::empty());
        self.block(body, false, Clearance::Public, &mut inner);
    }

    /// The arms of a poly-statement, each a deferred body.
    fn arms(&mut self, arms: &Vec<(Audience, Vec<Stmt>)>)
        ensures
            Self::same_rules(old(self), final(self)),
            views(final(self).diags@) == views(old(self).diags@) + arms_walk(arms@, old(self).lawv()),
        decreases arms@, 1int,
    {
        let mut k: usize = 0;
        assert(arms@.take(0) =~= Seq::<(Audience, Vec<Stmt>)>::empty());
        while k < arms.len()
            invariant
                k <= arms.len(),
                Self::same_rules(old(self), self),
                views(self.diags@) == views(old(self).diags@) + arms_walk(arms@.take(k as int), old(self).lawv()),
            decreases arms.len() - k,
        {
            assert(arms@.take(k + 1).subrange(0, k as int) =~= arms@.take(k as int));
            assert(arms@.take(k + 1)[k as int] == arms@[k as int]);
            let (_, body) = &arms[k];
            assert(arms@[k as int].1 == *body);
            self.fresh_body(body);
            k = k + 1;
        }
        assert(arms@.take(arms.len() as int) =~= arms@);
    }

    #[verifier::rlimit(60)]
    fn stmt(&mut self, s: &Stmt, gated: bool, context: Clearance, tab: &mut Vec<(String, Clearance)>)
        ensures
            Self::same_rules(old(self), final(self)),
            views(final(self).diags@) == views(old(self).diags@)
                + stmt_walk(*s, gated, context, tab_view(old(tab)@), old(self).lawv()).0,
            tab_view(final(tab)@) == stmt_walk(*s, gated, context, tab_view(old(tab)@), old(self).lawv()).1,
        decreases *s, 3int,
    {
        match s {
            Stmt::Assign { var, value } => {
                self.contested(var.as_str());
                self.expr(value, gated);
                let c = clearance_of(value, tab);
                let ghost before = tab_view(tab@);
                tab.push((var.clone(), c));
                assert(tab_view(tab@) =~= before.push((var@, c)));
            },
            Stmt::Declare(e) => {
                self.expr(e, gated);
                let c = clearance_of(e, tab);
                let ghost before = views(self.diags@);
                if c.level() > context.level() {
                    self.diags.push(cat5(
                        "E-DISCLOSURE: declare(...) would force a ",
                        c.label(),
                        "-classified value into the ",
                        context.label(),
                        " record without a read() or a cast. Wrap it in read(...), a declassify cast, or (self_defense).",
                    ));
                    assert(views(self.diags@) =~= before + seq![disclosure_msg(c, context)]);
                }
            },
            Stmt::If { cond, then_body, else_body } => {
                self.expr(cond, gated);
                self.block(then_body, gated, context, tab);
                self.block(else_body, gated, context, tab);
            },
            Stmt::While { cond, body } => {
                self.expr(cond, gated);
                self.block(body, gated, context, tab);
            },
            Stmt::FuncDef { body, .. } => self.fresh_body(body),
            Stmt::Return(opt) => match opt {
                Some(e) => self.expr(e, gated),
                None => {},
            },
            Stmt::ExprStmt(e) => self.expr(e, gated),
            Stmt::Hasbara { body, .. } => self.block(body, true, context, tab),
            Stmt::Mossad { body } => self.block(body, true, Clearance::Sodi, tab),
            Stmt::Action { verb, target, .. } => {
                self.action(verb.as_str(), gated);
                self.contested(target.as_str());
            },
            Stmt::Bribe { amount, .. } => self.expr(amount, gated),
            Stmt::HumanShields { verb, target } => {
                match plain_suggestion(verb.as_str()) {
                    Some(_) => self.action(verb.as_str(), gated),
                    None => {},
                }
                self.contested(target.as_str());
            },
            Stmt::Proportionate { claim } => self.contested(claim.as_str()),
            Stmt::Deny { event } => self.contested(event.as_str()),
            Stmt::Investigate { subject } => self.contested(subject.as_str()),
            Stmt::Disputed { name, .. } => self.contested(name.as_str()),
            Stmt::Announce { text } => self.contested(text.as_str()),
            Stmt::Address { body, .. } => self.block(body, gated, context, tab),
            Stmt::PolyStatement { arms, .. } => self.arms(arms),
            Stmt::AllocateSlot { idx, value, .. } => {
                self.expr(idx, gated);
                self.expr(value, gated);
            },
            Stmt::Push { item, .. } => self.expr(item, gated),
            Stmt::Remove { item, .. } => self.expr(item, gated),
            _ => {},
        }
    }
}

/// Run all static checks and return the diagnostics (none: the program compiles). The
/// operation-name diagnostic, if any, comes first.
pub fn check(program: &Program) -> (r: Vec<String>)
    ensures
        (!names_honestly(program.op_name@) && sounds_grand(program.op_name@)) ==> views(r@) == body_diags(program.body@),
        !(!names_honestly(program.op_name@) && sounds_grand(program.op_name@)) ==> r@.len() > 0
            && views(r@).skip(1) == body_diags(program.body@),
        r@.len() == 0 ==> !names_honestly(program.op_name@) && sounds_grand(program.op_name@),
        names_honestly(program.op_name@) ==> r@.len() > 0 && exists|w: Seq<char>|
            first_honest(program.op_name@, w) && r@[0]@ == honest_msg(program.op_name@, w),
        !names_honestly(program.op_name@) && !sounds_grand(program.op_name@) ==> r@.len() > 0
            && r@[0]@ == bland_msg(program.op_name@),
{
    let mut law = Law { sanctioned: Vec::new(), gate_waived: false };
    let mut funcs: Vec<String> = Vec::new();
    assert(views(law.sanctioned@) =~= Seq::<Seq<char>>::empty());
    assert(views(funcs@) =~= Seq::<Seq<char>>::empty());
    collect_law(&program.body, &mut law, &mut funcs);
    let mut c = Checker { law, funcs, diags: Vec::new() };
    let name_diag = name_diagnostic(program.op_name.as_str());
    match name_diag {
        Some(d) => c.diags.push(d),
        None => {},
    }
    let ghost first = c.diags@;
    let mut tab: Vec<(String, Clearance)> = Vec::new();
    assert(tab_view(tab@) =~= Seq::<(Seq<char>, Clearance)>::empty());
    c.block(&program.body, false, Clearance::Public, &mut tab);
    assert(first.len() > 0 ==> views(c.diags@)[0] == views(first)[0]);
    assert(first.len() > 0 ==> views(c.diags@).skip(1) =~= body_diags(program.body@));
    assert(first.len() == 0 ==> views(c.diags@) =~= body_diags(program.body@));
    c.diags
}

} // verus!
