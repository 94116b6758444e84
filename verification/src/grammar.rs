//! The grammar of the language, as functions from a token stream and a position to what
//! is read there and where reading stops (`None`: no parse). Reading is deterministic and
//! left to right: one token of lookahead after a keyword or identifier, precedence
//! climbing for binary operators (all left-associative), and the end of input marked by
//! a final `Eof` token. Positions past the end read the last token.

use vstd::prelude::*;
use crate::ast::{binop_symbol, BinOp, ExprV, InertKind, Stance, StmtV, ToggleV, UnOp};
use crate::euphemism::{candid_of, suggestion_of};
use crate::lexer::{lex_spec, step, Step, TokV};
use crate::model::{Audience, Clearance, Jurisdiction, SODI};

verus! {

/// The token at `i`, clamped to the last one.
pub open spec fn tk(ts: Seq<(TokV, u32)>, i: int) -> TokV {
    if 0 <= i < ts.len() {
        ts[i].0
    } else if ts.len() > 0 {
        ts.last().0
    } else {
        TokV::Eof
    }
}

/// The position after reading one token (the last token is never passed).
pub open spec fn adv(ts: Seq<(TokV, u32)>, i: int) -> int {
    if i < ts.len() - 1 { i + 1 } else { i }
}

/// Reading went forward from `i` to `j` and stayed within the stream.
pub open spec fn fwd(ts: Seq<(TokV, u32)>, i: int, j: int) -> bool {
    i < j <= ts.len()
}

/// A number identifying the kind of a token (its payload ignored).
pub open spec fn tokv_kind(t: TokV) -> u8 {
    match t {
        TokV::Operation => 0,
        TokV::Str(_) => 1,
        TokV::EqEq => 2,
        TokV::Int(_) => 3,
        TokV::Ident(_) => 4,
        TokV::Comment(_) => 5,
        TokV::LParen => 6,
        TokV::RParen => 7,
        TokV::LBrace => 8,
        TokV::RBrace => 9,
        TokV::LBracket => 10,
        TokV::RBracket => 11,
        TokV::Comma => 12,
        TokV::Semi => 13,
        TokV::Colon => 14,
        TokV::Eq => 15,
        TokV::Ne => 16,
        TokV::Lt => 17,
        TokV::Le => 18,
        TokV::Gt => 19,
        TokV::Ge => 20,
        TokV::Plus => 21,
        TokV::Minus => 22,
        TokV::Star => 23,
        TokV::Slash => 24,
        TokV::Percent => 25,
        TokV::Bang => 26,
        TokV::AmpAmp => 27,
        TokV::PipePipe => 28,
        TokV::Eof => 29,
    }
}

/// Read one token of the kind of `want`.
pub open spec fn eat_at(ts: Seq<(TokV, u32)>, i: int, want: TokV) -> Option<int> {
    if tokv_kind(tk(ts, i)) == tokv_kind(want) { Some(adv(ts, i)) } else { None }
}

/// Read an identifier.
pub open spec fn ident_at(ts: Seq<(TokV, u32)>, i: int) -> Option<(Seq<char>, int)> {
    match tk(ts, i) {
        TokV::Ident(s) => Some((s, adv(ts, i))),
        _ => None,
    }
}

/// Read a string literal.
pub open spec fn string_at(ts: Seq<(TokV, u32)>, i: int) -> Option<(Seq<char>, int)> {
    match tk(ts, i) {
        TokV::Str(s) => Some((s, adv(ts, i))),
        _ => None,
    }
}

/// Read an integer literal.
pub open spec fn int_at(ts: Seq<(TokV, u32)>, i: int) -> Option<(i64, int)> {
    match tk(ts, i) {
        TokV::Int(v) => Some((v, adv(ts, i))),
        _ => None,
    }
}

// ─────────── expressions ───────────

/// The binary operator a token denotes at a precedence level: 5 is `||`, then `&&`,
/// equality, comparison, additive, and 0 multiplicative.
pub open spec fn op_at_level(level: int, t: TokV) -> Option<BinOp> {
    match t {
        TokV::PipePipe => if level == 5 { Some(BinOp::Or) } else { None },
        TokV::AmpAmp => if level == 4 { Some(BinOp::And) } else { None },
        TokV::EqEq => if level == 3 { Some(BinOp::Eq) } else { None },
        TokV::Ne => if level == 3 { Some(BinOp::Ne) } else { None },
        TokV::Lt => if level == 2 { Some(BinOp::Lt) } else { None },
        TokV::Le => if level == 2 { Some(BinOp::Le) } else { None },
        TokV::Gt => if level == 2 { Some(BinOp::Gt) } else { None },
        TokV::Ge => if level == 2 { Some(BinOp::Ge) } else { None },
        TokV::Plus => if level == 1 { Some(BinOp::Add) } else { None },
        TokV::Minus => if level == 1 { Some(BinOp::Sub) } else { None },
        TokV::Star => if level == 0 { Some(BinOp::Mul) } else { None },
        TokV::Slash => if level == 0 { Some(BinOp::Div) } else { None },
        TokV::Percent => if level == 0 { Some(BinOp::Mod) } else { None },
        _ => None,
    }
}

/// How tightly an operator binds: `||` 5, `&&` 4, `==` and `!=` 3, the orderings 2,
/// `+` and `-` 1, and `*`, `/`, `%` 0.
pub open spec fn precedence(op: BinOp) -> int {
    match op {
        BinOp::Or => 5,
        BinOp::And => 4,
        BinOp::Eq | BinOp::Ne => 3,
        BinOp::Lt | BinOp::Le | BinOp::Gt | BinOp::Ge => 2,
        BinOp::Add | BinOp::Sub => 1,
        BinOp::Mul | BinOp::Div | BinOp::Mod => 0,
    }
}

/// An operator's symbol may be followed by `c` without changing how it scans: only `<`
/// and `>` absorb a following `=`.
pub open spec fn stays_alone(op: BinOp, c: char) -> bool {
    !((op == BinOp::Lt || op == BinOp::Gt) && c == '=')
}

/// Each operator is read as itself. Wherever its symbol stands in a text (with `<` or `>`
/// not followed by `=`), the scanner reads the whole symbol as one token at once, and that
/// token denotes the operator at its precedence level; so `>=` is one `>=` token, never
/// `>`, and `!=` denotes inequality. Lexing the symbol alone gives that token and the end.
pub proof fn law_operator_symbol_scans_to_its_operator(op: BinOp, cs: Seq<char>, i: int, line: u32)
    requires
        0 <= i,
        i + binop_symbol(op).len() <= cs.len(),
        cs.subrange(i, i + binop_symbol(op).len()) == binop_symbol(op),
        i + binop_symbol(op).len() < cs.len() ==> stays_alone(op, cs[i + binop_symbol(op).len()]),
    ensures
        step(cs, i, line) matches Step::Emit(t, l, j) && l == line && j == i + binop_symbol(op).len()
            && op_at_level(precedence(op), t) == Some(op),
        lex_spec(binop_symbol(op)) matches Ok(ts) && ts.len() == 2 && ts[0].1 == 1 && ts[1] == (TokV::Eof, 1u32)
            && op_at_level(precedence(op), ts[0].0) == Some(op),
{
    lemma_symbol_chars(op);
    let sym = binop_symbol(op);
    assert(cs[i] == sym[0]);
    if sym.len() == 2 {
        assert(cs[i + 1] == sym[1]);
    }
    if let Step::Emit(t, l, j) = step(sym, 0, 1) {
        assert(l == 1 && j == sym.len() && op_at_level(precedence(op), t) == Some(op));
        assert(crate::lexer::lex_from(sym, j, l) == Ok::<Seq<(TokV, u32)>, (Seq<char>, u32)>(seq![(TokV::Eof, l)]));
        assert(crate::lexer::lex_from(sym, 0, 1) == Ok::<Seq<(TokV, u32)>, (Seq<char>, u32)>(
            seq![(t, l)] + seq![(TokV::Eof, l)],
        ));
        assert(seq![(t, l)] + seq![(TokV::Eof, l)] =~= seq![(t, 1u32), (TokV::Eof, 1u32)]);
    } else {
        assert(false);
    }
}

/// The characters of each operator symbol.
proof fn lemma_symbol_chars(op: BinOp)
    ensures
        binop_symbol(op) == match op {
            BinOp::Add => seq!['+'],
            BinOp::Sub => seq!['-'],
            BinOp::Mul => seq!['*'],
            BinOp::Div => seq!['/'],
            BinOp::Mod => seq!['%'],
            BinOp::Eq => seq!['=', '='],
            BinOp::Ne => seq!['!', '='],
            BinOp::Lt => seq!['<'],
            BinOp::Le => seq!['<', '='],
            BinOp::Gt => seq!['>'],
            BinOp::Ge => seq!['>', '='],
            BinOp::And => seq!['&', '&'],
            BinOp::Or => seq!['|', '|'],
        },
{
    reveal_strlit("+");
    reveal_strlit("-");
    reveal_strlit("*");
    reveal_strlit("/");
    reveal_strlit("%");
    reveal_strlit("==");
    reveal_strlit("!=");
    reveal_strlit("<");
    reveal_strlit("<=");
    reveal_strlit(">");
    reveal_strlit(">=");
    reveal_strlit("&&");
    reveal_strlit("||");
    match op {
        BinOp::Add => assert(binop_symbol(op) =~= seq!['+']),
        BinOp::Sub => assert(binop_symbol(op) =~= seq!['-']),
        BinOp::Mul => assert(binop_symbol(op) =~= seq!['*']),
        BinOp::Div => assert(binop_symbol(op) =~= seq!['/']),
        BinOp::Mod => assert(binop_symbol(op) =~= seq!['%']),
        BinOp::Eq => assert(binop_symbol(op) =~= seq!['=', '=']),
        BinOp::Ne => assert(binop_symbol(op) =~= seq!['!', '=']),
        BinOp::Lt => assert(binop_symbol(op) =~= seq!['<']),
        BinOp::Le => assert(binop_symbol(op) =~= seq!['<', '=']),
        BinOp::Gt => assert(binop_symbol(op) =~= seq!['>']),
        BinOp::Ge => assert(binop_symbol(op) =~= seq!['>', '=']),
        BinOp::And => assert(binop_symbol(op) =~= seq!['&', '&']),
        BinOp::Or => assert(binop_symbol(op) =~= seq!['|', '|']),
    }
}

/// No two tokens denote the same operator: a token denotes an operator only at that
/// operator's precedence level, and it is then the very token that the operator's symbol
/// scans to. So `==` and `!=`, `<` and `<=`, `>` and `>=` are told apart.
pub proof fn law_operator_tokens_are_distinct(level: int, t: TokV, u: TokV, op: BinOp)
    ensures
        op_at_level(level, t) == Some(op) ==> level == precedence(op) && lex_spec(binop_symbol(op)) == Ok::<
            Seq<(TokV, u32)>,
            (Seq<char>, u32),
        >(seq![(t, 1u32), (TokV::Eof, 1u32)]),
        op_at_level(level, t) == Some(op) && op_at_level(level, u) == Some(op) ==> t == u,
{
    assert(binop_symbol(op).subrange(0, binop_symbol(op).len() as int) =~= binop_symbol(op));
    law_operator_symbol_scans_to_its_operator(op, binop_symbol(op), 0, 1);
    if op_at_level(level, t) == Some(op) {
        let ts = lex_spec(binop_symbol(op))->Ok_0;
        assert(ts =~= seq![(t, 1u32), (TokV::Eof, 1u32)]);
    }
}

/// An integer literal followed by a token that is no operator at or below `level` reads,
/// at `level`, as that literal alone.
proof fn lemma_int_operand(ts: Seq<(TokV, u32)>, i: int, level: int, v: i64)
    requires
        0 <= i,
        i + 1 < ts.len(),
        tk(ts, i) == TokV::Int(v),
        0 <= level <= 5,
        forall|lv: int| 0 <= lv <= level ==> #[trigger] op_at_level(lv, tk(ts, i + 1)) is None,
    ensures
        binary_at(ts, i, level) == Some((ExprV::Int(v), i + 1)),
    decreases level,
{
    if level == 0 {
        assert(adv(ts, i) == i + 1);
        assert(primary_at(ts, i) == Some((ExprV::Int(v), i + 1)));
        assert(unary_at(ts, i) == Some((ExprV::Int(v), i + 1)));
        assert(op_at_level(0, tk(ts, i + 1)) is None);
    } else {
        lemma_int_operand(ts, i, level - 1, v);
        assert(op_at_level(level, tk(ts, i + 1)) is None);
    }
    assert(binary_rest(ts, i + 1, level, ExprV::Int(v)) == Some((ExprV::Int(v), i + 1)));
}

/// Once a level has read `e` up to the final token, each looser level reads `e` too.
proof fn lemma_looser_levels(ts: Seq<(TokV, u32)>, level: int, top: int, e: ExprV, end: int)
    requires
        0 <= level <= top <= 5,
        0 < end == ts.len() - 1,
        ts[end].0 == TokV::Eof,
        binary_at(ts, 0, level) == Some((e, end)),
    ensures
        binary_at(ts, 0, top) == Some((e, end)),
    decreases top - level,
{
    if level < top {
        assert(tk(ts, end) == TokV::Eof);
        assert(binary_rest(ts, end, level + 1, e) == Some((e, end)));
        assert(binary_at(ts, 0, level + 1) == Some((e, end)));
        lemma_looser_levels(ts, level + 1, top, e, end);
    }
}

/// A token that denotes an operator reads, between two integer literals, as that operator
/// applied to them, with the literals on the sides where they stand: `a != b` is an
/// inequality and `a >= b` a greater-or-equal, never another operator.
pub proof fn law_binary_expression_reads_its_operator(ts: Seq<(TokV, u32)>, op: BinOp, a: i64, b: i64)
    requires
        ts.len() == 4,
        ts[0].0 == TokV::Int(a),
        op_at_level(precedence(op), ts[1].0) == Some(op),
        ts[2].0 == TokV::Int(b),
        ts[3].0 == TokV::Eof,
    ensures
        expr_at(ts, 0) == Some((ExprV::BinOp { op, lhs: Box::new(ExprV::Int(a)), rhs: Box::new(ExprV::Int(b)) }, 3int)),
{
    let p = precedence(op);
    let t = ts[1].0;
    assert(tk(ts, 1) == t);
    assert forall|lv: int| 0 <= lv < p implies #[trigger] op_at_level(lv, tk(ts, 1)) is None by {
        assert(op_at_level(p, t) == Some(op));
    };
    assert forall|lv: int| 0 <= lv <= 5 implies #[trigger] op_at_level(lv, tk(ts, 3)) is None by {
        assert(tk(ts, 3) == TokV::Eof);
    };
    let e = ExprV::BinOp { op, lhs: Box::new(ExprV::Int(a)), rhs: Box::new(ExprV::Int(b)) };
    assert(tk(ts, 2) == TokV::Int(b));
    assert(tk(ts, 0) == TokV::Int(a));
    if p == 0 {
        assert(primary_at(ts, 0) == Some((ExprV::Int(a), 1int)));
        assert(unary_at(ts, 0) == Some((ExprV::Int(a), 1int)));
        assert(adv(ts, 2) == 3);
        assert(primary_at(ts, 2) == Some((ExprV::Int(b), 3int)));
        assert(unary_at(ts, 2) == Some((ExprV::Int(b), 3int)));
    } else {
        lemma_int_operand(ts, 0, p - 1, a);
        lemma_int_operand(ts, 2, p - 1, b);
    }
    assert(tk(ts, 3) == TokV::Eof);
    assert(binary_rest(ts, 3, p, e) == Some((e, 3int)));
    assert(binary_rest(ts, 1, p, ExprV::Int(a)) == Some((e, 3int)));
    assert(binary_at(ts, 0, p) == Some((e, 3int)));
    lemma_looser_levels(ts, p, 5, e, 3);
}

/// The four cast-prefix keywords: the three clearance levels plus `self_defense`.
pub open spec fn cast_keyword(kw: Seq<char>) -> bool {
    kw == "PUBLIC"@ || kw == "RESTRICTED"@ || kw == SODI@ || kw == "self_defense"@
}

/// `( kw )` at `i`, with `kw` a cast keyword and at least one token after it.
pub open spec fn cast_ahead_at(ts: Seq<(TokV, u32)>, i: int) -> Option<Seq<char>> {
    if !(tk(ts, i) is LParen) || ts.len() - i <= 3 {
        None
    } else {
        match tk(ts, i + 1) {
            TokV::Ident(kw) => if cast_keyword(kw) && tk(ts, i + 2) is RParen { Some(kw) } else { None },
            _ => None,
        }
    }
}

/// The expression a cast keyword builds around its operand.
pub open spec fn cast_of(kw: Seq<char>, operand: ExprV) -> ExprV {
    if kw == "PUBLIC"@ {
        ExprV::Cast { target: Clearance::Public, expr: Box::new(operand) }
    } else if kw == "RESTRICTED"@ {
        ExprV::Cast { target: Clearance::Restricted, expr: Box::new(operand) }
    } else if kw == "self_defense"@ {
        ExprV::SelfDefense(Box::new(operand))
    } else {
        ExprV::Cast { target: Clearance::Sodi, expr: Box::new(operand) }
    }
}

/// An expression: the loosest precedence level.
pub open spec fn expr_at(ts: Seq<(TokV, u32)>, i: int) -> Option<(ExprV, int)>
    decreases ts.len() - i, 10int,
{
    binary_at(ts, i, 5)
}

/// One precedence level: an operand of the next tighter level, then any number of
/// `op operand` pairs of this level, grouped to the left.
pub open spec fn binary_at(ts: Seq<(TokV, u32)>, i: int, level: int) -> Option<(ExprV, int)>
    decreases ts.len() - i, level + 4,
{
    if level < 0 || level > 5 {
        None
    } else {
        let first = if level == 0 { unary_at(ts, i) } else { binary_at(ts, i, level - 1) };
        match first {
            Some((lhs, j)) => if fwd(ts, i, j) { binary_rest(ts, j, level, lhs) } else { None },
            None => None,
        }
    }
}

/// The `op operand` pairs of a precedence level after `lhs`.
pub open spec fn binary_rest(ts: Seq<(TokV, u32)>, j: int, level: int, lhs: ExprV) -> Option<(ExprV, int)>
    decreases ts.len() - j, level + 4,
{
    if level < 0 || level > 5 {
        None
    } else {
        match op_at_level(level, tk(ts, j)) {
            Some(op) => {
                let k = adv(ts, j);
                if !fwd(ts, j, k) {
                    None
                } else {
                    let second = if level == 0 { unary_at(ts, k) } else { binary_at(ts, k, level - 1) };
                    match second {
                        Some((rhs, m)) => if fwd(ts, k, m) {
                            binary_rest(ts, m, level, ExprV::BinOp { op, lhs: Box::new(lhs), rhs: Box::new(rhs) })
                        } else {
                            None
                        },
                        None => None,
                    }
                }
            },
            None => Some((lhs, j)),
        }
    }
}

/// `-e`, `!e`, or a primary expression.
pub open spec fn unary_at(ts: Seq<(TokV, u32)>, i: int) -> Option<(ExprV, int)>
    decreases ts.len() - i, 3int,
{
    if tk(ts, i) is Minus || tk(ts, i) is Bang {
        let k = adv(ts, i);
        if !fwd(ts, i, k) {
            None
        } else {
            match unary_at(ts, k) {
                Some((e, m)) => Some((
                    ExprV::UnOp { op: if tk(ts, i) is Minus { UnOp::Neg } else { UnOp::Not }, expr: Box::new(e) },
                    m,
                )),
                None => None,
            }
        }
    } else {
        primary_at(ts, i)
    }
}

/// An expression followed by `)`.
pub open spec fn closed_expr_at(ts: Seq<(TokV, u32)>, i: int, k: int) -> Option<(ExprV, int)>
    decreases ts.len() - i, 1int,
{
    if !fwd(ts, i, k) {
        None
    } else {
        match expr_at(ts, k) {
            Some((e, m)) => match eat_at(ts, m, TokV::RParen) {
                Some(n) => Some((e, n)),
                None => None,
            },
            None => None,
        }
    }
}

/// An argument list followed by `)`.
pub open spec fn closed_args_at(ts: Seq<(TokV, u32)>, i: int, k: int) -> Option<(Seq<ExprV>, int)>
    decreases ts.len() - i, 1int,
{
    if !fwd(ts, i, k) {
        None
    } else {
        match args_at(ts, k) {
            Some((a, m)) => match eat_at(ts, m, TokV::RParen) {
                Some(n) => Some((a, n)),
                None => None,
            },
            None => None,
        }
    }
}

/// The built-in forms whose operand list starts with a collection name.
pub open spec fn coll_builtin(name: Seq<char>) -> bool {
    name == "balanced"@ || name == "length"@ || name == "equal_before_the_law"@
}

/// A literal, a parenthesised expression, a cast, a variable, a built-in form or a call.
pub open spec fn primary_at(ts: Seq<(TokV, u32)>, i: int) -> Option<(ExprV, int)>
    decreases ts.len() - i, 2int,
{
    match tk(ts, i) {
        TokV::Int(v) => Some((ExprV::Int(v), adv(ts, i))),
        TokV::Str(s) => Some((ExprV::Str(s), adv(ts, i))),
        TokV::LParen => match cast_ahead_at(ts, i) {
            Some(kw) => {
                let k = adv(ts, adv(ts, adv(ts, i)));
                if !fwd(ts, i, k) {
                    None
                } else {
                    match unary_at(ts, k) {
                        Some((operand, m)) => Some((cast_of(kw, operand), m)),
                        None => None,
                    }
                }
            },
            None => closed_expr_at(ts, i, adv(ts, i)),
        },
        TokV::Ident(name) => {
            let k = adv(ts, i);
            if name == "true"@ {
                Some((ExprV::Bool(true), k))
            } else if name == "false"@ {
                Some((ExprV::Bool(false), k))
            } else if !(tk(ts, k) is LParen) {
                Some((ExprV::Var(name), k))
            } else {
                let k2 = adv(ts, k);
                if name == "read"@ {
                    match closed_expr_at(ts, i, k2) {
                        Some((e, n)) => Some((ExprV::Read(Box::new(e)), n)),
                        None => None,
                    }
                } else if name == "external"@ {
                    match closed_args_at(ts, i, k2) {
                        Some((a, n)) => Some((ExprV::External(a), n)),
                        None => None,
                    }
                } else if name == "via"@ || name == "index"@ {
                    match ident_at(ts, k2) {
                        Some((first, a)) => match eat_at(ts, a, TokV::Comma) {
                            Some(b) => match closed_expr_at(ts, i, b) {
                                Some((e, n)) => Some((
                                    if name == "via"@ {
                                        ExprV::Via { proxy: first, inner: Box::new(e) }
                                    } else {
                                        ExprV::Index { coll: first, idx: Box::new(e) }
                                    },
                                    n,
                                )),
                                None => None,
                            },
                            None => None,
                        },
                        None => None,
                    }
                } else if name == "route"@ {
                    match ident_at(ts, k2) {
                        Some((coll, a)) => match eat_at(ts, a, TokV::Comma) {
                            Some(b) => match ident_at(ts, b) {
                                Some((case, c)) => match eat_at(ts, c, TokV::RParen) {
                                    Some(n) => Some((ExprV::Route { coll, case }, n)),
                                    None => None,
                                },
                                None => None,
                            },
                            None => None,
                        },
                        None => None,
                    }
                } else if coll_builtin(name) {
                    match ident_at(ts, k2) {
                        Some((coll, a)) => match eat_at(ts, a, TokV::RParen) {
                            Some(n) => Some((
                                if name == "balanced"@ {
                                    ExprV::Balanced { coll }
                                } else if name == "length"@ {
                                    ExprV::Length { coll }
                                } else {
                                    ExprV::EqualBeforeLaw { coll }
                                },
                                n,
                            )),
                            None => None,
                        },
                        None => None,
                    }
                } else {
                    match closed_args_at(ts, i, k2) {
                        Some((a, n)) => Some((ExprV::Call { name, args: a }, n)),
                        None => None,
                    }
                }
            }
        },
        _ => None,
    }
}

/// A comma-separated argument list, possibly empty (it then ends before `)`).
pub open spec fn args_at(ts: Seq<(TokV, u32)>, i: int) -> Option<(Seq<ExprV>, int)>
    decreases ts.len() - i, 12int,
{
    if tk(ts, i) is RParen {
        Some((Seq::empty(), i))
    } else {
        args_rest(ts, i, Seq::empty())
    }
}

/// The arguments from `j` on, after those already read.
pub open spec fn args_rest(ts: Seq<(TokV, u32)>, j: int, acc: Seq<ExprV>) -> Option<(Seq<ExprV>, int)>
    decreases ts.len() - j, 11int,
{
    match expr_at(ts, j) {
        Some((e, k)) => if tk(ts, k) is Comma {
            let m = adv(ts, k);
            if fwd(ts, j, m) { args_rest(ts, m, acc.push(e)) } else { None }
        } else {
            Some((acc.push(e), k))
        },
        None => None,
    }
}

// ─────────── statements ───────────

/// The verbs that denote an operation: sanctioned, or plain.
pub open spec fn action_verb(name: Seq<char>) -> bool {
    candid_of(name) is Some || suggestion_of(name) is Some
}

/// The built-in expression forms that may also stand as a statement.
pub open spec fn builtin_expr_word(k: Seq<char>) -> bool {
    k == "via"@ || k == "read"@ || k == "external"@ || k == "index"@ || k == "route"@ || k == "balanced"@
        || k == "length"@ || k == "equal_before_the_law"@
}

/// `kw ( ident ) ;`: the identifier.
pub open spec fn kw_one_ident_at(ts: Seq<(TokV, u32)>, i: int) -> Option<(Seq<char>, int)> {
    match eat_at(ts, adv(ts, i), TokV::LParen) {
        Some(a) => match ident_at(ts, a) {
            Some((x, b)) => match eat_at(ts, b, TokV::RParen) {
                Some(c) => match eat_at(ts, c, TokV::Semi) {
                    Some(d) => Some((x, d)),
                    None => None,
                },
                None => None,
            },
            None => None,
        },
        None => None,
    }
}

/// `kw ( ) ;`
pub open spec fn kw_no_arg_at(ts: Seq<(TokV, u32)>, i: int) -> Option<int> {
    match eat_at(ts, adv(ts, i), TokV::LParen) {
        Some(a) => match eat_at(ts, a, TokV::RParen) {
            Some(b) => eat_at(ts, b, TokV::Semi),
            None => None,
        },
        None => None,
    }
}

/// `kw ;`
pub open spec fn kw_bare_at(ts: Seq<(TokV, u32)>, i: int) -> Option<int> {
    eat_at(ts, adv(ts, i), TokV::Semi)
}

/// `let name = …;`: a coalition allocation, a settlement, a commission, or a collection
/// constructor (`apportionment[N]`, `facts_on_the_ground()`, `registry("rule")`).
pub open spec fn let_at(ts: Seq<(TokV, u32)>, i: int) -> Option<(StmtV, int)> {
    match ident_at(ts, adv(ts, i)) {
        Some((name, b)) => match eat_at(ts, b, TokV::Eq) {
            Some(c) => match ident_at(ts, c) {
                Some((k, d)) => if k == "apportionment"@ {
                    match eat_at(ts, d, TokV::LBracket) {
                        Some(e) => match int_at(ts, e) {
                            Some((size, f)) => match eat_at(ts, f, TokV::RBracket) {
                                Some(g) => match eat_at(ts, g, TokV::Semi) {
                                    Some(h) => Some((
                                        StmtV::Assign { var: name, value: ExprV::Apportionment { label: name, size } },
                                        h,
                                    )),
                                    None => None,
                                },
                                None => None,
                            },
                            None => None,
                        },
                        None => None,
                    }
                } else if k == "facts_on_the_ground"@ {
                    match eat_at(ts, d, TokV::LParen) {
                        Some(e) => match eat_at(ts, e, TokV::RParen) {
                            Some(f) => match eat_at(ts, f, TokV::Semi) {
                                Some(g) => Some((StmtV::Assign { var: name, value: ExprV::FactsNew { label: name } }, g)),
                                None => None,
                            },
                            None => None,
                        },
                        None => None,
                    }
                } else if k == "registry"@ {
                    match eat_at(ts, d, TokV::LParen) {
                        Some(e) => match string_at(ts, e) {
                            Some((rule, f)) => match eat_at(ts, f, TokV::RParen) {
                                Some(g) => match eat_at(ts, g, TokV::Semi) {
                                    Some(h) => Some((
                                        StmtV::Assign { var: name, value: ExprV::RegistryNew { label: name, rule } },
                                        h,
                                    )),
                                    None => None,
                                },
                                None => None,
                            },
                            None => None,
                        },
                        None => None,
                    }
                } else {
                    match eat_at(ts, d, TokV::LParen) {
                        Some(e) => match ident_at(ts, e) {
                            Some((what, f)) => match eat_at(ts, f, TokV::RParen) {
                                Some(g) => match eat_at(ts, g, TokV::Semi) {
                                    Some(h) => if k == "allocate"@ {
                                        Some((StmtV::Allocate { name, what }, h))
                                    } else if k == "settlement"@ {
                                        Some((StmtV::Settlement { name, what }, h))
                                    } else if k == "establish_commission"@ {
                                        Some((StmtV::EstablishCommission { name, subject: what }, h))
                                    } else {
                                        None
                                    },
                                    None => None,
                                },
                                None => None,
                            },
                            None => None,
                        },
                        None => None,
                    }
                },
                None => None,
            },
            None => None,
        },
        None => None,
    }
}

/// `disputed(name, official, actual);`
pub open spec fn disputed_at(ts: Seq<(TokV, u32)>, i: int) -> Option<(StmtV, int)> {
    match eat_at(ts, adv(ts, i), TokV::LParen) {
        Some(a) => match ident_at(ts, a) {
            Some((name, b)) => match eat_at(ts, b, TokV::Comma) {
                Some(c) => match int_at(ts, c) {
                    Some((official, d)) => match eat_at(ts, d, TokV::Comma) {
                        Some(e) => match int_at(ts, e) {
                            Some((actual, f)) => match eat_at(ts, f, TokV::RParen) {
                                Some(g) => match eat_at(ts, g, TokV::Semi) {
                                    Some(h) => Some((StmtV::Disputed { name, official, actual }, h)),
                                    None => None,
                                },
                                None => None,
                            },
                            None => None,
                        },
                        None => None,
                    },
                    None => None,
                },
                None => None,
            },
            None => None,
        },
        None => None,
    }
}

/// `human_shields(verb(target));`
pub open spec fn human_shields_at(ts: Seq<(TokV, u32)>, i: int) -> Option<(StmtV, int)> {
    match eat_at(ts, adv(ts, i), TokV::LParen) {
        Some(a) => match ident_at(ts, a) {
            Some((verb, b)) => match eat_at(ts, b, TokV::LParen) {
                Some(c) => match ident_at(ts, c) {
                    Some((target, d)) => match eat_at(ts, d, TokV::RParen) {
                        Some(e) => match eat_at(ts, e, TokV::RParen) {
                            Some(f) => match eat_at(ts, f, TokV::Semi) {
                                Some(g) => Some((StmtV::HumanShields { verb, target }, g)),
                                None => None,
                            },
                            None => None,
                        },
                        None => None,
                    },
                    None => None,
                },
                None => None,
            },
            None => None,
        },
        None => None,
    }
}

/// `announce "…";`
pub open spec fn announce_at(ts: Seq<(TokV, u32)>, i: int) -> Option<(StmtV, int)> {
    match string_at(ts, adv(ts, i)) {
        Some((text, a)) => match eat_at(ts, a, TokV::Semi) {
            Some(b) => Some((StmtV::Announce { text }, b)),
            None => None,
        },
        None => None,
    }
}

/// `domestic` or `international`.
pub open spec fn audience_at(ts: Seq<(TokV, u32)>, i: int) -> Option<(Audience, int)> {
    match ident_at(ts, i) {
        Some((w, a)) => if w == "domestic"@ {
            Some((Audience::Domestic, a))
        } else if w == "international"@ {
            Some((Audience::International, a))
        } else {
            None
        },
        None => None,
    }
}

/// `legislate(retroactively_sanction: verb);`, `legislate(expunge_last_discrepancy);` or
/// `legislate(waive_gate);`
pub open spec fn legislate_at(ts: Seq<(TokV, u32)>, i: int) -> Option<(StmtV, int)> {
    match eat_at(ts, adv(ts, i), TokV::LParen) {
        Some(a) => match ident_at(ts, a) {
            Some((w, b)) => {
                let toggle: Option<(ToggleV, int)> = if w == "retroactively_sanction"@ {
                    match eat_at(ts, b, TokV::Colon) {
                        Some(c) => match ident_at(ts, c) {
                            Some((verb, d)) => Some((ToggleV::RetroactivelySanction(verb), d)),
                            None => None,
                        },
                        None => None,
                    }
                } else if w == "expunge_last_discrepancy"@ {
                    Some((ToggleV::ExpungeLastDiscrepancy, b))
                } else if w == "waive_gate"@ {
                    Some((ToggleV::WaiveGate, b))
                } else {
                    None
                };
                match toggle {
                    Some((t, d)) => match eat_at(ts, d, TokV::RParen) {
                        Some(e) => match eat_at(ts, e, TokV::Semi) {
                            Some(f) => Some((StmtV::Legislate { toggle: t }, f)),
                            None => None,
                        },
                        None => None,
                    },
                    None => None,
                }
            },
            None => None,
        },
        None => None,
    }
}

/// `kw(a, b);` with two identifiers.
pub open spec fn two_idents_at(ts: Seq<(TokV, u32)>, i: int) -> Option<(Seq<char>, Seq<char>, int)> {
    match eat_at(ts, adv(ts, i), TokV::LParen) {
        Some(a) => match ident_at(ts, a) {
            Some((x, b)) => match eat_at(ts, b, TokV::Comma) {
                Some(c) => match ident_at(ts, c) {
                    Some((y, d)) => match eat_at(ts, d, TokV::RParen) {
                        Some(e) => match eat_at(ts, e, TokV::Semi) {
                            Some(f) => Some((x, y, f)),
                            None => None,
                        },
                        None => None,
                    },
                    None => None,
                },
                None => None,
            },
            None => None,
        },
        None => None,
    }
}

/// `classify(r, case, military|civilian);`
pub open spec fn classify_at(ts: Seq<(TokV, u32)>, i: int) -> Option<(StmtV, int)> {
    match eat_at(ts, adv(ts, i), TokV::LParen) {
        Some(a) => match ident_at(ts, a) {
            Some((coll, b)) => match eat_at(ts, b, TokV::Comma) {
                Some(c) => match ident_at(ts, c) {
                    Some((case, d)) => match eat_at(ts, d, TokV::Comma) {
                        Some(e) => match ident_at(ts, e) {
                            Some((j, f)) => {
                                let jur: Option<Jurisdiction> = if j == "military"@ {
                                    Some(Jurisdiction::Military)
                                } else if j == "civilian"@ {
                                    Some(Jurisdiction::Civilian)
                                } else {
                                    None
                                };
                                match jur {
                                    Some(jurisdiction) => match eat_at(ts, f, TokV::RParen) {
                                        Some(g) => match eat_at(ts, g, TokV::Semi) {
                                            Some(h) => Some((StmtV::Classify { coll, case, jurisdiction }, h)),
                                            None => None,
                                        },
                                        None => None,
                                    },
                                    None => None,
                                }
                            },
                            None => None,
                        },
                        None => None,
                    },
                    None => None,
                },
                None => None,
            },
            None => None,
        },
        None => None,
    }
}

/// A parameter list: identifiers separated by commas.
pub open spec fn params_at(ts: Seq<(TokV, u32)>, j: int, acc: Seq<Seq<char>>) -> Option<(Seq<Seq<char>>, int)>
    decreases ts.len() - j,
{
    match ident_at(ts, j) {
        Some((p, k)) => if tk(ts, k) is Comma {
            let m = adv(ts, k);
            if fwd(ts, j, m) { params_at(ts, m, acc.push(p)) } else { None }
        } else {
            Some((acc.push(p), k))
        },
        None => None,
    }
}

/// An expression followed by `;`, read from `k` (past the keyword at `i`).
pub open spec fn expr_semi_at(ts: Seq<(TokV, u32)>, i: int, k: int) -> Option<(ExprV, int)>
    decreases ts.len() - i, 18int,
{
    if !fwd(ts, i, k) {
        None
    } else {
        match expr_at(ts, k) {
            Some((e, m)) => match eat_at(ts, m, TokV::Semi) {
                Some(n) => Some((e, n)),
                None => None,
            },
            None => None,
        }
    }
}

/// An expression followed by `) ;`, read from `k` (past the keyword at `i`).
pub open spec fn expr_close_semi_at(ts: Seq<(TokV, u32)>, i: int, k: int) -> Option<(ExprV, int)>
    decreases ts.len() - i, 18int,
{
    match closed_expr_at(ts, i, k) {
        Some((e, m)) => match eat_at(ts, m, TokV::Semi) {
            Some(n) => Some((e, n)),
            None => None,
        },
        None => None,
    }
}

/// A block read from `k` (past what opened it at `i`).
pub open spec fn block_from(ts: Seq<(TokV, u32)>, i: int, k: int) -> Option<(Seq<StmtV>, int)>
    decreases ts.len() - i, 18int,
{
    if fwd(ts, i, k) { block_at(ts, k) } else { None }
}

/// `name ( args ) ;`: an operation with a single target entity when `name` is an action
/// verb (anything else is refused), otherwise a call.
pub open spec fn call_or_action_at(ts: Seq<(TokV, u32)>, i: int) -> Option<(StmtV, int)>
    decreases ts.len() - i, 19int,
{
    match ident_at(ts, i) {
        Some((name, a)) => match eat_at(ts, a, TokV::LParen) {
            Some(b) => match closed_args_at(ts, i, b) {
                Some((args, c)) => match eat_at(ts, c, TokV::Semi) {
                    Some(d) => if action_verb(name) {
                        if args.len() == 1 && args[0] is Var {
                            Some((StmtV::Action { verb: name, target: args[0]->Var_0, self_defense: false }, d))
                        } else {
                            None
                        }
                    } else {
                        Some((StmtV::ExprStmt(ExprV::Call { name, args }), d))
                    },
                    None => None,
                },
                None => None,
            },
            None => None,
        },
        None => None,
    }
}

/// `(self_defense) <action>;`
pub open spec fn self_defense_at(ts: Seq<(TokV, u32)>, i: int) -> Option<(StmtV, int)>
    decreases ts.len() - i, 19int,
{
    match eat_at(ts, i, TokV::LParen) {
        Some(a) => match ident_at(ts, a) {
            Some((name, b)) => match eat_at(ts, b, TokV::RParen) {
                Some(c) => if name != "self_defense"@ || !fwd(ts, i, c) {
                    None
                } else {
                    match call_or_action_at(ts, c) {
                        Some((StmtV::Action { verb, target, .. }, d)) => Some((
                            StmtV::Action { verb, target, self_defense: true },
                            d,
                        )),
                        _ => None,
                    }
                },
                None => None,
            },
            None => None,
        },
        None => None,
    }
}

/// `if ( cond ) { … }`, optionally followed by `else { … }`.
pub open spec fn if_at(ts: Seq<(TokV, u32)>, i: int) -> Option<(StmtV, int)>
    decreases ts.len() - i, 19int,
{
    match eat_at(ts, adv(ts, i), TokV::LParen) {
        Some(b) => match closed_expr_at(ts, i, b) {
            Some((cond, d)) => match block_from(ts, i, d) {
                Some((then_body, e)) => if tk(ts, e) == TokV::Ident("else"@) {
                    match block_from(ts, i, adv(ts, e)) {
                        Some((else_body, g)) => Some((StmtV::If { cond, then_body, else_body }, g)),
                        None => None,
                    }
                } else {
                    Some((StmtV::If { cond, then_body, else_body: Seq::empty() }, e))
                },
                None => None,
            },
            None => None,
        },
        None => None,
    }
}

/// `while ( cond ) { … }`
pub open spec fn while_at(ts: Seq<(TokV, u32)>, i: int) -> Option<(StmtV, int)>
    decreases ts.len() - i, 19int,
{
    match eat_at(ts, adv(ts, i), TokV::LParen) {
        Some(b) => match closed_expr_at(ts, i, b) {
            Some((cond, d)) => match block_from(ts, i, d) {
                Some((body, e)) => Some((StmtV::While { cond, body }, e)),
                None => None,
            },
            None => None,
        },
        None => None,
    }
}

/// `func name ( params ) { … }`
pub open spec fn func_at(ts: Seq<(TokV, u32)>, i: int) -> Option<(StmtV, int)>
    decreases ts.len() - i, 19int,
{
    match ident_at(ts, adv(ts, i)) {
        Some((name, b)) => match eat_at(ts, b, TokV::LParen) {
            Some(c) => {
                let params: Option<(Seq<Seq<char>>, int)> = if tk(ts, c) is RParen {
                    Some((Seq::empty(), c))
                } else {
                    params_at(ts, c, Seq::empty())
                };
                match params {
                    Some((ps, d)) => match eat_at(ts, d, TokV::RParen) {
                        Some(e) => match block_from(ts, i, e) {
                            Some((body, f)) => Some((StmtV::FuncDef { name, params: ps, body }, f)),
                            None => None,
                        },
                        None => None,
                    },
                    None => None,
                }
            },
            None => None,
        },
        None => None,
    }
}

/// `return;` or `return e;`
pub open spec fn return_at(ts: Seq<(TokV, u32)>, i: int) -> Option<(StmtV, int)>
    decreases ts.len() - i, 19int,
{
    let a = adv(ts, i);
    if tk(ts, a) is Semi {
        Some((StmtV::Return(None), adv(ts, a)))
    } else {
        match expr_semi_at(ts, i, a) {
            Some((e, b)) => Some((StmtV::Return(Some(e)), b)),
            None => None,
        }
    }
}

/// `declare(e);` (or its alias `assert(e);`)
pub open spec fn declare_at(ts: Seq<(TokV, u32)>, i: int) -> Option<(StmtV, int)>
    decreases ts.len() - i, 19int,
{
    match eat_at(ts, adv(ts, i), TokV::LParen) {
        Some(b) => match expr_close_semi_at(ts, i, b) {
            Some((e, c)) => Some((StmtV::Declare(e), c)),
            None => None,
        },
        None => None,
    }
}

/// `bribe(name, amount);`
pub open spec fn bribe_at(ts: Seq<(TokV, u32)>, i: int) -> Option<(StmtV, int)>
    decreases ts.len() - i, 19int,
{
    match eat_at(ts, adv(ts, i), TokV::LParen) {
        Some(a) => match ident_at(ts, a) {
            Some((name, b)) => match eat_at(ts, b, TokV::Comma) {
                Some(c) => match expr_close_semi_at(ts, i, c) {
                    Some((amount, d)) => Some((StmtV::Bribe { name, amount }, d)),
                    None => None,
                },
                None => None,
            },
            None => None,
        },
        None => None,
    }
}

/// `address(audience) { … }`
pub open spec fn address_at(ts: Seq<(TokV, u32)>, i: int) -> Option<(StmtV, int)>
    decreases ts.len() - i, 19int,
{
    match eat_at(ts, adv(ts, i), TokV::LParen) {
        Some(a) => match audience_at(ts, a) {
            Some((audience, b)) => match eat_at(ts, b, TokV::RParen) {
                Some(c) => match block_from(ts, i, c) {
                    Some((body, d)) => Some((StmtV::Address { audience, body }, d)),
                    None => None,
                },
                None => None,
            },
            None => None,
        },
        None => None,
    }
}

/// `statement name { to X { … } … }`
pub open spec fn poly_at(ts: Seq<(TokV, u32)>, i: int) -> Option<(StmtV, int)>
    decreases ts.len() - i, 19int,
{
    match ident_at(ts, adv(ts, i)) {
        Some((name, a)) => match eat_at(ts, a, TokV::LBrace) {
            Some(b) => if !fwd(ts, i, b) {
                None
            } else {
                match arms_at(ts, b, Seq::empty()) {
                    Some((arms, c)) => match eat_at(ts, c, TokV::RBrace) {
                        Some(d) => Some((StmtV::PolyStatement { name, arms }, d)),
                        None => None,
                    },
                    None => None,
                }
            },
            None => None,
        },
        None => None,
    }
}

/// The arms of a poly-statement from `j` up to its closing `}`.
pub open spec fn arms_at(ts: Seq<(TokV, u32)>, j: int, acc: Seq<(Audience, Seq<StmtV>)>) -> Option<(Seq<(Audience, Seq<StmtV>)>, int)>
    decreases ts.len() - j, 19int,
{
    if tk(ts, j) is RBrace {
        Some((acc, j))
    } else if tk(ts, j) is Eof || tk(ts, j) != TokV::Ident("to"@) {
        None
    } else {
        match audience_at(ts, adv(ts, j)) {
            Some((audience, m)) => match block_from(ts, j, m) {
                Some((body, n)) => if fwd(ts, j, n) { arms_at(ts, n, acc.push((audience, body))) } else { None },
                None => None,
            },
            None => None,
        }
    }
}

/// `hasbara("talking point") { … }`
pub open spec fn hasbara_at(ts: Seq<(TokV, u32)>, i: int) -> Option<(StmtV, int)>
    decreases ts.len() - i, 19int,
{
    match eat_at(ts, adv(ts, i), TokV::LParen) {
        Some(a) => match string_at(ts, a) {
            Some((talking_point, b)) => match eat_at(ts, b, TokV::RParen) {
                Some(c) => match block_from(ts, i, c) {
                    Some((body, d)) => Some((StmtV::Hasbara { talking_point, body }, d)),
                    None => None,
                },
                None => None,
            },
            None => None,
        },
        None => None,
    }
}

/// `mossad { … }`
pub open spec fn mossad_at(ts: Seq<(TokV, u32)>, i: int) -> Option<(StmtV, int)>
    decreases ts.len() - i, 19int,
{
    match ident_at(ts, i) {
        Some((_, a)) => match block_from(ts, i, a) {
            Some((body, b)) => Some((StmtV::Mossad { body }, b)),
            None => None,
        },
        None => None,
    }
}

/// `allocate(a, i, v);`
pub open spec fn allocate_slot_at(ts: Seq<(TokV, u32)>, i: int) -> Option<(StmtV, int)>
    decreases ts.len() - i, 19int,
{
    match eat_at(ts, adv(ts, i), TokV::LParen) {
        Some(a) => match ident_at(ts, a) {
            Some((coll, b)) => match eat_at(ts, b, TokV::Comma) {
                Some(c) => if !fwd(ts, i, c) {
                    None
                } else {
                    match expr_at(ts, c) {
                        Some((idx, d)) => match eat_at(ts, d, TokV::Comma) {
                            Some(e) => match expr_close_semi_at(ts, i, e) {
                                Some((value, f)) => Some((StmtV::AllocateSlot { coll, idx, value }, f)),
                                None => None,
                            },
                            None => None,
                        },
                        None => None,
                    }
                },
                None => None,
            },
            None => None,
        },
        None => None,
    }
}

/// `kw(coll, expr);`
pub open spec fn coll_and_expr_at(ts: Seq<(TokV, u32)>, i: int) -> Option<(Seq<char>, ExprV, int)>
    decreases ts.len() - i, 19int,
{
    match eat_at(ts, adv(ts, i), TokV::LParen) {
        Some(a) => match ident_at(ts, a) {
            Some((coll, b)) => match eat_at(ts, b, TokV::Comma) {
                Some(c) => match expr_close_semi_at(ts, i, c) {
                    Some((item, d)) => Some((coll, item, d)),
                    None => None,
                },
                None => None,
            },
            None => None,
        },
        None => None,
    }
}

/// `name = e;`
pub open spec fn assign_at(ts: Seq<(TokV, u32)>, i: int) -> Option<(StmtV, int)>
    decreases ts.len() - i, 19int,
{
    match ident_at(ts, i) {
        Some((var, a)) => match eat_at(ts, a, TokV::Eq) {
            Some(b) => match expr_semi_at(ts, i, b) {
                Some((value, c)) => Some((StmtV::Assign { var, value }, c)),
                None => None,
            },
            None => None,
        },
        None => None,
    }
}

/// `name;`
pub open spec fn invoke_at(ts: Seq<(TokV, u32)>, i: int) -> Option<(StmtV, int)> {
    match ident_at(ts, i) {
        Some((name, a)) => match eat_at(ts, a, TokV::Semi) {
            Some(b) => Some((StmtV::Invoke { name }, b)),
            None => None,
        },
        None => None,
    }
}

/// A statement led by a keyword or an identifier `k`.
pub open spec fn keyword_stmt_at(ts: Seq<(TokV, u32)>, i: int, k: Seq<char>) -> Option<(StmtV, int)>
    decreases ts.len() - i, 21int,
{
    if k == "if"@ {
        if_at(ts, i)
    } else if k == "while"@ {
        while_at(ts, i)
    } else if k == "func"@ {
        func_at(ts, i)
    } else if k == "return"@ {
        return_at(ts, i)
    } else if k == "declare"@ || k == "assert"@ {
        declare_at(ts, i)
    } else if k == "hasbara"@ {
        hasbara_at(ts, i)
    } else if k == "mossad"@ {
        mossad_at(ts, i)
    } else if k == "blame"@ {
        match kw_one_ident_at(ts, i) {
            Some((who, j)) => Some((StmtV::Blame { who }, j)),
            None => None,
        }
    } else if k == "let"@ {
        let_at(ts, i)
    } else if k == "bribe"@ {
        bribe_at(ts, i)
    } else if k == "postpone"@ {
        match kw_no_arg_at(ts, i) {
            Some(j) => Some((StmtV::Postpone, j)),
            None => None,
        }
    } else if k == "elections"@ {
        match kw_bare_at(ts, i) {
            Some(j) => Some((StmtV::Elections, j)),
            None => None,
        }
    } else if k == "raise"@ {
        match kw_one_ident_at(ts, i) {
            Some((name, j)) => Some((StmtV::Raise { name }, j)),
            None => None,
        }
    } else if k == "whatabout"@ {
        match kw_one_ident_at(ts, i) {
            Some((name, j)) => Some((StmtV::Whatabout { name }, j)),
            None => None,
        }
    } else if k == "ceasefire"@ {
        match kw_bare_at(ts, i) {
            Some(j) => Some((StmtV::Ceasefire, j)),
            None => None,
        }
    } else if k == "deeply_concerned"@ {
        match kw_no_arg_at(ts, i) {
            Some(j) => Some((StmtV::Concern { who: None }, j)),
            None => None,
        }
    } else if k == "concern"@ {
        match kw_one_ident_at(ts, i) {
            Some((who, j)) => Some((StmtV::Concern { who: Some(who) }, j)),
            None => None,
        }
    } else if k == "criticism"@ {
        match kw_one_ident_at(ts, i) {
            Some((subject, j)) => Some((StmtV::Criticism { subject }, j)),
            None => None,
        }
    } else if k == "antisemitism"@ {
        match kw_one_ident_at(ts, i) {
            Some((incident, j)) => Some((StmtV::Antisemitism { incident }, j)),
            None => None,
        }
    } else if k == "access"@ {
        match kw_one_ident_at(ts, i) {
            Some((entity, j)) => Some((StmtV::Access { entity }, j)),
            None => None,
        }
    } else if k == "timeline"@ {
        match kw_one_ident_at(ts, i) {
            Some((symbol, j)) => Some((StmtV::Timeline { symbol }, j)),
            None => None,
        }
    } else {
        keyword_stmt_more_at(ts, i, k)
    }
}

/// A statement led by a keyword or an identifier `k` that is none of the control-flow,
/// declaration, scope and single-name keywords.
pub open spec fn keyword_stmt_more_at(ts: Seq<(TokV, u32)>, i: int, k: Seq<char>) -> Option<(StmtV, int)>
    decreases ts.len() - i, 20int,
{
    if k == "human_shields"@ {
        human_shields_at(ts, i)
    } else if k == "proportionate"@ {
        match kw_one_ident_at(ts, i) {
            Some((claim, j)) => Some((StmtV::Proportionate { claim }, j)),
            None => None,
        }
    } else if k == "disputed"@ {
        disputed_at(ts, i)
    } else if k == "deny"@ {
        match kw_one_ident_at(ts, i) {
            Some((event, j)) => Some((StmtV::Deny { event }, j)),
            None => None,
        }
    } else if k == "world_opinion"@ {
        match kw_no_arg_at(ts, i) {
            Some(j) => Some((StmtV::Inert { kind: InertKind::WorldOpinion }, j)),
            None => None,
        }
    } else if k == "polls"@ {
        match kw_no_arg_at(ts, i) {
            Some(j) => Some((StmtV::Inert { kind: InertKind::Polls }, j)),
            None => None,
        }
    } else if k == "investigate"@ {
        match kw_one_ident_at(ts, i) {
            Some((subject, j)) => Some((StmtV::Investigate { subject }, j)),
            None => None,
        }
    } else if k == "address_international"@ {
        match kw_no_arg_at(ts, i) {
            Some(j) => Some((StmtV::AddressInternational, j)),
            None => None,
        }
    } else if k == "announce"@ {
        announce_at(ts, i)
    } else if k == "address"@ {
        address_at(ts, i)
    } else if k == "statement"@ {
        poly_at(ts, i)
    } else if k == "commit"@ || k == "foreclose"@ {
        match kw_one_ident_at(ts, i) {
            Some((subject, j)) => Some((
                StmtV::Position { stance: if k == "commit"@ { Stance::Commit } else { Stance::Foreclose }, subject },
                j,
            )),
            None => None,
        }
    } else if k == "legislate"@ {
        legislate_at(ts, i)
    } else if k == "allocate"@ && tk(ts, i + 1) is LParen {
        allocate_slot_at(ts, i)
    } else if k == "push"@ || k == "remove"@ {
        match coll_and_expr_at(ts, i) {
            Some((coll, item, j)) => Some((
                if k == "push"@ { StmtV::Push { coll, item } } else { StmtV::Remove { coll, item } },
                j,
            )),
            None => None,
        }
    } else if k == "classify"@ {
        classify_at(ts, i)
    } else if k == "revoke"@ {
        match two_idents_at(ts, i) {
            Some((coll, case, j)) => Some((StmtV::Revoke { coll, case }, j)),
            None => None,
        }
    } else if builtin_expr_word(k) && tk(ts, i + 1) is LParen {
        match expr_at(ts, i) {
            Some((e, j)) => match eat_at(ts, j, TokV::Semi) {
                Some(n) => Some((StmtV::ExprStmt(e), n)),
                None => None,
            },
            None => None,
        }
    } else if tk(ts, i + 1) is Eq {
        assign_at(ts, i)
    } else if tk(ts, i + 1) is LParen {
        call_or_action_at(ts, i)
    } else if tk(ts, i + 1) is Semi {
        invoke_at(ts, i)
    } else {
        None
    }
}

/// A statement: `(self_defense) <action>;` or one led by a keyword or an identifier.
pub open spec fn stmt_at(ts: Seq<(TokV, u32)>, i: int) -> Option<(StmtV, int)>
    decreases ts.len() - i, 22int,
{
    match tk(ts, i) {
        TokV::LParen => self_defense_at(ts, i),
        TokV::Ident(k) => keyword_stmt_at(ts, i, k),
        _ => None,
    }
}

/// A `{ … }` block.
pub open spec fn block_at(ts: Seq<(TokV, u32)>, i: int) -> Option<(Seq<StmtV>, int)>
    decreases ts.len() - i, 31int,
{
    match eat_at(ts, i, TokV::LBrace) {
        Some(a) => if !fwd(ts, i, a) {
            None
        } else {
            match block_rest(ts, a, Seq::empty()) {
                Some((body, b)) => match eat_at(ts, b, TokV::RBrace) {
                    Some(c) => Some((body, c)),
                    None => None,
                },
                None => None,
            }
        },
        None => None,
    }
}

/// The statements of a block from `j` up to its closing `}`.
pub open spec fn block_rest(ts: Seq<(TokV, u32)>, j: int, acc: Seq<StmtV>) -> Option<(Seq<StmtV>, int)>
    decreases ts.len() - j, 30int,
{
    if tk(ts, j) is RBrace {
        Some((acc, j))
    } else if tk(ts, j) is Eof {
        None
    } else {
        match stmt_at(ts, j) {
            Some((s, k)) => if fwd(ts, j, k) { block_rest(ts, k, acc.push(s)) } else { None },
            None => None,
        }
    }
}

/// The statements of a program from `j` up to the end of input.
pub open spec fn body_rest(ts: Seq<(TokV, u32)>, j: int, acc: Seq<StmtV>) -> Option<Seq<StmtV>>
    decreases ts.len() - j,
{
    if tk(ts, j) is Eof {
        Some(acc)
    } else {
        match stmt_at(ts, j) {
            Some((s, k)) => if fwd(ts, j, k) { body_rest(ts, k, acc.push(s)) } else { None },
            None => None,
        }
    }
}

/// A program: the header `@operation("name")`, then statements up to the end of input.
/// Its value: the operation name and the statements.
pub open spec fn program_of(ts: Seq<(TokV, u32)>) -> Option<(Seq<char>, Seq<StmtV>)> {
    match eat_at(ts, 0, TokV::Operation) {
        Some(a) => match eat_at(ts, a, TokV::LParen) {
            Some(b) => match string_at(ts, b) {
                Some((name, c)) => match eat_at(ts, c, TokV::RParen) {
                    Some(d) => match body_rest(ts, d, Seq::empty()) {
                        Some(body) => Some((name, body)),
                        None => None,
                    },
                    None => None,
                },
                None => None,
            },
            None => None,
        },
        None => None,
    }
}

} // verus!
