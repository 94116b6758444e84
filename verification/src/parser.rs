//! The parser: tokens → AST, by recursive descent with precedence climbing for
//! expressions. Source comments are collected on the program and never parsed.

use vstd::prelude::*;
use vstd::string::*;
use crate::ast::{
    expr_v, exprs_v, lemma_arms_v_push, lemma_exprs_v_index, lemma_exprs_v_push, lemma_stmts_v_push, stmt_v, stmts_v, arms_v,
    StmtV, BinOp, Expr, ExprV, InertKind, LawToggle, Program, Stance, Stmt, UnOp};
use crate::euphemism;
use crate::grammar::{
    address_at, adv, fwd, allocate_slot_at, announce_at, args_at, args_rest, arms_at, assign_at, audience_at, binary_at,
    binary_rest, block_at, block_from, block_rest, body_rest, bribe_at, builtin_expr_word, call_or_action_at, cast_ahead_at,
    cast_keyword, cast_of, classify_at, closed_args_at, closed_expr_at, coll_and_expr_at, declare_at, disputed_at,
    eat_at, expr_at, func_at, hasbara_at, human_shields_at, ident_at, if_at, int_at, invoke_at, kw_bare_at,
    keyword_stmt_at, keyword_stmt_more_at, kw_no_arg_at, kw_one_ident_at, legislate_at, let_at, mossad_at, op_at_level, params_at, poly_at, primary_at,
    program_of, return_at, self_defense_at, stmt_at, string_at, tk, tokv_kind, two_idents_at, unary_at, while_at,
};
use crate::lexer::{copy_tok, lex, lex_from, lex_spec, step, tok_view, tokens_view, LexError, Step, Tok, TokV, Token};
use crate::model::{Audience, Clearance, Jurisdiction, SODI};
use crate::text::{cat, cat3, i64_str, int_str, owned, str_eq, u64_str, views};

verus! {

/// A parse failure.
#[derive(Clone, Debug, PartialEq)]
pub struct ParseError {
    pub message: String,
    pub line: u32,
}

impl ParseError {
    /// The human-readable form: `parse error (line N): message`.
    pub fn to_string(&self) -> (r: String)
        ensures
            r@ == "parse error (line "@ + crate::text::digits(self.line as nat) + "): "@ + self.message@,
    {
        let mut r = cat3("parse error (line ", u64_str(self.line as u64).as_str(), "): ");
        r.append(self.message.as_str());
        r
    }

    /// A lexing failure, reported as a parse failure at the same line.
    pub fn from_lex(e: LexError) -> (r: ParseError)
        ensures
            r.message == e.message,
            r.line == e.line,
    {
        ParseError { message: e.message, line: e.line }
    }
}

/// A number identifying the kind of a token (its payload ignored).
pub open spec fn tok_kind(t: Tok) -> u8 {
    tokv_kind(tok_view(t))
}

fn kind(t: &Tok) -> (k: u8)
    ensures
        k == tok_kind(*t),
{
    match t {
        Tok::Operation => 0,
        Tok::Str(_) => 1,
        Tok::EqEq => 2,
        Tok::Int(_) => 3,
        Tok::Ident(_) => 4,
        Tok::Comment(_) => 5,
        Tok::LParen => 6,
        Tok::RParen => 7,
        Tok::LBrace => 8,
        Tok::RBrace => 9,
        Tok::LBracket => 10,
        Tok::RBracket => 11,
        Tok::Comma => 12,
        Tok::Semi => 13,
        Tok::Colon => 14,
        Tok::Eq => 15,
        Tok::Ne => 16,
        Tok::Lt => 17,
        Tok::Le => 18,
        Tok::Gt => 19,
        Tok::Ge => 20,
        Tok::Plus => 21,
        Tok::Minus => 22,
        Tok::Star => 23,
        Tok::Slash => 24,
        Tok::Percent => 25,
        Tok::Bang => 26,
        Tok::AmpAmp => 27,
        Tok::PipePipe => 28,
        Tok::Eof => 29,
    }
}

/// How a token is named in a diagnostic: its kind, with its payload where it has one.
pub open spec fn describe_spec(t: Tok) -> Seq<char> {
    match t {
        Tok::Operation => "Operation"@,
        Tok::Str(s) => "Str(\""@ + s@ + "\")"@,
        Tok::EqEq => "EqEq"@,
        Tok::Int(v) => "Int("@ + int_str(v as int) + ")"@,
        Tok::Ident(s) => "Ident(\""@ + s@ + "\")"@,
        Tok::Comment(s) => "Comment(\""@ + s@ + "\")"@,
        Tok::LParen => "LParen"@,
        Tok::RParen => "RParen"@,
        Tok::LBrace => "LBrace"@,
        Tok::RBrace => "RBrace"@,
        Tok::LBracket => "LBracket"@,
        Tok::RBracket => "RBracket"@,
        Tok::Comma => "Comma"@,
        Tok::Semi => "Semi"@,
        Tok::Colon => "Colon"@,
        Tok::Eq => "Eq"@,
        Tok::Ne => "Ne"@,
        Tok::Lt => "Lt"@,
        Tok::Le => "Le"@,
        Tok::Gt => "Gt"@,
        Tok::Ge => "Ge"@,
        Tok::Plus => "Plus"@,
        Tok::Minus => "Minus"@,
        Tok::Star => "Star"@,
        Tok::Slash => "Slash"@,
        Tok::Percent => "Percent"@,
        Tok::Bang => "Bang"@,
        Tok::AmpAmp => "AmpAmp"@,
        Tok::PipePipe => "PipePipe"@,
        Tok::Eof => "Eof"@,
    }
}

/// A debug-style description of a token, for diagnostics.
fn describe(t: &Tok) -> (r: String)
    ensures
        r@ == describe_spec(*t),
{
    match t {
        Tok::Operation => owned("Operation"),
        Tok::Str(s) => cat3("Str(\"", s.as_str(), "\")"),
        Tok::EqEq => owned("EqEq"),
        Tok::Int(v) => cat3("Int(", i64_str(*v).as_str(), ")"),
        Tok::Ident(s) => cat3("Ident(\"", s.as_str(), "\")"),
        Tok::Comment(s) => cat3("Comment(\"", s.as_str(), "\")"),
        Tok::LParen => owned("LParen"),
        Tok::RParen => owned("RParen"),
        Tok::LBrace => owned("LBrace"),
        Tok::RBrace => owned("RBrace"),
        Tok::LBracket => owned("LBracket"),
        Tok::RBracket => owned("RBracket"),
        Tok::Comma => owned("Comma"),
        Tok::Semi => owned("Semi"),
        Tok::Colon => owned("Colon"),
        Tok::Eq => owned("Eq"),
        Tok::Ne => owned("Ne"),
        Tok::Lt => owned("Lt"),
        Tok::Le => owned("Le"),
        Tok::Gt => owned("Gt"),
        Tok::Ge => owned("Ge"),
        Tok::Plus => owned("Plus"),
        Tok::Minus => owned("Minus"),
        Tok::Star => owned("Star"),
        Tok::Slash => owned("Slash"),
        Tok::Percent => owned("Percent"),
        Tok::Bang => owned("Bang"),
        Tok::AmpAmp => owned("AmpAmp"),
        Tok::PipePipe => owned("PipePipe"),
        Tok::Eof => owned("Eof"),
    }
}

/// The non-comment tokens of a stream, in order.
pub open spec fn code_tokens(ts: Seq<(TokV, u32)>) -> Seq<(TokV, u32)>
    decreases ts.len(),
{
    if ts.len() == 0 {
        Seq::empty()
    } else if ts.last().0 is Comment {
        code_tokens(ts.drop_last())
    } else {
        code_tokens(ts.drop_last()).push(ts.last())
    }
}

/// The texts of the comment tokens of a stream, in order.
pub open spec fn comment_texts(ts: Seq<(TokV, u32)>) -> Seq<Seq<char>>
    decreases ts.len(),
{
    if ts.len() == 0 {
        Seq::empty()
    } else if ts.last().0 is Comment {
        comment_texts(ts.drop_last()).push(ts.last().0->Comment_0)
    } else {
        comment_texts(ts.drop_last())
    }
}

/// The stream opens with the header `@operation("name")`.
pub open spec fn opens_with(ts: Seq<(TokV, u32)>, name: Seq<char>) -> bool {
    &&& ts.len() >= 4
    &&& ts[0].0 is Operation
    &&& ts[1].0 is LParen
    &&& ts[2].0 == TokV::Str(name)
    &&& ts[3].0 is RParen
}

/// A successful scan ends with the `Eof` token.
proof fn lemma_lex_ends_with_eof(cs: Seq<char>, i: int, line: u32)
    requires
        lex_from(cs, i, line) is Ok,
    ensures
        lex_from(cs, i, line)->Ok_0.len() > 0,
        lex_from(cs, i, line)->Ok_0.last().0 is Eof,
    decreases cs.len() - i,
{
    if i < 0 || i >= cs.len() {
    } else {
        match step(cs, i, line) {
            Step::Skip(j, l) => {
                lemma_lex_ends_with_eof(cs, j, l);
            },
            Step::Emit(t, l, j) => {
                lemma_lex_ends_with_eof(cs, j, l);
                let rest = lex_from(cs, j, l)->Ok_0;
                assert((seq![(t, l)] + rest).last() == rest.last());
            },
            Step::Fail(m, l) => {},
        }
    }
}

/// Dropping comments keeps a final non-comment token last.
proof fn lemma_code_tokens_last(ts: Seq<(TokV, u32)>)
    requires
        ts.len() > 0,
        !(ts.last().0 is Comment),
    ensures
        code_tokens(ts).len() > 0,
        code_tokens(ts).last() == ts.last(),
{
}

/// Parse source into a `Program`. Source comments are taken out of the token stream
/// and carried on the program; they never affect parsing.
pub fn parse(src: &str) -> (r: Result<Program, ParseError>)
    ensures
        match lex_spec(src@) {
            Err(f) => r matches Err(e) && e.message@ == f.0 && e.line == f.1,
            Ok(ts) => match program_of(code_tokens(ts)) {
                Some((name, body)) => r matches Ok(p) && {
                    &&& p.op_name@ == name
                    &&& stmts_v(p.body@) == body
                    &&& opens_with(code_tokens(ts), name)
                    &&& views(p.comments@) == comment_texts(ts)
                },
                None => r is Err,
            },
        },
{
    let toks = match lex(src) {
        Ok(t) => t,
        Err(e) => {
            return Err(ParseError::from_lex(e));
        },
    };
    let ghost all = tokens_view(toks@);
    let mut comments: Vec<String> = Vec::new();
    let mut filtered: Vec<Token> = Vec::new();
    let mut k: usize = 0;
    while k < toks.len()
        invariant
            k <= toks.len(),
            all == tokens_view(toks@),
            tokens_view(filtered@) == code_tokens(all.take(k as int)),
            views(comments@) == comment_texts(all.take(k as int)),
        decreases toks.len() - k,
    {
        let ghost pre = all.take(k as int);
        let ghost now = all.take(k + 1);
        assert(now.drop_last() =~= pre);
        assert(now.last() == all[k as int]);
        match &toks[k].tok {
            Tok::Comment(c) => {
                comments.push(c.clone());
                assert(views(comments@) =~= comment_texts(pre).push(c@));
            },
            _ => {
                let ghost before = tokens_view(filtered@);
                filtered.push(Token { tok: copy_tok(&toks[k].tok), line: toks[k].line });
                assert(tokens_view(filtered@) =~= before.push(all[k as int]));
            },
        }
        k = k + 1;
    }
    assert(all.take(k as int) =~= all);
    proof {
        lemma_lex_ends_with_eof(src@, 0, 1);
        lemma_code_tokens_last(all);
        assert(tokens_view(filtered@).last() == all.last());
    }
    let mut parser = Parser { toks: filtered, i: 0 };
    let mut program = parser.program()?;
    program.comments = comments;
    Ok(program)
}

struct Parser {
    toks: Vec<Token>,
    i: usize,
}

impl Parser {
    /// The token vector ends with `Eof` and the cursor is on a token.
    spec fn wf(&self) -> bool {
        &&& self.toks.len() > 0
        &&& self.i < self.toks.len()
        &&& self.toks@.last().tok is Eof
    }

    /// `new` is `old` with the cursor moved forward (or kept).
    spec fn moved(old: &Parser, new: &Parser) -> bool {
        &&& new.toks@ == old.toks@
        &&& new.i >= old.i
        &&& new.wf()
    }

    spec fn measure(&self) -> int {
        self.toks.len() - self.i
    }

    /// The token stream as values.
    spec fn tv(&self) -> Seq<(TokV, u32)> {
        tokens_view(self.toks@)
    }

    /// On a well-formed parser the stream is read as it stands, its last token is the
    /// end marker, and any other token at the cursor has a successor.
    proof fn lemma_view(&self)
        requires
            self.wf(),
        ensures
            forall|k: int| 0 <= k < self.toks.len() ==> #[trigger] tk(self.tv(), k) == tok_view(self.toks@[k].tok),
            tk(self.tv(), self.toks.len() - 1) is Eof,
            !(tk(self.tv(), self.i as int) is Eof) ==> self.i < self.toks.len() - 1,
            self.tv().len() == self.toks.len(),
    {
        assert forall|k: int| 0 <= k < self.toks.len() implies #[trigger] tk(self.tv(), k) == tok_view(self.toks@[k].tok) by {
            assert(self.tv()[k] == (tok_view(self.toks@[k].tok), self.toks@[k].line));
        }
    }

    fn peek(&self) -> (t: &Tok)
        requires
            self.wf(),
        ensures
            *t == self.toks@[self.i as int].tok,
            tok_view(*t) == tk(self.tv(), self.i as int),
    {
        proof {
            self.lemma_view();
        }
        &self.toks[self.i].tok
    }

    fn line(&self) -> (l: u32)
        requires
            self.wf(),
        ensures
            l == self.toks@[self.i as int].line,
    {
        self.toks[self.i].line
    }

    /// The token `n` ahead (clamped to the final `Eof`).
    fn la(&self, n: usize) -> (t: &Tok)
        requires
            self.wf(),
        ensures
            tok_view(*t) == tk(self.tv(), self.i + n),
    {
        proof {
            self.lemma_view();
        }
        let last = self.toks.len() - 1;
        let j = if n <= last - self.i { self.i + n } else { last };
        &self.toks[j].tok
    }

    fn next(&mut self) -> (t: Tok)
        requires
            old(self).wf(),
        ensures
            Self::moved(old(self), final(self)),
            t == old(self).toks@[old(self).i as int].tok,
            final(self).i == adv(old(self).tv(), old(self).i as int),
            !(tk(old(self).tv(), old(self).i as int) is Eof) ==> final(self).i == old(self).i + 1,
    {
        proof {
            self.lemma_view();
        }
        let t = copy_tok(&self.toks[self.i].tok);
        if self.i < self.toks.len() - 1 {
            self.i = self.i + 1;
        }
        t
    }

    fn fail<T>(&self, message: String) -> (r: Result<T, ParseError>)
        requires
            self.wf(),
        ensures
            r matches Err(e) && e.message == message && e.line == self.toks@[self.i as int].line,
    {
        Err(ParseError { message, line: self.line() })
    }

    fn expected(&self, want: &str) -> (r: String)
        requires
            self.wf(),
        ensures
            r@ == "expected "@ + want@ + ", got "@ + describe_spec(self.toks@[self.i as int].tok),
    {
        let got = describe(self.peek());
        let mut m = cat3("expected ", want, ", got ");
        m.append(got.as_str());
        m
    }

    /// Consume a token of the same kind as `want`, or fail.
    fn eat(&mut self, want: &Tok) -> (r: Result<(), ParseError>)
        requires
            old(self).wf(),
            !(*want is Eof),
        ensures
            Self::moved(old(self), final(self)),
            r is Ok ==> final(self).i == old(self).i + 1,
            match eat_at(old(self).tv(), old(self).i as int, tok_view(*want)) {
                Some(j) => r is Ok && final(self).i == j,
                None => r is Err,
            },
    {
        proof {
            self.lemma_view();
        }
        if kind(self.peek()) == kind(want) {
            self.next();
            Ok(())
        } else {
            let m = self.expected(describe(want).as_str());
            self.fail(m)
        }
    }

    fn eat_ident(&mut self) -> (r: Result<String, ParseError>)
        requires
            old(self).wf(),
        ensures
            Self::moved(old(self), final(self)),
            r is Ok ==> final(self).i > old(self).i,
            match ident_at(old(self).tv(), old(self).i as int) {
                Some((x, j)) => r matches Ok(s) && s@ == x && final(self).i == j,
                None => r is Err,
            },
    {
        let p = self.peek();
        match p {
            Tok::Ident(s) => {
                let s = s.clone();
                self.next();
                Ok(s)
            },
            _ => {
                let m = self.expected("identifier");
                self.fail(m)
            },
        }
    }

    fn eat_string(&mut self) -> (r: Result<String, ParseError>)
        requires
            old(self).wf(),
        ensures
            Self::moved(old(self), final(self)),
            r is Ok ==> final(self).i == old(self).i + 1,
            match r {
                Ok(s) => old(self).toks@[old(self).i as int].tok == Tok::Str(s),
                Err(_) => true,
            },
            match string_at(old(self).tv(), old(self).i as int) {
                Some((x, j)) => r matches Ok(s) && s@ == x && final(self).i == j,
                None => r is Err,
            },
    {
        let p = self.peek();
        match p {
            Tok::Str(s) => {
                let s = s.clone();
                self.next();
                Ok(s)
            },
            _ => {
                let m = self.expected("string");
                self.fail(m)
            },
        }
    }

    fn eat_int(&mut self) -> (r: Result<i64, ParseError>)
        requires
            old(self).wf(),
        ensures
            Self::moved(old(self), final(self)),
            r is Ok ==> final(self).i > old(self).i,
            match int_at(old(self).tv(), old(self).i as int) {
                Some((x, j)) => r == Ok::<i64, ParseError>(x) && final(self).i == j,
                None => r is Err,
            },
    {
        let p = self.peek();
        match p {
            Tok::Int(v) => {
                let v = *v;
                self.next();
                Ok(v)
            },
            _ => {
                let m = self.expected("integer");
                self.fail(m)
            },
        }
    }

    /// Whether the current token is the identifier `word`.
    fn at_word(&self, word: &str) -> (r: bool)
        requires
            self.wf(),
        ensures
            r == (tk(self.tv(), self.i as int) == TokV::Ident(word@)),
    {
        match self.peek() {
            Tok::Ident(k) => str_eq(k.as_str(), word),
            _ => false,
        }
    }

    fn at_kind(&self, want: &Tok) -> (r: bool)
        requires
            self.wf(),
        ensures
            r && !(*want is Eof) ==> !(self.toks@[self.i as int].tok is Eof),
            r == (tokv_kind(tk(self.tv(), self.i as int)) == tokv_kind(tok_view(*want))),
    {
        kind(self.peek()) == kind(want)
    }

    /// `@operation("…")` followed by statements until the end of input.
    fn program(&mut self) -> (r: Result<Program, ParseError>)
        requires
            old(self).wf(),
            old(self).i == 0,
        ensures
            Self::moved(old(self), final(self)),
            match r {
                Ok(p) => {
                    &&& old(self).i + 3 < old(self).toks.len()
                    &&& old(self).toks@[old(self).i as int].tok is Operation
                    &&& old(self).toks@[old(self).i + 1].tok is LParen
                    &&& old(self).toks@[old(self).i + 2].tok == Tok::Str(p.op_name)
                    &&& old(self).toks@[old(self).i + 3].tok is RParen
                },
                Err(_) => true,
            },
            match program_of(old(self).tv()) {
                Some((name, body)) => r matches Ok(p) && p.op_name@ == name && stmts_v(p.body@) == body
                    && p.comments@.len() == 0,
                None => r is Err,
            },
    {
        proof {
            self.lemma_view();
        }
        let ghost ts = self.tv();
        let start = self.i;
        self.eat(&Tok::Operation)?;
        self.eat(&Tok::LParen)?;
        let op_name = self.eat_string()?;
        self.eat(&Tok::RParen)?;
        let ghost d = self.i as int;
        let mut body: Vec<Stmt> = Vec::new();
        while !self.at_kind(&Tok::Eof)
            invariant
                Self::moved(old(self), self),
                self.i > start,
                ts == self.tv(),
                body_rest(ts, self.i as int, stmts_v(body@)) == body_rest(ts, d, Seq::empty()),
                program_of(ts) == match body_rest(ts, d, Seq::empty()) {
                    Some(b) => Some((op_name@, b)),
                    None => None,
                },
                ts == old(self).tv(),
            decreases self.toks.len() - self.i,
        {
            proof {
                self.lemma_view();
            }
            let ghost j = self.i as int;
            let s = match self.stmt() {
                Ok(s) => s,
                Err(e) => {
                    assert(body_rest(ts, j, stmts_v(body@)) is None);
                    return Err(e);
                },
            };
            proof {
                lemma_stmts_v_push(body@, s);
            }
            body.push(s);
        }
        proof {
            self.lemma_view();
        }
        Ok(Program { op_name, body, comments: Vec::new() })
    }

    /// A `{ … }` block.
    fn block(&mut self) -> (r: Result<Vec<Stmt>, ParseError>)
        requires
            old(self).wf(),
        ensures
            Self::moved(old(self), final(self)),
            r is Ok ==> final(self).i > old(self).i,
            match block_at(old(self).tv(), old(self).i as int) {
                Some((v, j)) => r matches Ok(b) && stmts_v(b@) == v && final(self).i == j,
                None => r is Err,
            },
        decreases old(self).measure(), 30int,
    {
        proof {
            self.lemma_view();
        }
        let ghost ts = self.tv();
        let start = self.i;
        self.eat(&Tok::LBrace)?;
        let ghost a = self.i as int;
        let mut body: Vec<Stmt> = Vec::new();
        while !self.at_kind(&Tok::RBrace)
            invariant
                Self::moved(old(self), self),
                self.i > start,
                start == old(self).i,
                ts == self.tv(),
                a == start + 1,
                block_rest(ts, self.i as int, stmts_v(body@)) == block_rest(ts, a, Seq::empty()),
            decreases self.toks.len() - self.i,
        {
            proof {
                self.lemma_view();
            }
            if self.at_kind(&Tok::Eof) {
                return self.fail(owned("unterminated block"));
            }
            let s = self.stmt()?;
            proof {
                lemma_stmts_v_push(body@, s);
            }
            body.push(s);
        }
        proof {
            self.lemma_view();
        }
        self.eat(&Tok::RBrace)?;
        Ok(body)
    }

    fn stmt(&mut self) -> (r: Result<Stmt, ParseError>)
        requires
            old(self).wf(),
        ensures
            Self::moved(old(self), final(self)),
            r is Ok ==> final(self).i > old(self).i,
            match stmt_at(old(self).tv(), old(self).i as int) {
                Some((v, j)) => r matches Ok(st) && stmt_v(st) == v && final(self).i == j,
                None => r is Err,
            },
        decreases old(self).measure(), 22int,
    {
        proof {
            self.lemma_view();
        }
        let p = self.peek();
        match p {
            Tok::LParen => self.self_defense_action(),
            Tok::Ident(kw) => {
                let kw = kw.clone();
                self.keyword_stmt(kw.as_str())
            },
            _ => {
                let m = cat("unexpected token at statement start: ", describe(self.peek()).as_str());
                self.fail(m)
            },
        }
    }

    /// A statement led by the keyword or identifier `k` at the cursor.
    fn keyword_stmt(&mut self, k: &str) -> (r: Result<Stmt, ParseError>)
        requires
            old(self).wf(),
            tk(old(self).tv(), old(self).i as int) == TokV::Ident(k@),
        ensures
            Self::moved(old(self), final(self)),
            r is Ok ==> final(self).i > old(self).i,
            match keyword_stmt_at(old(self).tv(), old(self).i as int, k@) {
                Some((v, j)) => r matches Ok(st) && stmt_v(st) == v && final(self).i == j,
                None => r is Err,
            },
        decreases old(self).measure(), 21int,
    {
        proof {
            self.lemma_view();
        }
        if str_eq(k, "if") {
            self.if_stmt()
        } else if str_eq(k, "while") {
            self.while_stmt()
        } else if str_eq(k, "func") {
            self.func_def()
        } else if str_eq(k, "return") {
            self.return_stmt()
        } else if str_eq(k, "declare") || str_eq(k, "assert") {
            self.declare()
        } else if str_eq(k, "hasbara") {
            self.hasbara()
        } else if str_eq(k, "mossad") {
            self.mossad()
        } else if str_eq(k, "blame") {
            let who = self.kw_one_ident()?;
            Ok(Stmt::Blame { who })
        } else if str_eq(k, "let") {
            self.let_binding()
        } else if str_eq(k, "bribe") {
            self.bribe()
        } else if str_eq(k, "postpone") {
            self.kw_no_arg()?;
            Ok(Stmt::Postpone)
        } else if str_eq(k, "elections") {
            self.kw_bare()?;
            Ok(Stmt::Elections)
        } else if str_eq(k, "raise") {
            let name = self.kw_one_ident()?;
            Ok(Stmt::Raise { name })
        } else if str_eq(k, "whatabout") {
            let name = self.kw_one_ident()?;
            Ok(Stmt::Whatabout { name })
        } else if str_eq(k, "ceasefire") {
            self.kw_bare()?;
            Ok(Stmt::Ceasefire)
        } else if str_eq(k, "deeply_concerned") {
            self.kw_no_arg()?;
            Ok(Stmt::Concern { who: None })
        } else if str_eq(k, "concern") {
            let who = self.kw_one_ident()?;
            Ok(Stmt::Concern { who: Some(who) })
        } else if str_eq(k, "criticism") {
            let subject = self.kw_one_ident()?;
            Ok(Stmt::Criticism { subject })
        } else if str_eq(k, "antisemitism") {
            let incident = self.kw_one_ident()?;
            Ok(Stmt::Antisemitism { incident })
        } else if str_eq(k, "access") {
            let entity = self.kw_one_ident()?;
            Ok(Stmt::Access { entity })
        } else if str_eq(k, "timeline") {
            let symbol = self.kw_one_ident()?;
            Ok(Stmt::Timeline { symbol })
        } else {
            self.keyword_stmt_more(k)
        }
    }

    /// A statement led by a keyword or identifier `k` that is none of the control-flow,
    /// declaration, scope and single-name keywords.
    fn keyword_stmt_more(&mut self, k: &str) -> (r: Result<Stmt, ParseError>)
        requires
            old(self).wf(),
            tk(old(self).tv(), old(self).i as int) == TokV::Ident(k@),
        ensures
            Self::moved(old(self), final(self)),
            r is Ok ==> final(self).i > old(self).i,
            match keyword_stmt_more_at(old(self).tv(), old(self).i as int, k@) {
                Some((v, j)) => r matches Ok(st) && stmt_v(st) == v && final(self).i == j,
                None => r is Err,
            },
        decreases old(self).measure(), 20int,
    {
        proof {
            self.lemma_view();
        }
        if str_eq(k, "human_shields") {
            self.human_shields()
        } else if str_eq(k, "proportionate") {
            let claim = self.kw_one_ident()?;
            Ok(Stmt::Proportionate { claim })
        } else if str_eq(k, "disputed") {
            self.disputed()
        } else if str_eq(k, "deny") {
            let event = self.kw_one_ident()?;
            Ok(Stmt::Deny { event })
        } else if str_eq(k, "world_opinion") {
            self.kw_no_arg()?;
            Ok(Stmt::Inert { kind: InertKind::WorldOpinion })
        } else if str_eq(k, "polls") {
            self.kw_no_arg()?;
            Ok(Stmt::Inert { kind: InertKind::Polls })
        } else if str_eq(k, "investigate") {
            let subject = self.kw_one_ident()?;
            Ok(Stmt::Investigate { subject })
        } else if str_eq(k, "address_international") {
            self.kw_no_arg()?;
            Ok(Stmt::AddressInternational)
        } else if str_eq(k, "announce") {
            self.announce()
        } else if str_eq(k, "address") {
            self.address()
        } else if str_eq(k, "statement") {
            self.poly_statement()
        } else if str_eq(k, "commit") {
            self.position(Stance::Commit)
        } else if str_eq(k, "foreclose") {
            self.position(Stance::Foreclose)
        } else if str_eq(k, "legislate") {
            self.legislate()
        } else if str_eq(k, "allocate") && self.at_la_kind(1, &Tok::LParen) {
            self.allocate_slot()
        } else if str_eq(k, "push") {
            let (coll, item) = self.coll_and_expr()?;
            Ok(Stmt::Push { coll, item })
        } else if str_eq(k, "remove") {
            let (coll, item) = self.coll_and_expr()?;
            Ok(Stmt::Remove { coll, item })
        } else if str_eq(k, "classify") {
            self.classify()
        } else if str_eq(k, "revoke") {
            let (coll, case) = self.two_idents()?;
            Ok(Stmt::Revoke { coll, case })
        } else if is_builtin_expr(k) && self.at_la_kind(1, &Tok::LParen) {
            let e = self.expr()?;
            self.eat(&Tok::Semi)?;
            Ok(Stmt::ExprStmt(e))
        } else if self.at_la_kind(1, &Tok::Eq) {
            self.assign()
        } else if self.at_la_kind(1, &Tok::LParen) {
            self.call_or_action()
        } else if self.at_la_kind(1, &Tok::Semi) {
            self.invoke()
        } else {
            let mut m = cat3("unexpected token after identifier `", k, "`: ");
            m.append(describe(self.la(1)).as_str());
            self.fail(m)
        }
    }

    /// Whether the token `n` ahead has the kind of `want`.
    fn at_la_kind(&self, n: usize, want: &Tok) -> (r: bool)
        requires
            self.wf(),
        ensures
            r == (tokv_kind(tk(self.tv(), self.i + n)) == tokv_kind(tok_view(*want))),
    {
        kind(self.la(n)) == kind(want)
    }

    /// `(self_defense) <action>;`
    fn self_defense_action(&mut self) -> (r: Result<Stmt, ParseError>)
        requires
            old(self).wf(),
        ensures
            Self::moved(old(self), final(self)),
            r is Ok ==> final(self).i > old(self).i,
            match self_defense_at(old(self).tv(), old(self).i as int) {
                Some((v, j)) => r matches Ok(st) && stmt_v(st) == v && final(self).i == j,
                None => r is Err,
            },
        decreases old(self).measure(), 19int,
    {
        proof {
            self.lemma_view();
        }
        self.eat(&Tok::LParen)?;
        let name = self.eat_ident()?;
        self.eat(&Tok::RParen)?;
        if !str_eq(name.as_str(), "self_defense") {
            return self.fail(owned("only (self_defense) is a valid cast prefix on a statement"));
        }
        match self.call_or_action()? {
            Stmt::Action { verb, target, .. } => Ok(Stmt::Action { verb, target, self_defense: true }),
            _ => self.fail(owned("(self_defense) must prefix a sanctioned action")),
        }
    }

    fn assign(&mut self) -> (r: Result<Stmt, ParseError>)
        requires
            old(self).wf(),
        ensures
            Self::moved(old(self), final(self)),
            r is Ok ==> final(self).i > old(self).i,
            match assign_at(old(self).tv(), old(self).i as int) {
                Some((v, j)) => r matches Ok(st) && stmt_v(st) == v && final(self).i == j,
                None => r is Err,
            },
        decreases old(self).measure(), 19int,
    {
        proof {
            self.lemma_view();
        }
        let var = self.eat_ident()?;
        self.eat(&Tok::Eq)?;
        let value = self.expr()?;
        self.eat(&Tok::Semi)?;
        Ok(Stmt::Assign { var, value })
    }

    /// `name ( args ) ;` — a sanctioned or plain action (single target), else a call.
    fn call_or_action(&mut self) -> (r: Result<Stmt, ParseError>)
        requires
            old(self).wf(),
        ensures
            Self::moved(old(self), final(self)),
            r is Ok ==> final(self).i > old(self).i,
            match call_or_action_at(old(self).tv(), old(self).i as int) {
                Some((v, j)) => r matches Ok(st) && stmt_v(st) == v && final(self).i == j,
                None => r is Err,
            },
        decreases old(self).measure(), 19int,
    {
        proof {
            self.lemma_view();
        }
        let name = self.eat_ident()?;
        self.eat(&Tok::LParen)?;
        let args = self.arg_list()?;
        proof {
            lemma_exprs_v_index(args@);
        }
        self.eat(&Tok::RParen)?;
        self.eat(&Tok::Semi)?;
        if euphemism::is_action_verb(name.as_str()) {
            if args.len() == 1 {
                match &args[0] {
                    Expr::Var(target) => {
                        return Ok(Stmt::Action { verb: name, target: target.clone(), self_defense: false });
                    },
                    _ => {},
                }
            }
            let m = cat3("operation `", name.as_str(), "` expects a single target entity");
            self.fail(m)
        } else {
            Ok(Stmt::ExprStmt(Expr::Call { name, args }))
        }
    }

    fn arg_list(&mut self) -> (r: Result<Vec<Expr>, ParseError>)
        requires
            old(self).wf(),
        ensures
            Self::moved(old(self), final(self)),
            match args_at(old(self).tv(), old(self).i as int) {
                Some((v, j)) => r matches Ok(a) && exprs_v(a@) == v && final(self).i == j,
                None => r is Err,
            },
        decreases old(self).measure(), 18int,
    {
        let ghost ts = self.tv();
        let mut args: Vec<Expr> = Vec::new();
        if self.at_kind(&Tok::RParen) {
            return Ok(args);
        }
        let start = self.i;
        loop
            invariant
                Self::moved(old(self), self),
                start == old(self).i,
                ts == self.tv(),
                args_rest(ts, self.i as int, exprs_v(args@)) == args_at(ts, old(self).i as int),
            decreases self.toks.len() - self.i,
        {
            let ghost j = self.i as int;
            let e = self.expr()?;
            proof {
                lemma_exprs_v_push(args@, e);
                self.lemma_view();
            }
            args.push(e);
            if self.at_kind(&Tok::Comma) {
                self.next();
            } else {
                return Ok(args);
            }
        }
    }

    fn if_stmt(&mut self) -> (r: Result<Stmt, ParseError>)
        requires
            old(self).wf(),
        ensures
            Self::moved(old(self), final(self)),
            r is Ok ==> final(self).i > old(self).i,
            match if_at(old(self).tv(), old(self).i as int) {
                Some((v, j)) => r matches Ok(st) && stmt_v(st) == v && final(self).i == j,
                None => r is Err,
            },
        decreases old(self).measure(), 19int,
    {
        proof {
            self.lemma_view();
        }
        self.next();
        self.eat(&Tok::LParen)?;
        let cond = self.expr()?;
        self.eat(&Tok::RParen)?;
        let then_body = self.block()?;
        let else_body = if self.at_word("else") {
            self.next();
            self.block()?
        } else {
            Vec::new()
        };
        Ok(Stmt::If { cond, then_body, else_body })
    }

    fn while_stmt(&mut self) -> (r: Result<Stmt, ParseError>)
        requires
            old(self).wf(),
        ensures
            Self::moved(old(self), final(self)),
            r is Ok ==> final(self).i > old(self).i,
            match while_at(old(self).tv(), old(self).i as int) {
                Some((v, j)) => r matches Ok(st) && stmt_v(st) == v && final(self).i == j,
                None => r is Err,
            },
        decreases old(self).measure(), 19int,
    {
        proof {
            self.lemma_view();
        }
        self.next();
        self.eat(&Tok::LParen)?;
        let cond = self.expr()?;
        self.eat(&Tok::RParen)?;
        let body = self.block()?;
        Ok(Stmt::While { cond, body })
    }

    /// Identifiers separated by commas.
    fn param_list(&mut self) -> (r: Result<Vec<String>, ParseError>)
        requires
            old(self).wf(),
        ensures
            Self::moved(old(self), final(self)),
            match params_at(old(self).tv(), old(self).i as int, Seq::empty()) {
                Some((ps, j)) => r matches Ok(v) && views(v@) == ps && final(self).i == j,
                None => r is Err,
            },
    {
        let ghost ts = self.tv();
        let mut params: Vec<String> = Vec::new();
        assert(views(params@) =~= Seq::<Seq<char>>::empty());
        loop
            invariant
                Self::moved(old(self), self),
                ts == self.tv(),
                params_at(ts, self.i as int, views(params@)) == params_at(ts, old(self).i as int, Seq::empty()),
            decreases self.toks.len() - self.i,
        {
            proof {
                self.lemma_view();
            }
            let p = self.eat_ident()?;
            proof {
                assert(views(params@.push(p)) =~= views(params@).push(p@));
                self.lemma_view();
            }
            params.push(p);
            if self.at_kind(&Tok::Comma) {
                self.next();
            } else {
                return Ok(params);
            }
        }
    }

    fn func_def(&mut self) -> (r: Result<Stmt, ParseError>)
        requires
            old(self).wf(),
        ensures
            Self::moved(old(self), final(self)),
            r is Ok ==> final(self).i > old(self).i,
            match func_at(old(self).tv(), old(self).i as int) {
                Some((v, j)) => r matches Ok(st) && stmt_v(st) == v && final(self).i == j,
                None => r is Err,
            },
        decreases old(self).measure(), 19int,
    {
        proof {
            self.lemma_view();
        }
        let ghost ts = self.tv();
        self.next();
        let name = self.eat_ident()?;
        self.eat(&Tok::LParen)?;
        let params = if self.at_kind(&Tok::RParen) {
            let none: Vec<String> = Vec::new();
            assert(views(none@) =~= Seq::<Seq<char>>::empty());
            none
        } else {
            self.param_list()?
        };
        proof {
            self.lemma_view();
        }
        self.eat(&Tok::RParen)?;
        let body = self.block()?;
        Ok(Stmt::FuncDef { name, params, body })
    }

    fn return_stmt(&mut self) -> (r: Result<Stmt, ParseError>)
        requires
            old(self).wf(),
        ensures
            Self::moved(old(self), final(self)),
            r is Ok ==> final(self).i > old(self).i,
            match return_at(old(self).tv(), old(self).i as int) {
                Some((v, j)) => r matches Ok(st) && stmt_v(st) == v && final(self).i == j,
                None => r is Err,
            },
        decreases old(self).measure(), 19int,
    {
        proof {
            self.lemma_view();
        }
        self.next();
        if self.at_kind(&Tok::Semi) {
            self.next();
            return Ok(Stmt::Return(None));
        }
        let e = self.expr()?;
        self.eat(&Tok::Semi)?;
        Ok(Stmt::Return(Some(e)))
    }

    fn declare(&mut self) -> (r: Result<Stmt, ParseError>)
        requires
            old(self).wf(),
        ensures
            Self::moved(old(self), final(self)),
            r is Ok ==> final(self).i > old(self).i,
            match declare_at(old(self).tv(), old(self).i as int) {
                Some((v, j)) => r matches Ok(st) && stmt_v(st) == v && final(self).i == j,
                None => r is Err,
            },
        decreases old(self).measure(), 19int,
    {
        proof {
            self.lemma_view();
        }
        self.next();
        self.eat(&Tok::LParen)?;
        let e = self.expr()?;
        self.eat(&Tok::RParen)?;
        self.eat(&Tok::Semi)?;
        Ok(Stmt::Declare(e))
    }

    /// `kw ( ident ) ;`
    fn kw_one_ident(&mut self) -> (r: Result<String, ParseError>)
        requires
            old(self).wf(),
        ensures
            Self::moved(old(self), final(self)),
            r is Ok ==> final(self).i > old(self).i,
            match kw_one_ident_at(old(self).tv(), old(self).i as int) {
                Some((x, j)) => r matches Ok(a) && a@ == x && final(self).i == j,
                None => r is Err,
            },
        decreases old(self).measure(), 19int,
    {
        proof {
            self.lemma_view();
        }
        self.next();
        self.eat(&Tok::LParen)?;
        let arg = self.eat_ident()?;
        self.eat(&Tok::RParen)?;
        self.eat(&Tok::Semi)?;
        Ok(arg)
    }

    /// `kw ( ) ;`
    fn kw_no_arg(&mut self) -> (r: Result<(), ParseError>)
        requires
            old(self).wf(),
        ensures
            Self::moved(old(self), final(self)),
            r is Ok ==> final(self).i > old(self).i,
            match kw_no_arg_at(old(self).tv(), old(self).i as int) {
                Some(j) => r is Ok && final(self).i == j,
                None => r is Err,
            },
        decreases old(self).measure(), 19int,
    {
        proof {
            self.lemma_view();
        }
        self.next();
        self.eat(&Tok::LParen)?;
        self.eat(&Tok::RParen)?;
        self.eat(&Tok::Semi)?;
        Ok(())
    }

    /// `kw ;`
    fn kw_bare(&mut self) -> (r: Result<(), ParseError>)
        requires
            old(self).wf(),
        ensures
            Self::moved(old(self), final(self)),
            r is Ok ==> final(self).i > old(self).i,
            match kw_bare_at(old(self).tv(), old(self).i as int) {
                Some(j) => r is Ok && final(self).i == j,
                None => r is Err,
            },
        decreases old(self).measure(), 19int,
    {
        proof {
            self.lemma_view();
        }
        self.next();
        self.eat(&Tok::Semi)?;
        Ok(())
    }

    /// `let name = (allocate|settlement|establish_commission)(what);`, or a collection
    /// constructor: `apportionment[N]`, `facts_on_the_ground()`, `registry("rule")`.
    fn let_binding(&mut self) -> (r: Result<Stmt, ParseError>)
        requires
            old(self).wf(),
        ensures
            Self::moved(old(self), final(self)),
            r is Ok ==> final(self).i > old(self).i,
            match let_at(old(self).tv(), old(self).i as int) {
                Some((v, j)) => r matches Ok(st) && stmt_v(st) == v && final(self).i == j,
                None => r is Err,
            },
        decreases old(self).measure(), 19int,
    {
        proof {
            self.lemma_view();
        }
        self.next();
        let name = self.eat_ident()?;
        self.eat(&Tok::Eq)?;
        let kind_word = self.eat_ident()?;
        let k = kind_word.as_str();
        if str_eq(k, "apportionment") {
            self.eat(&Tok::LBracket)?;
            let size = self.eat_int()?;
            self.eat(&Tok::RBracket)?;
            self.eat(&Tok::Semi)?;
            return Ok(Stmt::Assign {
                var: name.clone(),
                value: Expr::Apportionment { label: name, size },
            });
        }
        if str_eq(k, "facts_on_the_ground") {
            self.eat(&Tok::LParen)?;
            self.eat(&Tok::RParen)?;
            self.eat(&Tok::Semi)?;
            return Ok(Stmt::Assign { var: name.clone(), value: Expr::FactsNew { label: name } });
        }
        if str_eq(k, "registry") {
            self.eat(&Tok::LParen)?;
            let rule = self.eat_string()?;
            self.eat(&Tok::RParen)?;
            self.eat(&Tok::Semi)?;
            return Ok(Stmt::Assign {
                var: name.clone(),
                value: Expr::RegistryNew { label: name, rule },
            });
        }
        self.eat(&Tok::LParen)?;
        let what = self.eat_ident()?;
        self.eat(&Tok::RParen)?;
        self.eat(&Tok::Semi)?;
        if str_eq(k, "allocate") {
            Ok(Stmt::Allocate { name, what })
        } else if str_eq(k, "settlement") {
            Ok(Stmt::Settlement { name, what })
        } else if str_eq(k, "establish_commission") {
            Ok(Stmt::EstablishCommission { name, subject: what })
        } else {
            let m = cat3(
                "`let` binding must be allocate/settlement/establish_commission, got `",
                k,
                "`",
            );
            self.fail(m)
        }
    }

    /// `disputed(name, official, actual);`
    fn disputed(&mut self) -> (r: Result<Stmt, ParseError>)
        requires
            old(self).wf(),
        ensures
            Self::moved(old(self), final(self)),
            r is Ok ==> final(self).i > old(self).i,
            match disputed_at(old(self).tv(), old(self).i as int) {
                Some((v, j)) => r matches Ok(st) && stmt_v(st) == v && final(self).i == j,
                None => r is Err,
            },
        decreases old(self).measure(), 19int,
    {
        proof {
            self.lemma_view();
        }
        self.next();
        self.eat(&Tok::LParen)?;
        let name = self.eat_ident()?;
        self.eat(&Tok::Comma)?;
        let official = self.eat_int()?;
        self.eat(&Tok::Comma)?;
        let actual = self.eat_int()?;
        self.eat(&Tok::RParen)?;
        self.eat(&Tok::Semi)?;
        Ok(Stmt::Disputed { name, official, actual })
    }

    /// `human_shields(verb(target));`
    fn human_shields(&mut self) -> (r: Result<Stmt, ParseError>)
        requires
            old(self).wf(),
        ensures
            Self::moved(old(self), final(self)),
            r is Ok ==> final(self).i > old(self).i,
            match human_shields_at(old(self).tv(), old(self).i as int) {
                Some((v, j)) => r matches Ok(st) && stmt_v(st) == v && final(self).i == j,
                None => r is Err,
            },
        decreases old(self).measure(), 19int,
    {
        proof {
            self.lemma_view();
        }
        self.next();
        self.eat(&Tok::LParen)?;
        let verb = self.eat_ident()?;
        self.eat(&Tok::LParen)?;
        let target = self.eat_ident()?;
        self.eat(&Tok::RParen)?;
        self.eat(&Tok::RParen)?;
        self.eat(&Tok::Semi)?;
        Ok(Stmt::HumanShields { verb, target })
    }

    /// `bribe(name, amount);`
    fn bribe(&mut self) -> (r: Result<Stmt, ParseError>)
        requires
            old(self).wf(),
        ensures
            Self::moved(old(self), final(self)),
            r is Ok ==> final(self).i > old(self).i,
            match bribe_at(old(self).tv(), old(self).i as int) {
                Some((v, j)) => r matches Ok(st) && stmt_v(st) == v && final(self).i == j,
                None => r is Err,
            },
        decreases old(self).measure(), 19int,
    {
        proof {
            self.lemma_view();
        }
        self.next();
        self.eat(&Tok::LParen)?;
        let name = self.eat_ident()?;
        self.eat(&Tok::Comma)?;
        let amount = self.expr()?;
        self.eat(&Tok::RParen)?;
        self.eat(&Tok::Semi)?;
        Ok(Stmt::Bribe { name, amount })
    }

    /// `announce "…";`
    fn announce(&mut self) -> (r: Result<Stmt, ParseError>)
        requires
            old(self).wf(),
        ensures
            Self::moved(old(self), final(self)),
            r is Ok ==> final(self).i > old(self).i,
            match announce_at(old(self).tv(), old(self).i as int) {
                Some((v, j)) => r matches Ok(st) && stmt_v(st) == v && final(self).i == j,
                None => r is Err,
            },
        decreases old(self).measure(), 19int,
    {
        proof {
            self.lemma_view();
        }
        self.next();
        let text = self.eat_string()?;
        self.eat(&Tok::Semi)?;
        Ok(Stmt::Announce { text })
    }

    /// `commit(subject);` / `foreclose(subject);`
    fn position(&mut self, stance: Stance) -> (r: Result<Stmt, ParseError>)
        requires
            old(self).wf(),
        ensures
            Self::moved(old(self), final(self)),
            r is Ok ==> final(self).i > old(self).i,
            match kw_one_ident_at(old(self).tv(), old(self).i as int) {
                Some((x, j)) => r matches Ok(st) && stmt_v(st) == (StmtV::Position { stance, subject: x })
                    && final(self).i == j,
                None => r is Err,
            },
        decreases old(self).measure(), 19int,
    {
        proof {
            self.lemma_view();
        }
        let subject = self.kw_one_ident()?;
        Ok(Stmt::Position { stance, subject })
    }

    /// `domestic` or `international`.
    fn audience(&mut self) -> (r: Result<Audience, ParseError>)
        requires
            old(self).wf(),
        ensures
            Self::moved(old(self), final(self)),
            r is Ok ==> final(self).i > old(self).i,
            match audience_at(old(self).tv(), old(self).i as int) {
                Some((x, j)) => r == Ok::<Audience, ParseError>(x) && final(self).i == j,
                None => r is Err,
            },
    {
        proof {
            self.lemma_view();
        }
        let word = self.eat_ident()?;
        if str_eq(word.as_str(), "domestic") {
            Ok(Audience::Domestic)
        } else if str_eq(word.as_str(), "international") {
            Ok(Audience::International)
        } else {
            let m = cat3("unknown audience `", word.as_str(), "` (expected `domestic` or `international`)");
            self.fail(m)
        }
    }

    /// `address(audience) { … }`
    fn address(&mut self) -> (r: Result<Stmt, ParseError>)
        requires
            old(self).wf(),
        ensures
            Self::moved(old(self), final(self)),
            r is Ok ==> final(self).i > old(self).i,
            match address_at(old(self).tv(), old(self).i as int) {
                Some((v, j)) => r matches Ok(st) && stmt_v(st) == v && final(self).i == j,
                None => r is Err,
            },
        decreases old(self).measure(), 19int,
    {
        proof {
            self.lemma_view();
        }
        self.next();
        self.eat(&Tok::LParen)?;
        let audience = self.audience()?;
        self.eat(&Tok::RParen)?;
        let body = self.block()?;
        Ok(Stmt::Address { audience, body })
    }

    /// The arms of a poly-statement up to its closing `}` (not consumed).
    fn arm_list(&mut self) -> (r: Result<Vec<(Audience, Vec<Stmt>)>, ParseError>)
        requires
            old(self).wf(),
        ensures
            Self::moved(old(self), final(self)),
            match arms_at(old(self).tv(), old(self).i as int, Seq::empty()) {
                Some((v, j)) => r matches Ok(a) && arms_v(a@) == v && final(self).i == j,
                None => r is Err,
            },
        decreases old(self).measure(), 19int,
    {
        let ghost ts = self.tv();
        let mut arms: Vec<(Audience, Vec<Stmt>)> = Vec::new();
        while !self.at_kind(&Tok::RBrace)
            invariant
                Self::moved(old(self), self),
                ts == self.tv(),
                arms_at(ts, self.i as int, arms_v(arms@)) == arms_at(ts, old(self).i as int, Seq::empty()),
            decreases self.toks.len() - self.i,
        {
            proof {
                self.lemma_view();
            }
            if self.at_kind(&Tok::Eof) {
                return self.fail(owned("unterminated poly-statement"));
            }
            let ghost j = self.i as int;
            if self.at_word("to") {
                self.next();
            } else {
                let m = cat("expected `to <audience>`, got ", describe(self.peek()).as_str());
                return self.fail(m);
            }
            let audience = self.audience()?;
            let ghost m = self.i as int;
            assert(block_from(ts, j, m) == block_at(ts, m));
            let body = self.block()?;
            proof {
                lemma_arms_v_push(arms@, (audience, body));
            }
            arms.push((audience, body));
        }
        proof {
            self.lemma_view();
        }
        Ok(arms)
    }

    /// `statement name { to X { … } to Y { … } }`
    fn poly_statement(&mut self) -> (r: Result<Stmt, ParseError>)
        requires
            old(self).wf(),
        ensures
            Self::moved(old(self), final(self)),
            r is Ok ==> final(self).i > old(self).i,
            match poly_at(old(self).tv(), old(self).i as int) {
                Some((v, j)) => r matches Ok(st) && stmt_v(st) == v && final(self).i == j,
                None => r is Err,
            },
        decreases old(self).measure(), 19int,
    {
        proof {
            self.lemma_view();
        }
        let ghost ts = self.tv();
        self.next();
        let name = self.eat_ident()?;
        self.eat(&Tok::LBrace)?;
        let arms = self.arm_list()?;
        proof {
            self.lemma_view();
        }
        self.eat(&Tok::RBrace)?;
        Ok(Stmt::PolyStatement { name, arms })
    }

    /// `name;`
    fn invoke(&mut self) -> (r: Result<Stmt, ParseError>)
        requires
            old(self).wf(),
        ensures
            Self::moved(old(self), final(self)),
            r is Ok ==> final(self).i > old(self).i,
            match invoke_at(old(self).tv(), old(self).i as int) {
                Some((v, j)) => r matches Ok(st) && stmt_v(st) == v && final(self).i == j,
                None => r is Err,
            },
        decreases old(self).measure(), 19int,
    {
        proof {
            self.lemma_view();
        }
        let name = self.eat_ident()?;
        self.eat(&Tok::Semi)?;
        Ok(Stmt::Invoke { name })
    }

    fn hasbara(&mut self) -> (r: Result<Stmt, ParseError>)
        requires
            old(self).wf(),
        ensures
            Self::moved(old(self), final(self)),
            r is Ok ==> final(self).i > old(self).i,
            match hasbara_at(old(self).tv(), old(self).i as int) {
                Some((v, j)) => r matches Ok(st) && stmt_v(st) == v && final(self).i == j,
                None => r is Err,
            },
        decreases old(self).measure(), 19int,
    {
        proof {
            self.lemma_view();
        }
        self.next();
        self.eat(&Tok::LParen)?;
        let talking_point = self.eat_string()?;
        self.eat(&Tok::RParen)?;
        let body = self.block()?;
        Ok(Stmt::Hasbara { talking_point, body })
    }

    fn mossad(&mut self) -> (r: Result<Stmt, ParseError>)
        requires
            old(self).wf(),
        ensures
            Self::moved(old(self), final(self)),
            r is Ok ==> final(self).i > old(self).i,
            match mossad_at(old(self).tv(), old(self).i as int) {
                Some((v, j)) => r matches Ok(st) && stmt_v(st) == v && final(self).i == j,
                None => r is Err,
            },
        decreases old(self).measure(), 19int,
    {
        proof {
            self.lemma_view();
        }
        self.eat_ident()?;
        let body = self.block()?;
        Ok(Stmt::Mossad { body })
    }

    /// `legislate(retroactively_sanction: verb);` / `legislate(expunge_last_discrepancy);`
    /// / `legislate(waive_gate);`
    fn legislate(&mut self) -> (r: Result<Stmt, ParseError>)
        requires
            old(self).wf(),
        ensures
            Self::moved(old(self), final(self)),
            r is Ok ==> final(self).i > old(self).i,
            match legislate_at(old(self).tv(), old(self).i as int) {
                Some((v, j)) => r matches Ok(st) && stmt_v(st) == v && final(self).i == j,
                None => r is Err,
            },
        decreases old(self).measure(), 19int,
    {
        proof {
            self.lemma_view();
        }
        self.next();
        self.eat(&Tok::LParen)?;
        let word = self.eat_ident()?;
        let toggle = if str_eq(word.as_str(), "retroactively_sanction") {
            self.eat(&Tok::Colon)?;
            let verb = self.eat_ident()?;
            LawToggle::RetroactivelySanction(verb)
        } else if str_eq(word.as_str(), "expunge_last_discrepancy") {
            LawToggle::ExpungeLastDiscrepancy
        } else if str_eq(word.as_str(), "waive_gate") {
            LawToggle::WaiveGate
        } else {
            let m = cat3("unknown legislate toggle `", word.as_str(), "`");
            return self.fail(m);
        };
        self.eat(&Tok::RParen)?;
        self.eat(&Tok::Semi)?;
        Ok(Stmt::Legislate { toggle })
    }

    /// `allocate(a, i, v);`
    fn allocate_slot(&mut self) -> (r: Result<Stmt, ParseError>)
        requires
            old(self).wf(),
        ensures
            Self::moved(old(self), final(self)),
            r is Ok ==> final(self).i > old(self).i,
            match allocate_slot_at(old(self).tv(), old(self).i as int) {
                Some((v, j)) => r matches Ok(st) && stmt_v(st) == v && final(self).i == j,
                None => r is Err,
            },
        decreases old(self).measure(), 19int,
    {
        proof {
            self.lemma_view();
        }
        self.next();
        self.eat(&Tok::LParen)?;
        let coll = self.eat_ident()?;
        self.eat(&Tok::Comma)?;
        let idx = self.expr()?;
        self.eat(&Tok::Comma)?;
        let value = self.expr()?;
        self.eat(&Tok::RParen)?;
        self.eat(&Tok::Semi)?;
        Ok(Stmt::AllocateSlot { coll, idx, value })
    }

    /// `kw(coll, expr);`
    fn coll_and_expr(&mut self) -> (r: Result<(String, Expr), ParseError>)
        requires
            old(self).wf(),
        ensures
            Self::moved(old(self), final(self)),
            r is Ok ==> final(self).i > old(self).i,
            match coll_and_expr_at(old(self).tv(), old(self).i as int) {
                Some((c, x, j)) => r matches Ok((a, e)) && a@ == c && expr_v(e) == x && final(self).i == j,
                None => r is Err,
            },
        decreases old(self).measure(), 19int,
    {
        proof {
            self.lemma_view();
        }
        self.next();
        self.eat(&Tok::LParen)?;
        let coll = self.eat_ident()?;
        self.eat(&Tok::Comma)?;
        let item = self.expr()?;
        self.eat(&Tok::RParen)?;
        self.eat(&Tok::Semi)?;
        Ok((coll, item))
    }

    /// `kw(a, b);` with two identifiers.
    fn two_idents(&mut self) -> (r: Result<(String, String), ParseError>)
        requires
            old(self).wf(),
        ensures
            Self::moved(old(self), final(self)),
            r is Ok ==> final(self).i > old(self).i,
            match two_idents_at(old(self).tv(), old(self).i as int) {
                Some((x, y, j)) => r matches Ok((a, b)) && a@ == x && b@ == y && final(self).i == j,
                None => r is Err,
            },
        decreases old(self).measure(), 19int,
    {
        proof {
            self.lemma_view();
        }
        self.next();
        self.eat(&Tok::LParen)?;
        let a = self.eat_ident()?;
        self.eat(&Tok::Comma)?;
        let b = self.eat_ident()?;
        self.eat(&Tok::RParen)?;
        self.eat(&Tok::Semi)?;
        Ok((a, b))
    }

    /// `classify(r, case, military|civilian);`
    fn classify(&mut self) -> (r: Result<Stmt, ParseError>)
        requires
            old(self).wf(),
        ensures
            Self::moved(old(self), final(self)),
            r is Ok ==> final(self).i > old(self).i,
            match classify_at(old(self).tv(), old(self).i as int) {
                Some((v, j)) => r matches Ok(st) && stmt_v(st) == v && final(self).i == j,
                None => r is Err,
            },
        decreases old(self).measure(), 19int,
    {
        proof {
            self.lemma_view();
        }
        self.next();
        self.eat(&Tok::LParen)?;
        let coll = self.eat_ident()?;
        self.eat(&Tok::Comma)?;
        let case = self.eat_ident()?;
        self.eat(&Tok::Comma)?;
        let j = self.eat_ident()?;
        let jurisdiction = if str_eq(j.as_str(), "military") {
            Jurisdiction::Military
        } else if str_eq(j.as_str(), "civilian") {
            Jurisdiction::Civilian
        } else {
            let m = cat3("unknown jurisdiction `", j.as_str(), "` (expected `military` or `civilian`)");
            return self.fail(m);
        };
        self.eat(&Tok::RParen)?;
        self.eat(&Tok::Semi)?;
        Ok(Stmt::Classify { coll, case, jurisdiction })
    }

    // ─────────── expressions (precedence climbing) ───────────

    fn expr(&mut self) -> (r: Result<Expr, ParseError>)
        requires
            old(self).wf(),
        ensures
            Self::moved(old(self), final(self)),
            r is Ok ==> final(self).i > old(self).i,
            match expr_at(old(self).tv(), old(self).i as int) {
                Some((v, j)) => r matches Ok(e) && expr_v(e) == v && final(self).i == j,
                None => r is Err,
            },
        decreases old(self).measure(), 10int,
    {
        self.binary(5)
    }

    /// One precedence level of left-associative binary operators: level 5 is `||`,
    /// then `&&`, equality, comparison, additive, and level 0 multiplicative.
    fn binary(&mut self, level: u8) -> (r: Result<Expr, ParseError>)
        requires
            old(self).wf(),
            level <= 5,
        ensures
            Self::moved(old(self), final(self)),
            r is Ok ==> final(self).i > old(self).i,
            match binary_at(old(self).tv(), old(self).i as int, level as int) {
                Some((v, j)) => r matches Ok(e) && expr_v(e) == v && final(self).i == j,
                None => r is Err,
            },
        decreases old(self).measure(), level as int + 4,
    {
        let ghost ts = self.tv();
        let mut lhs = if level == 0 { self.unary()? } else { self.binary(level - 1)? };
        loop
            invariant
                Self::moved(old(self), self),
                self.i > old(self).i,
                level <= 5,
                ts == self.tv(),
                binary_rest(ts, self.i as int, level as int, expr_v(lhs)) == binary_at(ts, old(self).i as int, level as int),
            decreases self.toks.len() - self.i,
        {
            proof {
                self.lemma_view();
            }
            let op = match op_at(level, self.peek()) {
                Some(op) => op,
                None => {
                    return Ok(lhs);
                },
            };
            self.next();
            let rhs = if level == 0 { self.unary()? } else { self.binary(level - 1)? };
            lhs = bin(op, lhs, rhs);
        }
    }

    fn unary(&mut self) -> (r: Result<Expr, ParseError>)
        requires
            old(self).wf(),
        ensures
            Self::moved(old(self), final(self)),
            r is Ok ==> final(self).i > old(self).i,
            match unary_at(old(self).tv(), old(self).i as int) {
                Some((v, j)) => r matches Ok(e) && expr_v(e) == v && final(self).i == j,
                None => r is Err,
            },
        decreases old(self).measure(), 3int,
    {
        proof {
            self.lemma_view();
        }
        if self.at_kind(&Tok::Minus) {
            self.next();
            let e = self.unary()?;
            Ok(Expr::UnOp { op: UnOp::Neg, expr: Box::new(e) })
        } else if self.at_kind(&Tok::Bang) {
            self.next();
            let e = self.unary()?;
            Ok(Expr::UnOp { op: UnOp::Not, expr: Box::new(e) })
        } else {
            self.primary()
        }
    }

    /// `( ident )` at the cursor, where the identifier is a cast keyword.
    fn cast_ahead(&self) -> (r: Option<String>)
        requires
            self.wf(),
        ensures
            r is Some ==> {
                &&& self.i + 3 < self.toks.len()
                &&& !(self.toks@[self.i as int].tok is Eof)
                &&& !(self.toks@[self.i + 1].tok is Eof)
                &&& !(self.toks@[self.i + 2].tok is Eof)
            },
            match cast_ahead_at(self.tv(), self.i as int) {
                Some(kw) => r matches Some(s) && s@ == kw,
                None => r is None,
            },
    {
        proof {
            self.lemma_view();
        }
        if !self.at_kind(&Tok::LParen) || self.toks.len() - self.i <= 3 {
            return None;
        }
        match &self.toks[self.i + 1].tok {
            Tok::Ident(kw) => {
                if is_cast_keyword(kw.as_str()) && kind(&self.toks[self.i + 2].tok) == kind(&Tok::RParen) {
                    Some(kw.clone())
                } else {
                    None
                }
            },
            _ => None,
        }
    }

    fn primary(&mut self) -> (r: Result<Expr, ParseError>)
        requires
            old(self).wf(),
        ensures
            Self::moved(old(self), final(self)),
            r is Ok ==> final(self).i > old(self).i,
            match primary_at(old(self).tv(), old(self).i as int) {
                Some((v, j)) => r matches Ok(e) && expr_v(e) == v && final(self).i == j,
                None => r is Err,
            },
        decreases old(self).measure(), 2int,
    {
        proof {
            self.lemma_view();
        }
        let t = copy_tok(self.peek());
        match t {
            Tok::Int(v) => {
                self.next();
                Ok(Expr::Int(v))
            },
            Tok::Str(s) => {
                self.next();
                Ok(Expr::Str(s))
            },
            Tok::LParen => {
                match self.cast_ahead() {
                    Some(kw) => {
                        self.next();
                        self.next();
                        self.next();
                        let operand = self.unary()?;
                        Ok(build_cast(kw.as_str(), operand))
                    },
                    None => {
                        self.next();
                        let e = self.expr()?;
                        self.eat(&Tok::RParen)?;
                        Ok(e)
                    },
                }
            },
            Tok::Ident(name) => {
                self.next();
                let n = name.as_str();
                if str_eq(n, "true") {
                    return Ok(Expr::Bool(true));
                }
                if str_eq(n, "false") {
                    return Ok(Expr::Bool(false));
                }
                if !self.at_kind(&Tok::LParen) {
                    return Ok(Expr::Var(name));
                }
                self.next();
                if str_eq(n, "read") {
                    let e = self.expr()?;
                    self.eat(&Tok::RParen)?;
                    Ok(Expr::Read(Box::new(e)))
                } else if str_eq(n, "external") {
                    let args = self.arg_list()?;
                    self.eat(&Tok::RParen)?;
                    Ok(Expr::External(args))
                } else if str_eq(n, "via") {
                    let proxy = self.eat_ident()?;
                    self.eat(&Tok::Comma)?;
                    let inner = self.expr()?;
                    self.eat(&Tok::RParen)?;
                    Ok(Expr::Via { proxy, inner: Box::new(inner) })
                } else if str_eq(n, "index") {
                    let coll = self.eat_ident()?;
                    self.eat(&Tok::Comma)?;
                    let idx = self.expr()?;
                    self.eat(&Tok::RParen)?;
                    Ok(Expr::Index { coll, idx: Box::new(idx) })
                } else if str_eq(n, "route") {
                    let coll = self.eat_ident()?;
                    self.eat(&Tok::Comma)?;
                    let case = self.eat_ident()?;
                    self.eat(&Tok::RParen)?;
                    Ok(Expr::Route { coll, case })
                } else if str_eq(n, "balanced") || str_eq(n, "length") || str_eq(n, "equal_before_the_law") {
                    let coll = self.eat_ident()?;
                    self.eat(&Tok::RParen)?;
                    if str_eq(n, "balanced") {
                        Ok(Expr::Balanced { coll })
                    } else if str_eq(n, "length") {
                        Ok(Expr::Length { coll })
                    } else {
                        Ok(Expr::EqualBeforeLaw { coll })
                    }
                } else {
                    let args = self.arg_list()?;
                    self.eat(&Tok::RParen)?;
                    Ok(Expr::Call { name, args })
                }
            },
            _ => {
                let m = cat("unexpected token in expression: ", describe(&t).as_str());
                self.fail(m)
            },
        }
    }
}

/// The binary operator that the token denotes at a precedence level, if any.
fn op_at(level: u8, t: &Tok) -> (r: Option<BinOp>)
    ensures
        r is Some ==> !(*t is Eof),
        r == op_at_level(level as int, tok_view(*t)),
{
    match (level, t) {
        (5, Tok::PipePipe) => Some(BinOp::Or),
        (4, Tok::AmpAmp) => Some(BinOp::And),
        (3, Tok::EqEq) => Some(BinOp::Eq),
        (3, Tok::Ne) => Some(BinOp::Ne),
        (2, Tok::Lt) => Some(BinOp::Lt),
        (2, Tok::Le) => Some(BinOp::Le),
        (2, Tok::Gt) => Some(BinOp::Gt),
        (2, Tok::Ge) => Some(BinOp::Ge),
        (1, Tok::Plus) => Some(BinOp::Add),
        (1, Tok::Minus) => Some(BinOp::Sub),
        (0, Tok::Star) => Some(BinOp::Mul),
        (0, Tok::Slash) => Some(BinOp::Div),
        (0, Tok::Percent) => Some(BinOp::Mod),
        _ => None,
    }
}

fn bin(op: BinOp, lhs: Expr, rhs: Expr) -> (e: Expr)
    ensures
        e == (Expr::BinOp { op, lhs: Box::new(lhs), rhs: Box::new(rhs) }),
{
    Expr::BinOp { op, lhs: Box::new(lhs), rhs: Box::new(rhs) }
}

/// The built-in expression forms that may also stand as a statement.
fn is_builtin_expr(k: &str) -> (r: bool)
    ensures
        r == builtin_expr_word(k@),
{
    str_eq(k, "via") || str_eq(k, "read") || str_eq(k, "external") || str_eq(k, "index")
        || str_eq(k, "route") || str_eq(k, "balanced") || str_eq(k, "length")
        || str_eq(k, "equal_before_the_law")
}

fn is_cast_keyword(kw: &str) -> (r: bool)
    ensures
        r == cast_keyword(kw@),
{
    str_eq(kw, "PUBLIC") || str_eq(kw, "RESTRICTED") || str_eq(kw, SODI) || str_eq(kw, "self_defense")
}

fn build_cast(kw: &str, operand: Expr) -> (e: Expr)
    ensures
        expr_v(e) == cast_of(kw@, expr_v(operand)),
{
    if str_eq(kw, "PUBLIC") {
        Expr::Cast { target: Clearance::Public, expr: Box::new(operand) }
    } else if str_eq(kw, "RESTRICTED") {
        Expr::Cast { target: Clearance::Restricted, expr: Box::new(operand) }
    } else if str_eq(kw, "self_defense") {
        Expr::SelfDefense(Box::new(operand))
    } else {
        Expr::Cast { target: Clearance::Sodi, expr: Box::new(operand) }
    }
}

} // verus!
