//! The lexer: source → tokens, with line tracking for diagnostics.

use vstd::prelude::*;
use vstd::string::*;
use crate::model::SODI;
use crate::text::{cat, cat3, chars_of, is_word, is_word_char, matches_at, matches_at_exec, string_of};

verus! {

/// A lexical token.
#[derive(Clone, Debug, PartialEq)]
pub enum Tok {
    /// `@operation`
    Operation,
    /// a `"…"` string literal (contents, no quotes)
    Str(String),
    /// `==`
    EqEq,
    /// an integer literal
    Int(i64),
    /// an identifier or keyword
    Ident(String),
    /// a `# …` line comment (its trimmed text)
    Comment(String),
    LParen,
    RParen,
    LBrace,
    RBrace,
    LBracket,
    RBracket,
    Comma,
    Semi,
    Colon,
    Eq,
    Ne,
    Lt,
    Le,
    Gt,
    Ge,
    Plus,
    Minus,
    Star,
    Slash,
    Percent,
    Bang,
    AmpAmp,
    PipePipe,
    Eof,
}

/// A copy of a token.
pub fn copy_tok(t: &Tok) -> (r: Tok)
    ensures
        r == *t,
{
    match t {
        Tok::Str(s) => Tok::Str(s.clone()),
        Tok::Ident(s) => Tok::Ident(s.clone()),
        Tok::Comment(s) => Tok::Comment(s.clone()),
        Tok::Int(v) => Tok::Int(*v),
        Tok::Operation => Tok::Operation,
        Tok::EqEq => Tok::EqEq,
        Tok::LParen => Tok::LParen,
        Tok::RParen => Tok::RParen,
        Tok::LBrace => Tok::LBrace,
        Tok::RBrace => Tok::RBrace,
        Tok::LBracket => Tok::LBracket,
        Tok::RBracket => Tok::RBracket,
        Tok::Comma => Tok::Comma,
        Tok::Semi => Tok::Semi,
        Tok::Colon => Tok::Colon,
        Tok::Eq => Tok::Eq,
        Tok::Ne => Tok::Ne,
        Tok::Lt => Tok::Lt,
        Tok::Le => Tok::Le,
        Tok::Gt => Tok::Gt,
        Tok::Ge => Tok::Ge,
        Tok::Plus => Tok::Plus,
        Tok::Minus => Tok::Minus,
        Tok::Star => Tok::Star,
        Tok::Slash => Tok::Slash,
        Tok::Percent => Tok::Percent,
        Tok::Bang => Tok::Bang,
        Tok::AmpAmp => Tok::AmpAmp,
        Tok::PipePipe => Tok::PipePipe,
        Tok::Eof => Tok::Eof,
    }
}

/// A token's abstract value: string payloads as character sequences.
pub enum TokV {
    Operation,
    Str(Seq<char>),
    EqEq,
    Int(i64),
    Ident(Seq<char>),
    Comment(Seq<char>),
    LParen,
    RParen,
    LBrace,
    RBrace,
    LBracket,
    RBracket,
    Comma,
    Semi,
    Colon,
    Eq,
    Ne,
    Lt,
    Le,
    Gt,
    Ge,
    Plus,
    Minus,
    Star,
    Slash,
    Percent,
    Bang,
    AmpAmp,
    PipePipe,
    Eof,
}

/// The abstract value of a token.
pub open spec fn tok_view(t: Tok) -> TokV {
    match t {
        Tok::Operation => TokV::Operation,
        Tok::Str(s) => TokV::Str(s@),
        Tok::EqEq => TokV::EqEq,
        Tok::Int(v) => TokV::Int(v),
        Tok::Ident(s) => TokV::Ident(s@),
        Tok::Comment(s) => TokV::Comment(s@),
        Tok::LParen => TokV::LParen,
        Tok::RParen => TokV::RParen,
        Tok::LBrace => TokV::LBrace,
        Tok::RBrace => TokV::RBrace,
        Tok::LBracket => TokV::LBracket,
        Tok::RBracket => TokV::RBracket,
        Tok::Comma => TokV::Comma,
        Tok::Semi => TokV::Semi,
        Tok::Colon => TokV::Colon,
        Tok::Eq => TokV::Eq,
        Tok::Ne => TokV::Ne,
        Tok::Lt => TokV::Lt,
        Tok::Le => TokV::Le,
        Tok::Gt => TokV::Gt,
        Tok::Ge => TokV::Ge,
        Tok::Plus => TokV::Plus,
        Tok::Minus => TokV::Minus,
        Tok::Star => TokV::Star,
        Tok::Slash => TokV::Slash,
        Tok::Percent => TokV::Percent,
        Tok::Bang => TokV::Bang,
        Tok::AmpAmp => TokV::AmpAmp,
        Tok::PipePipe => TokV::PipePipe,
        Tok::Eof => TokV::Eof,
    }
}

/// A token with its (1-based) source line.
#[derive(Clone, Debug, PartialEq)]
pub struct Token {
    pub tok: Tok,
    pub line: u32,
}

/// A lexing failure.
#[derive(Clone, Debug, PartialEq)]
pub struct LexError {
    pub message: String,
    pub line: u32,
}

impl LexError {
    /// The human-readable form: `lex error (line N): message`.
    pub fn to_string(&self) -> (r: String)
        ensures
            r@ == "lex error (line "@ + crate::text::digits(self.line as nat) + "): "@ + self.message@,
    {
        let mut r = cat3("lex error (line ", crate::text::u64_str(self.line as u64).as_str(), "): ");
        r.append(self.message.as_str());
        r
    }
}

// ─────────── character classes ───────────

/// ASCII letter or `_`: may start an identifier.
pub open spec fn ident_start(c: char) -> bool {
    ('a' <= c && c <= 'z') || ('A' <= c && c <= 'Z') || c == '_'
}

/// ASCII digit.
pub open spec fn is_digit(c: char) -> bool {
    '0' <= c && c <= '9'
}

/// Blank characters skipped between tokens (newlines are counted separately): the
/// Unicode `White_Space` characters, which `char::is_whitespace` accepts.
pub open spec fn blank(c: char) -> bool {
    c == ' ' || c == '\t' || c == '\n' || c == '\r' || c == '\u{0b}' || c == '\u{0c}' || c == '\u{85}'
        || c == '\u{a0}' || c == '\u{1680}' || ('\u{2000}' <= c && c <= '\u{200a}') || c == '\u{2028}'
        || c == '\u{2029}' || c == '\u{202f}' || c == '\u{205f}' || c == '\u{3000}'
}

/// The `Debug` form of a character, as `format!("{:?}", c)` gives it: quoted, with
/// escapes for quotes, backslashes, control and other non-printable characters.
pub uninterp spec fn char_debug(c: char) -> Seq<char>;

/// `<char as Debug>::fmt`. Claimed: nothing but that the result is the `Debug` form of
/// `c`, named by `char_debug`.
#[verifier::external_body]
fn debug_char(c: char) -> (r: String)
    ensures
        r@ == char_debug(c),
{
    format!("{:?}", c)
}

/// The next line number (saturating).
pub open spec fn next_line(line: u32) -> u32 {
    if line < u32::MAX { (line + 1) as u32 } else { line }
}

/// The end of the run of word characters starting at `i`.
pub open spec fn word_end(cs: Seq<char>, i: int) -> int
    decreases cs.len() - i,
{
    if i < 0 || i >= cs.len() || !is_word(cs[i]) { i } else { word_end(cs, i + 1) }
}

/// The end of the run of digits starting at `i`.
pub open spec fn digit_end(cs: Seq<char>, i: int) -> int
    decreases cs.len() - i,
{
    if i < 0 || i >= cs.len() || !is_digit(cs[i]) { i } else { digit_end(cs, i + 1) }
}

/// The first `"` at or after `i` (or the end of input).
pub open spec fn quote_end(cs: Seq<char>, i: int) -> int
    decreases cs.len() - i,
{
    if i < 0 || i >= cs.len() || cs[i] == '"' { i } else { quote_end(cs, i + 1) }
}

/// The first newline at or after `i` (or the end of input).
pub open spec fn line_end(cs: Seq<char>, i: int) -> int
    decreases cs.len() - i,
{
    if i < 0 || i >= cs.len() || cs[i] == '\n' { i } else { line_end(cs, i + 1) }
}

/// The line number after passing over `cs[i..j]`.
pub open spec fn line_after(cs: Seq<char>, i: int, j: int, line: u32) -> u32
    decreases j - i,
{
    if i < 0 || i >= j || i >= cs.len() {
        line
    } else {
        line_after(cs, i + 1, j, if cs[i] == '\n' { next_line(line) } else { line })
    }
}

/// The value of the decimal digits `cs[i..j]`.
pub open spec fn digits_value(cs: Seq<char>, i: int, j: int) -> int
    decreases j - i,
{
    if j <= i {
        0
    } else {
        digits_value(cs, i, j - 1) * 10 + (cs[j - 1] as int - '0' as int)
    }
}

/// Whether a character is trimmed from a comment's ends.
pub open spec fn trim_blank(c: char) -> bool {
    c == ' ' || c == '\t' || c == '\r'
}

/// `s` with blanks trimmed from the front.
pub open spec fn trim_front(s: Seq<char>) -> Seq<char>
    decreases s.len(),
{
    if s.len() > 0 && trim_blank(s[0]) { trim_front(s.drop_first()) } else { s }
}

/// `s` with blanks trimmed from the back.
pub open spec fn trim_back(s: Seq<char>) -> Seq<char>
    decreases s.len(),
{
    if s.len() > 0 && trim_blank(s.last()) { trim_back(s.drop_last()) } else { s }
}

// ─────────── one scanning step ───────────

/// The outcome of scanning at one position.
pub enum Step {
    /// Skip to a position, with the resulting line.
    Skip(int, u32),
    /// Emit a token (at the given line) and continue at the position.
    Emit(TokV, u32, int),
    /// Fail with a message at a line.
    Fail(Seq<char>, u32),
}

/// The single-character punctuation tokens.
pub open spec fn punct(c: char) -> Option<TokV> {
    if c == '(' { Some(TokV::LParen) }
    else if c == ')' { Some(TokV::RParen) }
    else if c == '{' { Some(TokV::LBrace) }
    else if c == '}' { Some(TokV::RBrace) }
    else if c == '[' { Some(TokV::LBracket) }
    else if c == ']' { Some(TokV::RBracket) }
    else if c == ',' { Some(TokV::Comma) }
    else if c == ';' { Some(TokV::Semi) }
    else if c == ':' { Some(TokV::Colon) }
    else if c == '+' { Some(TokV::Plus) }
    else if c == '-' { Some(TokV::Minus) }
    else if c == '*' { Some(TokV::Star) }
    else if c == '/' { Some(TokV::Slash) }
    else if c == '%' { Some(TokV::Percent) }
    else { None }
}

/// The next character is `d`.
pub open spec fn next_is(cs: Seq<char>, i: int, d: char) -> bool {
    i + 1 < cs.len() && cs[i + 1] == d
}

/// What the scanner does at position `i < cs.len()`.
pub open spec fn step(cs: Seq<char>, i: int, line: u32) -> Step {
    let c = cs[i];
    if c == '\n' {
        Step::Skip(i + 1, next_line(line))
    } else if blank(c) {
        Step::Skip(i + 1, line)
    } else if c == '#' {
        let e = line_end(cs, i + 1);
        Step::Emit(TokV::Comment(trim_back(trim_front(cs.subrange(i + 1, e)))), line, e)
    } else if c == '@' {
        let e = word_end(cs, i + 1);
        let w = cs.subrange(i + 1, e);
        if w == "operation"@ {
            Step::Emit(TokV::Operation, line, e)
        } else {
            Step::Fail("unknown decorator `@"@ + w + "` (only `@operation` exists)"@, line)
        }
    } else if c == '"' {
        let e = quote_end(cs, i + 1);
        let l = line_after(cs, i + 1, e, line);
        if e >= cs.len() {
            Step::Fail("unterminated string literal"@, l)
        } else {
            Step::Emit(TokV::Str(cs.subrange(i + 1, e)), l, e + 1)
        }
    } else if c == '=' {
        if next_is(cs, i, '=') { Step::Emit(TokV::EqEq, line, i + 2) } else { Step::Emit(TokV::Eq, line, i + 1) }
    } else if c == '!' {
        if next_is(cs, i, '=') { Step::Emit(TokV::Ne, line, i + 2) } else { Step::Emit(TokV::Bang, line, i + 1) }
    } else if c == '<' {
        if next_is(cs, i, '=') { Step::Emit(TokV::Le, line, i + 2) } else { Step::Emit(TokV::Lt, line, i + 1) }
    } else if c == '>' {
        if next_is(cs, i, '=') { Step::Emit(TokV::Ge, line, i + 2) } else { Step::Emit(TokV::Gt, line, i + 1) }
    } else if c == '&' && next_is(cs, i, '&') {
        Step::Emit(TokV::AmpAmp, line, i + 2)
    } else if c == '|' && next_is(cs, i, '|') {
        Step::Emit(TokV::PipePipe, line, i + 2)
    } else if punct(c) is Some {
        Step::Emit(punct(c)->0, line, i + 1)
    } else if is_digit(c) {
        let e = digit_end(cs, i);
        let v = digits_value(cs, i, e);
        if v <= i64::MAX {
            Step::Emit(TokV::Int(v as i64), line, e)
        } else {
            Step::Fail("integer literal out of range: "@ + cs.subrange(i, e), line)
        }
    } else if ident_start(c) {
        let e = word_end(cs, i);
        Step::Emit(TokV::Ident(cs.subrange(i, e)), line, e)
    } else if matches_at(cs, SODI@, i) {
        Step::Emit(TokV::Ident(SODI@), line, i + SODI@.len())
    } else {
        Step::Fail("unexpected character "@ + char_debug(c), line)
    }
}

/// The token stream (or the first failure) from position `i` at `line`.
pub open spec fn lex_from(cs: Seq<char>, i: int, line: u32) -> Result<Seq<(TokV, u32)>, (Seq<char>, u32)>
    decreases cs.len() - i,
{
    if i < 0 || i >= cs.len() {
        Ok(seq![(TokV::Eof, line)])
    } else {
        match step(cs, i, line) {
            Step::Skip(j, l) => if j > i { lex_from(cs, j, l) } else { Err((Seq::empty(), line)) },
            Step::Emit(t, l, j) => if i < j <= cs.len() {
                match lex_from(cs, j, l) {
                    Ok(rest) => Ok(seq![(t, l)] + rest),
                    Err(e) => Err(e),
                }
            } else {
                Err((Seq::empty(), line))
            },
            Step::Fail(m, l) => Err((m, l)),
        }
    }
}

/// The abstract token stream of a source text.
pub open spec fn lex_spec(src: Seq<char>) -> Result<Seq<(TokV, u32)>, (Seq<char>, u32)> {
    lex_from(src, 0, 1)
}

/// The abstract values of a token vector.
pub open spec fn tokens_view(ts: Seq<Token>) -> Seq<(TokV, u32)> {
    ts.map_values(|t: Token| (tok_view(t.tok), t.line))
}


// ─────────── the executable scanner ───────────

fn word_end_exec(cs: &Vec<char>, i: usize) -> (r: usize)
    requires
        i <= cs.len(),
    ensures
        r as int == word_end(cs@, i as int),
        i <= r <= cs.len(),
        (i < cs.len() && is_word(cs@[i as int])) ==> r > i,
{
    let mut j = i;
    while j < cs.len() && is_word_char(cs[j])
        invariant
            i <= j <= cs.len(),
            word_end(cs@, j as int) == word_end(cs@, i as int),
        decreases cs.len() - j,
    {
        j = j + 1;
    }
    j
}

fn digit_end_exec(cs: &Vec<char>, i: usize) -> (r: usize)
    requires
        i <= cs.len(),
    ensures
        r as int == digit_end(cs@, i as int),
        i <= r <= cs.len(),
        (i < cs.len() && is_digit(cs@[i as int])) ==> r > i,
        forall|k: int| i <= k < r ==> is_digit(cs@[k]),
{
    let mut j = i;
    while j < cs.len() && '0' <= cs[j] && cs[j] <= '9'
        invariant
            i <= j <= cs.len(),
            digit_end(cs@, j as int) == digit_end(cs@, i as int),
            forall|k: int| i <= k < j ==> is_digit(cs@[k]),
        decreases cs.len() - j,
    {
        j = j + 1;
    }
    j
}

fn quote_end_exec(cs: &Vec<char>, i: usize) -> (r: usize)
    requires
        i <= cs.len(),
    ensures
        r as int == quote_end(cs@, i as int),
        i <= r <= cs.len(),
{
    let mut j = i;
    while j < cs.len() && cs[j] != '"'
        invariant
            i <= j <= cs.len(),
            quote_end(cs@, j as int) == quote_end(cs@, i as int),
        decreases cs.len() - j,
    {
        j = j + 1;
    }
    j
}

fn line_end_exec(cs: &Vec<char>, i: usize) -> (r: usize)
    requires
        i <= cs.len(),
    ensures
        r as int == line_end(cs@, i as int),
        i <= r <= cs.len(),
{
    let mut j = i;
    while j < cs.len() && cs[j] != '\n'
        invariant
            i <= j <= cs.len(),
            line_end(cs@, j as int) == line_end(cs@, i as int),
        decreases cs.len() - j,
    {
        j = j + 1;
    }
    j
}

fn next_line_exec(line: u32) -> (r: u32)
    ensures
        r == next_line(line),
{
    if line < u32::MAX { line + 1 } else { line }
}

fn line_after_exec(cs: &Vec<char>, i: usize, j: usize, line: u32) -> (r: u32)
    requires
        i <= j <= cs.len(),
    ensures
        r == line_after(cs@, i as int, j as int, line),
{
    let mut k = i;
    let mut l = line;
    while k < j
        invariant
            i <= k <= j,
            j <= cs.len(),
            line_after(cs@, k as int, j as int, l) == line_after(cs@, i as int, j as int, line),
        decreases j - k,
    {
        if cs[k] == '\n' {
            l = next_line_exec(l);
        }
        k = k + 1;
    }
    l
}

proof fn lemma_digits_mono(cs: Seq<char>, i: int, k: int, e: int)
    requires
        i <= k <= e <= cs.len(),
        forall|q: int| i <= q < e ==> is_digit(cs[q]),
    ensures
        digits_value(cs, i, k) <= digits_value(cs, i, e),
        0 <= digits_value(cs, i, k),
    decreases e - k,
{
    lemma_digits_nonneg(cs, i, k);
    if k < e {
        lemma_digits_mono(cs, i, k + 1, e);
        assert(digits_value(cs, i, k + 1) == digits_value(cs, i, k) * 10 + (cs[k] as int - '0' as int));
    }
}

proof fn lemma_digits_nonneg(cs: Seq<char>, i: int, k: int)
    requires
        i <= k <= cs.len(),
        forall|q: int| i <= q < k ==> is_digit(cs[q]),
    ensures
        0 <= digits_value(cs, i, k),
    decreases k - i,
{
    if k > i {
        lemma_digits_nonneg(cs, i, k - 1);
    }
}

fn digit_of(c: char) -> (d: i64)
    requires
        is_digit(c),
    ensures
        d as int == c as int - '0' as int,
        0 <= d <= 9,
{
    if c == '0' { 0 }
    else if c == '1' { 1 }
    else if c == '2' { 2 }
    else if c == '3' { 3 }
    else if c == '4' { 4 }
    else if c == '5' { 5 }
    else if c == '6' { 6 }
    else if c == '7' { 7 }
    else if c == '8' { 8 }
    else { 9 }
}

fn digits_value_exec(cs: &Vec<char>, i: usize, e: usize) -> (r: Option<i64>)
    requires
        i <= e <= cs.len(),
        forall|q: int| i <= q < e ==> is_digit(cs@[q]),
    ensures
        match r {
            Some(v) => v as int == digits_value(cs@, i as int, e as int),
            None => digits_value(cs@, i as int, e as int) > i64::MAX,
        },
{
    let mut v: i64 = 0;
    let mut k = i;
    while k < e
        invariant
            i <= k <= e,
            e <= cs.len(),
            forall|q: int| i <= q < e ==> is_digit(cs@[q]),
            v as int == digits_value(cs@, i as int, k as int),
            0 <= v,
        decreases e - k,
    {
        let d = digit_of(cs[k]);
        let m = v.checked_mul(10);
        match m {
            None => {
                proof {
                    lemma_digits_mono(cs@, i as int, k + 1, e as int);
                }
                return None;
            },
            Some(m) => {
                match m.checked_add(d) {
                    None => {
                        proof {
                            lemma_digits_mono(cs@, i as int, k + 1, e as int);
                        }
                        return None;
                    },
                    Some(n) => {
                        v = n;
                    },
                }
            },
        }
        k = k + 1;
    }
    Some(v)
}

fn is_trim_blank(c: char) -> (r: bool)
    ensures
        r == trim_blank(c),
{
    c == ' ' || c == '\t' || c == '\r'
}

fn trimmed(cs: &Vec<char>, a0: usize, e: usize) -> (r: String)
    requires
        a0 <= e <= cs.len(),
    ensures
        r@ == trim_back(trim_front(cs@.subrange(a0 as int, e as int))),
{
    let mut a = a0;
    while a < e && is_trim_blank(cs[a])
        invariant
            a0 <= a <= e,
            e <= cs.len(),
            trim_front(cs@.subrange(a as int, e as int)) == trim_front(cs@.subrange(a0 as int, e as int)),
        decreases e - a,
    {
        assert(cs@.subrange(a as int, e as int).drop_first() =~= cs@.subrange(a + 1, e as int));
        a = a + 1;
    }
    assert(trim_front(cs@.subrange(a as int, e as int)) == cs@.subrange(a as int, e as int));
    let mut b = e;
    while b > a && is_trim_blank(cs[b - 1])
        invariant
            a <= b <= e,
            e <= cs.len(),
            trim_back(cs@.subrange(a as int, b as int)) == trim_back(cs@.subrange(a as int, e as int)),
        decreases b - a,
    {
        assert(cs@.subrange(a as int, b as int).drop_last() =~= cs@.subrange(a as int, b - 1));
        b = b - 1;
    }
    assert(trim_back(cs@.subrange(a as int, b as int)) == cs@.subrange(a as int, b as int));
    string_of(cs, a, b)
}

/// One executable scanning step.
enum StepX {
    Skip(usize, u32),
    Emit(Tok, u32, usize),
    Fail(String, u32),
}

spec fn step_view(s: StepX) -> Step {
    match s {
        StepX::Skip(j, l) => Step::Skip(j as int, l),
        StepX::Emit(t, l, j) => Step::Emit(tok_view(t), l, j as int),
        StepX::Fail(m, l) => Step::Fail(m@, l),
    }
}

fn punct_exec(c: char) -> (r: Option<Tok>)
    ensures
        match r {
            Some(t) => punct(c) == Some(tok_view(t)),
            None => punct(c) is None,
        },
{
    if c == '(' { Some(Tok::LParen) }
    else if c == ')' { Some(Tok::RParen) }
    else if c == '{' { Some(Tok::LBrace) }
    else if c == '}' { Some(Tok::RBrace) }
    else if c == '[' { Some(Tok::LBracket) }
    else if c == ']' { Some(Tok::RBracket) }
    else if c == ',' { Some(Tok::Comma) }
    else if c == ';' { Some(Tok::Semi) }
    else if c == ':' { Some(Tok::Colon) }
    else if c == '+' { Some(Tok::Plus) }
    else if c == '-' { Some(Tok::Minus) }
    else if c == '*' { Some(Tok::Star) }
    else if c == '/' { Some(Tok::Slash) }
    else if c == '%' { Some(Tok::Percent) }
    else { None }
}

fn next_is_exec(cs: &Vec<char>, i: usize, d: char) -> (r: bool)
    requires
        i < cs.len(),
    ensures
        r == next_is(cs@, i as int, d),
{
    i + 1 < cs.len() && cs[i + 1] == d
}

fn step_word(cs: &Vec<char>, op_word: &Vec<char>, i: usize, line: u32) -> (r: StepX)
    requires
        i < cs.len(),
        cs@[i as int] == '@',
        op_word@ == "operation"@,
    ensures
        step_view(r) == step(cs@, i as int, line),
        match r {
            StepX::Skip(j, _) => i < j <= cs.len(),
            StepX::Emit(_, _, j) => i < j <= cs.len(),
            StepX::Fail(_, _) => true,
        },
{
    let e = word_end_exec(cs, i + 1);
    let w = string_of(cs, i + 1, e);
    let wv = chars_of(w.as_str());
    if crate::text::chars_eq(&wv, op_word) {
        StepX::Emit(Tok::Operation, line, e)
    } else {
        StepX::Fail(cat3("unknown decorator `@", w.as_str(), "` (only `@operation` exists)"), line)
    }
}

fn step_string(cs: &Vec<char>, i: usize, line: u32) -> (r: StepX)
    requires
        i < cs.len(),
        cs@[i as int] == '"',
    ensures
        step_view(r) == step(cs@, i as int, line),
        match r {
            StepX::Skip(j, _) => i < j <= cs.len(),
            StepX::Emit(_, _, j) => i < j <= cs.len(),
            StepX::Fail(_, _) => true,
        },
{
    let e = quote_end_exec(cs, i + 1);
    let l = line_after_exec(cs, i + 1, e, line);
    if e >= cs.len() {
        StepX::Fail(crate::text::owned("unterminated string literal"), l)
    } else {
        StepX::Emit(Tok::Str(string_of(cs, i + 1, e)), l, e + 1)
    }
}

fn step_number(cs: &Vec<char>, i: usize, line: u32) -> (r: StepX)
    requires
        i < cs.len(),
        is_digit(cs@[i as int]),
    ensures
        step_view(r) == step(cs@, i as int, line),
        match r {
            StepX::Skip(j, _) => i < j <= cs.len(),
            StepX::Emit(_, _, j) => i < j <= cs.len(),
            StepX::Fail(_, _) => true,
        },
{
    let e = digit_end_exec(cs, i);
    match digits_value_exec(cs, i, e) {
        Some(v) => StepX::Emit(Tok::Int(v), line, e),
        None => StepX::Fail(cat("integer literal out of range: ", string_of(cs, i, e).as_str()), line),
    }
}

fn step_other(cs: &Vec<char>, sodi: &Vec<char>, i: usize, line: u32) -> (r: StepX)
    requires
        i < cs.len(),
        sodi@ == SODI@,
        !ident_start(cs@[i as int]),
    ensures
        step_view(r) == (if matches_at(cs@, SODI@, i as int) {
            Step::Emit(TokV::Ident(SODI@), line, i + SODI@.len())
        } else {
            Step::Fail("unexpected character "@ + char_debug(cs@[i as int]), line)
        }),
        match r {
            StepX::Skip(j, _) => i < j <= cs.len(),
            StepX::Emit(_, _, j) => i < j <= cs.len(),
            StepX::Fail(_, _) => true,
        },
{
    let c = cs[i];
    if matches_at_exec(cs, sodi, i) {
        proof {
            reveal_strlit("\u{05e1}\u{05d5}\u{05d3}\u{05d9}");
        }
        StepX::Emit(Tok::Ident(crate::text::owned(SODI)), line, i + sodi.len())
    } else {
        let mut m = crate::text::owned("unexpected character ");
        m.append(debug_char(c).as_str());
        StepX::Fail(m, line)
    }
}

fn step_exec(cs: &Vec<char>, sodi: &Vec<char>, op_word: &Vec<char>, i: usize, line: u32) -> (r: StepX)
    requires
        i < cs.len(),
        sodi@ == SODI@,
        op_word@ == "operation"@,
    ensures
        step_view(r) == step(cs@, i as int, line),
        match r {
            StepX::Skip(j, _) => i < j <= cs.len(),
            StepX::Emit(_, _, j) => i < j <= cs.len(),
            StepX::Fail(_, _) => true,
        },
{
    let c = cs[i];
    if c == '\n' {
        StepX::Skip(i + 1, next_line_exec(line))
    } else if c == ' ' || c == '\t' || c == '\n' || c == '\r' || c == '\u{0b}' || c == '\u{0c}' || c == '\u{85}'
        || c == '\u{a0}' || c == '\u{1680}' || ('\u{2000}' <= c && c <= '\u{200a}') || c == '\u{2028}'
        || c == '\u{2029}' || c == '\u{202f}' || c == '\u{205f}' || c == '\u{3000}' {
        StepX::Skip(i + 1, line)
    } else if c == '#' {
        let e = line_end_exec(cs, i + 1);
        StepX::Emit(Tok::Comment(trimmed(cs, i + 1, e)), line, e)
    } else if c == '@' {
        step_word(cs, op_word, i, line)
    } else if c == '"' {
        step_string(cs, i, line)
    } else if c == '=' {
        if next_is_exec(cs, i, '=') { StepX::Emit(Tok::EqEq, line, i + 2) } else { StepX::Emit(Tok::Eq, line, i + 1) }
    } else if c == '!' {
        if next_is_exec(cs, i, '=') { StepX::Emit(Tok::Ne, line, i + 2) } else { StepX::Emit(Tok::Bang, line, i + 1) }
    } else if c == '<' {
        if next_is_exec(cs, i, '=') { StepX::Emit(Tok::Le, line, i + 2) } else { StepX::Emit(Tok::Lt, line, i + 1) }
    } else if c == '>' {
        if next_is_exec(cs, i, '=') { StepX::Emit(Tok::Ge, line, i + 2) } else { StepX::Emit(Tok::Gt, line, i + 1) }
    } else if c == '&' && next_is_exec(cs, i, '&') {
        StepX::Emit(Tok::AmpAmp, line, i + 2)
    } else if c == '|' && next_is_exec(cs, i, '|') {
        StepX::Emit(Tok::PipePipe, line, i + 2)
    } else if let Some(t) = punct_exec(c) {
        StepX::Emit(t, line, i + 1)
    } else if '0' <= c && c <= '9' {
        step_number(cs, i, line)
    } else if ('a' <= c && c <= 'z') || ('A' <= c && c <= 'Z') || c == '_' {
        let e = word_end_exec(cs, i);
        StepX::Emit(Tok::Ident(string_of(cs, i, e)), line, e)
    } else {
        step_other(cs, sodi, i, line)
    }
}

/// Tokenize `src`: the token stream ends with `Eof`; the first failure is reported with
/// its line.
pub fn lex(src: &str) -> (r: Result<Vec<Token>, LexError>)
    ensures
        match r {
            Ok(ts) => lex_spec(src@) == Ok::<_, (Seq<char>, u32)>(tokens_view(ts@)),
            Err(e) => lex_spec(src@) == Err::<Seq<(TokV, u32)>, _>((e.message@, e.line)),
        },
{
    let cs = chars_of(src);
    let sodi = chars_of(SODI);
    let op_word = chars_of("operation");
    let mut out: Vec<Token> = Vec::new();
    let mut i: usize = 0;
    let mut line: u32 = 1;
    while i < cs.len()
        invariant
            i <= cs.len(),
            cs@ == src@,
            sodi@ == SODI@,
            op_word@ == "operation"@,
            lex_spec(src@) == (match lex_from(cs@, i as int, line) {
                Ok(rest) => Ok(tokens_view(out@) + rest),
                Err(e) => Err(e),
            }),
        decreases cs.len() - i,
    {
        let st = step_exec(&cs, &sodi, &op_word, i, line);
        match st {
            StepX::Skip(j, l) => {
                i = j;
                line = l;
            },
            StepX::Emit(t, l, j) => {
                let ghost before = tokens_view(out@);
                let ghost tv = tok_view(t);
                out.push(Token { tok: t, line: l });
                assert(tokens_view(out@) =~= before.push((tv, l)));
                proof {
                    match lex_from(cs@, j as int, l) {
                        Ok(rest) => {
                            assert(tokens_view(out@) + rest =~= before + (seq![(tv, l)] + rest));
                        },
                        Err(e) => {},
                    }
                }
                i = j;
                line = l;
            },
            StepX::Fail(m, l) => {
                return Err(LexError { message: m, line: l });
            },
        }
    }
    let ghost before = tokens_view(out@);
    out.push(Token { tok: Tok::Eof, line });
    assert(tokens_view(out@) =~= before + seq![(TokV::Eof, line)]);
    Ok(out)
}

} // verus!
