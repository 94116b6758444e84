//! YahuCode — a satirical esoteric language: the run is the diff between the OFFICIAL
//! face and the ACTUAL face of one event log.

pub mod ast;
pub mod cli;
pub mod config;
pub mod emit;
pub mod euphemism;
pub mod grammar;
pub mod lexer;
pub mod model;
pub mod parser;
pub mod runtime;
pub mod text;
pub mod types;

use vstd::prelude::*;
use vstd::string::*;
use crate::emit::{error_json, error_object, json_array, json_of, render_check, renderable, to_json};
use crate::grammar::program_of;
use crate::lexer::lex_spec;
use crate::parser::{code_tokens, opens_with, parse};
use crate::text::{digits, views};
use crate::types::{bland_msg, body_diags, check, first_honest, honest_msg, names_honestly, sounds_grand};
use crate::ast::{stmts_v, Program};
use crate::config::default_config;
use crate::runtime::{ran, State};

verus! {

/// The answer to a run whose log cannot be rendered.
pub const UNRENDERABLE: &'static str = "the run cannot be rendered: its log is unsound or names a contested characterization without flagging it";

/// The run entry for a host without a filesystem: parse, check, run, and answer the
/// structured JSON projection; a parse or compile failure is answered with the structured
/// `{"error", "diagnostics"}` object instead, so a caller always receives JSON. `intercepts`
/// seeds the host intake channel.
pub fn run_json(src: &str, intercepts: Vec<String>) -> (r: String)
    ensures
        lex_spec(src@) matches Err(f) ==> r@ == error_object(
            "parse error (line "@ + digits(f.1 as nat) + "): "@ + f.0,
            Seq::empty(),
        ),
        (lex_spec(src@) matches Ok(ts) && program_of(code_tokens(ts)) is None) ==> r@.take(9) == "{\"error\":"@,
        (lex_spec(src@) matches Ok(ts) && exists|name: Seq<char>| opens_with(code_tokens(ts), name) && (names_honestly(name) || !sounds_grand(name)))
            ==> r@.take(9) == "{\"error\":"@,
        (lex_spec(src@) matches Ok(ts) && program_of(code_tokens(ts)) is None) ==> exists|m: Seq<char>|
            r@ == error_object("parse error (line "@ + m, Seq::empty()),
        lex_spec(src@) matches Ok(ts) ==> (program_of(code_tokens(ts)) matches Some((name, body)) ==> exists|p: Program|
            {
            &&& p.op_name@ == name
            &&& stmts_v(p.body@) == body
            &&& (!names_honestly(name) && sounds_grand(name) && body_diags(p.body@).len() > 0) ==> r@ == error_object(
                "program does not compile"@,
                body_diags(p.body@),
            )
            &&& names_honestly(name) ==> exists|w: Seq<char>| first_honest(name, w) && r@ == error_object(
                "program does not compile"@,
                seq![honest_msg(name, w)] + body_diags(p.body@),
            )
            &&& (!names_honestly(name) && !sounds_grand(name)) ==> r@ == error_object(
                "program does not compile"@,
                seq![bland_msg(name)] + body_diags(p.body@),
            )
            &&& (!names_honestly(name) && sounds_grand(name) && body_diags(p.body@).len() == 0) ==> exists|st: State|
                ran(st, p, default_config(), intercepts@) && r@ == if renderable(st) {
                    json_of(st)
                } else {
                    error_object(UNRENDERABLE@, Seq::empty())
                }
        }),
{
    let program = match parse(src) {
        Ok(p) => p,
        Err(e) => {
            let none: Vec<String> = Vec::new();
            assert(views(none@) =~= Seq::<Seq<char>>::empty());
            let msg = e.to_string();
            let r = error_json(msg.as_str(), none.as_slice());
            proof {
                reveal_strlit("parse error (line ");
                if lex_spec(src@) is Ok {
                    assert(msg@ == "parse error (line "@ + msg@.skip(18));
                }
            }
            proof {
                reveal_strlit("{\"error\":");
                assert(r@.take(9) =~= "{\"error\":"@);
            }
            return r;
        },
    };
    let diags = check(&program);
    if diags.len() > 0 {
        let r = error_json("program does not compile", diags.as_slice());
        proof {
            reveal_strlit("program does not compile");
            if !(!names_honestly(program.op_name@) && sounds_grand(program.op_name@)) {
                assert(views(diags@) =~= seq![diags@[0]@] + views(diags@).skip(1));
            }
        }
        proof {
            reveal_strlit("{\"error\":");
            assert(r@.take(9) =~= "{\"error\":"@);
        }
        return r;
    }
    let st = crate::runtime::run_with_intercepts(&program, intercepts);
    if !render_check(&st) {
        let none: Vec<String> = Vec::new();
        assert(views(none@) =~= Seq::<Seq<char>>::empty());
        return error_json(UNRENDERABLE, none.as_slice());
    }
    to_json(&st)
}

} // verus!
