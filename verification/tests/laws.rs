//! Concrete instances of the library's laws, the edge cases it handles, and exact
//! expected values for its formatters.

use yahucode::cli::{parse_args, ArgError, Command, Invocation, Output};
use yahucode::config::RuntimeConfig;
use yahucode::emit::{self, error_json, json_str, project};
use yahucode::model::{Audience, Clearance, Event, Val, NEITHER_CONFIRM_NOR_DENY, UNAVAILABLE};
use yahucode::parser;
use yahucode::runtime::{self, Env, State};
use yahucode::run_json;
use yahucode::types;

fn run(src: &str) -> State {
    runtime::run(&parser::parse(src).unwrap())
}

fn args(v: &[&str]) -> Vec<String> {
    v.iter().map(|s| s.to_string()).collect()
}

// ─────────── the read path ───────────

#[test]
fn law_room_never_hears_another_room() {
    let st = run("@operation(\"Dawn of Peace\")\n\
         address(domestic) { foreclose(final_status); }\n\
         address(international) { commit(peace_process); }\n\
         announce \"a statement for everyone\";");
    let dom = project(&st, Clearance::Public, Audience::Domestic);
    assert_eq!(
        dom,
        vec![
            "final_status remains open to direct negotiation".to_string(),
            "a statement for everyone".to_string(),
        ]
    );
    let intl = project(&st, Clearance::Public, Audience::International);
    assert_eq!(
        intl,
        vec![
            "we remain committed to peace_process".to_string(),
            "a statement for everyone".to_string(),
        ]
    );
}

#[test]
fn law_covert_event_absent_from_public_placeholder_for_restricted() {
    let st = run("@operation(\"Silent Shield\")\nmossad { raise(leak); }");
    assert!(project(&st, Clearance::Public, Audience::Record).is_empty());
    assert_eq!(
        project(&st, Clearance::Restricted, Audience::Record),
        vec![emit::PLACEHOLDER.to_string()]
    );
    assert_eq!(
        project(&st, Clearance::Sodi, Audience::Record),
        vec!["error raised: leak".to_string()]
    );
}

#[test]
fn law_laundered_chain_public_face_is_the_non_answer() {
    let st = run("@operation(\"Silent Vigil\")\nmossad { via(cutout, strike(target)); }");
    let public = project(&st, Clearance::Public, Audience::Record);
    assert_eq!(public, vec![NEITHER_CONFIRM_NOR_DENY.to_string()]);
    let sodi = project(&st, Clearance::Sodi, Audience::Record);
    assert_eq!(
        sodi,
        vec![
            "bomb(dissident) \u{2014} attribution: Traceable[cutout \u{2192} us] (laundered \u{00d7}1); origin retained"
                .to_string()
        ]
    );
}

#[test]
fn law_announced_claim_has_no_actual_face_at_any_clearance() {
    let st = run("@operation(\"Dawn of Calm\")\nmossad { announce \"all is calm\"; }\nannounce \"the situation is under control\";");
    assert_eq!(
        project(&st, Clearance::Sodi, Audience::Record),
        vec![UNAVAILABLE.to_string(), UNAVAILABLE.to_string()]
    );
    assert_eq!(
        project(&st, Clearance::Public, Audience::Record),
        vec!["the situation is under control".to_string()]
    );
    assert_eq!(st.discrepancy_count(), 0);
}

// ─────────── the machine ───────────

#[test]
fn law_nothing_runs_after_the_fall() {
    let st = run("@operation(\"Iron Dome\")\nelections;\nx = 1;\nraise(never);");
    assert!(st.ended_by_elections);
    assert_eq!(st.log.len(), 1);
    assert_eq!(st.log[0].official, "\u{2014} early elections \u{2014}");
    assert_eq!(st.env.get("x"), None);
}

#[test]
fn law_meta_ledger_grows_by_one_per_rule_change() {
    let st = run("@operation(\"Iron Law\")\n\
         declare(outposts == 0);\n\
         legislate(expunge_last_discrepancy);\n\
         legislate(expunge_last_discrepancy);\n\
         legislate(waive_gate);");
    assert_eq!(st.meta_ledger.len(), 3);
    assert_eq!(st.discrepancy_count(), 0);
    assert_eq!(
        emit::meta_ledger_lines(&st),
        vec![
            "META: expunge_last_discrepancy (turn 0); on the record, cannot be legislated away".to_string(),
            "META: expunge_last_discrepancy (turn 0); on the record, cannot be legislated away".to_string(),
            "META: waive_gate (turn 0); on the record, cannot be legislated away".to_string(),
        ]
    );
    assert!(st.law.gate_waived);
}

#[test]
fn law_blame_redirects_every_self_target() {
    for who in ["self", "me", "us", "government", "coalition"] {
        let st = run(&format!("@operation(\"Iron Wall\")\nblame({who});"));
        assert_eq!(st.log[0].official, "responsibility: previous_government");
    }
    let st = run("@operation(\"Iron Wall\")\nblame(hamas);");
    assert_eq!(st.log[0].official, "responsibility: hamas");
    assert_eq!(st.log[0].candid, "blame \u{2192} hamas \u{2014} never `self` (I4)");
}

#[test]
fn law_false_claim_is_one_event_and_one_discrepancy() {
    let st = run("@operation(\"Rising Lion\")\ncasualties = 100;\ndeclare(casualties == 0);");
    assert_eq!(st.log.len(), 1);
    assert_eq!(st.discrepancies.len(), 1);
    assert_eq!(st.discrepancies[0].claim, st.log[0].official);
    assert_eq!(st.discrepancies[0].reality, st.log[0].candid);
    assert_eq!(
        st.log[0].candid,
        "claim[casualties == 0] \u{2014} reality: casualties=100  \u{21d2} FALSE"
    );
}

#[test]
fn law_closed_declarations_never_halt_and_count_false_claims() {
    let st = run("@operation(\"Rising Lion\")\n\
         declare(1 == 2);\n\
         declare(true);\n\
         assert(3 < 1 && true);\n\
         declare(!(2 * 3 == 6) || false);\n\
         declare(\"\");\n\
         declare(7 / 2 == 3);");
    assert!(st.runtime_error.is_none());
    assert!(!st.ended_by_elections);
    assert_eq!(st.log.len(), 6);
    assert_eq!(st.discrepancy_count(), 4);
}

#[test]
fn law_loops_not_entered_run_nothing() {
    let st = run("@operation(\"Rising Lion\")\n\
         x = 0;\n\
         while (x > 0) { declare(x == 5); x = x - 1; }\n\
         declare(x == 1);");
    assert!(st.runtime_error.is_none());
    assert!(!st.ended_by_elections);
    assert_eq!(st.discrepancy_count(), 1);
    assert_eq!(st.env.get("x"), Some(&Val::Int(0)));
}

#[test]
fn law_loops_run_their_bodies_until_the_test_fails() {
    let st = run("@operation(\"Rising Lion\")\n\
         i = 0;\n\
         while (i < 3) { declare(i == 1); i = i + 1; }");
    assert!(st.runtime_error.is_none());
    assert!(!st.ended_by_elections);
    assert_eq!(st.discrepancy_count(), 2);
    assert_eq!(st.env.get("i"), Some(&Val::Int(3)));
    // one step for the assignment, one for the loop, and per pass a test and two
    // statements, plus the final test.
    assert_eq!(st.steps, 12);
    let defs = run("@operation(\"Rising Lion\")\n\
         func twice(a) { return a * 2; }\n\
         k = 4;\n\
         read(k);\n\
         declare(k == 5);");
    assert!(defs.runtime_error.is_none());
    assert_eq!(defs.discrepancy_count(), 1);
    assert_eq!(defs.steps, 4);
}

#[test]
fn law_straight_line_claims_are_judged_when_declared() {
    let st = run("@operation(\"Rising Lion\")\n\
         x = 3;\n\
         announce \"all quiet\";\n\
         y = x * 2;\n\
         blame(us);\n\
         declare(y == 6);\n\
         declare(x > y);\n\
         x = 10;\n\
         declare(x > y);");
    assert!(st.runtime_error.is_none());
    assert_eq!(st.discrepancy_count(), 1);
    assert_eq!(st.env.get("x"), Some(&Val::Int(10)));
    assert_eq!(st.env.get("y"), Some(&Val::Int(6)));
}

#[test]
fn law_conditionals_branch_on_the_real_values() {
    let st = run("@operation(\"Rising Lion\")\n\
         casualties = 100;\n\
         if (casualties > 0) { declare(casualties == 0); announce \"regrettable\"; } else { declare(true); }\n\
         if (casualties == 0) { declare(false); }");
    assert!(st.runtime_error.is_none());
    assert_eq!(st.discrepancy_count(), 1);
    assert_eq!(st.log.len(), 2);
}

#[test]
fn law_scopes_run_their_bodies() {
    let st = run("@operation(\"Rising Lion\")\n\
         x = 1;\n\
         hasbara(\"we seek peace\") { declare(x == 2); }\n\
         mossad { x = 5; declare(x == 5); }\n\
         address(domestic) { declare(x > 9); }");
    assert!(st.runtime_error.is_none());
    assert_eq!(st.discrepancy_count(), 2);
    assert_eq!(st.env.get("x"), Some(&Val::Int(5)));
}

#[test]
fn unevaluable_claim_is_false_and_never_halts() {
    let st = run("@operation(\"Rising Lion\")\ndeclare(ghost == 1);\nx = 2;");
    assert_eq!(st.discrepancy_count(), 1);
    assert!(st.runtime_error.is_none());
    assert_eq!(st.env.get("x"), Some(&Val::Int(2)));
    assert!(st.log[0].candid.contains("ghost=None"));
}

#[test]
fn upkeep_drains_core_and_settlements_cost_nothing() {
    let st = run("@operation(\"Guardian of the Walls\")\nlet a = allocate(x);\nlet s = settlement(hill);\npostpone();");
    assert_eq!(st.core, 2);
    assert_eq!(st.turn, 1);
    assert_eq!(st.settlements.len(), 1);
    let bribed = run("@operation(\"Guardian of the Walls\")\nbribe(partner, 5);");
    assert_eq!(bribed.core, 8);
}

#[test]
fn arithmetic_wraps_and_division_by_zero_is_a_runtime_error() {
    let st = run("@operation(\"Iron Dome\")\nx = 9223372036854775807 + 1;\ny = -7 / 2;\nz = -7 % 2;");
    assert_eq!(st.env.get("x"), Some(&Val::Int(i64::MIN)));
    assert_eq!(st.env.get("y"), Some(&Val::Int(-3)));
    assert_eq!(st.env.get("z"), Some(&Val::Int(-1)));
    let bad = run("@operation(\"Iron Dome\")\nx = 1 / 0;");
    assert_eq!(bad.runtime_error.as_deref(), Some("division by zero"));
    assert_eq!(bad.log.last().unwrap().candid, "runtime fault: division by zero");
    assert_eq!(
        bad.log.last().unwrap().official,
        "runtime trace: at \u{2588}\u{2588}\u{2588}\u{2588} (\u{2588}\u{2588}\u{2588}\u{2588}:\u{2588}\u{2588})"
    );
}

#[test]
fn step_budget_and_call_depth_are_controlled_faults() {
    let cfg = RuntimeConfig {
        core_start: 3,
        upkeep_per_alloc: 1,
        max_steps: 50,
        max_depth: 200,
        max_apportionment: 10,
        balance_tolerance: 0,
    };
    let spin = runtime::run_with_config(&parser::parse("@operation(\"Iron Dome\")\nwhile (true) { }").unwrap(), cfg);
    assert!(spin.runtime_error.unwrap().contains("step budget exceeded (50)"));
    let deep = run("@operation(\"Iron Dome\")\nfunc f() { return f(); }\nx = f();");
    assert!(deep.runtime_error.unwrap().contains("call depth exceeded (200)"));
    let big = runtime::run_with_config(&parser::parse("@operation(\"Iron Equity\")\nlet b = apportionment[11];").unwrap(), cfg);
    assert!(big.runtime_error.unwrap().starts_with("E-INDEX: apportionment size 11"));
}

#[test]
fn undisclosed_is_contagious_and_never_true() {
    let st = run("@operation(\"Silent Shield\")\nmossad { x = external(a, 1); y = x + 1; if (y) { z = 1; } else { z = 2; } while (!x || true) { w = 1; } u = (1 == 1) && x; v = false && x; }");
    assert_eq!(st.env.get("y"), Some(&Val::Undisclosed));
    assert_eq!(st.env.get("z"), Some(&Val::Int(2)));
    assert_eq!(st.env.get("w"), None);
    assert_eq!(st.env.get("u"), Some(&Val::Undisclosed));
    assert_eq!(st.env.get("v"), Some(&Val::Bool(false)));
    assert!(st.runtime_error.is_none());
    let outside = run("@operation(\"Silent Shield\")\nx = external(a);");
    assert!(outside.runtime_error.unwrap().contains("only available in a mossad scope"));
}

#[test]
fn poly_arm_return_ends_the_arm_only_and_unknown_poly_is_a_fault() {
    let st = run("@operation(\"Dawn of Peace\")\n\
         statement s { to domestic { commit(a); return 1; commit(b); } }\n\
         address(domestic) { s; }\n\
         after = 1;");
    assert_eq!(st.env.get("after"), Some(&Val::Int(1)));
    assert_eq!(st.doubletalk_log, vec![("s".to_string(), 0)]);
    let bad = run("@operation(\"Dawn of Peace\")\nnobody;");
    assert_eq!(bad.runtime_error.as_deref(), Some("unknown poly-statement `nobody`"));
}

#[test]
fn doubletalk_annotation_text() {
    let st = run("@operation(\"Dawn of Peace\")\n\
         statement two { to international { commit(p); } to domestic { foreclose(q); } }\n\
         address(international) { two; }\n\
         address(domestic) { two; }");
    assert_eq!(
        emit::doubletalk_flags(&st),
        vec!["W-DOUBLETALK: two took different arms across rooms".to_string()]
    );
}

#[test]
fn collection_faces_for_each_reader() {
    let st = run("@operation(\"Iron Equity\")\nlet b = apportionment[2];\nallocate(b, 0, 30);\nallocate(b, 1, 10);");
    assert_eq!(
        project(&st, Clearance::Public, Audience::Record),
        vec!["b apportioned equally across 2 districts \u{2014} equal shares for all".to_string()]
    );
    assert_eq!(project(&st, Clearance::Restricted, Audience::Record), vec!["b: [30, 10]".to_string()]);
    assert_eq!(
        project(&st, Clearance::Sodi, Audience::Record),
        vec!["b: [30, 10] \u{2014} proclaimed 'equal', but slot 0 holds 30 of 40 (75.0%); the other 1 share 25.0%".to_string()]
    );
}

#[test]
fn candid_faces_of_a_list_and_a_registry() {
    let st = run(r#"@operation("Solid Ground")
let l = facts_on_the_ground();
push(l, "Evyatar");
push(l, "Homesh");
remove(l, "Evyatar");
let r = registry("equal before the law");
classify(r, c1, military);
classify(r, c2, civilian);"#);
    let sodi = project(&st, Clearance::Sodi, Audience::Record);
    let n = sodi.len();
    assert_eq!(
        sodi[n - 2],
        "l: [Evyatar (delisted), Homesh] \u{2014} real length 2; public length 1; nothing is deleted, only taken off the public list"
    );
    assert!(sodi[n - 1].starts_with("r (equal before the law): c1 \u{2192} military court"));
    assert!(sodi[n - 1].ends_with(
        " \u{2014} the same act in the same place, routed to different court systems by assigned status"
    ));
}

#[test]
fn candid_face_of_an_even_or_empty_allotment() {
    let even = run("@operation(\"Iron Equity\")\nlet b = apportionment[2];\nallocate(b, 0, 5);\nallocate(b, 1, 5);");
    assert_eq!(
        project(&even, Clearance::Sodi, Audience::Record),
        vec!["b: [5, 5] \u{2014} proclaimed 'equal', and here the shares really are equal".to_string()]
    );
    let empty = run("@operation(\"Iron Equity\")\nlet b = apportionment[0];");
    assert_eq!(
        project(&empty, Clearance::Sodi, Audience::Record),
        vec!["b: [] \u{2014} proclaimed 'equal'; nothing has been apportioned".to_string()]
    );
}

#[test]
fn disclosure_and_contested_diagnostics_in_walk_order() {
    let p = parser::parse(r#"@operation("Iron Shield")
secret = (סודי) 5;
declare(secret == 5);
announce "it was genocide";
mossad { declare(secret == 5); }"#)
    .unwrap();
    assert_eq!(
        types::check(&p),
        vec![
            "E-DISCLOSURE: declare(...) would force a \u{05e1}\u{05d5}\u{05d3}\u{05d9}-classified value into the PUBLIC record without a read() or a cast. Wrap it in read(...), a declassify cast, or (self_defense).".to_string(),
            "E-CONTESTED: 'it was genocide' is a contested characterization; it cannot be stated as settled fact here.".to_string(),
        ]
    );
}

// ─────────── the environment ───────────

#[test]
fn env_frames_shadow_and_restore() {
    let mut env = Env::new();
    env.set("x", Val::Int(1));
    env.push_frame();
    assert_eq!(env.get("x"), Some(&Val::Int(1)));
    env.define_local("x", Val::Int(2));
    assert_eq!(env.get("x"), Some(&Val::Int(2)));
    env.set("y", Val::Int(3));
    env.pop_frame();
    assert_eq!(env.get("x"), Some(&Val::Int(1)));
    assert_eq!(env.get("y"), None);
}

// ─────────── static checks ───────────

#[test]
fn diagnostics_texts() {
    let d = types::check(&parser::parse("@operation(\"Iron Wall\")\nfoo(1);").unwrap());
    assert_eq!(d, vec!["E-UNKNOWNOP: 'foo' is not a recognized operation or defined function.".to_string()]);
    let d = types::check(&parser::parse("@operation(\"Quiet Meeting\")\nx = 1;").unwrap());
    assert_eq!(
        d,
        vec!["E-DISHONESTOPNAME: @operation(\"Quiet Meeting\") is insufficiently grand; an operation name must sound protective or heroic.".to_string()]
    );
    let d = types::check(&parser::parse("@operation(\"Iron Wall\")\nmossad { x = (\u{05e1}\u{05d5}\u{05d3}\u{05d9}) 5; declare(x == 5); }").unwrap());
    assert!(d.is_empty(), "{d:?}");
    let d = types::check(&parser::parse("@operation(\"Iron Wall\")\nfunc f() { strike(target); }").unwrap());
    assert!(d.iter().any(|s| s.starts_with("E-UNGATED: 'strike'")), "{d:?}");
}

// ─────────── formatters ───────────

#[test]
fn json_string_escapes_exactly() {
    assert_eq!(json_str("a\"b\\c\nd\te\u{1}f\u{05e1}"), "\"a\\\"b\\\\c\\nd\\te\\u0001f\u{05e1}\"");
    assert_eq!(json_str("x"), "\"x\"");
}

#[test]
fn error_object_exact() {
    assert_eq!(
        error_json("bad", &["E-X: one".to_string(), "E-Y: \"two\"".to_string()]),
        "{\"error\":\"bad\",\"diagnostics\":[\"E-X: one\",\"E-Y: \\\"two\\\"\"]}"
    );
    assert_eq!(error_json("bad", &[]), "{\"error\":\"bad\",\"diagnostics\":[]}");
}

#[test]
fn run_json_answers_compile_failures_and_runs() {
    assert_eq!(
        run_json("@operation(\"Bombing Campaign\")\nx = 1;", vec![]),
        "{\"error\":\"program does not compile\",\"diagnostics\":[\"E-DISHONESTOPNAME: @operation(\\\"Bombing Campaign\\\") names the operation honestly ('bombing'); an operation name must sound protective or heroic.\"]}"
    );
    assert_eq!(
        run_json("@operation(\"Iron Wall\")\nx = 1;\ndeclare(x == 2);", vec![]),
        "{\"op_name\":\"Iron Wall\",\"official\":[\"x == 2\"],\"restricted\":null,\"actual\":[\"claim[x == 2] \u{2014} reality: x=1  \u{21d2} FALSE\"],\"notes\":[],\"doubletalk\":[],\"meta_ledger\":[],\"discrepancies\":1,\"core\":3,\"ended_by_elections\":false}"
    );
    assert_eq!(
        run_json("@operation(\"Iron Wall\"", vec![]),
        "{\"error\":\"parse error (line 1): expected RParen, got Eof\",\"diagnostics\":[]}"
    );
}

#[test]
fn public_trace_event_constructor() {
    let ev = Event::public("a", "b");
    assert_eq!(ev.official, "a");
    assert_eq!(ev.candid, "b");
    assert_eq!(ev.clearance, Clearance::Public);
    assert!(ev.attribution.is_none());
}

// ─────────── the command line ───────────

#[test]
fn command_line_cases() {
    assert_eq!(
        parse_args(&args(&["f.yahu"])),
        Ok(Command::Run(Invocation { path: "f.yahu".to_string(), output: Output::Diff }))
    );
    assert_eq!(
        parse_args(&args(&["--press", "--json", "f.yahu"])),
        Ok(Command::Run(Invocation { path: "f.yahu".to_string(), output: Output::Json }))
    );
    assert_eq!(
        parse_args(&args(&["--audience", "domestic", "-"])),
        Ok(Command::Run(Invocation { path: "-".to_string(), output: Output::Room(Audience::Domestic) }))
    );
    assert_eq!(parse_args(&args(&["-h"])), Ok(Command::Help));
    assert_eq!(parse_args(&args(&["--audience"])), Err(ArgError::MissingRoom));
    assert_eq!(
        parse_args(&args(&["--audience", "moon", "f"])),
        Err(ArgError::UnknownRoom("moon".to_string()))
    );
    assert_eq!(parse_args(&args(&["--bogus"])), Err(ArgError::UnknownFlag("--bogus".to_string())));
    assert_eq!(parse_args(&args(&["a", "b"])), Err(ArgError::MultipleInputs));
    assert_eq!(parse_args(&args(&[])), Err(ArgError::NoInput));
    assert_eq!(
        ArgError::UnknownRoom("moon".to_string()).message(),
        "unknown audience `moon` (expected domestic|international)"
    );
}

#[test]
fn kill_is_answered_with_neutralize() {
    assert_eq!(yahucode::euphemism::plain_suggestion("kill"), Some("neutralize"));
    let p = parser::parse("@operation(\"Iron Wall\")\nkill(target);").unwrap();
    let diags = types::check(&p);
    assert!(diags.iter().any(|d| d.contains("did you mean `neutralize`?")), "{diags:?}");
}

#[test]
fn a_false_declare_logs_both_faces() {
    let st = run("@operation(\"Rising Lion\")\ncasualties = 100;\ndeclare(casualties == 0);");
    let ev = st.log.last().unwrap();
    assert_eq!(ev.official, "casualties == 0");
    assert_eq!(ev.candid, "claim[casualties == 0] \u{2014} reality: casualties=100  \u{21d2} FALSE");
}

#[test]
fn env_set_writes_where_the_name_lives_and_pop_restores_the_outer_view() {
    let mut env = Env::new();
    env.set("g", Val::Int(1));
    env.push_frame();
    env.set("g", Val::Int(2));
    env.set("l", Val::Int(3));
    env.pop_frame();
    assert_eq!(env.get("g"), Some(&Val::Int(2)));
    assert_eq!(env.get("l"), None);
}

#[test]
fn legislate_logs_its_faces_and_framing_note() {
    let st = run("@operation(\"Iron Law\")\nlegislate(waive_gate);");
    let ev = st.log.last().unwrap();
    assert_eq!(ev.official, "operational latitude clarified; measures conducted lawfully");
    assert!(ev.candid.starts_with("legislate(waive_gate)"));
    assert!(ev.note.as_deref().unwrap().starts_with("#D framing"));
}

#[test]
fn upkeep_is_charged_per_allocation_and_settlements_are_exempt() {
    let a = run("@operation(\"Eternal Shield\")\nlet s = settlement(hill);\npostpone(); postpone();");
    let b = run("@operation(\"Guardian of the Walls\")\nlet a = allocate(x);\npostpone();");
    assert_eq!(a.core, 3);
    assert_eq!(b.core, 2);
    assert!(!a.ended_by_elections && !b.ended_by_elections);
}

#[test]
fn division_and_modulo_by_zero_are_faults_with_their_text() {
    let d = run("@operation(\"Iron Dome\")\nx = 1 / 0;");
    assert_eq!(d.runtime_error.as_deref(), Some("division by zero"));
    let m = run("@operation(\"Iron Dome\")\nx = 1 % 0;");
    assert_eq!(m.runtime_error.as_deref(), Some("modulo by zero"));
}

#[test]
fn an_unflagged_contested_term_cannot_be_rendered() {
    let st = run("@operation(\"Iron Wall\")\ndeny(genocide);");
    assert!(!emit::render_check(&st));
    let ok = run("@operation(\"Iron Wall\")\ndeny(raid);");
    assert!(emit::render_check(&ok));
}

#[test]
fn a_straight_line_run_logs_the_trace_of_its_statements() {
    let st = run("@operation(\"Rising Lion\")\nhasbara(\"security\") { x = 2; declare(x == 2); }\nceasefire;");
    let faces: Vec<(&str, &str)> = st.log.iter().map(|e| (e.official.as_str(), e.candid.as_str())).collect();
    assert_eq!(faces.len(), 3);
    assert_eq!(faces[0], ("[talking point: security]", "[talking point declared up front: security]"));
    assert_eq!(faces[1].0, "x == 2");
    assert_eq!(faces[2].0, "ceasefire announced \u{2014} hostilities paused");
}

#[test]
fn the_only_exit_is_the_coalition_falling_and_nothing_runs_after() {
    let st = run("@operation(\"Iron Wall\")\nlet a = allocate(x);\npostpone(); postpone(); postpone();\nneutralize(target);");
    assert!(st.ended_by_elections);
    assert_eq!(st.core, 0);
    assert!(st.runtime_error.is_none());
    assert!(!st.log.iter().any(|e| e.official.contains("accident occur")));
    assert_eq!(st.log.last().unwrap().official, "\u{2014} early elections \u{2014}");
    let called = run("@operation(\"Iron Wall\")\nelections;\ndeclare(1 == 2);");
    assert!(called.ended_by_elections);
    assert_eq!(called.discrepancy_count(), 0);
}

#[test]
fn the_worked_example_renders_both_faces() {
    let st = run("@operation(\"Protective Edge\")\nhasbara(\"self-defense\") {\n  neutralize(target);\n}");
    let out = emit::emit(&st);
    let lines: Vec<&str> = out.split('\n').collect();
    assert_eq!(
        lines,
        vec![
            "@operation(\"Protective Edge\")",
            emit::SEP_OFFICIAL,
            "  \u{2502}   [talking point: self-defense]",
            "  \u{2502}   accident occur(protester)",
            emit::SEP_ACTUAL,
            "  \u{2502}   [talking point declared up front: self-defense]",
            "  \u{2502}   murder(dissident)",
            "  \u{251c}\u{2500} coalition: core=3 \u{00b7} still in power (no halt)",
            "  \u{2514}\u{2500} discrepancies: 0  (read-never-by-default)",
        ]
    );
    assert_eq!(emit::render(&st, Output::Diff, &[]).as_deref(), Some(out.as_str()));
}

#[test]
fn unicode_blanks_are_skipped_and_bad_characters_are_quoted_in_debug_form() {
    assert!(yahucode::lexer::lex("@operation(\"Iron Wall\")\u{a0}\u{3000}\nceasefire;").is_ok());
    let e = yahucode::lexer::lex("@operation(\"Iron Wall\")\n'").unwrap_err();
    assert_eq!(e.message, "unexpected character '\\''");
}

#[test]
fn a_local_binding_is_gone_once_its_frame_is_left() {
    let mut env = Env::new();
    env.set("x", Val::Int(1));
    env.push_frame();
    env.define_local("x", Val::Int(9));
    assert_eq!(env.get("x"), Some(&Val::Int(9)));
    env.pop_frame();
    assert_eq!(env.get("x"), Some(&Val::Int(1)));
}
