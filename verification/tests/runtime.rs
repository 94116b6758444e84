//! The runtime.

use yahucode::model::Val;
use yahucode::parser::parse;
use yahucode::runtime::{run, Env, State};

fn run_src(src: &str) -> State {
    run(&parse(src).unwrap())
}

#[test]
fn assignment_writes_actual() {
    let st = run_src("@operation(\"Rising Lion\")\ncasualties = 100;");
    assert_eq!(st.env.get("casualties"), Some(&Val::Int(100)));
}

#[test]
fn false_declare_logs_one_discrepancy_and_does_not_halt() {
    // I3: a false claim leaves exactly one trace and never halts.
    let st = run_src("@operation(\"Rising Lion\")\ncasualties = 100;\ndeclare(casualties == 0);");
    assert_eq!(st.discrepancy_count(), 1);
    assert!(!st.ended_by_elections);
    // Both tapes written: OFFICIAL says `== 0`, ACTUAL exposes the real 100 ⇒ FALSE.
    assert_eq!(st.log.last().unwrap().official, "casualties == 0");
    assert!(st.log.last().unwrap().candid.contains("casualties=100"));
    assert!(st.log.last().unwrap().candid.contains("FALSE"));
}

#[test]
fn true_declare_logs_no_discrepancy() {
    let st = run_src("@operation(\"Rising Lion\")\nx = 5;\ndeclare(x == 5);");
    assert_eq!(st.discrepancy_count(), 0);
}

#[test]
fn action_derives_official_from_candid() {
    let st = run_src(
        "@operation(\"Protective Edge\")\nhasbara(\"self-defense\") { neutralize(target); }",
    );
    let candids: Vec<&str> = st.log.iter().map(|e| e.candid.as_str()).collect();
    let officials: Vec<&str> = st.log.iter().map(|e| e.official.as_str()).collect();
    assert!(candids.contains(&"murder(dissident)"));
    assert!(officials.contains(&"accident occur(protester)"));
}

#[test]
fn env_get_mut_writes_where_the_name_lives() {
    let mut env = Env::new();
    env.set("g", Val::Int(1));
    env.push_frame();
    env.define_local("l", Val::Int(2));
    // A frame-local binding is written in the frame.
    if let Some(v) = env.get_mut("l") {
        *v = Val::Int(20);
    }
    // A global seen from inside the frame is written in the globals.
    if let Some(v) = env.get_mut("g") {
        *v = Val::Int(10);
    }
    assert!(env.get_mut("missing").is_none());
    assert_eq!(env.get("l"), Some(&Val::Int(20)));
    assert_eq!(env.get("g"), Some(&Val::Int(10)));
    env.pop_frame();
    assert_eq!(env.get("g"), Some(&Val::Int(10)));
    assert_eq!(env.get("l"), None);
}
