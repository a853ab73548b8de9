use tmpl8::vars::{VarPair, Vars};

fn pair(k: &str, v: &str) -> VarPair {
    VarPair { key: k.to_string(), value: v.to_string() }
}

/// The value an overlay list denotes for a key: the last pair wins.
fn lookup(vars: &Vars, key: &str) -> Option<String> {
    vars.pairs.iter().rev().find(|p| p.key == key).map(|p| p.value.clone())
}

#[test]
fn layering_appends_in_precedence_order() {
    let low = Vars { pairs: vec![pair("x", "1"), pair("y", "9")] };
    let high = Vars { pairs: vec![pair("x", "2")] };
    let merged = low.layered(&high);
    assert_eq!(merged.pairs.len(), 3);
    assert_eq!(lookup(&merged, "x").as_deref(), Some("2"));
    assert_eq!(lookup(&merged, "y").as_deref(), Some("9"));
}

#[test]
fn precedence_repo_beats_template_and_global() {
    // a key defined at global, template and repo scope, not at file scope:
    // the repo-scope value must win
    let global = Vars { pairs: vec![pair("x", "1")] };
    let template = Vars { pairs: vec![pair("x", "2")] };
    let repo = Vars { pairs: vec![pair("x", "3")] };
    let file = Vars { pairs: vec![] };
    let merged = global.layered(&template).layered(&repo).layered(&file);
    assert_eq!(lookup(&merged, "x").as_deref(), Some("3"));
}

#[test]
fn precedence_file_scope_wins() {
    let global = Vars { pairs: vec![pair("x", "1")] };
    let template = Vars { pairs: vec![pair("x", "2")] };
    let repo = Vars { pairs: vec![pair("x", "3")] };
    let file = Vars { pairs: vec![pair("x", "4")] };
    let merged = global.layered(&template).layered(&repo).layered(&file);
    assert_eq!(lookup(&merged, "x").as_deref(), Some("4"));
}

#[test]
fn empty_vars_layer_is_neutral() {
    let base = Vars { pairs: vec![pair("a", "1")] };
    let merged = base.layered(&Vars::empty());
    assert_eq!(merged.pairs.len(), 1);
    assert_eq!(lookup(&merged, "a").as_deref(), Some("1"));
}
