use tmpl8::errors::Error;
use tmpl8::render::{do_render, plan_render, render, TemplateData};
use tmpl8::schema::{Config, File, Repo, RepoEntry, TemplateConfig};
use tmpl8::vars::{VarPair, Vars};

fn pair(k: &str, v: &str) -> VarPair {
    VarPair { key: k.to_string(), value: v.to_string() }
}

fn vars(pairs: Vec<VarPair>) -> Vars {
    Vars { pairs }
}

fn one_repo_config(global: Vars, repo_vars: Vars) -> Config {
    Config {
        repos: vec![
            RepoEntry {
                name: "r".to_string(),
                repo: Repo { url: "https://example.com/r".to_string(), vars: repo_vars },
            },
        ],
        templates: vec!["t.j2".to_string()],
        vars: global,
    }
}

fn template(name: &str, body: &str, files: Vec<File>, tvars: Vars) -> TemplateData {
    TemplateData {
        name: name.to_string(),
        body: body.to_string(),
        executable: false,
        config: TemplateConfig { files, vars: tvars },
    }
}

fn file(repo: &str, path: &str, fvars: Vars) -> File {
    File { repo: repo.to_string(), path: path.to_string(), vars: fvars }
}

#[test]
fn rendered_value_follows_precedence() {
    // global x=1, template x=2, repo x=3, file unset: the engine must see 3
    let cfg = one_repo_config(vars(vec![pair("x", "1")]), vars(vec![pair("x", "3")]));
    let templates = vec![
        template(
            "t.j2",
            "{{x}}",
            vec![file("r", "a.txt", vars(vec![]))],
            vars(vec![pair("x", "2")]),
        ),
    ];
    let arts = do_render(&cfg, &templates).unwrap();
    assert_eq!(arts.len(), 1);
    assert_eq!(arts[0].repo, "r");
    assert_eq!(arts[0].path, "a.txt");
    assert_eq!(arts[0].contents, b"3".to_vec());
}

#[test]
fn file_scope_overrides_everything() {
    let cfg = one_repo_config(vars(vec![pair("x", "1")]), vars(vec![pair("x", "3")]));
    let templates = vec![
        template(
            "t.j2",
            "{{x}}",
            vec![file("r", "a.txt", vars(vec![pair("x", "4")]))],
            vars(vec![pair("x", "2")]),
        ),
    ];
    let arts = do_render(&cfg, &templates).unwrap();
    assert_eq!(arts[0].contents, b"4".to_vec());
}

#[test]
fn structured_values_reach_the_engine() {
    let cfg = one_repo_config(vars(vec![pair("xs", "[a, b]")]), vars(vec![]));
    let templates = vec![
        template(
            "t.j2",
            "{% for v in xs %}{{v}}{% endfor %}",
            vec![file("r", "a.txt", vars(vec![]))],
            vars(vec![]),
        ),
    ];
    let arts = do_render(&cfg, &templates).unwrap();
    assert_eq!(arts[0].contents, b"ab".to_vec());
}

#[test]
fn rendered_output_is_normalized() {
    let cfg = one_repo_config(vars(vec![]), vars(vec![]));
    let templates = vec![
        template("t.j2", "a\n\n\n\nb\n\n\n", vec![file("r", "a.txt", vars(vec![]))], vars(vec![])),
    ];
    let arts = do_render(&cfg, &templates).unwrap();
    assert_eq!(arts[0].contents, b"a\n\nb\n".to_vec());
}

#[test]
fn duplicate_output_is_a_conflict() {
    let cfg = one_repo_config(vars(vec![]), vars(vec![]));
    let templates = vec![
        template(
            "t.j2",
            "x",
            vec![file("r", "a.txt", vars(vec![])), file("r", "a.txt", vars(vec![]))],
            vars(vec![]),
        ),
    ];
    let err = plan_render(&cfg, &templates).unwrap_err();
    assert_eq!(err, Error::Conflict("r/a.txt".to_string()));
    // the same configuration must not render anything either
    assert_eq!(do_render(&cfg, &templates).unwrap_err(), Error::Conflict("r/a.txt".to_string()));
}

#[test]
fn duplicate_across_templates_is_a_conflict() {
    let cfg = Config {
        repos: vec![
            RepoEntry {
                name: "r".to_string(),
                repo: Repo { url: "u".to_string(), vars: vars(vec![]) },
            },
        ],
        templates: vec!["t1.j2".to_string(), "t2.j2".to_string()],
        vars: vars(vec![]),
    };
    let templates = vec![
        template("t1.j2", "x", vec![file("r", "same.txt", vars(vec![]))], vars(vec![])),
        template("t2.j2", "y", vec![file("r", "same.txt", vars(vec![]))], vars(vec![])),
    ];
    let err = do_render(&cfg, &templates).unwrap_err();
    assert_eq!(err, Error::Conflict("r/same.txt".to_string()));
}

#[test]
fn unknown_repo_in_file_entry_fails() {
    let cfg = one_repo_config(vars(vec![]), vars(vec![]));
    let templates = vec![
        template("t.j2", "x", vec![file("ghost", "a.txt", vars(vec![]))], vars(vec![])),
    ];
    let err = do_render(&cfg, &templates).unwrap_err();
    assert_eq!(err, Error::NoSuchRepo("ghost".to_string()));
}

#[test]
fn template_syntax_error_aborts() {
    let cfg = one_repo_config(vars(vec![]), vars(vec![]));
    let templates = vec![
        template("t.j2", "{% if %}", vec![file("r", "a.txt", vars(vec![]))], vars(vec![])),
    ];
    match do_render(&cfg, &templates) {
        Err(Error::Template(m)) => {
            assert!(m.starts_with("parsing templates: "), "wrong diagnostic: {m}");
        },
        other => panic!("expected a template error, got {:?}", other),
    }
}

#[test]
fn missing_variable_fails_the_render() {
    let cfg = one_repo_config(vars(vec![]), vars(vec![]));
    let templates = vec![
        template("t.j2", "{{missing}}", vec![file("r", "a.txt", vars(vec![]))], vars(vec![])),
    ];
    match do_render(&cfg, &templates) {
        Err(Error::Template(m)) => {
            assert!(m.starts_with("rendering r/a.txt: "), "diagnostic misses the file: {m}");
        },
        other => panic!("expected a template error, got {:?}", other),
    }
}

#[test]
fn unparseable_variable_value_is_a_context_error() {
    let cfg = one_repo_config(vars(vec![pair("x", "{")]), vars(vec![]));
    let templates = vec![
        template("t.j2", "{{x}}", vec![file("r", "a.txt", vars(vec![]))], vars(vec![])),
    ];
    match do_render(&cfg, &templates) {
        Err(Error::Context(_)) => {},
        other => panic!("expected a context error, got {:?}", other),
    }
}

#[test]
fn executable_flag_comes_from_the_template() {
    let cfg = one_repo_config(vars(vec![]), vars(vec![]));
    let mut t = template("t.j2", "x", vec![file("r", "run.sh", vars(vec![]))], vars(vec![]));
    t.executable = true;
    let arts = do_render(&cfg, &vec![t]).unwrap();
    assert!(arts[0].executable);
}

fn two_repo_setup() -> (Config, Vec<TemplateData>) {
    let cfg = Config {
        repos: vec![
            RepoEntry {
                name: "r".to_string(),
                repo: Repo { url: "u1".to_string(), vars: vars(vec![]) },
            },
            RepoEntry {
                name: "s".to_string(),
                repo: Repo { url: "u2".to_string(), vars: vars(vec![]) },
            },
        ],
        templates: vec!["t.j2".to_string()],
        vars: vars(vec![]),
    };
    let templates = vec![
        template(
            "t.j2",
            "x",
            vec![file("r", "a.txt", vars(vec![])), file("s", "b.txt", vars(vec![]))],
            vars(vec![]),
        ),
    ];
    (cfg, templates)
}

#[test]
fn unrestricted_render_prefixes_repo_names() {
    let (cfg, templates) = two_repo_setup();
    let ws = render(&cfg, &templates, &None).unwrap();
    let paths: Vec<&str> = ws.iter().map(|w| w.path.as_str()).collect();
    assert_eq!(paths, vec!["r/a.txt", "s/b.txt"]);
}

#[test]
fn repo_filtered_render_strips_the_prefix() {
    // restricted to repo r: only r's artifact, under its bare path
    let (cfg, templates) = two_repo_setup();
    let ws = render(&cfg, &templates, &Some("r".to_string())).unwrap();
    let paths: Vec<&str> = ws.iter().map(|w| w.path.as_str()).collect();
    assert_eq!(paths, vec!["a.txt"]);
}

#[test]
fn filter_to_unknown_repo_is_refused() {
    let (cfg, templates) = two_repo_setup();
    let err = render(&cfg, &templates, &Some("nope".to_string())).unwrap_err();
    assert_eq!(err, Error::NoSuchRepo("nope".to_string()));
}
