use tmpl8::github::matrix_repos;
use tmpl8::schema::{Config, Repo, RepoEntry};
use tmpl8::vars::Vars;

fn config_with_urls(urls: Vec<&str>) -> Config {
    Config {
        repos: urls
            .into_iter()
            .enumerate()
            .map(|(i, u)| RepoEntry {
                name: format!("r{i}"),
                repo: Repo { url: u.to_string(), vars: Vars::empty() },
            })
            .collect(),
        templates: vec![],
        vars: Vars::empty(),
    }
}

#[test]
fn hosted_urls_are_stripped() {
    let cfg = config_with_urls(vec!["https://github.com/owner/name"]);
    assert_eq!(matrix_repos(&cfg), vec!["owner/name".to_string()]);
}

#[test]
fn other_hosts_are_ignored() {
    let cfg = config_with_urls(vec![
        "https://github.com/a/b",
        "https://gitlab.com/c/d",
        "git@github.com:e/f",
        "https://github.com/g/h",
    ]);
    assert_eq!(matrix_repos(&cfg), vec!["a/b".to_string(), "g/h".to_string()]);
}

#[test]
fn empty_fleet_gives_an_empty_matrix() {
    let cfg = config_with_urls(vec![]);
    assert!(matrix_repos(&cfg).is_empty());
}
