use tmpl8::errors::Error;
use tmpl8::paths::{cache_dir, parent_of, template_config_path, template_path};

#[test]
fn cache_dir_sits_beside_the_config() {
    assert_eq!(cache_dir(&"dir/config.yaml".to_string()).unwrap(), "dir/.cache");
}

#[test]
fn cache_dir_of_a_bare_config_name_is_relative() {
    assert_eq!(cache_dir(&"config.yaml".to_string()).unwrap(), ".cache");
}

#[test]
fn cache_dir_of_an_empty_path_fails() {
    assert_eq!(cache_dir(&"".to_string()).unwrap_err(), Error::NoParent("".to_string()));
}

#[test]
fn parent_of_rooted_file_is_the_root() {
    assert_eq!(parent_of(&"/config.yaml".to_string()).unwrap(), "/");
}

#[test]
fn parent_of_the_root_fails() {
    assert_eq!(parent_of(&"/".to_string()).unwrap_err(), Error::NoParent("/".to_string()));
}

#[test]
fn template_path_is_relative_to_the_config() {
    assert_eq!(
        template_path(&"d/config.yaml".to_string(), &"tpl/ci.j2".to_string()).unwrap(),
        "d/tpl/ci.j2"
    );
}

#[test]
fn template_config_path_swaps_the_extension() {
    assert_eq!(
        template_config_path(&"d/config.yaml".to_string(), &"tpl/ci.j2".to_string()).unwrap(),
        "d/tpl/ci.yaml"
    );
}

#[test]
fn template_config_path_of_extensionless_template() {
    assert_eq!(
        template_config_path(&"config.yaml".to_string(), &"ci".to_string()).unwrap(),
        "ci.yaml"
    );
}

#[test]
fn error_messages_name_the_offender() {
    assert_eq!(Error::NoSuchRepo("r".to_string()).message(), "no such repo: r");
    assert_eq!(
        Error::Conflict("r/a.txt".to_string()).message(),
        "multiple attempts to write to r/a.txt"
    );
    assert_eq!(Error::NoParent("p".to_string()).message(), "path p has no parent");
    assert_eq!(Error::NoFileName("p".to_string()).message(), "path p has no filename");
    assert_eq!(Error::BadPattern("(".to_string()).message(), "invalid fork regex: (");
}
