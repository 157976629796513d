use pj::config::{
    add_current_path_to_home_config, expand_home, get_config_path, get_home_config_path,
    get_project, get_project_defintions, load_project, merge, parsed, read_config, HomeConfig,
    Project, ProjectConfig, ProjectDefinition, ReadOutcome, Window,
};
use pj::error::Error;

fn definition(name: &str, path: &str) -> ProjectDefinition {
    ProjectDefinition { name: name.to_string(), path: path.to_string() }
}

fn registry(entries: &[(&str, &str)]) -> HomeConfig {
    HomeConfig { project: entries.iter().map(|(name, path)| definition(name, path)).collect() }
}

fn window_with_start(start: Option<&str>) -> Window {
    Window { name: None, folder: None, command: None, start: start.map(|s| s.to_string()) }
}

fn count_named(config: &HomeConfig, name: &str) -> usize {
    config.project.iter().filter(|entry| entry.name == name).count()
}

#[test]
fn config_path_is_the_fixed_file_inside_the_directory() {
    assert_eq!(get_config_path("/repo/web"), "/repo/web/.pjconfig");
    assert_eq!(get_config_path(""), "/.pjconfig");
    assert_eq!(get_home_config_path("/home/u"), "/home/u/.pjconfig");
}

#[test]
fn expand_home_replaces_a_leading_tilde() {
    assert_eq!(expand_home("~/code/web", "/home/u"), "/home/u/code/web");
    assert_eq!(expand_home("~/", "/home/u"), "/home/u/");
    assert_eq!(expand_home("~/日本/ü", "/home/ä"), "/home/ä/日本/ü");
}

#[test]
fn expand_home_leaves_other_paths_alone() {
    assert_eq!(expand_home("/repo/web", "/home/u"), "/repo/web");
    assert_eq!(expand_home("~", "/home/u"), "~");
    assert_eq!(expand_home("~web/x", "/home/u"), "~web/x");
    assert_eq!(expand_home("relative/~/x", "/home/u"), "relative/~/x");
    assert_eq!(expand_home("", "/home/u"), "");
}

#[test]
fn read_config_hands_the_contents_on() {
    let outcome = ReadOutcome::Contents("[[project]]\n".to_string());
    assert_eq!(read_config("/home/u/.pjconfig", outcome), Ok("[[project]]\n".to_string()));
}

#[test]
fn read_config_reports_a_missing_file() {
    assert_eq!(
        read_config("/home/u/.pjconfig", ReadOutcome::Missing),
        Err(Error::ConfigNotFound { path: "/home/u/.pjconfig".to_string() })
    );
}

#[test]
fn read_config_reports_an_unreadable_file() {
    assert_eq!(
        read_config("/x/.pjconfig", ReadOutcome::Failed("Permission denied".to_string())),
        Err(Error::ConfigUnreadable {
            path: "/x/.pjconfig".to_string(),
            reason: "Permission denied".to_string()
        })
    );
}

#[test]
fn parsed_hands_the_value_on() {
    assert_eq!(parsed("/x/.pjconfig", Ok(registry(&[("web", "/w")]))), Ok(registry(&[("web", "/w")])));
}

#[test]
fn parsed_reports_a_malformed_file() {
    let outcome: Result<HomeConfig, String> = Err("expected an equals, found eof".to_string());
    assert_eq!(
        parsed("/x/.pjconfig", outcome),
        Err(Error::ConfigMalformed {
            path: "/x/.pjconfig".to_string(),
            reason: "expected an equals, found eof".to_string()
        })
    );
}

#[test]
fn merge_fills_in_a_missing_start_script_and_keeps_a_declared_one() {
    let defaults = Some(pj::config::Default { start: Some("s".to_string()) });
    let windows = vec![window_with_start(None), window_with_start(Some("x"))];
    assert_eq!(
        merge(&defaults, windows),
        vec![window_with_start(Some("s")), window_with_start(Some("x"))]
    );
}

#[test]
fn merge_without_defaults_changes_nothing() {
    assert_eq!(merge(&None, vec![window_with_start(None)]), vec![window_with_start(None)]);
    let windows = vec![window_with_start(Some("x")), window_with_start(None)];
    assert_eq!(merge(&None, windows.clone()), windows);
}

#[test]
fn merge_with_defaults_that_name_no_start_script_changes_nothing() {
    let defaults = Some(pj::config::Default { start: None });
    let windows = vec![window_with_start(None), window_with_start(Some("x"))];
    assert_eq!(merge(&defaults, windows.clone()), windows);
}

#[test]
fn merge_keeps_order_and_every_other_field() {
    let defaults = Some(pj::config::Default { start: Some("env.sh".to_string()) });
    let first = Window {
        name: Some("editor".to_string()),
        folder: Some("src".to_string()),
        command: Some("vim".to_string()),
        start: None,
    };
    let second = Window {
        name: None,
        folder: Some("docs".to_string()),
        command: None,
        start: Some("own.sh".to_string()),
    };
    let third = Window { name: Some("shell".to_string()), folder: None, command: None, start: None };
    let merged = merge(&defaults, vec![first.clone(), second.clone(), third.clone()]);
    assert_eq!(
        merged,
        vec![
            Window { start: Some("env.sh".to_string()), ..first },
            second,
            Window { start: Some("env.sh".to_string()), ..third },
        ]
    );
}

#[test]
fn merge_of_no_windows_is_empty() {
    let defaults = Some(pj::config::Default { start: Some("s".to_string()) });
    assert_eq!(merge(&defaults, Vec::new()), Vec::<Window>::new());
}

#[test]
fn load_project_expands_the_path_and_merges_the_defaults() {
    let config = ProjectConfig {
        windows: vec![window_with_start(None), window_with_start(Some("x"))],
        default: Some(pj::config::Default { start: Some("s".to_string()) }),
    };
    let project = load_project(&definition("web", "~/code/web"), "/home/u", config);
    assert_eq!(
        project,
        Project {
            windows: vec![window_with_start(Some("s")), window_with_start(Some("x"))],
            path: "/home/u/code/web".to_string(),
            name: "web".to_string(),
        }
    );
}

#[test]
fn load_project_accepts_a_layout_without_windows() {
    let config = ProjectConfig { windows: Vec::new(), default: None };
    let project = load_project(&definition("bare", "/repo/bare"), "/home/u", config);
    assert_eq!(
        project,
        Project { windows: Vec::new(), path: "/repo/bare".to_string(), name: "bare".to_string() }
    );
}

#[test]
fn adding_a_new_project_appends_it() {
    let config = registry(&[("api", "/repo/api")]);
    assert_eq!(
        add_current_path_to_home_config(config, "web", "/repo/web"),
        registry(&[("api", "/repo/api"), ("web", "/repo/web")])
    );
}

#[test]
fn adding_to_an_empty_registry_gives_one_entry() {
    assert_eq!(
        add_current_path_to_home_config(registry(&[]), "web", "/repo/web"),
        registry(&[("web", "/repo/web")])
    );
}

#[test]
fn adding_a_known_project_replaces_its_entry_and_keeps_the_others() {
    let config = registry(&[("api", "/repo/api"), ("web", "/old/web"), ("docs", "/repo/docs")]);
    let updated = add_current_path_to_home_config(config, "web", "/repo/web");
    assert_eq!(
        updated,
        registry(&[("api", "/repo/api"), ("docs", "/repo/docs"), ("web", "/repo/web")])
    );
    assert_eq!(count_named(&updated, "web"), 1);
}

#[test]
fn adding_a_project_removes_every_earlier_entry_of_its_name() {
    let config = registry(&[("web", "/a"), ("api", "/repo/api"), ("web", "/b")]);
    let updated = add_current_path_to_home_config(config, "web", "/repo/web");
    assert_eq!(updated, registry(&[("api", "/repo/api"), ("web", "/repo/web")]));
}

#[test]
fn adding_the_same_project_twice_changes_nothing_more() {
    let config = registry(&[("api", "/repo/api"), ("web", "/old/web")]);
    let once = add_current_path_to_home_config(config, "web", "/repo/web");
    let twice = add_current_path_to_home_config(once.clone(), "web", "/repo/web");
    assert_eq!(once, twice);
}

#[test]
fn get_project_defintions_hands_out_the_registry_in_order() {
    let config = registry(&[("api", "/repo/api"), ("web", "/repo/web")]);
    assert_eq!(
        get_project_defintions(config),
        vec![definition("api", "/repo/api"), definition("web", "/repo/web")]
    );
}

#[test]
fn get_project_finds_a_project_by_name() {
    let projects = vec![definition("api", "/repo/api"), definition("web", "/repo/web")];
    assert_eq!(get_project(&projects, "web"), Ok(definition("web", "/repo/web")));
    assert_eq!(get_project(&projects, "api"), Ok(definition("api", "/repo/api")));
}

#[test]
fn get_project_takes_the_first_of_two_entries() {
    let projects = vec![definition("web", "/first"), definition("web", "/second")];
    assert_eq!(get_project(&projects, "web"), Ok(definition("web", "/first")));
}

#[test]
fn get_project_reports_an_unknown_name() {
    let projects = vec![definition("api", "/repo/api")];
    assert_eq!(
        get_project(&projects, "web"),
        Err(Error::ProjectNotRegistered { name: "web".to_string() })
    );
    assert_eq!(
        get_project(&Vec::new(), "web"),
        Err(Error::ProjectNotRegistered { name: "web".to_string() })
    );
    assert_eq!(
        get_project(&projects, "ap"),
        Err(Error::ProjectNotRegistered { name: "ap".to_string() })
    );
}
