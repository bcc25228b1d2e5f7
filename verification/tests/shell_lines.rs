use tryrs::cli::{build_cd_query, cd_flow_plan, selection_command_line, CdPlan};
use tryrs::selector::{ActionType, Selection};

#[test]
fn test_build_cd_query_strips_duplicate_cd() {
    let args = vec![
        String::from("cd"),
        String::from("foo"),
        String::from("bar"),
    ];
    let q = build_cd_query(&args);
    assert_eq!(q, "foo bar");
}

#[test]
fn test_build_cd_query_no_change_when_no_dup() {
    let args = vec![String::from("notes"), String::from("proj")];
    let q = build_cd_query(&args);
    assert_eq!(q, "notes proj");
}

#[test]
fn test_cd_flow_plan_empty_query_is_interactive() {
    let names: Vec<String> = Vec::new();
    assert!(matches!(
        cd_flow_plan("   ", "/base", &names, false),
        CdPlan::Interactive
    ));
}

#[test]
fn test_cd_flow_plan_exact_match_is_interactive() {
    let names = vec![String::from("2025-08-26-foo-bar")];
    assert!(matches!(
        cd_flow_plan("foo bar", "/base", &names, false),
        CdPlan::Interactive
    ));
}

#[test]
fn test_cd_flow_plan_fast_create_line() {
    let names: Vec<String> = Vec::new();
    match cd_flow_plan("foo bar", "/base", &names, false) {
        CdPlan::FastCreate(line) => {
            assert!(line.starts_with("dir='/base/"));
            assert!(line.contains("-foo-bar'"));
            assert!(line.ends_with(
                " && mkdir -p \"$dir\" && touch \"$dir\" && cd \"$dir\""
            ));
        }
        _ => panic!("expected a fast-create plan"),
    }
}

#[test]
fn test_cd_flow_plan_clone_line() {
    let names: Vec<String> = Vec::new();
    match cd_flow_plan("https://github.com/user/repo.git", "/base", &names, false) {
        CdPlan::CloneRepo(line) => {
            assert!(line.starts_with("dir='/base/"));
            assert!(line.contains("-user-repo'"));
            assert!(line.contains("git clone 'https://github.com/user/repo.git' \"$dir\""));
            assert!(line.ends_with(" && touch \"$dir\" && cd \"$dir\""));
        }
        _ => panic!("expected a clone plan"),
    }
}

#[test]
fn test_cd_flow_plan_bad_uri_warns() {
    let names: Vec<String> = Vec::new();
    match cd_flow_plan("bar.git", "/base", &names, false) {
        CdPlan::BadUri(s) => assert_eq!(s, "bar.git"),
        _ => panic!("expected a bad-uri plan"),
    }
}

#[test]
fn test_selection_command_line_cd() {
    let sel = Selection {
        kind: ActionType::Cd,
        path: Some(String::from("/base/x")),
    };
    let line = selection_command_line(&sel, false).unwrap();
    assert_eq!(line, "dir='/base/x' && touch \"$dir\" && cd \"$dir\"");
}

#[test]
fn test_selection_command_line_mkdir_fish() {
    let sel = Selection {
        kind: ActionType::Mkdir,
        path: Some(String::from("/base/y")),
    };
    let line = selection_command_line(&sel, true).unwrap();
    assert_eq!(
        line,
        "set -l dir '/base/y' && mkdir -p \"$dir\" && touch \"$dir\" && cd \"$dir\""
    );
}

#[test]
fn test_selection_command_line_cancel() {
    let sel = Selection {
        kind: ActionType::Cancel,
        path: None,
    };
    assert!(selection_command_line(&sel, false).is_none());
}
