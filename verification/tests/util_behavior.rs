use tryrs::storage::{fast_create_target_if_no_exact, normalize_query_for_match};
use tryrs::util::{
    civil_from_days, dir_assign_for_shell, extract_option_with_value, format_human_size,
    generate_clone_directory_name, is_git_uri, is_printable, join_shell, parse_git_uri,
    sanitize_query, shell_escape, shellexpand_home, split_date_prefixed, today_prefix,
};

#[test]
fn test_sanitize_query_filters_disallowed() {
    let input = "Hello,_World-!@$ 42.";
    let out = sanitize_query(input);
    assert_eq!(out, "Hello_World- 42.");
}

#[test]
fn test_is_printable() {
    assert!(is_printable('a'));
    assert!(is_printable('-'));
    assert!(is_printable('_'));
    assert!(is_printable('.'));
    assert!(is_printable(' '));
    assert!(!is_printable('\n'));
    assert!(!is_printable('!'));
}

#[test]
fn test_split_date_prefixed() {
    let s = "2025-08-26-hello";
    let p = split_date_prefixed(s);
    assert_eq!(p, Some(("2025-08-26", "hello")));
    assert_eq!(split_date_prefixed("foo"), None);
    assert_eq!(
        split_date_prefixed("2025-08-2x-hello"),
        Some(("2025-08-2x", "hello"))
    );
}

#[test]
fn test_civil_from_days_epoch() {
    // 1970-01-01 is day 0 in our usage
    let (y, m, d) = civil_from_days(0);
    assert_eq!((y, m, d), (1970, 1, 1));
}

#[test]
fn test_civil_from_days_known_dates() {
    // 2000-01-01 is day 10957; 2000-02-29 shows the leap rule.
    assert_eq!(civil_from_days(10957), (2000, 1, 1));
    assert_eq!(civil_from_days(11016), (2000, 2, 29));
    assert_eq!(civil_from_days(364), (1970, 12, 31));
}

#[test]
fn test_today_prefix_shape() {
    let p = today_prefix();
    let chars: Vec<char> = p.chars().collect();
    assert_eq!(chars.len(), 10);
    assert_eq!(chars[4], '-');
    assert_eq!(chars[7], '-');
    for (i, c) in chars.iter().enumerate() {
        if i != 4 && i != 7 {
            assert!(c.is_ascii_digit());
        }
    }
}

#[test]
fn test_format_relative_time_none() {
    assert_eq!(tryrs::tui::format_relative_time(None, 1_700_000_000), "?");
}

#[test]
fn test_format_relative_time_buckets() {
    let now: u64 = 1_000_000_000;
    // just now (<= 9s)
    assert_eq!(tryrs::tui::format_relative_time(Some(now), now), "just now");
    // minutes
    assert_eq!(
        tryrs::tui::format_relative_time(Some(now - 2 * 60), now),
        "2m ago"
    );
    // hours
    assert_eq!(
        tryrs::tui::format_relative_time(Some(now - 3 * 3_600), now),
        "3h ago"
    );
    // days
    assert_eq!(
        tryrs::tui::format_relative_time(Some(now - 5 * 86_400), now),
        "5d ago"
    );
    // months (30-day blocks)
    assert_eq!(
        tryrs::tui::format_relative_time(Some(now - 2 * 2_592_000), now),
        "2mo ago"
    );
    // years
    assert_eq!(
        tryrs::tui::format_relative_time(Some(now - 3 * 31_536_000), now),
        "3y ago"
    );
    // future timestamp gracefully treated as "just now"
    assert_eq!(
        tryrs::tui::format_relative_time(Some(now + 60), now),
        "just now"
    );
}

#[test]
fn test_shell_escape_single_quotes() {
    let escaped = shell_escape("/tmp/it's ok");
    assert_eq!(escaped, "'/tmp/it'\\''s ok'");
}

#[test]
fn test_shell_escape_empty() {
    assert_eq!(shell_escape(""), "''");
}

#[test]
fn test_normalize_query_for_match_spaces_to_dash_and_sanitize() {
    let q = "Hello,  World!!";
    let norm = normalize_query_for_match(q);
    assert_eq!(norm, "Hello-World");
}

#[test]
fn test_fast_create_skips_when_exact_exists_ignoring_date() {
    // existing dir: date-prefixed version of "foo-bar"; exact match by
    // stripping the date and normalizing spaces -> '-'
    let names = vec![String::from("2025-08-26-foo-bar")];
    let res = fast_create_target_if_no_exact(&names, "foo bar", "2025-08-26");
    assert!(res.is_none());
}

#[test]
fn test_fast_create_returns_target_when_no_match() {
    let names: Vec<String> = Vec::new();
    let today = today_prefix();
    let res = fast_create_target_if_no_exact(&names, "new thing", &today);
    assert!(res.is_some());
    let bn = res.unwrap();
    assert!(bn.starts_with(&today));
    assert!(bn.ends_with("-new-thing"));
}

#[test]
fn test_fast_create_sanitizes_query() {
    let names: Vec<String> = Vec::new();
    let today = today_prefix();
    // sanitize removes !@$ but keeps underscore, dash, space, dot
    let q = "Hello,_World-!@$ 42.";
    let res = fast_create_target_if_no_exact(&names, q, &today);
    let bn = res.unwrap();
    assert!(bn.contains("Hello_World-"));
    assert!(bn.ends_with("-42."));
}

#[test]
fn test_git_uri_parsing_and_dirname() {
    let p1 = parse_git_uri("https://github.com/user/repo.git").unwrap();
    assert_eq!(p1.user, "user");
    assert_eq!(p1.repo, "repo");
    let dn = generate_clone_directory_name("git@github.com:user/repo.git", None).unwrap();
    assert!(dn.ends_with("-user-repo"));
    // custom name wins
    let dn2 = generate_clone_directory_name("https://gitlab.com/u/r", Some("my-fork"));
    assert_eq!(dn2.unwrap(), "my-fork");
}

#[test]
fn test_is_git_uri_matrix() {
    assert!(is_git_uri("https://github.com/user/repo"));
    assert!(is_git_uri("git@github.com:user/repo.git"));
    assert!(is_git_uri("https://gitlab.com/u/r"));
    // permissive detection: contains host or .git suffix
    assert!(is_git_uri("ssh://git@github.com/user/repo.git"));
    assert!(!is_git_uri("notes/proj"));
    assert!(!is_git_uri("foo"));
    assert!(is_git_uri("bar.git"));
}

#[test]
fn test_shellexpand_home_and_join_shell() {
    // shellexpand_home expands ~/
    if let Some(home) = dirs::home_dir() {
        let p = shellexpand_home("~/abc");
        assert!(p.starts_with(home.to_string_lossy().as_ref()));
        assert!(p.ends_with("abc"));
    }
    // Non-tilde path unchanged
    assert_eq!(shellexpand_home("/tmp/x"), "/tmp/x");
    // join_shell trivial
    assert_eq!(
        join_shell(&vec![String::from("a"), String::from("b")]),
        "a && b"
    );
}

#[test]
fn test_extract_option_with_value_removes_and_last_wins() {
    // Case: flag separate arg form
    let mut args = vec![
        String::from("--path"),
        String::from("/tmp/x"),
        String::from("cd"),
    ];
    let val = extract_option_with_value(&mut args, "--path");
    assert_eq!(val.as_deref(), Some("/tmp/x"));
    assert_eq!(args, vec![String::from("cd")]);

    // Case: mix of = and separate; rightmost wins
    let mut args = vec![
        String::from("--path=/a"),
        String::from("--path"),
        String::from("/b"),
        String::from("init"),
    ];
    let val = extract_option_with_value(&mut args, "--path");
    assert_eq!(val.as_deref(), Some("/b"));
    assert_eq!(args, vec![String::from("init")]);
}

#[test]
fn test_format_human_size_values() {
    assert_eq!(format_human_size(0), "0B");
    assert_eq!(format_human_size(500), "500B");
    assert_eq!(format_human_size(1023), "1023B");
    assert_eq!(format_human_size(1536), "1.5K");
    assert_eq!(format_human_size(2048), "2.0K");
    // 1280 / 1024 = 1.25: ties round to even
    assert_eq!(format_human_size(1280), "1.2K");
    assert_eq!(format_human_size(10 * 1024 * 1024), "10.0M");
    assert_eq!(format_human_size(3 * 1024 * 1024 * 1024), "3.0G");
}

#[test]
fn test_dir_assign_for_shell_forms() {
    assert_eq!(dir_assign_for_shell("/tmp/x", false), "dir='/tmp/x'");
    assert_eq!(
        dir_assign_for_shell("/tmp/x", true),
        "set -l dir '/tmp/x'"
    );
}
