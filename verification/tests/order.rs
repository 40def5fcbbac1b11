use naide_desktop::browse::{first_user_message, session_mode, ChatMessage};
use naide_desktop::order::{chars_le, entry_key, sort_entries, sort_latest_first, str_le, EntryKey};
use naide_desktop::text::chars_of;

#[test]
fn texts_go_by_the_dictionary() {
    assert!(str_le("", ""));
    assert!(str_le("", "a"));
    assert!(!str_le("a", ""));
    assert!(str_le("a", "a"));
    assert!(str_le("a", "b"));
    assert!(!str_le("b", "a"));
    assert!(str_le("ab", "abc"));
    assert!(!str_le("abc", "ab"));
    assert!(str_le("abc", "abd"));
    assert!(str_le("Z", "a"));
    assert!(str_le("z", "é"));
    assert!(chars_le(&chars_of("2026-01-31"), &chars_of("2026-02-01")));
    for (a, b) in [("", "x"), ("alpha", "beta"), ("a", "ab"), ("é", "z"), ("same", "same")] {
        assert_eq!(str_le(a, b), a <= b, "{} {}", a, b);
        assert_eq!(str_le(b, a), b <= a, "{} {}", b, a);
    }
}

#[test]
fn entry_key_is_lower_case() {
    let key = entry_key(false, Some("2026-02-01".to_string()), "Add-Copilot");
    assert_eq!(key.name, "add-copilot");
    assert_eq!(key.date, Some("2026-02-01".to_string()));
    assert!(!key.is_folder);
    assert_eq!(entry_key(true, None, "SRC").name, "src");
}

fn names(sorted: Vec<(EntryKey, &'static str)>) -> Vec<&'static str> {
    sorted.into_iter().map(|(_, name)| name).collect()
}

#[test]
fn folders_stand_before_files() {
    let items = vec![
        (entry_key(false, None, "b.md"), "b.md"),
        (entry_key(true, None, "zeta"), "zeta"),
        (entry_key(false, None, "A.md"), "A.md"),
        (entry_key(true, None, "Alpha"), "Alpha"),
    ];
    assert_eq!(names(sort_entries(items)), vec!["Alpha", "zeta", "A.md", "b.md"]);
}

#[test]
fn dated_files_stand_latest_first() {
    let items = vec![
        (entry_key(false, None, "notes"), "notes"),
        (entry_key(false, Some("2026-01-15".to_string()), "b"), "jan-b"),
        (entry_key(false, Some("2026-02-01".to_string()), "z"), "feb-z"),
        (entry_key(false, Some("2026-01-15".to_string()), "A"), "jan-A"),
        (entry_key(false, None, "Index"), "Index"),
        (entry_key(true, None, "bugs"), "bugs"),
    ];
    assert_eq!(
        names(sort_entries(items)),
        vec!["bugs", "feb-z", "jan-A", "jan-b", "Index", "notes"]
    );
}

#[test]
fn equal_keys_keep_their_order() {
    let items = vec![
        (entry_key(false, None, "Readme"), "first"),
        (entry_key(false, None, "README"), "second"),
        (entry_key(false, None, "readme"), "third"),
        (entry_key(false, None, "a"), "a"),
    ];
    assert_eq!(names(sort_entries(items)), vec!["a", "first", "second", "third"]);
    assert!(sort_entries(Vec::<(EntryKey, u8)>::new()).is_empty());
}

#[test]
fn sessions_stand_latest_first() {
    let items = vec![(10, "old"), (30, "new"), (20, "mid-a"), (20, "mid-b"), (0, "none")];
    let sorted: Vec<&str> = sort_latest_first(items).into_iter().map(|(_, s)| s).collect();
    assert_eq!(sorted, vec!["new", "mid-a", "mid-b", "old", "none"]);
    let times: Vec<u64> = sort_latest_first(vec![(1u64, ()), (u64::MAX, ()), (5, ())])
        .into_iter()
        .map(|(t, _)| t)
        .collect();
    assert_eq!(times, vec![u64::MAX, 5, 1]);
}

fn message(role: Option<&str>, content: Option<&str>) -> ChatMessage {
    ChatMessage { role: role.map(|s| s.to_string()), content: content.map(|s| s.to_string()) }
}

#[test]
fn first_message_of_the_user_is_shown() {
    let messages = vec![
        message(Some("system"), Some("be brief")),
        message(None, Some("stray")),
        message(Some("user"), Some("add a login page")),
        message(Some("user"), Some("and a logout")),
    ];
    assert_eq!(first_user_message(&messages), "add a login page");
    assert_eq!(first_user_message(&vec![message(Some("assistant"), Some("hi"))]), "");
    assert_eq!(first_user_message(&Vec::new()), "");
    let no_text = vec![message(Some("user"), None), message(Some("user"), Some("later"))];
    assert_eq!(first_user_message(&no_text), "");
    assert_eq!(first_user_message(&vec![message(Some("User"), Some("x"))]), "");
}

#[test]
fn session_without_mode_is_planning() {
    assert_eq!(session_mode(None), "Planning");
    assert_eq!(session_mode(Some("Building".to_string())), "Building");
    assert_eq!(session_mode(Some("".to_string())), "");
}
