use naide_desktop::settings::{
    add_recent_project, add_recent_project_by, check_project_path, clear_last_project,
    get_recent_projects, paths_match, remove_recent_project, remove_recent_project_by,
    set_last_project, set_last_project_by, GlobalSettings, LastProject, PathComparison,
};

#[test]
fn test_default_settings() {
    let settings = GlobalSettings::default();
    assert_eq!(settings.version, 1);
    assert!(settings.last_used_project.is_none());
}

#[test]
fn test_add_recent_project() {
    let mut settings = GlobalSettings::default();

    // Add first project
    add_recent_project(
        &mut settings,
        "/path/to/project1".to_string(),
        "2026-01-31T10:00:00Z".to_string(),
    );
    assert_eq!(settings.recent_projects.len(), 1);
    assert_eq!(settings.recent_projects[0].path, "/path/to/project1");

    // Add second project
    add_recent_project(
        &mut settings,
        "/path/to/project2".to_string(),
        "2026-01-31T11:00:00Z".to_string(),
    );
    assert_eq!(settings.recent_projects.len(), 2);
    assert_eq!(settings.recent_projects[0].path, "/path/to/project2"); // Most recent first

    // Add duplicate - should update position
    add_recent_project(
        &mut settings,
        "/path/to/project1".to_string(),
        "2026-01-31T12:00:00Z".to_string(),
    );
    assert_eq!(settings.recent_projects.len(), 2);
    assert_eq!(settings.recent_projects[0].path, "/path/to/project1"); // Now first
    assert_eq!(settings.recent_projects[1].path, "/path/to/project2");
}

#[test]
fn test_recent_projects_limit() {
    let mut settings = GlobalSettings::default();

    // Add 12 projects
    for i in 1..=12 {
        add_recent_project(
            &mut settings,
            format!("/path/to/project{}", i),
            format!("2026-01-31T{}:00:00Z", i),
        );
    }

    // Should be limited to 10
    assert_eq!(settings.recent_projects.len(), 10);
    // Most recent should be first
    assert_eq!(settings.recent_projects[0].path, "/path/to/project12");
    // Oldest of the 10 should be project 3
    assert_eq!(settings.recent_projects[9].path, "/path/to/project3");
}

#[test]
fn test_get_recent_projects() {
    let mut settings = GlobalSettings::default();
    add_recent_project(
        &mut settings,
        "/path/to/project1".to_string(),
        "2026-01-31T10:00:00Z".to_string(),
    );
    add_recent_project(
        &mut settings,
        "/path/to/project2".to_string(),
        "2026-01-31T11:00:00Z".to_string(),
    );

    let recent = get_recent_projects(&settings);
    assert_eq!(recent.len(), 2);
    assert_eq!(recent[0].path, "/path/to/project2");
    assert_eq!(recent[1].path, "/path/to/project1");
}

#[test]
fn test_remove_recent_project() {
    let mut settings = GlobalSettings::default();
    add_recent_project(
        &mut settings,
        "/path/to/project1".to_string(),
        "2026-01-31T10:00:00Z".to_string(),
    );
    add_recent_project(
        &mut settings,
        "/path/to/project2".to_string(),
        "2026-01-31T11:00:00Z".to_string(),
    );
    add_recent_project(
        &mut settings,
        "/path/to/project3".to_string(),
        "2026-01-31T12:00:00Z".to_string(),
    );
    assert_eq!(settings.recent_projects.len(), 3);

    remove_recent_project(&mut settings, "/path/to/project2");
    assert_eq!(settings.recent_projects.len(), 2);
    assert_eq!(settings.recent_projects[0].path, "/path/to/project3");
    assert_eq!(settings.recent_projects[1].path, "/path/to/project1");
}

#[test]
fn test_remove_recent_project_clears_last_used() {
    let mut settings = GlobalSettings::default();
    settings.last_used_project = Some(LastProject {
        path: "/path/to/project1".to_string(),
        last_accessed: "2026-01-31T10:00:00Z".to_string(),
    });
    add_recent_project(
        &mut settings,
        "/path/to/project1".to_string(),
        "2026-01-31T10:00:00Z".to_string(),
    );

    remove_recent_project(&mut settings, "/path/to/project1");
    assert_eq!(settings.recent_projects.len(), 0);
    assert!(settings.last_used_project.is_none());
}

#[test]
fn test_remove_recent_project_not_in_list() {
    let mut settings = GlobalSettings::default();
    add_recent_project(
        &mut settings,
        "/path/to/project1".to_string(),
        "2026-01-31T10:00:00Z".to_string(),
    );

    remove_recent_project(&mut settings, "/path/to/nonexistent");
    assert_eq!(settings.recent_projects.len(), 1);
}

#[test]
fn recent_entry_carries_the_new_timestamp() {
    let mut settings = GlobalSettings::default();
    add_recent_project(&mut settings, "/p".to_string(), "t1".to_string());
    add_recent_project(&mut settings, "/q".to_string(), "t2".to_string());
    add_recent_project(&mut settings, "/p".to_string(), "t3".to_string());
    assert_eq!(settings.recent_projects.len(), 2);
    assert_eq!(settings.recent_projects[0].path, "/p");
    assert_eq!(settings.recent_projects[0].last_accessed, "t3");
    assert_eq!(settings.recent_projects[1].last_accessed, "t2");
    assert_eq!(settings.version, 1);
}

#[test]
fn paths_are_compared_exactly() {
    let mut settings = GlobalSettings::default();
    add_recent_project(&mut settings, "/Path".to_string(), "t1".to_string());
    add_recent_project(&mut settings, "/path".to_string(), "t2".to_string());
    assert_eq!(settings.recent_projects.len(), 2);
    remove_recent_project(&mut settings, "/PATH");
    assert_eq!(settings.recent_projects.len(), 2);
}

#[test]
fn removing_another_path_keeps_the_last_used_project() {
    let mut settings = GlobalSettings::default();
    set_last_project(&mut settings, "/p".to_string(), "t1".to_string());
    add_recent_project(&mut settings, "/q".to_string(), "t2".to_string());
    remove_recent_project(&mut settings, "/q");
    assert_eq!(settings.last_used_project.as_ref().unwrap().path, "/p");
    assert_eq!(settings.recent_projects.len(), 1);
    assert_eq!(settings.recent_projects[0].path, "/p");
}

#[test]
fn last_project_is_set_recorded_and_cleared() {
    let mut settings = GlobalSettings::default();
    set_last_project(&mut settings, "/p".to_string(), "t1".to_string());
    let last = settings.last_used_project.clone().unwrap();
    assert_eq!(last.path, "/p");
    assert_eq!(last.last_accessed, "t1");
    assert_eq!(settings.recent_projects.len(), 1);
    clear_last_project(&mut settings);
    assert!(settings.last_used_project.is_none());
    assert_eq!(settings.recent_projects.len(), 1);
}

#[test]
fn project_path_must_be_a_directory() {
    assert_eq!(check_project_path("/p", true, true), Ok(()));
    assert_eq!(check_project_path("/p", false, false), Err("Path does not exist: /p".to_string()));
    assert_eq!(check_project_path("/p", false, true), Err("Path does not exist: /p".to_string()));
    assert_eq!(check_project_path("/p", true, false), Err("Path is not a directory: /p".to_string()));
}

#[test]
fn default_settings_are_empty() {
    let settings = GlobalSettings::default();
    assert!(settings.recent_projects.is_empty());
    assert!(settings.project_link_domains.is_empty());
    assert!(get_recent_projects(&settings).is_empty());
}

#[test]
fn paths_can_be_compared_without_regard_to_case() {
    assert!(paths_match(PathComparison::Exact, "C:\\Work", "C:\\Work"));
    assert!(!paths_match(PathComparison::Exact, "C:\\Work", "c:\\work"));
    assert!(paths_match(PathComparison::IgnoreCase, "C:\\Work", "c:\\work"));
    assert!(paths_match(PathComparison::IgnoreCase, "C:\\ÄRGER", "c:\\ärger"));
    assert!(!paths_match(PathComparison::IgnoreCase, "C:\\Work", "c:\\works"));
    assert!(paths_match(PathComparison::IgnoreAsciiCase, "C:\\Work", "c:\\wORK"));
    assert!(!paths_match(PathComparison::IgnoreAsciiCase, "C:\\ÄRGER", "c:\\ärger"));
    assert!(!paths_match(PathComparison::IgnoreAsciiCase, "abc", "abcd"));
    assert!(!paths_match(PathComparison::IgnoreAsciiCase, "a@c", "a`c"));
    assert!(!paths_match(PathComparison::IgnoreAsciiCase, "a[c", "a{c"));
    assert!(paths_match(PathComparison::IgnoreAsciiCase, "AZaz", "azAZ"));
    assert!(paths_match(PathComparison::IgnoreAsciiCase, "", ""));
}

#[test]
fn project_added_in_another_case_replaces_its_entry() {
    let mut settings = GlobalSettings::default();
    add_recent_project_by(&mut settings, "C:\\Work\\App".to_string(), "t1".to_string(), PathComparison::IgnoreCase);
    add_recent_project_by(&mut settings, "C:\\Other".to_string(), "t2".to_string(), PathComparison::IgnoreCase);
    add_recent_project_by(&mut settings, "c:\\work\\app".to_string(), "t3".to_string(), PathComparison::IgnoreCase);
    assert_eq!(settings.recent_projects.len(), 2);
    assert_eq!(settings.recent_projects[0].path, "c:\\work\\app");
    assert_eq!(settings.recent_projects[0].last_accessed, "t3");
    assert_eq!(settings.recent_projects[1].path, "C:\\Other");
    add_recent_project_by(&mut settings, "C:\\WORK\\APP".to_string(), "t4".to_string(), PathComparison::Exact);
    assert_eq!(settings.recent_projects.len(), 3);
}

#[test]
fn project_removed_in_another_case_leaves_the_list() {
    let mut settings = GlobalSettings::default();
    set_last_project_by(&mut settings, "C:\\Work\\App".to_string(), "t1".to_string(), PathComparison::IgnoreCase);
    add_recent_project(&mut settings, "C:\\Other".to_string(), "t2".to_string());
    remove_recent_project_by(&mut settings, "c:\\work\\app", PathComparison::Exact);
    assert_eq!(settings.recent_projects.len(), 2);
    assert!(settings.last_used_project.is_some());
    remove_recent_project_by(&mut settings, "c:\\work\\app", PathComparison::IgnoreAsciiCase);
    assert_eq!(settings.recent_projects.len(), 1);
    assert_eq!(settings.recent_projects[0].path, "C:\\Other");
    assert!(settings.last_used_project.is_none());
}
