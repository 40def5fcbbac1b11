use naide_desktop::watcher::{
    change_worthy, event_name, exclusions, features_subpath, forwards, lies_under,
    missing_root_message, notifications, path_excluded, ChangeKind, WatchRegistry, WatchSession,
    WatchTarget,
};

fn path(text: &str) -> Vec<String> {
    text.split('/').filter(|s| !s.is_empty()).map(|s| s.to_string()).collect()
}

#[test]
fn creation_under_excluded_component_is_not_forwarded() {
    let root = path("project");
    let excluded = exclusions(WatchTarget::Project);
    let paths = vec![path("project/node_modules/x.txt")];
    assert_eq!(notifications(WatchTarget::Project, ChangeKind::Create, &paths, &root, &excluded), 0);
    assert!(!forwards(WatchTarget::Project, ChangeKind::Create, &paths, &root, &excluded));
}

#[test]
fn creation_under_plain_path_is_forwarded_once() {
    let root = path("project");
    let excluded = exclusions(WatchTarget::Project);
    let paths = vec![path("project/src/x.txt")];
    assert_eq!(notifications(WatchTarget::Project, ChangeKind::Create, &paths, &root, &excluded), 1);
    assert!(forwards(WatchTarget::Project, ChangeKind::Create, &paths, &root, &excluded));
}

#[test]
fn project_watch_leaves_out_twelve_names() {
    let excluded = exclusions(WatchTarget::Project);
    assert_eq!(
        excluded,
        vec![
            "node_modules", ".git", "bin", "obj", "dist", "build", "out", ".naide", "target",
            "__pycache__", ".venv", "venv"
        ]
    );
    assert!(exclusions(WatchTarget::Features).is_empty());
    let root = path("home/me/project");
    for name in &excluded {
        let p = vec![path(&format!("home/me/project/a/{}/b/file.txt", name))];
        assert!(!forwards(WatchTarget::Project, ChangeKind::Remove, &p, &root, &excluded), "{}", name);
    }
}

#[test]
fn exclusion_is_relative_to_the_root() {
    let excluded = exclusions(WatchTarget::Project);
    let root = path("home/me/build/target/project");
    assert!(!path_excluded(&path("home/me/build/target/project/src/main.rs"), &root, &excluded));
    assert!(path_excluded(&path("home/me/build/target/project/target/debug/app"), &root, &excluded));
    assert!(forwards(
        WatchTarget::Project,
        ChangeKind::Create,
        &vec![path("home/me/build/target/project/src/main.rs")],
        &root,
        &excluded
    ));
}

#[test]
fn path_outside_the_root_is_not_excluded() {
    let excluded = exclusions(WatchTarget::Project);
    let root = path("home/me/project");
    assert!(!path_excluded(&path("home/you/node_modules/x"), &root, &excluded));
    assert!(!path_excluded(&path("home/me"), &root, &excluded));
    assert!(!path_excluded(&path("home/me/project"), &root, &excluded));
    assert!(!lies_under(&path("home/me"), &root));
    assert!(!lies_under(&path("home/me/projects/x"), &root));
    assert!(lies_under(&path("home/me/project"), &root));
    assert!(lies_under(&path("home/me/project/x/y"), &root));
    assert!(lies_under(&path("anything"), &Vec::new()));
}

#[test]
fn one_excluded_path_drops_the_whole_event() {
    let excluded = exclusions(WatchTarget::Project);
    let root = path("p");
    let paths = vec![path("p/src/a.rs"), path("p/.git/index"), path("p/src/b.rs")];
    assert!(!forwards(WatchTarget::Project, ChangeKind::Create, &paths, &root, &excluded));
    assert!(forwards(WatchTarget::Project, ChangeKind::Create, &Vec::new(), &root, &excluded));
}

#[test]
fn excluded_name_is_a_whole_component() {
    let excluded = exclusions(WatchTarget::Project);
    let root = path("p");
    assert!(!path_excluded(&path("p/binary/x"), &root, &excluded));
    assert!(!path_excluded(&path("p/my_node_modules/x"), &root, &excluded));
    assert!(!path_excluded(&path("p/Target/x"), &root, &excluded));
    assert!(path_excluded(&path("p/bin"), &root, &excluded));
    assert!(path_excluded(&path("p/x/venv"), &root, &excluded));
}

#[test]
fn features_watch_counts_modifications() {
    assert!(change_worthy(WatchTarget::Features, ChangeKind::Create));
    assert!(change_worthy(WatchTarget::Features, ChangeKind::Remove));
    assert!(change_worthy(WatchTarget::Features, ChangeKind::Modify));
    assert!(!change_worthy(WatchTarget::Features, ChangeKind::Other));
}

#[test]
fn project_watch_ignores_modifications() {
    assert!(change_worthy(WatchTarget::Project, ChangeKind::Create));
    assert!(change_worthy(WatchTarget::Project, ChangeKind::Remove));
    assert!(!change_worthy(WatchTarget::Project, ChangeKind::Modify));
    assert!(!change_worthy(WatchTarget::Project, ChangeKind::Other));
    let root = path("p");
    let excluded = exclusions(WatchTarget::Project);
    let paths = vec![path("p/src/a.rs")];
    assert_eq!(notifications(WatchTarget::Project, ChangeKind::Modify, &paths, &root, &excluded), 0);
    assert_eq!(notifications(WatchTarget::Features, ChangeKind::Modify, &paths, &root, &Vec::new()), 1);
}

#[test]
fn events_are_named_by_target() {
    assert_eq!(event_name(WatchTarget::Features), "feature-files-changed");
    assert_eq!(event_name(WatchTarget::Project), "project-files-changed");
    assert_eq!(missing_root_message(WatchTarget::Features), "Features directory does not exist");
    assert_eq!(missing_root_message(WatchTarget::Project), "Project directory does not exist");
    assert_eq!(features_subpath(), vec![".prompts".to_string(), "features".to_string()]);
}

#[test]
fn session_applies_the_exclusions_of_its_target() {
    let session = WatchSession::new(WatchTarget::Project, path("p"), 1u8);
    assert_eq!(session.excluded.len(), 12);
    assert!(session.forwards(ChangeKind::Create, &vec![path("p/src/a.rs")]));
    assert!(!session.forwards(ChangeKind::Create, &vec![path("p/dist/a.js")]));
    assert!(!session.forwards(ChangeKind::Modify, &vec![path("p/src/a.rs")]));
    let session = WatchSession::new(WatchTarget::Features, path("p/.prompts/features"), 2u8);
    assert!(session.excluded.is_empty());
    assert!(session.forwards(ChangeKind::Modify, &vec![path("p/.prompts/features/bin/a.md")]));
}

#[test]
fn new_session_replaces_the_one_of_its_target() {
    let mut registry: WatchRegistry<&'static str> = WatchRegistry::new();
    assert!(!registry.is_active(WatchTarget::Features));
    assert!(!registry.is_active(WatchTarget::Project));
    assert!(registry.install(WatchSession::new(WatchTarget::Features, path("a"), "first")).is_none());
    assert!(registry.install(WatchSession::new(WatchTarget::Project, path("a"), "project")).is_none());
    let replaced = registry.install(WatchSession::new(WatchTarget::Features, path("b"), "second")).unwrap();
    assert_eq!(replaced.handle, "first");
    assert_eq!(replaced.root, path("a"));
    assert!(registry.is_active(WatchTarget::Features));
    assert!(registry.is_active(WatchTarget::Project));
    let (features, project) = registry.stop_all();
    assert_eq!(features.unwrap().handle, "second");
    assert_eq!(project.unwrap().handle, "project");
    assert!(!registry.is_active(WatchTarget::Features));
    assert!(!registry.is_active(WatchTarget::Project));
}

#[test]
fn failed_start_leaves_the_old_session() {
    let mut registry: WatchRegistry<u32> = WatchRegistry::new();
    registry.install(WatchSession::new(WatchTarget::Project, path("old"), 1));
    let r = registry.finish_start(
        WatchTarget::Project,
        path("new"),
        Err("Failed to create watcher: too many open files".to_string()),
    );
    assert_eq!(r.err(), Some("Failed to create watcher: too many open files".to_string()));
    let (_, project) = registry.stop_all();
    let project = project.unwrap();
    assert_eq!(project.handle, 1);
    assert_eq!(project.root, path("old"));
}

#[test]
fn successful_start_installs_the_session() {
    let mut registry: WatchRegistry<u32> = WatchRegistry::new();
    registry.install(WatchSession::new(WatchTarget::Project, path("old"), 1));
    let replaced = registry.finish_start(WatchTarget::Project, path("new"), Ok(2)).unwrap().unwrap();
    assert_eq!(replaced.handle, 1);
    let first = registry.finish_start(WatchTarget::Features, path("f"), Ok(3)).unwrap();
    assert!(first.is_none());
    let (features, project) = registry.stop_all();
    assert_eq!(features.unwrap().handle, 3);
    let project = project.unwrap();
    assert_eq!(project.handle, 2);
    assert_eq!(project.root, path("new"));
    assert_eq!(project.excluded.len(), 12);
}
