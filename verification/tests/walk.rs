use naide_desktop::walk::{
    clone_path, name_has_extension, name_is_skipped, name_is_wanted, DirEntry, FileKind, FileWalk,
    ListReply, WalkStep,
};

fn csproj() -> FileKind {
    FileKind::WithExtension("csproj".to_string())
}

fn dir(name: &str) -> Result<DirEntry, String> {
    Ok(DirEntry { name: name.to_string(), is_dir: true })
}

fn file(name: &str) -> Result<DirEntry, String> {
    Ok(DirEntry { name: name.to_string(), is_dir: false })
}

/// The listings of a small project, by the path of the directory.
fn listing(path: &[String]) -> ListReply {
    let key: Vec<&str> = path.iter().map(|s| s.as_str()).collect();
    match key.as_slice() {
        [] => ListReply::Listed(vec![
            file("README.md"),
            dir("node_modules"),
            dir("src"),
            file("Root.csproj"),
            dir("bin"),
            dir("obj"),
            dir("tools"),
        ]),
        ["src"] => ListReply::Listed(vec![dir("Api"), file("notes.csproj.txt"), dir("Empty")]),
        ["src", "Api"] => ListReply::Listed(vec![file("Api.csproj"), file("Program.cs"), dir("obj")]),
        ["src", "Empty"] => ListReply::Listed(vec![]),
        ["tools"] => ListReply::Listed(vec![file(".csproj"), file("Tool.csproj")]),
        other => panic!("listed a directory that must not be entered: {:?}", other),
    }
}

fn run(mut step: WalkStep, listed: &mut Vec<Vec<String>>) -> Result<Vec<Vec<String>>, String> {
    loop {
        match step {
            WalkStep::Done(result) => return result,
            WalkStep::List { path, walk } => {
                listed.push(path.clone());
                step = walk.advance(listing(&path));
            }
        }
    }
}

#[test]
fn walk_collects_in_directory_order() {
    let mut listed = Vec::new();
    let found = run(FileWalk::begin(csproj(), true), &mut listed).unwrap();
    let found: Vec<String> = found.iter().map(|p| p.join("/")).collect();
    assert_eq!(found, vec!["src/Api/Api.csproj", "Root.csproj", "tools/Tool.csproj"]);
}

#[test]
fn walk_never_enters_skipped_directories() {
    let mut listed = Vec::new();
    run(FileWalk::begin(csproj(), true), &mut listed).unwrap();
    let listed: Vec<String> = listed.iter().map(|p| p.join("/")).collect();
    assert_eq!(listed, vec!["", "src", "src/Api", "src/Empty", "tools"]);
    for path in &listed {
        for name in path.split('/') {
            assert!(name != "node_modules" && name != "bin" && name != "obj");
        }
    }
}

#[test]
fn walk_of_a_missing_project_finds_nothing() {
    match FileWalk::begin(csproj(), false) {
        WalkStep::Done(Ok(found)) => assert!(found.is_empty()),
        _ => panic!("a missing project directory must end the walk at once"),
    }
}

#[test]
fn walk_starts_with_the_project_directory() {
    match FileWalk::begin(csproj(), true) {
        WalkStep::List { path, .. } => assert!(path.is_empty()),
        _ => panic!("the project directory must be listed first"),
    }
}

#[test]
fn unreadable_directory_aborts_the_walk() {
    let step = match FileWalk::begin(csproj(), true) {
        WalkStep::List { walk, .. } => walk.advance(ListReply::Listed(vec![file("A.csproj"), dir("src")])),
        _ => panic!(),
    };
    let step = match step {
        WalkStep::List { path, walk } => {
            assert_eq!(path, vec!["src".to_string()]);
            walk.advance(ListReply::Failed("Failed to read dir: permission denied".to_string()))
        }
        _ => panic!(),
    };
    match step {
        WalkStep::Done(Err(message)) => assert_eq!(message, "Failed to read dir: permission denied"),
        _ => panic!("the failure must end the walk"),
    }
}

#[test]
fn unreadable_entry_aborts_the_walk_when_it_is_reached() {
    let entries = vec![
        file("A.csproj"),
        Err("Failed to read entry: input/output error".to_string()),
        dir("src"),
    ];
    let step = match FileWalk::begin(csproj(), true) {
        WalkStep::List { walk, .. } => walk.advance(ListReply::Listed(entries)),
        _ => panic!(),
    };
    match step {
        WalkStep::Done(Err(message)) => assert_eq!(message, "Failed to read entry: input/output error"),
        _ => panic!("the failure must end the walk"),
    }
}

#[test]
fn unreadable_entry_after_a_directory_is_met_after_that_directory() {
    let entries = vec![dir("src"), Err("Failed to read entry: gone".to_string())];
    let step = match FileWalk::begin(csproj(), true) {
        WalkStep::List { walk, .. } => walk.advance(ListReply::Listed(entries)),
        _ => panic!(),
    };
    let step = match step {
        WalkStep::List { path, walk } => {
            assert_eq!(path, vec!["src".to_string()]);
            walk.advance(ListReply::Listed(vec![file("B.csproj")]))
        }
        _ => panic!("the directory before the failure is listed first"),
    };
    match step {
        WalkStep::Done(Err(message)) => assert_eq!(message, "Failed to read entry: gone"),
        _ => panic!(),
    }
}

#[test]
fn extension_is_what_follows_the_last_dot() {
    assert!(name_has_extension("Api.csproj", "csproj"));
    assert!(name_has_extension("a.b.csproj", "csproj"));
    assert!(name_has_extension(".hidden.csproj", "csproj"));
    assert!(!name_has_extension(".csproj", "csproj"));
    assert!(!name_has_extension("csproj", "csproj"));
    assert!(!name_has_extension("Api.csproj.user", "csproj"));
    assert!(!name_has_extension("Api.xcsproj", "csproj"));
    assert!(!name_has_extension("Api.CSPROJ", "csproj"));
    assert!(!name_has_extension("a.tar.gz", "tar.gz"));
    assert!(name_has_extension("a.", ""));
    assert!(!name_has_extension(".", ""));
}

#[test]
fn skipped_names_are_exact() {
    assert!(name_is_skipped("node_modules"));
    assert!(name_is_skipped("bin"));
    assert!(name_is_skipped("obj"));
    assert!(!name_is_skipped("Bin"));
    assert!(!name_is_skipped("objects"));
    assert!(!name_is_skipped("src"));
    assert!(!name_is_skipped(""));
}

#[test]
fn path_copy_is_equal() {
    let path = vec!["src".to_string(), "Api".to_string()];
    assert_eq!(clone_path(&path), path);
    assert!(clone_path(&Vec::new()).is_empty());
}

#[test]
fn walk_collects_files_by_name() {
    let mut listed = Vec::new();
    let step = FileWalk::begin(FileKind::Named("Program.cs".to_string()), true);
    let found = run(step, &mut listed).unwrap();
    let found: Vec<String> = found.iter().map(|p| p.join("/")).collect();
    assert_eq!(found, vec!["src/Api/Program.cs"]);
    assert!(name_is_wanted("package.json", &FileKind::Named("package.json".to_string())));
    assert!(!name_is_wanted("package.json5", &FileKind::Named("package.json".to_string())));
    assert!(name_is_wanted("a.json", &FileKind::WithExtension("json".to_string())));
    assert!(!name_is_wanted("json", &FileKind::WithExtension("json".to_string())));
}
