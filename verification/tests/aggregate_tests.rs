use barexp::aggregate::{collect_modules, generate_mod_rs, render_mod_rs, should_create_mod_rs, Module};
use barexp::tree::FsNode;
use barexp::{build, generate_mod_files, is_hidden};

fn file(name: &str) -> FsNode {
    FsNode::File { name: name.to_string() }
}

fn dir(name: &str, children: Vec<FsNode>) -> FsNode {
    FsNode::Dir { name: name.to_string(), children }
}

#[test]
fn hidden_names() {
    assert!(is_hidden(".git"));
    assert!(is_hidden(".hidden.rs"));
    assert!(is_hidden("target"));
    assert!(!is_hidden("src"));
    assert!(!is_hidden("targets"));
    assert!(!is_hidden(""));
    assert!(!is_hidden("a.rs"));
}

#[test]
fn qualification() {
    assert!(!should_create_mod_rs(&vec![]));
    assert!(!should_create_mod_rs(&vec![file("mod.rs")]));
    assert!(!should_create_mod_rs(&vec![file("notes.txt")]));
    assert!(!should_create_mod_rs(&vec![dir(".git", vec![]), dir("target", vec![])]));
    assert!(should_create_mod_rs(&vec![file("a.rs")]));
    assert!(should_create_mod_rs(&vec![dir("empty", vec![])]));
    assert!(should_create_mod_rs(&vec![file("mod.rs"), file("b.rs")]));
}

#[test]
fn bare_rs_is_not_a_source_file() {
    assert!(!should_create_mod_rs(&vec![file(".rs")]));
    assert!(should_create_mod_rs(&vec![file("a.b.rs")]));
}

#[test]
fn collect_modules_cases() {
    let base: Vec<String> = vec!["src".to_string()];
    let entries = vec![
        file("alpha.rs"),
        file("mod.rs"),
        file(".hidden.rs"),
        file("readme.md"),
        dir("with_entry", vec![file("mod.rs")]),
        dir("with_lib", vec![file("lib.rs")]),
        dir("generated", vec![file("inner.rs")]),
        dir("empty", vec![]),
        dir("target", vec![file("x.rs")]),
    ];
    let mods: Vec<Module> = collect_modules(&base, &entries);
    let names: Vec<&str> = mods.iter().map(|m| m.name.as_str()).collect();
    assert_eq!(names, vec!["alpha", "with_entry", "with_lib", "generated"]);
    assert!(mods[0].is_file);
    assert!(!mods[1].is_file);
    assert_eq!(mods[0].path, vec!["src".to_string(), "alpha.rs".to_string()]);
    assert_eq!(mods[3].path, vec!["src".to_string(), "generated".to_string()]);
}

#[test]
fn render_two_modules() {
    let modules = vec![
        Module { name: "a".to_string(), path: vec!["a.rs".to_string()], is_file: true },
        Module { name: "b".to_string(), path: vec!["b".to_string()], is_file: false },
    ];
    let content = render_mod_rs(&modules);
    assert_eq!(
        content,
        "pub mod a;\npub mod b;\n\npub use self::{\n    a::*,\n    b::*,\n};\n"
    );
}

#[test]
fn render_single_module() {
    let modules = vec![Module {
        name: "solo".to_string(),
        path: vec!["solo.rs".to_string()],
        is_file: true,
    }];
    let content = render_mod_rs(&modules);
    assert_eq!(content, "pub mod solo;\n\npub use self::{\n    solo::*,\n};\n");
}

#[test]
fn no_modules_no_file() {
    let base: Vec<String> = vec![];
    assert!(generate_mod_rs(&base, &vec![]).is_none());
    assert!(generate_mod_rs(&base, &vec![file("notes.txt")]).is_none());
    // A directory qualifies through a visible subdirectory, yet discovers no
    // module when that subdirectory is no module root: still no file.
    assert!(generate_mod_rs(&base, &vec![dir("empty", vec![])]).is_none());
}

#[test]
fn stale_file_alone_is_left_untouched() {
    // A directory whose only child is a stale aggregator file does not
    // qualify: no file is produced for it, and a run never deletes anything.
    let root = dir("project", vec![dir("old", vec![file("mod.rs")])]);
    let files = build(&root);
    assert_eq!(files.len(), 0);
}

#[test]
fn example_tree() {
    let root = dir(
        "project",
        vec![dir("src", vec![file("a.rs"), dir("b", vec![file("c.rs")])])],
    );
    let files = build(&root);
    assert_eq!(files.len(), 2);
    assert_eq!(files[0].path, vec!["src".to_string()]);
    assert_eq!(
        files[0].content,
        "pub mod a;\npub mod b;\n\npub use self::{\n    a::*,\n    b::*,\n};\n"
    );
    assert_eq!(files[1].path, vec!["src".to_string(), "b".to_string()]);
    assert_eq!(
        files[1].content,
        "pub mod c;\n\npub use self::{\n    c::*,\n};\n"
    );
}

#[test]
fn second_run_is_byte_identical() {
    let before = dir(
        "project",
        vec![dir("src", vec![file("a.rs"), dir("b", vec![file("c.rs")])])],
    );
    // The same tree once the first run's files are on disk.
    let after = dir(
        "project",
        vec![dir(
            "src",
            vec![
                file("a.rs"),
                dir("b", vec![file("c.rs"), file("mod.rs")]),
                file("mod.rs"),
            ],
        )],
    );
    let first = generate_mod_files(&before);
    let second = generate_mod_files(&after);
    assert_eq!(first.len(), second.len());
    for (f, s) in first.iter().zip(second.iter()) {
        assert_eq!(f.path, s.path);
        assert_eq!(f.content, s.content);
    }
}

#[test]
fn hidden_directories_are_pruned() {
    let root = dir(
        "project",
        vec![
            dir(".git", vec![file("config.rs")]),
            dir("target", vec![file("debug.rs")]),
            dir("src", vec![file("a.rs")]),
        ],
    );
    let files = build(&root);
    assert_eq!(files.len(), 1);
    assert_eq!(files[0].path, vec!["src".to_string()]);
}

#[test]
fn root_itself_gets_no_file() {
    let root = dir("src", vec![file("a.rs")]);
    let files = build(&root);
    // Only directories below the scan root are generated for.
    assert_eq!(files.len(), 0);
}

#[test]
fn directory_without_entry_is_excluded_from_parent() {
    let root = dir(
        "project",
        vec![dir(
            "src",
            vec![file("a.rs"), dir("data", vec![file("raw.bin")])],
        )],
    );
    let files = build(&root);
    assert_eq!(files.len(), 1);
    assert_eq!(files[0].path, vec!["src".to_string()]);
    assert_eq!(
        files[0].content,
        "pub mod a;\n\npub use self::{\n    a::*,\n};\n"
    );
}

#[test]
fn nested_directory_counts_once_generated() {
    // `deep` holds no entry file, but the run gives it one, so its parent
    // declares it.
    let root = dir(
        "project",
        vec![dir("src", vec![dir("deep", vec![file("x.rs")])])],
    );
    let files = build(&root);
    assert_eq!(files.len(), 2);
    assert_eq!(files[0].path, vec!["src".to_string()]);
    assert_eq!(
        files[0].content,
        "pub mod deep;\n\npub use self::{\n    deep::*,\n};\n"
    );
    assert_eq!(files[1].path, vec!["src".to_string(), "deep".to_string()]);
}
