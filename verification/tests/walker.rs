use sd_core::error::IndexerError;
use sd_core::file_path::{extension, join_path, MaterializedPath};
use sd_core::location::IndexerRuleData;
use sd_core::rules::{
    any_name_present, decide_directory_matches, evaluate_matches, load_rules, Decision,
    DirectoryDecision, IndexerRule, ParametersPerKind, RuleKind, RuleSet,
};
use sd_core::walk::{walk, walk_from, FsNode};

fn file(name: &str) -> FsNode {
    FsNode { name: name.to_string(), is_dir: false, created_at: 1_000, children: Vec::new() }
}

fn dir(name: &str, children: Vec<FsNode>) -> FsNode {
    FsNode { name: name.to_string(), is_dir: true, created_at: 2_000, children }
}

fn glob_rule(kind: RuleKind, pattern: &str) -> IndexerRule {
    let rule = IndexerRule::new_files_by_glob(
        None,
        "glob".to_string(),
        kind == RuleKind::AcceptFilesByGlob,
        pattern.to_string(),
    );
    assert_eq!(rule.kind, kind);
    rule
}

fn children_rule(kind: RuleKind, names: &[&str]) -> IndexerRule {
    let rule = IndexerRule::new_children_directories(
        None,
        "children".to_string(),
        kind == RuleKind::AcceptIfChildrenDirectoriesArePresent,
        names.iter().map(|n| n.to_string()).collect(),
    );
    assert_eq!(rule.kind, kind);
    rule
}

fn compile(rules: Vec<IndexerRule>) -> RuleSet {
    RuleSet::compile(&rules).expect("rules compile")
}

fn photos() -> FsNode {
    dir("photos", vec![file("a.jpg"), dir("tmp", vec![file("skip.tmp")])])
}

#[test]
fn rule_kind_is_read_from_its_integer() {
    assert_eq!(RuleKind::from_int(0).unwrap(), RuleKind::AcceptFilesByGlob);
    assert_eq!(RuleKind::from_int(1).unwrap(), RuleKind::RejectFilesByGlob);
    assert_eq!(RuleKind::from_int(2).unwrap(), RuleKind::AcceptIfChildrenDirectoriesArePresent);
    assert_eq!(RuleKind::from_int(3).unwrap(), RuleKind::RejectIfChildrenDirectoriesArePresent);
    for kind in [
        RuleKind::AcceptFilesByGlob,
        RuleKind::RejectFilesByGlob,
        RuleKind::AcceptIfChildrenDirectoriesArePresent,
        RuleKind::RejectIfChildrenDirectoriesArePresent,
    ] {
        assert_eq!(RuleKind::from_int(kind.int_value()).unwrap(), kind);
    }
}

#[test]
fn unknown_rule_kind_is_an_error_that_names_the_integer() {
    match RuleKind::from_int(4) {
        Err(IndexerError::InvalidRuleKindInt(4)) => {}
        other => panic!("unexpected: {:?}", other),
    }
    match RuleKind::from_int(-1) {
        Err(IndexerError::InvalidRuleKindInt(-1)) => {}
        other => panic!("unexpected: {:?}", other),
    }
}

#[test]
fn stored_glob_rule_is_decoded() {
    let rule = glob_rule(RuleKind::RejectFilesByGlob, "*.tmp");
    let data = IndexerRuleData {
        id: 9,
        kind: 1,
        name: "no tmp".to_string(),
        parameters: rule.serialize_parameters().unwrap(),
    };
    let read = IndexerRule::try_from(&data).unwrap();
    assert_eq!(read.id, Some(9));
    assert_eq!(read.kind, RuleKind::RejectFilesByGlob);
    assert_eq!(read.name, "no tmp");
    match read.parameters {
        ParametersPerKind::RejectFilesByGlob(p) => assert_eq!(p, "*.tmp"),
        other => panic!("unexpected: {:?}", other),
    }
}

#[test]
fn stored_children_rule_is_decoded() {
    let rule = children_rule(RuleKind::AcceptIfChildrenDirectoriesArePresent, &[".git", "src"]);
    let bytes = rule.serialize_parameters().unwrap();
    assert_ne!(bytes, b".gitsrc".to_vec());
    let data = IndexerRuleData { id: 3, kind: 2, name: "repos".to_string(), parameters: bytes };
    let read = IndexerRule::try_from(&data).unwrap();
    assert_eq!(read.kind, RuleKind::AcceptIfChildrenDirectoriesArePresent);
    match read.parameters {
        ParametersPerKind::AcceptIfChildrenDirectoriesArePresent(names) => {
            assert_eq!(names, vec![".git".to_string(), "src".to_string()])
        }
        other => panic!("unexpected: {:?}", other),
    }
}

#[test]
fn encoded_parameters_are_message_pack() {
    let rule = glob_rule(RuleKind::AcceptFilesByGlob, "*.jpg");
    let bytes = rule.serialize_parameters().unwrap();
    assert_eq!(bytes, vec![0xa5, b'*', b'.', b'j', b'p', b'g']);
    let names = children_rule(RuleKind::RejectIfChildrenDirectoriesArePresent, &["a"]);
    assert_eq!(names.serialize_parameters().unwrap(), vec![0x91, 0xa1, b'a']);
}

#[test]
fn stored_rule_with_unknown_kind_is_refused() {
    let data = IndexerRuleData { id: 1, kind: 17, name: "x".to_string(), parameters: vec![0xa0] };
    match IndexerRule::try_from(&data) {
        Err(IndexerError::InvalidRuleKindInt(17)) => {}
        other => panic!("unexpected: {:?}", other),
    }
}

#[test]
fn stored_rule_with_malformed_parameters_is_refused() {
    let data = IndexerRuleData { id: 1, kind: 0, name: "x".to_string(), parameters: vec![0xc1] };
    assert!(matches!(
        IndexerRule::try_from(&data),
        Err(IndexerError::RuleParametersRMPDecode(_))
    ));
    let names = IndexerRuleData { id: 2, kind: 3, name: "y".to_string(), parameters: vec![0xa1, b'a'] };
    assert!(matches!(
        IndexerRule::try_from(&names),
        Err(IndexerError::RuleParametersRMPDecode(_))
    ));
}

#[test]
fn one_unreadable_rule_fails_the_whole_set() {
    let good = glob_rule(RuleKind::RejectFilesByGlob, "*.tmp");
    let datas = vec![
        IndexerRuleData {
            id: 1,
            kind: 1,
            name: "good".to_string(),
            parameters: good.serialize_parameters().unwrap(),
        },
        IndexerRuleData { id: 2, kind: 1, name: "bad".to_string(), parameters: vec![0xc1] },
    ];
    assert!(matches!(load_rules(&datas), Err(IndexerError::RuleParametersRMPDecode(_))));
    assert!(load_rules(&datas[..1].iter().map(|d| IndexerRuleData {
        id: d.id,
        kind: d.kind,
        name: d.name.clone(),
        parameters: d.parameters.clone(),
    }).collect()).is_ok());
}

#[test]
fn malformed_glob_is_a_glob_builder_error() {
    let rules = vec![glob_rule(RuleKind::RejectFilesByGlob, "[")];
    match RuleSet::compile(&rules) {
        Err(IndexerError::GlobBuilderError(message)) => assert!(!message.is_empty()),
        Ok(_) => panic!("a malformed pattern compiled"),
        Err(other) => panic!("unexpected: {:?}", other),
    }
    let accept = vec![glob_rule(RuleKind::AcceptFilesByGlob, "{a,b")];
    assert!(matches!(RuleSet::compile(&accept), Err(IndexerError::GlobBuilderError(_))));
}

#[test]
fn reject_glob_excludes_what_it_matches() {
    let rules = compile(vec![glob_rule(RuleKind::RejectFilesByGlob, "*.tmp")]);
    assert!(rules.is_rejected("/photos/tmp/skip.tmp"));
    assert!(!rules.is_rejected("/photos/a.jpg"));
    assert_eq!(rules.evaluate("/photos/tmp/skip.tmp"), Decision::Exclude);
    assert_eq!(rules.evaluate("/photos/a.jpg"), Decision::Include);
}

#[test]
fn every_accept_glob_must_match() {
    let rules = compile(vec![
        glob_rule(RuleKind::AcceptFilesByGlob, "*.jpg"),
        glob_rule(RuleKind::AcceptFilesByGlob, "**/holiday/**"),
    ]);
    assert_eq!(rules.evaluate("/photos/holiday/a.jpg"), Decision::Include);
    assert_eq!(rules.evaluate("/photos/work/a.jpg"), Decision::Exclude);
    assert_eq!(rules.evaluate("/photos/holiday/a.png"), Decision::Exclude);
    assert!(rules.is_accepted("/photos/holiday/a.jpg"));
    assert!(!rules.is_accepted("/photos/work/a.jpg"));
}

#[test]
fn a_matching_reject_rule_wins_over_accept_rules() {
    let rules = compile(vec![
        glob_rule(RuleKind::AcceptFilesByGlob, "*.jpg"),
        glob_rule(RuleKind::RejectFilesByGlob, "**/private/**"),
    ]);
    assert_eq!(rules.evaluate("/photos/private/a.jpg"), Decision::Exclude);
    assert_eq!(rules.evaluate("/photos/public/a.jpg"), Decision::Include);
}

#[test]
fn an_empty_rule_set_includes_everything() {
    let rules = compile(Vec::new());
    assert_eq!(rules.evaluate("/anything"), Decision::Include);
    assert!(rules.probe_children(&Vec::new()));
    assert_eq!(rules.decide_directory("/dir", true), DirectoryDecision::IncludeDescend);
}

#[test]
fn decisions_from_what_the_globs_found() {
    assert_eq!(evaluate_matches(false, true), Decision::Include);
    assert_eq!(evaluate_matches(true, true), Decision::Exclude);
    assert_eq!(evaluate_matches(false, false), Decision::Exclude);
    assert_eq!(evaluate_matches(true, false), Decision::Exclude);
    assert_eq!(decide_directory_matches(false, true), DirectoryDecision::IncludeDescend);
    assert_eq!(decide_directory_matches(true, true), DirectoryDecision::ExcludePrune);
    assert_eq!(decide_directory_matches(false, false), DirectoryDecision::ExcludePrune);
}

#[test]
fn probe_looks_for_child_directories_by_name() {
    let names = vec![".git".to_string(), "src".to_string()];
    assert!(any_name_present(&names, &vec!["docs".to_string(), "src".to_string()]));
    assert!(!any_name_present(&names, &vec!["docs".to_string()]));
    assert!(!any_name_present(&names, &Vec::new()));
    assert!(!any_name_present(&Vec::new(), &vec!["src".to_string()]));
}

#[test]
fn one_probe_serves_accept_and_reject_rules() {
    let rules = compile(vec![
        children_rule(RuleKind::AcceptIfChildrenDirectoriesArePresent, &[".git"]),
        children_rule(RuleKind::RejectIfChildrenDirectoriesArePresent, &["node_modules"]),
    ]);
    assert!(rules.probe_children(&vec![".git".to_string(), "src".to_string()]));
    assert!(!rules.probe_children(&vec!["src".to_string()]));
    assert!(!rules.probe_children(&vec![".git".to_string(), "node_modules".to_string()]));
    assert_eq!(rules.decide_directory("/code/app", true), DirectoryDecision::IncludeDescend);
    assert_eq!(rules.decide_directory("/code/app", false), DirectoryDecision::ExcludePrune);
}

#[test]
fn extension_is_what_follows_the_last_dot() {
    assert_eq!(extension("a.jpg"), "jpg");
    assert_eq!(extension("archive.tar.gz"), "gz");
    assert_eq!(extension("Makefile"), "");
    assert_eq!(extension(".bashrc"), "");
    assert_eq!(extension(".config.toml"), "toml");
    assert_eq!(extension("trailing."), "");
    assert_eq!(extension(""), "");
}

#[test]
fn paths_are_joined_by_one_separator() {
    assert_eq!(join_path("/photos", "a.jpg"), "/photos/a.jpg");
    assert_eq!(join_path("/photos/", "a.jpg"), "/photos/a.jpg");
    assert_eq!(join_path("/", "a.jpg"), "/a.jpg");
    assert_eq!(join_path("", "a.jpg"), "/a.jpg");
}

#[test]
fn materialized_paths_of_files_directories_and_the_root() {
    let f = MaterializedPath::child(1, "tmp/", "skip.tmp", false);
    assert_eq!(f.materialized_path, "tmp/skip.tmp");
    assert_eq!(f.name, "skip.tmp");
    assert_eq!(f.extension, "tmp");
    assert!(!f.is_dir);
    assert_eq!(f.location_id, 1);
    let d = MaterializedPath::child(1, "", "tmp.d", true);
    assert_eq!(d.materialized_path, "tmp.d/");
    assert_eq!(d.extension, "");
    assert!(d.is_dir);
    let r = MaterializedPath::root(1, "photos");
    assert_eq!(r.materialized_path, "/");
    assert_eq!(r.name, "photos");
    assert!(r.is_dir);
}

#[test]
fn photos_with_a_rejected_extension() {
    let rules = compile(vec![glob_rule(RuleKind::RejectFilesByGlob, "*.tmp")]);
    let entries = walk(&rules, 1, "/photos", &photos(), 1).unwrap();
    let root = &entries[0];
    assert_eq!(root.materialized_path.materialized_path, "/");
    assert_eq!(root.full_path, "/photos");
    assert_eq!(root.parent_id, None);
    let files: Vec<_> = entries.iter().filter(|e| !e.materialized_path.is_dir).collect();
    assert_eq!(files.len(), 1);
    assert_eq!(files[0].materialized_path.name, "a.jpg");
    assert_eq!(files[0].full_path, "/photos/a.jpg");
    assert_eq!(files[0].materialized_path.materialized_path, "a.jpg");
    assert_eq!(files[0].materialized_path.extension, "jpg");
    assert_eq!(files[0].parent_id, Some(root.file_id));
    assert!(entries.iter().all(|e| e.full_path != "/photos/tmp/skip.tmp"));
}

#[test]
fn photos_with_everything_named_tmp_rejected() {
    let rules = compile(vec![glob_rule(RuleKind::RejectFilesByGlob, "*tmp")]);
    let entries = walk_from(&rules, 1, "/photos", "", 1, &photos(), 2).unwrap();
    assert_eq!(entries.len(), 1);
    assert_eq!(entries[0].materialized_path.name, "a.jpg");
    assert_eq!(entries[0].parent_id, Some(1));
    assert_eq!(entries[0].file_id, 2);
}

#[test]
fn no_rejected_entry_is_emitted() {
    let tree = dir(
        "root",
        vec![
            file("keep.txt"),
            file("drop.log"),
            dir("logs.log", vec![file("inside.txt")]),
            dir("sub", vec![file("deep.log"), file("deep.txt")]),
        ],
    );
    let rules = compile(vec![glob_rule(RuleKind::RejectFilesByGlob, "*.log")]);
    let entries = walk(&rules, 5, "/root", &tree, 10).unwrap();
    let paths: Vec<&str> = entries.iter().map(|e| e.full_path.as_str()).collect();
    assert_eq!(paths, vec!["/root", "/root/keep.txt", "/root/sub", "/root/sub/deep.txt"]);
    assert!(entries.iter().skip(1).all(|e| !rules.is_rejected(&e.full_path)));
}

#[test]
fn a_pruned_directory_yields_no_descendants() {
    let tree = dir(
        "code",
        vec![
            dir("app", vec![dir(".git", Vec::new()), file("main.rs"), dir("src", vec![file("lib.rs")])]),
            dir("notes", vec![file("todo.md"), dir("old", vec![file("x.md")])]),
            file("README"),
        ],
    );
    let rules = compile(vec![children_rule(
        RuleKind::AcceptIfChildrenDirectoriesArePresent,
        &[".git"],
    )]);
    let entries = walk(&rules, 1, "/code", &tree, 1).unwrap();
    let paths: Vec<&str> = entries.iter().map(|e| e.full_path.as_str()).collect();
    assert_eq!(paths, vec!["/code", "/code/app", "/code/app/main.rs", "/code/README"]);
    assert!(entries.iter().all(|e| !e.full_path.starts_with("/code/notes")));
}

#[test]
fn reject_if_children_prunes_the_directory_that_holds_them() {
    let tree = dir(
        "code",
        vec![
            dir("web", vec![dir("node_modules", vec![file("x.js")]), file("index.js")]),
            dir("lib", vec![file("a.rs")]),
        ],
    );
    let rules = compile(vec![children_rule(
        RuleKind::RejectIfChildrenDirectoriesArePresent,
        &["node_modules"],
    )]);
    let entries = walk(&rules, 1, "/code", &tree, 1).unwrap();
    let paths: Vec<&str> = entries.iter().map(|e| e.full_path.as_str()).collect();
    assert_eq!(paths, vec!["/code", "/code/lib", "/code/lib/a.rs"]);
}

#[test]
fn ids_follow_walk_order_and_parents_come_first() {
    let tree = dir(
        "r",
        vec![dir("a", vec![file("1"), dir("b", vec![file("2")])]), file("3")],
    );
    let rules = compile(Vec::new());
    let entries = walk(&rules, 7, "/r", &tree, 100).unwrap();
    let ids: Vec<i32> = entries.iter().map(|e| e.file_id).collect();
    assert_eq!(ids, vec![100, 101, 102, 103, 104, 105]);
    let parents: Vec<Option<i32>> = entries.iter().map(|e| e.parent_id).collect();
    assert_eq!(parents, vec![None, Some(100), Some(101), Some(101), Some(103), Some(100)]);
    let materialized: Vec<&str> =
        entries.iter().map(|e| e.materialized_path.materialized_path.as_str()).collect();
    assert_eq!(materialized, vec!["/", "a/", "a/1", "a/b/", "a/b/2", "3"]);
    for e in entries.iter().skip(1) {
        let p = e.parent_id.unwrap();
        assert!(p < e.file_id);
        assert!(entries[(p - 100) as usize].materialized_path.is_dir);
    }
    assert!(entries.iter().all(|e| e.materialized_path.location_id == 7));
    assert_eq!(entries[2].created_at, 1_000);
    assert_eq!(entries[1].created_at, 2_000);
}

#[test]
fn walking_below_a_directory_leaves_the_directory_out() {
    let tree = dir("b", vec![file("2"), dir("c", vec![file("3.txt")])]);
    let rules = compile(Vec::new());
    let entries = walk_from(&rules, 7, "/r/a/b", "a/b/", 40, &tree, 50).unwrap();
    let paths: Vec<&str> = entries.iter().map(|e| e.full_path.as_str()).collect();
    assert_eq!(paths, vec!["/r/a/b/2", "/r/a/b/c", "/r/a/b/c/3.txt"]);
    let materialized: Vec<&str> =
        entries.iter().map(|e| e.materialized_path.materialized_path.as_str()).collect();
    assert_eq!(materialized, vec!["a/b/2", "a/b/c/", "a/b/c/3.txt"]);
    let parents: Vec<Option<i32>> = entries.iter().map(|e| e.parent_id).collect();
    assert_eq!(parents, vec![Some(40), Some(40), Some(51)]);
}

#[test]
fn an_empty_location_yields_its_root_alone() {
    let rules = compile(Vec::new());
    let entries = walk(&rules, 1, "/empty", &dir("empty", Vec::new()), 1).unwrap();
    assert_eq!(entries.len(), 1);
    assert_eq!(entries[0].materialized_path.materialized_path, "/");
    let below = walk_from(&rules, 1, "/empty", "", 1, &dir("empty", Vec::new()), 2).unwrap();
    assert!(below.is_empty());
}

#[test]
fn the_walk_fails_when_ids_run_out() {
    let rules = compile(Vec::new());
    let tree = dir("r", vec![file("a"), file("b")]);
    assert!(walk(&rules, 1, "/r", &tree, i32::MAX - 2).is_ok());
    assert!(matches!(
        walk(&rules, 1, "/r", &tree, i32::MAX - 1),
        Err(IndexerError::FilePathError(_))
    ));
}

#[test]
fn what_lies_below_a_directory_that_is_left_out_need_not_be_read() {
    let whole = dir(
        "code",
        vec![
            dir("app", vec![dir(".git", vec![file("HEAD")]), file("main.rs")]),
            dir("notes", vec![file("todo.md"), dir("old", vec![file("x.md")])]),
            dir("cache.tmp", vec![file("blob"), dir("deep", vec![file("y")])]),
        ],
    );
    let read = dir(
        "code",
        vec![
            dir("app", vec![dir(".git", vec![file("HEAD")]), file("main.rs")]),
            dir("notes", vec![file("todo.md"), dir("old", Vec::new())]),
            dir("cache.tmp", Vec::new()),
        ],
    );
    let rules = compile(vec![
        children_rule(RuleKind::AcceptIfChildrenDirectoriesArePresent, &[".git"]),
        glob_rule(RuleKind::RejectFilesByGlob, "*.tmp"),
    ]);
    let of_whole = walk(&rules, 1, "/code", &whole, 1).unwrap();
    let of_read = walk(&rules, 1, "/code", &read, 1).unwrap();
    let paths = |entries: &Vec<sd_core::indexer::IndexerJobStepEntry>| -> Vec<(String, i32, Option<i32>)> {
        entries.iter().map(|e| (e.full_path.clone(), e.file_id, e.parent_id)).collect()
    };
    assert_eq!(paths(&of_whole), paths(&of_read));
    assert_eq!(
        paths(&of_whole),
        vec![
            ("/code".to_string(), 1, None),
            ("/code/app".to_string(), 2, Some(1)),
            ("/code/app/main.rs".to_string(), 3, Some(2)),
        ]
    );
}

#[test]
fn stored_parameters_are_read_back_as_they_were() {
    let long = "a".repeat(40) + "*.jpg";
    let wide = "*.é日本語";
    for pattern in ["", "*.tmp", long.as_str(), wide] {
        let rule = glob_rule(RuleKind::AcceptFilesByGlob, pattern);
        let bytes = rule.serialize_parameters().unwrap();
        let data = IndexerRuleData { id: 1, kind: 0, name: "r".to_string(), parameters: bytes };
        match IndexerRule::try_from(&data).unwrap().parameters {
            ParametersPerKind::AcceptFilesByGlob(p) => assert_eq!(p, pattern),
            other => panic!("unexpected: {:?}", other),
        }
    }
    let many: Vec<String> = (0..20).map(|i| format!("dir{}", i)).collect();
    let names: Vec<&str> = many.iter().map(|s| s.as_str()).collect();
    for list in [Vec::new(), vec![".git"], names] {
        let rule = children_rule(RuleKind::RejectIfChildrenDirectoriesArePresent, &list);
        let bytes = rule.serialize_parameters().unwrap();
        let data = IndexerRuleData { id: 1, kind: 3, name: "r".to_string(), parameters: bytes };
        match IndexerRule::try_from(&data).unwrap().parameters {
            ParametersPerKind::RejectIfChildrenDirectoriesArePresent(n) => {
                assert_eq!(n, list.iter().map(|s| s.to_string()).collect::<Vec<_>>())
            }
            other => panic!("unexpected: {:?}", other),
        }
    }
}

#[test]
fn headers_take_the_shortest_form_that_holds_the_length() {
    let short = glob_rule(RuleKind::AcceptFilesByGlob, &"a".repeat(31));
    assert_eq!(short.serialize_parameters().unwrap()[0], 0xa0 + 31);
    let longer = glob_rule(RuleKind::AcceptFilesByGlob, &"a".repeat(32));
    assert_eq!(longer.serialize_parameters().unwrap()[..2], [0xd9, 32]);
    let long = glob_rule(RuleKind::AcceptFilesByGlob, &"a".repeat(300));
    assert_eq!(long.serialize_parameters().unwrap()[..3], [0xda, 1, 44]);
    let wide = glob_rule(RuleKind::AcceptFilesByGlob, "é");
    assert_eq!(wide.serialize_parameters().unwrap(), vec![0xa2, 0xc3, 0xa9]);
    let none = children_rule(RuleKind::AcceptIfChildrenDirectoriesArePresent, &[]);
    assert_eq!(none.serialize_parameters().unwrap(), vec![0x90]);
    let many: Vec<String> = (0..16).map(|_| "x".to_string()).collect();
    let names: Vec<&str> = many.iter().map(|s| s.as_str()).collect();
    let sixteen = children_rule(RuleKind::AcceptIfChildrenDirectoriesArePresent, &names);
    assert_eq!(sixteen.serialize_parameters().unwrap()[..5], [0xdc, 0, 16, 0xa1, b'x']);
}
