use flnk::engine::{
    check_multiple_roots, collision_action, dest_path_for, entry_action, plan_links, walk_base,
    CollisionAction, EntryAction, EntryKind, LinkOp, WalkEntry,
};
use flnk::options::{LinkError, LinkOptions};
use flnk::relative::relative_target;

fn entry(path: &str, kind: EntryKind) -> WalkEntry {
    WalkEntry {
        path: path.to_string(),
        kind,
    }
}

#[test]
fn action_skips_root_directory() {
    let opts = LinkOptions::default();
    assert_eq!(entry_action(true, &EntryKind::Dir, &opts), EntryAction::Skip);
    assert_eq!(
        entry_action(true, &EntryKind::File, &opts),
        EntryAction::LinkFile
    );
}

#[test]
fn action_skips_non_regular_in_hard_mode() {
    let opts = LinkOptions::default();
    assert_eq!(
        entry_action(false, &EntryKind::Dir, &opts),
        EntryAction::Skip
    );
    assert_eq!(
        entry_action(false, &EntryKind::Other, &opts),
        EntryAction::Skip
    );
}

#[test]
fn action_links_directories_symbolically() {
    let opts = LinkOptions {
        symbolic: true,
        ..Default::default()
    };
    assert_eq!(
        entry_action(false, &EntryKind::Dir, &opts),
        EntryAction::LinkDirectory
    );
    let only_files = LinkOptions {
        symbolic: true,
        symlink_files_only: true,
        ..Default::default()
    };
    assert_eq!(
        entry_action(false, &EntryKind::Dir, &only_files),
        EntryAction::Skip
    );
}

#[test]
fn backup_takes_precedence_over_force() {
    let both = LinkOptions {
        backup: true,
        force: true,
        ..Default::default()
    };
    assert_eq!(collision_action(&both), CollisionAction::Backup);
    let force = LinkOptions {
        force: true,
        ..Default::default()
    };
    assert_eq!(collision_action(&force), CollisionAction::Remove);
    assert_eq!(
        collision_action(&LinkOptions::default()),
        CollisionAction::Fail
    );
}

#[test]
fn destination_path_rules() {
    // A single-file root (empty relative path) landing in a directory keeps
    // its name; otherwise the relative path lands under the destination.
    assert_eq!(dest_path_for("/d", true, "", "f1.txt"), "/d/f1.txt".to_string());
    assert_eq!(dest_path_for("/d/new", false, "", "f1.txt"), "/d/new".to_string());
    assert_eq!(
        dest_path_for("/d", true, "sub/f2.txt", "f2.txt"),
        "/d/sub/f2.txt".to_string()
    );
}

#[test]
fn base_of_wildcard_roots_is_their_parent() {
    assert_eq!(walk_base("/s/myDir", true, true), "/s".to_string());
    assert_eq!(walk_base("/s/myDir", false, true), "/s/myDir".to_string());
    assert_eq!(walk_base("/s/myDir", true, false), "/s/myDir".to_string());
}

#[test]
fn several_roots_need_a_directory() {
    assert_eq!(check_multiple_roots(2, false), Err(LinkError::InvalidPath));
    assert_eq!(check_multiple_roots(2, true), Ok(()));
    assert_eq!(check_multiple_roots(1, false), Ok(()));
}

#[test]
fn single_file_to_directory() {
    // One regular file walked against itself, destination an existing
    // directory: exactly one hard link, one returned (empty) relative path.
    let entries = vec![entry("/s/f1.txt", EntryKind::File)];
    let occupied = vec![false];
    let plan = plan_links(
        &entries,
        &occupied,
        "/s/f1.txt",
        "/d",
        true,
        &LinkOptions::default(),
    )
    .unwrap();
    assert_eq!(plan.linked, vec!["".to_string()]);
    assert_eq!(plan.ops.len(), 2);
    match &plan.ops[0] {
        LinkOp::EnsureParent { dir } => assert_eq!(dir, "/d"),
        _ => panic!("expected the parent chain first"),
    }
    match &plan.ops[1] {
        LinkOp::HardLink { source, dest } => {
            assert_eq!(source, "/s/f1.txt");
            assert_eq!(dest, "/d/f1.txt");
        }
        _ => panic!("expected a hard link"),
    }
}

#[test]
fn tree_to_empty_directory() {
    // Source tree src/{f1.txt, sub/f2.txt}, destination an empty directory:
    // both files land under it, nested structure preserved, two links.
    let entries = vec![
        entry("/s", EntryKind::Dir),
        entry("/s/f1.txt", EntryKind::File),
        entry("/s/sub", EntryKind::Dir),
        entry("/s/sub/f2.txt", EntryKind::File),
    ];
    let occupied = vec![false, false, false, false];
    let plan = plan_links(&entries, &occupied, "/s", "/d", true, &LinkOptions::default()).unwrap();
    assert_eq!(plan.linked, vec!["f1.txt".to_string(), "sub/f2.txt".to_string()]);
    let mut hard_links: Vec<(String, String)> = Vec::new();
    for op in &plan.ops {
        if let LinkOp::HardLink { source, dest } = op {
            hard_links.push((source.clone(), dest.clone()));
        }
    }
    assert_eq!(
        hard_links,
        vec![
            ("/s/f1.txt".to_string(), "/d/f1.txt".to_string()),
            ("/s/sub/f2.txt".to_string(), "/d/sub/f2.txt".to_string()),
        ]
    );
}

#[test]
fn occupied_destination_fails_without_flags() {
    // The second identical run: every destination is occupied and neither
    // force nor backup is set, so the run reports AlreadyExists and plans
    // nothing.
    let entries = vec![
        entry("/s", EntryKind::Dir),
        entry("/s/f1.txt", EntryKind::File),
    ];
    let occupied = vec![false, true];
    let r = plan_links(&entries, &occupied, "/s", "/d", true, &LinkOptions::default());
    assert!(matches!(r, Err(LinkError::AlreadyExists)));
}

#[test]
fn occupied_destination_backed_up() {
    // A pre-existing destination file with backup (and force) set: the plan
    // renames it aside before linking, and backup wins over force.
    let entries = vec![
        entry("/s", EntryKind::Dir),
        entry("/s/f1.txt", EntryKind::File),
    ];
    let occupied = vec![false, true];
    let opts = LinkOptions {
        backup: true,
        force: true,
        ..Default::default()
    };
    let plan = plan_links(&entries, &occupied, "/s", "/d", true, &opts).unwrap();
    assert_eq!(plan.linked, vec!["f1.txt".to_string()]);
    let kinds: Vec<&'static str> = plan
        .ops
        .iter()
        .map(|op| match op {
            LinkOp::EnsureParent { .. } => "ensure",
            LinkOp::Backup { .. } => "backup",
            LinkOp::Remove { .. } => "remove",
            LinkOp::HardLink { .. } => "hard",
            LinkOp::SymLink { .. } => "sym",
        })
        .collect();
    assert_eq!(kinds, vec!["ensure", "backup", "hard"]);
    match &plan.ops[1] {
        LinkOp::Backup { path } => assert_eq!(path, "/d/f1.txt"),
        _ => panic!("expected a backup"),
    }
}

#[test]
fn occupied_destination_removed_with_force() {
    let entries = vec![entry("/s/f1.txt", EntryKind::File)];
    let occupied = vec![true];
    let opts = LinkOptions {
        force: true,
        ..Default::default()
    };
    let plan = plan_links(&entries, &occupied, "/s/f1.txt", "/d", true, &opts).unwrap();
    let mut removed: Vec<String> = Vec::new();
    for op in &plan.ops {
        if let LinkOp::Remove { path } = op {
            removed.push(path.clone());
        }
    }
    assert_eq!(removed, vec!["/d/f1.txt".to_string()]);
}

#[test]
fn symbolic_mode_links_directories_too() {
    let entries = vec![
        entry("/s", EntryKind::Dir),
        entry("/s/f1.txt", EntryKind::File),
        entry("/s/sub", EntryKind::Dir),
        entry("/s/sub/f2.txt", EntryKind::File),
    ];
    let occupied = vec![false, false, false, false];
    let opts = LinkOptions {
        symbolic: true,
        ..Default::default()
    };
    let plan = plan_links(&entries, &occupied, "/s", "/d", true, &opts).unwrap();
    assert_eq!(
        plan.linked,
        vec![
            "f1.txt".to_string(),
            "sub".to_string(),
            "sub/f2.txt".to_string(),
        ]
    );
    for op in &plan.ops {
        assert!(!matches!(op, LinkOp::HardLink { .. }));
    }
}

#[test]
fn symlink_files_only_skips_directories() {
    let entries = vec![
        entry("/s", EntryKind::Dir),
        entry("/s/f1.txt", EntryKind::File),
        entry("/s/sub", EntryKind::Dir),
    ];
    let occupied = vec![false, false, false];
    let opts = LinkOptions {
        symbolic: true,
        symlink_files_only: true,
        ..Default::default()
    };
    let plan = plan_links(&entries, &occupied, "/s", "/d", true, &opts).unwrap();
    assert_eq!(plan.linked, vec!["f1.txt".to_string()]);
}

#[test]
fn wildcard_roots_keep_their_top_level_names() {
    // With a wildcard source and a destination directory, each matched root
    // is walked against its own parent, so the match's name leads every
    // relative path.
    let base = walk_base("/s/myDir/subDir", true, true);
    assert_eq!(base, "/s/myDir".to_string());
    let entries = vec![
        entry("/s/myDir/subDir", EntryKind::Dir),
        entry("/s/myDir/subDir/mov.mp4", EntryKind::File),
        entry("/s/myDir/subDir/mov.nfo", EntryKind::File),
    ];
    let occupied = vec![false, false, false];
    let plan = plan_links(&entries, &occupied, &base, ".", true, &LinkOptions::default()).unwrap();
    assert_eq!(
        plan.linked,
        vec!["subDir/mov.mp4".to_string(), "subDir/mov.nfo".to_string()]
    );
}

#[test]
fn entry_outside_base_stops_the_run() {
    let entries = vec![entry("/elsewhere/f.txt", EntryKind::File)];
    let occupied = vec![false];
    let r = plan_links(&entries, &occupied, "/s", "/d", true, &LinkOptions::default());
    assert!(matches!(r, Err(LinkError::Other)));
}

#[test]
fn relative_target_walks_up_and_down() {
    // The path difference is computed by the pathdiff crate; a wrapper that
    // handed its argument back unchanged would fail here.
    assert_eq!(
        relative_target("/a/b/c.txt", "/a/d"),
        Ok("../b/c.txt".to_string())
    );
    assert_eq!(relative_target("/a/d/c.txt", "/a/d"), Ok("c.txt".to_string()));
}

#[test]
fn relative_target_needs_an_anchor() {
    // A relative source against an absolute link directory has no path
    // between them.
    assert_eq!(relative_target("x/y.txt", "/a"), Err(LinkError::InvalidPath));
}

#[test]
fn default_options() {
    let opts = LinkOptions::default();
    assert!(!opts.symbolic);
    assert!(!opts.relative);
    assert!(!opts.force);
    assert!(!opts.backup);
    assert!(!opts.symlink_files_only);
    assert_eq!(opts.backup_suffix, "~".to_string());
}
