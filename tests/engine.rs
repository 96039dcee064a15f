use akabei::apply::{action, Op};
use akabei::builder::{conflict, desired_names, resolve, Error};
use akabei::builtin::{fcitx5, google_cloud_cli, sway, terminated, uv};
use akabei::catalog::packages;
use akabei::diff::{classify, orphans, plan, Disposition};
use akabei::digest::{digest_eq, sha1};
use akabei::drift::{check, drift, sync, Drift, Observed};
use akabei::package::target_path;
use akabei::schema::{File, Hook, Hooks, Package, State, DEFAULT_MODE};

fn record(d: u8, mode: u32) -> File<()> {
    File { sha1: [d; 20], mode, extra: () }
}

fn recorded(name: &str, files: &[(&str, u8, u32)]) -> Package<()> {
    let mut p = Package::new(name.to_string());
    for (path, d, mode) in files {
        p.files.push((path.to_string(), record(*d, *mode)));
    }
    p
}

fn desired(name: &str, files: &[(&str, &[u8], u32)]) -> Package<Vec<u8>> {
    let mut p = Package::new(name.to_string());
    for (path, content, mode) in files {
        p.file("/home/u", path, content.to_vec(), Some(*mode));
    }
    p
}

fn strip(p: &Package<Vec<u8>>) -> Package<()> {
    Package {
        name: p.name.clone(),
        files: p
            .files
            .iter()
            .map(|(path, f)| (path.clone(), File { sha1: f.sha1, mode: f.mode, extra: () }))
            .collect(),
        hooks: p.hooks.clone(),
    }
}

fn strings(v: &[&str]) -> Vec<String> {
    v.iter().map(|s| s.to_string()).collect()
}

fn hex(d: &[u8; 20]) -> String {
    d.iter().map(|b| format!("{b:02x}")).collect()
}

#[test]
fn digest_of_known_content() {
    assert_eq!(hex(&sha1(b"abc")), "a9993e364706816aba3e25717850c26c9cd0d89d");
    assert_eq!(hex(&sha1(b"")), "da39a3ee5e6b4b0d3255bfef95601890afd80709");
}

#[test]
fn digest_depends_on_content_only() {
    let a = desired("x", &[(".foo", b"same", 0o100644)]);
    let b = desired("y", &[("/etc/elsewhere", b"same", 0o100600)]);
    assert!(digest_eq(&a.files[0].1.sha1, &b.files[0].1.sha1));
    assert!(!digest_eq(&sha1(b"same"), &sha1(b"other")));
}

#[test]
fn classify_unchanged_upgrade_install_remove() {
    let x1 = recorded("pkgX", &[("/home/u/f1", 1, 0o644)]);
    let x1b = recorded("pkgX", &[("/home/u/f1", 1, 0o644)]);
    let x2 = recorded("pkgX", &[("/home/u/f1", 2, 0o644)]);
    let x3 = recorded("pkgX", &[("/home/u/f1", 1, 0o600)]);
    assert_eq!(classify(Some(&x1), Some(&x1b)), Some(Disposition::Unchanged));
    assert_eq!(classify(Some(&x1), Some(&x2)), Some(Disposition::Upgrade));
    assert_eq!(classify(Some(&x1), Some(&x3)), Some(Disposition::Upgrade));
    assert_eq!(classify::<(), ()>(None, Some(&x1)), Some(Disposition::Install));
    assert_eq!(classify::<(), ()>(Some(&x1), None), Some(Disposition::Remove));
    assert_eq!(classify::<(), ()>(None, None), None);
}

#[test]
fn plan_classifies_each_package() {
    let before = State {
        packages: vec![
            recorded("pkgX", &[("/home/u/f1", 1, 0o644)]),
            recorded("keep", &[("/home/u/k", 3, 0o644)]),
            recorded("pkgZ", &[("/home/u/z", 4, 0o644)]),
        ],
    };
    let after = State {
        packages: vec![
            recorded("keep", &[("/home/u/k", 3, 0o644)]),
            recorded("pkgX", &[("/home/u/f1", 2, 0o644)]),
            recorded("pkgY", &[("/home/u/y", 5, 0o644)]),
        ],
    };
    let changes = plan(&before, &after);
    let got: Vec<(String, Disposition, Option<usize>, Option<usize>)> = changes
        .iter()
        .map(|c| (c.name.clone(), c.disposition, c.before, c.after))
        .collect();
    assert_eq!(
        got,
        vec![
            ("pkgX".to_string(), Disposition::Upgrade, Some(0), Some(1)),
            ("pkgZ".to_string(), Disposition::Remove, Some(2), None),
            ("pkgY".to_string(), Disposition::Install, None, Some(2)),
        ]
    );
}

#[test]
fn plan_install_into_empty_state() {
    let before: State<()> = State { packages: vec![] };
    let after = State { packages: vec![recorded("pkgY", &[("/home/u/y", 5, 0o644)])] };
    let changes = plan(&before, &after);
    assert_eq!(changes.len(), 1);
    assert_eq!(changes[0].disposition, Disposition::Install);
}

#[test]
fn plan_remove_everything() {
    let before = State { packages: vec![recorded("pkgZ", &[("/home/u/z", 4, 0o644)])] };
    let after: State<()> = State { packages: vec![] };
    let changes = plan(&before, &after);
    assert_eq!(changes.len(), 1);
    assert_eq!(changes[0].disposition, Disposition::Remove);
}

#[test]
fn orphan_of_package_that_stays() {
    let before = State {
        packages: vec![recorded("A", &[("/home/u/.foo", 1, 0o644), ("/home/u/.bar", 2, 0o644)])],
    };
    let after = State { packages: vec![desired("A", &[(".bar", b"bar", 0o644)])] };
    let orphan = orphans(&before, &after);
    assert_eq!(orphan, vec!["/home/u/.foo".to_string()]);
    let changes = plan(&before, &after);
    let ops = action(&before, &after, &changes, &orphan);
    assert!(ops.iter().any(|o| matches!(o, Op::Remove(p) if p == "/home/u/.foo")));
}

#[test]
fn orphan_moved_between_packages_is_not_orphan() {
    let before = State { packages: vec![recorded("A", &[("/home/u/.foo", 1, 0o644)])] };
    let after = State { packages: vec![desired("B", &[(".foo", b"foo", 0o644)])] };
    assert!(orphans(&before, &after).is_empty());
}

#[test]
fn orphan_phase_removes_paths_not_removed_with_a_package() {
    let before = State { packages: vec![recorded("A", &[("/home/u/.foo", 1, 0o644)])] };
    let after = State { packages: vec![desired("A", &[(".foo", b"foo", 0o644)])] };
    let ops = action(&before, &after, &vec![], &vec!["/home/u/.stray".to_string()]);
    assert_eq!(ops.len(), 1);
    assert!(matches!(&ops[0], Op::Remove(p) if p == "/home/u/.stray"));
}

#[test]
fn removal_phases_come_before_installation_phases() {
    let mut gone = recorded("gone", &[("/home/u/g", 1, 0o644)]);
    gone.hooks.pre_remove.push(Hook { command: strings(&["pre-remove"]) });
    gone.hooks.post_remove.push(Hook { command: strings(&["post-remove"]) });
    let before = State { packages: vec![gone] };
    let mut new = desired("new", &[("n", b"n", 0o100755)]);
    new.pre_install(strings(&["pre-install"]));
    new.post_install(strings(&["post-install"]));
    let after = State { packages: vec![new] };
    let changes = plan(&before, &after);
    let orphan = orphans(&before, &after);
    assert_eq!(orphan, vec!["/home/u/g".to_string()]);
    let ops = action(&before, &after, &changes, &orphan);
    let shown: Vec<String> = ops
        .iter()
        .map(|o| match o {
            Op::Exec(c) => format!("exec {}", c.join(" ")),
            Op::Remove(p) => format!("remove {p}"),
            Op::Install(p, c, m) => format!("install {p} {} {m:o}", c.len()),
        })
        .collect();
    assert_eq!(
        shown,
        vec![
            "exec pre-remove",
            "remove /home/u/g",
            "exec post-remove",
            "exec pre-install",
            "install /home/u/n 1 100755",
            "exec post-install",
        ]
    );
}

#[test]
fn rerun_without_changes_does_nothing() {
    let mut a = desired("a", &[(".a", b"aaa", 0o644), (".b", b"bbb", 0o600)]);
    a.pre_install(strings(&["mkdir", "-p", "downloads"]));
    let after = State { packages: vec![a, desired("c", &[(".c", b"c", 0o644)])] };
    let mut before = State { packages: after.packages.iter().map(strip).collect() };
    let live: Vec<Vec<Option<Observed>>> = before
        .packages
        .iter()
        .map(|p| p.files.iter().map(|(_, f)| Some(Observed { sha1: f.sha1, mode: f.mode })).collect())
        .collect();
    sync(&mut before, &live);
    let names = desired_names(&before, &vec![], &vec![]);
    assert_eq!(names, strings(&["a", "c"]));
    let changes = plan(&before, &after);
    let orphan = orphans(&before, &after);
    assert!(changes.is_empty());
    assert!(orphan.is_empty());
    assert!(action(&before, &after, &changes, &orphan).is_empty());
}

#[test]
fn edit_matching_desired_content_is_unchanged() {
    let after = State { packages: vec![desired("p", &[(".conf", b"new", 0o644)])] };
    let mut before = State { packages: vec![recorded("p", &[("/home/u/.conf", 9, 0o644)])] };
    let live = vec![vec![Some(Observed { sha1: sha1(b"new"), mode: 0o644 })]];
    sync(&mut before, &live);
    assert!(plan(&before, &after).is_empty());
}

#[test]
fn edit_diverging_from_desired_content_is_upgrade() {
    let after = State { packages: vec![desired("p", &[(".conf", b"new", 0o644)])] };
    let mut before = State { packages: vec![recorded("p", &[("/home/u/.conf", 9, 0o644)])] };
    let live = vec![vec![Some(Observed { sha1: sha1(b"hand edit"), mode: 0o644 })]];
    sync(&mut before, &live);
    let changes = plan(&before, &after);
    assert_eq!(changes.len(), 1);
    assert_eq!(changes[0].disposition, Disposition::Upgrade);
}

#[test]
fn missing_file_is_reinstalled() {
    let after = State {
        packages: vec![desired("p", &[(".a", b"a", 0o644), (".b", b"b", 0o644)])],
    };
    let mut before = State { packages: after.packages.iter().map(strip).collect() };
    let a = before.packages[0].files[0].1;
    let live = vec![vec![Some(Observed { sha1: a.sha1, mode: a.mode }), None]];
    sync(&mut before, &live);
    assert_eq!(before.packages[0].files.len(), 1);
    let changes = plan(&before, &after);
    assert_eq!(changes.len(), 1);
    assert_eq!(changes[0].disposition, Disposition::Upgrade);
    let ops = action(&before, &after, &changes, &orphans(&before, &after));
    let removes: Vec<&String> =
        ops.iter().filter_map(|o| if let Op::Remove(p) = o { Some(p) } else { None }).collect();
    assert_eq!(removes, vec!["/home/u/.a"]);
    assert!(ops.iter().any(|o| matches!(o, Op::Install(p, c, _) if p == "/home/u/.b" && c == b"b")));
}

#[test]
fn sync_takes_live_digest_and_mode() {
    let mut state = State { packages: vec![recorded("p", &[("/x", 1, 0o644), ("/y", 2, 0o644)])] };
    let live = vec![vec![None, Some(Observed { sha1: [7; 20], mode: 0o600 })]];
    sync(&mut state, &live);
    assert_eq!(state.packages[0].files.len(), 1);
    assert_eq!(state.packages[0].files[0].0, "/y");
    assert_eq!(state.packages[0].files[0].1.sha1, [7; 20]);
    assert_eq!(state.packages[0].files[0].1.mode, 0o600);
}

#[test]
fn check_and_drift_report() {
    let f = record(1, 0o644);
    assert!(check(f, None).is_none());
    let kept = check(f, Some(Observed { sha1: [2; 20], mode: 0o644 })).unwrap();
    assert_eq!(kept.sha1, [2; 20]);
    assert_eq!(drift(&f, &None), Drift::Missing);
    assert_eq!(
        drift(&f, &Some(Observed { sha1: [1; 20], mode: 0o600 })),
        Drift::Present { sha1: false, mode: true }
    );
    assert_eq!(
        drift(&f, &Some(Observed { sha1: [2; 20], mode: 0o644 })),
        Drift::Present { sha1: true, mode: false }
    );
}

#[test]
fn desired_names_add_and_remove() {
    let before = State { packages: vec![recorded("a", &[]), recorded("b", &[])] };
    let names = desired_names(&before, &strings(&["c", "a", "c"]), &strings(&["b"]));
    assert_eq!(names, strings(&["a", "c"]));
    let names = desired_names(&before, &strings(&["d"]), &strings(&["d", "a"]));
    assert_eq!(names, strings(&["b"]));
}

#[test]
fn resolve_unknown_package() {
    let available = vec![desired("a", &[(".a", b"a", 0o644)])];
    let r = resolve(&strings(&["a", "zzz", "yyy"]), available);
    assert_eq!(r.err(), Some(Error::UnknownPackage("zzz".to_string())));
}

#[test]
fn resolve_conflicting_target() {
    let available = vec![
        desired("a", &[(".same", b"a", 0o644)]),
        desired("b", &[("/home/u/.same", b"b", 0o644)]),
    ];
    let r = resolve(&strings(&["a", "b"]), available);
    assert_eq!(r.err(), Some(Error::ConflictingTarget("/home/u/.same".to_string())));
}

#[test]
fn resolve_keeps_named_packages_in_order() {
    let available = vec![
        desired("c", &[(".c", b"c", 0o644)]),
        desired("skip", &[(".s", b"s", 0o644)]),
        desired("a", &[(".a", b"a", 0o644)]),
        desired("a", &[(".a2", b"a", 0o644)]),
    ];
    let state = resolve(&strings(&["a", "c"]), available).unwrap();
    let names: Vec<&str> = state.packages.iter().map(|p| p.name.as_str()).collect();
    assert_eq!(names, vec!["c", "a"]);
    assert_eq!(state.packages[1].files[0].0, "/home/u/.a");
    assert!(state.well_formed());
}

#[test]
fn conflict_and_well_formed() {
    let ok = State { packages: vec![recorded("a", &[("/x", 1, 0o644)]), recorded("b", &[("/y", 1, 0o644)])] };
    assert!(ok.well_formed());
    assert_eq!(conflict(&ok.packages), None);
    let same_name = State { packages: vec![recorded("a", &[]), recorded("a", &[])] };
    assert!(!same_name.well_formed());
    let twice = State { packages: vec![recorded("a", &[("/x", 1, 0o644), ("/x", 2, 0o644)])] };
    assert!(!twice.well_formed());
    assert_eq!(conflict(&twice.packages), Some("/x".to_string()));
}

#[test]
fn target_path_joins_under_home() {
    assert_eq!(target_path("/home/u", ".bashrc"), "/home/u/.bashrc");
    assert_eq!(target_path("/home/u/", ".config/a"), "/home/u/.config/a");
    assert_eq!(target_path("/home/u", "/etc/x"), "/etc/x");
}

#[test]
fn file_defaults_mode_and_replaces_same_target() {
    let mut p: Package<Vec<u8>> = Package::new("p".to_string());
    p.file("/home/u", ".a", b"one".to_vec(), None);
    assert_eq!(p.files[0].1.mode, DEFAULT_MODE);
    assert_eq!(DEFAULT_MODE, 0o100644);
    assert_eq!(p.files[0].1.sha1, sha1(b"one"));
    p.file("/home/u", ".b", b"two".to_vec(), Some(0o100600));
    p.file("/home/u", "/home/u/.a", b"three".to_vec(), Some(0o100755));
    assert_eq!(p.files.len(), 2);
    assert_eq!(p.files[0].0, "/home/u/.a");
    assert_eq!(p.files[0].1.extra, b"three".to_vec());
    assert_eq!(p.files[0].1.mode, 0o100755);
    assert_eq!(p.files[1].1.mode, 0o100600);
}

#[test]
fn hooks_are_appended_in_order() {
    let mut p: Package<Vec<u8>> = Package::new("p".to_string());
    p.post_install(strings(&["systemctl", "--user", "daemon-reload"]));
    p.post_install(strings(&["systemctl", "--user", "enable", "x.service"]));
    p.pre_remove(strings(&["systemctl", "--user", "disable", "x.service"]));
    assert_eq!(p.hooks.post_install.len(), 2);
    assert_eq!(p.hooks.post_install[1].command[3], "x.service");
    assert_eq!(p.hooks.pre_remove.len(), 1);
    let empty = Hooks::default();
    assert!(empty.pre_install.is_empty() && empty.post_remove.is_empty());
}

#[test]
fn builtin_package_names() {
    let names = packages();
    assert_eq!(names.len(), 17);
    assert_eq!(names[0], "atuin");
    assert_eq!(names[7], "google-cloud-cli");
    assert_eq!(names[16], "uv");
}

#[test]
fn builtin_recipes() {
    let r = fcitx5();
    assert_eq!(r.assets.len(), 6);
    assert_eq!(r.assets[3].target, ".config/fcitx5/profile");
    assert_eq!(r.assets[3].mode, Some(0o100600));
    assert_eq!(r.post_install, vec![vec!["systemctl", "--user", "daemon-reload"], vec!["systemctl", "--user", "enable", "fcitx5.service"]]);
    assert_eq!(r.pre_remove, vec![vec!["systemctl", "--user", "disable", "fcitx5.service"]]);
    let g = google_cloud_cli();
    assert_eq!(g.pre_install, vec![vec!["mkdir", "-p", ".config/gcloud"]]);
    assert_eq!(g.assets[2].mode, Some(0o100755));
    assert_eq!(sway().assets.len(), 8);
    assert!(uv().assets[0].template);
    assert_eq!(terminated(b"a".to_vec()), b"a\n".to_vec());
    assert_eq!(terminated(b"a\n".to_vec()), b"a\n".to_vec());
    assert_eq!(terminated(vec![]), b"\n".to_vec());
}
