use rye::installer::{
    announces, build_installer_args, env_path, install, shim_dir, uninstall, CommandOutput,
    Deletion, InstallError, InstallPlan, Installation, Outcome, Publication, Removal, Requirement,
    Stage, Uninstall,
};
use rye::manifest::split_lines;
use rye::shims::{plan_shims, shims_from_manifest, uninstall_helper, Shim, ShimEntry};

fn s(text: &str) -> Vec<u8> {
    text.as_bytes().to_vec()
}

fn list(items: &[&str]) -> Vec<Vec<u8>> {
    items.iter().map(|i| s(i)).collect()
}

fn black() -> Requirement {
    Requirement { name: s("Black"), text: s("Black>=23.1") }
}

fn link(path: &str, target: &str) -> ShimEntry {
    ShimEntry { path: s(path), target: Some(s(target)) }
}

#[test]
fn layout_of_the_application_directory() {
    assert_eq!(shim_dir(&s("/app")), s("/app/shims"));
    assert_eq!(env_path(&s("/app"), &s("black")), s("/app/tools/black"));
    assert_eq!(env_path(&s("/app/"), &s("black")), s("/app/tools/black"));
}

#[test]
fn install_plans_every_step() {
    let started = install(&s("/app"), &s("/self"), &black(), &s("black"), false, CommandOutput::Normal, false)
        .unwrap();
    assert_eq!(started.stage, Stage::Creating);
    assert!(!started.awaits(&Outcome::Cleared));
    assert!(started.awaits(&Outcome::Created));
    assert_eq!(started.shims, Vec::<Shim>::new());
    assert_eq!(started.published, 0);
    assert!(started.announce);
    assert_eq!(
        started.plan,
        (InstallPlan {
            env_path: s("/app/tools/black"),
            bin_path: s("/app/tools/black/bin"),
            shim_dir: s("/app/shims"),
            installer: s("/self/bin/pip"),
            installer_args: list(&["--python", "/app/tools/black/bin/python", "install", "--", "Black>=23.1"]),
            warnings: s("ignore"),
            interpreter: s("/app/tools/black/bin/python"),
            package: s("Black"),
        })
    );
}

fn started(output: CommandOutput) -> Installation {
    install(&s("/app"), &s("/self"), &black(), &s("black"), true, output, true).unwrap()
}

#[test]
fn installation_goes_through_its_stages_in_order() {
    let mut at = started(CommandOutput::Quiet);
    assert!(!at.announce);
    assert!(at.awaits(&Outcome::Cleared));
    assert!(!at.awaits(&Outcome::Created));
    at = at.advance(Outcome::Cleared).unwrap();
    assert_eq!(at.stage, Stage::Creating);
    assert!(!at.awaits(&Outcome::Cleared));
    at = at.advance(Outcome::Created).unwrap();
    assert_eq!(at.stage, Stage::Installing);
    at = at.advance(Outcome::InstallerExited(true)).unwrap();
    assert_eq!(at.stage, Stage::Reading);
    let manifest = s("/app/tools/black/bin/black\n/app/tools/black/lib/x.py\n/app/tools/black/bin/blackd\n");
    at = at.advance(Outcome::Manifest(manifest)).unwrap();
    assert_eq!(at.stage, Stage::Publishing);
    assert_eq!(at.published, 0);
    assert_eq!(at.shims.len(), 2);
    assert_eq!(at.next_shim().unwrap().link, s("/app/shims/black"));
    assert_eq!(at.next_shim().unwrap().source, s("/app/tools/black/bin/black"));
    at = at.advance(Outcome::Published(Publication::Created)).unwrap();
    assert_eq!(at.stage, Stage::Publishing);
    assert_eq!(at.next_shim().unwrap().link, s("/app/shims/blackd"));
    at = at.advance(Outcome::Published(Publication::Created)).unwrap();
    assert_eq!(at.stage, Stage::Done);
    assert_eq!(at.published, 2);
    assert_eq!(at.next_shim(), None);
    for outcome in [Outcome::Cleared, Outcome::Created, Outcome::Published(Publication::Created)] {
        assert!(!at.awaits(&outcome));
        assert_eq!(at.clone().advance(outcome), Ok(at.clone()));
    }
    assert_eq!(at.plan, started(CommandOutput::Quiet).plan);
}

#[test]
fn report_out_of_turn_changes_nothing() {
    let at = started(CommandOutput::Normal);
    assert_eq!(at.next_shim(), None);
    for outcome in [
        Outcome::Created,
        Outcome::InstallerExited(false),
        Outcome::Manifest(vec![0xff]),
        Outcome::Published(Publication::Failed(s("exists"))),
    ] {
        assert_eq!(at.clone().advance(outcome), Ok(at.clone()));
    }
}

#[test]
fn installation_without_executables_is_done_after_the_manifest() {
    let at = started(CommandOutput::Normal)
        .advance(Outcome::Cleared)
        .and_then(|i| i.advance(Outcome::Created))
        .and_then(|i| i.advance(Outcome::InstallerExited(true)))
        .and_then(|i| i.advance(Outcome::Manifest(s("/app/tools/black/lib/x.py\n"))))
        .unwrap();
    assert_eq!(at.stage, Stage::Done);
    assert_eq!(at.shims, Vec::<Shim>::new());
}

#[test]
fn unreadable_manifest_ends_the_installation() {
    let reading = started(CommandOutput::Normal)
        .advance(Outcome::Cleared)
        .and_then(|i| i.advance(Outcome::Created))
        .and_then(|i| i.advance(Outcome::InstallerExited(true)))
        .unwrap();
    assert_eq!(reading.advance(Outcome::Manifest(vec![b'/', 0xff])), Err(InstallError::ManifestUnreadable));
}

#[test]
fn install_refuses_an_installed_package_without_force() {
    for output in [CommandOutput::Normal, CommandOutput::Verbose, CommandOutput::Quiet] {
        let plan = install(&s("/app"), &s("/self"), &black(), &s("black"), false, output, true);
        assert_eq!(plan, Err(InstallError::AlreadyInstalled));
    }
}

#[test]
fn install_with_force_replaces_an_installed_package() {
    let forced = install(&s("/app"), &s("/self"), &black(), &s("black"), true, CommandOutput::Quiet, true);
    let fresh = install(&s("/app"), &s("/self"), &black(), &s("black"), true, CommandOutput::Quiet, false);
    assert!(forced.is_ok());
    assert_eq!(forced.clone().unwrap().stage, Stage::Clearing);
    assert_eq!(fresh.clone().unwrap().stage, Stage::Creating);
    assert_eq!(forced.clone().unwrap().plan, fresh.unwrap().plan);
    let old = vec![
        link("/app/shims/black", "/app/tools/black/bin/black"),
        link("/app/shims/blackd", "/app/tools/black/bin/blackd"),
        link("/app/shims/ruff", "/app/tools/ruff/bin/ruff"),
    ];
    let plan = forced.unwrap().plan;
    assert_eq!(uninstall_helper(&plan.env_path, true, &old), list(&["/app/shims/black", "/app/shims/blackd"]));
}

#[test]
fn installer_arguments_follow_the_output_level() {
    let bin = s("/t/bin");
    assert_eq!(
        build_installer_args(&bin, &s("ruff"), CommandOutput::Normal),
        list(&["--python", "/t/bin/python", "install", "--", "ruff"])
    );
    assert_eq!(
        build_installer_args(&bin, &s("ruff"), CommandOutput::Verbose),
        list(&["--python", "/t/bin/python", "install", "--verbose", "--", "ruff"])
    );
    assert_eq!(
        build_installer_args(&bin, &s("ruff"), CommandOutput::Quiet),
        list(&["--python", "/t/bin/python", "install", "-q", "--", "ruff"])
    );
}

#[test]
fn failed_installer_fails_the_install() {
    let installing = started(CommandOutput::Normal)
        .advance(Outcome::Cleared)
        .and_then(|i| i.advance(Outcome::Created))
        .unwrap();
    assert_eq!(installing.clone().advance(Outcome::InstallerExited(false)), Err(InstallError::InstallFailed));
    assert!(installing.advance(Outcome::InstallerExited(true)).is_ok());
}

#[test]
fn only_quiet_is_silent() {
    assert!(announces(CommandOutput::Normal));
    assert!(announces(CommandOutput::Verbose));
    assert!(!announces(CommandOutput::Quiet));
}

#[test]
fn manifest_lines_end_with_lf_or_crlf() {
    assert_eq!(split_lines(&s("a\nb\n")), list(&["a", "b"]));
    assert_eq!(split_lines(&s("a\r\nb")), list(&["a", "b"]));
    assert_eq!(split_lines(&s("a\n\nb\r")), list(&["a", "", "b\r"]));
    assert_eq!(split_lines(&s("")), Vec::<Vec<u8>>::new());
    assert_eq!(split_lines(&s("\n")), list(&[""]));
    assert_eq!(split_lines(&s("\r\n\r\r\n")), list(&["", "\r"]));
    let text = "x/y\r\nz\n\nlast";
    let expected: Vec<Vec<u8>> = text.lines().map(|l| l.as_bytes().to_vec()).collect();
    assert_eq!(split_lines(&s(text)), expected);
}

#[test]
fn manifest_must_be_utf8() {
    let bin = s("/t/bin");
    let dir = s("/app/shims");
    assert!(shims_from_manifest(&s("/t/bin/black\n"), &bin, &dir).is_ok());
    assert_eq!(shims_from_manifest(&Vec::new(), &bin, &dir), Ok(Vec::new()));
    assert!(shims_from_manifest(&"/t/bin/caf\u{e9}\n".as_bytes().to_vec(), &bin, &dir).is_ok());
    assert_eq!(
        shims_from_manifest(&vec![0xff, 0xfe, b'\n'], &bin, &dir),
        Err(InstallError::ManifestUnreadable)
    );
    assert_eq!(shims_from_manifest(&vec![b'a', 0xc3], &bin, &dir), Err(InstallError::ManifestUnreadable));
    let bad = vec![b'/', b'b', 0x80, b'\n'];
    assert_eq!(shims_from_manifest(&bad, &s("/"), &s("/app/shims")), Err(InstallError::ManifestUnreadable));
}

#[test]
fn every_file_under_bin_gets_a_shim() {
    let manifest = s(sample_manifest());
    let shims = shims_from_manifest(&manifest, &s("/app/tools/black/bin"), &s("/app/shims")).unwrap();
    assert_eq!(
        shims,
        vec![
            Shim {
                name: s("black"),
                source: s("/app/tools/black/bin/black"),
                link: s("/app/shims/black"),
            },
            Shim {
                name: s("sub/blackd"),
                source: s("/app/tools/black/bin/sub/blackd"),
                link: s("/app/shims/sub/blackd"),
            },
        ]
    );
}

fn sample_manifest() -> &'static str {
    "/app/tools/black/lib/python3.11/site-packages/black/__init__.py\n\
/app/tools/black/bin/black\n\
/app/tools/black/binary\n\
/app/tools/black/bin/sub/blackd\n\
/app/tools/other/bin/black\n"
}

#[test]
fn manifest_without_executables_gives_no_shim() {
    let files = list(&["/app/tools/x/lib/a.py", "relative/bin/x"]);
    assert_eq!(plan_shims(&files, &s("/app/tools/x/bin"), &s("/app/shims")), Vec::<Shim>::new());
}

#[test]
fn failed_symlink_names_the_executable() {
    let publishing = started(CommandOutput::Normal)
        .advance(Outcome::Cleared)
        .and_then(|i| i.advance(Outcome::Created))
        .and_then(|i| i.advance(Outcome::InstallerExited(true)))
        .and_then(|i| i.advance(Outcome::Manifest(s("/app/tools/black/bin/a\n/app/tools/black/bin/b"))))
        .and_then(|i| i.advance(Outcome::Published(Publication::Created)))
        .unwrap();
    assert_eq!(
        publishing.advance(Outcome::Published(Publication::Failed(s("File exists")))),
        Err(InstallError::SymlinkFailed { path: s("/app/tools/black/bin/b"), cause: s("File exists") })
    );
}

#[test]
fn uninstall_of_a_missing_package_is_no_error() {
    for _ in 0..3 {
        assert_eq!(uninstall(&s("/app"), &s("ghost"), CommandOutput::Normal, false), Uninstall::NotInstalled);
    }
    assert_eq!(uninstall(&s("/app"), &s("ghost"), CommandOutput::Quiet, false), Uninstall::NotInstalled);
}

#[test]
fn uninstall_removes_the_environment_and_its_shims() {
    assert_eq!(
        uninstall(&s("/app"), &s("black"), CommandOutput::Normal, true),
        Uninstall::Remove(Removal {
            package: s("black"),
            env_path: s("/app/tools/black"),
            shim_dir: s("/app/shims"),
            announce: true,
        })
    );
    assert_eq!(
        uninstall(&s("/app"), &s("black"), CommandOutput::Quiet, true),
        Uninstall::Remove(Removal {
            package: s("black"),
            env_path: s("/app/tools/black"),
            shim_dir: s("/app/shims"),
            announce: false,
        })
    );
}

fn removal(announce: bool) -> Removal {
    Removal { package: s("black"), env_path: s("/app/tools/black"), shim_dir: s("/app/shims"), announce }
}

#[test]
fn failed_removal_names_the_package_and_keeps_the_cause() {
    let failed = |cause: &str| Err(InstallError::UninstallFailed { package: s("black"), cause: s(cause) });
    assert_eq!(removal(true).conclude(Deletion::Failed(s("Permission denied")), Ok(())), failed("Permission denied"));
    assert_eq!(removal(true).conclude(Deletion::Deleted, Err(s("Not a directory"))), failed("Not a directory"));
    assert_eq!(removal(true).conclude(Deletion::Failed(s("first")), Err(s("second"))), failed("first"));
    assert_eq!(removal(false).conclude(Deletion::Vanished, Err(s("busy"))), failed("busy"));
}

#[test]
fn removal_that_went_through_is_announced_unless_quiet() {
    assert_eq!(removal(true).conclude(Deletion::Deleted, Ok(())), Ok(true));
    assert_eq!(removal(false).conclude(Deletion::Deleted, Ok(())), Ok(false));
}

#[test]
fn vanished_tree_is_no_failure() {
    assert!(Deletion::Vanished.proceeds());
    assert!(Deletion::Deleted.proceeds());
    assert!(!Deletion::Failed(s("Permission denied")).proceeds());
    assert_eq!(removal(true).conclude(Deletion::Vanished, Ok(())), Ok(true));
}

#[test]
fn helper_does_nothing_without_an_environment() {
    let entries = vec![
        link("/app/shims/black", "/app/tools/black/bin/black"),
        ShimEntry { path: s("/app/shims/README"), target: None },
    ];
    let env = s("/app/tools/black");
    assert_eq!(uninstall_helper(&env, false, &entries), Vec::<Vec<u8>>::new());
    assert_eq!(uninstall_helper(&env, false, &Vec::new()), Vec::<Vec<u8>>::new());
    assert_eq!(uninstall_helper(&env, true, &entries), list(&["/app/shims/black"]));
}

#[test]
fn paths_are_compared_part_by_part() {
    let entries = vec![
        link("/app/shims/a", "/app//tools/black/./bin/a"),
        link("/app/shims/b", "/app/tools/black/"),
        link("/app/shims/c", "/app/tools/blacker/bin/c"),
        link("/app/shims/d", "app/tools/black/bin/d"),
    ];
    assert_eq!(uninstall_helper(&s("/app/tools/black"), true, &entries), list(&["/app/shims/a", "/app/shims/b"]));
    assert_eq!(uninstall_helper(&s("/app//tools/./black/"), true, &entries), list(&["/app/shims/a", "/app/shims/b"]));
    let odd = plan_shims(&list(&["/t/bin/tool", "/t/binary"]), &s("/t//bin/"), &s("/s"));
    assert_eq!(odd, vec![Shim { name: s("tool"), source: s("/t/bin/tool"), link: s("/s/tool") }]);
    let started = install(&s("/app//./x/"), &s("/self"), &black(), &s("black"), false, CommandOutput::Normal, false)
        .unwrap();
    assert_eq!(started.plan.env_path, s("/app/x/tools/black"));
    assert_eq!(started.plan.shim_dir, s("/app/x/shims"));
    let files = list(&["/app/x/tools/black/bin/black", "/app/x//tools/black/bin/./sub//tool"]);
    let shims = plan_shims(&files, &started.plan.bin_path, &started.plan.shim_dir);
    assert_eq!(
        shims,
        vec![
            Shim { name: s("black"), source: s("/app/x/tools/black/bin/black"), link: s("/app/x/shims/black") },
            Shim {
                name: s("sub/tool"),
                source: s("/app/x//tools/black/bin/./sub//tool"),
                link: s("/app/x/shims/sub/tool"),
            },
        ]
    );
}

#[test]
fn only_symlinks_into_the_environment_are_pruned() {
    let entries = vec![
        link("/app/shims/black", "/app/tools/black/bin/black"),
        link("/app/shims/ruff", "/app/tools/ruff/bin/ruff"),
        ShimEntry { path: s("/app/shims/README"), target: None },
        link("/app/shims/blacken", "/app/tools/blacken/bin/blacken"),
        link("/app/shims/env", "/app/tools/black"),
        link("/app/shims/blackd", "/app/tools/black/bin/blackd"),
    ];
    let env = s("/app/tools/black");
    let gone = uninstall_helper(&env, true, &entries);
    assert_eq!(gone, list(&["/app/shims/black", "/app/shims/env", "/app/shims/blackd"]));
    let left: Vec<ShimEntry> = entries.iter().filter(|e| !gone.contains(&e.path)).cloned().collect();
    assert_eq!(uninstall_helper(&env, true, &left), Vec::<Vec<u8>>::new());
    assert_eq!(left.len(), 3);
}
