use pkgsync::config::{ConfigTable, ConfigValue};
use pkgsync::diff::{compute_down_diff, compute_up_diff, packages_from_output, SystemSnapshot};
use pkgsync::error::{ErrorKind, SyncError};
use pkgsync::names::PackageSet;
use pkgsync::package_synchronizer::{
    expand_group, load_synchronizer, make_command, new_pacman, pacman_templates,
    synchronizer_from_document, PackageSynchronizer, SOk, SystemConfigSynchronizer,
};

fn list(names: &[&str]) -> Vec<String> {
    names.iter().map(|n| n.to_string()).collect()
}

fn set(names: &[&str]) -> PackageSet {
    PackageSet::from_list(list(names))
}

fn text(s: &str) -> ConfigValue {
    ConfigValue::String(s.to_string())
}

fn texts(items: &[&str]) -> ConfigValue {
    ConfigValue::Array(items.iter().map(|s| text(s)).collect())
}

fn table(entries: Vec<(&str, ConfigValue)>) -> ConfigTable {
    ConfigTable { entries: entries.into_iter().map(|(k, v)| (k.to_string(), v)).collect() }
}

fn synchronizer(packages: &[&str], groups: &[&str], blacklist: &[&str]) -> PackageSynchronizer {
    PackageSynchronizer {
        packages: list(packages),
        groups: list(groups),
        blacklist: list(blacklist),
        meta: pacman_templates("sudo"),
    }
}

fn snapshot(installed: &[&str], dependency: &[&str], explicit: &[&str], unrequired: &[&str]) -> SystemSnapshot {
    SystemSnapshot {
        installed: set(installed),
        dependency_installed: set(dependency),
        explicitly_installed: set(explicit),
        explicitly_unrequired: set(unrequired),
    }
}

#[test]
fn sok_wraps_one_element() {
    assert_eq!(SOk(5), Ok(vec![5]));
    assert_eq!(SOk("a".to_string()), Ok(list(&["a"])));
}

#[test]
fn pacman_templates_are_the_commands_of_pacman() {
    let meta = pacman_templates("doas");
    assert_eq!(meta.installed_packages_cmd, list(&["pacman", "-Qnq"]));
    assert_eq!(meta.dependency_packages_cmd, list(&["pacman", "-Qnqd"]));
    assert_eq!(meta.explicitly_installed_cmd, list(&["pacman", "-Qnqe"]));
    assert_eq!(meta.explicitly_unrequired_cmd, list(&["pacman", "-Qnqet"]));
    assert_eq!(meta.as_explicit_cmd, list(&["doas", "pacman", "-D", "--asexplicit"]));
    assert_eq!(meta.install_cmd, list(&["doas", "pacman", "-S"]));
    assert_eq!(meta.as_dependency_cmd, list(&["doas", "pacman", "-D", "--asdeps"]));
    assert_eq!(meta.remove_cmd, list(&["doas", "pacman", "-Rs"]));
    assert_eq!(meta.update_cmd, list(&["doas", "pacman", "-Syu"]));
    assert_eq!(meta.get_orphans_cmd, list(&["pacman", "-Qnqdt"]));
    assert_eq!(meta.get_group_packages_cmd, list(&["pacman", "-Sqg"]));
}

#[test]
fn new_pacman_with_defaults() {
    let config = table(vec![("type", text("pacman"))]);
    assert_eq!(new_pacman(&config), Ok(synchronizer(&[], &[], &[])));
}

#[test]
fn new_pacman_reads_the_lists_and_sudo() {
    let config = table(vec![
        ("blacklist", texts(&["nano"])),
        ("groups", texts(&["base"])),
        ("packages", texts(&["vim", "bash"])),
        ("sudo_cmd", text("doas")),
        ("type", text("pacman")),
    ]);
    let expected = PackageSynchronizer {
        packages: list(&["vim", "bash"]),
        groups: list(&["base"]),
        blacklist: list(&["nano"]),
        meta: pacman_templates("doas"),
    };
    assert_eq!(new_pacman(&config), Ok(expected));
}

#[test]
fn new_pacman_takes_command_templates() {
    let config = table(vec![
        ("install_cmd", text("doas pacman -S --needed")),
        ("remove_cmd", texts(&["doas", "pacman", "-Rns"])),
        ("get_group_packages_cmd", text("pacman -Sgq")),
    ]);
    let mut expected = synchronizer(&[], &[], &[]);
    expected.meta.install_cmd = list(&["doas", "pacman", "-S", "--needed"]);
    expected.meta.remove_cmd = list(&["doas", "pacman", "-Rns"]);
    expected.meta.get_group_packages_cmd = list(&["pacman", "-Sgq"]);
    assert_eq!(new_pacman(&config), Ok(expected));
}

#[test]
fn new_pacman_refuses_unknown_keys() {
    let config = table(vec![("packages", texts(&["vim"])), ("colour", text("red")), ("size", text("x"))]);
    let err = new_pacman(&config).unwrap_err();
    assert_eq!(err, SyncError::UnknownKey("colour".to_string()));
    assert_eq!(err.message(), "Unknown key: colour");
    assert_eq!(err.kind(), ErrorKind::ConfigSchema);
}

#[test]
fn new_pacman_refuses_values_of_the_wrong_type() {
    let packages = table(vec![("packages", text("vim"))]);
    assert_eq!(new_pacman(&packages), Err(SyncError::WrongType("packages".to_string())));
    let sudo = table(vec![("sudo_cmd", ConfigValue::Integer(1)), ("packages", text("vim"))]);
    assert_eq!(new_pacman(&sudo), Err(SyncError::WrongType("sudo_cmd".to_string())));
    let groups = table(vec![("groups", texts(&["base"])), ("blacklist", ConfigValue::Boolean(true))]);
    assert_eq!(new_pacman(&groups), Err(SyncError::WrongType("blacklist".to_string())));
    let template = table(vec![("update_cmd", ConfigValue::Integer(1))]);
    assert_eq!(new_pacman(&template), Err(SyncError::NotStringOrArray));
    let items = table(vec![("update_cmd", ConfigValue::Array(vec![ConfigValue::Integer(1)]))]);
    assert_eq!(new_pacman(&items), Err(SyncError::NonStringElements));
}

#[test]
fn a_document_gives_the_synchronizer_of_its_first_table() {
    let doc = table(vec![
        ("dry_mode", ConfigValue::Boolean(false)),
        ("a", ConfigValue::Table(table(vec![("type", text("pacman")), ("packages", texts(&["vim"]))]))),
        ("b", ConfigValue::Table(table(vec![("type", text("pacman")), ("packages", texts(&["zsh"]))]))),
    ]);
    assert_eq!(synchronizer_from_document(doc), Ok(synchronizer(&["vim"], &[], &[])));
}

#[test]
fn a_document_without_a_table_is_refused() {
    let err = synchronizer_from_document(table(vec![("dry_mode", ConfigValue::Boolean(false))])).unwrap_err();
    assert_eq!(err, SyncError::MissingConfiguration);
    assert_eq!(err.message(), "Could not find valid pacman configuration.");
    assert_eq!(err.kind(), ErrorKind::ConfigSchema);
}

#[test]
fn load_synchronizer_from_toml() {
    let text = "[pacman]\ntype = \"pacman\"\nsudo_cmd = \"doas\"\npackages = [\"vim\", \"bash\"]\ngroups = [\"base\"]\nblacklist = [\"nano\"]\n";
    let expected = PackageSynchronizer {
        packages: list(&["vim", "bash"]),
        groups: list(&["base"]),
        blacklist: list(&["nano"]),
        meta: pacman_templates("doas"),
    };
    assert_eq!(load_synchronizer(text), Ok(expected));
}

#[test]
fn load_synchronizer_reports_what_is_wrong() {
    assert!(matches!(load_synchronizer("[pacman"), Err(SyncError::Parse(_))));
    assert_eq!(load_synchronizer("x = 1\n"), Err(SyncError::MissingConfiguration));
    assert_eq!(
        load_synchronizer("[pacman]\ntype = \"pacman\"\ncolour = \"red\"\n"),
        Err(SyncError::UnknownKey("colour".to_string()))
    );
    assert_eq!(
        load_synchronizer("[pacman]\ntype = \"pacman\"\npackages = [1]\n"),
        Err(SyncError::WrongType("packages".to_string()))
    );
}

#[test]
fn blacklist_hard_fail() {
    let sync = synchronizer(&["a"], &[], &["a"]);
    let err = sync.calculate_config_state(&[]).unwrap_err();
    assert_eq!(err, SyncError::BlacklistConflict(list(&["a"])));
    assert_eq!(err.kind(), ErrorKind::BlacklistConflict);
    assert_eq!(sync.check_blacklist(), Err(SyncError::BlacklistConflict(list(&["a"]))));
}

#[test]
fn blacklist_conflict_names_every_package() {
    let sync = synchronizer(&["c", "a", "b"], &["base"], &["b", "x", "c"]);
    let err = sync.calculate_config_state(&list(&["vim"])).unwrap_err();
    assert_eq!(err, SyncError::BlacklistConflict(list(&["c", "b"])));
    assert_eq!(err.message(), "Packages and Blacklist have an overlap: c, b");
}

#[test]
fn blacklist_soft_filter() {
    let sync = synchronizer(&[], &["base"], &["vim"]);
    let state = sync.calculate_config_state(&list(&["a", "vim", "b"])).unwrap();
    assert_eq!(state.to_vec(), list(&["a", "b"]));
}

#[test]
fn config_state_without_groups_is_the_sorted_packages() {
    let sync = synchronizer(&["vim", "bash", "vim"], &[], &["nano"]);
    assert_eq!(sync.check_blacklist(), Ok(()));
    let state = sync.calculate_config_state(&list(&["ignored"])).unwrap();
    assert_eq!(state.to_vec(), list(&["bash", "vim"]));
}

#[test]
fn config_state_joins_packages_and_groups() {
    let sync = synchronizer(&["vim", "bash"], &["base"], &["nano", "zsh"]);
    let state = sync.calculate_config_state(&list(&["zsh", "bash", "awk", "nano"])).unwrap();
    assert_eq!(state.to_vec(), list(&["awk", "bash", "vim"]));
}

#[test]
fn config_state_does_not_depend_on_the_order() {
    let members = list(&["x", "vim", "y"]);
    let a = synchronizer(&["c", "a", "b"], &["base"], &["vim", "q"]);
    let b = synchronizer(&["b", "c", "a", "a"], &["base"], &["q", "vim"]);
    let reversed: Vec<String> = members.iter().rev().cloned().collect();
    assert_eq!(
        a.calculate_config_state(&members).unwrap().to_vec(),
        b.calculate_config_state(&reversed).unwrap().to_vec()
    );
    assert_eq!(a.calculate_config_state(&members).unwrap().to_vec(), list(&["a", "b", "c", "x", "y"]));
}

#[test]
fn group_query_names_the_group() {
    let sync = synchronizer(&[], &["base"], &[]);
    assert_eq!(sync.group_query_cmd("base"), list(&["pacman", "-Sqg", "base"]));
}

#[test]
fn expand_group_filters_the_exceptions() {
    assert_eq!(
        expand_group(Some(set(&["a", "vim", "b"])), &set(&["vim"])).unwrap().to_vec(),
        list(&["a", "b"])
    );
    assert_eq!(expand_group(Some(set(&["a"])), &set(&[])).unwrap().to_vec(), list(&["a"]));
    assert!(expand_group(Some(set(&["a"])), &set(&["a"])).unwrap().is_empty());
}

#[test]
fn expand_group_fails_without_members() {
    let err = expand_group(None, &set(&[])).unwrap_err();
    assert_eq!(err, SyncError::GroupQuery);
    assert_eq!(err.kind(), ErrorKind::GroupQuery);
    assert_eq!(err.message(), "Command did not succeed");
    assert_eq!(expand_group(Some(set(&[])), &set(&[])).unwrap_err(), SyncError::GroupQuery);
}

#[test]
fn packages_from_output_sorts_and_dedups() {
    assert_eq!(packages_from_output("vim\nbash\n vim \n\nawk\n").to_vec(), list(&["awk", "bash", "vim"]));
    assert!(packages_from_output("").is_empty());
}

#[test]
fn snapshot_from_outputs() {
    let s = SystemSnapshot::from_outputs("b\na\n", "b\n", "a\nd\n", "d\n");
    assert_eq!(s.installed.to_vec(), list(&["a", "b"]));
    assert_eq!(s.dependency_installed.to_vec(), list(&["b"]));
    assert_eq!(s.explicitly_installed.to_vec(), list(&["a", "d"]));
    assert_eq!(s.explicitly_unrequired.to_vec(), list(&["d"]));
}

#[test]
fn up_diff_example() {
    let declared = set(&["a", "b", "c"]);
    let diff = compute_up_diff(&declared, &snapshot(&["a", "b"], &["b"], &[], &[]));
    assert_eq!(diff.to_install.to_vec(), list(&["c"]));
    assert_eq!(diff.to_mark_explicit.to_vec(), list(&["b"]));
}

#[test]
fn down_diff_example() {
    let declared = set(&["a", "b", "c"]);
    let snap = snapshot(&[], &[], &["a", "b", "d"], &["d"]);
    let required = snap.explicitly_installed.difference(&snap.explicitly_unrequired);
    assert_eq!(required.to_vec(), list(&["a", "b"]));
    let diff = compute_down_diff(&declared, &snap);
    assert_eq!(diff.to_remove.to_vec(), list(&["d"]));
    assert!(diff.to_mark_dependency.is_empty());
}

#[test]
fn down_diff_marks_what_is_still_required() {
    let declared = set(&["a"]);
    let diff = compute_down_diff(&declared, &snapshot(&[], &[], &["a", "lib", "tool"], &["tool"]));
    assert_eq!(diff.to_remove.to_vec(), list(&["tool"]));
    assert_eq!(diff.to_mark_dependency.to_vec(), list(&["lib"]));
}

#[test]
fn diffs_of_a_converged_system_are_empty() {
    let declared = set(&["a", "b"]);
    let snap = snapshot(&["a", "b", "lib"], &["lib"], &["a", "b"], &["a"]);
    let up = compute_up_diff(&declared, &snap);
    let down = compute_down_diff(&declared, &snap);
    assert!(up.to_install.is_empty());
    assert!(up.to_mark_explicit.is_empty());
    assert!(down.to_remove.is_empty());
    assert!(down.to_mark_dependency.is_empty());
}

#[test]
fn a_second_run_finds_nothing_to_do() {
    let declared = set(&["a", "b", "c"]);
    let before = snapshot(&["a", "b", "d", "e", "lib"], &["b", "lib"], &["a", "d", "e"], &["d"]);
    let up = compute_up_diff(&declared, &before);
    let down = compute_down_diff(&declared, &before);
    assert_eq!(up.to_install.to_vec(), list(&["c"]));
    assert_eq!(up.to_mark_explicit.to_vec(), list(&["b"]));
    assert_eq!(down.to_remove.to_vec(), list(&["d"]));
    assert_eq!(down.to_mark_dependency.to_vec(), list(&["e"]));
    let after = snapshot(&["a", "b", "c", "e", "lib"], &["e", "lib"], &["a", "b", "c"], &["a", "c"]);
    let up = compute_up_diff(&declared, &after);
    let down = compute_down_diff(&declared, &after);
    assert!(up.to_install.is_empty());
    assert!(up.to_mark_explicit.is_empty());
    assert!(down.to_remove.is_empty());
    assert!(down.to_mark_dependency.is_empty());
}

#[test]
fn make_command_adds_the_names() {
    assert_eq!(
        make_command(&list(&["sudo", "pacman", "-S"]), &list(&["vim", "zsh"])),
        list(&["sudo", "pacman", "-S", "vim", "zsh"])
    );
}

#[test]
fn pre_commands_update_the_system() {
    let sync = synchronizer(&[], &[], &[]);
    assert_eq!(sync.get_pre_cmds(), Ok(vec![list(&["sudo", "pacman", "-Syu"])]));
}

#[test]
fn up_commands_mark_before_they_install() {
    let sync = synchronizer(&[], &[], &[]);
    let declared = set(&["a", "b", "c", "e"]);
    let cmds = sync.get_up_cmds(&declared, &snapshot(&["a", "b"], &["b"], &[], &[])).unwrap();
    assert_eq!(
        cmds,
        vec![
            list(&["sudo", "pacman", "-D", "--asexplicit", "b"]),
            list(&["sudo", "pacman", "-S", "c", "e"]),
        ]
    );
}

#[test]
fn down_commands_mark_before_they_remove() {
    let sync = synchronizer(&[], &[], &[]);
    let declared = set(&["a"]);
    let cmds = sync.get_down_cmds(&declared, &snapshot(&[], &[], &["a", "lib", "tool"], &["tool"])).unwrap();
    assert_eq!(
        cmds,
        vec![
            list(&["sudo", "pacman", "-D", "--asdeps", "lib"]),
            list(&["sudo", "pacman", "-Rs", "tool"]),
        ]
    );
}

#[test]
fn an_empty_diff_field_gives_no_command() {
    let sync = synchronizer(&[], &[], &[]);
    let declared = set(&["a", "b"]);
    let only_install = sync.get_up_cmds(&declared, &snapshot(&["a"], &[], &[], &[])).unwrap();
    assert_eq!(only_install, vec![list(&["sudo", "pacman", "-S", "b"])]);
    let only_mark = sync.get_up_cmds(&declared, &snapshot(&["a", "b"], &["a"], &[], &[])).unwrap();
    assert_eq!(only_mark, vec![list(&["sudo", "pacman", "-D", "--asexplicit", "a"])]);
    let nothing = sync.get_up_cmds(&declared, &snapshot(&["a", "b"], &[], &[], &[])).unwrap();
    assert!(nothing.is_empty());
    let down = sync.get_down_cmds(&declared, &snapshot(&[], &[], &["a", "b"], &["b"])).unwrap();
    assert!(down.is_empty());
    let only_remove = sync.get_down_cmds(&declared, &snapshot(&[], &[], &["a", "x"], &["x"])).unwrap();
    assert_eq!(only_remove, vec![list(&["sudo", "pacman", "-Rs", "x"])]);
}

#[test]
fn post_commands_remove_the_orphans() {
    let sync = synchronizer(&[], &[], &[]);
    assert_eq!(
        sync.get_post_cmds(&set(&["lib", "dep"])),
        Ok(vec![list(&["sudo", "pacman", "-Rs", "dep", "lib"])])
    );
    assert_eq!(sync.get_post_cmds(&set(&[])), Ok(Vec::new()));
}

#[test]
fn repeated_packages_are_found() {
    assert_eq!(synchronizer(&["b", "a", "b", "c", "a"], &[], &[]).repeated_packages(), list(&["b", "a"]));
    assert!(synchronizer(&["b", "a"], &["g", "g"], &["x", "x"]).repeated_packages().is_empty());
}
