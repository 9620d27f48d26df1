//! The package synchronizer: what is declared, the command templates, and the
//! commands that bring a system to the declared state.

use crate::config::{
    command_fault, command_of, config_tables, find_config_tables, get_list_from_table,
    get_text_from_table, list_fault, list_or, lookup, parse_config, text_fault, text_or,
    toml_document, toml_value_to_cmd_array, ConfigTable, ConfigValue,
};
use crate::error::{Fault, SyncError};
use crate::diff::{
    compute_down_diff, compute_up_diff, down_diff, up_diff, DownDiffView, SystemSnapshot,
    UpDiffView,
};
use crate::names::{
    cleanup_package_list, cleanup_reporting_duplicates, clone_names, compare_lists_in_both,
    compare_lists_only_in_first,
    compare_names, concat, in_both, is_package_set, lemma_concat_names,
    lemma_list_operations_as_sets, lemma_package_set_is_sorted, lemma_second_list_as_set,
    only_in_first, package_set_of, repeated_names, PackageSet, Rank,
};
use crate::{AResult, CommandVector};
use vstd::prelude::*;

verus! {

/// The command templates of a package manager: each is the start of a command
/// line, to which package names are added where the command takes any.
#[derive(Clone, Debug, PartialEq, Eq)]
pub struct PackageSynchronizerMeta {
    /// Lists the installed packages.
    pub installed_packages_cmd: CommandVector,
    /// Lists the packages installed as dependencies.
    pub dependency_packages_cmd: CommandVector,
    /// Lists the packages installed explicitly.
    pub explicitly_installed_cmd: CommandVector,
    /// Lists the packages installed explicitly that no package requires.
    pub explicitly_unrequired_cmd: CommandVector,
    /// Marks packages as installed explicitly.
    pub as_explicit_cmd: CommandVector,
    /// Installs packages.
    pub install_cmd: CommandVector,
    /// Marks packages as installed as dependencies.
    pub as_dependency_cmd: CommandVector,
    /// Removes packages.
    pub remove_cmd: CommandVector,
    /// Updates the system.
    pub update_cmd: CommandVector,
    /// Lists the dependencies that no package requires any more.
    pub get_orphans_cmd: CommandVector,
    /// Lists the members of package groups.
    pub get_group_packages_cmd: CommandVector,
}

/// The model of the command templates.
pub struct TemplatesView {
    pub installed_packages_cmd: Seq<Seq<char>>,
    pub dependency_packages_cmd: Seq<Seq<char>>,
    pub explicitly_installed_cmd: Seq<Seq<char>>,
    pub explicitly_unrequired_cmd: Seq<Seq<char>>,
    pub as_explicit_cmd: Seq<Seq<char>>,
    pub install_cmd: Seq<Seq<char>>,
    pub as_dependency_cmd: Seq<Seq<char>>,
    pub remove_cmd: Seq<Seq<char>>,
    pub update_cmd: Seq<Seq<char>>,
    pub get_orphans_cmd: Seq<Seq<char>>,
    pub get_group_packages_cmd: Seq<Seq<char>>,
}

impl View for PackageSynchronizerMeta {
    type V = TemplatesView;

    open spec fn view(&self) -> TemplatesView {
        TemplatesView {
            installed_packages_cmd: self.installed_packages_cmd.deep_view(),
            dependency_packages_cmd: self.dependency_packages_cmd.deep_view(),
            explicitly_installed_cmd: self.explicitly_installed_cmd.deep_view(),
            explicitly_unrequired_cmd: self.explicitly_unrequired_cmd.deep_view(),
            as_explicit_cmd: self.as_explicit_cmd.deep_view(),
            install_cmd: self.install_cmd.deep_view(),
            as_dependency_cmd: self.as_dependency_cmd.deep_view(),
            remove_cmd: self.remove_cmd.deep_view(),
            update_cmd: self.update_cmd.deep_view(),
            get_orphans_cmd: self.get_orphans_cmd.deep_view(),
            get_group_packages_cmd: self.get_group_packages_cmd.deep_view(),
        }
    }
}

/// What the configuration declares, and the commands of the package manager.
#[derive(Clone, Debug, PartialEq, Eq)]
pub struct PackageSynchronizer {
    /// The packages that are to be installed explicitly.
    pub packages: Vec<String>,
    /// The package groups whose members are to be installed.
    pub groups: Vec<String>,
    /// The packages that are not to be installed for a group's sake.
    pub blacklist: Vec<String>,
    /// The command templates.
    pub meta: PackageSynchronizerMeta,
}

/// The model of a package synchronizer.
pub struct SynchronizerView {
    pub packages: Seq<Seq<char>>,
    pub groups: Seq<Seq<char>>,
    pub blacklist: Seq<Seq<char>>,
    pub meta: TemplatesView,
}

impl View for PackageSynchronizer {
    type V = SynchronizerView;

    open spec fn view(&self) -> SynchronizerView {
        SynchronizerView {
            packages: self.packages.deep_view(),
            groups: self.groups.deep_view(),
            blacklist: self.blacklist.deep_view(),
            meta: self.meta@,
        }
    }
}

/// The commands of pacman, with `sudo` put before those that change the
/// system.
pub open spec fn default_templates(sudo: Seq<char>) -> TemplatesView {
    TemplatesView {
        installed_packages_cmd: seq!["pacman"@, "-Qnq"@],
        dependency_packages_cmd: seq!["pacman"@, "-Qnqd"@],
        explicitly_installed_cmd: seq!["pacman"@, "-Qnqe"@],
        explicitly_unrequired_cmd: seq!["pacman"@, "-Qnqet"@],
        as_explicit_cmd: seq![sudo, "pacman"@, "-D"@, "--asexplicit"@],
        install_cmd: seq![sudo, "pacman"@, "-S"@],
        as_dependency_cmd: seq![sudo, "pacman"@, "-D"@, "--asdeps"@],
        remove_cmd: seq![sudo, "pacman"@, "-Rs"@],
        update_cmd: seq![sudo, "pacman"@, "-Syu"@],
        get_orphans_cmd: seq!["pacman"@, "-Qnqdt"@],
        get_group_packages_cmd: seq!["pacman"@, "-Sqg"@],
    }
}

/// The keys that name a command template.
pub open spec fn is_command_key(key: Seq<char>) -> bool {
    ||| key == "installed_packages_cmd"@
    ||| key == "dependency_packages_cmd"@
    ||| key == "explicitly_installed_cmd"@
    ||| key == "explicitly_unrequired_cmd"@
    ||| key == "as_explicit_cmd"@
    ||| key == "install_cmd"@
    ||| key == "as_dependency_cmd"@
    ||| key == "remove_cmd"@
    ||| key == "update_cmd"@
    ||| key == "get_orphans_cmd"@
    ||| key == "get_group_packages_cmd"@
}

/// The keys that a package table may hold.
pub open spec fn is_known_key(key: Seq<char>) -> bool {
    ||| key == "type"@
    ||| key == "sudo_cmd"@
    ||| key == "packages"@
    ||| key == "groups"@
    ||| key == "blacklist"@
    ||| is_command_key(key)
}

/// The first key of the entries that a package table may not hold.
pub open spec fn first_unknown_key(entries: Seq<(String, ConfigValue)>) -> Option<Seq<char>>
    decreases entries.len(),
{
    if entries.len() == 0 {
        None
    } else if !is_known_key(entries[0].0@) {
        Some(entries[0].0@)
    } else {
        first_unknown_key(entries.drop_first())
    }
}

/// What is wrong with the command under a key, if there is one and anything
/// is.
pub open spec fn override_fault(entries: Seq<(String, ConfigValue)>, key: Seq<char>) -> Option<
    Fault,
> {
    match lookup(entries, key) {
        Some(value) => command_fault(value),
        None => None,
    }
}

/// The command under a key, or the default where the key has none.
pub open spec fn command_or(
    entries: Seq<(String, ConfigValue)>,
    key: Seq<char>,
    default: Seq<Seq<char>>,
) -> Seq<Seq<char>> {
    match lookup(entries, key) {
        Some(value) => command_of(value),
        None => default,
    }
}

/// Tells whether a package table may hold the key.
fn known_key(key: &str) -> (r: bool)
    ensures
        r == is_known_key(key@),
{
    is_same(key, "type") || is_same(key, "sudo_cmd") || is_same(key, "packages") || is_same(
        key,
        "groups",
    ) || is_same(key, "blacklist") || is_same(key, "installed_packages_cmd") || is_same(
        key,
        "dependency_packages_cmd",
    ) || is_same(key, "explicitly_installed_cmd") || is_same(key, "explicitly_unrequired_cmd")
        || is_same(key, "as_explicit_cmd") || is_same(key, "install_cmd") || is_same(
        key,
        "as_dependency_cmd",
    ) || is_same(key, "remove_cmd") || is_same(key, "update_cmd") || is_same(
        key,
        "get_orphans_cmd",
    ) || is_same(key, "get_group_packages_cmd")
}

/// Tells whether two texts are the same.
fn is_same(a: &str, b: &str) -> (r: bool)
    ensures
        r == (a@ == b@),
{
    match compare_names(a, b) {
        Rank::Same => true,
        _ => false,
    }
}

/// The command under a key of a table, or the default where the table has not
/// the key.
fn command_setting(table: &ConfigTable, key: &str, default: CommandVector) -> (r: AResult<
    CommandVector,
>)
    ensures
        match override_fault(table.entries@, key@) {
            Some(fault) => r matches Err(e) && e@ == fault,
            None => r matches Ok(command) && command.deep_view() == command_or(
                table.entries@,
                key@,
                default.deep_view(),
            ),
        },
{
    match table.get(key) {
        Some(value) => toml_value_to_cmd_array(value),
        None => Ok(default),
    }
}

/// The command of two words.
fn words2(a: &str, b: &str) -> (r: CommandVector)
    ensures
        r.deep_view() == seq![a@, b@],
{
    let mut r: Vec<String> = Vec::new();
    r.push(a.to_owned());
    r.push(b.to_owned());
    assert(r.deep_view() =~= seq![a@, b@]);
    r
}

/// The command of three words.
fn words3(a: &str, b: &str, c: &str) -> (r: CommandVector)
    ensures
        r.deep_view() == seq![a@, b@, c@],
{
    let mut r: Vec<String> = Vec::new();
    r.push(a.to_owned());
    r.push(b.to_owned());
    r.push(c.to_owned());
    assert(r.deep_view() =~= seq![a@, b@, c@]);
    r
}

/// The command of four words.
fn words4(a: &str, b: &str, c: &str, d: &str) -> (r: CommandVector)
    ensures
        r.deep_view() == seq![a@, b@, c@, d@],
{
    let mut r: Vec<String> = Vec::new();
    r.push(a.to_owned());
    r.push(b.to_owned());
    r.push(c.to_owned());
    r.push(d.to_owned());
    assert(r.deep_view() =~= seq![a@, b@, c@, d@]);
    r
}

/// The commands of pacman, with the given word put before those that change
/// the system.
pub fn pacman_templates(sudo_cmd: &str) -> (r: PackageSynchronizerMeta)
    ensures
        r@ == default_templates(sudo_cmd@),
{
    PackageSynchronizerMeta {
        installed_packages_cmd: words2("pacman", "-Qnq"),
        dependency_packages_cmd: words2("pacman", "-Qnqd"),
        explicitly_installed_cmd: words2("pacman", "-Qnqe"),
        explicitly_unrequired_cmd: words2("pacman", "-Qnqet"),
        as_explicit_cmd: words4(sudo_cmd, "pacman", "-D", "--asexplicit"),
        install_cmd: words3(sudo_cmd, "pacman", "-S"),
        as_dependency_cmd: words4(sudo_cmd, "pacman", "-D", "--asdeps"),
        remove_cmd: words3(sudo_cmd, "pacman", "-Rs"),
        update_cmd: words3(sudo_cmd, "pacman", "-Syu"),
        get_orphans_cmd: words2("pacman", "-Qnqdt"),
        get_group_packages_cmd: words2("pacman", "-Sqg"),
    }
}


/// What is wrong with a package table, if anything: the first key that it may
/// not hold; else the first of `sudo_cmd`, `packages`, `groups`, `blacklist`
/// and the command templates, in this order, whose value has not the form
/// that it must have.
pub open spec fn pacman_fault(entries: Seq<(String, ConfigValue)>) -> Option<Fault> {
    if first_unknown_key(entries) is Some {
        Some(Fault::UnknownKey(first_unknown_key(entries)->0))
    } else if text_fault(entries, "sudo_cmd"@) is Some {
        text_fault(entries, "sudo_cmd"@)
    } else if list_fault(entries, "packages"@) is Some {
        list_fault(entries, "packages"@)
    } else if list_fault(entries, "groups"@) is Some {
        list_fault(entries, "groups"@)
    } else if list_fault(entries, "blacklist"@) is Some {
        list_fault(entries, "blacklist"@)
    } else if override_fault(entries, "installed_packages_cmd"@) is Some {
        override_fault(entries, "installed_packages_cmd"@)
    } else if override_fault(entries, "dependency_packages_cmd"@) is Some {
        override_fault(entries, "dependency_packages_cmd"@)
    } else if override_fault(entries, "explicitly_installed_cmd"@) is Some {
        override_fault(entries, "explicitly_installed_cmd"@)
    } else if override_fault(entries, "explicitly_unrequired_cmd"@) is Some {
        override_fault(entries, "explicitly_unrequired_cmd"@)
    } else if override_fault(entries, "as_explicit_cmd"@) is Some {
        override_fault(entries, "as_explicit_cmd"@)
    } else if override_fault(entries, "install_cmd"@) is Some {
        override_fault(entries, "install_cmd"@)
    } else if override_fault(entries, "as_dependency_cmd"@) is Some {
        override_fault(entries, "as_dependency_cmd"@)
    } else if override_fault(entries, "remove_cmd"@) is Some {
        override_fault(entries, "remove_cmd"@)
    } else if override_fault(entries, "update_cmd"@) is Some {
        override_fault(entries, "update_cmd"@)
    } else if override_fault(entries, "get_orphans_cmd"@) is Some {
        override_fault(entries, "get_orphans_cmd"@)
    } else if override_fault(entries, "get_group_packages_cmd"@) is Some {
        override_fault(entries, "get_group_packages_cmd"@)
    } else {
        None
    }
}

/// The synchronizer that a package table describes.
///
/// The lists are empty where the table gives none. A command is the one that
/// the table gives under the template's name, taken as it stands; where the
/// table gives none, it is the command of pacman, with the word under
/// `sudo_cmd`, or else `sudo`, put before it where it changes the system.
pub open spec fn pacman_settings(entries: Seq<(String, ConfigValue)>) -> SynchronizerView {
    let defaults = default_templates(text_or(entries, "sudo_cmd"@, "sudo"@));
    SynchronizerView {
        packages: list_or(entries, "packages"@, Seq::empty()),
        groups: list_or(entries, "groups"@, Seq::empty()),
        blacklist: list_or(entries, "blacklist"@, Seq::empty()),
        meta: TemplatesView {
            installed_packages_cmd: command_or(entries, "installed_packages_cmd"@, defaults.installed_packages_cmd),
            dependency_packages_cmd: command_or(entries, "dependency_packages_cmd"@, defaults.dependency_packages_cmd),
            explicitly_installed_cmd: command_or(entries, "explicitly_installed_cmd"@, defaults.explicitly_installed_cmd),
            explicitly_unrequired_cmd: command_or(entries, "explicitly_unrequired_cmd"@, defaults.explicitly_unrequired_cmd),
            as_explicit_cmd: command_or(entries, "as_explicit_cmd"@, defaults.as_explicit_cmd),
            install_cmd: command_or(entries, "install_cmd"@, defaults.install_cmd),
            as_dependency_cmd: command_or(entries, "as_dependency_cmd"@, defaults.as_dependency_cmd),
            remove_cmd: command_or(entries, "remove_cmd"@, defaults.remove_cmd),
            update_cmd: command_or(entries, "update_cmd"@, defaults.update_cmd),
            get_orphans_cmd: command_or(entries, "get_orphans_cmd"@, defaults.get_orphans_cmd),
            get_group_packages_cmd: command_or(entries, "get_group_packages_cmd"@, defaults.get_group_packages_cmd),
        },
    }
}

/// `first_unknown_key` finds nothing where every key is known, and else the
/// first key that is not.
proof fn lemma_first_unknown_key(entries: Seq<(String, ConfigValue)>, n: int)
    requires
        0 <= n <= entries.len(),
        forall|j: int| 0 <= j < n ==> is_known_key((#[trigger] entries[j]).0@),
    ensures
        n == entries.len() ==> first_unknown_key(entries) is None,
        n < entries.len() && !is_known_key(entries[n].0@) ==> first_unknown_key(entries) == Some(
            entries[n].0@,
        ),
    decreases n,
{
    if n > 0 {
        let rest = entries.drop_first();
        assert forall|j: int| 0 <= j < n - 1 implies is_known_key((#[trigger] rest[j]).0@) by {
            assert(rest[j] == entries[j + 1]);
        }
        lemma_first_unknown_key(rest, n - 1);
    }
}

/// The list without names.
fn no_names() -> (r: Vec<String>)
    ensures
        r.deep_view() == Seq::<Seq<char>>::empty(),
{
    let r: Vec<String> = Vec::new();
    assert(r.deep_view() =~= Seq::<Seq<char>>::empty());
    r
}

/// Checks that a package table holds known keys only.
fn check_keys(config: &ConfigTable) -> (r: AResult<()>)
    ensures
        match first_unknown_key(config.entries@) {
            Some(key) => r matches Err(e) && e@ == Fault::UnknownKey(key),
            None => r is Ok,
        },
{
    let mut i: usize = 0;
    while i < config.entries.len()
        invariant
            i <= config.entries.len(),
            forall|j: int| 0 <= j < i ==> is_known_key((#[trigger] config.entries@[j]).0@),
        decreases config.entries.len() - i,
    {
        if !known_key(config.entries[i].0.as_str()) {
            proof {
                lemma_first_unknown_key(config.entries@, i as int);
            }
            return Err(SyncError::UnknownKey(config.entries[i].0.clone()));
        }
        i += 1;
    }
    proof {
        lemma_first_unknown_key(config.entries@, i as int);
    }
    Ok(())
}

/// Makes the synchronizer that a package table of the configuration
/// describes.
pub fn new_pacman(config: &ConfigTable) -> (r: AResult<PackageSynchronizer>)
    ensures
        match pacman_fault(config.entries@) {
            Some(fault) => r matches Err(e) && e@ == fault,
            None => r matches Ok(synchronizer) && synchronizer@ == pacman_settings(
                config.entries@,
            ),
        },
{
    match check_keys(config) {
        Ok(_) => {},
        Err(e) => {
            return Err(e);
        },
    }
    let sudo_cmd = match get_text_from_table(config, "sudo_cmd", "sudo".to_owned()) {
        Ok(text) => text,
        Err(e) => {
            return Err(e);
        },
    };
    let packages = match get_list_from_table(config, "packages", no_names()) {
        Ok(list) => list,
        Err(e) => {
            return Err(e);
        },
    };
    let groups = match get_list_from_table(config, "groups", no_names()) {
        Ok(list) => list,
        Err(e) => {
            return Err(e);
        },
    };
    let blacklist = match get_list_from_table(config, "blacklist", no_names()) {
        Ok(list) => list,
        Err(e) => {
            return Err(e);
        },
    };
    let defaults = pacman_templates(sudo_cmd.as_str());
    let installed_packages_cmd = match command_setting(config, "installed_packages_cmd", defaults.installed_packages_cmd) {
        Ok(command) => command,
        Err(e) => {
            return Err(e);
        },
    };
    let dependency_packages_cmd = match command_setting(config, "dependency_packages_cmd", defaults.dependency_packages_cmd) {
        Ok(command) => command,
        Err(e) => {
            return Err(e);
        },
    };
    let explicitly_installed_cmd = match command_setting(config, "explicitly_installed_cmd", defaults.explicitly_installed_cmd) {
        Ok(command) => command,
        Err(e) => {
            return Err(e);
        },
    };
    let explicitly_unrequired_cmd = match command_setting(config, "explicitly_unrequired_cmd", defaults.explicitly_unrequired_cmd) {
        Ok(command) => command,
        Err(e) => {
            return Err(e);
        },
    };
    let as_explicit_cmd = match command_setting(config, "as_explicit_cmd", defaults.as_explicit_cmd) {
        Ok(command) => command,
        Err(e) => {
            return Err(e);
        },
    };
    let install_cmd = match command_setting(config, "install_cmd", defaults.install_cmd) {
        Ok(command) => command,
        Err(e) => {
            return Err(e);
        },
    };
    let as_dependency_cmd = match command_setting(config, "as_dependency_cmd", defaults.as_dependency_cmd) {
        Ok(command) => command,
        Err(e) => {
            return Err(e);
        },
    };
    let remove_cmd = match command_setting(config, "remove_cmd", defaults.remove_cmd) {
        Ok(command) => command,
        Err(e) => {
            return Err(e);
        },
    };
    let update_cmd = match command_setting(config, "update_cmd", defaults.update_cmd) {
        Ok(command) => command,
        Err(e) => {
            return Err(e);
        },
    };
    let get_orphans_cmd = match command_setting(config, "get_orphans_cmd", defaults.get_orphans_cmd) {
        Ok(command) => command,
        Err(e) => {
            return Err(e);
        },
    };
    let get_group_packages_cmd = match command_setting(config, "get_group_packages_cmd", defaults.get_group_packages_cmd) {
        Ok(command) => command,
        Err(e) => {
            return Err(e);
        },
    };
    Ok(
        PackageSynchronizer {
            packages,
            groups,
            blacklist,
            meta: PackageSynchronizerMeta {
            installed_packages_cmd,
            dependency_packages_cmd,
            explicitly_installed_cmd,
            explicitly_unrequired_cmd,
            as_explicit_cmd,
            install_cmd,
            as_dependency_cmd,
            remove_cmd,
            update_cmd,
            get_orphans_cmd,
            get_group_packages_cmd,
            },
        },
    )
}


/// Wraps one element as the one item of a list, in an `Ok`.
#[allow(non_snake_case)]
pub fn SOk<T>(element: T) -> (r: AResult<Vec<T>>)
    ensures
        r matches Ok(list) && list@ == seq![element],
{
    let mut list: Vec<T> = Vec::new();
    list.push(element);
    assert(list@ =~= seq![element]);
    Ok(list)
}

/// The declared packages that are blacklisted too, as the declaration lists
/// them.
pub open spec fn conflicts(synchronizer: SynchronizerView) -> Seq<Seq<char>> {
    in_both(synchronizer.packages, synchronizer.blacklist)
}

/// The names of the declared state: the declared packages and, where groups
/// are declared, the members of the groups, without what is blacklisted.
pub open spec fn declared_names(
    synchronizer: SynchronizerView,
    group_packages: Seq<Seq<char>>,
) -> Set<Seq<char>> {
    let listed = if synchronizer.groups.len() > 0 {
        synchronizer.packages.to_set().union(group_packages.to_set())
    } else {
        synchronizer.packages.to_set()
    };
    listed.difference(synchronizer.blacklist.to_set())
}

/// The declared state: the package set of the declared names.
pub open spec fn declared_state(
    synchronizer: SynchronizerView,
    group_packages: Seq<Seq<char>>,
) -> Seq<Seq<char>> {
    package_set_of(declared_names(synchronizer, group_packages))
}

/// The command that a template and the names for it make.
pub open spec fn command_with(template: Seq<Seq<char>>, names: Seq<Seq<char>>) -> Seq<Seq<char>> {
    template + names
}

/// The commands for a list of names: one command with all the names, and
/// none where there is no name.
pub open spec fn commands_for(template: Seq<Seq<char>>, names: Seq<Seq<char>>) -> Seq<
    Seq<Seq<char>>,
> {
    if names.len() > 0 {
        seq![command_with(template, names)]
    } else {
        Seq::empty()
    }
}

/// The commands before anything else: the update of the system.
pub open spec fn pre_commands(templates: TemplatesView) -> Seq<Seq<Seq<char>>> {
    seq![templates.update_cmd]
}

/// The commands of an up-diff: first what is marked as explicit, then what is
/// installed.
pub open spec fn up_commands(templates: TemplatesView, diff: UpDiffView) -> Seq<Seq<Seq<char>>> {
    commands_for(templates.as_explicit_cmd, diff.to_mark_explicit) + commands_for(
        templates.install_cmd,
        diff.to_install,
    )
}

/// The commands of a down-diff: first what is marked as a dependency, then
/// what is removed.
pub open spec fn down_commands(templates: TemplatesView, diff: DownDiffView) -> Seq<
    Seq<Seq<char>>,
> {
    commands_for(templates.as_dependency_cmd, diff.to_mark_dependency) + commands_for(
        templates.remove_cmd,
        diff.to_remove,
    )
}

/// The commands after everything else: the removal of the orphans.
pub open spec fn post_commands(templates: TemplatesView, orphans: Seq<Seq<char>>) -> Seq<
    Seq<Seq<char>>,
> {
    commands_for(templates.remove_cmd, orphans)
}

/// The command that a template and the names for it make.
pub fn make_command(template: &[String], names: &[String]) -> (r: CommandVector)
    ensures
        r.deep_view() == command_with(template.deep_view(), names.deep_view()),
{
    let r = concat(template, names);
    proof {
        lemma_concat_names(template@, names@, r@);
        assert(r.deep_view() =~= template.deep_view() + names.deep_view());
    }
    r
}

/// Adds the command for a list of names to a list of commands, where there is
/// a name.
fn add_command(commands: &mut Vec<CommandVector>, template: &[String], names: &PackageSet)
    ensures
        final(commands).deep_view() == old(commands).deep_view() + commands_for(
            template.deep_view(),
            names@,
        ),
{
    let ghost before = commands.deep_view();
    if !names.is_empty() {
        let command = make_command(template, names.as_slice());
        commands.push(command);
        assert(commands.deep_view() =~= before + seq![
            command_with(template.deep_view(), names@),
        ]);
    } else {
        assert(commands.deep_view() =~= before + Seq::<Seq<Seq<char>>>::empty());
    }
}

/// A list of commands without commands.
fn no_commands() -> (r: Vec<CommandVector>)
    ensures
        r.deep_view() == Seq::<Seq<Seq<char>>>::empty(),
{
    let r: Vec<CommandVector> = Vec::new();
    assert(r.deep_view() =~= Seq::<Seq<Seq<char>>>::empty());
    r
}

impl PackageSynchronizer {
    /// The command that asks for the members of a package group.
    pub fn group_query_cmd(&self, group: &str) -> (r: CommandVector)
        ensures
            r.deep_view() == self@.meta.get_group_packages_cmd.push(group@),
    {
        let mut r = clone_names(self.meta.get_group_packages_cmd.as_slice());
        let ghost before = r.deep_view();
        r.push(group.to_owned());
        assert(r.deep_view() =~= before.push(group@));
        r
    }

    /// The packages that are declared more than once, for a warning: they
    /// are no error.
    pub fn repeated_packages(&self) -> (r: Vec<String>)
        ensures
            r.deep_view() == repeated_names(self@.packages),
    {
        let mut packages = clone_names(self.packages.as_slice());
        cleanup_reporting_duplicates(&mut packages)
    }

    /// Checks that no declared package is blacklisted. This needs no query,
    /// so it can be done before the first one.
    pub fn check_blacklist(&self) -> (r: AResult<()>)
        ensures
            if conflicts(self@).len() > 0 {
                r matches Err(e) && e@ == Fault::BlacklistConflict(conflicts(self@))
            } else {
                r is Ok
            },
    {
        let mut blacklist = clone_names(self.blacklist.as_slice());
        cleanup_package_list(&mut blacklist);
        proof {
            lemma_package_set_is_sorted(blacklist.deep_view());
            lemma_second_list_as_set(
                self.packages.deep_view(),
                blacklist.deep_view(),
                self.blacklist.deep_view(),
            );
        }
        let found = compare_lists_in_both(self.packages.as_slice(), blacklist.as_slice());
        if found.len() > 0 {
            Err(SyncError::BlacklistConflict(found))
        } else {
            Ok(())
        }
    }

    /// Resolves the declared state from the declaration and the members of
    /// the declared groups.
    ///
    /// A declared package that is blacklisted is an error. Else the state is
    /// the package set of `declared_names`, whatever the order of the lists
    /// and however often they hold a name.
    pub fn calculate_config_state(&self, group_packages: &[String]) -> (r: AResult<PackageSet>)
        ensures
            if conflicts(self@).len() > 0 {
                r matches Err(e) && e@ == Fault::BlacklistConflict(conflicts(self@))
            } else {
                r matches Ok(state) && state@ == declared_state(self@, group_packages.deep_view())
                    && is_package_set(state@) && state@.to_set() == declared_names(
                    self@,
                    group_packages.deep_view(),
                )
            },
    {
        match self.check_blacklist() {
            Ok(_) => {},
            Err(e) => {
                return Err(e);
            },
        }
        let ghost packages = self.packages.deep_view();
        let ghost banned = self.blacklist.deep_view();
        proof {
            lemma_list_operations_as_sets(packages, banned);
            assert(in_both(packages, banned).to_set() =~= Set::<Seq<char>>::empty());
        }
        let mut config_state = clone_names(self.packages.as_slice());
        if self.groups.len() > 0 {
            let mut blacklist = clone_names(self.blacklist.as_slice());
            cleanup_package_list(&mut blacklist);
            config_state = concat(config_state.as_slice(), group_packages);
            proof {
                lemma_concat_names(self.packages@, group_packages@, config_state@);
                let all = packages + group_packages.deep_view();
                assert(config_state.deep_view() =~= all);
                vstd::seq_lib::seq_to_set_distributes_over_add(packages, group_packages.deep_view());
                lemma_package_set_is_sorted(blacklist.deep_view());
                lemma_second_list_as_set(all, blacklist.deep_view(), banned);
                lemma_list_operations_as_sets(all, banned);
            }
            config_state = compare_lists_only_in_first(
                config_state.as_slice(),
                blacklist.as_slice(),
            );
        } else {
            assert(packages.to_set().difference(banned.to_set()) =~= packages.to_set()) by {
                assert forall|x: Seq<char>| packages.to_set().contains(x) implies !banned.to_set().contains(
                x) by {
                    assert(!packages.to_set().intersect(banned.to_set()).contains(x));
                }
            }
        }
        Ok(PackageSet::from_list(config_state))
    }
}

/// Expands a package group from what the query for its members gave: the
/// members without those of the except list. No answer, or an answer without
/// a member, is an error.
pub fn expand_group(members: Option<PackageSet>, except: &PackageSet) -> (r: AResult<PackageSet>)
    ensures
        match members {
            Some(found) => if found@.len() > 0 {
                r matches Ok(group) && group@ == only_in_first(found@, except@)
            } else {
                r matches Err(e) && e@ == Fault::GroupQuery
            },
            None => r matches Err(e) && e@ == Fault::GroupQuery,
        },
{
    match members {
        Some(found) => {
            if found.is_empty() {
                Err(SyncError::GroupQuery)
            } else {
                Ok(found.difference(except))
            }
        },
        None => Err(SyncError::GroupQuery),
    }
}

/// A synchronizer of the configuration of a system: it gives the commands of
/// each phase of a run.
pub trait SystemConfigSynchronizer {
    /// The commands before the first change.
    fn get_pre_cmds(&self) -> AResult<Vec<CommandVector>>;

    /// The commands after the last change, for the orphans that are left.
    fn get_post_cmds(&self, orphans: &PackageSet) -> AResult<Vec<CommandVector>>;

    /// The commands that bring what is declared onto the system.
    fn get_up_cmds(&self, declared: &PackageSet, snapshot: &SystemSnapshot) -> AResult<
        Vec<CommandVector>,
    >;

    /// The commands that take what is not declared from the system.
    fn get_down_cmds(&self, declared: &PackageSet, snapshot: &SystemSnapshot) -> AResult<
        Vec<CommandVector>,
    >;
}

impl SystemConfigSynchronizer for PackageSynchronizer {
    fn get_pre_cmds(&self) -> (r: AResult<Vec<CommandVector>>)
        ensures
            r matches Ok(commands) && commands.deep_view() == pre_commands(self@.meta),
    {
        let command = clone_names(self.meta.update_cmd.as_slice());
        let r = SOk(command);
        proof {
            let commands = r->Ok_0;
            assert(commands.deep_view() =~= seq![self@.meta.update_cmd]);
        }
        r
    }

    fn get_post_cmds(&self, orphans: &PackageSet) -> (r: AResult<Vec<CommandVector>>)
        ensures
            r matches Ok(commands) && commands.deep_view() == post_commands(self@.meta, orphans@),
    {
        let mut cmd_list = no_commands();
        add_command(&mut cmd_list, self.meta.remove_cmd.as_slice(), orphans);
        Ok(cmd_list)
    }

    fn get_up_cmds(&self, declared: &PackageSet, snapshot: &SystemSnapshot) -> (r: AResult<
        Vec<CommandVector>,
    >)
        ensures
            r matches Ok(commands) && commands.deep_view() == up_commands(
                self@.meta,
                up_diff(declared@, snapshot@),
            ),
    {
        let diff = compute_up_diff(declared, snapshot);
        let mut cmd_list = no_commands();
        add_command(&mut cmd_list, self.meta.as_explicit_cmd.as_slice(), &diff.to_mark_explicit);
        add_command(&mut cmd_list, self.meta.install_cmd.as_slice(), &diff.to_install);
        Ok(cmd_list)
    }

    fn get_down_cmds(&self, declared: &PackageSet, snapshot: &SystemSnapshot) -> (r: AResult<
        Vec<CommandVector>,
    >)
        ensures
            r matches Ok(commands) && commands.deep_view() == down_commands(
                self@.meta,
                down_diff(declared@, snapshot@),
            ),
    {
        let diff = compute_down_diff(declared, snapshot);
        let mut cmd_list = no_commands();
        add_command(
            &mut cmd_list,
            self.meta.as_dependency_cmd.as_slice(),
            &diff.to_mark_dependency,
        );
        add_command(&mut cmd_list, self.meta.remove_cmd.as_slice(), &diff.to_remove);
        Ok(cmd_list)
    }
}


/// The declared state does not depend on the order in which the packages, the
/// blacklist and the members of the groups are listed, nor on how often a
/// name is listed: declarations that list the same names resolve to the same
/// state.
pub proof fn lemma_declared_state_ignores_order(
    a: SynchronizerView,
    b: SynchronizerView,
    members_a: Seq<Seq<char>>,
    members_b: Seq<Seq<char>>,
)
    requires
        a.packages.to_set() == b.packages.to_set(),
        a.blacklist.to_set() == b.blacklist.to_set(),
        a.groups.len() > 0 <==> b.groups.len() > 0,
        members_a.to_set() == members_b.to_set(),
    ensures
        declared_state(a, members_a) == declared_state(b, members_b),
        conflicts(a).len() > 0 <==> conflicts(b).len() > 0,
{
    lemma_list_operations_as_sets(a.packages, a.blacklist);
    lemma_list_operations_as_sets(b.packages, b.blacklist);
    let ca = conflicts(a);
    let cb = conflicts(b);
    if ca.len() > 0 {
        assert(ca.contains(ca[0]));
        assert(ca.to_set().contains(ca[0]));
        assert(cb.to_set().contains(ca[0]));
    }
    if cb.len() > 0 {
        assert(cb.contains(cb[0]));
        assert(cb.to_set().contains(cb[0]));
        assert(ca.to_set().contains(cb[0]));
    }
}

/// An empty diff field gives no command: each of the four fields gives one
/// command where it holds a name, and none where it holds none; so do the
/// orphans. A command that is given names at least one package.
pub proof fn lemma_empty_field_gives_no_command(
    templates: TemplatesView,
    up: UpDiffView,
    down: DownDiffView,
    orphans: Seq<Seq<char>>,
)
    ensures
        up_commands(templates, up).len() == (if up.to_mark_explicit.len() > 0 {
            1int
        } else {
            0int
        }) + (if up.to_install.len() > 0 {
            1int
        } else {
            0int
        }),
        down_commands(templates, down).len() == (if down.to_mark_dependency.len() > 0 {
            1int
        } else {
            0int
        }) + (if down.to_remove.len() > 0 {
            1int
        } else {
            0int
        }),
        post_commands(templates, orphans).len() == (if orphans.len() > 0 {
            1int
        } else {
            0int
        }),
        up.to_mark_explicit.len() == 0 ==> up_commands(templates, up) == commands_for(
            templates.install_cmd,
            up.to_install,
        ),
        up.to_install.len() == 0 ==> up_commands(templates, up) == commands_for(
            templates.as_explicit_cmd,
            up.to_mark_explicit,
        ),
        down.to_mark_dependency.len() == 0 ==> down_commands(templates, down) == commands_for(
            templates.remove_cmd,
            down.to_remove,
        ),
        down.to_remove.len() == 0 ==> down_commands(templates, down) == commands_for(
            templates.as_dependency_cmd,
            down.to_mark_dependency,
        ),
{
    let mark = commands_for(templates.as_explicit_cmd, up.to_mark_explicit);
    let install = commands_for(templates.install_cmd, up.to_install);
    let demote = commands_for(templates.as_dependency_cmd, down.to_mark_dependency);
    let remove = commands_for(templates.remove_cmd, down.to_remove);
    assert(up.to_mark_explicit.len() == 0 ==> mark + install =~= install);
    assert(up.to_install.len() == 0 ==> mark + install =~= mark);
    assert(down.to_mark_dependency.len() == 0 ==> demote + remove =~= remove);
    assert(down.to_remove.len() == 0 ==> demote + remove =~= demote);
}

/// What is wrong with a document, if anything: it holds no configuration
/// table, or its first one is at fault.
pub open spec fn document_fault(document: ConfigTable) -> Option<Fault> {
    if config_tables(document).len() == 0 {
        Some(Fault::MissingConfiguration)
    } else {
        pacman_fault(config_tables(document)[0].entries@)
    }
}

/// The synchronizer that a document describes: that of its first
/// configuration table.
pub open spec fn document_settings(document: ConfigTable) -> SynchronizerView {
    pacman_settings(config_tables(document)[0].entries@)
}

/// Makes the synchronizer that the first configuration table of a document
/// describes.
pub fn synchronizer_from_document(document: ConfigTable) -> (r: AResult<PackageSynchronizer>)
    ensures
        match document_fault(document) {
            Some(fault) => r matches Err(e) && e@ == fault,
            None => r matches Ok(synchronizer) && synchronizer@ == document_settings(document),
        },
{
    let tables = find_config_tables(document);
    if tables.len() == 0 {
        Err(SyncError::MissingConfiguration)
    } else {
        new_pacman(&tables[0])
    }
}

/// Makes the synchronizer that a configuration text describes.
///
/// What the TOML parser makes of the text has the name `toml_document`; from
/// the document on, the result is that of `synchronizer_from_document`.
pub fn load_synchronizer(text: &str) -> (r: AResult<PackageSynchronizer>)
    ensures
        match toml_document(text@) {
            Some(ConfigValue::Table(document)) => match document_fault(document) {
                Some(fault) => r matches Err(e) && e@ == fault,
                None => r matches Ok(synchronizer) && synchronizer@ == document_settings(
                    document,
                ),
            },
            _ => r matches Err(e) && e@ is Parse,
        },
{
    match parse_config(text) {
        Ok(document) => synchronizer_from_document(document),
        Err(e) => Err(e),
    }
}

} // verus!
