//! The state of the system as the queries give it, and what sets it apart
//! from the declared state.

use crate::names::{
    in_both, is_package_set, lemma_list_operations_as_sets, only_in_first, package_set_of,
    PackageSet,
};
use crate::text::{names_in_output, output_names};
use vstd::prelude::*;

verus! {

/// The package set that the output of a query lists.
pub open spec fn listed_packages(output: Seq<char>) -> Seq<Seq<char>> {
    package_set_of(output_names(output).to_set())
}

/// Reads the package set that the output of a query lists: one name on each
/// line that is not blank, without the white space around it.
pub fn packages_from_output(output: &str) -> (r: PackageSet)
    ensures
        r@ == listed_packages(output@),
        is_package_set(r@),
        r@.to_set() == output_names(output@).to_set(),
{
    PackageSet::from_list(names_in_output(output))
}

/// The state of the system at the start of a run.
#[derive(Debug)]
pub struct SystemSnapshot {
    /// All installed packages.
    pub installed: PackageSet,
    /// The packages installed as dependencies.
    pub dependency_installed: PackageSet,
    /// The packages installed explicitly.
    pub explicitly_installed: PackageSet,
    /// The packages installed explicitly that no package requires.
    pub explicitly_unrequired: PackageSet,
}

/// The model of a snapshot.
pub struct SnapshotView {
    pub installed: Seq<Seq<char>>,
    pub dependency_installed: Seq<Seq<char>>,
    pub explicitly_installed: Seq<Seq<char>>,
    pub explicitly_unrequired: Seq<Seq<char>>,
}

impl View for SystemSnapshot {
    type V = SnapshotView;

    open spec fn view(&self) -> SnapshotView {
        SnapshotView {
            installed: self.installed@,
            dependency_installed: self.dependency_installed@,
            explicitly_installed: self.explicitly_installed@,
            explicitly_unrequired: self.explicitly_unrequired@,
        }
    }
}

/// What has to be done to the system for the declared packages.
#[derive(Debug)]
pub struct UpDiff {
    /// The declared packages that are not installed.
    pub to_install: PackageSet,
    /// The declared packages that are installed as dependencies only.
    pub to_mark_explicit: PackageSet,
}

/// The model of an up-diff.
pub struct UpDiffView {
    pub to_install: Seq<Seq<char>>,
    pub to_mark_explicit: Seq<Seq<char>>,
}

impl View for UpDiff {
    type V = UpDiffView;

    open spec fn view(&self) -> UpDiffView {
        UpDiffView { to_install: self.to_install@, to_mark_explicit: self.to_mark_explicit@ }
    }
}

/// What has to be done to the system for the packages that are not declared.
#[derive(Debug)]
pub struct DownDiff {
    /// The explicit packages that nothing requires and that are not declared.
    pub to_remove: PackageSet,
    /// The explicit packages that something requires and that are not
    /// declared.
    pub to_mark_dependency: PackageSet,
}

/// The model of a down-diff.
pub struct DownDiffView {
    pub to_remove: Seq<Seq<char>>,
    pub to_mark_dependency: Seq<Seq<char>>,
}

impl View for DownDiff {
    type V = DownDiffView;

    open spec fn view(&self) -> DownDiffView {
        DownDiffView { to_remove: self.to_remove@, to_mark_dependency: self.to_mark_dependency@ }
    }
}

/// The up-diff of a declared state and a snapshot.
pub open spec fn up_diff(declared: Seq<Seq<char>>, snapshot: SnapshotView) -> UpDiffView {
    UpDiffView {
        to_install: only_in_first(declared, snapshot.installed),
        to_mark_explicit: in_both(declared, snapshot.dependency_installed),
    }
}

/// The explicit packages that some package requires.
pub open spec fn explicitly_required(snapshot: SnapshotView) -> Seq<Seq<char>> {
    only_in_first(snapshot.explicitly_installed, snapshot.explicitly_unrequired)
}

/// The down-diff of a declared state and a snapshot.
pub open spec fn down_diff(declared: Seq<Seq<char>>, snapshot: SnapshotView) -> DownDiffView {
    DownDiffView {
        to_remove: only_in_first(snapshot.explicitly_unrequired, declared),
        to_mark_dependency: only_in_first(explicitly_required(snapshot), declared),
    }
}

impl SystemSnapshot {
    /// The snapshot that the outputs of the four queries give.
    pub fn from_outputs(
        installed: &str,
        dependency_installed: &str,
        explicitly_installed: &str,
        explicitly_unrequired: &str,
    ) -> (r: SystemSnapshot)
        ensures
            r@.installed == listed_packages(installed@),
            r@.dependency_installed == listed_packages(dependency_installed@),
            r@.explicitly_installed == listed_packages(explicitly_installed@),
            r@.explicitly_unrequired == listed_packages(explicitly_unrequired@),
    {
        SystemSnapshot {
            installed: packages_from_output(installed),
            dependency_installed: packages_from_output(dependency_installed),
            explicitly_installed: packages_from_output(explicitly_installed),
            explicitly_unrequired: packages_from_output(explicitly_unrequired),
        }
    }
}

/// Computes what has to be installed and what has to be marked as explicit.
pub fn compute_up_diff(declared: &PackageSet, snapshot: &SystemSnapshot) -> (r: UpDiff)
    ensures
        r@ == up_diff(declared@, snapshot@),
{
    UpDiff {
        to_install: declared.difference(&snapshot.installed),
        to_mark_explicit: declared.intersection(&snapshot.dependency_installed),
    }
}

/// Computes what has to be removed and what has to be marked as a dependency.
pub fn compute_down_diff(declared: &PackageSet, snapshot: &SystemSnapshot) -> (r: DownDiff)
    ensures
        r@ == down_diff(declared@, snapshot@),
{
    let required = snapshot.explicitly_installed.difference(&snapshot.explicitly_unrequired);
    DownDiff {
        to_remove: snapshot.explicitly_unrequired.difference(declared),
        to_mark_dependency: required.difference(declared),
    }
}

/// A list is empty exactly where it holds no name.
proof fn lemma_empty_list(s: Seq<Seq<char>>)
    ensures
        s.len() == 0 <==> s.to_set() == Set::<Seq<char>>::empty(),
{
    if s.len() > 0 {
        assert(s.contains(s[0]));
        assert(s.to_set().contains(s[0]));
    } else {
        assert(s.to_set() =~= Set::<Seq<char>>::empty());
    }
}

/// The diffs as sets: what is to be installed is what is declared and not
/// installed, and so on.
pub proof fn lemma_diffs_as_sets(declared: Seq<Seq<char>>, snapshot: SnapshotView)
    ensures
        up_diff(declared, snapshot).to_install.to_set() == declared.to_set().difference(
            snapshot.installed.to_set(),
        ),
        up_diff(declared, snapshot).to_mark_explicit.to_set() == declared.to_set().intersect(
            snapshot.dependency_installed.to_set(),
        ),
        down_diff(declared, snapshot).to_remove.to_set()
            == snapshot.explicitly_unrequired.to_set().difference(declared.to_set()),
        down_diff(declared, snapshot).to_mark_dependency.to_set()
            == snapshot.explicitly_installed.to_set().difference(
            snapshot.explicitly_unrequired.to_set(),
        ).difference(declared.to_set()),
{
    lemma_list_operations_as_sets(declared, snapshot.installed);
    lemma_list_operations_as_sets(declared, snapshot.dependency_installed);
    lemma_list_operations_as_sets(snapshot.explicitly_unrequired, declared);
    lemma_list_operations_as_sets(snapshot.explicitly_installed, snapshot.explicitly_unrequired);
    lemma_list_operations_as_sets(explicitly_required(snapshot), declared);
}

/// Nothing is left to do.
pub open spec fn nothing_to_do(declared: Seq<Seq<char>>, snapshot: SnapshotView) -> bool {
    &&& up_diff(declared, snapshot).to_install.len() == 0
    &&& up_diff(declared, snapshot).to_mark_explicit.len() == 0
    &&& down_diff(declared, snapshot).to_remove.len() == 0
    &&& down_diff(declared, snapshot).to_mark_dependency.len() == 0
}

/// The system is in the declared state: every declared package is installed
/// and none of them as a dependency only, and every explicit package is
/// declared.
pub open spec fn is_converged(declared: Seq<Seq<char>>, snapshot: SnapshotView) -> bool {
    &&& declared.to_set().subset_of(snapshot.installed.to_set())
    &&& declared.to_set().disjoint(snapshot.dependency_installed.to_set())
    &&& snapshot.explicitly_unrequired.to_set().subset_of(declared.to_set())
    &&& snapshot.explicitly_installed.to_set().subset_of(
        declared.to_set().union(snapshot.explicitly_unrequired.to_set()),
    )
}

/// The diffs are empty exactly where the system is in the declared state.
pub proof fn lemma_nothing_to_do_iff_converged(declared: Seq<Seq<char>>, snapshot: SnapshotView)
    ensures
        nothing_to_do(declared, snapshot) <==> is_converged(declared, snapshot),
{
    let up = up_diff(declared, snapshot);
    let down = down_diff(declared, snapshot);
    lemma_diffs_as_sets(declared, snapshot);
    lemma_empty_list(up.to_install);
    lemma_empty_list(up.to_mark_explicit);
    lemma_empty_list(down.to_remove);
    lemma_empty_list(down.to_mark_dependency);
    let d = declared.to_set();
    if is_converged(declared, snapshot) {
        assert(d.difference(snapshot.installed.to_set()) =~= Set::<Seq<char>>::empty());
        assert(d.intersect(snapshot.dependency_installed.to_set()) =~= Set::<Seq<char>>::empty());
        assert(snapshot.explicitly_unrequired.to_set().difference(d) =~= Set::<
            Seq<char>,
        >::empty());
        assert(snapshot.explicitly_installed.to_set().difference(
            snapshot.explicitly_unrequired.to_set(),
        ).difference(d) =~= Set::<Seq<char>>::empty());
    }
    if nothing_to_do(declared, snapshot) {
        assert forall|x: Seq<char>| d.contains(x) implies snapshot.installed.to_set().contains(
            x,
        ) by {
            assert(!d.difference(snapshot.installed.to_set()).contains(x));
        }
        assert forall|x: Seq<char>| d.contains(x) implies !snapshot.dependency_installed.to_set().contains(
        x) by {
            assert(!d.intersect(snapshot.dependency_installed.to_set()).contains(x));
        }
        assert forall|x: Seq<char>|
            snapshot.explicitly_unrequired.to_set().contains(x) implies d.contains(x) by {
            assert(!snapshot.explicitly_unrequired.to_set().difference(d).contains(x));
        }
        assert forall|x: Seq<char>|
            snapshot.explicitly_installed.to_set().contains(x) implies d.union(
            snapshot.explicitly_unrequired.to_set(),
        ).contains(x) by {
            assert(!snapshot.explicitly_installed.to_set().difference(
                snapshot.explicitly_unrequired.to_set(),
            ).difference(d).contains(x));
        }
    }
}

/// The state `after` is what a run leaves of the state `before`, where each
/// command does to the packages that it names what it is for and touches no
/// other package: what was to be installed is installed, explicitly; what was
/// to be marked is marked; what was to be removed is gone. Which of the
/// explicit packages nothing requires is the package manager's to say.
pub open spec fn is_left_by_run(
    declared: Seq<Seq<char>>,
    before: SnapshotView,
    after: SnapshotView,
) -> bool {
    let up = up_diff(declared, before);
    let down = down_diff(declared, before);
    &&& after.installed.to_set() == before.installed.to_set().union(
        up.to_install.to_set(),
    ).difference(down.to_remove.to_set())
    &&& after.dependency_installed.to_set() == before.dependency_installed.to_set().difference(
        up.to_mark_explicit.to_set(),
    ).union(down.to_mark_dependency.to_set()).difference(down.to_remove.to_set())
    &&& after.explicitly_installed.to_set() == before.explicitly_installed.to_set().union(
        up.to_install.to_set(),
    ).union(up.to_mark_explicit.to_set()).difference(down.to_mark_dependency.to_set()).difference(
        down.to_remove.to_set(),
    )
    &&& after.explicitly_unrequired.to_set().subset_of(after.explicitly_installed.to_set())
}

/// A second run finds nothing to do: in the state that a run leaves, both
/// diffs of the same declared state are empty.
pub proof fn lemma_second_run_finds_nothing(
    declared: Seq<Seq<char>>,
    before: SnapshotView,
    after: SnapshotView,
)
    requires
        is_left_by_run(declared, before, after),
    ensures
        nothing_to_do(declared, after),
{
    lemma_diffs_as_sets(declared, before);
    lemma_nothing_to_do_iff_converged(declared, after);
    let d = declared.to_set();
    let up = up_diff(declared, before);
    let down = down_diff(declared, before);
    assert forall|x: Seq<char>| d.contains(x) implies after.installed.to_set().contains(x) by {
        if !before.installed.to_set().contains(x) {
            assert(up.to_install.to_set().contains(x));
        }
    }
    assert forall|x: Seq<char>| d.contains(x) implies !after.dependency_installed.to_set().contains(
    x) by {
        if before.dependency_installed.to_set().contains(x) {
            assert(up.to_mark_explicit.to_set().contains(x));
        }
    }
    assert forall|x: Seq<char>| after.explicitly_installed.to_set().contains(x) implies d.contains(
        x,
    ) by {
        if !d.contains(x) {
            assert(before.explicitly_installed.to_set().contains(x));
            if before.explicitly_unrequired.to_set().contains(x) {
                assert(down.to_remove.to_set().contains(x));
            } else {
                assert(down.to_mark_dependency.to_set().contains(x));
            }
        }
    }
}

} // verus!
