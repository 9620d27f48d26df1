//! A run of the reconciliation as a state machine.
//!
//! The library decides what is done next; its user does it and reports what
//! came of it. A run resolves the declared state, takes the snapshot of the
//! system, and then applies, in this order, the update of the system, the
//! up-diff, the down-diff and the removal of the orphans. The first failure
//! ends the run. In a dry run every command is shown and none is run.

use crate::config::{lookup, parse_config, toml_document, ConfigTable, ConfigValue};
use crate::diff::{
    down_diff, listed_packages, nothing_to_do, packages_from_output, up_diff, SnapshotView,
    SystemSnapshot,
};
use crate::error::{Fault, SyncError};
use crate::global_config::{global_settings, GlobalConfig};
use crate::names::{clone_names, concat, lemma_concat_names, PackageSet};
use crate::package_synchronizer::{
    conflicts, declared_state, document_fault, document_settings, down_commands, post_commands,
    pre_commands, synchronizer_from_document, up_commands, PackageSynchronizer, SynchronizerView,
    SystemConfigSynchronizer,
};
use crate::{AResult, CommandVector};
use vstd::prelude::*;

verus! {

/// Where a run stands: what it waits for.
#[derive(Clone, Copy, Debug, PartialEq, Eq, Structural)]
pub enum Stage {
    /// Nothing has been done yet.
    Start,
    /// The members of the group with this index are being asked for.
    Groups(usize),
    /// The installed packages are being asked for.
    Installed,
    /// The packages installed as dependencies are being asked for.
    Dependency,
    /// The packages installed explicitly are being asked for.
    Explicit,
    /// The explicit packages that nothing requires are being asked for.
    Unrequired,
    /// The command with this index is being applied.
    Apply(usize),
    /// The orphans are being asked for.
    Orphans,
    /// The orphans are being removed.
    Post,
    /// The run is over.
    Finished,
}

/// What the user of a run does next.
#[derive(Debug, PartialEq, Eq)]
pub enum Action {
    /// Run the command as a query, and report its output or its failure.
    Query(CommandVector),
    /// Run the command, and report that it is done or that it failed.
    Run(CommandVector),
    /// Show the command without running it, and report that this is done.
    Show(CommandVector),
    /// Stop: the run is over, with this result.
    Finish(AResult<()>),
}

/// The model of an action.
pub enum ActionView {
    Query(Seq<Seq<char>>),
    Run(Seq<Seq<char>>),
    Show(Seq<Seq<char>>),
    Finish(Option<Fault>),
}

impl View for Action {
    type V = ActionView;

    open spec fn view(&self) -> ActionView {
        match *self {
            Action::Query(command) => ActionView::Query(command.deep_view()),
            Action::Run(command) => ActionView::Run(command.deep_view()),
            Action::Show(command) => ActionView::Show(command.deep_view()),
            Action::Finish(result) => ActionView::Finish(
                match result {
                    Ok(_) => None,
                    Err(e) => Some(e@),
                },
            ),
        }
    }
}

/// What came of the last action.
#[derive(Debug, PartialEq, Eq)]
pub enum Event {
    /// Nothing yet: the run starts.
    Start,
    /// The query gave this output.
    Output(String),
    /// The command was run, or shown, without failure.
    Done,
    /// The query or the command failed.
    Failed,
}

/// The model of an event.
pub enum EventView {
    Start,
    Output(Seq<char>),
    Done,
    Failed,
}

impl View for Event {
    type V = EventView;

    open spec fn view(&self) -> EventView {
        match *self {
            Event::Start => EventView::Start,
            Event::Output(text) => EventView::Output(text@),
            Event::Done => EventView::Done,
            Event::Failed => EventView::Failed,
        }
    }
}

/// A run of the reconciliation.
#[derive(Debug)]
pub struct SyncRun {
    /// What is declared, and the commands of the package manager.
    pub synchronizer: PackageSynchronizer,
    /// Commands are shown and not run.
    pub dry_run: bool,
    /// What the run waits for.
    pub stage: Stage,
    /// The members of the groups asked so far.
    pub group_packages: Vec<String>,
    /// The declared state, once it is resolved.
    pub declared: PackageSet,
    /// The snapshot of the system, as far as it is taken.
    pub snapshot: SystemSnapshot,
    /// The commands of the update, the up-diff and the down-diff, once the
    /// snapshot is taken.
    pub commands: Vec<CommandVector>,
    /// The error that ended the run, if one did.
    pub failure: Option<SyncError>,
}

/// The model of a run.
pub struct RunView {
    pub synchronizer: SynchronizerView,
    pub dry_run: bool,
    pub stage: Stage,
    pub group_packages: Seq<Seq<char>>,
    pub declared: Seq<Seq<char>>,
    pub snapshot: SnapshotView,
    pub commands: Seq<Seq<Seq<char>>>,
    pub failure: Option<Fault>,
}

impl View for SyncRun {
    type V = RunView;

    open spec fn view(&self) -> RunView {
        RunView {
            synchronizer: self.synchronizer@,
            dry_run: self.dry_run,
            stage: self.stage,
            group_packages: self.group_packages.deep_view(),
            declared: self.declared@,
            snapshot: self.snapshot@,
            commands: self.commands.deep_view(),
            failure: match self.failure {
                Some(e) => Some(e@),
                None => None,
            },
        }
    }
}

/// The run ends, with the given error or without one.
pub open spec fn finish(run: RunView, failure: Option<Fault>) -> (RunView, ActionView) {
    (RunView { stage: Stage::Finished, failure, ..run }, ActionView::Finish(failure))
}

/// The run asks a query and waits for its answer.
pub open spec fn ask(run: RunView, stage: Stage, query: Seq<Seq<char>>) -> (RunView, ActionView) {
    (RunView { stage, ..run }, ActionView::Query(query))
}

/// What is done with a command: it is run, or in a dry run shown.
pub open spec fn apply(dry_run: bool, command: Seq<Seq<char>>) -> ActionView {
    if dry_run {
        ActionView::Show(command)
    } else {
        ActionView::Run(command)
    }
}

/// The query for the members of the group with the given index.
pub open spec fn group_query(run: RunView, index: int) -> Seq<Seq<char>> {
    run.synchronizer.meta.get_group_packages_cmd.push(run.synchronizer.groups[index])
}

/// The groups are expanded: the declared state is resolved, and the snapshot
/// begins. A declared package that is blacklisted ends the run.
pub open spec fn resolve(run: RunView) -> (RunView, ActionView) {
    if conflicts(run.synchronizer).len() > 0 {
        finish(run, Some(Fault::BlacklistConflict(conflicts(run.synchronizer))))
    } else {
        ask(
            RunView { declared: declared_state(run.synchronizer, run.group_packages), ..run },
            Stage::Installed,
            run.synchronizer.meta.installed_packages_cmd,
        )
    }
}

/// The run begins: a declared package that is blacklisted ends it before any
/// query; else the first group is asked for, or without groups the declared
/// state is resolved.
pub open spec fn begin(run: RunView) -> (RunView, ActionView) {
    if conflicts(run.synchronizer).len() > 0 {
        finish(run, Some(Fault::BlacklistConflict(conflicts(run.synchronizer))))
    } else if run.synchronizer.groups.len() > 0 {
        ask(RunView { group_packages: Seq::empty(), ..run }, Stage::Groups(0), group_query(run, 0))
    } else {
        resolve(RunView { group_packages: Seq::empty(), ..run })
    }
}

/// The members of a group have come: a group without members ends the run;
/// else the next group is asked for, or after the last the declared state is
/// resolved.
pub open spec fn groups_answered(run: RunView, index: usize, output: Seq<char>) -> (
    RunView,
    ActionView,
) {
    let members = listed_packages(output);
    if members.len() == 0 {
        finish(run, Some(Fault::GroupQuery))
    } else {
        let next = RunView { group_packages: run.group_packages + members, ..run };
        if index + 1 < run.synchronizer.groups.len() {
            ask(next, Stage::Groups((index + 1) as usize), group_query(run, index + 1))
        } else {
            resolve(next)
        }
    }
}

/// The command with the given index is applied, or after the last the
/// orphans are asked for.
pub open spec fn next_command(run: RunView, index: usize) -> (RunView, ActionView) {
    if index < run.commands.len() {
        (RunView { stage: Stage::Apply(index), ..run }, apply(run.dry_run, run.commands[index as int]))
    } else {
        ask(run, Stage::Orphans, run.synchronizer.meta.get_orphans_cmd)
    }
}

/// The commands of a run, in the order in which they are applied: the update
/// of the system, the up-diff, the down-diff. Both diffs are those of the one
/// snapshot.
pub open spec fn planned_commands(run: RunView) -> Seq<Seq<Seq<char>>> {
    pre_commands(run.synchronizer.meta) + up_commands(
        run.synchronizer.meta,
        up_diff(run.declared, run.snapshot),
    ) + down_commands(run.synchronizer.meta, down_diff(run.declared, run.snapshot))
}

/// The snapshot is taken: the commands are planned and the first is applied.
pub open spec fn plan(run: RunView) -> (RunView, ActionView) {
    next_command(RunView { commands: planned_commands(run), ..run }, 0)
}

/// The orphans have come: they are removed with one command, and without
/// orphans the run ends.
pub open spec fn orphans_answered(run: RunView, output: Seq<char>) -> (RunView, ActionView) {
    let orphans = listed_packages(output);
    let commands = post_commands(run.synchronizer.meta, orphans);
    if commands.len() > 0 {
        (RunView { stage: Stage::Post, ..run }, apply(run.dry_run, commands[0]))
    } else {
        finish(run, None)
    }
}

/// The command that was applied failed. In a dry run nothing is run, so
/// nothing fails.
pub open spec fn command_failed(run: RunView, event: EventView) -> bool {
    event is Failed && !run.dry_run
}

/// One step of a run: the state after the event, and what is done next.
///
/// A query that gives no output has failed. A command has failed where its
/// failure is reported, but in a dry run. A failure ends the run. Once the
/// run is over, it stays so.
pub open spec fn step_of(run: RunView, event: EventView) -> (RunView, ActionView) {
    match run.stage {
        Stage::Start => begin(run),
        Stage::Groups(index) => match event {
            EventView::Output(output) => groups_answered(run, index, output),
            _ => finish(run, Some(Fault::GroupQuery)),
        },
        Stage::Installed => match event {
            EventView::Output(output) => ask(
                RunView {
                    snapshot: SnapshotView { installed: listed_packages(output), ..run.snapshot },
                    ..run
                },
                Stage::Dependency,
                run.synchronizer.meta.dependency_packages_cmd,
            ),
            _ => finish(run, Some(Fault::QueryCommand)),
        },
        Stage::Dependency => match event {
            EventView::Output(output) => ask(
                RunView {
                    snapshot: SnapshotView {
                        dependency_installed: listed_packages(output),
                        ..run.snapshot
                    },
                    ..run
                },
                Stage::Explicit,
                run.synchronizer.meta.explicitly_installed_cmd,
            ),
            _ => finish(run, Some(Fault::QueryCommand)),
        },
        Stage::Explicit => match event {
            EventView::Output(output) => ask(
                RunView {
                    snapshot: SnapshotView {
                        explicitly_installed: listed_packages(output),
                        ..run.snapshot
                    },
                    ..run
                },
                Stage::Unrequired,
                run.synchronizer.meta.explicitly_unrequired_cmd,
            ),
            _ => finish(run, Some(Fault::QueryCommand)),
        },
        Stage::Unrequired => match event {
            EventView::Output(output) => plan(
                RunView {
                    snapshot: SnapshotView {
                        explicitly_unrequired: listed_packages(output),
                        ..run.snapshot
                    },
                    ..run
                },
            ),
            _ => finish(run, Some(Fault::QueryCommand)),
        },
        Stage::Apply(index) => if command_failed(run, event) {
            finish(run, Some(Fault::CommandFailure))
        } else if index < run.commands.len() {
            next_command(run, (index + 1) as usize)
        } else {
            next_command(run, index)
        },
        Stage::Orphans => match event {
            EventView::Output(output) => orphans_answered(run, output),
            _ => finish(run, Some(Fault::QueryCommand)),
        },
        Stage::Post => if command_failed(run, event) {
            finish(run, Some(Fault::CommandFailure))
        } else {
            finish(run, None)
        },
        Stage::Finished => (run, ActionView::Finish(run.failure)),
    }
}


/// The state of a run before its first step.
pub open spec fn initial(synchronizer: SynchronizerView, dry_run: bool) -> RunView {
    RunView {
        synchronizer,
        dry_run,
        stage: Stage::Start,
        group_packages: Seq::empty(),
        declared: Seq::empty(),
        snapshot: SnapshotView {
            installed: Seq::empty(),
            dependency_installed: Seq::empty(),
            explicitly_installed: Seq::empty(),
            explicitly_unrequired: Seq::empty(),
        },
        commands: Seq::empty(),
        failure: None,
    }
}

/// The value of a result that is known to be `Ok`.
fn sure<T>(result: AResult<T>) -> (r: T)
    requires
        result is Ok,
    ensures
        result == Ok::<T, SyncError>(r),
{
    match result {
        Ok(value) => value,
        Err(_) => vstd::pervasive::unreached(),
    }
}

impl SyncRun {
    /// A run that has not begun.
    pub fn new(synchronizer: PackageSynchronizer, dry_run: bool) -> (r: SyncRun)
        ensures
            r@ == initial(synchronizer@, dry_run),
    {
        let group_packages: Vec<String> = Vec::new();
        let commands: Vec<CommandVector> = Vec::new();
        assert(group_packages.deep_view() =~= Seq::<Seq<char>>::empty());
        assert(commands.deep_view() =~= Seq::<Seq<Seq<char>>>::empty());
        SyncRun {
            synchronizer,
            dry_run,
            stage: Stage::Start,
            group_packages,
            declared: PackageSet::new(),
            snapshot: SystemSnapshot {
                installed: PackageSet::new(),
                dependency_installed: PackageSet::new(),
                explicitly_installed: PackageSet::new(),
                explicitly_unrequired: PackageSet::new(),
            },
            commands,
            failure: None,
        }
    }

    /// Tells whether the run is over.
    pub fn is_finished(&self) -> (r: bool)
        ensures
            r == (self@.stage == Stage::Finished),
    {
        match self.stage {
            Stage::Finished => true,
            _ => false,
        }
    }

    fn finish(&mut self, failure: Option<SyncError>) -> (action: Action)
        ensures
            (final(self)@, action@) == finish(
                old(self)@,
                match failure {
                    Some(e) => Some(e@),
                    None => None,
                },
            ),
    {
        let result = match &failure {
            Some(e) => Err(e.duplicate()),
            None => Ok(()),
        };
        self.stage = Stage::Finished;
        self.failure = failure;
        Action::Finish(result)
    }

    fn ask(&mut self, stage: Stage, query: CommandVector) -> (action: Action)
        ensures
            (final(self)@, action@) == ask(old(self)@, stage, query.deep_view()),
    {
        self.stage = stage;
        Action::Query(query)
    }

    fn apply(&self, command: &CommandVector) -> (action: Action)
        ensures
            action@ == apply(self@.dry_run, command.deep_view()),
    {
        if self.dry_run {
            Action::Show(clone_names(command.as_slice()))
        } else {
            Action::Run(clone_names(command.as_slice()))
        }
    }

    fn resolve(&mut self) -> (action: Action)
        ensures
            (final(self)@, action@) == resolve(old(self)@),
    {
        match self.synchronizer.calculate_config_state(self.group_packages.as_slice()) {
            Err(e) => self.finish(Some(e)),
            Ok(state) => {
                self.declared = state;
                let query = clone_names(self.synchronizer.meta.installed_packages_cmd.as_slice());
                self.ask(Stage::Installed, query)
            },
        }
    }

    fn begin(&mut self) -> (action: Action)
        ensures
            (final(self)@, action@) == begin(old(self)@),
    {
        match self.synchronizer.check_blacklist() {
            Err(e) => self.finish(Some(e)),
            Ok(_) => {
                self.group_packages = Vec::new();
                assert(self.group_packages.deep_view() =~= Seq::<Seq<char>>::empty());
                if self.synchronizer.groups.len() > 0 {
                    let query = self.synchronizer.group_query_cmd(
                        self.synchronizer.groups[0].as_str(),
                    );
                    self.ask(Stage::Groups(0), query)
                } else {
                    self.resolve()
                }
            },
        }
    }

    fn groups_answered(&mut self, index: usize, output: &str) -> (action: Action)
        ensures
            (final(self)@, action@) == groups_answered(old(self)@, index, output@),
    {
        let members = packages_from_output(output);
        if members.is_empty() {
            self.finish(Some(SyncError::GroupQuery))
        } else {
            let found = members.as_slice();
            let all = concat(self.group_packages.as_slice(), found);
            proof {
                lemma_concat_names(self.group_packages@, found@, all@);
                assert(all.deep_view() =~= self.group_packages.deep_view() + members@);
            }
            self.group_packages = all;
            if index < self.synchronizer.groups.len() && index + 1
                < self.synchronizer.groups.len() {
                let query = self.synchronizer.group_query_cmd(
                    self.synchronizer.groups[index + 1].as_str(),
                );
                self.ask(Stage::Groups(index + 1), query)
            } else {
                self.resolve()
            }
        }
    }

    fn next_command(&mut self, index: usize) -> (action: Action)
        ensures
            (final(self)@, action@) == next_command(old(self)@, index),
    {
        if index < self.commands.len() {
            self.stage = Stage::Apply(index);
            self.apply(&self.commands[index])
        } else {
            let query = clone_names(self.synchronizer.meta.get_orphans_cmd.as_slice());
            self.ask(Stage::Orphans, query)
        }
    }

    fn plan(&mut self) -> (action: Action)
        ensures
            (final(self)@, action@) == plan(old(self)@),
    {
        let mut commands = sure(self.synchronizer.get_pre_cmds());
        let mut up = sure(self.synchronizer.get_up_cmds(&self.declared, &self.snapshot));
        let mut down = sure(self.synchronizer.get_down_cmds(&self.declared, &self.snapshot));
        let ghost pre_view = commands.deep_view();
        let ghost up_view = up.deep_view();
        let ghost down_view = down.deep_view();
        commands.append(&mut up);
        commands.append(&mut down);
        assert(commands.deep_view() =~= pre_view + up_view + down_view);
        self.commands = commands;
        self.next_command(0)
    }

    fn orphans_answered(&mut self, output: &str) -> (action: Action)
        ensures
            (final(self)@, action@) == orphans_answered(old(self)@, output@),
    {
        let orphans = packages_from_output(output);
        let commands = sure(self.synchronizer.get_post_cmds(&orphans));
        if commands.len() > 0 {
            self.stage = Stage::Post;
            self.apply(&commands[0])
        } else {
            self.finish(None)
        }
    }

    fn command_failed(&self, event: &Event) -> (r: bool)
        ensures
            r == command_failed(self@, event@),
    {
        match event {
            Event::Failed => !self.dry_run,
            _ => false,
        }
    }

    /// Takes what came of the last action, and says what is done next.
    ///
    /// The first call begins the run; its event is not read. After
    /// `Action::Finish` the run is over, and every further call gives the
    /// same action again.
    pub fn step(&mut self, event: Event) -> (action: Action)
        ensures
            (final(self)@, action@) == step_of(old(self)@, event@),
    {
        match self.stage {
            Stage::Start => self.begin(),
            Stage::Groups(index) => match event {
                Event::Output(output) => self.groups_answered(index, output.as_str()),
                _ => self.finish(Some(SyncError::GroupQuery)),
            },
            Stage::Installed => match event {
                Event::Output(output) => {
                    self.snapshot.installed = packages_from_output(output.as_str());
                    let query = clone_names(
                        self.synchronizer.meta.dependency_packages_cmd.as_slice(),
                    );
                    self.ask(Stage::Dependency, query)
                },
                _ => self.finish(Some(SyncError::QueryCommand)),
            },
            Stage::Dependency => match event {
                Event::Output(output) => {
                    self.snapshot.dependency_installed = packages_from_output(output.as_str());
                    let query = clone_names(
                        self.synchronizer.meta.explicitly_installed_cmd.as_slice(),
                    );
                    self.ask(Stage::Explicit, query)
                },
                _ => self.finish(Some(SyncError::QueryCommand)),
            },
            Stage::Explicit => match event {
                Event::Output(output) => {
                    self.snapshot.explicitly_installed = packages_from_output(output.as_str());
                    let query = clone_names(
                        self.synchronizer.meta.explicitly_unrequired_cmd.as_slice(),
                    );
                    self.ask(Stage::Unrequired, query)
                },
                _ => self.finish(Some(SyncError::QueryCommand)),
            },
            Stage::Unrequired => match event {
                Event::Output(output) => {
                    self.snapshot.explicitly_unrequired = packages_from_output(output.as_str());
                    self.plan()
                },
                _ => self.finish(Some(SyncError::QueryCommand)),
            },
            Stage::Apply(index) => {
                if self.command_failed(&event) {
                    self.finish(Some(SyncError::CommandFailure))
                } else if index < self.commands.len() {
                    self.next_command(index + 1)
                } else {
                    self.next_command(index)
                }
            },
            Stage::Orphans => match event {
                Event::Output(output) => self.orphans_answered(output.as_str()),
                _ => self.finish(Some(SyncError::QueryCommand)),
            },
            Stage::Post => {
                if self.command_failed(&event) {
                    self.finish(Some(SyncError::CommandFailure))
                } else {
                    self.finish(None)
                }
            },
            Stage::Finished => {
                let result = match &self.failure {
                    Some(e) => Err(e.duplicate()),
                    None => Ok(()),
                };
                Action::Finish(result)
            },
        }
    }
}


/// The state of a run after the given events, one step for each.
pub open spec fn state_after(run: RunView, events: Seq<EventView>) -> RunView
    decreases events.len(),
{
    if events.len() == 0 {
        run
    } else {
        state_after(step_of(run, events[0]).0, events.drop_first())
    }
}

/// The actions that a run asks for on the given events, one for each.
pub open spec fn actions_of(run: RunView, events: Seq<EventView>) -> Seq<ActionView>
    decreases events.len(),
{
    if events.len() == 0 {
        Seq::empty()
    } else {
        seq![step_of(run, events[0]).1] + actions_of(
            step_of(run, events[0]).0,
            events.drop_first(),
        )
    }
}

/// A step leaves the mode of the run as it is, and in a dry run it asks for
/// no command to be run and does not fail on a command.
pub proof fn lemma_step_in_dry_run(run: RunView, event: EventView)
    ensures
        step_of(run, event).0.dry_run == run.dry_run,
        step_of(run, event).0.synchronizer == run.synchronizer,
        run.dry_run ==> !(step_of(run, event).1 is Run),
        run.dry_run && run.failure != Some(Fault::CommandFailure) ==> step_of(run, event).0.failure
            != Some(Fault::CommandFailure),
{
}

/// In a dry run no command is ever run, whatever the events are and whatever
/// the diffs hold.
pub proof fn lemma_dry_run_runs_nothing(run: RunView, events: Seq<EventView>)
    requires
        run.dry_run,
    ensures
        forall|i: int|
            0 <= i < actions_of(run, events).len() ==> !(#[trigger] actions_of(run, events)[i]
                is Run),
    decreases events.len(),
{
    if events.len() > 0 {
        lemma_step_in_dry_run(run, events[0]);
        let next = step_of(run, events[0]).0;
        lemma_dry_run_runs_nothing(next, events.drop_first());
        let rest = actions_of(next, events.drop_first());
        assert forall|i: int| 0 <= i < actions_of(run, events).len() implies !(
        #[trigger] actions_of(run, events)[i] is Run) by {
            if i > 0 {
                assert(actions_of(run, events)[i] == rest[i - 1]);
            }
        }
    }
}

/// A dry run does not end with the failure of a command: what can end it
/// with an error is a blacklisted package or a query.
pub proof fn lemma_dry_run_fails_on_no_command(run: RunView, events: Seq<EventView>)
    requires
        run.dry_run,
        run.failure != Some(Fault::CommandFailure),
    ensures
        state_after(run, events).failure != Some(Fault::CommandFailure),
    decreases events.len(),
{
    if events.len() > 0 {
        lemma_step_in_dry_run(run, events[0]);
        lemma_dry_run_fails_on_no_command(step_of(run, events[0]).0, events.drop_first());
    }
}

/// In a dry run the commands are applied to the end and the orphans are
/// asked for, whatever is reported of the commands.
pub proof fn lemma_dry_run_applies_all(run: RunView, event: EventView)
    requires
        run.dry_run,
        run.stage is Apply || run.stage == Stage::Post,
    ensures
        step_of(run, event).0.failure == run.failure || step_of(run, event).0.failure is None,
        run.stage == Stage::Post ==> step_of(run, event).1 == ActionView::Finish(None),
        run.stage is Apply ==> !(step_of(run, event).1 is Finish),
{
}

/// The run waits for the answer to a query.
pub open spec fn awaits_query(stage: Stage) -> bool {
    stage is Groups || stage == Stage::Installed || stage == Stage::Dependency || stage
        == Stage::Explicit || stage == Stage::Unrequired || stage == Stage::Orphans
}

/// Every query that the run asks on the given events is answered with an
/// output.
pub open spec fn queries_answered(run: RunView, events: Seq<EventView>) -> bool
    decreases events.len(),
{
    if events.len() == 0 {
        true
    } else {
        &&& awaits_query(run.stage) ==> events[0] is Output
        &&& queries_answered(step_of(run, events[0]).0, events.drop_first())
    }
}

/// The declared state is resolved: the run takes the snapshot, applies the
/// commands, or is over.
pub open spec fn is_resolved(stage: Stage) -> bool {
    !(stage == Stage::Start || stage is Groups)
}

/// A dry run reports success: once the declared state is resolved, a dry run
/// whose queries are answered does not fail, whatever the diffs hold and
/// whatever is reported of the commands that it shows, and where it stops,
/// it stops without an error.
pub proof fn lemma_dry_run_reports_success(run: RunView, events: Seq<EventView>)
    requires
        run.dry_run,
        run.failure is None,
        is_resolved(run.stage),
        queries_answered(run, events),
    ensures
        state_after(run, events).failure is None,
        forall|i: int|
            0 <= i < actions_of(run, events).len() && (#[trigger] actions_of(run, events)[i])
                is Finish ==> actions_of(run, events)[i] == ActionView::Finish(None),
    decreases events.len(),
{
    if events.len() > 0 {
        let next = step_of(run, events[0]).0;
        lemma_dry_run_reports_success(next, events.drop_first());
        let rest = actions_of(next, events.drop_first());
        assert forall|i: int|
            0 <= i < actions_of(run, events).len() && (#[trigger] actions_of(run, events)[i])
                is Finish implies actions_of(run, events)[i] == ActionView::Finish(None) by {
            if i > 0 {
                assert(actions_of(run, events)[i] == rest[i - 1]);
            }
        }
    }
}

/// A run that is over stays over: it asks for nothing but to stop, with the
/// result that it ended with.
pub proof fn lemma_finished_run_stays_finished(run: RunView, events: Seq<EventView>)
    requires
        run.stage == Stage::Finished,
    ensures
        state_after(run, events) == run,
        forall|i: int|
            0 <= i < actions_of(run, events).len() ==> #[trigger] actions_of(run, events)[i]
                == ActionView::Finish(run.failure),
    decreases events.len(),
{
    if events.len() > 0 {
        lemma_finished_run_stays_finished(run, events.drop_first());
        let rest = actions_of(run, events.drop_first());
        assert forall|i: int| 0 <= i < actions_of(run, events).len() implies #[trigger] actions_of(
            run,
            events,
        )[i] == ActionView::Finish(run.failure) by {
            if i > 0 {
                assert(actions_of(run, events)[i] == rest[i - 1]);
            }
        }
    }
}

/// The first failure ends the run: where a command that was run fails, the
/// run stops with `CommandFailure`, and whatever is reported afterwards, no
/// query is asked and no command is run or shown any more. So a failure in
/// the up-diff keeps the down-diff from being applied.
pub proof fn lemma_failure_ends_run(run: RunView, events: Seq<EventView>)
    requires
        !run.dry_run,
        run.stage is Apply || run.stage == Stage::Post,
        events.len() > 0,
        events[0] is Failed,
    ensures
        forall|i: int|
            0 <= i < actions_of(run, events).len() ==> #[trigger] actions_of(run, events)[i]
                == ActionView::Finish(Some(Fault::CommandFailure)),
        state_after(run, events).stage == Stage::Finished,
        state_after(run, events).failure == Some(Fault::CommandFailure),
{
    let next = step_of(run, events[0]).0;
    lemma_finished_run_stays_finished(next, events.drop_first());
    let rest = actions_of(next, events.drop_first());
    assert forall|i: int| 0 <= i < actions_of(run, events).len() implies #[trigger] actions_of(
        run,
        events,
    )[i] == ActionView::Finish(Some(Fault::CommandFailure)) by {
        if i > 0 {
            assert(actions_of(run, events)[i] == rest[i - 1]);
        }
    }
}

/// A failed query ends the run as well, before anything is changed.
pub proof fn lemma_failed_query_ends_run(run: RunView, event: EventView)
    requires
        !(event is Output),
        awaits_query(run.stage),
    ensures
        step_of(run, event).0.stage == Stage::Finished,
        step_of(run, event).1 is Finish,
        step_of(run, event).0.failure == Some(
            if run.stage is Groups {
                Fault::GroupQuery
            } else {
                Fault::QueryCommand
            },
        ),
{
}

/// A declared package that is blacklisted ends the run at its first step,
/// before any query is asked and any command is run.
pub proof fn lemma_conflict_ends_run_at_once(run: RunView, event: EventView)
    requires
        run.stage == Stage::Start,
        conflicts(run.synchronizer).len() > 0,
    ensures
        step_of(run, event) == finish(
            run,
            Some(Fault::BlacklistConflict(conflicts(run.synchronizer))),
        ),
{
}

/// Every command that a run applies names at least one package, but for the
/// update of the system, which is the first: an empty diff field gives no
/// command.
pub proof fn lemma_planned_commands(run: RunView)
    ensures
        planned_commands(run).len() >= 1,
        planned_commands(run)[0] == run.synchronizer.meta.update_cmd,
        nothing_to_do(run.declared, run.snapshot) ==> planned_commands(run).len() == 1,
{
    let meta = run.synchronizer.meta;
    let up = up_diff(run.declared, run.snapshot);
    let down = down_diff(run.declared, run.snapshot);
    if nothing_to_do(run.declared, run.snapshot) {
        assert(up_commands(meta, up) =~= Seq::<Seq<Seq<char>>>::empty());
        assert(down_commands(meta, down) =~= Seq::<Seq<Seq<char>>>::empty());
    }
}


/// The global settings of a document. A document that is a configuration
/// table itself has none of its own: its run is a dry run.
pub open spec fn document_globals(document: ConfigTable) -> Result<GlobalConfig, Fault> {
    if lookup(document.entries@, "type"@) is Some {
        Ok(GlobalConfig { dry_mode: true })
    } else {
        global_settings(document.entries@, true)
    }
}

/// What is wrong with a document as the description of a run, if anything:
/// its global settings first, then its first configuration table.
pub open spec fn run_fault(document: ConfigTable) -> Option<Fault> {
    match document_globals(document) {
        Err(fault) => Some(fault),
        Ok(_) => document_fault(document),
    }
}

/// The run that a document describes, before its first step.
pub open spec fn run_of_document(document: ConfigTable) -> RunView {
    initial(document_settings(document), document_globals(document)->Ok_0.dry_mode)
}

/// Makes the run that a configuration document describes.
pub fn run_from_document(document: ConfigTable) -> (r: AResult<SyncRun>)
    ensures
        match run_fault(document) {
            Some(fault) => r matches Err(e) && e@ == fault,
            None => r matches Ok(run) && run@ == run_of_document(document),
        },
{
    let globals = if document.contains_key("type") {
        GlobalConfig::default()
    } else {
        match GlobalConfig::new(&document) {
            Ok(settings) => settings,
            Err(e) => {
                return Err(e);
            },
        }
    };
    match synchronizer_from_document(document) {
        Ok(synchronizer) => Ok(SyncRun::new(synchronizer, globals.dry_mode)),
        Err(e) => Err(e),
    }
}

/// Makes the run that a configuration text describes.
///
/// What the TOML parser makes of the text has the name `toml_document`; from
/// the document on, the result is that of `run_from_document`.
pub fn load_run(text: &str) -> (r: AResult<SyncRun>)
    ensures
        match toml_document(text@) {
            Some(ConfigValue::Table(document)) => match run_fault(document) {
                Some(fault) => r matches Err(e) && e@ == fault,
                None => r matches Ok(run) && run@ == run_of_document(document),
            },
            _ => r matches Err(e) && e@ is Parse,
        },
{
    match parse_config(text) {
        Ok(document) => run_from_document(document),
        Err(e) => Err(e),
    }
}

} // verus!
