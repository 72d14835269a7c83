use vstd::prelude::*;

use crate::commands::{
    do_rel, do_succeeds, lemma_do_undo_redo, redo_effect, undo_effect, CommandCache, CommandEnv,
    CommandError, ProjectCommand, Profiles,
};
use crate::lang::ComplierInfo;
use crate::profile::{CompileOptions, Profile, ProjectProfile};
use crate::registry::Registry;
use crate::sources::{ProjectSources, ProjectSourcesInDir, Source};

verus! {

/// Why a project operation was refused; the project is then left unchanged,
/// except that a failed undo or redo drops the entry it was working on.
#[derive(Debug, Clone, PartialEq, Eq)]
pub enum ProjectError {
    UnknownCommand(String),
    UnknownProfile(String),
    CommandFailed(CommandError),
    NothingToUndo,
    NothingToRedo,
    UndoFailed(CommandError),
    RedoFailed(CommandError),
}

/// One operation of the command history: its id, the command, its arguments
/// and the cache its do step left.
#[derive(Debug)]
pub struct LogEntry {
    pub op: u64,
    pub command: ProjectCommand,
    pub args: String,
    pub cache: CommandCache,
}

/// What a successful `run_command` returns: the operation's id and the work it
/// hands to the compiler (a build's sources with their resolved options).
#[derive(Debug)]
pub struct CommandOutcome {
    pub op: u64,
    pub work: Vec<Source>,
}

/// The observable state of a project.
pub struct ProjectView {
    pub commands: Map<Seq<char>, ProjectCommand>,
    pub profiles: Profiles,
    pub root: Seq<char>,
    /// Operations that can be undone; the last one first.
    pub done: Seq<LogEntry>,
    /// Operations that can be redone; the last one first.
    pub undone: Seq<LogEntry>,
    pub next_op: u64,
}

impl ProjectView {
    pub open spec fn with_profiles(self, profiles: Profiles) -> ProjectView {
        ProjectView { profiles, ..self }
    }
}

/// A project: its commands and profiles by name, where its sources lie, and
/// its two-stack command history.
#[derive(Debug)]
pub struct Project {
    commands: Registry<ProjectCommand>,
    profiles: Registry<ProjectProfile>,
    sources: ProjectSourcesInDir,
    done: Vec<LogEntry>,
    undone: Vec<LogEntry>,
    next_op: u64,
}

impl View for Project {
    type V = ProjectView;

    closed spec fn view(&self) -> ProjectView {
        ProjectView {
            commands: self.commands@,
            profiles: self.profiles@,
            root: self.sources.root_spec(),
            done: self.done@,
            undone: self.undone@,
            next_op: self.next_op,
        }
    }
}

/// The state after undoing the last done operation.
pub open spec fn undo_model(s: ProjectView) -> ProjectView {
    if s.done.len() == 0 {
        s
    } else {
        let e = s.done.last();
        match undo_effect(e.command, s.profiles, e.cache) {
            Ok((p, c)) => ProjectView {
                profiles: p,
                done: s.done.drop_last(),
                undone: s.undone.push(LogEntry { cache: c, ..e }),
                ..s
            },
            Err(_) => ProjectView { done: s.done.drop_last(), ..s },
        }
    }
}

/// What undoing the last done operation returns.
pub open spec fn undo_outcome(s: ProjectView) -> Result<(), ProjectError> {
    if s.done.len() == 0 {
        Err(ProjectError::NothingToUndo)
    } else {
        let e = s.done.last();
        match undo_effect(e.command, s.profiles, e.cache) {
            Ok(_) => Ok(()),
            Err(err) => Err(ProjectError::UndoFailed(err)),
        }
    }
}

/// The state after redoing the last undone operation.
pub open spec fn redo_model(s: ProjectView) -> ProjectView {
    if s.undone.len() == 0 {
        s
    } else {
        let e = s.undone.last();
        match redo_effect(e.command, s.profiles, e.cache) {
            Ok((p, c)) => ProjectView {
                profiles: p,
                undone: s.undone.drop_last(),
                done: s.done.push(LogEntry { cache: c, ..e }),
                ..s
            },
            Err(_) => ProjectView { undone: s.undone.drop_last(), ..s },
        }
    }
}

/// What redoing the last undone operation returns.
pub open spec fn redo_outcome(s: ProjectView) -> Result<(), ProjectError> {
    if s.undone.len() == 0 {
        Err(ProjectError::NothingToRedo)
    } else {
        let e = s.undone.last();
        match redo_effect(e.command, s.profiles, e.cache) {
            Ok(_) => Ok(()),
            Err(err) => Err(ProjectError::RedoFailed(err)),
        }
    }
}

/// `run_command(tag, args, env)` took the project from `before` to `after` and returned `r`.
pub open spec fn run_rel(
    before: ProjectView,
    tag: Seq<char>,
    args: String,
    env: CommandEnv,
    after: ProjectView,
    r: Result<CommandOutcome, ProjectError>,
) -> bool {
    if !before.commands.contains_key(tag) {
        r matches Err(ProjectError::UnknownCommand(t)) && t@ == tag && after == before
    } else {
        let cmd = before.commands[tag];
        &&& (r is Ok <==> do_succeeds(cmd, before.profiles, args@))
        &&& exists|d: Result<(CommandCache, Vec<Source>), CommandError>|
            #[trigger] do_rel(cmd, before.profiles, args@, env, d, after.profiles) && match d {
                Ok((cache, work)) => {
                    &&& r matches Ok(o)
                    &&& o.op == before.next_op
                    &&& o.work == work
                    &&& after == ProjectView {
                        profiles: after.profiles,
                        done: before.done.push(
                            LogEntry { op: before.next_op, command: cmd, args, cache },
                        ),
                        undone: Seq::empty(),
                        next_op: (before.next_op + 1) as u64,
                        ..before
                    }
                },
                Err(e) => r == Err::<CommandOutcome, ProjectError>(ProjectError::CommandFailed(e))
                    && after == before,
            }
    }
}

/// Every done operation can be undone in turn, from the last one down, and
/// redoing each undone step gives back the state it was undone from.
pub open spec fn history_consistent(done: Seq<LogEntry>, profiles: Profiles) -> bool
    decreases done.len(),
{
    if done.len() == 0 {
        true
    } else {
        let e = done.last();
        match undo_effect(e.command, profiles, e.cache) {
            Ok((p, c)) => redo_effect(e.command, p, c) == Ok::<(Profiles, CommandCache), CommandError>((profiles, e.cache))
                && history_consistent(done.drop_last(), p),
            Err(_) => false,
        }
    }
}

/// `n` undo steps.
pub open spec fn undo_times(s: ProjectView, n: nat) -> ProjectView
    decreases n,
{
    if n == 0 {
        s
    } else {
        undo_times(undo_model(s), (n - 1) as nat)
    }
}

/// `n` redo steps.
pub open spec fn redo_times(s: ProjectView, n: nat) -> ProjectView
    decreases n,
{
    if n == 0 {
        s
    } else {
        redo_model(redo_times(s, (n - 1) as nat))
    }
}

/// Round trip: in a project whose history is consistent (one that only
/// `run_command` has changed since it was built), undoing `n` operations and
/// then redoing `n` gives back exactly the state before the undos.
pub proof fn lemma_undo_redo_round_trip(s: ProjectView, n: nat)
    requires
        history_consistent(s.done, s.profiles),
        n <= s.done.len(),
    ensures
        redo_times(undo_times(s, n), n) == s,
    decreases n,
{
    if n > 0 {
        let s1 = undo_model(s);
        let e = s.done.last();
        lemma_undo_redo_round_trip(s1, (n - 1) as nat);
        assert(redo_times(undo_times(s1, (n - 1) as nat), (n - 1) as nat) == s1);
        assert(s1.undone.last() == LogEntry { cache: s1.undone.last().cache, ..e });
        assert(s1.undone.drop_last() =~= s.undone);
        assert(s1.done.push(e) =~= s.done);
        assert(redo_model(s1) == s);
    }
}

/// A successful `run_command` keeps the history consistent.
pub proof fn lemma_run_keeps_history(
    before: ProjectView,
    tag: Seq<char>,
    args: String,
    env: CommandEnv,
    after: ProjectView,
    r: Result<CommandOutcome, ProjectError>,
)
    requires
        history_consistent(before.done, before.profiles),
        run_rel(before, tag, args, env, after, r),
        r is Ok,
    ensures
        history_consistent(after.done, after.profiles),
{
    let cmd = before.commands[tag];
    let d = choose|d: Result<(CommandCache, Vec<Source>), CommandError>|
        #[trigger] do_rel(cmd, before.profiles, args@, env, d, after.profiles) && match d {
            Ok((cache, work)) => {
                &&& r matches Ok(o)
                &&& o.op == before.next_op
                &&& o.work == work
                &&& after == ProjectView {
                    profiles: after.profiles,
                    done: before.done.push(
                        LogEntry { op: before.next_op, command: cmd, args, cache },
                    ),
                    undone: Seq::empty(),
                    next_op: (before.next_op + 1) as u64,
                    ..before
                }
            },
            Err(e) => r == Err::<CommandOutcome, ProjectError>(ProjectError::CommandFailed(e))
                && after == before,
        };
    if let Ok((cache, work)) = d {
        lemma_do_undo_redo(cmd, before.profiles, args@, env, cache, work, after.profiles);
        assert(after.done.drop_last() =~= before.done);
    }
}

/// Once a command has run, nothing is left to redo.
pub proof fn lemma_run_clears_redo(
    before: ProjectView,
    tag: Seq<char>,
    args: String,
    env: CommandEnv,
    after: ProjectView,
    r: Result<CommandOutcome, ProjectError>,
)
    requires
        run_rel(before, tag, args, env, after, r),
        r is Ok,
    ensures
        redo_outcome(after) == Err::<(), ProjectError>(ProjectError::NothingToRedo),
        redo_model(after) == after,
{
}

/// The undo/redo law over whole runs: start from a project whose history is
/// consistent (a project fresh from its builder has an empty, hence consistent,
/// history) and let `run_command` succeed `n` times, the `i`-th taking
/// `states[i]` to `states[i + 1]`. Undoing every done operation and then
/// redoing as many gives back exactly the state the runs left, and right after
/// the last run there is nothing to redo.
pub proof fn lemma_runs_undo_redo_round_trip(
    states: Seq<ProjectView>,
    tags: Seq<Seq<char>>,
    args: Seq<String>,
    envs: Seq<CommandEnv>,
    results: Seq<Result<CommandOutcome, ProjectError>>,
)
    requires
        states.len() == tags.len() + 1,
        args.len() == tags.len(),
        envs.len() == tags.len(),
        results.len() == tags.len(),
        history_consistent(states[0].done, states[0].profiles),
        forall|i: int|
            0 <= i < tags.len() ==> #[trigger] run_rel(
                states[i],
                tags[i],
                args[i],
                envs[i],
                states[i + 1],
                results[i],
            ) && results[i] is Ok,
    ensures
        ({
            let last = states.last();
            redo_times(undo_times(last, last.done.len()), last.done.len()) == last
        }),
        tags.len() > 0 ==> redo_outcome(states.last()) == Err::<(), ProjectError>(
            ProjectError::NothingToRedo,
        ),
{
    lemma_runs_keep_history(states, tags, args, envs, results, tags.len() as int);
    let last = states.last();
    lemma_undo_redo_round_trip(last, last.done.len());
    if tags.len() > 0 {
        let k = tags.len() - 1;
        assert(run_rel(states[k], tags[k], args[k], envs[k], states[k + 1], results[k]));
        lemma_run_clears_redo(states[k], tags[k], args[k], envs[k], states[k + 1], results[k]);
    }
}

proof fn lemma_runs_keep_history(
    states: Seq<ProjectView>,
    tags: Seq<Seq<char>>,
    args: Seq<String>,
    envs: Seq<CommandEnv>,
    results: Seq<Result<CommandOutcome, ProjectError>>,
    n: int,
)
    requires
        states.len() == tags.len() + 1,
        args.len() == tags.len(),
        envs.len() == tags.len(),
        results.len() == tags.len(),
        0 <= n <= tags.len(),
        history_consistent(states[0].done, states[0].profiles),
        forall|i: int|
            0 <= i < tags.len() ==> #[trigger] run_rel(
                states[i],
                tags[i],
                args[i],
                envs[i],
                states[i + 1],
                results[i],
            ) && results[i] is Ok,
    ensures
        history_consistent(states[n].done, states[n].profiles),
    decreases n,
{
    if n > 0 {
        lemma_runs_keep_history(states, tags, args, envs, results, n - 1);
        let k = n - 1;
        assert(run_rel(states[k], tags[k], args[k], envs[k], states[k + 1], results[k]) && results[k] is Ok);
        lemma_run_keeps_history(states[k], tags[k], args[k], envs[k], states[k + 1], results[k]);
    }
}

impl Project {
    pub closed spec fn wf(&self) -> bool {
        self.commands.wf() && self.profiles.wf()
    }

    /// A builder with no commands, no profiles and sources under `src`.
    pub fn builder() -> (r: ProjectBuilder)
        ensures
            r.wf(),
            r@.commands == Map::<Seq<char>, ProjectCommand>::empty(),
            r@.profiles == Map::<Seq<char>, ProjectProfile>::empty(),
            r@.root == "src"@,
    {
        ProjectBuilder::new()
    }

    /// The profile registered under `name`.
    pub fn profile(&self, name: &str) -> (r: Option<&ProjectProfile>)
        requires
            self.wf(),
        ensures
            match r {
                Some(p) => self@.profiles.contains_key(name@) && *p == self@.profiles[name@],
                None => !self@.profiles.contains_key(name@),
            },
    {
        self.profiles.get(name)
    }

    /// The command registered under `tag`.
    pub fn command(&self, tag: &str) -> (r: Option<ProjectCommand>)
        requires
            self.wf(),
        ensures
            match r {
                Some(c) => self@.commands.contains_key(tag@) && c == self@.commands[tag@],
                None => !self@.commands.contains_key(tag@),
            },
    {
        match self.commands.get(tag) {
            Some(c) => Some(*c),
            None => None,
        }
    }

    /// How many operations can be undone.
    pub fn undo_depth(&self) -> (r: usize)
        ensures
            r == self@.done.len(),
    {
        self.done.len()
    }

    /// How many operations can be redone.
    pub fn redo_depth(&self) -> (r: usize)
        ensures
            r == self@.undone.len(),
    {
        self.undone.len()
    }

    /// The directory the project's sources are discovered from.
    pub fn sources(&self) -> (r: &ProjectSourcesInDir)
        ensures
            r.root_spec() == self@.root,
    {
        &self.sources
    }

    pub fn register_command(&mut self, tag: String, command: ProjectCommand)
        requires
            old(self).wf(),
        ensures
            final(self).wf(),
            final(self)@ == (ProjectView { commands: old(self)@.commands.insert(tag@, command), ..old(self)@ }),
    {
        self.commands.insert(tag, command);
    }

    pub fn register_profile(&mut self, name: String, profile: ProjectProfile)
        requires
            old(self).wf(),
        ensures
            final(self).wf(),
            final(self)@ == old(self)@.with_profiles(old(self)@.profiles.insert(name@, profile)),
    {
        self.profiles.insert(name, profile);
    }

    pub(crate) fn remove_profile(&mut self, name: &str) -> (r: Option<ProjectProfile>)
        requires
            old(self).wf(),
        ensures
            final(self).wf(),
            old(self)@.profiles.contains_key(name@) ==> r == Some(old(self)@.profiles[name@])
                && final(self)@ == old(self)@.with_profiles(old(self)@.profiles.remove(name@)),
            !old(self)@.profiles.contains_key(name@) ==> r is None && *final(self) == *old(self),
    {
        self.profiles.remove(name)
    }

    /// The options the profile `profile_name` resolves for one file and toolchain.
    pub fn compile_options(&self, profile_name: &str, file_path: &str, compiler_info: &ComplierInfo) -> (r: Result<CompileOptions, ProjectError>)
        requires
            self.wf(),
        ensures
            self@.profiles.contains_key(profile_name@) ==> (r matches Ok(o) && o@ == self@.profiles[profile_name@].resolve_spec(file_path@, compiler_info@)),
            !self@.profiles.contains_key(profile_name@) ==> (r matches Err(ProjectError::UnknownProfile(n)) && n@ == profile_name@),
    {
        match self.profiles.get(profile_name) {
            Some(p) => Ok(p.compile_option(file_path, compiler_info)),
            None => Err(ProjectError::UnknownProfile(String::from_str(profile_name))),
        }
    }

    /// Looks the command up by `tag`, does it, and on success records it as the
    /// newest done operation and forgets what could be redone.
    pub fn run_command(&mut self, tag: &str, args: String, env: &CommandEnv) -> (r: Result<CommandOutcome, ProjectError>)
        requires
            old(self).wf(),
            old(self)@.next_op < u64::MAX,
        ensures
            final(self).wf(),
            run_rel(old(self)@, tag@, args, *env, final(self)@, r),
    {
        let command = match self.command(tag) {
            Some(c) => c,
            None => {
                return Err(ProjectError::UnknownCommand(String::from_str(tag)));
            },
        };
        let ghost before = self@;
        let d = command.try_do(self, args.as_str(), env);
        assert(do_rel(command, before.profiles, args@, *env, d, self@.profiles));
        match d {
            Ok((cache, work)) => {
                let op = self.next_op;
                self.done.push(LogEntry { op, command, args, cache });
                self.undone = Vec::new();
                self.next_op = self.next_op + 1;
                assert(self@.undone =~= Seq::<LogEntry>::empty());
                Ok(CommandOutcome { op, work })
            },
            Err(e) => Err(ProjectError::CommandFailed(e)),
        }
    }

    /// Undoes the newest done operation and makes it the newest undone one; when
    /// the undo step fails the operation is dropped from the history.
    pub fn undo(&mut self) -> (r: Result<(), ProjectError>)
        requires
            old(self).wf(),
        ensures
            final(self).wf(),
            r == undo_outcome(old(self)@),
            final(self)@ == undo_model(old(self)@),
    {
        match self.done.pop() {
            None => Err(ProjectError::NothingToUndo),
            Some(entry) => {
                let mut entry = entry;
                let command = entry.command;
                match command.try_undo(self, &mut entry.cache, entry.args.as_str()) {
                    Ok(()) => {
                        self.undone.push(entry);
                        Ok(())
                    },
                    Err(e) => Err(ProjectError::UndoFailed(e)),
                }
            },
        }
    }

    /// Redoes the newest undone operation and makes it the newest done one; when
    /// the redo step fails the operation is dropped from the history.
    pub fn redo(&mut self) -> (r: Result<(), ProjectError>)
        requires
            old(self).wf(),
        ensures
            final(self).wf(),
            r == redo_outcome(old(self)@),
            final(self)@ == redo_model(old(self)@),
    {
        match self.undone.pop() {
            None => Err(ProjectError::NothingToRedo),
            Some(entry) => {
                let mut entry = entry;
                let command = entry.command;
                match command.try_redo(self, &mut entry.cache, entry.args.as_str()) {
                    Ok(()) => {
                        self.done.push(entry);
                        Ok(())
                    },
                    Err(e) => Err(ProjectError::RedoFailed(e)),
                }
            },
        }
    }
}

/// The configuration a project is built from.
#[derive(Debug)]
pub struct ProjectBuilder {
    commands: Registry<ProjectCommand>,
    profiles: Registry<ProjectProfile>,
    sources: ProjectSourcesInDir,
}

/// The configuration held by a [`ProjectBuilder`].
pub struct ProjectBuilderView {
    pub commands: Map<Seq<char>, ProjectCommand>,
    pub profiles: Profiles,
    pub root: Seq<char>,
}

impl View for ProjectBuilder {
    type V = ProjectBuilderView;

    closed spec fn view(&self) -> ProjectBuilderView {
        ProjectBuilderView {
            commands: self.commands@,
            profiles: self.profiles@,
            root: self.sources.root_spec(),
        }
    }
}

impl ProjectBuilder {
    pub closed spec fn wf(&self) -> bool {
        self.commands.wf() && self.profiles.wf()
    }

    pub fn new() -> (r: ProjectBuilder)
        ensures
            r.wf(),
            r@.commands == Map::<Seq<char>, ProjectCommand>::empty(),
            r@.profiles == Map::<Seq<char>, ProjectProfile>::empty(),
            r@.root == "src"@,
    {
        ProjectBuilder {
            commands: Registry::new(),
            profiles: Registry::new(),
            sources: ProjectSourcesInDir::new(String::from_str("src")),
        }
    }

    /// Registers `command` under its own tag.
    pub fn command(&mut self, command: ProjectCommand)
        requires
            old(self).wf(),
        ensures
            final(self).wf(),
            final(self)@ == (ProjectBuilderView { commands: old(self)@.commands.insert(command.tag_spec(), command), ..old(self)@ }),
    {
        let tag = command.tag();
        self.commands.insert(tag, command);
    }

    /// Registers each command under its own tag, in order.
    pub fn commands(&mut self, commands: Vec<ProjectCommand>)
        requires
            old(self).wf(),
        ensures
            final(self).wf(),
            final(self)@ == (ProjectBuilderView { commands: insert_commands(old(self)@.commands, commands@), ..old(self)@ }),
    {
        let mut i: usize = 0;
        while i < commands.len()
            invariant
                self.wf(),
                i <= commands.len(),
                self@ == (ProjectBuilderView { commands: insert_commands(old(self)@.commands, commands@.subrange(0, i as int)), ..old(self)@ }),
            decreases commands.len() - i,
        {
            assert(commands@.subrange(0, i + 1).drop_last() == commands@.subrange(0, i as int));
            self.command(commands[i]);
            i = i + 1;
        }
        assert(commands@.subrange(0, commands.len() as int) == commands@);
    }

    pub fn profile(&mut self, name: String, profile: ProjectProfile)
        requires
            old(self).wf(),
        ensures
            final(self).wf(),
            final(self)@ == (ProjectBuilderView { profiles: old(self)@.profiles.insert(name@, profile), ..old(self)@ }),
    {
        self.profiles.insert(name, profile);
    }

    /// Registers each named profile, in order; a later name replaces an earlier one.
    pub fn profiles(&mut self, profiles: Vec<(String, ProjectProfile)>)
        requires
            old(self).wf(),
        ensures
            final(self).wf(),
            final(self)@ == (ProjectBuilderView { profiles: insert_profiles(old(self)@.profiles, profiles@), ..old(self)@ }),
    {
        let mut profiles = profiles;
        let ghost all = profiles@;
        assert(all.len() == profiles.len());
        let mut k: usize = 0;
        while profiles.len() > 0
            invariant
                self.wf(),
                k <= all.len(),
                k + profiles@.len() == all.len(),
                all.len() <= usize::MAX,
                profiles@ == all.subrange(k as int, all.len() as int),
                self@ == (ProjectBuilderView { profiles: insert_profiles(old(self)@.profiles, all.subrange(0, k as int)), ..old(self)@ }),
            decreases profiles.len(),
        {
            let (name, profile) = profiles.remove(0);
            assert(all.subrange(0, k + 1).drop_last() == all.subrange(0, k as int));
            self.profile(name, profile);
            k = k + 1;
        }
        assert(all.subrange(0, all.len() as int) == all);
    }

    pub fn sources(&mut self, sources: ProjectSourcesInDir)
        ensures
            final(self)@ == (ProjectBuilderView { root: sources.root_spec(), ..old(self)@ }),
            final(self).wf() == old(self).wf(),
    {
        self.sources = sources;
    }

    /// The project with this configuration and an empty history.
    pub fn build(self) -> (r: Result<Project, ()>)
        requires
            self.wf(),
        ensures
            r matches Ok(p) && p.wf() && p@ == (ProjectView {
                commands: self@.commands,
                profiles: self@.profiles,
                root: self@.root,
                done: Seq::empty(),
                undone: Seq::empty(),
                next_op: 0,
            }),
    {
        let p = Project {
            commands: self.commands,
            profiles: self.profiles,
            sources: self.sources,
            done: Vec::new(),
            undone: Vec::new(),
            next_op: 0,
        };
        assert(p@.done =~= Seq::<LogEntry>::empty());
        assert(p@.undone =~= Seq::<LogEntry>::empty());
        Ok(p)
    }
}

/// The commands map after registering `cs` in order, each under its own tag.
pub open spec fn insert_commands(m: Map<Seq<char>, ProjectCommand>, cs: Seq<ProjectCommand>) -> Map<Seq<char>, ProjectCommand>
    decreases cs.len(),
{
    if cs.len() == 0 {
        m
    } else {
        insert_commands(m, cs.drop_last()).insert(cs.last().tag_spec(), cs.last())
    }
}

/// The profiles map after registering `ps` in order.
pub open spec fn insert_profiles(m: Profiles, ps: Seq<(String, ProjectProfile)>) -> Profiles
    decreases ps.len(),
{
    if ps.len() == 0 {
        m
    } else {
        insert_profiles(m, ps.drop_last()).insert(ps.last().0@, ps.last().1)
    }
}

} // verus!
