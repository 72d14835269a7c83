use vstd::prelude::*;

use crate::lang::ComplierInfo;
use crate::profile::{DevProfile, Profile, ProjectProfile};
use crate::project::{Project, ProjectView};
use crate::sources::Source;

verus! {

/// The profiles of a project, by name.
pub type Profiles = Map<Seq<char>, ProjectProfile>;

/// Why a command could not be done, undone or redone.
#[derive(Debug, Clone, PartialEq, Eq)]
pub enum CommandError {
    /// No profile is registered under this name.
    UnknownProfile(String),
    /// A profile is already registered under this name.
    ProfileExists(String),
    /// The cache handed back does not belong to this command.
    CacheMismatch,
}

/// What a command's do step leaves behind for its undo and redo steps.
#[derive(Debug)]
pub enum CommandCache {
    /// The files a build handed out for compilation.
    Build { files: Vec<String> },
    /// The name of the profile that was created.
    CreateProfile { name: String },
    /// The name of the profile that was removed, and the profile itself while
    /// it is out of the project.
    RemoveProfile { name: String, profile: Option<ProjectProfile> },
}

/// What the outside world supplies to a command: the discovered sources and
/// the toolchain they are compiled with.
#[derive(Debug)]
pub struct CommandEnv {
    pub sources: Vec<Source>,
    pub compiler: ComplierInfo,
}

/// Builds the project's sources under a profile: the profile named by the
/// arguments, or `debug` when they are empty.
#[derive(Debug, Clone, Copy, Default, PartialEq, Eq)]
pub struct BuildCommand {}

/// Adds a profile, under the name given as arguments, with the development preset.
#[derive(Debug, Clone, Copy, Default, PartialEq, Eq)]
pub struct CreateProfileCommand {}

/// Removes the profile named by the arguments.
#[derive(Debug, Clone, Copy, Default, PartialEq, Eq)]
pub struct RemoveProfileCommand {}

/// The commands a project can register under a tag.
#[derive(Debug, Clone, Copy, PartialEq, Eq)]
pub enum ProjectCommand {
    Build(BuildCommand),
    CreateProfile(CreateProfileCommand),
    RemoveProfile(RemoveProfileCommand),
}

/// The profile a build uses: the one named by its arguments, `debug` by default.
pub open spec fn build_profile_name(args: Seq<char>) -> Seq<char> {
    if args.len() == 0 {
        "debug"@
    } else {
        args
    }
}

/// `work` is `sources` with the options that `profile` resolves for each of them.
pub open spec fn plan_for(
    profile: ProjectProfile,
    sources: Seq<Source>,
    compiler: ComplierInfo,
    work: Seq<Source>,
) -> bool {
    &&& work.len() == sources.len()
    &&& forall|i: int|
        0 <= i < sources.len() ==> {
            &&& (#[trigger] work[i]).file_path == sources[i].file_path
            &&& work[i].file_type == sources[i].file_type
            &&& work[i].compile_options@ == profile.resolve_spec(sources[i].file_path@, compiler@)
        }
}

/// The cache of a build lists the paths of its sources, in order.
pub open spec fn build_cache(cache: CommandCache, sources: Seq<Source>) -> bool {
    &&& cache matches CommandCache::Build { files }
    &&& files@.len() == sources.len()
    &&& forall|i: int| 0 <= i < sources.len() ==> #[trigger] files@[i] == sources[i].file_path
}

/// Whether doing `cmd` with `args` on `profiles` succeeds.
pub open spec fn do_succeeds(cmd: ProjectCommand, profiles: Profiles, args: Seq<char>) -> bool {
    match cmd {
        ProjectCommand::Build(_) => profiles.contains_key(build_profile_name(args)),
        ProjectCommand::CreateProfile(_) => !profiles.contains_key(args),
        ProjectCommand::RemoveProfile(_) => profiles.contains_key(args),
    }
}

/// The result of doing `cmd` with `args` on `profiles`, leaving `after`.
pub open spec fn do_rel(
    cmd: ProjectCommand,
    profiles: Profiles,
    args: Seq<char>,
    env: CommandEnv,
    r: Result<(CommandCache, Vec<Source>), CommandError>,
    after: Profiles,
) -> bool {
    match cmd {
        ProjectCommand::Build(_) => {
            let name = build_profile_name(args);
            if profiles.contains_key(name) {
                &&& r matches Ok((cache, work))
                &&& after == profiles
                &&& build_cache(cache, env.sources@)
                &&& plan_for(profiles[name], env.sources@, env.compiler, work@)
            } else {
                r matches Err(CommandError::UnknownProfile(n)) && n@ == name
            }
        },
        ProjectCommand::CreateProfile(_) => {
            if !profiles.contains_key(args) {
                &&& r matches Ok((cache, work))
                &&& work@.len() == 0
                &&& cache matches CommandCache::CreateProfile { name }
                &&& name@ == args
                &&& after == profiles.insert(args, ProjectProfile::Dev(DevProfile {  }))
            } else {
                r matches Err(CommandError::ProfileExists(n)) && n@ == args
            }
        },
        ProjectCommand::RemoveProfile(_) => {
            if profiles.contains_key(args) {
                &&& r matches Ok((cache, work))
                &&& work@.len() == 0
                &&& cache matches CommandCache::RemoveProfile { name, profile }
                &&& name@ == args
                &&& profile == Some(profiles[args])
                &&& after == profiles.remove(args)
            } else {
                r matches Err(CommandError::UnknownProfile(n)) && n@ == args
            }
        },
    }
}

/// Undoing `cmd` with its cache on `profiles`: the profiles and the cache after, or the error.
pub open spec fn undo_effect(cmd: ProjectCommand, profiles: Profiles, cache: CommandCache) -> Result<
    (Profiles, CommandCache),
    CommandError,
> {
    match cmd {
        ProjectCommand::Build(_) => match cache {
            CommandCache::Build { .. } => Ok((profiles, cache)),
            _ => Err(CommandError::CacheMismatch),
        },
        ProjectCommand::CreateProfile(_) => match cache {
            CommandCache::CreateProfile { name } => if profiles.contains_key(name@) {
                Ok((profiles.remove(name@), cache))
            } else {
                Err(CommandError::UnknownProfile(name))
            },
            _ => Err(CommandError::CacheMismatch),
        },
        ProjectCommand::RemoveProfile(_) => match cache {
            CommandCache::RemoveProfile { name, profile: Some(p) } => if !profiles.contains_key(
                name@,
            ) {
                Ok((profiles.insert(name@, p), CommandCache::RemoveProfile { name, profile: None }))
            } else {
                Err(CommandError::ProfileExists(name))
            },
            _ => Err(CommandError::CacheMismatch),
        },
    }
}

/// Redoing `cmd` with its cache on `profiles`: the profiles and the cache after, or the error.
pub open spec fn redo_effect(cmd: ProjectCommand, profiles: Profiles, cache: CommandCache) -> Result<
    (Profiles, CommandCache),
    CommandError,
> {
    match cmd {
        ProjectCommand::Build(_) => match cache {
            CommandCache::Build { .. } => Ok((profiles, cache)),
            _ => Err(CommandError::CacheMismatch),
        },
        ProjectCommand::CreateProfile(_) => match cache {
            CommandCache::CreateProfile { name } => if !profiles.contains_key(name@) {
                Ok((profiles.insert(name@, ProjectProfile::Dev(DevProfile {  })), cache))
            } else {
                Err(CommandError::ProfileExists(name))
            },
            _ => Err(CommandError::CacheMismatch),
        },
        ProjectCommand::RemoveProfile(_) => match cache {
            CommandCache::RemoveProfile { name, profile: None } => if profiles.contains_key(
                name@,
            ) {
                Ok(
                    (
                        profiles.remove(name@),
                        CommandCache::RemoveProfile { name, profile: Some(profiles[name@]) },
                    ),
                )
            } else {
                Err(CommandError::UnknownProfile(name))
            },
            _ => Err(CommandError::CacheMismatch),
        },
    }
}

pub proof fn lemma_do_succeeds(
    cmd: ProjectCommand,
    profiles: Profiles,
    args: Seq<char>,
    env: CommandEnv,
    r: Result<(CommandCache, Vec<Source>), CommandError>,
    after: Profiles,
)
    requires
        do_rel(cmd, profiles, args, env, r, after),
    ensures
        r is Ok <==> do_succeeds(cmd, profiles, args),
{
}

/// Doing a command, then undoing it, gives back the profiles it started from,
/// and redoing it then gives back what the do step left.
pub proof fn lemma_do_undo_redo(
    cmd: ProjectCommand,
    profiles: Profiles,
    args: Seq<char>,
    env: CommandEnv,
    cache: CommandCache,
    work: Vec<Source>,
    after: Profiles,
)
    requires
        do_rel(cmd, profiles, args, env, Ok((cache, work)), after),
    ensures
        undo_effect(cmd, after, cache) matches Ok((p, c)) && p == profiles && redo_effect(
            cmd,
            profiles,
            c,
        ) == Ok::<(Profiles, CommandCache), CommandError>((after, cache)),
{
    match cmd {
        ProjectCommand::Build(_) => {},
        ProjectCommand::CreateProfile(_) => {
            assert(after.remove(args) =~= profiles);
        },
        ProjectCommand::RemoveProfile(_) => {
            assert(after.insert(args, profiles[args]) =~= profiles);
        },
    }
}

/// A copy of a source record, with the given options.
fn source_with(s: &Source, options: crate::profile::CompileOptions) -> (r: Source)
    ensures
        r.file_path == s.file_path,
        r.file_type == s.file_type,
        r.compile_options == options,
{
    Source { file_path: s.file_path.clone(), file_type: s.file_type, compile_options: options }
}

impl BuildCommand {
    pub fn tag(&self) -> (r: String)
        ensures
            r@ == "build"@,
    {
        String::from_str("build")
    }

    pub fn try_do(&self, project: &mut Project, args: &str, env: &CommandEnv) -> (r: Result<
        (CommandCache, Vec<Source>),
        CommandError,
    >)
        requires
            old(project).wf(),
        ensures
            do_rel(ProjectCommand::Build(*self), old(project)@.profiles, args@, *env, r, final(project)@.profiles),
            *final(project) == *old(project),
    {
        let name = if args.unicode_len() == 0 {
            String::from_str("debug")
        } else {
            String::from_str(args)
        };
        let profile = match project.profile(name.as_str()) {
            Some(p) => p,
            None => {
                return Err(CommandError::UnknownProfile(name));
            },
        };
        let mut files: Vec<String> = Vec::new();
        let mut work: Vec<Source> = Vec::new();
        let mut i: usize = 0;
        while i < env.sources.len()
            invariant
                i <= env.sources.len(),
                files@.len() == i,
                work@.len() == i,
                forall|k: int| 0 <= k < i ==> #[trigger] files@[k] == env.sources@[k].file_path,
                forall|k: int|
                    0 <= k < i ==> {
                        &&& (#[trigger] work@[k]).file_path == env.sources@[k].file_path
                        &&& work@[k].file_type == env.sources@[k].file_type
                        &&& work@[k].compile_options@ == profile.resolve_spec(
                            env.sources@[k].file_path@,
                            env.compiler@,
                        )
                    },
            decreases env.sources.len() - i,
        {
            let s = &env.sources[i];
            let options = profile.compile_option(s.file_path.as_str(), &env.compiler);
            work.push(source_with(s, options));
            files.push(s.file_path.clone());
            i = i + 1;
        }
        Ok((CommandCache::Build { files }, work))
    }

    pub fn try_undo(&self, project: &mut Project, cache: &mut CommandCache, _args: &str) -> (r: Result<(), CommandError>)
        requires
            old(project).wf(),
        ensures
            final(project).wf(),
            undo_rel(ProjectCommand::Build(*self), *old(project), *old(cache), *final(project), *final(cache), r),
    {
        match cache {
            CommandCache::Build { .. } => Ok(()),
            _ => Err(CommandError::CacheMismatch),
        }
    }

    pub fn try_redo(&self, project: &mut Project, cache: &mut CommandCache, _args: &str) -> (r: Result<(), CommandError>)
        requires
            old(project).wf(),
        ensures
            final(project).wf(),
            redo_rel(ProjectCommand::Build(*self), *old(project), *old(cache), *final(project), *final(cache), r),
    {
        match cache {
            CommandCache::Build { .. } => Ok(()),
            _ => Err(CommandError::CacheMismatch),
        }
    }
}

/// Undoing `cmd` took the project from `before` to `after` and its cache from
/// `cache` to `cache_after`, with result `r`; a failure changes nothing.
pub open spec fn undo_rel(
    cmd: ProjectCommand,
    before: Project,
    cache: CommandCache,
    after: Project,
    cache_after: CommandCache,
    r: Result<(), CommandError>,
) -> bool {
    match undo_effect(cmd, before@.profiles, cache) {
        Ok((p, c)) => r is Ok && after@ == before@.with_profiles(p) && cache_after == c,
        Err(e) => r == Err::<(), CommandError>(e) && after == before && cache_after == cache,
    }
}

/// Redoing `cmd` took the project from `before` to `after` and its cache from
/// `cache` to `cache_after`, with result `r`; a failure changes nothing.
pub open spec fn redo_rel(
    cmd: ProjectCommand,
    before: Project,
    cache: CommandCache,
    after: Project,
    cache_after: CommandCache,
    r: Result<(), CommandError>,
) -> bool {
    match redo_effect(cmd, before@.profiles, cache) {
        Ok((p, c)) => r is Ok && after@ == before@.with_profiles(p) && cache_after == c,
        Err(e) => r == Err::<(), CommandError>(e) && after == before && cache_after == cache,
    }
}

impl CreateProfileCommand {
    pub fn tag(&self) -> (r: String)
        ensures
            r@ == "create-profile"@,
    {
        String::from_str("create-profile")
    }

    pub fn try_do(&self, project: &mut Project, args: &str, env: &CommandEnv) -> (r: Result<
        (CommandCache, Vec<Source>),
        CommandError,
    >)
        requires
            old(project).wf(),
        ensures
            final(project).wf(),
            do_rel(ProjectCommand::CreateProfile(*self), old(project)@.profiles, args@, *env, r, final(project)@.profiles),
            r is Err ==> *final(project) == *old(project),
            final(project)@ == old(project)@.with_profiles(final(project)@.profiles),
    {
        if project.profile(args).is_some() {
            return Err(CommandError::ProfileExists(String::from_str(args)));
        }
        project.register_profile(String::from_str(args), ProjectProfile::Dev(DevProfile {  }));
        Ok((CommandCache::CreateProfile { name: String::from_str(args) }, Vec::new()))
    }

    pub fn try_undo(&self, project: &mut Project, cache: &mut CommandCache, _args: &str) -> (r: Result<(), CommandError>)
        requires
            old(project).wf(),
        ensures
            final(project).wf(),
            undo_rel(ProjectCommand::CreateProfile(*self), *old(project), *old(cache), *final(project), *final(cache), r),
    {
        match cache {
            CommandCache::CreateProfile { name } => {
                if project.profile(name.as_str()).is_none() {
                    return Err(CommandError::UnknownProfile(name.clone()));
                }
                let _ = project.remove_profile(name.as_str());
                Ok(())
            },
            _ => Err(CommandError::CacheMismatch),
        }
    }

    pub fn try_redo(&self, project: &mut Project, cache: &mut CommandCache, _args: &str) -> (r: Result<(), CommandError>)
        requires
            old(project).wf(),
        ensures
            final(project).wf(),
            redo_rel(ProjectCommand::CreateProfile(*self), *old(project), *old(cache), *final(project), *final(cache), r),
    {
        match cache {
            CommandCache::CreateProfile { name } => {
                if project.profile(name.as_str()).is_some() {
                    return Err(CommandError::ProfileExists(name.clone()));
                }
                project.register_profile(name.clone(), ProjectProfile::Dev(DevProfile {  }));
                Ok(())
            },
            _ => Err(CommandError::CacheMismatch),
        }
    }
}

impl RemoveProfileCommand {
    pub fn tag(&self) -> (r: String)
        ensures
            r@ == "remove-profile"@,
    {
        String::from_str("remove-profile")
    }

    pub fn try_do(&self, project: &mut Project, args: &str, env: &CommandEnv) -> (r: Result<
        (CommandCache, Vec<Source>),
        CommandError,
    >)
        requires
            old(project).wf(),
        ensures
            final(project).wf(),
            do_rel(ProjectCommand::RemoveProfile(*self), old(project)@.profiles, args@, *env, r, final(project)@.profiles),
            r is Err ==> *final(project) == *old(project),
            final(project)@ == old(project)@.with_profiles(final(project)@.profiles),
    {
        match project.remove_profile(args) {
            Some(p) => Ok(
                (
                    CommandCache::RemoveProfile { name: String::from_str(args), profile: Some(p) },
                    Vec::new(),
                ),
            ),
            None => Err(CommandError::UnknownProfile(String::from_str(args))),
        }
    }

    pub fn try_undo(&self, project: &mut Project, cache: &mut CommandCache, _args: &str) -> (r: Result<(), CommandError>)
        requires
            old(project).wf(),
        ensures
            final(project).wf(),
            undo_rel(ProjectCommand::RemoveProfile(*self), *old(project), *old(cache), *final(project), *final(cache), r),
    {
        match cache {
            CommandCache::RemoveProfile { name, profile } => {
                if profile.is_none() {
                    return Err(CommandError::CacheMismatch);
                }
                if project.profile(name.as_str()).is_some() {
                    return Err(CommandError::ProfileExists(name.clone()));
                }
                match profile.take() {
                    Some(p) => {
                        project.register_profile(name.clone(), p);
                        Ok(())
                    },
                    None => Err(CommandError::CacheMismatch),
                }
            },
            _ => Err(CommandError::CacheMismatch),
        }
    }

    pub fn try_redo(&self, project: &mut Project, cache: &mut CommandCache, _args: &str) -> (r: Result<(), CommandError>)
        requires
            old(project).wf(),
        ensures
            final(project).wf(),
            redo_rel(ProjectCommand::RemoveProfile(*self), *old(project), *old(cache), *final(project), *final(cache), r),
    {
        match cache {
            CommandCache::RemoveProfile { name, profile } => {
                if profile.is_some() {
                    return Err(CommandError::CacheMismatch);
                }
                match project.remove_profile(name.as_str()) {
                    Some(p) => {
                        *profile = Some(p);
                        Ok(())
                    },
                    None => Err(CommandError::UnknownProfile(name.clone())),
                }
            },
            _ => Err(CommandError::CacheMismatch),
        }
    }
}

impl ProjectCommand {
    pub open spec fn tag_spec(&self) -> Seq<char> {
        match self {
            ProjectCommand::Build(_) => "build"@,
            ProjectCommand::CreateProfile(_) => "create-profile"@,
            ProjectCommand::RemoveProfile(_) => "remove-profile"@,
        }
    }

    pub fn tag(&self) -> (r: String)
        ensures
            r@ == self.tag_spec(),
    {
        match self {
            ProjectCommand::Build(c) => c.tag(),
            ProjectCommand::CreateProfile(c) => c.tag(),
            ProjectCommand::RemoveProfile(c) => c.tag(),
        }
    }

    /// Does the command; on failure the project is left exactly as it was.
    pub fn try_do(&self, project: &mut Project, args: &str, env: &CommandEnv) -> (r: Result<
        (CommandCache, Vec<Source>),
        CommandError,
    >)
        requires
            old(project).wf(),
        ensures
            final(project).wf(),
            r is Ok <==> do_succeeds(*self, old(project)@.profiles, args@),
            do_rel(*self, old(project)@.profiles, args@, *env, r, final(project)@.profiles),
            r is Err ==> *final(project) == *old(project),
            final(project)@ == old(project)@.with_profiles(final(project)@.profiles),
    {
        let ghost before = project@.profiles;
        let r = match self {
            ProjectCommand::Build(c) => c.try_do(project, args, env),
            ProjectCommand::CreateProfile(c) => c.try_do(project, args, env),
            ProjectCommand::RemoveProfile(c) => c.try_do(project, args, env),
        };
        proof {
            lemma_do_succeeds(*self, before, args@, *env, r, project@.profiles);
        }
        r
    }

    pub fn try_undo(&self, project: &mut Project, cache: &mut CommandCache, args: &str) -> (r: Result<(), CommandError>)
        requires
            old(project).wf(),
        ensures
            final(project).wf(),
            undo_rel(*self, *old(project), *old(cache), *final(project), *final(cache), r),
    {
        match self {
            ProjectCommand::Build(c) => c.try_undo(project, cache, args),
            ProjectCommand::CreateProfile(c) => c.try_undo(project, cache, args),
            ProjectCommand::RemoveProfile(c) => c.try_undo(project, cache, args),
        }
    }

    pub fn try_redo(&self, project: &mut Project, cache: &mut CommandCache, args: &str) -> (r: Result<(), CommandError>)
        requires
            old(project).wf(),
        ensures
            final(project).wf(),
            redo_rel(*self, *old(project), *old(cache), *final(project), *final(cache), r),
    {
        match self {
            ProjectCommand::Build(c) => c.try_redo(project, cache, args),
            ProjectCommand::CreateProfile(c) => c.try_redo(project, cache, args),
            ProjectCommand::RemoveProfile(c) => c.try_redo(project, cache, args),
        }
    }
}

} // verus!
