use abuild::commands::{
    BuildCommand, CommandCache, CommandEnv, CommandError, CreateProfileCommand, ProjectCommand,
    RemoveProfileCommand,
};
use abuild::lang::{ComplierInfo, FileType, Langauge};
use abuild::profile::{
    CompileOptions, CompileProfile, CustomProfile, DevProfile, OptLevel, ProjectProfile, ReleaseProfile,
};
use abuild::project::{Project, ProjectError};
use abuild::sources::{ProjectSources, ProjectSourcesInDir, Source};

fn rustc() -> ComplierInfo {
    ComplierInfo::new("rustc".to_string(), "1.80.0".to_string(), Langauge::Rust)
}

fn source(path: &str, file_type: FileType) -> Source {
    Source { file_path: path.to_string(), file_type, compile_options: CompileOptions::default() }
}

fn env_with(sources: Vec<Source>) -> CommandEnv {
    CommandEnv { sources, compiler: rustc() }
}

fn empty_env() -> CommandEnv {
    env_with(Vec::new())
}

fn project() -> Project {
    let mut b = Project::builder();
    b.commands(vec![
        ProjectCommand::Build(BuildCommand {}),
        ProjectCommand::CreateProfile(CreateProfileCommand {}),
        ProjectCommand::RemoveProfile(RemoveProfileCommand {}),
    ]);
    b.profiles(vec![
        ("debug".to_string(), ProjectProfile::Dev(DevProfile {})),
        ("release".to_string(), ProjectProfile::Release(ReleaseProfile {})),
    ]);
    b.build().unwrap()
}

fn profile_names(p: &Project, candidates: &[&str]) -> Vec<String> {
    candidates.iter().filter(|n| p.profile(n).is_some()).map(|n| n.to_string()).collect()
}

const NAMES: [&str; 5] = ["debug", "release", "bench", "size", "ci"];

#[test]
fn build_scenario_with_two_rust_files() {
    let mut b = Project::builder();
    b.profile("debug".to_string(), ProjectProfile::Dev(DevProfile {}));
    b.profile("release".to_string(), ProjectProfile::Release(ReleaseProfile {}));
    let mut p = b.build().unwrap();
    p.register_command("build".to_string(), ProjectCommand::Build(BuildCommand {}));
    let env = env_with(vec![source("src/main.rs", FileType::Rust), source("src/util.rs", FileType::Rust)]);
    let outcome = p.run_command("build", String::new(), &env).unwrap();
    assert_eq!(outcome.op, 0);
    assert_eq!(outcome.work.len(), 2);
    assert_eq!(outcome.work[0].file_path, "src/main.rs");
    assert_eq!(outcome.work[1].file_path, "src/util.rs");
    for s in outcome.work.iter() {
        assert_eq!(s.file_type, FileType::Rust);
        assert_eq!(s.compile_options.profile, Some(CompileProfile::Debug));
        assert_eq!(s.compile_options.opt_level, None);
        assert_eq!(s.compile_options.lto, None);
        assert_eq!(s.compile_options.debug_info_option, None);
        assert_eq!(s.compile_options.debug_assertions, None);
        assert_eq!(s.compile_options.overflow_checks, None);
        assert!(s.compile_options.flags.is_empty());
    }
    let debug = p.compile_options("debug", "src/main.rs", &rustc()).unwrap();
    assert_eq!(debug, CompileOptions::dev());
    assert_eq!(p.undo_depth(), 1);
}

#[test]
fn build_under_a_named_profile() {
    let mut p = project();
    let custom = CustomProfile {
        options: CompileOptions { opt_level: Some(OptLevel::Oz), ..CompileOptions::release() },
        rust_flags: vec!["-Cpanic=abort".to_string()],
    };
    p.register_profile("size".to_string(), ProjectProfile::Custom(custom));
    let env = env_with(vec![source("src/main.rs", FileType::Rust)]);
    let outcome = p.run_command("build", "size".to_string(), &env).unwrap();
    let o = &outcome.work[0].compile_options;
    assert_eq!(o.opt_level, Some(OptLevel::Oz));
    assert_eq!(o.profile, Some(CompileProfile::Release));
    assert_eq!(o.flags, vec!["-Cpanic=abort".to_string()]);
    let outcome = p.run_command("build", "release".to_string(), &env).unwrap();
    assert_eq!(outcome.op, 1);
    assert_eq!(outcome.work[0].compile_options, CompileOptions::release());
}

#[test]
fn unknown_command_changes_nothing() {
    let mut p = project();
    assert_eq!(
        p.run_command("deploy", String::new(), &empty_env()).unwrap_err(),
        ProjectError::UnknownCommand("deploy".to_string())
    );
    assert_eq!(p.undo_depth(), 0);
    assert_eq!(profile_names(&p, &NAMES), vec!["debug", "release"]);
}

#[test]
fn unknown_profile_is_reported() {
    let p = project();
    assert_eq!(
        p.compile_options("fast", "a.rs", &rustc()).unwrap_err(),
        ProjectError::UnknownProfile("fast".to_string())
    );
}

#[test]
fn failing_commands_leave_the_project_unchanged() {
    let mut p = project();
    p.run_command("create-profile", "bench".to_string(), &empty_env()).unwrap();
    p.undo().unwrap();
    let before = profile_names(&p, &NAMES);
    let depths = (p.undo_depth(), p.redo_depth());
    assert_eq!(
        p.run_command("build", "missing".to_string(), &empty_env()).unwrap_err(),
        ProjectError::CommandFailed(CommandError::UnknownProfile("missing".to_string()))
    );
    assert_eq!(
        p.run_command("create-profile", "debug".to_string(), &empty_env()).unwrap_err(),
        ProjectError::CommandFailed(CommandError::ProfileExists("debug".to_string()))
    );
    assert_eq!(
        p.run_command("remove-profile", "ci".to_string(), &empty_env()).unwrap_err(),
        ProjectError::CommandFailed(CommandError::UnknownProfile("ci".to_string()))
    );
    assert_eq!(profile_names(&p, &NAMES), before);
    assert_eq!((p.undo_depth(), p.redo_depth()), depths);
    assert_eq!(p.profile("debug"), Some(&ProjectProfile::Dev(DevProfile {})));
    // The redo history survives a failed command.
    p.redo().unwrap();
    assert!(p.profile("bench").is_some());
}

#[test]
fn failed_try_do_keeps_the_registry() {
    let mut p = project();
    let cmd = ProjectCommand::RemoveProfile(RemoveProfileCommand {});
    assert_eq!(
        cmd.try_do(&mut p, "nope", &empty_env()).unwrap_err(),
        CommandError::UnknownProfile("nope".to_string())
    );
    assert_eq!(profile_names(&p, &NAMES), vec!["debug", "release"]);
    assert_eq!(p.command("build"), Some(ProjectCommand::Build(BuildCommand {})));
}

#[test]
fn undo_all_then_redo_all_restores_the_state() {
    let mut p = project();
    let env = empty_env();
    p.run_command("create-profile", "bench".to_string(), &env).unwrap();
    p.run_command("remove-profile", "release".to_string(), &env).unwrap();
    p.run_command("create-profile", "ci".to_string(), &env).unwrap();
    p.run_command("build", "ci".to_string(), &env).unwrap();
    p.run_command("remove-profile", "debug".to_string(), &env).unwrap();
    let after = profile_names(&p, &NAMES);
    assert_eq!(after, vec!["bench", "ci"]);
    assert_eq!(p.undo_depth(), 5);

    while p.undo_depth() > 0 {
        p.undo().unwrap();
    }
    assert_eq!(profile_names(&p, &NAMES), vec!["debug", "release"]);
    assert_eq!(p.redo_depth(), 5);
    assert_eq!(p.undo().unwrap_err(), ProjectError::NothingToUndo);

    while p.redo_depth() > 0 {
        p.redo().unwrap();
    }
    assert_eq!(profile_names(&p, &NAMES), after);
    assert_eq!(p.undo_depth(), 5);
    assert_eq!(p.redo().unwrap_err(), ProjectError::NothingToRedo);
}

#[test]
fn removed_profile_comes_back_unchanged() {
    let mut p = project();
    let custom = ProjectProfile::Custom(CustomProfile {
        options: CompileOptions::release(),
        rust_flags: vec!["-Copt-level=2".to_string()],
    });
    p.register_profile("bench".to_string(), custom.clone());
    p.run_command("remove-profile", "bench".to_string(), &empty_env()).unwrap();
    assert!(p.profile("bench").is_none());
    p.undo().unwrap();
    assert_eq!(p.profile("bench"), Some(&custom));
    p.redo().unwrap();
    assert!(p.profile("bench").is_none());
}

#[test]
fn new_command_after_undo_clears_redo() {
    let mut p = project();
    let env = empty_env();
    p.run_command("create-profile", "bench".to_string(), &env).unwrap();
    p.undo().unwrap();
    assert_eq!(p.redo_depth(), 1);
    let outcome = p.run_command("create-profile", "size".to_string(), &env).unwrap();
    assert_eq!(outcome.op, 1);
    assert_eq!(p.redo_depth(), 0);
    assert_eq!(p.redo().unwrap_err(), ProjectError::NothingToRedo);
    assert!(p.profile("bench").is_none());
    assert!(p.profile("size").is_some());
}

#[test]
fn undo_fails_when_the_project_changed_underneath() {
    let mut p = project();
    p.run_command("remove-profile", "release".to_string(), &empty_env()).unwrap();
    p.register_profile("release".to_string(), ProjectProfile::Dev(DevProfile {}));
    assert_eq!(
        p.undo().unwrap_err(),
        ProjectError::UndoFailed(CommandError::ProfileExists("release".to_string()))
    );
    // The failed operation leaves the history.
    assert_eq!(p.undo_depth(), 0);
    assert_eq!(p.redo_depth(), 0);
    assert_eq!(p.profile("release"), Some(&ProjectProfile::Dev(DevProfile {})));
}

#[test]
fn redo_fails_when_the_project_changed_underneath() {
    let mut p = project();
    p.run_command("create-profile", "bench".to_string(), &empty_env()).unwrap();
    p.undo().unwrap();
    p.register_profile("bench".to_string(), ProjectProfile::Release(ReleaseProfile {}));
    assert_eq!(
        p.redo().unwrap_err(),
        ProjectError::RedoFailed(CommandError::ProfileExists("bench".to_string()))
    );
    assert_eq!(p.redo_depth(), 0);
    assert_eq!(p.profile("bench"), Some(&ProjectProfile::Release(ReleaseProfile {})));
}

#[test]
fn commands_reject_a_foreign_cache() {
    let mut p = project();
    let mut cache = CommandCache::Build { files: vec![] };
    let create = CreateProfileCommand {};
    assert_eq!(create.try_undo(&mut p, &mut cache, ""), Err(CommandError::CacheMismatch));
    assert_eq!(create.try_redo(&mut p, &mut cache, ""), Err(CommandError::CacheMismatch));
    let mut cache = CommandCache::CreateProfile { name: "x".to_string() };
    let build = BuildCommand {};
    assert_eq!(build.try_undo(&mut p, &mut cache, ""), Err(CommandError::CacheMismatch));
    let remove = RemoveProfileCommand {};
    assert_eq!(remove.try_redo(&mut p, &mut cache, ""), Err(CommandError::CacheMismatch));
}

#[test]
fn build_cache_lists_the_files() {
    let mut p = project();
    let env = env_with(vec![source("a.rs", FileType::Rust), source("b.c", FileType::CSource)]);
    let (cache, work) = BuildCommand {}.try_do(&mut p, "", &env).unwrap();
    match cache {
        CommandCache::Build { files } => assert_eq!(files, vec!["a.rs".to_string(), "b.c".to_string()]),
        other => panic!("unexpected {other:?}"),
    }
    assert_eq!(work[1].file_type, FileType::CSource);
}

#[test]
fn command_tags() {
    assert_eq!(BuildCommand {}.tag(), "build");
    assert_eq!(ProjectCommand::CreateProfile(CreateProfileCommand {}).tag(), "create-profile");
    assert_eq!(ProjectCommand::RemoveProfile(RemoveProfileCommand {}).tag(), "remove-profile");
}

#[test]
fn builder_defaults_to_src() {
    let p = Project::builder().build().unwrap();
    assert!(p.command("build").is_none());
    assert!(p.profile("debug").is_none());
    assert_eq!(p.sources().root(), "src");
    let mut b = Project::builder();
    b.sources(ProjectSourcesInDir::new("code".to_string()));
    b.command(ProjectCommand::Build(BuildCommand {}));
    let p = b.build().unwrap();
    assert_eq!(p.sources().root(), "code");
    assert_eq!(p.command("build"), Some(ProjectCommand::Build(BuildCommand {})));
}
