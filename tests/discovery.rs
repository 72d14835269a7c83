use std::collections::{BTreeMap, BTreeSet};

use abuild::commands::{BuildCommand, CommandEnv, ProjectCommand};
use abuild::lang::{ComplierInfo, FileType, Langauge};
use abuild::profile::{CompileOptions, CompileProfile, DevProfile, ProjectProfile, ReleaseProfile};
use abuild::project::Project;
use abuild::sources::{
    DiscoveryError, Entry, EntryKind, ProjectSources, ProjectSourcesInDir, ProjectSourcesInDirIter,
    Source, WalkAction, WalkEvent,
};

/// A filesystem held in memory: each path is a file, a directory listing its
/// children's names, a link to another path, or a node of another kind.
enum Node {
    File,
    Dir(Vec<&'static str>),
    Link(&'static str),
    Socket,
    /// A directory whose listing fails.
    Locked,
}

struct Fs {
    nodes: BTreeMap<String, Node>,
}

impl Fs {
    fn new(nodes: Vec<(&str, Node)>) -> Fs {
        Fs { nodes: nodes.into_iter().map(|(p, n)| (p.to_string(), n)).collect() }
    }

    fn kind(&self, path: &str) -> EntryKind {
        match self.nodes.get(path) {
            Some(Node::File) => EntryKind::File,
            Some(Node::Dir(_)) | Some(Node::Locked) => EntryKind::Dir,
            Some(Node::Link(_)) => EntryKind::Symlink,
            Some(Node::Socket) => EntryKind::Other,
            None => EntryKind::Unreadable(format!("no such entry: {path}")),
        }
    }

    fn list(&self, dir: &str) -> Result<Vec<Entry>, String> {
        match self.nodes.get(dir) {
            Some(Node::Dir(children)) => Ok(children
                .iter()
                .map(|c| {
                    let path = format!("{dir}/{c}");
                    let kind = self.kind(&path);
                    Entry { path, kind }
                })
                .collect()),
            _ => Err(format!("not a directory: {dir}")),
        }
    }

    fn resolve(&self, link: &str) -> Result<Entry, String> {
        match self.nodes.get(link) {
            Some(Node::Link(target)) => {
                Ok(Entry { path: target.to_string(), kind: self.kind(target) })
            }
            _ => Err(format!("not a link: {link}")),
        }
    }

    /// Drives a whole walk from `root` and collects what it yields.
    fn discover(&self, root: &str) -> Vec<Result<Source, DiscoveryError>> {
        let provider = ProjectSourcesInDir::new(root.to_string());
        assert_eq!(provider.root(), root);
        let mut walk: ProjectSourcesInDirIter = provider.sources(self.list(root)).unwrap();
        let mut items = Vec::new();
        let mut event = WalkEvent::Next;
        for _ in 0..10_000 {
            match walk.step(event) {
                WalkAction::Finished => return items,
                WalkAction::Yield(item) => {
                    items.push(item);
                    event = WalkEvent::Next;
                }
                WalkAction::ReadDir(dir) => event = WalkEvent::Listed(self.list(&dir)),
                WalkAction::ReadLink(link) => event = WalkEvent::Resolved(self.resolve(&link)),
            }
        }
        panic!("the walk did not finish");
    }
}

fn ok_paths(items: &[Result<Source, DiscoveryError>]) -> Vec<String> {
    items.iter().filter_map(|i| i.as_ref().ok()).map(|s| s.file_path.clone()).collect()
}

fn assert_unique(paths: &[String]) {
    let set: BTreeSet<&String> = paths.iter().collect();
    assert_eq!(set.len(), paths.len(), "duplicate paths in {paths:?}");
}

#[test]
fn discovers_every_regular_file_once() {
    let fs = Fs::new(vec![
        ("src", Node::Dir(vec!["main.rs", "lib.c", "inc", "deep"])),
        ("src/main.rs", Node::File),
        ("src/lib.c", Node::File),
        ("src/inc", Node::Dir(vec!["lib.h", "x.hpp"])),
        ("src/inc/lib.h", Node::File),
        ("src/inc/x.hpp", Node::File),
        ("src/deep", Node::Dir(vec!["a"])),
        ("src/deep/a", Node::Dir(vec!["m.ixx", "empty"])),
        ("src/deep/a/m.ixx", Node::File),
        ("src/deep/a/empty", Node::Dir(vec![])),
    ]);
    let items = fs.discover("src");
    assert_eq!(items.len(), 5);
    assert!(items.iter().all(|i| i.is_ok()));
    let paths = ok_paths(&items);
    assert_unique(&paths);
    let found: BTreeMap<String, FileType> =
        items.into_iter().map(|i| i.unwrap()).map(|s| (s.file_path, s.file_type)).collect();
    assert_eq!(found.get("src/main.rs"), Some(&FileType::Rust));
    assert_eq!(found.get("src/lib.c"), Some(&FileType::CSource));
    assert_eq!(found.get("src/inc/lib.h"), Some(&FileType::CHeader));
    assert_eq!(found.get("src/inc/x.hpp"), Some(&FileType::CPPHeader));
    assert_eq!(found.get("src/deep/a/m.ixx"), Some(&FileType::CPPModule));
}

#[test]
fn discovered_sources_carry_the_default_options() {
    let fs = Fs::new(vec![("src", Node::Dir(vec!["a.cs"])), ("src/a.cs", Node::File)]);
    let items = fs.discover("src");
    let s = items[0].as_ref().unwrap();
    assert_eq!(s.file_type, FileType::CSharp);
    assert_eq!(s.compile_options, CompileOptions::default());
}

#[test]
fn empty_tree_yields_nothing() {
    let fs = Fs::new(vec![("src", Node::Dir(vec![]))]);
    assert!(fs.discover("src").is_empty());
}

#[test]
fn link_to_itself_is_skipped() {
    let fs = Fs::new(vec![
        ("src", Node::Dir(vec!["self", "main.rs"])),
        ("src/self", Node::Link("src/self")),
        ("src/main.rs", Node::File),
    ]);
    let items = fs.discover("src");
    assert_eq!(ok_paths(&items), vec!["src/main.rs".to_string()]);
    assert_eq!(items.len(), 1);
}

#[test]
fn link_to_an_ancestor_terminates_and_yields_each_file_once() {
    let fs = Fs::new(vec![
        ("src", Node::Dir(vec!["main.rs", "sub"])),
        ("src/main.rs", Node::File),
        ("src/sub", Node::Dir(vec!["util.rs", "up", "again"])),
        ("src/sub/util.rs", Node::File),
        ("src/sub/up", Node::Link("src")),
        ("src/sub/again", Node::Link("src/sub")),
    ]);
    let items = fs.discover("src");
    assert_eq!(items.len(), 2);
    let paths = ok_paths(&items);
    assert_unique(&paths);
    assert!(paths.contains(&"src/main.rs".to_string()));
    assert!(paths.contains(&"src/sub/util.rs".to_string()));
}

#[test]
fn link_chains_are_followed() {
    let fs = Fs::new(vec![
        ("src", Node::Dir(vec!["l1"])),
        ("src/l1", Node::Link("other/l2")),
        ("other/l2", Node::Link("lib/real")),
        ("lib/real", Node::Dir(vec!["x.cc"])),
        ("lib/real/x.cc", Node::File),
    ]);
    let items = fs.discover("src");
    assert_eq!(ok_paths(&items), vec!["lib/real/x.cc".to_string()]);
}

#[test]
fn two_links_to_one_file_yield_it_once() {
    let fs = Fs::new(vec![
        ("src", Node::Dir(vec!["a", "b", "c.rs"])),
        ("src/a", Node::Link("src/c.rs")),
        ("src/b", Node::Link("src/c.rs")),
        ("src/c.rs", Node::File),
    ]);
    let items = fs.discover("src");
    assert_eq!(ok_paths(&items), vec!["src/c.rs".to_string()]);
}

#[test]
fn one_unknown_extension_gives_one_error() {
    let fs = Fs::new(vec![
        ("src", Node::Dir(vec!["a.rs", "b.rs", "notes.txt", "d"])),
        ("src/a.rs", Node::File),
        ("src/b.rs", Node::File),
        ("src/notes.txt", Node::File),
        ("src/d", Node::Dir(vec!["c.rs"])),
        ("src/d/c.rs", Node::File),
    ]);
    let items = fs.discover("src");
    assert_eq!(items.len(), 4);
    let errors: Vec<&DiscoveryError> = items.iter().filter_map(|i| i.as_ref().err()).collect();
    assert_eq!(errors, vec![&DiscoveryError::UnknownFileType("src/notes.txt".to_string())]);
    assert_eq!(ok_paths(&items).len(), 3);
}

#[test]
fn unreadable_entries_and_odd_kinds_are_io_errors_and_the_walk_goes_on() {
    let fs = Fs::new(vec![
        ("src", Node::Dir(vec!["gone", "sock", "bad", "broken", "ok.rs"])),
        ("src/sock", Node::Socket),
        ("src/bad", Node::Link("nowhere")),
        ("src/broken", Node::Locked),
        ("src/ok.rs", Node::File),
    ]);
    let items = fs.discover("src");
    let errors: Vec<DiscoveryError> = items.iter().filter_map(|i| i.clone().err()).collect();
    assert!(errors.contains(&DiscoveryError::Io("no such entry: src/gone".to_string())));
    assert!(errors.contains(&DiscoveryError::Io("unsupported entry kind: src/sock".to_string())));
    assert!(errors.contains(&DiscoveryError::Io("no such entry: nowhere".to_string())));
    assert!(errors.contains(&DiscoveryError::Io("not a directory: src/broken".to_string())));
    assert_eq!(errors.len(), 4);
    assert_eq!(ok_paths(&items), vec!["src/ok.rs".to_string()]);
}

#[test]
fn failed_listing_is_an_io_item() {
    let mut walk = ProjectSourcesInDirIter::from_dir(
        vec![Entry { path: "src/d".to_string(), kind: EntryKind::Dir }],
    );
    match walk.step(WalkEvent::Next) {
        WalkAction::ReadDir(p) => assert_eq!(p, "src/d"),
        other => panic!("unexpected {other:?}"),
    }
    match walk.step(WalkEvent::Listed(Err("permission denied".to_string()))) {
        WalkAction::Yield(Err(DiscoveryError::Io(m))) => assert_eq!(m, "permission denied"),
        other => panic!("unexpected {other:?}"),
    }
    assert!(matches!(walk.step(WalkEvent::Next), WalkAction::Finished));
}

#[test]
fn failed_link_resolution_is_an_io_item() {
    let mut walk = ProjectSourcesInDirIter::from_dir(
        vec![Entry { path: "src/l".to_string(), kind: EntryKind::Symlink }],
    );
    assert!(matches!(walk.step(WalkEvent::Next), WalkAction::ReadLink(p) if p == "src/l"));
    match walk.step(WalkEvent::Resolved(Err("dangling".to_string()))) {
        WalkAction::Yield(Err(DiscoveryError::Io(m))) => assert_eq!(m, "dangling"),
        other => panic!("unexpected {other:?}"),
    }
    assert!(matches!(walk.step(WalkEvent::Next), WalkAction::Finished));
}

#[test]
fn unreadable_root_is_an_io_error() {
    let provider = ProjectSourcesInDir::new("missing".to_string());
    match provider.sources(Err("not found".to_string())) {
        Err(DiscoveryError::Io(m)) => assert_eq!(m, "not found"),
        Ok(_) => panic!("expected an error"),
        Err(e) => panic!("unexpected {e:?}"),
    }
}

#[test]
fn root_reached_through_a_link_is_not_walked_again() {
    let fs = Fs::new(vec![
        ("src", Node::Dir(vec!["loop", "a.h"])),
        ("src/loop", Node::Link("src")),
        ("src/a.h", Node::File),
    ]);
    let items = fs.discover("src");
    assert_eq!(ok_paths(&items), vec!["src/a.h".to_string()]);
}

#[test]
fn build_scenario_on_discovered_sources() {
    let fs = Fs::new(vec![
        ("src", Node::Dir(vec!["main.rs", "util.rs"])),
        ("src/main.rs", Node::File),
        ("src/util.rs", Node::File),
    ]);
    let mut project = Project::builder().build().unwrap();
    project.register_profile("debug".to_string(), ProjectProfile::Dev(DevProfile {}));
    project.register_profile("release".to_string(), ProjectProfile::Release(ReleaseProfile {}));
    project.register_command("build".to_string(), ProjectCommand::Build(BuildCommand {}));
    let root = project.sources().root();
    let items = fs.discover(&root);
    assert_eq!(items.len(), 2);
    let sources: Vec<Source> = items.into_iter().map(|i| i.unwrap()).collect();
    assert!(sources.iter().all(|s| s.file_type == FileType::Rust));
    let compiler = ComplierInfo::new("rustc".to_string(), "1.80.0".to_string(), Langauge::Rust);
    let outcome = project.run_command("build", String::new(), &CommandEnv { sources, compiler }).unwrap();
    let mut paths: Vec<&str> = outcome.work.iter().map(|s| s.file_path.as_str()).collect();
    paths.sort();
    assert_eq!(paths, vec!["src/main.rs", "src/util.rs"]);
    for s in outcome.work.iter() {
        assert_eq!(s.file_type, FileType::Rust);
        assert_eq!(s.compile_options.profile, Some(CompileProfile::Debug));
        assert_eq!(s.compile_options, CompileOptions::dev());
    }
}

#[test]
fn a_fresh_walk_has_nothing_visited() {
    let provider = ProjectSourcesInDir::new("src".to_string());
    let link = Entry { path: "src/loop".to_string(), kind: EntryKind::Symlink };
    let mut walk = provider.sources(Ok(vec![link.clone()])).unwrap();
    assert!(matches!(walk.step(WalkEvent::Next), WalkAction::ReadLink(p) if p == "src/loop"));
    let root = Entry { path: "src".to_string(), kind: EntryKind::Dir };
    // The root itself is examined once, when a link leads back to it.
    assert!(matches!(walk.step(WalkEvent::Resolved(Ok(root))), WalkAction::ReadDir(p) if p == "src"));
    assert!(matches!(walk.step(WalkEvent::Listed(Ok(vec![link]))), WalkAction::Finished));
}
