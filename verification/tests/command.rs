use graftfs::color_support::TextSegment;
use graftfs::command::Command;
use graftfs::command_builder::CommandBuilder;
use graftfs::command_error::{CommandBuildError, CommandError};
use graftfs::operation::{CommandOperation, Recorder};
use std::collections::BTreeMap;

/// What a path holds in the in-memory file system.
#[derive(Clone, Debug, PartialEq)]
enum Node {
    Dir,
    File(String),
    Link(String),
}

/// An in-memory file system with absolute, `/`-separated paths.
#[derive(Default)]
struct MemFs {
    nodes: BTreeMap<String, Node>,
    shown: Vec<String>,
}

fn normalize(path: &str) -> String {
    let mut parts: Vec<&str> = Vec::new();
    for p in path.split('/') {
        match p {
            "" | "." => {}
            ".." => {
                parts.pop();
            }
            other => parts.push(other),
        }
    }
    format!("/{}", parts.join("/"))
}

fn parent_of(path: &str) -> String {
    let n = normalize(path);
    match n.rfind('/') {
        Some(0) | None => "/".to_string(),
        Some(i) => n[..i].to_string(),
    }
}

impl MemFs {
    fn dir(&mut self, path: &str) {
        let n = normalize(path);
        let mut cur = String::new();
        for part in n.split('/').filter(|p| !p.is_empty()) {
            cur = format!("{cur}/{part}");
            self.nodes.entry(cur.clone()).or_insert(Node::Dir);
        }
    }

    fn file(&mut self, path: &str, content: &str) {
        self.dir(&parent_of(path));
        self.nodes.insert(normalize(path), Node::File(content.to_string()));
    }

    fn lstat(&self, path: &str) -> Option<Node> {
        let n = normalize(path);
        if n == "/" {
            return Some(Node::Dir);
        }
        self.nodes.get(&n).cloned()
    }

    /// The path with every link followed, if it exists.
    fn resolve(&self, path: &str) -> Option<String> {
        let n = normalize(path);
        let mut cur = String::from("/");
        let parts: Vec<String> = n.split('/').filter(|p| !p.is_empty()).map(|p| p.to_string()).collect();
        for part in parts {
            let next = normalize(&format!("{cur}/{part}"));
            let mut resolved = next.clone();
            let mut hops = 0;
            while let Some(Node::Link(target)) = self.lstat(&resolved) {
                hops += 1;
                if hops > 20 {
                    return None;
                }
                resolved = normalize(&target);
            }
            self.lstat(&resolved)?;
            cur = resolved;
        }
        Some(cur)
    }

    fn stat(&self, path: &str) -> Option<Node> {
        self.resolve(path).and_then(|p| self.lstat(&p))
    }

    fn read(&self, path: &str) -> Option<String> {
        match self.stat(path) {
            Some(Node::File(c)) => Some(c),
            _ => None,
        }
    }

    fn is_link(&self, path: &str) -> bool {
        matches!(self.lstat(path), Some(Node::Link(_)))
    }

    fn children(&self, dir: &str) -> Vec<String> {
        let d = normalize(dir);
        self.nodes
            .keys()
            .filter(|k| parent_of(k) == d && **k != d)
            .map(|k| k.rsplit('/').next().unwrap_or("").to_string())
            .collect()
    }
}

impl CommandOperation for MemFs {
    fn is_directory(&self, path: &str) -> bool {
        matches!(self.stat(path), Some(Node::Dir))
    }

    fn is_symlink(&self, path: &str) -> bool {
        self.is_link(path)
    }

    fn is_file(&self, path: &str) -> bool {
        matches!(self.stat(path), Some(Node::File(_)))
    }

    fn path_exists(&self, path: &str) -> bool {
        self.stat(path).is_some()
    }

    fn canonicalize(&self, path: &str) -> Result<String, String> {
        self.resolve(path).ok_or_else(|| "No such file or directory".to_string())
    }

    fn read_directory(&self, path: &str) -> Result<Vec<Result<String, CommandError>>, CommandError> {
        let resolved = match self.resolve(path) {
            Some(p) if matches!(self.lstat(&p), Some(Node::Dir)) => p,
            _ => return Err(CommandError::DirectoryReadError { message: format!("cannot read {path}") }),
        };
        let base = path.trim_end_matches('/');
        Ok(self.children(&resolved).into_iter().map(|n| Ok(format!("{base}/{n}"))).collect())
    }

    fn read_link(&self, path: &str) -> Result<String, CommandError> {
        match self.lstat(path) {
            Some(Node::Link(t)) => Ok(t),
            _ => Err(CommandError::ReadLinkError { path: path.to_string(), message: "not a link".to_string() }),
        }
    }

    fn link_item(&mut self, item: &str, target: &str) -> Result<(), CommandError> {
        if self.lstat(target).is_some() || !matches!(self.stat(&parent_of(target)), Some(Node::Dir)) {
            return Err(CommandError::SymLinkError {
                target: item.to_string(),
                destination: target.to_string(),
                message: "cannot link".to_string(),
            });
        }
        self.nodes.insert(normalize(target), Node::Link(item.to_string()));
        Ok(())
    }

    fn create_directory(&mut self, path: &str) -> Result<(), CommandError> {
        if self.lstat(path).is_some() {
            return Err(CommandError::CreateDirectoryError { directory: path.to_string(), message: "exists".to_string() });
        }
        self.nodes.insert(normalize(path), Node::Dir);
        Ok(())
    }

    fn remove_item(&mut self, path: &str) -> Result<(), CommandError> {
        match self.lstat(path) {
            Some(Node::Dir) if self.children(path).is_empty() => {
                self.nodes.remove(&normalize(path));
                Ok(())
            }
            Some(Node::File(_)) => {
                self.nodes.remove(&normalize(path));
                Ok(())
            }
            _ => Err(CommandError::FileRemoveError { file: path.to_string(), message: "cannot remove".to_string() }),
        }
    }

    fn remove_link(&mut self, path: &str) -> Result<(), CommandError> {
        match self.lstat(path) {
            Some(Node::Link(_)) => {
                self.nodes.remove(&normalize(path));
                Ok(())
            }
            _ => Err(CommandError::FileRemoveError { file: path.to_string(), message: "not a link".to_string() }),
        }
    }

    fn show(&mut self, line: Vec<TextSegment>) {
        self.shown.push(line.into_iter().map(|s| s.text).collect::<String>());
    }
}

const TARGET: &str = "/home/user";

/// A package directory under `/stow` with the test data of `name`.
fn setup(name: &str) -> (MemFs, String) {
    let mut fs = MemFs::default();
    fs.dir(TARGET);
    let pkg = format!("/stow/{name}");
    fs.dir(&pkg);
    match name {
        "basic_stow_test" => {
            fs.file(&format!("{pkg}/linked-file.txt"), "linked\n");
            fs.file(&format!("{pkg}/linked-directory/sub-file.txt"), "sub\n");
        }
        "existing_directory_test" => {
            fs.file(&format!("{pkg}/linked-file.txt"), "linked\n");
            fs.file(&format!("{pkg}/linked-directory/sub-file.txt"), "sub\n");
            fs.file(&format!("{pkg}/existing-directory/new-file.txt"), "new\n");
        }
        "dotfiles_test" => {
            fs.file(&format!("{pkg}/dot-bashrc"), "export A=1\n");
            fs.file(&format!("{pkg}/regular-file.txt"), "regular\n");
        }
        "ignored_test" => {
            fs.file(&format!("{pkg}/keep-file.txt"), "keep\n");
            fs.file(&format!("{pkg}/ignored-file.txt"), "ignored\n");
        }
        "conflict_test" => {
            fs.file(&format!("{pkg}/conflict-file.txt"), "package\n");
        }
        "folding_test" | "no_folding_test" => {
            fs.file(&format!("{pkg}/dir1/file1.txt"), "one\n");
        }
        "override_file_test" => {
            fs.file(&format!("{pkg}/file.txt"), "original content\n");
        }
        "dir_conflict_test" => {
            fs.file(&format!("{pkg}/dir1/file1.txt"), "one\n");
        }
        "ignore_override_test" => {
            fs.file(&format!("{pkg}/ignored-and-overridden.txt"), "both\n");
        }
        "idempotent_test" => {
            fs.file(&format!("{pkg}/file1.txt"), "one\n");
        }
        "restow_test" => {
            fs.file(&format!("{pkg}/file.txt"), "file\n");
        }
        _ => {}
    }
    (fs, pkg)
}

fn default_builder(pkg: &str) -> CommandBuilder {
    CommandBuilder::new().with_target(TARGET.to_string()).with_packages(vec![pkg.to_string()])
}

fn run(fs: MemFs, command: Command) -> (MemFs, Result<(), CommandError>) {
    let mut recorder = Recorder::new(fs);
    let result = command.execute(&mut recorder);
    (recorder.into_inner(), result)
}

/// Every entry below `dir` is a link in `expected`, or a directory that holds such links.
fn validate_stow_result(fs: &MemFs, dir: &str, expected: &[String]) {
    for name in fs.children(dir) {
        let path = format!("{}/{}", dir.trim_end_matches('/'), name);
        if !fs.is_link(&path) && fs.is_directory(&path) {
            validate_stow_result(fs, &path, expected);
        } else {
            assert!(fs.is_link(&path));
            assert!(expected.contains(&path));
        }
    }
}

fn at(name: &str) -> String {
    format!("{TARGET}/{name}")
}

#[test]
fn existing_directory_test() {
    let (mut fs, pkg) = setup("existing_directory_test");
    let expected = [at("existing-directory/new-file.txt"), at("linked-file.txt"), at("linked-directory")];
    fs.dir(&at("existing-directory"));
    let command = default_builder(&pkg).stow().build();
    assert!(command.is_ok());
    let (fs, result) = run(fs, command.unwrap());
    assert!(result.is_ok());
    validate_stow_result(&fs, TARGET, &expected);
}

#[test]
fn basic_stow_test() {
    let (fs, pkg) = setup("basic_stow_test");
    let expected = [at("linked-file.txt"), at("linked-directory")];
    let command = default_builder(&pkg).stow().build();
    assert!(command.is_ok());
    let (fs, result) = run(fs, command.unwrap());
    assert!(result.is_ok());
    validate_stow_result(&fs, TARGET, &expected);
}

#[test]
fn dotfiles_stow_test() {
    let (fs, pkg) = setup("dotfiles_test");
    let expected = [at(".bashrc"), at("regular-file.txt")];
    let command = default_builder(&pkg).stow().with_dot_file_prefix(Some("dot-".to_string())).build();
    assert!(command.is_ok());
    let (fs, result) = run(fs, command.unwrap());
    assert!(result.is_ok());
    validate_stow_result(&fs, TARGET, &expected);
    let bashrc_link = fs.read_link(&at(".bashrc")).unwrap_or_default();
    assert!(bashrc_link.ends_with("dot-bashrc"));
}

#[test]
fn ignored_items_stow_test() {
    let (fs, pkg) = setup("ignored_test");
    let expected = [at("keep-file.txt")];
    let ignored = vec!["ignored-file.txt".to_string()];
    let command = default_builder(&pkg).stow().with_ignored(ignored).build();
    assert!(command.is_ok());
    let (fs, result) = run(fs, command.unwrap());
    assert!(result.is_ok());
    validate_stow_result(&fs, TARGET, &expected);
    assert!(!fs.path_exists(&at("ignored-file.txt")));
}

#[test]
fn conflict_error_test() {
    let (mut fs, pkg) = setup("conflict_test");
    fs.file(&at("conflict-file.txt"), "existing");
    let command = default_builder(&pkg).stow().build();
    assert!(command.is_ok());
    let (_fs, result) = run(fs, command.unwrap());
    assert!(result.is_err());
    match result.unwrap_err() {
        CommandError::DirectoryEntryAlreadyExists { directory } => {
            assert!(directory.contains("conflict-file.txt"));
        }
        e => panic!("Expected DirectoryEntryAlreadyExists error, got {e:?}"),
    }
}

#[test]
fn folding_stow_test() {
    let (fs, pkg) = setup("folding_test");
    let command = default_builder(&pkg).stow().build();
    assert!(command.is_ok());
    let (fs, result) = run(fs, command.unwrap());
    assert!(result.is_ok());
    assert!(fs.is_link(&at("dir1")));
}

#[test]
fn no_folding_stow_test() {
    let (fs, pkg) = setup("no_folding_test");
    let command = default_builder(&pkg).stow().with_no_folding(true).build();
    assert!(command.is_ok());
    let (fs, result) = run(fs, command.unwrap());
    assert!(result.is_ok());
    let dir1 = at("dir1");
    assert!(fs.path_exists(&dir1));
    assert!(fs.is_directory(&dir1));
    assert!(!fs.is_link(&dir1));
    assert!(fs.is_link(&format!("{dir1}/file1.txt")));
}

#[test]
fn override_existing_file_test() {
    let (mut fs, pkg) = setup("override_file_test");
    let target_file = at("file.txt");
    fs.file(&target_file, "existing content");
    let overrides = vec![".*file.txt".to_string()];
    let command = default_builder(&pkg).stow().with_overrides(overrides).build();
    assert!(command.is_ok());
    let (fs, result) = run(fs, command.unwrap());
    assert!(result.is_ok());
    assert!(fs.path_exists(&target_file));
    assert!(fs.is_link(&target_file));
    let link_target = fs.read_link(&target_file);
    assert!(link_target.is_ok());
    assert!(link_target.unwrap().ends_with("file.txt"));
    let content = fs.read(&target_file);
    assert!(content.is_some());
    assert_eq!(content.unwrap(), "original content\n");
}

#[test]
fn directory_vs_file_conflict_test() {
    let (mut fs, pkg) = setup("dir_conflict_test");
    let target_dir1 = at("dir1");
    fs.file(&target_dir1, "i am a file");
    let command = default_builder(&pkg).stow().build();
    assert!(command.is_ok());
    let (fs, result) = run(fs, command.unwrap());
    assert!(result.is_err());
    match result.unwrap_err() {
        CommandError::DirectoryEntryAlreadyExists { directory } => {
            assert_eq!(directory, "dir1");
        }
        e => panic!("Expected DirectoryEntryAlreadyExists error, got {e:?}"),
    }
    assert!(fs.path_exists(&target_dir1));
    assert!(!fs.is_link(&target_dir1));
    assert!(fs.is_file(&target_dir1));
    assert_eq!(fs.read(&target_dir1).unwrap(), "i am a file");
}

#[test]
fn ignored_is_not_overridden_test() {
    let (fs, pkg) = setup("ignore_override_test");
    let target_file = at("ignored-and-overridden.txt");
    let command = default_builder(&pkg)
        .stow()
        .with_ignored(vec![".*ignored.*".to_string()])
        .with_overrides(vec![".*overridden.*".to_string()])
        .build();
    assert!(command.is_ok());
    let (fs, result) = run(fs, command.unwrap());
    assert!(result.is_ok());
    assert!(!fs.path_exists(&target_file));
}

#[test]
fn target_missing_error_test() {
    let (fs, pkg) = setup("target_missing_test");
    let target_path = at("non-existent-target");
    let command = CommandBuilder::new().with_target(target_path).with_packages(vec![pkg]).stow().build();
    assert!(command.is_ok());
    let (_fs, result) = run(fs, command.unwrap());
    assert!(result.is_err());
    match result.unwrap_err() {
        CommandError::InvalidTargetDirectory { directory } => {
            assert!(directory.contains("non-existent-target"));
        }
        e => panic!("Expected InvalidTargetDirectory error, got {e:?}"),
    }
}

#[test]
fn stow_dir_missing_error_test() {
    let (fs, pkg) = setup("stow_dir_missing_test");
    let stow_dir = format!("{pkg}/non-existent-stow-dir");
    let command = CommandBuilder::new().with_target(TARGET.to_string()).with_packages(vec![stow_dir]).stow().build();
    assert!(command.is_ok());
    let (_fs, result) = run(fs, command.unwrap());
    assert!(result.is_err());
    match result.unwrap_err() {
        CommandError::StowDirectoryNotFound { directory } => {
            assert!(directory.contains("non-existent-stow-dir"));
        }
        e => panic!("Expected StowDirectoryNotFound error, got {e:?}"),
    }
}

#[test]
fn same_dir_error_test() {
    let (fs, pkg) = setup("same_dir_test");
    let command = default_builder(&pkg).with_target(pkg.clone()).stow().build();
    assert!(command.is_ok());
    let (_fs, result) = run(fs, command.unwrap());
    assert!(result.is_err());
    match result.unwrap_err() {
        CommandError::InvalidStowDirectory { directory } => {
            assert!(directory.contains(pkg.as_str()));
        }
        e => panic!("Expected InvalidStowDirectory error, got {e:?}"),
    }
}

#[test]
fn target_is_file_error_test() {
    let (mut fs, pkg) = setup("target_is_file_test");
    let target_path = at("target-file");
    fs.file(&target_path, "I am a file");
    let command = default_builder(&pkg).with_target(target_path).stow().build();
    assert!(command.is_ok());
    let (_fs, result) = run(fs, command.unwrap());
    assert!(result.is_err());
    match result.unwrap_err() {
        CommandError::InvalidTargetDirectory { directory } => {
            assert!(directory.contains("target-file"));
        }
        e => panic!("Expected InvalidTargetDirectory error, got {e:?}"),
    }
}

#[test]
fn missing_target_build_error_test() {
    let result = CommandBuilder::new().with_packages(vec!["/some/dir".to_string()]).stow().build();
    assert!(result.is_err());
    match result.err().unwrap() {
        CommandBuildError::MissingTargetDirectory => {}
        e => panic!("Expected MissingTargetDirectory error, got {e:?}"),
    }
}

#[test]
fn missing_stow_dir_build_error_test() {
    let result = CommandBuilder::new().with_target("/some/target".to_string()).stow().build();
    assert!(result.is_err());
    match result.err().unwrap() {
        CommandBuildError::MissingStowDirectory => {}
        e => panic!("Expected MissingStowDirectory error, got {e:?}"),
    }
}

#[test]
fn idempotent_stow_test() {
    let (fs, pkg) = setup("idempotent_test");
    let expected = [at("file1.txt")];
    let command = default_builder(&pkg).stow().build();
    assert!(command.is_ok());
    let (fs, result) = run(fs, command.unwrap());
    assert!(result.is_ok());
    validate_stow_result(&fs, TARGET, &expected);
    let command2 = default_builder(&pkg).stow().build();
    assert!(command2.is_ok());
    let (fs, result) = run(fs, command2.unwrap());
    assert!(result.is_ok());
    validate_stow_result(&fs, TARGET, &expected);
}

#[test]
fn restow_test() {
    let (fs, pkg) = setup("restow_test");
    let target_file = at("file.txt");
    let command = default_builder(&pkg).restow().build();
    assert!(command.is_ok());
    let (fs, result) = run(fs, command.unwrap());
    assert!(result.is_ok());
    assert!(fs.path_exists(&target_file));
    assert!(fs.is_link(&target_file));
    let command = default_builder(&pkg).restow().build();
    assert!(command.is_ok());
    let (fs, result) = run(fs, command.unwrap());
    assert!(result.is_ok());
    assert!(fs.path_exists(&target_file));
    assert!(fs.is_link(&target_file));
}

#[test]
fn basic_unstow_test() {
    let (fs, pkg) = setup("basic_stow_test");
    let command = default_builder(&pkg).stow().build();
    assert!(command.is_ok());
    let (fs, result) = run(fs, command.unwrap());
    assert!(result.is_ok());
    assert!(fs.path_exists(&at("linked-file.txt")));
    assert!(fs.path_exists(&at("linked-directory")));
    let command = default_builder(&pkg).unstow().build();
    assert!(command.is_ok());
    let (fs, result) = run(fs, command.unwrap());
    assert!(result.is_ok());
    assert!(!fs.path_exists(&at("linked-file.txt")));
    assert!(!fs.path_exists(&at("linked-directory")));
}

#[test]
fn unstow_with_folding_disabled_test() {
    let (fs, pkg) = setup("no_folding_test");
    let command = default_builder(&pkg).stow().with_no_folding(true).build();
    assert!(command.is_ok());
    let (fs, result) = run(fs, command.unwrap());
    assert!(result.is_ok());
    let target_dir = at("dir1");
    let target_file = format!("{target_dir}/file1.txt");
    assert!(fs.path_exists(&target_dir));
    assert!(fs.is_directory(&target_dir));
    assert!(fs.path_exists(&target_file));
    assert!(fs.is_link(&target_file));
    let command = default_builder(&pkg).unstow().build();
    assert!(command.is_ok());
    let (fs, result) = run(fs, command.unwrap());
    assert!(result.is_ok());
    assert!(!fs.path_exists(&target_file));
    assert!(!fs.path_exists(&target_dir));
}

#[test]
fn unstow_dotfiles_test() {
    let (fs, pkg) = setup("dotfiles_test");
    let command = default_builder(&pkg).stow().with_dot_file_prefix(Some("dot-".to_string())).build();
    assert!(command.is_ok());
    let (fs, result) = run(fs, command.unwrap());
    assert!(result.is_ok());
    let dot_bashrc = at(".bashrc");
    let regular_file = at("regular-file.txt");
    assert!(fs.path_exists(&dot_bashrc));
    assert!(fs.is_link(&dot_bashrc));
    assert!(fs.path_exists(&regular_file));
    assert!(fs.is_link(&regular_file));
    let command = default_builder(&pkg).unstow().with_dot_file_prefix(Some("dot-".to_string())).build();
    assert!(command.is_ok());
    let (fs, result) = run(fs, command.unwrap());
    assert!(result.is_ok());
    assert!(!fs.path_exists(&dot_bashrc));
    assert!(!fs.path_exists(&regular_file));
}

#[test]
fn unstow_nested_directories_test() {
    let (fs, pkg) = setup("basic_stow_test");
    let command = default_builder(&pkg).stow().with_no_folding(true).build();
    assert!(command.is_ok());
    let (fs, result) = run(fs, command.unwrap());
    assert!(result.is_ok());
    let target_dir = at("linked-directory");
    let target_file = format!("{target_dir}/sub-file.txt");
    let target_file2 = at("linked-file.txt");
    assert!(fs.path_exists(&target_dir));
    assert!(fs.is_directory(&target_dir));
    assert!(fs.path_exists(&target_file));
    assert!(fs.is_link(&target_file));
    assert!(fs.path_exists(&target_file2));
    assert!(fs.is_link(&target_file2));
    let command = default_builder(&pkg).unstow().build();
    assert!(command.is_ok());
    let (fs, result) = run(fs, command.unwrap());
    assert!(result.is_ok());
    assert!(!fs.path_exists(&target_file));
    assert!(!fs.path_exists(&target_dir));
    assert!(!fs.path_exists(&target_file2));
}

// ---------------------------------------------------------------------------
// Further cases.

#[test]
fn list_shows_stowed_links_and_changes_nothing() {
    let (fs, pkg) = setup("basic_stow_test");
    let command = default_builder(&pkg).stow().build();
    let (fs, result) = run(fs, command.unwrap());
    assert!(result.is_ok());
    let before = fs.nodes.clone();
    let command = default_builder(&pkg).list().build();
    let (fs, result) = run(fs, command.unwrap());
    assert!(result.is_ok());
    assert_eq!(fs.nodes, before);
    assert_eq!(
        fs.shown,
        vec![
            format!("LINK: {pkg}/linked-directory => {TARGET}/linked-directory"),
            format!("LINK: {pkg}/linked-file.txt => {TARGET}/linked-file.txt"),
        ]
    );
}

#[test]
fn stow_with_no_packages_changes_nothing() {
    let (fs, _pkg) = setup("basic_stow_test");
    let before = fs.nodes.clone();
    let command = CommandBuilder::new().with_target(TARGET.to_string()).with_packages(vec![]).stow().build();
    let (fs, result) = run(fs, command.unwrap());
    assert!(result.is_ok());
    assert_eq!(fs.nodes, before);
}

#[test]
fn unstow_leaves_foreign_files() {
    let (fs, pkg) = setup("basic_stow_test");
    let command = default_builder(&pkg).stow().with_no_folding(true).build();
    let (mut fs, result) = run(fs, command.unwrap());
    assert!(result.is_ok());
    fs.file(&at("linked-directory/mine.txt"), "mine");
    let command = default_builder(&pkg).unstow().build();
    let (fs, result) = run(fs, command.unwrap());
    assert!(result.is_ok());
    assert!(fs.is_file(&at("linked-directory/mine.txt")));
    assert!(!fs.path_exists(&at("linked-directory/sub-file.txt")));
    assert!(!fs.path_exists(&at("linked-file.txt")));
}

#[test]
fn symlink_in_package_is_refused() {
    let (mut fs, pkg) = setup("restow_test");
    fs.nodes.insert(format!("{pkg}/a-link"), Node::Link("/elsewhere".to_string()));
    let command = default_builder(&pkg).stow().build();
    let (_fs, result) = run(fs, command.unwrap());
    match result {
        Err(CommandError::InvalidStowItem { item }) => assert_eq!(item, format!("{pkg}/a-link")),
        other => panic!("Expected InvalidStowItem, got {other:?}"),
    }
}

#[test]
fn top_level_ignore_pattern_uses_package_relative_path() {
    let (fs, pkg) = setup("basic_stow_test");
    let command = default_builder(&pkg).stow().with_ignored(vec!["^/linked-file.txt".to_string()]).build();
    let (fs, result) = run(fs, command.unwrap());
    assert!(result.is_ok());
    assert!(!fs.path_exists(&at("linked-file.txt")));
    assert!(fs.is_link(&at("linked-directory")));
}

#[test]
fn command_names() {
    let (_fs, pkg) = setup("basic_stow_test");
    assert_eq!(default_builder(&pkg).stow().build().unwrap().name(), "Stow");
    assert_eq!(default_builder(&pkg).unstow().build().unwrap().name(), "UnStow");
    assert_eq!(default_builder(&pkg).restow().build().unwrap().name(), "ReStow");
    assert_eq!(default_builder(&pkg).list().build().unwrap().name(), "List");
}
