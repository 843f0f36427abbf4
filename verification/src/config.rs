use vstd::prelude::*;

use crate::paths::{is_absolute_path, is_absolute_spec, join_path, join_spec};
use crate::text::{str_equal, string_views};
use crate::worktree::WorktreeError;

verus! {

/// The whole configuration (`config.toml`):
///
/// ```toml
/// [worktree]
/// root_dir = ".wtxr/worktrees"
/// default_base_branch = "main"
///
/// [copy]
/// patterns = ["*.env"]
/// [[copy.files]]
/// from = ".env.example"
/// to = ".env"
///
/// [hooks]
/// pre_create = ["echo pre"]
/// post_create = ["echo post"]
/// post_copy = ["echo copied"]
/// ```
#[derive(Debug, Clone)]
pub struct Config {
    pub worktree: WorktreeConfig,
    pub copy: CopyConfig,
    pub hooks: HooksConfig,
}

/// Where worktrees are placed.
#[derive(Debug, Clone)]
pub struct WorktreeConfig {
    /// Directory of the worktrees, relative to the repository root; empty
    /// means `.wtxr/worktrees`.
    pub root_dir: String,
    /// Default base branch.
    pub default_base_branch: String,
}

/// Which files to copy into a new worktree.
#[derive(Debug, Clone)]
pub struct CopyConfig {
    /// Glob patterns of files to copy (such as `*.env`).
    pub patterns: Vec<String>,
    /// Explicit file mappings (which may rename).
    pub files: Vec<CopyFile>,
}

/// A file mapping `from` → `to`.
#[derive(Debug, Clone)]
pub struct CopyFile {
    pub from: String,
    pub to: String,
}

/// Commands run around the creation of a worktree.
#[derive(Debug, Clone)]
pub struct HooksConfig {
    /// Run before the worktree is created.
    pub pre_create: Vec<String>,
    /// Run after the worktree is created.
    pub post_create: Vec<String>,
    /// Run after the files are copied.
    pub post_copy: Vec<String>,
}

/// The mathematical value of a [`CopyFile`].
pub struct CopyFileView {
    pub from: Seq<char>,
    pub to: Seq<char>,
}

impl View for CopyFile {
    type V = CopyFileView;

    open spec fn view(&self) -> CopyFileView {
        CopyFileView { from: self.from@, to: self.to@ }
    }
}

/// The views of a sequence of file mappings.
pub open spec fn copy_file_views(v: Seq<CopyFile>) -> Seq<CopyFileView> {
    v.map_values(|f: CopyFile| f@)
}

/// The mathematical value of a [`Config`].
#[verifier::ext_equal]
pub struct ConfigView {
    pub root_dir: Seq<char>,
    pub default_base_branch: Seq<char>,
    pub patterns: Seq<Seq<char>>,
    pub files: Seq<CopyFileView>,
    pub pre_create: Seq<Seq<char>>,
    pub post_create: Seq<Seq<char>>,
    pub post_copy: Seq<Seq<char>>,
}

impl View for Config {
    type V = ConfigView;

    open spec fn view(&self) -> ConfigView {
        ConfigView {
            root_dir: self.worktree.root_dir@,
            default_base_branch: self.worktree.default_base_branch@,
            patterns: string_views(self.copy.patterns@),
            files: copy_file_views(self.copy.files@),
            pre_create: string_views(self.hooks.pre_create@),
            post_create: string_views(self.hooks.post_create@),
            post_copy: string_views(self.hooks.post_copy@),
        }
    }
}

/// The configuration when no file sets anything: every string and list empty.
pub open spec fn empty_config() -> ConfigView {
    ConfigView {
        root_dir: seq![],
        default_base_branch: seq![],
        patterns: seq![],
        files: seq![],
        pre_create: seq![],
        post_create: seq![],
        post_copy: seq![],
    }
}

impl Default for WorktreeConfig {
    fn default() -> (r: Self)
        ensures
            r.root_dir@ == Seq::<char>::empty(),
            r.default_base_branch@ == Seq::<char>::empty(),
    {
        WorktreeConfig { root_dir: String::new(), default_base_branch: String::new() }
    }
}

impl Default for CopyConfig {
    fn default() -> (r: Self)
        ensures
            r.patterns@ == Seq::<String>::empty(),
            r.files@ == Seq::<CopyFile>::empty(),
    {
        CopyConfig { patterns: Vec::new(), files: Vec::new() }
    }
}

impl Default for HooksConfig {
    fn default() -> (r: Self)
        ensures
            r.pre_create@ == Seq::<String>::empty(),
            r.post_create@ == Seq::<String>::empty(),
            r.post_copy@ == Seq::<String>::empty(),
    {
        HooksConfig { pre_create: Vec::new(), post_create: Vec::new(), post_copy: Vec::new() }
    }
}

impl Default for Config {
    fn default() -> (r: Self)
        ensures
            r@ == empty_config(),
    {
        let r = Config {
            worktree: WorktreeConfig::default(),
            copy: CopyConfig::default(),
            hooks: HooksConfig::default(),
        };
        assert(r@ =~= empty_config());
        r
    }
}


/// Where worktrees go when the configuration names no directory.
pub const DEFAULT_WORKTREES_DIR: &'static str = ".wtxr/worktrees";

/// The directory of the worktrees: the configured directory, or
/// `.wtxr/worktrees` when none is configured, joined onto the repository root.
pub open spec fn worktrees_dir_spec(repo_root: Seq<char>, cfg: ConfigView) -> Seq<char> {
    join_spec(
        repo_root,
        if cfg.root_dir.len() == 0 {
            DEFAULT_WORKTREES_DIR@
        } else {
            cfg.root_dir
        },
    )
}

/// The worktree path of a branch: the branch name (its slashes become
/// directories) joined onto the worktrees directory.
pub open spec fn worktree_path_spec(repo_root: Seq<char>, cfg: ConfigView, branch: Seq<char>) -> Seq<char> {
    join_spec(worktrees_dir_spec(repo_root, cfg), branch)
}

/// The path that a user's input names: an absolute input as it is; an input
/// that names an existing path, that path made absolute (`canonical`); any
/// other input under the worktrees directory.
pub open spec fn input_worktree_path_spec(
    repo_root: Seq<char>,
    cfg: ConfigView,
    input: Seq<char>,
    canonical: Option<Seq<char>>,
) -> Seq<char> {
    if is_absolute_spec(input) {
        input
    } else {
        match canonical {
            Some(c) => c,
            None => join_spec(worktrees_dir_spec(repo_root, cfg), input),
        }
    }
}

/// The directory of the worktrees.
pub fn resolve_worktrees_dir(repo_root: &str, cfg: &Config) -> (r: String)
    ensures
        r@ == worktrees_dir_spec(repo_root@, cfg@),
{
    if cfg.worktree.root_dir.unicode_len() == 0 {
        join_path(repo_root, DEFAULT_WORKTREES_DIR)
    } else {
        join_path(repo_root, cfg.worktree.root_dir.as_str())
    }
}

/// The worktree path of a branch; the branch's slashes become directories
/// (`feature/foo` → `<worktrees dir>/feature/foo`).
pub fn resolve_worktree_path(repo_root: &str, cfg: &Config, branch: &str) -> (r: String)
    ensures
        r@ == worktree_path_spec(repo_root@, cfg@, branch@),
{
    let dir = resolve_worktrees_dir(repo_root, cfg);
    join_path(dir.as_str(), branch)
}

/// The absolute path that a user's input names. `canonical` is the input
/// made absolute when it names an existing path, `None` when it does not.
pub fn resolve_input_worktree_path(
    repo_root: &str,
    cfg: &Config,
    input: &str,
    canonical: Option<String>,
) -> (r: String)
    ensures
        r@ == input_worktree_path_spec(
            repo_root@,
            cfg@,
            input@,
            match canonical {
                Some(c) => Some(c@),
                None => None,
            },
        ),
{
    if is_absolute_path(input) {
        return input.to_owned();
    }
    match canonical {
        Some(c) => c,
        None => {
            let dir = resolve_worktrees_dir(repo_root, cfg);
            join_path(dir.as_str(), input)
        },
    }
}

/// The local config file of a repository: `<root>/.wtxr/config.toml`.
pub open spec fn local_config_file_spec(repo_root: Seq<char>) -> Seq<char> {
    join_spec(join_spec(repo_root, ".wtxr"@), "config.toml"@)
}

/// The global config file in a user's config directory:
/// `<dir>/wtxr/config.toml`.
pub open spec fn global_config_file_spec(config_dir: Seq<char>) -> Seq<char> {
    join_spec(join_spec(config_dir, "wtxr"@), "config.toml"@)
}

/// The local config file of a repository.
pub fn local_config_file(repo_root: &str) -> (r: String)
    ensures
        r@ == local_config_file_spec(repo_root@),
{
    let dir = join_path(repo_root, ".wtxr");
    join_path(dir.as_str(), "config.toml")
}

/// The global config file in a user's config directory.
pub fn global_config_file(config_dir: &str) -> (r: String)
    ensures
        r@ == global_config_file_spec(config_dir@),
{
    let dir = join_path(config_dir, "wtxr");
    join_path(dir.as_str(), "config.toml")
}

/// The config file that `init` writes: the global one when `global` (which
/// needs the user's config directory), else the local one of the repository.
pub open spec fn config_path_spec(
    global: bool,
    config_dir: Option<Seq<char>>,
    repo_root: Option<Seq<char>>,
) -> Result<Seq<char>, ()> {
    if global {
        match config_dir {
            Some(d) => Ok(global_config_file_spec(d)),
            None => Err(()),
        }
    } else {
        match repo_root {
            Some(r) => Ok(local_config_file_spec(r)),
            None => Err(()),
        }
    }
}

/// The config file that `init` writes, given the user's config directory (if
/// it is known) and the repository root (if inside one). Without the
/// directory a global path fails with [`WorktreeError::ConfigDirUnknown`];
/// without the root a local path fails with [`WorktreeError::NotInRepository`].
pub fn config_path_in(global: bool, config_dir: Option<&str>, repo_root: Option<&str>) -> (r: Result<
    String,
    WorktreeError,
>)
    ensures
        match r {
            Ok(p) => config_path_spec(
                global,
                match config_dir {
                    Some(d) => Some(d@),
                    None => None,
                },
                match repo_root {
                    Some(x) => Some(x@),
                    None => None,
                },
            ) == Ok::<Seq<char>, ()>(p@),
            Err(e) => config_path_spec(
                global,
                match config_dir {
                    Some(d) => Some(d@),
                    None => None,
                },
                match repo_root {
                    Some(x) => Some(x@),
                    None => None,
                },
            ) is Err && (if global {
                e is ConfigDirUnknown
            } else {
                e is NotInRepository
            }),
        },
{
    if global {
        match config_dir {
            Some(d) => Ok(global_config_file(d)),
            None => Err(WorktreeError::ConfigDirUnknown),
        }
    } else {
        match repo_root {
            Some(root) => Ok(local_config_file(root)),
            None => Err(WorktreeError::NotInRepository),
        }
    }
}

/// `dirs::config_dir`: the user's config directory, which it reads from the
/// environment (on Linux `$XDG_CONFIG_HOME` when that is absolute, else
/// `$HOME/.config`), converted to text with `to_string_lossy` (the library's
/// paths are text, so bytes of a directory name that are not UTF-8 are
/// replaced). Nothing is stated of the result, which depends on the
/// environment.
#[verifier::external_body]
fn user_config_dir() -> (r: Option<String>) {
    match dirs::config_dir() {
        Some(d) => Some(d.to_string_lossy().into_owned()),
        None => None,
    }
}

/// The global config file for a user's config directory, if one is known:
/// `wtxr/config.toml` in it.
pub fn global_config_path_for(config_dir: Option<String>) -> (r: Option<String>)
    ensures
        match config_dir {
            Some(d) => r is Some && r->0@ == global_config_file_spec(d@),
            None => r is None,
        },
{
    match config_dir {
        Some(d) => Some(global_config_file(d.as_str())),
        None => None,
    }
}

/// The global config file, `wtxr/config.toml` in the user's config directory;
/// `None` when that directory is unknown. The environment decides the
/// directory.
pub fn global_config_path() -> (r: Option<String>)
    ensures
        r is Some ==> exists|d: Seq<char>| r->0@ == #[trigger] global_config_file_spec(d),
{
    global_config_path_for(user_config_dir())
}

/// The config file that `init` writes: with `global`, `wtxr/config.toml` in
/// the user's config directory (which the environment decides), failing when
/// that directory is unknown; otherwise `.wtxr/config.toml` in the
/// repository root, failing outside a repository.
pub fn config_path(global: bool, repo_root: Option<&str>) -> (r: Result<String, WorktreeError>)
    ensures
        !global ==> match r {
            Ok(p) => repo_root is Some && p@ == local_config_file_spec(repo_root->0@),
            Err(e) => repo_root is None && e is NotInRepository,
        },
        global ==> match r {
            Ok(p) => exists|d: Seq<char>| p@ == #[trigger] global_config_file_spec(d),
            Err(e) => e is ConfigDirUnknown,
        },
{
    if global {
        match global_config_path() {
            Some(p) => Ok(p),
            None => Err(WorktreeError::ConfigDirUnknown),
        }
    } else {
        config_path_in(false, None, repo_root)
    }
}

} // verus!
