use vstd::prelude::*;

use crate::worktree::WorktreeError;

verus! {

/// The configuration file that `init` writes.
pub const CONFIG_TEMPLATE: &'static str = r#"# wtxr 設定ファイル
# https://github.com/your-org/wtxr

[worktree]
# ワークツリーを配置するルートディレクトリ（リポジトリルートからの相対パス）
# root_dir = ".wtxr/worktrees"

# 新規ブランチ作成時のデフォルトベースブランチ
# default_base_branch = "main"

[copy]
# ワークツリー作成時にコピーするファイルの glob パターン
# patterns = ["*.env", ".envrc"]

# 明示的なファイルマッピング（from → to でリネームも可能）
# [[copy.files]]
# from = ".env.example"
# to = ".env"

[hooks]
# ワークツリー作成前に実行するコマンド（リポジトリルートで実行）
# pre_create = []

# ワークツリー作成後に実行するコマンド（ワークツリー内で実行）
# post_create = ["npm install"]

# ファイルコピー後に実行するコマンド（ワークツリー内で実行）
# post_copy = []
"#;

/// Creates a configuration file.
pub struct InitConfig;

impl InitConfig {
    /// Whether the configuration file at `path` may be written: not when it
    /// exists and overwriting was not asked for.
    pub fn check_target(path: &str, file_exists: bool, force: bool) -> (r: Result<(), WorktreeError>)
        ensures
            match r {
                Ok(()) => !file_exists || force,
                Err(e) => file_exists && !force && (e matches WorktreeError::ConfigExists { path: p }
                    && p@ == path@),
            },
    {
        if file_exists && !force {
            return Err(WorktreeError::ConfigExists { path: path.to_owned() });
        }
        Ok(())
    }
}

} // verus!
