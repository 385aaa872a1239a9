//! The directory context: configuration, data and cache roots.
//!
//! The roots are looked up by the caller (they come from the platform's
//! base-directory conventions) and threaded explicitly into every component,
//! so that all path computation here is a pure function of this value.

use vstd::prelude::*;
use crate::error::Error;
use crate::text::{joined_path, path_join, str_eq};

verus! {

/// The shell-integration script for bash.
pub const BASH_SCRIPT: &'static str = r#"
function llvmmgmt_update() {
    # ... (bash-specific implementation)
}

export PROMPT_COMMAND=llvmmgmt_update
"#;

/// The shell-integration script for zsh.
pub const ZSH_SCRIPT: &'static str = r#"
function llvmmgmt_remove_path() {
  path_base=${XDG_DATA_HOME:-$HOME/.local/share/llvmmgmt}
  path=("${(@)path:#$path_base/*}")
}

function llvmmgmt_append_path() {
  prefix=$(llvmmgmt prefix)
  if [[ -n "$prefix" && "$prefix" != "/usr" ]]; then
    # To avoid /usr/bin and /bin become the top of $PATH
    path=($prefix/bin(N-/) $path)
  fi
}

function llvmmgmt_env_llvm_sys () {
  export LLVM_SYS_$(llvmmgmt version --major --minor)_PREFIX=$(llvmmgmt prefix)
}

function llvmmgmt_update () {
  llvmmgmt_remove_path
  llvmmgmt_append_path
  if [[ -n "$LLVMMGMT_RUST_BINDING" ]]; then
    llvmmgmt_env_llvm_sys
  fi
}

autoload -Uz add-zsh-hook
add-zsh-hook precmd llvmmgmt_update
"#;

/// The integration script a shell name selects; an unknown shell is an error.
pub fn shell_script(shell: &str) -> (r: Result<&'static str, Error>)
    ensures
        shell@ == "zsh"@ ==> (r matches Ok(s) && s@ == ZSH_SCRIPT@),
        shell@ == "bash"@ ==> (r matches Ok(s) && s@ == BASH_SCRIPT@),
        shell@ != "zsh"@ && shell@ != "bash"@ ==> (r matches Err(e) && (e matches
            Error::UnsupportedShell { shell: sh } && sh@ == shell@)),
{
    proof {
        reveal_strlit("zsh");
        reveal_strlit("bash");
        assert("zsh"@.len() != "bash"@.len());
    }
    if str_eq(shell, "zsh") {
        Ok(ZSH_SCRIPT)
    } else if str_eq(shell, "bash") {
        Ok(BASH_SCRIPT)
    } else {
        Err(Error::UnsupportedShell { shell: shell.to_owned() })
    }
}

/// The file under the configuration root that holds the user-defined entries.
pub const ENTRY_TOML: &'static str = "entry.toml";

/// Configuration, data and cache directory roots, written POSIX style
/// without a trailing separator.
pub struct Dirs {
    /// Where the user configuration and the global scope marker live.
    pub config: String,
    /// Where installed builds and archives live.
    pub data: String,
    /// Where fetched sources live.
    pub cache: String,
}

impl Dirs {
    /// The path of the user-defined entry file.
    pub fn entry_toml_path(&self) -> (r: String)
        ensures
            r@ == joined_path(self.config@, ENTRY_TOML@),
    {
        path_join(self.config.as_str(), ENTRY_TOML)
    }
}

} // verus!
