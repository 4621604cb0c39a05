//! What a shell has to run so that the identity follows the directory.

use vstd::prelude::*;
use vstd::string::*;
use crate::text::same_text;

verus! {

/// For bash and zsh: a hook on every change of directory.
pub const BASH_SCRIPT: &'static str = r#"_gsw_auto_switch() {
    if command -v gsw >/dev/null 2>&1; then
        gsw auto 2>/dev/null
    fi
}

case "$-" in
    *i*) 
        if [[ "${shell}" == "zsh" ]]; then
            autoload -U add-zsh-hook
            add-zsh-hook chpwd _gsw_auto_switch
        else
            _gsw_original_cd=$(declare -f cd)
            cd() {
                builtin cd "$@" && _gsw_auto_switch
            }
        fi
        _gsw_auto_switch
        ;;
esac"#;

/// For fish: a function that runs when the directory changes.
pub const FISH_SCRIPT: &'static str = r#"function _gsw_auto_switch --on-variable PWD
    if command -v gsw >/dev/null 2>&1
        gsw auto 2>/dev/null
    end
end
_gsw_auto_switch"#;

/// For nushell: a hook on the directory in the environment.
pub const NUSHELL_SCRIPT: &'static str = r#"def _gsw_auto_switch [] {
    if (which gsw | is-not-empty) {
        try { gsw auto } | ignore
    }
}

$env.config = ($env.config | upsert hooks {
    env_change: {
        PWD: [{ _gsw_auto_switch }]
    }
})

_gsw_auto_switch"#;

/// The script for a shell, for the shells that are known.
pub open spec fn script_for(shell: Seq<char>) -> Option<Seq<char>> {
    if shell == "bash"@ || shell == "zsh"@ {
        Some(BASH_SCRIPT@)
    } else if shell == "fish"@ {
        Some(FISH_SCRIPT@)
    } else if shell == "nushell"@ {
        Some(NUSHELL_SCRIPT@)
    } else {
        None
    }
}

/// The script that makes `shell` switch identities by itself, if the shell
/// is one of bash, zsh, fish and nushell.
pub fn activation_script(shell: &str) -> (r: Option<&'static str>)
    ensures
        match r {
            Some(script) => script_for(shell@) == Some(script@),
            None => script_for(shell@).is_none(),
        },
{
    if same_text(shell, "bash") || same_text(shell, "zsh") {
        Some(BASH_SCRIPT)
    } else if same_text(shell, "fish") {
        Some(FISH_SCRIPT)
    } else if same_text(shell, "nushell") {
        Some(NUSHELL_SCRIPT)
    } else {
        None
    }
}

} // verus!
