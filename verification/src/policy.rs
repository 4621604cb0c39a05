//! Which identity to put in effect: the one asked for, user-wide or in the
//! repository, or the one that the marker file names.

use vstd::prelude::*;
use vstd::string::*;
use crate::config::{Config, ConfigModel};
use crate::dotfile::{
    create_dotfile, create_dotfile_script, dotfile_profile_script, get_dotfile_profile_at,
    marker_in, marker_name, read_profile_script,
};
use crate::error::{Error, ErrorModel};
use crate::git::{
    get_current_git_config, is_git_repo, is_git_repo_script, read_config_script,
    set_config_script, set_git_config_at,
};
use crate::host::{text_of, Reply, ReplyModel, Request, RequestModel, Step, StepModel};
use crate::model::Model;
use crate::path::{components_of, FsPath};

verus! {

/// How an attempt to put an identity in effect ended.
#[derive(Debug, PartialEq, Eq)]
pub enum Outcome {
    /// The identity kept under `key` is in effect.
    Applied { key: String },
    /// Nothing was done: the process stands in no repository.
    NotARepository,
    /// Nothing was done: no marker applies here.
    NoMarker,
    /// Nothing was done: the store keeps nothing under `key`.
    ProfileNotFound { key: String },
    /// A marker that names `key` was written.
    Created { key: String },
    /// The identity that git has is now kept under `key`.
    Imported { key: String },
    /// Nothing was done: the store already keeps an identity under `key`.
    AlreadyKept { key: String },
    /// The operation failed: git refused a setting, the marker names
    /// nothing, or something could not be read or written. What had been
    /// done before stays done.
    Failed(Error),
}

/// What an [`Outcome`] stands for.
pub enum OutcomeModel {
    Applied { key: Seq<char> },
    NotARepository,
    NoMarker,
    ProfileNotFound { key: Seq<char> },
    Created { key: Seq<char> },
    Imported { key: Seq<char> },
    AlreadyKept { key: Seq<char> },
    Failed(ErrorModel),
}

impl Model for Outcome {
    type M = OutcomeModel;

    open spec fn model(&self) -> OutcomeModel {
        match self {
            Outcome::Applied { key } => OutcomeModel::Applied { key: key@ },
            Outcome::NotARepository => OutcomeModel::NotARepository,
            Outcome::NoMarker => OutcomeModel::NoMarker,
            Outcome::ProfileNotFound { key } => OutcomeModel::ProfileNotFound { key: key@ },
            Outcome::Created { key } => OutcomeModel::Created { key: key@ },
            Outcome::Imported { key } => OutcomeModel::Imported { key: key@ },
            Outcome::AlreadyKept { key } => OutcomeModel::AlreadyKept { key: key@ },
            Outcome::Failed(e) => OutcomeModel::Failed(e.model()),
        }
    }
}

/// Putting the identity kept under `key` in effect, if there is one.
pub open spec fn apply_known(
    store: ConfigModel,
    key: Seq<char>,
    global: bool,
    replies: Seq<ReplyModel>,
) -> StepModel<OutcomeModel> {
    if !store.profiles.dom().contains(key) {
        StepModel::Done(OutcomeModel::ProfileNotFound { key })
    } else {
        match set_config_script(store.profiles[key], global, None, replies) {
            StepModel::Ask(q) => StepModel::Ask(q),
            StepModel::Done(Ok(_)) => StepModel::Done(OutcomeModel::Applied { key }),
            StepModel::Done(Err(e)) => StepModel::Done(OutcomeModel::Failed(e)),
        }
    }
}

/// Switching user-wide to the identity kept under `key`.
pub open spec fn switch_script(
    store: ConfigModel,
    key: Seq<char>,
    replies: Seq<ReplyModel>,
) -> StepModel<OutcomeModel> {
    apply_known(store, key, true, replies)
}

/// The store after a switch: it points at `key` once the identity is in
/// effect, and is as it was in every other case.
pub open spec fn store_after_switch(
    store: ConfigModel,
    key: Seq<char>,
    replies: Seq<ReplyModel>,
) -> ConfigModel {
    if switch_script(store, key, replies) == StepModel::Done(OutcomeModel::Applied { key }) {
        ConfigModel { profiles: store.profiles, current_profile: Some(key) }
    } else {
        store
    }
}

/// Switching, in the repository around the process only, to the identity
/// kept under `key`.
pub open spec fn local_script(
    store: ConfigModel,
    key: Seq<char>,
    replies: Seq<ReplyModel>,
) -> StepModel<OutcomeModel> {
    match is_git_repo_script(None, replies) {
        StepModel::Ask(q) => StepModel::Ask(q),
        StepModel::Done(false) => StepModel::Done(OutcomeModel::NotARepository),
        StepModel::Done(true) => apply_known(store, key, false, replies.skip(1)),
    }
}

/// Switching, in the repository around the process only, to the identity
/// that the marker names. A marker that names nothing, or cannot be read,
/// is a failure and not a missing marker.
pub open spec fn auto_script(store: ConfigModel, replies: Seq<ReplyModel>) -> StepModel<
    OutcomeModel,
> {
    match is_git_repo_script(None, replies) {
        StepModel::Ask(q) => StepModel::Ask(q),
        StepModel::Done(false) => StepModel::Done(OutcomeModel::NotARepository),
        StepModel::Done(true) => {
            let named = dotfile_profile_script(None, replies.skip(1));
            match named.0 {
                StepModel::Ask(q) => StepModel::Ask(q),
                StepModel::Done(Err(e)) => StepModel::Done(OutcomeModel::Failed(e)),
                StepModel::Done(Ok(None)) => StepModel::Done(OutcomeModel::NoMarker),
                StepModel::Done(Ok(Some(key))) => apply_known(
                    store,
                    key,
                    false,
                    replies.skip(1 + named.1 as int),
                ),
            }
        },
    }
}

/// Puts the identity kept under `key` in effect, git's answers read from
/// `at` on.
fn apply_known_at(config: &Config, key: &str, global: bool, replies: &Vec<Reply>, at: usize) -> (r:
    Step<Outcome>)
    requires
        at <= replies.len(),
    ensures
        r.model() == apply_known(config.model(), key@, global, replies.model().skip(at as int)),
{
    match config.get_profile(key) {
        None => Step::Done(Outcome::ProfileNotFound { key: String::from_str(key) }),
        Some(profile) => match set_git_config_at(profile, global, None, replies, at) {
            Step::Ask(q) => Step::Ask(q),
            Step::Done(Ok(_)) => Step::Done(Outcome::Applied { key: String::from_str(key) }),
            Step::Done(Err(e)) => Step::Done(Outcome::Failed(e)),
        },
    }
}

/// Switches user-wide to the identity kept under `name`. Once it is in
/// effect the store points at `name`; the host then saves the store. A key
/// that the store does not keep leaves git and the store untouched.
pub fn switch(config: &mut Config, name: &str, replies: &Vec<Reply>) -> (r: Step<Outcome>)
    ensures
        r.model() == switch_script(old(config).model(), name@, replies.model()),
        final(config).model() == store_after_switch(old(config).model(), name@, replies.model()),
{
    assert(replies.model().skip(0) =~= replies.model());
    let r = apply_known_at(config, name, true, replies, 0);
    match &r {
        Step::Done(Outcome::Applied { key: _ }) => {
            config.set_current_profile(String::from_str(name));
        },
        _ => {},
    }
    r
}

/// Switches to the identity kept under `name` in the repository around
/// the process. Outside a repository nothing is done. The store is never
/// changed.
pub fn local(config: &Config, name: &str, replies: &Vec<Reply>) -> (r: Step<Outcome>)
    ensures
        r.model() == local_script(config.model(), name@, replies.model()),
{
    match is_git_repo(replies) {
        Step::Ask(q) => Step::Ask(q),
        Step::Done(false) => Step::Done(Outcome::NotARepository),
        Step::Done(true) => apply_known_at(config, name, false, replies, 1),
    }
}

/// Switches, in the repository around the process, to the identity that
/// the marker names. Outside a repository, without a marker, or with a
/// marker that names a key the store does not keep, nothing is done. A
/// marker that holds nothing but whitespace, or cannot be read, is a
/// failure. The store is never changed.
pub fn auto(config: &Config, replies: &Vec<Reply>) -> (r: Step<Outcome>)
    ensures
        r.model() == auto_script(config.model(), replies.model()),
{
    match is_git_repo(replies) {
        Step::Ask(q) => Step::Ask(q),
        Step::Done(false) => Step::Done(Outcome::NotARepository),
        Step::Done(true) => {
            let named = get_dotfile_profile_at(None, replies, 1);
            match named.0 {
                Step::Ask(q) => Step::Ask(q),
                Step::Done(Err(e)) => Step::Done(Outcome::Failed(e)),
                Step::Done(Ok(None)) => Step::Done(Outcome::NoMarker),
                Step::Done(Ok(Some(key))) => {
                    assert(replies.model().skip(1).skip(named.1 - 1) =~= replies.model().skip(
                        named.1 as int,
                    ));
                    apply_known_at(config, key.as_str(), false, replies, named.1)
                },
            }
        },
    }
}

/// Writing, where the process stands, a marker that names `key`, if the
/// store keeps an identity under it.
pub open spec fn init_script(
    store: ConfigModel,
    key: Seq<char>,
    replies: Seq<ReplyModel>,
) -> StepModel<OutcomeModel> {
    if !store.profiles.dom().contains(key) {
        StepModel::Done(OutcomeModel::ProfileNotFound { key })
    } else {
        match create_dotfile_script(components_of(marker_name()), key, replies) {
            StepModel::Ask(q) => StepModel::Ask(q),
            StepModel::Done(Ok(_)) => StepModel::Done(OutcomeModel::Created { key }),
            StepModel::Done(Err(e)) => StepModel::Done(OutcomeModel::Failed(e)),
        }
    }
}

/// Keeping under `key` the identity that git has in effect, unless
/// something is kept there.
pub open spec fn import_script(
    store: ConfigModel,
    key: Seq<char>,
    replies: Seq<ReplyModel>,
) -> StepModel<OutcomeModel> {
    match read_config_script(None, None, replies) {
        StepModel::Ask(q) => StepModel::Ask(q),
        StepModel::Done(Err(e)) => StepModel::Done(OutcomeModel::Failed(e)),
        StepModel::Done(Ok(_)) => if store.profiles.dom().contains(key) {
            StepModel::Done(OutcomeModel::AlreadyKept { key })
        } else {
            StepModel::Done(OutcomeModel::Imported { key })
        },
    }
}

/// The store after an import: it keeps what git has under `key` once the
/// import is done, and is as it was in every other case.
pub open spec fn store_after_import(
    store: ConfigModel,
    key: Seq<char>,
    replies: Seq<ReplyModel>,
) -> ConfigModel {
    match read_config_script(None, None, replies) {
        StepModel::Done(Ok(profile)) => if store.profiles.dom().contains(key) {
            store
        } else {
            ConfigModel {
                profiles: store.profiles.insert(key, profile),
                current_profile: store.current_profile,
            }
        },
        _ => store,
    }
}

/// The key to show in a prompt: that of the marker in the very directory
/// where the process stands, read without asking git and without looking
/// further up. Whatever goes wrong, there is none.
pub open spec fn prompt_script(replies: Seq<ReplyModel>) -> StepModel<Option<Seq<char>>> {
    if replies.len() == 0 {
        StepModel::Ask(RequestModel::CurrentDir)
    } else {
        let marker = marker_in(
            match text_of(replies[0]) {
                Some(text) => components_of(text),
                None => components_of("."@),
            },
        );
        if replies.len() == 1 {
            StepModel::Ask(RequestModel::Exists { path: marker })
        } else if !replies[1].success {
            StepModel::Done(None)
        } else {
            match read_profile_script(marker, replies.skip(2)) {
                StepModel::Ask(q) => StepModel::Ask(q),
                StepModel::Done(Ok(key)) => StepModel::Done(Some(key)),
                StepModel::Done(Err(_)) => StepModel::Done(None),
            }
        }
    }
}

/// Writes, where the process stands, a marker that names `profile`. A key
/// that the store does not keep is not written.
pub fn init(config: &Config, profile: &str, replies: &Vec<Reply>) -> (r: Step<Outcome>)
    ensures
        r.model() == init_script(config.model(), profile@, replies.model()),
{
    if !config.profiles.contains_key(profile) {
        return Step::Done(Outcome::ProfileNotFound { key: String::from_str(profile) });
    }
    let path = FsPath::parse(".gswitch");
    match create_dotfile(&path, profile, replies) {
        Step::Ask(q) => Step::Ask(q),
        Step::Done(Ok(_)) => Step::Done(Outcome::Created { key: String::from_str(profile) }),
        Step::Done(Err(e)) => Step::Done(Outcome::Failed(e)),
    }
}

/// Keeps under `name` the identity that git has in effect. A key under
/// which the store keeps something is left as it is; the host saves the
/// store after an import.
pub fn import(config: &mut Config, name: &str, replies: &Vec<Reply>) -> (r: Step<Outcome>)
    ensures
        r.model() == import_script(old(config).model(), name@, replies.model()),
        final(config).model() == store_after_import(old(config).model(), name@, replies.model()),
{
    match get_current_git_config(None, replies) {
        Step::Ask(q) => Step::Ask(q),
        Step::Done(Err(e)) => Step::Done(Outcome::Failed(e)),
        Step::Done(Ok(profile)) => {
            if config.profiles.contains_key(name) {
                Step::Done(Outcome::AlreadyKept { key: String::from_str(name) })
            } else {
                config.add_profile(String::from_str(name), profile);
                Step::Done(Outcome::Imported { key: String::from_str(name) })
            }
        },
    }
}

/// The key to show in a prompt, if the directory where the process stands
/// has a marker that names one.
pub fn prompt(replies: &Vec<Reply>) -> (r: Step<Option<String>>)
    ensures
        r.model() == prompt_script(replies.model()),
{
    if replies.len() == 0 {
        return Step::Ask(Request::CurrentDir);
    }
    let dir = match replies[0].text() {
        Some(text) => FsPath::parse(text),
        None => FsPath::parse("."),
    };
    let marker = dir.join(".gswitch");
    if replies.len() == 1 {
        return Step::Ask(Request::Exists { path: marker });
    }
    if !replies[1].success {
        return Step::Done(None);
    }
    match crate::dotfile::read_profile_at(&marker, replies, 2) {
        Step::Ask(q) => Step::Ask(q),
        Step::Done(Ok(key)) => Step::Done(Some(key)),
        Step::Done(Err(_)) => Step::Done(None),
    }
}

} // verus!
