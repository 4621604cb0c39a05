//! Git as the keeper of the identity in effect: the commands that ask it
//! where a repository starts, that write an identity and that read one.

use vstd::prelude::*;
use vstd::string::*;
use crate::config::{GitProfile, ProfileModel};
use crate::error::{key_of, Error, ErrorModel, Field};
use crate::host::{text_of, Reply, ReplyModel, Request, RequestModel, Step, StepModel};
use crate::model::Model;
use crate::path::{components_of, FsPath, PartModel};
use crate::text::{trim, trimmed};

verus! {

/// The command that asks git where the repository around `dir` starts.
pub open spec fn top_level_query(dir: Option<Seq<PartModel>>) -> RequestModel {
    RequestModel::Git { args: seq!["rev-parse"@, "--show-toplevel"@], dir }
}

/// The argument that picks the user-wide or the repository's own settings.
pub open spec fn scope_flag(global: bool) -> Seq<char> {
    if global {
        "--global"@
    } else {
        "--local"@
    }
}

/// The command that asks git for the value of `key`: among the user-wide
/// settings, among the repository's own, or, with no choice made, the value
/// in effect.
pub open spec fn config_get_query(
    global: Option<bool>,
    key: Seq<char>,
    dir: Option<Seq<PartModel>>,
) -> RequestModel {
    RequestModel::Git {
        args: match global {
            Some(g) => seq!["config"@, scope_flag(g), "--get"@, key],
            None => seq!["config"@, "--get"@, key],
        },
        dir,
    }
}

/// The command that has git set `key` to `value`.
pub open spec fn config_set_query(
    global: bool,
    key: Seq<char>,
    value: Seq<char>,
    dir: Option<Seq<PartModel>>,
) -> RequestModel {
    RequestModel::Git { args: seq!["config"@, scope_flag(global), key, value], dir }
}

/// Whether `dir` is inside a repository: whether git ends well when asked
/// for the top of one, whatever it prints.
pub open spec fn is_git_repo_script(
    dir: Option<Seq<PartModel>>,
    replies: Seq<ReplyModel>,
) -> StepModel<bool> {
    if replies.len() == 0 {
        StepModel::Ask(top_level_query(dir))
    } else {
        StepModel::Done(replies[0].success)
    }
}

/// The top of the repository around `dir`, if `dir` is inside one: what git
/// prints, without surrounding whitespace, read as a path. Where git
/// prints what is no text, no repository is known.
pub open spec fn repo_info_script(
    dir: Option<Seq<PartModel>>,
    replies: Seq<ReplyModel>,
) -> StepModel<Option<Seq<PartModel>>> {
    if replies.len() == 0 {
        StepModel::Ask(top_level_query(dir))
    } else {
        match text_of(replies[0]) {
            Some(text) => StepModel::Done(Some(components_of(trimmed(text)))),
            None => StepModel::Done(None),
        }
    }
}

/// As [`repo_info_script`], with the reason where there is no repository.
pub open spec fn git_root_script(
    dir: Option<Seq<PartModel>>,
    replies: Seq<ReplyModel>,
) -> StepModel<Result<Seq<PartModel>, ErrorModel>> {
    match repo_info_script(dir, replies) {
        StepModel::Ask(q) => StepModel::Ask(q),
        StepModel::Done(Some(root)) => StepModel::Done(Ok(root)),
        StepModel::Done(None) => StepModel::Done(Err(ErrorModel::NotARepository)),
    }
}

/// The value that git has for `key`: what it prints, without surrounding
/// whitespace. Where git fails or prints what is no text, there is none.
pub open spec fn config_value_script(
    global: Option<bool>,
    key: Seq<char>,
    dir: Option<Seq<PartModel>>,
    replies: Seq<ReplyModel>,
) -> StepModel<Result<Seq<char>, ErrorModel>> {
    if replies.len() == 0 {
        StepModel::Ask(config_get_query(global, key, dir))
    } else {
        match text_of(replies[0]) {
            Some(text) => StepModel::Done(Ok(trimmed(text))),
            None => StepModel::Done(Err(ErrorModel::ConfigIncomplete { key })),
        }
    }
}

/// The identity that git has: name, then email, then signing key, each
/// asked for on its own. Without a name or an email there is none, and the
/// rest is not asked for; the signing key may be missing.
pub open spec fn read_config_script(
    global: Option<bool>,
    dir: Option<Seq<PartModel>>,
    replies: Seq<ReplyModel>,
) -> StepModel<Result<ProfileModel, ErrorModel>> {
    match config_value_script(global, key_of(Field::Name), dir, replies) {
        StepModel::Ask(q) => StepModel::Ask(q),
        StepModel::Done(Err(e)) => StepModel::Done(Err(e)),
        StepModel::Done(Ok(name)) => match config_value_script(
            global,
            key_of(Field::Email),
            dir,
            replies.skip(1),
        ) {
            StepModel::Ask(q) => StepModel::Ask(q),
            StepModel::Done(Err(e)) => StepModel::Done(Err(e)),
            StepModel::Done(Ok(email)) => match config_value_script(
                global,
                key_of(Field::SigningKey),
                dir,
                replies.skip(2),
            ) {
                StepModel::Ask(q) => StepModel::Ask(q),
                StepModel::Done(key) => StepModel::Done(
                    Ok(
                        ProfileModel {
                            name,
                            email,
                            signing_key: match key {
                                Ok(k) => Some(k),
                                Err(_) => None,
                            },
                        },
                    ),
                ),
            },
        },
    }
}

/// Writing one setting: git is asked to set it, and a refusal is the
/// failure, with the setting's name and git's complaint.
pub open spec fn write_script(
    field: Field,
    value: Seq<char>,
    global: bool,
    dir: Option<Seq<PartModel>>,
    replies: Seq<ReplyModel>,
) -> StepModel<Result<(), ErrorModel>> {
    if replies.len() == 0 {
        StepModel::Ask(config_set_query(global, key_of(field), value, dir))
    } else if replies[0].success {
        StepModel::Done(Ok(()))
    } else {
        StepModel::Done(
            Err(ErrorModel::ConfigWriteFailed { field, diagnostic: replies[0].diagnostic }),
        )
    }
}

/// Putting an identity in effect, user-wide or in the repository: the name
/// is written, then the email, then the signing key if the identity has
/// one. The first setting that git refuses ends the operation: what was
/// written before it stays written, and nothing after it is tried.
pub open spec fn set_config_script(
    profile: ProfileModel,
    global: bool,
    dir: Option<Seq<PartModel>>,
    replies: Seq<ReplyModel>,
) -> StepModel<Result<(), ErrorModel>> {
    match write_script(Field::Name, profile.name, global, dir, replies) {
        StepModel::Done(Ok(_)) => match write_script(
            Field::Email,
            profile.email,
            global,
            dir,
            replies.skip(1),
        ) {
            StepModel::Done(Ok(_)) => match profile.signing_key {
                Some(key) => write_script(Field::SigningKey, key, global, dir, replies.skip(2)),
                None => StepModel::Done(Ok(())),
            },
            other => other,
        },
        other => other,
    }
}

/// A directory of the caller's, as a request holds it.
pub(crate) fn owned_dir(dir: Option<&FsPath>) -> (r: Option<FsPath>)
    ensures
        r.model() == dir.model(),
{
    match dir {
        Some(d) => Some(d.clone()),
        None => None,
    }
}

pub(crate) fn top_level_request(dir: Option<&FsPath>) -> (r: Request)
    ensures
        r.model() == top_level_query(dir.model()),
{
    let mut args: Vec<String> = Vec::new();
    args.push(String::from_str("rev-parse"));
    args.push(String::from_str("--show-toplevel"));
    assert(args.model() =~= seq!["rev-parse"@, "--show-toplevel"@]);
    Request::Git { args, dir: owned_dir(dir) }
}

fn scope_argument(global: bool) -> (r: String)
    ensures
        r@ == scope_flag(global),
{
    if global {
        String::from_str("--global")
    } else {
        String::from_str("--local")
    }
}

fn config_get_request(global: Option<bool>, key: &str, dir: Option<&FsPath>) -> (r: Request)
    ensures
        r.model() == config_get_query(global, key@, dir.model()),
{
    let mut args: Vec<String> = Vec::new();
    args.push(String::from_str("config"));
    match global {
        Some(g) => {
            args.push(scope_argument(g));
            args.push(String::from_str("--get"));
            args.push(String::from_str(key));
            assert(args.model() =~= seq!["config"@, scope_flag(g), "--get"@, key@]);
        },
        None => {
            args.push(String::from_str("--get"));
            args.push(String::from_str(key));
            assert(args.model() =~= seq!["config"@, "--get"@, key@]);
        },
    }
    Request::Git { args, dir: owned_dir(dir) }
}

fn config_set_request(global: bool, key: &str, value: &str, dir: Option<&FsPath>) -> (r: Request)
    ensures
        r.model() == config_set_query(global, key@, value@, dir.model()),
{
    let mut args: Vec<String> = Vec::new();
    args.push(String::from_str("config"));
    args.push(scope_argument(global));
    args.push(String::from_str(key));
    args.push(String::from_str(value));
    assert(args.model() =~= seq!["config"@, scope_flag(global), key@, value@]);
    Request::Git { args, dir: owned_dir(dir) }
}

/// Whether the process stands inside a repository.
pub fn is_git_repo(replies: &Vec<Reply>) -> (r: Step<bool>)
    ensures
        r.model() == is_git_repo_script(None, replies.model()),
{
    is_git_repo_in_dir(None, replies)
}

/// Whether `dir` is inside a repository. Whatever keeps git from naming the
/// top of one counts as "no".
pub fn is_git_repo_in_dir(dir: Option<&FsPath>, replies: &Vec<Reply>) -> (r: Step<bool>)
    ensures
        r.model() == is_git_repo_script(dir.model(), replies.model()),
{
    if replies.len() == 0 {
        Step::Ask(top_level_request(dir))
    } else {
        Step::Done(replies[0].success)
    }
}

/// The top of the repository around `dir`, or that there is none.
pub fn find_git_root_in_dir(dir: Option<&FsPath>, replies: &Vec<Reply>) -> (r: Step<
    Result<FsPath, Error>,
>)
    ensures
        r.model() == git_root_script(dir.model(), replies.model()),
{
    match get_git_repo_info(dir, replies) {
        Step::Ask(q) => Step::Ask(q),
        Step::Done(Some(root)) => Step::Done(Ok(root)),
        Step::Done(None) => Step::Done(Err(Error::NotARepository)),
    }
}

/// The top of the repository around `dir`, if `dir` is inside one.
pub fn get_git_repo_info(dir: Option<&FsPath>, replies: &Vec<Reply>) -> (r: Step<Option<FsPath>>)
    ensures
        r.model() == repo_info_script(dir.model(), replies.model()),
{
    if replies.len() == 0 {
        Step::Ask(top_level_request(dir))
    } else {
        match replies[0].text() {
            Some(text) => Step::Done(Some(FsPath::parse(trim(text).as_str()))),
            None => Step::Done(None),
        }
    }
}

/// The value that git has for `key`, read from the answer at `at`.
fn config_value_at(
    global: Option<bool>,
    key: &str,
    dir: Option<&FsPath>,
    replies: &Vec<Reply>,
    at: usize,
) -> (r: Step<Result<String, Error>>)
    requires
        at <= replies.len(),
    ensures
        r.model() == config_value_script(
            global,
            key@,
            dir.model(),
            replies.model().skip(at as int),
        ),
{
    if at == replies.len() {
        Step::Ask(config_get_request(global, key, dir))
    } else {
        match replies[at].text() {
            Some(text) => Step::Done(Ok(trim(text))),
            None => Step::Done(Err(Error::ConfigIncomplete { key: String::from_str(key) })),
        }
    }
}

/// The value that git has for `key` among the settings that `global` picks.
pub fn get_git_config_value_in_dir(
    global: Option<bool>,
    key: &str,
    dir: Option<&FsPath>,
    replies: &Vec<Reply>,
) -> (r: Step<Result<String, Error>>)
    ensures
        r.model() == config_value_script(global, key@, dir.model(), replies.model()),
{
    assert(replies.model().skip(0) =~= replies.model());
    config_value_at(global, key, dir, replies, 0)
}

/// The identity that git has for the process's directory.
pub fn get_current_git_config(global: Option<bool>, replies: &Vec<Reply>) -> (r: Step<
    Result<GitProfile, Error>,
>)
    ensures
        r.model() == read_config_script(global, None, replies.model()),
{
    get_current_git_config_in_dir(global, None, replies)
}

/// The identity that git has for `dir`.
pub fn get_current_git_config_in_dir(
    global: Option<bool>,
    dir: Option<&FsPath>,
    replies: &Vec<Reply>,
) -> (r: Step<Result<GitProfile, Error>>)
    ensures
        r.model() == read_config_script(global, dir.model(), replies.model()),
{
    assert(replies.model().skip(0) =~= replies.model());
    let name = match config_value_at(global, Field::Name.key(), dir, replies, 0) {
        Step::Ask(q) => {
            return Step::Ask(q);
        },
        Step::Done(Err(e)) => {
            return Step::Done(Err(e));
        },
        Step::Done(Ok(name)) => name,
    };
    let email = match config_value_at(global, Field::Email.key(), dir, replies, 1) {
        Step::Ask(q) => {
            return Step::Ask(q);
        },
        Step::Done(Err(e)) => {
            return Step::Done(Err(e));
        },
        Step::Done(Ok(email)) => email,
    };
    let signing_key = match config_value_at(global, Field::SigningKey.key(), dir, replies, 2) {
        Step::Ask(q) => {
            return Step::Ask(q);
        },
        Step::Done(Err(_)) => None,
        Step::Done(Ok(key)) => Some(key),
    };
    Step::Done(Ok(GitProfile { name, email, signing_key }))
}

/// Writes one setting, with git's answer read at `at`.
fn write_at(
    field: Field,
    value: &str,
    global: bool,
    dir: Option<&FsPath>,
    replies: &Vec<Reply>,
    at: usize,
) -> (r: Step<Result<(), Error>>)
    requires
        at <= replies.len(),
    ensures
        r.model() == write_script(
            field,
            value@,
            global,
            dir.model(),
            replies.model().skip(at as int),
        ),
{
    if at == replies.len() {
        Step::Ask(config_set_request(global, field.key(), value, dir))
    } else if replies[at].success {
        Step::Done(Ok(()))
    } else {
        Step::Done(
            Err(Error::ConfigWriteFailed { field, diagnostic: replies[at].diagnostic.clone() }),
        )
    }
}

/// Putting an identity in effect, with git's answers read from `at` on.
pub(crate) fn set_git_config_at(
    profile: &GitProfile,
    global: bool,
    dir: Option<&FsPath>,
    replies: &Vec<Reply>,
    at: usize,
) -> (r: Step<Result<(), Error>>)
    requires
        at <= replies.len(),
    ensures
        r.model() == set_config_script(
            profile.model(),
            global,
            dir.model(),
            replies.model().skip(at as int),
        ),
{
    let ghost rest = replies.model().skip(at as int);
    match write_at(Field::Name, profile.name.as_str(), global, dir, replies, at) {
        Step::Done(Ok(_)) => {},
        other => {
            return other;
        },
    }
    assert(rest.skip(1) =~= replies.model().skip(at + 1));
    match write_at(Field::Email, profile.email.as_str(), global, dir, replies, at + 1) {
        Step::Done(Ok(_)) => {},
        other => {
            return other;
        },
    }
    match &profile.signing_key {
        Some(key) => {
            assert(rest.skip(2) =~= replies.model().skip(at + 2));
            write_at(Field::SigningKey, key.as_str(), global, dir, replies, at + 2)
        },
        None => Step::Done(Ok(())),
    }
}

/// Puts an identity in effect for the process's directory: user-wide if
/// `global`, else in the repository around it.
pub fn set_git_config(profile: &GitProfile, global: bool, replies: &Vec<Reply>) -> (r: Step<
    Result<(), Error>,
>)
    ensures
        r.model() == set_config_script(profile.model(), global, None, replies.model()),
{
    set_git_config_in_dir(profile, global, None, replies)
}

/// Puts an identity in effect for `dir`: name, email and, where the
/// identity has one, the signing key, in that order. The first setting that
/// git refuses ends the operation; nothing is undone.
pub fn set_git_config_in_dir(
    profile: &GitProfile,
    global: bool,
    dir: Option<&FsPath>,
    replies: &Vec<Reply>,
) -> (r: Step<Result<(), Error>>)
    ensures
        r.model() == set_config_script(profile.model(), global, dir.model(), replies.model()),
{
    assert(replies.model().skip(0) =~= replies.model());
    set_git_config_at(profile, global, dir, replies, 0)
}

} // verus!
