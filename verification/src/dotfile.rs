//! The marker file: a file named `.gswitch` whose text is the key of the
//! identity to use in the directory that holds it and below.

use vstd::prelude::*;
use vstd::string::*;
use crate::error::{Error, ErrorModel};
use crate::git::{repo_info_script, top_level_query, top_level_request};
use crate::host::{text_of, Reply, ReplyModel, Request, RequestModel, Step, StepModel};
use crate::model::Model;
use crate::path::{child_of, components_of, parent_of, FsPath, PartModel};
use crate::text::{trim, trimmed};

verus! {

/// The name of the marker file.
pub open spec fn marker_name() -> Seq<char> {
    ".gswitch"@
}

/// The path of the marker file of a directory.
pub open spec fn marker_in(dir: Seq<PartModel>) -> Seq<PartModel> {
    child_of(dir, marker_name())
}

/// A step of an operation, and how many answers were read to reach it.
pub type Reached<T> = (StepModel<T>, nat);

/// The same step, reached after `base` answers more.
pub open spec fn after<T>(base: nat, reached: Reached<T>) -> Reached<T> {
    (reached.0, base + reached.1)
}

/// The walk towards the top of the repository: the marker of the first
/// directory that has one, from `dir` upwards. The walk ends without a
/// marker where the directory is the top of the repository or has no
/// parent.
pub open spec fn walk_script(
    dir: Seq<PartModel>,
    root: Seq<PartModel>,
    replies: Seq<ReplyModel>,
) -> Reached<Option<Seq<PartModel>>>
    decreases dir.len(),
{
    if replies.len() == 0 {
        (StepModel::Ask(RequestModel::Exists { path: marker_in(dir) }), 0)
    } else if replies[0].success {
        (StepModel::Done(Some(marker_in(dir))), 1)
    } else if dir == root {
        (StepModel::Done(None), 1)
    } else {
        match parent_of(dir) {
            None => (StepModel::Done(None), 1),
            Some(up) => after(1, walk_script(up, root, replies.drop_first())),
        }
    }
}

/// Asking git for the top of the repository around `start`, then walking
/// towards it. Outside a repository there is no marker.
pub open spec fn locate_and_walk(start: Seq<PartModel>, replies: Seq<ReplyModel>) -> Reached<
    Option<Seq<PartModel>>,
> {
    match repo_info_script(Some(start), replies) {
        StepModel::Ask(q) => (StepModel::Ask(q), 0),
        StepModel::Done(None) => (StepModel::Done(None), 1),
        StepModel::Done(Some(root)) => after(1, walk_script(start, root, replies.drop_first())),
    }
}

/// The search from a known directory. A marker in `start` itself is looked
/// for first, and taken once git has confirmed that `start` is inside a
/// repository.
pub open spec fn search_script(start: Seq<PartModel>, replies: Seq<ReplyModel>) -> Reached<
    Option<Seq<PartModel>>,
> {
    if replies.len() == 0 {
        (StepModel::Ask(RequestModel::Exists { path: marker_in(start) }), 0)
    } else if !replies[0].success {
        after(1, locate_and_walk(start, replies.skip(1)))
    } else if replies.len() == 1 {
        (StepModel::Ask(top_level_query(Some(start))), 1)
    } else if text_of(replies[1]).is_some() {
        (StepModel::Done(Some(marker_in(start))), 2)
    } else {
        after(2, locate_and_walk(start, replies.skip(2)))
    }
}

/// The search for the marker that applies to `start_dir` or, without one,
/// to the directory where the process stands.
pub open spec fn find_script(
    start_dir: Option<Seq<PartModel>>,
    replies: Seq<ReplyModel>,
) -> Reached<Option<Seq<PartModel>>> {
    match start_dir {
        Some(start) => search_script(start, replies),
        None => if replies.len() == 0 {
            (StepModel::Ask(RequestModel::CurrentDir), 0)
        } else {
            match text_of(replies[0]) {
                Some(text) => after(1, search_script(components_of(text), replies.skip(1))),
                None => (StepModel::Done(None), 1),
            }
        },
    }
}

/// The key that a marker file names: its text without surrounding
/// whitespace, which must leave something.
pub open spec fn key_in(content: Seq<char>) -> Result<Seq<char>, ErrorModel> {
    if trimmed(content).len() == 0 {
        Err(ErrorModel::MarkerEmpty)
    } else {
        Ok(trimmed(content))
    }
}

/// Reading the key that the marker file at `path` names.
pub open spec fn read_profile_script(
    path: Seq<PartModel>,
    replies: Seq<ReplyModel>,
) -> StepModel<Result<Seq<char>, ErrorModel>> {
    if replies.len() == 0 {
        StepModel::Ask(RequestModel::Read { path })
    } else {
        match text_of(replies[0]) {
            Some(content) => StepModel::Done(key_in(content)),
            None => StepModel::Done(Err(ErrorModel::MarkerUnreadable)),
        }
    }
}

/// Writing a marker file: the key and a line break.
pub open spec fn create_dotfile_script(
    path: Seq<PartModel>,
    profile_name: Seq<char>,
    replies: Seq<ReplyModel>,
) -> StepModel<Result<(), ErrorModel>> {
    if replies.len() == 0 {
        StepModel::Ask(RequestModel::Write { path, content: profile_name + "\n"@ })
    } else if replies[0].success {
        StepModel::Done(Ok(()))
    } else {
        StepModel::Done(Err(ErrorModel::MarkerNotWritten { diagnostic: replies[0].diagnostic }))
    }
}

/// The key that applies to a directory: that of the marker found for it.
/// Where no marker is found, no key applies; a marker that is found and
/// cannot be read, or names nothing, is a failure.
pub open spec fn dotfile_profile_script(
    start_dir: Option<Seq<PartModel>>,
    replies: Seq<ReplyModel>,
) -> Reached<Result<Option<Seq<char>>, ErrorModel>> {
    let found = find_script(start_dir, replies);
    match found.0 {
        StepModel::Ask(q) => (StepModel::Ask(q), found.1),
        StepModel::Done(None) => (StepModel::Done(Ok(None)), found.1),
        StepModel::Done(Some(path)) => match read_profile_script(path, replies.skip(found.1 as int)) {
            StepModel::Ask(q) => (StepModel::Ask(q), found.1),
            StepModel::Done(Ok(key)) => (StepModel::Done(Ok(Some(key))), found.1 + 1),
            StepModel::Done(Err(e)) => (StepModel::Done(Err(e)), found.1 + 1),
        },
    }
}

/// The marker file of a directory.
fn marker_path(dir: &FsPath) -> (r: FsPath)
    ensures
        r.model() == marker_in(dir.model()),
{
    dir.join(".gswitch")
}

/// The walk, with the answers read from `at` on.
fn walk_at(start: &FsPath, root: &FsPath, replies: &Vec<Reply>, at: usize) -> (r: (
    Step<Option<FsPath>>,
    usize,
))
    requires
        at <= replies.len(),
    ensures
        (r.0.model(), (r.1 - at) as nat) == walk_script(
            start.model(),
            root.model(),
            replies.model().skip(at as int),
        ),
        at <= r.1 <= replies.len(),
{
    let ghost whole = walk_script(start.model(), root.model(), replies.model().skip(at as int));
    let mut dir = start.clone();
    let mut i: usize = at;
    assert(after(0, whole) == whole);
    loop
        invariant
            at <= i <= replies.len(),
            whole == walk_script(start.model(), root.model(), replies.model().skip(at as int)),
            whole == after(
                (i - at) as nat,
                walk_script(dir.model(), root.model(), replies.model().skip(i as int)),
            ),
        decreases dir.model().len(),
    {
        let ghost rest = replies.model().skip(i as int);
        if i == replies.len() {
            return (Step::Ask(Request::Exists { path: marker_path(&dir) }), i);
        }
        assert(rest[0] == replies@[i as int].model());
        if replies[i].success {
            return (Step::Done(Some(marker_path(&dir))), i + 1);
        }
        if dir.equals(root) {
            return (Step::Done(None), i + 1);
        }
        if !dir.pop() {
            return (Step::Done(None), i + 1);
        }
        assert(rest.drop_first() =~= replies.model().skip(i + 1));
        i = i + 1;
    }
}

/// The marker of the first directory that has one, from `start` upwards
/// to `root`: the walk ends without a marker at `root`, or where a
/// directory has no parent. Each answer says whether the directory that
/// the walk has come to holds a marker.
pub fn walk_to_root(start: &FsPath, root: &FsPath, replies: &Vec<Reply>) -> (r: Step<
    Option<FsPath>,
>)
    ensures
        r.model() == walk_script(start.model(), root.model(), replies.model()).0,
{
    assert(replies.model().skip(0) =~= replies.model());
    walk_at(start, root, replies, 0).0
}

/// Asking for the top of the repository and walking, from `at` on.
fn locate_and_walk_at(start: &FsPath, replies: &Vec<Reply>, at: usize) -> (r: (
    Step<Option<FsPath>>,
    usize,
))
    requires
        at <= replies.len(),
    ensures
        (r.0.model(), (r.1 - at) as nat) == locate_and_walk(
            start.model(),
            replies.model().skip(at as int),
        ),
        at <= r.1 <= replies.len(),
{
    let ghost rest = replies.model().skip(at as int);
    if at == replies.len() {
        return (Step::Ask(top_level_request(Some(start))), at);
    }
    assert(rest[0] == replies@[at as int].model());
    let root = match replies[at].text() {
        Some(text) => FsPath::parse(trim(text).as_str()),
        None => {
            return (Step::Done(None), at + 1);
        },
    };
    assert(rest.drop_first() =~= replies.model().skip(at + 1));
    walk_at(start, &root, replies, at + 1)
}

/// The search from a known directory, from `at` on.
fn search_at(start: &FsPath, replies: &Vec<Reply>, at: usize) -> (r: (Step<Option<FsPath>>, usize))
    requires
        at <= replies.len(),
    ensures
        (r.0.model(), (r.1 - at) as nat) == search_script(
            start.model(),
            replies.model().skip(at as int),
        ),
        at <= r.1 <= replies.len(),
{
    let ghost rest = replies.model().skip(at as int);
    if at == replies.len() {
        return (Step::Ask(Request::Exists { path: marker_path(start) }), at);
    }
    assert(rest[0] == replies@[at as int].model());
    if !replies[at].success {
        assert(rest.skip(1) =~= replies.model().skip(at + 1));
        return locate_and_walk_at(start, replies, at + 1);
    }
    if at + 1 == replies.len() {
        return (Step::Ask(top_level_request(Some(start))), at + 1);
    }
    assert(rest[1] == replies@[at + 1].model());
    if replies[at + 1].text().is_some() {
        return (Step::Done(Some(marker_path(start))), at + 2);
    }
    assert(rest.skip(2) =~= replies.model().skip(at + 2));
    locate_and_walk_at(start, replies, at + 2)
}

/// The search, with the answers read from `at` on.
pub(crate) fn find_dotfile_at(start_dir: Option<&FsPath>, replies: &Vec<Reply>, at: usize) -> (r:
    (Step<Option<FsPath>>, usize))
    requires
        at <= replies.len(),
    ensures
        (r.0.model(), (r.1 - at) as nat) == find_script(
            start_dir.model(),
            replies.model().skip(at as int),
        ),
        at <= r.1 <= replies.len(),
{
    let ghost rest = replies.model().skip(at as int);
    match start_dir {
        Some(start) => search_at(start, replies, at),
        None => {
            if at == replies.len() {
                return (Step::Ask(Request::CurrentDir), at);
            }
            assert(rest[0] == replies@[at as int].model());
            let start = match replies[at].text() {
                Some(text) => FsPath::parse(text),
                None => {
                    return (Step::Done(None), at + 1);
                },
            };
            assert(rest.skip(1) =~= replies.model().skip(at + 1));
            search_at(&start, replies, at + 1)
        },
    }
}

/// The marker that applies to `start_dir` or, without one, to the directory
/// where the process stands: the marker of the nearest directory that has
/// one, from there up to the top of the repository and no further. Outside
/// a repository no marker applies.
pub fn find_dotfile_in_dir(start_dir: Option<&FsPath>, replies: &Vec<Reply>) -> (r: Step<
    Option<FsPath>,
>)
    ensures
        r.model() == find_script(start_dir.model(), replies.model()).0,
{
    assert(replies.model().skip(0) =~= replies.model());
    find_dotfile_at(start_dir, replies, 0).0
}

/// Reading a key, with the answer read at `at`.
pub(crate) fn read_profile_at(path: &FsPath, replies: &Vec<Reply>, at: usize) -> (r: Step<
    Result<String, Error>,
>)
    requires
        at <= replies.len(),
    ensures
        r.model() == read_profile_script(path.model(), replies.model().skip(at as int)),
{
    if at == replies.len() {
        return Step::Ask(Request::Read { path: path.clone() });
    }
    let key = match replies[at].text() {
        Some(content) => trim(content),
        None => {
            return Step::Done(Err(Error::MarkerUnreadable));
        },
    };
    if key.as_str().unicode_len() == 0 {
        Step::Done(Err(Error::MarkerEmpty))
    } else {
        Step::Done(Ok(key))
    }
}

/// The key that the marker file at `dotfile_path` names. A file that
/// cannot be read, or that holds nothing but whitespace, names none.
pub fn read_profile_from_dotfile(dotfile_path: &FsPath, replies: &Vec<Reply>) -> (r: Step<
    Result<String, Error>,
>)
    ensures
        r.model() == read_profile_script(dotfile_path.model(), replies.model()),
{
    assert(replies.model().skip(0) =~= replies.model());
    read_profile_at(dotfile_path, replies, 0)
}

/// Writes a marker file that names `profile_name`, in place of any file
/// that was there.
pub fn create_dotfile(path: &FsPath, profile_name: &str, replies: &Vec<Reply>) -> (r: Step<
    Result<(), Error>,
>)
    ensures
        r.model() == create_dotfile_script(path.model(), profile_name@, replies.model()),
{
    if replies.len() == 0 {
        let content = String::from_str(profile_name).concat("\n");
        Step::Ask(Request::Write { path: path.clone(), content })
    } else if replies[0].success {
        Step::Done(Ok(()))
    } else {
        Step::Done(Err(Error::MarkerNotWritten { diagnostic: replies[0].diagnostic.clone() }))
    }
}

/// The key that applies, with the answers read from `at` on.
pub(crate) fn get_dotfile_profile_at(
    start_dir: Option<&FsPath>,
    replies: &Vec<Reply>,
    at: usize,
) -> (r: (Step<Result<Option<String>, Error>>, usize))
    requires
        at <= replies.len(),
    ensures
        (r.0.model(), (r.1 - at) as nat) == dotfile_profile_script(
            start_dir.model(),
            replies.model().skip(at as int),
        ),
        at <= r.1 <= replies.len(),
{
    let ghost rest = replies.model().skip(at as int);
    let found = find_dotfile_at(start_dir, replies, at);
    match found.0 {
        Step::Ask(q) => (Step::Ask(q), found.1),
        Step::Done(None) => (Step::Done(Ok(None)), found.1),
        Step::Done(Some(path)) => {
            assert(rest.skip(found.1 - at) =~= replies.model().skip(found.1 as int));
            match read_profile_at(&path, replies, found.1) {
                Step::Ask(q) => (Step::Ask(q), found.1),
                Step::Done(Ok(key)) => (Step::Done(Ok(Some(key))), found.1 + 1),
                Step::Done(Err(e)) => (Step::Done(Err(e)), found.1 + 1),
            }
        },
    }
}

/// The key that applies to the directory where the process stands.
pub fn get_dotfile_profile(replies: &Vec<Reply>) -> (r: Step<Result<Option<String>, Error>>)
    ensures
        r.model() == dotfile_profile_script(None, replies.model()).0,
{
    get_dotfile_profile_in_dir(None, replies)
}

/// The key that applies to `start_dir`: the key that the marker found for
/// it names. Where no marker is found, no key applies. A marker that is
/// found and holds nothing but whitespace is a failure, and so is one that
/// cannot be read: neither is taken for a missing marker.
pub fn get_dotfile_profile_in_dir(start_dir: Option<&FsPath>, replies: &Vec<Reply>) -> (r: Step<
    Result<Option<String>, Error>,
>)
    ensures
        r.model() == dotfile_profile_script(start_dir.model(), replies.model()).0,
{
    assert(replies.model().skip(0) =~= replies.model());
    get_dotfile_profile_at(start_dir, replies, 0).0
}

} // verus!
