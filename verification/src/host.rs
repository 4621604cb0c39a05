//! What the library asks of its host, and what the host answers.
//!
//! An operation that needs the outside world is a function of the answers
//! given so far: it either names the next thing to do or is done. The host
//! does what is asked, appends the answer and calls again.

use vstd::prelude::*;
use crate::model::Model;
use crate::path::{FsPath, PartModel};

verus! {

/// Something for the host to do.
#[derive(Debug, PartialEq, Eq)]
pub enum Request {
    /// Run `git` with these arguments, in `dir` or, without one, where the
    /// process stands.
    Git { args: Vec<String>, dir: Option<FsPath> },
    /// Name the directory where the process stands.
    CurrentDir,
    /// Say whether anything exists at `path`.
    Exists { path: FsPath },
    /// Read the text file at `path`.
    Read { path: FsPath },
    /// Write `content` to the file at `path`, in place of what it held.
    Write { path: FsPath, content: String },
    /// Make the directory at `path`, and those above it that are missing.
    CreateDir { path: FsPath },
}

/// What a [`Request`] stands for.
pub enum RequestModel {
    Git { args: Seq<Seq<char>>, dir: Option<Seq<PartModel>> },
    CurrentDir,
    Exists { path: Seq<PartModel> },
    Read { path: Seq<PartModel> },
    Write { path: Seq<PartModel>, content: Seq<char> },
    CreateDir { path: Seq<PartModel> },
}

impl Model for Request {
    type M = RequestModel;

    open spec fn model(&self) -> RequestModel {
        match self {
            Request::Git { args, dir } => RequestModel::Git {
                args: args.model(),
                dir: dir.model(),
            },
            Request::CurrentDir => RequestModel::CurrentDir,
            Request::Exists { path } => RequestModel::Exists { path: path.model() },
            Request::Read { path } => RequestModel::Read { path: path.model() },
            Request::Write { path, content } => RequestModel::Write {
                path: path.model(),
                content: content@,
            },
            Request::CreateDir { path } => RequestModel::CreateDir { path: path.model() },
        }
    }
}

impl Clone for Request {
    fn clone(&self) -> (r: Self)
        ensures
            r.model() == self.model(),
    {
        match self {
            Request::Git { args, dir } => {
                let mut copied: Vec<String> = Vec::new();
                let n = args.len();
                let mut i: usize = 0;
                while i < n
                    invariant
                        i <= n,
                        n == args.len(),
                        copied.len() == i,
                        forall|k: int| 0 <= k < i ==> copied@[k]@ == args@[k]@,
                    decreases n - i,
                {
                    copied.push(args[i].clone());
                    i = i + 1;
                }
                assert(copied.model() =~= args.model());
                let dir = match dir {
                    Some(d) => Some(d.clone()),
                    None => None,
                };
                Request::Git { args: copied, dir }
            },
            Request::CurrentDir => Request::CurrentDir,
            Request::Exists { path } => Request::Exists { path: path.clone() },
            Request::Read { path } => Request::Read { path: path.clone() },
            Request::Write { path, content } => Request::Write {
                path: path.clone(),
                content: content.clone(),
            },
            Request::CreateDir { path } => Request::CreateDir { path: path.clone() },
        }
    }
}

/// The host's answer to one request.
///
/// For a command, `success` is a zero exit status, `output` what it wrote to
/// standard output, if that is text, and `diagnostic` what it wrote to
/// standard error; a command that could not be run has failed. For the
/// other requests `success` says that the directory is known, that
/// something exists, that the file was read or written, that the directory
/// is there; `output` is the directory or the file's text, `diagnostic` the
/// reason for a failure.
#[derive(Debug, PartialEq, Eq)]
pub struct Reply {
    pub success: bool,
    pub output: Option<String>,
    pub diagnostic: String,
}

/// What a [`Reply`] stands for.
pub struct ReplyModel {
    pub success: bool,
    pub output: Option<Seq<char>>,
    pub diagnostic: Seq<char>,
}

impl Model for Reply {
    type M = ReplyModel;

    open spec fn model(&self) -> ReplyModel {
        ReplyModel {
            success: self.success,
            output: self.output.model(),
            diagnostic: self.diagnostic@,
        }
    }
}

impl Clone for Reply {
    fn clone(&self) -> (r: Self)
        ensures
            r.model() == self.model(),
    {
        let output = match &self.output {
            Some(text) => Some(text.clone()),
            None => None,
        };
        Reply { success: self.success, output, diagnostic: self.diagnostic.clone() }
    }
}

/// The text that an answer brings: the output of a request that
/// succeeded, where that is text.
pub open spec fn text_of(reply: ReplyModel) -> Option<Seq<char>> {
    if reply.success {
        reply.output
    } else {
        None
    }
}

impl Reply {
    /// The text that the answer brings, if the request succeeded and its
    /// output is text.
    pub fn text(&self) -> (r: Option<&str>)
        ensures
            match r {
                Some(text) => text_of(self.model()) == Some(text@),
                None => text_of(self.model()).is_none(),
            },
    {
        if self.success {
            match &self.output {
                Some(text) => Some(text.as_str()),
                None => None,
            }
        } else {
            None
        }
    }
}

/// Where an operation stands.
#[derive(Debug, PartialEq, Eq)]
pub enum Step<T> {
    /// The host is to do this and to call again with the answer appended.
    Ask(Request),
    /// The operation is over, with this result.
    Done(T),
}

/// What a [`Step`] stands for.
pub enum StepModel<T> {
    Ask(RequestModel),
    Done(T),
}

impl<T: Model> Model for Step<T> {
    type M = StepModel<T::M>;

    open spec fn model(&self) -> StepModel<T::M> {
        match self {
            Step::Ask(q) => StepModel::Ask(q.model()),
            Step::Done(t) => StepModel::Done(t.model()),
        }
    }
}

} // verus!
