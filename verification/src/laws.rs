//! What holds of the operations when a host answers them.

use vstd::prelude::*;
use crate::dotfile::{
    create_dotfile_script, dotfile_profile_script, find_script, key_in, marker_in,
    read_profile_script, walk_script,
};
use crate::config::ProfileModel;
use crate::error::{key_of, ErrorModel, Field};
use crate::config::ConfigModel;
use crate::git::{
    config_get_query, config_set_query, read_config_script, scope_flag, set_config_script,
    top_level_query,
};
use crate::policy::{auto_script, store_after_switch, switch_script, OutcomeModel};
use crate::host::{text_of, ReplyModel, RequestModel, StepModel};
use crate::path::{anchored, components_of, holds, parent_of, PartModel};
use crate::text::{
    lemma_skip_leading_is, lemma_skip_trailing_is, lemma_trimmed_with_ending, trimmed, whitespace,
};

verus! {

/// A host that answers a request the same way whenever it is asked.
pub type Host = spec_fn(RequestModel) -> ReplyModel;

/// An operation: what it does next, given the answers so far.
pub type Script<T> = spec_fn(Seq<ReplyModel>) -> StepModel<T>;

/// The result of an operation that a host answers, if it ends within
/// `fuel` requests.
pub open spec fn run<T>(script: Script<T>, host: Host, replies: Seq<ReplyModel>, fuel: nat) -> Option<
    T,
>
    decreases fuel,
{
    match script(replies) {
        StepModel::Done(t) => Some(t),
        StepModel::Ask(q) => if fuel == 0 {
            None
        } else {
            run(script, host, replies.push(host(q)), (fuel - 1) as nat)
        },
    }
}

/// An operation that, after some answers, goes on as another operation
/// does from its start, ends as that one ends.
proof fn lemma_run_continues<T>(
    whole: Script<T>,
    part: Script<T>,
    host: Host,
    before: Seq<ReplyModel>,
    since: Seq<ReplyModel>,
    fuel: nat,
)
    requires
        forall|v: Seq<ReplyModel>| whole(before + v) == #[trigger] part(v),
    ensures
        run(whole, host, before + since, fuel) == run(part, host, since, fuel),
    decreases fuel,
{
    assert(whole(before + since) == part(since));
    match part(since) {
        StepModel::Done(t) => {},
        StepModel::Ask(q) => {
            if fuel > 0 {
                assert((before + since).push(host(q)) =~= before + since.push(host(q)));
                lemma_run_continues(
                    whole,
                    part,
                    host,
                    before,
                    since.push(host(q)),
                    (fuel - 1) as nat,
                );
            }
        },
    }
}

/// Whether the host finds a marker file in `dir`.
pub open spec fn marked(host: Host, dir: Seq<PartModel>) -> bool {
    host(RequestModel::Exists { path: marker_in(dir) }).success
}

/// The top of the repository that the host's git names for `dir`, if it
/// names one.
pub open spec fn located(host: Host, dir: Seq<PartModel>) -> Option<Seq<PartModel>> {
    match text_of(host(top_level_query(Some(dir)))) {
        Some(text) => Some(components_of(trimmed(text))),
        None => None,
    }
}

/// The marker that a walk from `dir` towards `root` comes upon first.
pub open spec fn walk_result(host: Host, dir: Seq<PartModel>, root: Seq<PartModel>) -> Option<
    Seq<PartModel>,
>
    decreases dir.len(),
{
    if marked(host, dir) {
        Some(marker_in(dir))
    } else if dir == root {
        None
    } else {
        match parent_of(dir) {
            None => None,
            Some(up) => walk_result(host, up, root),
        }
    }
}

/// The walk as an operation of its own.
pub open spec fn walk_of(dir: Seq<PartModel>, root: Seq<PartModel>) -> Script<
    Option<Seq<PartModel>>,
> {
    |replies: Seq<ReplyModel>| walk_script(dir, root, replies).0
}

/// A walk that a host answers ends, and ends with the first marker on the
/// way.
proof fn lemma_walk_run(host: Host, dir: Seq<PartModel>, root: Seq<PartModel>, fuel: nat)
    requires
        fuel > dir.len(),
    ensures
        run(walk_of(dir, root), host, Seq::empty(), fuel) == Some(walk_result(host, dir, root)),
    decreases dir.len(),
{
    let script = walk_of(dir, root);
    let none = Seq::<ReplyModel>::empty();
    let probe = RequestModel::Exists { path: marker_in(dir) };
    assert(script(none) == StepModel::<Option<Seq<PartModel>>>::Ask(probe));
    let first = none.push(host(probe));
    assert(run(script, host, none, fuel) == run(script, host, first, (fuel - 1) as nat));
    if marked(host, dir) || dir == root || parent_of(dir).is_none() {
        assert(script(first) == StepModel::Done(walk_result(host, dir, root)));
    } else {
        let up = parent_of(dir).unwrap();
        let rest = walk_of(up, root);
        assert forall|v: Seq<ReplyModel>| script(first + v) == #[trigger] rest(v) by {
            assert((first + v).drop_first() =~= v);
        }
        lemma_run_continues(script, rest, host, first, none, (fuel - 1) as nat);
        assert(first + none =~= first);
        lemma_walk_run(host, up, root, (fuel - 1) as nat);
    }
}

/// The search as an operation.
pub open spec fn find_of(start_dir: Option<Seq<PartModel>>) -> Script<Option<Seq<PartModel>>> {
    |replies: Seq<ReplyModel>| find_script(start_dir, replies).0
}

/// The directory that a search starts in: the one given or, without one,
/// the one that the host names as the process's own, if it names one.
pub open spec fn start_of(host: Host, start_dir: Option<Seq<PartModel>>) -> Option<
    Seq<PartModel>,
> {
    match start_dir {
        Some(start) => Some(start),
        None => match text_of(host(RequestModel::CurrentDir)) {
            Some(text) => Some(components_of(text)),
            None => None,
        },
    }
}

/// What a search comes to: outside a repository nothing, inside one the
/// first marker on the way to its top.
pub open spec fn find_result(host: Host, start_dir: Option<Seq<PartModel>>) -> Option<
    Seq<PartModel>,
> {
    match start_of(host, start_dir) {
        None => None,
        Some(start) => match located(host, start) {
            None => None,
            Some(root) => walk_result(host, start, root),
        },
    }
}

proof fn lemma_search_run(host: Host, start: Seq<PartModel>, fuel: nat)
    requires
        fuel >= 3,
        located(host, start).is_some() ==> fuel >= start.len() + 3,
    ensures
        run(find_of(Some(start)), host, Seq::empty(), fuel) == Some(
            find_result(host, Some(start)),
        ),
{
    let script = find_of(Some(start));
    let none = Seq::<ReplyModel>::empty();
    let probe = RequestModel::Exists { path: marker_in(start) };
    let ask = top_level_query(Some(start));
    let e = host(probe);
    let t = host(ask);
    let one = none.push(e);
    let two = one.push(t);
    assert(script(none) == StepModel::<Option<Seq<PartModel>>>::Ask(probe));
    assert(run(script, host, none, fuel) == run(script, host, one, (fuel - 1) as nat));
    assert(one.skip(1) =~= none);
    assert(script(one) == StepModel::<Option<Seq<PartModel>>>::Ask(ask));
    assert(run(script, host, one, (fuel - 1) as nat) == run(script, host, two, (fuel - 2) as nat));
    assert(two.skip(1) =~= none.push(t));
    assert(two.skip(2) =~= none);
    if text_of(t).is_some() {
        let root = located(host, start).unwrap();
        if e.success {
            assert(script(two) == StepModel::Done(find_result(host, Some(start))));
        } else {
            let rest = walk_of(start, root);
            assert forall|v: Seq<ReplyModel>| script(two + v) == #[trigger] rest(v) by {
                assert((two + v).skip(1) =~= none.push(t) + v);
                assert((none.push(t) + v).drop_first() =~= v);
            }
            lemma_run_continues(script, rest, host, two, none, (fuel - 2) as nat);
            assert(two + none =~= two);
            lemma_walk_run(host, start, root, (fuel - 2) as nat);
        }
    } else {
        if e.success {
            let three = two.push(t);
            assert(script(two) == StepModel::<Option<Seq<PartModel>>>::Ask(ask));
            assert(three.skip(2) =~= none.push(t));
            assert(script(three) == StepModel::<Option<Seq<PartModel>>>::Done(None));
            assert(run(script, host, two, (fuel - 2) as nat) == run(
                script,
                host,
                three,
                (fuel - 3) as nat,
            ));
        } else {
            assert(script(two) == StepModel::<Option<Seq<PartModel>>>::Done(None));
        }
    }
}

/// A search that a host answers ends, within as many requests as the
/// start directory has components and four more, and comes to
/// [`find_result`].
pub proof fn law_find_ends(host: Host, start_dir: Option<Seq<PartModel>>, fuel: nat)
    requires
        fuel >= 4,
        match start_of(host, start_dir) {
            Some(start) => located(host, start).is_some() ==> fuel >= start.len() + 4,
            None => true,
        },
    ensures
        run(find_of(start_dir), host, Seq::empty(), fuel) == Some(find_result(host, start_dir)),
{
    match start_dir {
        Some(start) => {
            lemma_search_run(host, start, fuel);
        },
        None => {
            let script = find_of(None);
            let none = Seq::<ReplyModel>::empty();
            let c = host(RequestModel::CurrentDir);
            let one = none.push(c);
            assert(script(none) == StepModel::<Option<Seq<PartModel>>>::Ask(
                RequestModel::CurrentDir,
            ));
            assert(run(script, host, none, fuel) == run(script, host, one, (fuel - 1) as nat));
            if text_of(c).is_some() {
                let start = components_of(text_of(c).unwrap());
                let rest = find_of(Some(start));
                assert forall|v: Seq<ReplyModel>| script(one + v) == #[trigger] rest(v) by {
                    assert((one + v).skip(1) =~= v);
                }
                lemma_run_continues(script, rest, host, one, none, (fuel - 1) as nat);
                assert(one + none =~= one);
                lemma_search_run(host, start, (fuel - 1) as nat);
            } else {
                assert(script(one) == StepModel::<Option<Seq<PartModel>>>::Done(None));
            }
        },
    }
}

/// Whether `dir` lies between `root` and `start`, has a marker, and no
/// directory between it and `start` has one.
pub open spec fn nearest_marked(
    host: Host,
    start: Seq<PartModel>,
    root: Seq<PartModel>,
    dir: Seq<PartModel>,
) -> bool {
    &&& holds(root, dir)
    &&& holds(dir, start)
    &&& marked(host, dir)
    &&& forall|between: Seq<PartModel>|
        holds(dir, between) && holds(between, start) && between != dir ==> !marked(
            host,
            between,
        )
}

/// Whether every component of `start` below `root` has a parent.
pub open spec fn reaches(start: Seq<PartModel>, root: Seq<PartModel>) -> bool {
    forall|i: int| root.len() <= i < start.len() ==> !anchored(#[trigger] start[i])
}

proof fn lemma_holds_parent(a: Seq<PartModel>, d: Seq<PartModel>)
    requires
        holds(a, d),
        a != d,
    ensures
        d.len() > 0,
        holds(a, d.drop_last()),
{
    if a.len() == d.len() {
        assert(d.subrange(0, a.len() as int) =~= d);
    }
    assert(a =~= d.drop_last().subrange(0, a.len() as int));
}

proof fn lemma_holds_refl(d: Seq<PartModel>)
    ensures
        holds(d, d),
{
    assert(d =~= d.subrange(0, d.len() as int));
}

proof fn lemma_holds_trans(a: Seq<PartModel>, b: Seq<PartModel>, c: Seq<PartModel>)
    requires
        holds(a, b),
        holds(b, c),
    ensures
        holds(a, c),
{
    assert(a =~= c.subrange(0, a.len() as int));
}

proof fn lemma_holds_same(a: Seq<PartModel>, b: Seq<PartModel>)
    requires
        holds(a, b),
        holds(b, a),
    ensures
        a == b,
{
    assert(b.subrange(0, a.len() as int) =~= b);
}

/// What the walk comes upon: a marker of the nearest directory that has
/// one, never above `root`; and where every directory on the way has a
/// parent, it misses none.
proof fn lemma_walk_result(host: Host, dir: Seq<PartModel>, root: Seq<PartModel>)
    requires
        holds(root, dir),
    ensures
        match walk_result(host, dir, root) {
            Some(path) => exists|at: Seq<PartModel>|
                path == marker_in(at) && #[trigger] nearest_marked(host, dir, root, at),
            None => reaches(dir, root) ==> forall|at: Seq<PartModel>|
                holds(root, at) && holds(at, dir) ==> !marked(host, at),
        },
    decreases dir.len(),
{
    lemma_holds_refl(dir);
    if marked(host, dir) {
        assert forall|between: Seq<PartModel>|
            holds(dir, between) && holds(between, dir) && between != dir implies !marked(
            host,
            between,
        ) by {
            lemma_holds_same(dir, between);
        }
        assert(nearest_marked(host, dir, root, dir));
    } else if dir == root {
        assert forall|at: Seq<PartModel>| holds(root, at) && holds(at, dir) implies !marked(
            host,
            at,
        ) by {
            lemma_holds_same(dir, at);
        }
    } else {
        lemma_holds_parent(root, dir);
        match parent_of(dir) {
            None => {
                assert(anchored(dir[dir.len() - 1]));
                assert(root.len() < dir.len()) by {
                    if root.len() == dir.len() {
                        lemma_holds_same_length(root, dir);
                    }
                }
                assert(!reaches(dir, root));
            },
            Some(up) => {
                lemma_walk_result(host, up, root);
                assert(holds(up, dir)) by {
                    assert(up =~= dir.subrange(0, up.len() as int));
                }
                assert(reaches(dir, root) ==> reaches(up, root)) by {
                    if reaches(dir, root) {
                        assert forall|i: int| root.len() <= i < up.len() implies !anchored(
                            #[trigger] up[i],
                        ) by {
                            assert(up[i] == dir[i]);
                        }
                    }
                }
                match walk_result(host, up, root) {
                    Some(path) => {
                        let at = choose|at: Seq<PartModel>|
                            path == marker_in(at) && #[trigger] nearest_marked(
                                host,
                                up,
                                root,
                                at,
                            );
                        lemma_holds_trans(at, up, dir);
                        assert forall|between: Seq<PartModel>|
                            holds(at, between) && holds(between, dir)
                                && between != at implies !marked(host, between) by {
                            if between != dir {
                                lemma_holds_parent(between, dir);
                            }
                        }
                        assert(nearest_marked(host, dir, root, at));
                    },
                    None => {
                        if reaches(dir, root) {
                            assert forall|at: Seq<PartModel>|
                                holds(root, at) && holds(at, dir) implies !marked(host, at) by {
                                if at != dir {
                                    lemma_holds_parent(at, dir);
                                }
                            }
                        }
                    },
                }
            },
        }
    }
}

proof fn lemma_holds_same_length(a: Seq<PartModel>, d: Seq<PartModel>)
    requires
        holds(a, d),
        a.len() == d.len(),
    ensures
        a == d,
{
    assert(d.subrange(0, a.len() as int) =~= d);
}

/// Boundary: inside a repository, the marker that a search finds belongs to
/// the start directory or to one of the directories that it lies in, and to
/// the top of the repository or to one of the directories inside it. The
/// search never leaves the repository.
pub proof fn law_find_stays_inside(
    host: Host,
    start_dir: Option<Seq<PartModel>>,
    start: Seq<PartModel>,
    root: Seq<PartModel>,
    fuel: nat,
)
    requires
        start_of(host, start_dir) == Some(start),
        located(host, start) == Some(root),
        holds(root, start),
        fuel >= start.len() + 4,
    ensures
        match run(find_of(start_dir), host, Seq::empty(), fuel) {
            Some(Some(path)) => exists|dir: Seq<PartModel>|
                path == marker_in(dir) && #[trigger] holds(dir, start) && holds(root, dir),
            Some(None) => true,
            None => false,
        },
{
    law_find_ends(host, start_dir, fuel);
    lemma_walk_result(host, start, root);
    match walk_result(host, start, root) {
        Some(path) => {
            let at = choose|at: Seq<PartModel>|
                path == marker_in(at) && #[trigger] nearest_marked(host, start, root, at);
            assert(holds(at, start) && holds(root, at));
        },
        None => {},
    }
}

/// Closest wins: inside a repository, a search finds the marker of the
/// nearest directory that has one, counted from the start directory
/// upwards; a marker further up does not count against it. Where every
/// directory on the way to the top has a parent, a search that finds
/// nothing has passed no marker.
pub proof fn law_find_closest_wins(
    host: Host,
    start_dir: Option<Seq<PartModel>>,
    start: Seq<PartModel>,
    root: Seq<PartModel>,
    fuel: nat,
)
    requires
        start_of(host, start_dir) == Some(start),
        located(host, start) == Some(root),
        holds(root, start),
        fuel >= start.len() + 4,
    ensures
        match run(find_of(start_dir), host, Seq::empty(), fuel) {
            Some(Some(path)) => exists|dir: Seq<PartModel>|
                path == marker_in(dir) && #[trigger] nearest_marked(host, start, root, dir),
            Some(None) => reaches(start, root) ==> forall|dir: Seq<PartModel>|
                holds(root, dir) && holds(dir, start) ==> !marked(host, dir),
            None => false,
        },
{
    law_find_ends(host, start_dir, fuel);
    lemma_walk_result(host, start, root);
}

/// Outside a repository no marker counts: where git names no repository
/// for the start directory, a search finds nothing, whatever files there
/// are.
pub proof fn law_find_nothing_outside(
    host: Host,
    start_dir: Option<Seq<PartModel>>,
    fuel: nat,
)
    requires
        match start_of(host, start_dir) {
            Some(start) => located(host, start).is_none(),
            None => true,
        },
        fuel >= 4,
    ensures
        run(find_of(start_dir), host, Seq::empty(), fuel) == Some(
            None::<Seq<PartModel>>,
        ),
{
    law_find_ends(host, start_dir, fuel);
}

/// What git keeps: values under whether they are user-wide and their key.
pub type Settings = Map<(bool, Seq<char>), Seq<char>>;

/// A git that keeps what it is told to set, unless the key is one that it
/// refuses with a complaint, and that prints what it keeps, followed by
/// `ending`, when asked for it.
pub struct Keeper {
    pub settings: Settings,
    pub refused: Set<Seq<char>>,
    pub complaint: Seq<char>,
    pub ending: Seq<char>,
}

/// The same git, keeping other settings.
pub open spec fn keeping(git: Keeper, settings: Settings) -> Keeper {
    Keeper { settings, refused: git.refused, complaint: git.complaint, ending: git.ending }
}

/// The answer of a command that did not do what it was asked.
pub open spec fn refusal(diagnostic: Seq<char>) -> ReplyModel {
    ReplyModel { success: false, output: None, diagnostic }
}

/// The answer of such a git to a request, and what it keeps afterwards.
pub open spec fn keeper(git: Keeper, request: RequestModel) -> (ReplyModel, Settings) {
    match request {
        RequestModel::Git { args, dir } => {
            if args.len() == 4 && args[0] == "config"@ && (args[1] == scope_flag(true) || args[1]
                == scope_flag(false)) {
                let at = (args[1] == scope_flag(true), args[3]);
                if args[2] == "--get"@ {
                    if git.settings.dom().contains(at) {
                        (
                            ReplyModel {
                                success: true,
                                output: Some(git.settings[at] + git.ending),
                                diagnostic: Seq::empty(),
                            },
                            git.settings,
                        )
                    } else {
                        (refusal(Seq::empty()), git.settings)
                    }
                } else if git.refused.contains(args[2]) {
                    (refusal(git.complaint), git.settings)
                } else {
                    (
                        ReplyModel {
                            success: true,
                            output: Some(Seq::empty()),
                            diagnostic: Seq::empty(),
                        },
                        git.settings.insert((args[1] == scope_flag(true), args[2]), args[3]),
                    )
                }
            } else {
                (refusal(Seq::empty()), git.settings)
            }
        },
        _ => (refusal(Seq::empty()), git.settings),
    }
}

/// The result of an operation that such a git answers, with what git keeps
/// in the end, if the operation ends within `fuel` requests.
pub open spec fn run_kept<T>(script: Script<T>, git: Keeper, replies: Seq<ReplyModel>, fuel: nat) -> Option<
    (T, Settings),
>
    decreases fuel,
{
    match script(replies) {
        StepModel::Done(t) => Some((t, git.settings)),
        StepModel::Ask(q) => if fuel == 0 {
            None
        } else {
            let (reply, kept) = keeper(git, q);
            run_kept(script, keeping(git, kept), replies.push(reply), (fuel - 1) as nat)
        },
    }
}

/// The complaint about a setting that git refused.
pub open spec fn refused_at(git: Keeper, field: Field) -> Result<(), ErrorModel> {
    Err(ErrorModel::ConfigWriteFailed { field, diagnostic: git.complaint })
}

/// What becomes of putting an identity in effect: the first setting that
/// git refuses is the failure, what was set before it stays set, and what
/// comes after it is not set.
pub open spec fn applied(git: Keeper, global: bool, profile: ProfileModel) -> (
    Result<(), ErrorModel>,
    Settings,
) {
    let named = git.settings.insert((global, key_of(Field::Name)), profile.name);
    let addressed = named.insert((global, key_of(Field::Email)), profile.email);
    if git.refused.contains(key_of(Field::Name)) {
        (refused_at(git, Field::Name), git.settings)
    } else if git.refused.contains(key_of(Field::Email)) {
        (refused_at(git, Field::Email), named)
    } else {
        match profile.signing_key {
            None => (Ok(()), addressed),
            Some(key) => if git.refused.contains(key_of(Field::SigningKey)) {
                (refused_at(git, Field::SigningKey), addressed)
            } else {
                (Ok(()), addressed.insert((global, key_of(Field::SigningKey)), key))
            },
        }
    }
}

/// Putting an identity in effect, as an operation.
pub open spec fn apply_of(
    profile: ProfileModel,
    global: bool,
    dir: Option<Seq<PartModel>>,
) -> Script<Result<(), ErrorModel>> {
    |replies: Seq<ReplyModel>| set_config_script(profile, global, dir, replies)
}

/// Reading as an operation.
pub open spec fn read_of(global: Option<bool>, dir: Option<Seq<PartModel>>) -> Script<
    Result<ProfileModel, ErrorModel>,
> {
    |replies: Seq<ReplyModel>| read_config_script(global, dir, replies)
}

proof fn lemma_words_differ()
    ensures
        scope_flag(true) != scope_flag(false),
        key_of(Field::Name) != "--get"@,
        key_of(Field::Email) != "--get"@,
        key_of(Field::SigningKey) != "--get"@,
        key_of(Field::Name) != key_of(Field::Email),
        key_of(Field::Name) != key_of(Field::SigningKey),
        key_of(Field::Email) != key_of(Field::SigningKey),
{
    reveal_strlit("--global");
    reveal_strlit("--local");
    reveal_strlit("--get");
    reveal_strlit("user.name");
    reveal_strlit("user.email");
    reveal_strlit("user.signingkey");
    assert("--global"@.len() != "--local"@.len());
    assert("user.name"@.len() != "--get"@.len());
    assert("user.email"@.len() != "--get"@.len());
    assert("user.signingkey"@.len() != "--get"@.len());
    assert("user.name"@.len() != "user.email"@.len());
    assert("user.name"@.len() != "user.signingkey"@.len());
    assert("user.email"@.len() != "user.signingkey"@.len());
}

/// Fail fast, nothing undone: the settings of an identity are written in
/// turn; the first that git refuses ends the operation, which reports that
/// setting and git's complaint; what was written before it stays written,
/// and nothing after it is tried.
pub proof fn law_apply_stops_at_first_refusal(
    profile: ProfileModel,
    global: bool,
    dir: Option<Seq<PartModel>>,
    git: Keeper,
    fuel: nat,
)
    requires
        fuel >= 3,
    ensures
        run_kept(apply_of(profile, global, dir), git, Seq::empty(), fuel) == Some(
            applied(git, global, profile),
        ),
{
    lemma_words_differ();
    let script = apply_of(profile, global, dir);
    let none = Seq::<ReplyModel>::empty();
    let q0 = config_set_query(global, key_of(Field::Name), profile.name, dir);
    let q1 = config_set_query(global, key_of(Field::Email), profile.email, dir);
    let (a0, s0) = keeper(git, q0);
    let g0 = keeping(git, s0);
    let (a1, s1) = keeper(g0, q1);
    let g1 = keeping(git, s1);
    let one = none.push(a0);
    let two = one.push(a1);
    assert(keeping(g0, s1) == g1);
    assert(script(none) == StepModel::<Result<(), ErrorModel>>::Ask(q0));
    assert(run_kept(script, git, none, fuel) == run_kept(script, g0, one, (fuel - 1) as nat));
    assert(one.skip(1) =~= none);
    if git.refused.contains(key_of(Field::Name)) {
        assert(script(one) == StepModel::Done(refused_at(git, Field::Name)));
    } else {
        assert(script(one) == StepModel::<Result<(), ErrorModel>>::Ask(q1));
        assert(run_kept(script, g0, one, (fuel - 1) as nat) == run_kept(
            script,
            g1,
            two,
            (fuel - 2) as nat,
        ));
        assert(two.skip(1) =~= none.push(a1));
        assert(two.skip(2) =~= none);
        if git.refused.contains(key_of(Field::Email)) {
            assert(script(two) == StepModel::Done(refused_at(git, Field::Email)));
        } else {
            match profile.signing_key {
                None => {
                    assert(script(two) == StepModel::Done(Ok::<(), ErrorModel>(())));
                },
                Some(key) => {
                    let q2 = config_set_query(global, key_of(Field::SigningKey), key, dir);
                    let (a2, s2) = keeper(g1, q2);
                    let three = two.push(a2);
                    assert(script(two) == StepModel::<Result<(), ErrorModel>>::Ask(q2));
                    assert(run_kept(script, g1, two, (fuel - 2) as nat) == run_kept(
                        script,
                        keeping(g1, s2),
                        three,
                        (fuel - 3) as nat,
                    ));
                    assert(three.skip(1) =~= none.push(a1).push(a2));
                    assert(three.skip(2) =~= none.push(a2));
                    assert(script(three) == StepModel::Done(applied(git, global, profile).0));
                },
            }
        }
    }
}

/// The settings with an identity among them: its name, its email and,
/// where it has one, its signing key.
pub open spec fn with_identity(settings: Settings, global: bool, profile: ProfileModel) -> Settings {
    let both = settings.insert((global, key_of(Field::Name)), profile.name).insert(
        (global, key_of(Field::Email)),
        profile.email,
    );
    match profile.signing_key {
        Some(key) => both.insert((global, key_of(Field::SigningKey)), key),
        None => both,
    }
}

/// Round trip: an identity that is put in effect at a scope is the
/// identity that is then read at that scope: the same name and email, and
/// a signing key if and only if the identity has one. This is said of a
/// git that keeps what it is told and ends what it prints with whitespace
/// only, of an identity whose values have no whitespace around them, and,
/// for an identity without a signing key, of a scope that held none
/// before: a write does not remove one.
pub proof fn law_apply_then_read(
    profile: ProfileModel,
    global: bool,
    dir: Option<Seq<PartModel>>,
    git: Keeper,
)
    requires
        !git.refused.contains(key_of(Field::Name)),
        !git.refused.contains(key_of(Field::Email)),
        !git.refused.contains(key_of(Field::SigningKey)),
        forall|i: int| 0 <= i < git.ending.len() ==> whitespace(#[trigger] git.ending[i]),
        trimmed(profile.name) == profile.name,
        trimmed(profile.email) == profile.email,
        match profile.signing_key {
            Some(key) => trimmed(key) == key,
            None => !git.settings.dom().contains((global, key_of(Field::SigningKey))),
        },
    ensures
        ({
            let written = run_kept(apply_of(profile, global, dir), git, Seq::empty(), 3);
            &&& written == Some(
                (Ok::<(), ErrorModel>(()), with_identity(git.settings, global, profile)),
            )
            &&& run_kept(
                read_of(Some(global), dir),
                keeping(git, written.unwrap().1),
                Seq::empty(),
                3,
            ) == Some((Ok::<ProfileModel, ErrorModel>(profile), written.unwrap().1))
        }),
{
    lemma_words_differ();
    law_apply_stops_at_first_refusal(profile, global, dir, git, 3);
    let kept = with_identity(git.settings, global, profile);
    let after = keeping(git, kept);
    match profile.signing_key {
        Some(key) => {
            lemma_trimmed_with_ending(key, git.ending);
        },
        None => {},
    }
    lemma_trimmed_with_ending(profile.name, git.ending);
    lemma_trimmed_with_ending(profile.email, git.ending);

    let script = read_of(Some(global), dir);
    let none = Seq::<ReplyModel>::empty();
    let q0 = config_get_query(Some(global), key_of(Field::Name), dir);
    let q1 = config_get_query(Some(global), key_of(Field::Email), dir);
    let q2 = config_get_query(Some(global), key_of(Field::SigningKey), dir);
    let a0 = keeper(after, q0).0;
    let a1 = keeper(after, q1).0;
    let a2 = keeper(after, q2).0;
    assert(keeper(after, q0).1 == kept);
    assert(keeper(after, q1).1 == kept);
    assert(keeper(after, q2).1 == kept);
    assert(keeping(after, kept) == after);
    assert(text_of(a0) == Some(profile.name + git.ending));
    assert(text_of(a1) == Some(profile.email + git.ending));
    let one = none.push(a0);
    let two = one.push(a1);
    let three = two.push(a2);
    assert(script(none) == StepModel::<Result<ProfileModel, ErrorModel>>::Ask(q0));
    assert(one.skip(1) =~= none);
    assert(script(one) == StepModel::<Result<ProfileModel, ErrorModel>>::Ask(q1));
    assert(two.skip(1) =~= none.push(a1));
    assert(two.skip(2) =~= none);
    assert(script(two) == StepModel::<Result<ProfileModel, ErrorModel>>::Ask(q2));
    assert(three.skip(1) =~= none.push(a1).push(a2));
    assert(three.skip(2) =~= none.push(a2));
    assert(script(three) == StepModel::Done(Ok::<ProfileModel, ErrorModel>(profile)));
    assert(run_kept(script, after, none, 3) == run_kept(script, after, one, 2));
    assert(run_kept(script, after, one, 2) == run_kept(script, after, two, 1));
    assert(run_kept(script, after, two, 1) == run_kept(script, after, three, 0));
}

/// Once is enough: putting an identity in effect a second time changes
/// nothing that git keeps.
pub proof fn law_apply_twice(
    profile: ProfileModel,
    global: bool,
    dir: Option<Seq<PartModel>>,
    git: Keeper,
)
    requires
        !git.refused.contains(key_of(Field::Name)),
        !git.refused.contains(key_of(Field::Email)),
        !git.refused.contains(key_of(Field::SigningKey)),
    ensures
        ({
            let once = run_kept(apply_of(profile, global, dir), git, Seq::empty(), 3);
            &&& once == Some(
                (Ok::<(), ErrorModel>(()), with_identity(git.settings, global, profile)),
            )
            &&& run_kept(
                apply_of(profile, global, dir),
                keeping(git, once.unwrap().1),
                Seq::empty(),
                3,
            ) == once
        }),
{
    lemma_words_differ();
    law_apply_stops_at_first_refusal(profile, global, dir, git, 3);
    let kept = with_identity(git.settings, global, profile);
    let after = keeping(git, kept);
    law_apply_stops_at_first_refusal(profile, global, dir, after, 3);
    assert(with_identity(kept, global, profile) =~= kept);
}

/// A refused email leaves the new name in place: where git takes the name
/// and refuses the email, the operation reports the email with git's
/// complaint, git keeps the new name, and nothing else has changed.
pub proof fn law_refused_email_keeps_name(
    profile: ProfileModel,
    global: bool,
    dir: Option<Seq<PartModel>>,
    git: Keeper,
)
    requires
        !git.refused.contains(key_of(Field::Name)),
        git.refused.contains(key_of(Field::Email)),
    ensures
        run_kept(apply_of(profile, global, dir), git, Seq::empty(), 3) == Some(
            (
                Err::<(), ErrorModel>(
                    ErrorModel::ConfigWriteFailed {
                        field: Field::Email,
                        diagnostic: git.complaint,
                    },
                ),
                git.settings.insert((global, key_of(Field::Name)), profile.name),
            ),
        ),
{
    law_apply_stops_at_first_refusal(profile, global, dir, git, 3);
}

/// Outside a repository `auto` asks one thing, where the repository
/// starts, and ends there: nothing is looked for and nothing is written.
pub proof fn law_auto_outside_repository(store: ConfigModel, reply: ReplyModel)
    requires
        !reply.success,
    ensures
        auto_script(store, Seq::empty()) == StepModel::<OutcomeModel>::Ask(top_level_query(None)),
        auto_script(store, seq![reply]) == StepModel::Done(OutcomeModel::NotARepository),
{
}

/// A switch to a key that the store does not keep asks nothing of the
/// host and leaves the store as it was.
pub proof fn law_switch_unknown_key(store: ConfigModel, key: Seq<char>, replies: Seq<ReplyModel>)
    requires
        !store.profiles.dom().contains(key),
    ensures
        switch_script(store, key, replies) == StepModel::Done(
            OutcomeModel::ProfileNotFound { key },
        ),
        store_after_switch(store, key, replies) == store,
{
}

/// What a marker names: `"  work  \n"` names `work`, and a marker of
/// whitespace alone, such as `"   \n\t"`, names nothing, which is a
/// failure.
pub proof fn law_marker_parsing()
    ensures
        key_in("  work  \n"@) == Ok::<Seq<char>, ErrorModel>("work"@),
        key_in("   \n\t"@) == Err::<Seq<char>, ErrorModel>(ErrorModel::MarkerEmpty),
{
    reveal_strlit("  work  \n");
    reveal_strlit("work");
    reveal_strlit("   \n\t");
    let named = "  work  \n"@;
    lemma_skip_leading_is(named, 2);
    let rest = named.skip(2);
    lemma_skip_trailing_is(rest, 4);
    assert(rest.take(4) =~= "work"@);
    let blank = "   \n\t"@;
    lemma_skip_leading_is(blank, 5);
    assert(blank.skip(5) =~= Seq::<char>::empty());
}

/// A marker that is written and read again names the key that it was
/// written for: the file holds the key and a line break, and reading it
/// gives the key. This is said of a key that is not empty and has no
/// whitespace around it.
pub proof fn law_marker_round_trip(path: Seq<PartModel>, key: Seq<char>, read: ReplyModel)
    requires
        key.len() > 0,
        trimmed(key) == key,
        create_dotfile_script(path, key, Seq::empty()) == StepModel::<
            Result<(), ErrorModel>,
        >::Ask(RequestModel::Write { path, content: read.output.unwrap() }),
        read.output.is_some(),
        read.success,
    ensures
        read_profile_script(path, seq![read]) == StepModel::Done(
            Ok::<Seq<char>, ErrorModel>(key),
        ),
{
    reveal_strlit("\n");
    let ending = "\n"@;
    assert(ending.len() == 1 && ending[0] == '\n');
    assert(read.output == Some(key + ending));
    lemma_trimmed_with_ending(key, ending);
}

/// An empty marker is a failure, not a missing marker: where the search
/// has found a marker and the file holds nothing but whitespace, no key
/// applies and the failure says so; and `auto`, in a repository, hands that
/// failure on and writes nothing. Where the search has found no marker, no
/// key applies and nothing has failed.
pub proof fn law_empty_marker_fails(
    store: ConfigModel,
    start_dir: Option<Seq<PartModel>>,
    inside: ReplyModel,
    replies: Seq<ReplyModel>,
)
    requires
        find_script(start_dir, replies).0 is Done,
    ensures
        ({
            let found = find_script(start_dir, replies);
            let named = dotfile_profile_script(start_dir, replies).0;
            match found.0->Done_0 {
                None => named == StepModel::Done(Ok::<Option<Seq<char>>, ErrorModel>(None)),
                Some(path) => found.1 < replies.len() ==> match text_of(replies[found.1 as int]) {
                    Some(content) => trimmed(content).len() == 0 ==> named == StepModel::Done(
                        Err::<Option<Seq<char>>, ErrorModel>(ErrorModel::MarkerEmpty),
                    ),
                    None => named == StepModel::Done(
                        Err::<Option<Seq<char>>, ErrorModel>(ErrorModel::MarkerUnreadable),
                    ),
                },
            }
        }),
        inside.success && start_dir.is_none() ==> match dotfile_profile_script(None, replies).0 {
            StepModel::Done(Err(e)) => auto_script(store, seq![inside] + replies)
                == StepModel::Done(OutcomeModel::Failed(e)),
            StepModel::Done(Ok(None)) => auto_script(store, seq![inside] + replies)
                == StepModel::Done(OutcomeModel::NoMarker),
            _ => true,
        },
{
    let found = find_script(start_dir, replies);
    if found.1 < replies.len() {
        assert(replies.skip(found.1 as int).len() > 0);
        assert(replies.skip(found.1 as int)[0] == replies[found.1 as int]);
    }
    assert((seq![inside] + replies).skip(1) =~= replies);
}

} // verus!
