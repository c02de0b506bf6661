//! Finding the repository that a directory belongs to.

use crate::error::{Error, ErrorModel};
use crate::exchange::{EntryKind, Progress, ProgressModel, Query, QueryModel, Reply};
use crate::path::{join, join_path, lemma_parent_is_shorter, parent, parent_of};
use vstd::prelude::*;

verus! {

/// The name of the directory that marks a repository and holds its metadata.
pub open spec fn marker() -> Seq<char> {
    ".git"@
}

/// The search for the nearest directory, from `dir` upward, that holds the
/// marker directory.
///
/// Each reply in turn says what the marker path below the directory at hand
/// names. The first directory whose marker is a directory is the result.
/// When the marker is anything else the search moves to the parent, and it
/// fails at a directory that has none, which it names.
pub open spec fn locate(dir: Seq<char>, replies: Seq<Reply>) -> ProgressModel<
    Result<Seq<char>, ErrorModel>,
>
    decreases replies.len(),
{
    if replies.len() == 0 {
        ProgressModel::Ask(QueryModel::Stat { path: join(dir, marker()) })
    } else if replies[0].kind() == EntryKind::Directory {
        ProgressModel::Done(Ok(dir))
    } else {
        match parent(dir) {
            Some(above) => locate(above, replies.drop_first()),
            None => ProgressModel::Done(Err(ErrorModel::RepositoryNotFound { path: dir })),
        }
    }
}

/// Walks upward from `cwd` to the root of the repository that holds it.
pub fn find_repository(cwd: &str, replies: &[Reply]) -> (out: Progress<Result<String, Error>>)
    ensures
        match out {
            Progress::Ask(query) => locate(cwd@, replies@) == ProgressModel::<
                Result<Seq<char>, ErrorModel>,
            >::Ask(query@),
            Progress::Done(Ok(root)) => locate(cwd@, replies@) == ProgressModel::Done(
                Ok::<Seq<char>, ErrorModel>(root@),
            ),
            Progress::Done(Err(error)) => locate(cwd@, replies@) == ProgressModel::Done(
                Err::<Seq<char>, ErrorModel>(error@),
            ),
        },
{
    let mut dir = String::from_str(cwd);
    let mut i: usize = 0;
    assert(replies@.skip(0) =~= replies@);
    while i < replies.len()
        invariant
            i <= replies.len(),
            locate(cwd@, replies@) == locate(dir@, replies@.skip(i as int)),
        decreases replies.len() - i,
    {
        proof {
            let rest = replies@.skip(i as int);
            assert(rest[0] == replies@[i as int]);
            assert(rest.drop_first() =~= replies@.skip(i + 1));
        }
        if replies[i].entry_kind() == EntryKind::Directory {
            return Progress::Done(Ok(dir));
        }
        match parent_of(dir.as_str()) {
            Some(above) => {
                dir = above;
            },
            None => {
                return Progress::Done(Err(Error::RepositoryNotFound { path: dir }));
            },
        }
        i += 1;
    }
    Progress::Ask(Query::Stat { path: join_path(dir.as_str(), ".git") })
}

/// The search ends: once it has had more replies than the starting path has
/// characters, it has a result.
pub proof fn lemma_locate_ends(dir: Seq<char>, replies: Seq<Reply>)
    requires
        replies.len() > dir.len(),
    ensures
        locate(dir, replies) is Done,
    decreases replies.len(),
{
    if replies[0].kind() != EntryKind::Directory {
        if let Some(above) = parent(dir) {
            lemma_parent_is_shorter(dir);
            lemma_locate_ends(above, replies.drop_first());
        }
    }
}

/// A result, once reached, stands: further replies do not change it.
pub proof fn lemma_locate_is_stable(dir: Seq<char>, replies: Seq<Reply>, more: Seq<Reply>)
    requires
        locate(dir, replies) is Done,
    ensures
        locate(dir, replies + more) == locate(dir, replies),
    decreases replies.len(),
{
    if replies.len() > 0 {
        assert((replies + more)[0] == replies[0]);
        assert((replies + more).drop_first() =~= replies.drop_first() + more);
        if replies[0].kind() != EntryKind::Directory {
            if let Some(above) = parent(dir) {
                lemma_locate_is_stable(above, replies.drop_first(), more);
            }
        }
    }
}

/// The directory `steps` levels above `dir`, if the path reaches that far.
pub open spec fn ancestor(dir: Seq<char>, steps: nat) -> Option<Seq<char>>
    decreases steps,
{
    if steps == 0 {
        Some(dir)
    } else {
        match parent(dir) {
            Some(above) => ancestor(above, (steps - 1) as nat),
            None => None,
        }
    }
}

/// The search finds the nearest repository: the root it reports is the
/// directory some levels above the start whose marker was found to be a
/// directory, and at every level below that it was not. The number of
/// levels is handed back.
pub proof fn lemma_locate_finds_nearest(dir: Seq<char>, replies: Seq<Reply>) -> (steps: nat)
    requires
        locate(dir, replies) matches ProgressModel::Done(Ok(_)),
    ensures
        steps < replies.len(),
        locate(dir, replies) == ProgressModel::Done(
            Ok::<Seq<char>, ErrorModel>(ancestor(dir, steps).unwrap()),
        ),
        ancestor(dir, steps) is Some,
        replies[steps as int].kind() == EntryKind::Directory,
        forall|i: int| 0 <= i < steps ==> replies[i].kind() != EntryKind::Directory,
    decreases replies.len(),
{
    if replies[0].kind() == EntryKind::Directory {
        0
    } else {
        let above = parent(dir).unwrap();
        let rest = replies.drop_first();
        let higher = lemma_locate_finds_nearest(above, rest);
        assert forall|i: int| 0 <= i < higher + 1 implies replies[i].kind()
            != EntryKind::Directory by {
            if i > 0 {
                assert(replies[i] == rest[i - 1]);
            }
        }
        assert(replies[higher as int + 1] == rest[higher as int]);
        higher + 1
    }
}

/// The search fails only at the top: the directory it names is some levels
/// above the start and has no parent, and at no level up to there was the
/// marker found to be a directory. The number of levels is handed back.
pub proof fn lemma_locate_fails_at_top(dir: Seq<char>, replies: Seq<Reply>) -> (steps: nat)
    requires
        locate(dir, replies) matches ProgressModel::Done(Err(_)),
    ensures
        steps < replies.len(),
        ancestor(dir, steps) is Some,
        parent(ancestor(dir, steps).unwrap()) is None,
        locate(dir, replies) == ProgressModel::Done(
            Err::<Seq<char>, ErrorModel>(
                ErrorModel::RepositoryNotFound { path: ancestor(dir, steps).unwrap() },
            ),
        ),
        forall|i: int| 0 <= i <= steps ==> replies[i].kind() != EntryKind::Directory,
    decreases replies.len(),
{
    match parent(dir) {
        None => 0,
        Some(above) => {
            let rest = replies.drop_first();
            let higher = lemma_locate_fails_at_top(above, rest);
            assert forall|i: int| 0 <= i <= higher + 1 implies replies[i].kind()
                != EntryKind::Directory by {
                if i > 0 {
                    assert(replies[i] == rest[i - 1]);
                }
            }
            higher + 1
        },
    }
}

} // verus!
