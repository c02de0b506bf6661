//! The repository handle: creating a repository, opening one, checking its
//! shape on disk, and reading and writing its objects.

use crate::config::{initial_config, ini_write, parsed, settings_verdict, Config};
use crate::error::{Error, ErrorModel, ObjectFault, ObjectFaultModel};
use crate::exchange::{EntryKind, Progress, ProgressModel, Query, QueryModel, Reply};
use crate::id::{id_of, is_object_id, lemma_id_is_object_id, object_id, valid_object_id};
use crate::locate::marker;
use crate::object::{
    encode, lemma_decode_encode, unpacked, zlib_deflate, zlib_inflate, GitObject, GitObjectModel,
};
use crate::path::{join, join_all, join_path, repo_path, views};
use vstd::prelude::*;
use vstd::slice::slice_to_vec;
use vstd::utf8::encode_utf8;

verus! {

/// A repository: the directory that holds the working files and, below it,
/// the directory that holds the metadata.
#[derive(Debug, PartialEq, Eq)]
pub struct GitRepository {
    worktree: String,
    gitdir: String,
}

/// The mathematical value of a [`GitRepository`].
pub struct RepositoryModel {
    pub worktree: Seq<char>,
    pub gitdir: Seq<char>,
}

impl RepositoryModel {
    /// The repository whose working files are at `path`.
    pub open spec fn at(path: Seq<char>) -> RepositoryModel {
        RepositoryModel { worktree: path, gitdir: join(path, marker()) }
    }

    /// The metadata directory is the marker directory of the worktree.
    pub open spec fn wf(self) -> bool {
        self == RepositoryModel::at(self.worktree)
    }
}

impl View for GitRepository {
    type V = RepositoryModel;

    closed spec fn view(&self) -> RepositoryModel {
        RepositoryModel { worktree: self.worktree@, gitdir: self.gitdir@ }
    }
}

/// One requirement on the shape of a repository: what `path` must name.
pub struct ShapeCheck {
    pub path: Seq<char>,
    pub want: EntryKind,
}

/// The requirements on the shape of a repository, in the order in which
/// they are checked: the worktree, every directory of the metadata that
/// holds no other, and the two fixed files.
pub open spec fn shape_checks(repo: RepositoryModel) -> Seq<ShapeCheck> {
    seq![
        ShapeCheck { path: repo.worktree, want: EntryKind::Directory },
        ShapeCheck { path: join_all(repo.gitdir, seq!["branches"@]), want: EntryKind::Directory },
        ShapeCheck { path: join_all(repo.gitdir, seq!["objects"@]), want: EntryKind::Directory },
        ShapeCheck {
            path: join_all(repo.gitdir, seq!["refs"@, "tags"@]),
            want: EntryKind::Directory,
        },
        ShapeCheck {
            path: join_all(repo.gitdir, seq!["refs"@, "heads"@]),
            want: EntryKind::Directory,
        },
        ShapeCheck { path: join_all(repo.gitdir, seq!["description"@]), want: EntryKind::File },
        ShapeCheck { path: join_all(repo.gitdir, seq!["HEAD"@]), want: EntryKind::File },
    ]
}

/// The fault, if any, in finding `kind` where `check` applies: nothing
/// there, or something of the wrong kind.
pub open spec fn shape_verdict(check: ShapeCheck, kind: EntryKind) -> Option<ErrorModel> {
    if kind == check.want {
        None
    } else if check.want == EntryKind::Directory {
        if kind == EntryKind::Missing {
            Some(ErrorModel::DirectoryNotFound { path: check.path })
        } else {
            Some(ErrorModel::NotADirectory { path: check.path })
        }
    } else {
        if kind == EntryKind::Missing {
            Some(ErrorModel::FileNotFound { path: check.path })
        } else {
            Some(ErrorModel::NotAFile { path: check.path })
        }
    }
}

/// The path of the configuration file.
pub open spec fn config_path(repo: RepositoryModel) -> Seq<char> {
    join_all(repo.gitdir, seq!["config"@])
}

/// What the reply to reading the configuration file amounts to: the file
/// must have been read, must hold a configuration, and that must carry the
/// required settings.
pub open spec fn config_verdict(config_file: Seq<char>, reply: Reply) -> Result<(), ErrorModel> {
    match reply {
        Reply::Contents(text) => match parsed(text@) {
            Ok(config) => settings_verdict(config),
            Err(why) => Err(ErrorModel::OpenConfigError { config_file, source: why }),
        },
        _ => Err(ErrorModel::OpenConfigError { config_file, source: reply.reason() }),
    }
}

/// The validation of a repository from the shape check `stage` on.
///
/// Reply `i` answers shape check `i`, and the reply after the last shape
/// check answers the reading of the configuration file. The first fault
/// ends the validation; nothing further is asked.
pub open spec fn validation_from(repo: RepositoryModel, replies: Seq<Reply>, stage: int)
    -> ProgressModel<Result<(), ErrorModel>>
    decreases shape_checks(repo).len() - stage,
{
    let checks = shape_checks(repo);
    if stage < 0 || stage >= checks.len() {
        if replies.len() <= checks.len() {
            ProgressModel::Ask(QueryModel::ReadFile { path: config_path(repo) })
        } else {
            ProgressModel::Done(config_verdict(config_path(repo), replies[checks.len() as int]))
        }
    } else if replies.len() <= stage {
        ProgressModel::Ask(QueryModel::Stat { path: checks[stage].path })
    } else {
        match shape_verdict(checks[stage], replies[stage].kind()) {
            Some(error) => ProgressModel::Done(Err(error)),
            None => validation_from(repo, replies, stage + 1),
        }
    }
}

/// The validation of a repository.
pub open spec fn validation(repo: RepositoryModel, replies: Seq<Reply>) -> ProgressModel<
    Result<(), ErrorModel>,
> {
    validation_from(repo, replies, 0)
}

/// The opening of the repository at `path`: its validation, with the
/// repository as the result when that passes.
pub open spec fn opening(path: Seq<char>, replies: Seq<Reply>) -> ProgressModel<
    Result<RepositoryModel, ErrorModel>,
> {
    with_repository(RepositoryModel::at(path), validation(RepositoryModel::at(path), replies))
}

/// `progress` with `repo` as the result in place of a passed validation.
pub open spec fn with_repository(
    repo: RepositoryModel,
    progress: ProgressModel<Result<(), ErrorModel>>,
) -> ProgressModel<Result<RepositoryModel, ErrorModel>> {
    match progress {
        ProgressModel::Ask(query) => ProgressModel::Ask(query),
        ProgressModel::Done(Ok(_)) => ProgressModel::Done(Ok(repo)),
        ProgressModel::Done(Err(error)) => ProgressModel::Done(Err(error)),
    }
}

/// The text of the description file of a new repository.
pub open spec fn description_text() -> Seq<char> {
    "Unnamed repository; edit this file 'description' to name the repository.\n"@
}

/// The text of the `HEAD` file of a new repository.
pub open spec fn head_text() -> Seq<char> {
    "ref: refs/heads/master\n"@
}

/// One step of creating a repository: what is asked, and the words that
/// say what was being done if it is refused.
pub struct CreationStep {
    pub query: QueryModel,
    pub context: Seq<char>,
}

/// The steps of creating a repository, in order: the directories from the
/// worktree down, then the three files.
pub open spec fn creation_steps(repo: RepositoryModel) -> Seq<CreationStep> {
    seq![
        CreationStep {
            query: QueryModel::CreateDir { path: repo.worktree },
            context: "Error while initializing repository"@,
        },
        CreationStep {
            query: QueryModel::CreateDir { path: join_all(repo.worktree, seq![".git"@]) },
            context: "Error while creating directory"@,
        },
        CreationStep {
            query: QueryModel::CreateDir { path: join_all(repo.gitdir, seq!["branches"@]) },
            context: "Error while creating directory"@,
        },
        CreationStep {
            query: QueryModel::CreateDir { path: join_all(repo.gitdir, seq!["objects"@]) },
            context: "Error while creating directory"@,
        },
        CreationStep {
            query: QueryModel::CreateDir { path: join_all(repo.gitdir, seq!["refs"@]) },
            context: "Error while creating directory"@,
        },
        CreationStep {
            query: QueryModel::CreateDir { path: join_all(repo.gitdir, seq!["refs"@, "tags"@]) },
            context: "Error while creating directory"@,
        },
        CreationStep {
            query: QueryModel::CreateDir { path: join_all(repo.gitdir, seq!["refs"@, "heads"@]) },
            context: "Error while creating directory"@,
        },
        CreationStep {
            query: QueryModel::WriteFile {
                path: join_all(repo.gitdir, seq!["description"@]),
                contents: encode_utf8(description_text()),
            },
            context: "Error while writing description"@,
        },
        CreationStep {
            query: QueryModel::WriteFile {
                path: join_all(repo.gitdir, seq!["HEAD"@]),
                contents: encode_utf8(head_text()),
            },
            context: "Error while writing HEAD"@,
        },
        CreationStep {
            query: QueryModel::WriteFile {
                path: config_path(repo),
                contents: ini_write(initial_config()),
            },
            context: "Error while writing config file"@,
        },
    ]
}

/// The creation of a repository from step `step` on, once the path has
/// been found free.
///
/// Reply `1 + i` answers step `i`. A step that is not answered with `Done`
/// ends the creation with an error; what earlier steps made stays. After
/// the last step the new repository is validated on the replies that
/// follow.
pub open spec fn creation_from(repo: RepositoryModel, replies: Seq<Reply>, step: int)
    -> ProgressModel<Result<RepositoryModel, ErrorModel>>
    decreases creation_steps(repo).len() - step,
{
    let steps = creation_steps(repo);
    if step < 0 || step >= steps.len() {
        with_repository(repo, validation(repo, replies.skip(1 + steps.len() as int)))
    } else if replies.len() <= 1 + step {
        ProgressModel::Ask(steps[step].query)
    } else if replies[1 + step] is Done {
        creation_from(repo, replies, step + 1)
    } else {
        ProgressModel::Done(
            Err(
                ErrorModel::IoError {
                    msg: steps[step].context,
                    source: replies[1 + step].reason(),
                },
            ),
        )
    }
}

/// The creation of a repository at `path`.
///
/// The first reply says what `path` names. Unless nothing is there the
/// creation fails, having asked for no change.
pub open spec fn creation(path: Seq<char>, replies: Seq<Reply>) -> ProgressModel<
    Result<RepositoryModel, ErrorModel>,
> {
    if replies.len() == 0 {
        ProgressModel::Ask(QueryModel::Stat { path })
    } else if replies[0].kind() != EntryKind::Missing {
        ProgressModel::Done(Err(ErrorModel::RepositoryAlreadyExists { worktree: path }))
    } else {
        creation_from(RepositoryModel::at(path), replies, 0)
    }
}

/// The directory that holds the object `id`.
pub open spec fn object_dir(gitdir: Seq<char>, id: Seq<char>) -> Seq<char> {
    join_all(gitdir, seq!["objects"@, id.take(2)])
}

/// The file that holds the object `id`.
pub open spec fn object_path(gitdir: Seq<char>, id: Seq<char>) -> Seq<char> {
    join(object_dir(gitdir, id), id.skip(2))
}

/// The reading of the object `id`: the file is read, unpacked and decoded.
/// A text that is no object id is refused before anything is asked.
pub open spec fn reading(repo: RepositoryModel, id: Seq<char>, replies: Seq<Reply>)
    -> ProgressModel<Result<GitObjectModel, ErrorModel>> {
    let path = object_path(repo.gitdir, id);
    if !is_object_id(id) {
        ProgressModel::Done(
            Err(ErrorModel::GitObjectError { fault: ObjectFaultModel::InvalidId { id } }),
        )
    } else if replies.len() == 0 {
        ProgressModel::Ask(QueryModel::ReadFile { path })
    } else {
        match replies[0] {
            Reply::Contents(stream) => ProgressModel::Done(unpacked(path, stream@)),
            _ => ProgressModel::Done(
                Err(
                    ErrorModel::IoError {
                        msg: "Error while reading Git object from ["@ + id + "]"@,
                        source: replies[0].reason(),
                    },
                ),
            ),
        }
    }
}

/// The last step of storing an object: the packed bytes are written to
/// `file`, and the result is the id.
pub open spec fn storing_file(
    file: Seq<char>,
    stream: Seq<u8>,
    id: Seq<char>,
    replies: Seq<Reply>,
) -> ProgressModel<Result<Seq<char>, ErrorModel>> {
    if replies.len() == 0 {
        ProgressModel::Ask(QueryModel::WriteFile { path: file, contents: stream })
    } else if replies[0] is Done {
        ProgressModel::Done(Ok(id))
    } else {
        ProgressModel::Done(
            Err(
                ErrorModel::IoError {
                    msg: "Error while writing Git object"@,
                    source: replies[0].reason(),
                },
            ),
        )
    }
}

/// The storing of an object under the id of its framed bytes.
///
/// The first reply says what the directory of the object names. It is
/// created if nothing is there, and must otherwise be a directory. Then
/// the file is written.
pub open spec fn storing(repo: RepositoryModel, object: GitObjectModel, replies: Seq<Reply>)
    -> ProgressModel<Result<Seq<char>, ErrorModel>> {
    let framed = encode(object);
    let id = id_of(framed);
    let dir = object_dir(repo.gitdir, id);
    let file = object_path(repo.gitdir, id);
    let stream = zlib_deflate(framed, 6);
    if replies.len() == 0 {
        ProgressModel::Ask(QueryModel::Stat { path: dir })
    } else if replies[0].kind() == EntryKind::Directory {
        storing_file(file, stream, id, replies.skip(1))
    } else if replies[0].kind() != EntryKind::Missing {
        ProgressModel::Done(Err(ErrorModel::NotADirectory { path: dir }))
    } else if replies.len() == 1 {
        ProgressModel::Ask(QueryModel::CreateDir { path: dir })
    } else if replies[1] is Done {
        storing_file(file, stream, id, replies.skip(2))
    } else {
        ProgressModel::Done(
            Err(
                ErrorModel::IoError {
                    msg: "Error while creating directory"@,
                    source: replies[1].reason(),
                },
            ),
        )
    }
}

/// Checks that what was found at `path` is a directory.
pub fn ensure_repo_dir_exists(path: String, kind: EntryKind) -> (verdict: Result<(), Error>)
    ensures
        match verdict {
            Ok(_) => shape_verdict(ShapeCheck { path: path@, want: EntryKind::Directory }, kind)
                is None,
            Err(error) => shape_verdict(
                ShapeCheck { path: path@, want: EntryKind::Directory },
                kind,
            ) == Some(error@),
        },
{
    match kind {
        EntryKind::Directory => Ok(()),
        EntryKind::Missing => Err(Error::DirectoryNotFound { path }),
        _ => Err(Error::NotADirectory { path }),
    }
}

/// Checks that what was found at `path` is a regular file.
pub fn ensure_repo_file_exists(path: String, kind: EntryKind) -> (verdict: Result<(), Error>)
    ensures
        match verdict {
            Ok(_) => shape_verdict(ShapeCheck { path: path@, want: EntryKind::File }, kind)
                is None,
            Err(error) => shape_verdict(ShapeCheck { path: path@, want: EntryKind::File }, kind)
                == Some(error@),
        },
{
    match kind {
        EntryKind::File => Ok(()),
        EntryKind::Missing => Err(Error::FileNotFound { path }),
        _ => Err(Error::NotAFile { path }),
    }
}

/// The request to create the directory below `root` that the segments
/// name, and the words that say what was being done if it is refused.
pub fn create_dir(root: &str, paths: &[&str]) -> (request: (Query, String))
    ensures
        request.0@ == (QueryModel::CreateDir { path: join_all(root@, views(paths@)) }),
        request.1@ == "Error while creating directory"@,
{
    (
        Query::CreateDir { path: repo_path(root, paths) },
        String::from_str("Error while creating directory"),
    )
}

/// Judges the reply to reading the configuration file.
fn judge_config(config_file: String, reply: &Reply) -> (verdict: Result<(), Error>)
    ensures
        match verdict {
            Ok(_) => config_verdict(config_file@, *reply) is Ok,
            Err(error) => config_verdict(config_file@, *reply) == Err::<(), ErrorModel>(error@),
        },
{
    match reply {
        Reply::Contents(text) => match Config::parse(text.as_slice()) {
            Ok(config) => config.check_settings(),
            Err(why) => Err(Error::OpenConfigError { config_file, source: why }),
        },
        _ => Err(Error::OpenConfigError { config_file, source: reply.failure_reason() }),
    }
}

impl GitRepository {
    #[verifier::type_invariant]
    spec fn well_formed(self) -> bool {
        self@.wf()
    }

    /// The handle of the repository whose working files are at `path`.
    /// Nothing is examined.
    fn at(path: &str) -> (repo: GitRepository)
        ensures
            repo@ == RepositoryModel::at(path@),
    {
        GitRepository { worktree: String::from_str(path), gitdir: join_path(path, ".git") }
    }

    /// The directory of the working files.
    pub fn worktree(&self) -> (path: &str)
        ensures
            path@ == self@.worktree,
            self@.wf(),
    {
        proof {
            use_type_invariant(self);
        }
        self.worktree.as_str()
    }

    /// The directory of the metadata.
    pub fn gitdir(&self) -> (path: &str)
        ensures
            path@ == self@.gitdir,
            self@.wf(),
    {
        proof {
            use_type_invariant(self);
        }
        self.gitdir.as_str()
    }

    /// The path and the wanted kind of shape check `stage`.
    fn shape_check(&self, stage: usize) -> (check: (String, EntryKind))
        requires
            stage < 7,
        ensures
            check.0@ == shape_checks(self@)[stage as int].path,
            check.1 == shape_checks(self@)[stage as int].want,
    {
        let gitdir = self.gitdir.as_str();
        if stage == 0 {
            (self.worktree.clone(), EntryKind::Directory)
        } else if stage == 1 {
            let segments = ["branches"];
            assert(views(segments@) =~= seq!["branches"@]);
            (repo_path(gitdir, segments.as_slice()), EntryKind::Directory)
        } else if stage == 2 {
            let segments = ["objects"];
            assert(views(segments@) =~= seq!["objects"@]);
            (repo_path(gitdir, segments.as_slice()), EntryKind::Directory)
        } else if stage == 3 {
            let segments = ["refs", "tags"];
            assert(views(segments@) =~= seq!["refs"@, "tags"@]);
            (repo_path(gitdir, segments.as_slice()), EntryKind::Directory)
        } else if stage == 4 {
            let segments = ["refs", "heads"];
            assert(views(segments@) =~= seq!["refs"@, "heads"@]);
            (repo_path(gitdir, segments.as_slice()), EntryKind::Directory)
        } else if stage == 5 {
            let segments = ["description"];
            assert(views(segments@) =~= seq!["description"@]);
            (repo_path(gitdir, segments.as_slice()), EntryKind::File)
        } else {
            let segments = ["HEAD"];
            assert(views(segments@) =~= seq!["HEAD"@]);
            (repo_path(gitdir, segments.as_slice()), EntryKind::File)
        }
    }

    /// Checks that the repository has the shape and the settings of a
    /// repository of the supported format. Nothing on disk is changed.
    pub fn is_valid(&self, replies: &[Reply]) -> (out: Progress<Result<(), Error>>)
        ensures
            match out {
                Progress::Ask(query) => validation(self@, replies@) == ProgressModel::<
                    Result<(), ErrorModel>,
                >::Ask(query@),
                Progress::Done(Ok(_)) => validation(self@, replies@) == ProgressModel::Done(
                    Ok::<(), ErrorModel>(()),
                ),
                Progress::Done(Err(error)) => validation(self@, replies@) == ProgressModel::Done(
                    Err::<(), ErrorModel>(error@),
                ),
            },
    {
        let mut stage: usize = 0;
        while stage < 7
            invariant
                stage <= 7,
                validation(self@, replies@) == validation_from(self@, replies@, stage as int),
            decreases 7 - stage,
        {
            let (path, want) = self.shape_check(stage);
            if replies.len() <= stage {
                return Progress::Ask(Query::Stat { path });
            }
            let kind = replies[stage].entry_kind();
            let verdict = if want == EntryKind::Directory {
                ensure_repo_dir_exists(path, kind)
            } else {
                ensure_repo_file_exists(path, kind)
            };
            if let Err(error) = verdict {
                return Progress::Done(Err(error));
            }
            stage += 1;
        }
        let segments = ["config"];
        assert(views(segments@) =~= seq!["config"@]);
        let config_file = repo_path(self.gitdir.as_str(), segments.as_slice());
        if replies.len() <= 7 {
            return Progress::Ask(Query::ReadFile { path: config_file });
        }
        Progress::Done(judge_config(config_file, &replies[7]))
    }

    /// Opens the repository whose working files are at `path`, which must
    /// pass [`GitRepository::is_valid`]. Nothing on disk is changed.
    pub fn from_existing(path: &str, replies: &[Reply]) -> (out: Progress<
        Result<GitRepository, Error>,
    >)
        ensures
            match out {
                Progress::Ask(query) => opening(path@, replies@) == ProgressModel::<
                    Result<RepositoryModel, ErrorModel>,
                >::Ask(query@),
                Progress::Done(Ok(repo)) => opening(path@, replies@) == ProgressModel::Done(
                    Ok::<RepositoryModel, ErrorModel>(repo@),
                ),
                Progress::Done(Err(error)) => opening(path@, replies@) == ProgressModel::Done(
                    Err::<RepositoryModel, ErrorModel>(error@),
                ),
            },
    {
        let repository = GitRepository::at(path);
        match repository.is_valid(replies) {
            Progress::Ask(query) => Progress::Ask(query),
            Progress::Done(Ok(_)) => Progress::Done(Ok(repository)),
            Progress::Done(Err(error)) => Progress::Done(Err(error)),
        }
    }
    /// The request of creation step `step`, and the words for its failure.
    fn creation_step(&self, step: usize) -> (request: (Query, String))
        requires
            step < 10,
        ensures
            request.0@ == creation_steps(self@)[step as int].query,
            request.1@ == creation_steps(self@)[step as int].context,
    {
        let gitdir = self.gitdir.as_str();
        if step == 0 {
            (
                Query::CreateDir { path: self.worktree.clone() },
                String::from_str("Error while initializing repository"),
            )
        } else if step == 1 {
            let segments = [".git"];
            assert(views(segments@) =~= seq![".git"@]);
            create_dir(self.worktree.as_str(), segments.as_slice())
        } else if step == 2 {
            let segments = ["branches"];
            assert(views(segments@) =~= seq!["branches"@]);
            create_dir(gitdir, segments.as_slice())
        } else if step == 3 {
            let segments = ["objects"];
            assert(views(segments@) =~= seq!["objects"@]);
            create_dir(gitdir, segments.as_slice())
        } else if step == 4 {
            let segments = ["refs"];
            assert(views(segments@) =~= seq!["refs"@]);
            create_dir(gitdir, segments.as_slice())
        } else if step == 5 {
            let segments = ["refs", "tags"];
            assert(views(segments@) =~= seq!["refs"@, "tags"@]);
            create_dir(gitdir, segments.as_slice())
        } else if step == 6 {
            let segments = ["refs", "heads"];
            assert(views(segments@) =~= seq!["refs"@, "heads"@]);
            create_dir(gitdir, segments.as_slice())
        } else if step == 7 {
            let segments = ["description"];
            assert(views(segments@) =~= seq!["description"@]);
            let path = repo_path(gitdir, segments.as_slice());
            let text = "Unnamed repository; edit this file 'description' to name the repository.\n";
            (
                Query::WriteFile { path, contents: slice_to_vec(text.as_bytes()) },
                String::from_str("Error while writing description"),
            )
        } else if step == 8 {
            let segments = ["HEAD"];
            assert(views(segments@) =~= seq!["HEAD"@]);
            let path = repo_path(gitdir, segments.as_slice());
            let text = "ref: refs/heads/master\n";
            (
                Query::WriteFile { path, contents: slice_to_vec(text.as_bytes()) },
                String::from_str("Error while writing HEAD"),
            )
        } else {
            let segments = ["config"];
            assert(views(segments@) =~= seq!["config"@]);
            let path = repo_path(gitdir, segments.as_slice());
            (
                Query::WriteFile { path, contents: Config::initial().render() },
                String::from_str("Error while writing config file"),
            )
        }
    }

    /// Creates a repository at `path`, where nothing may be yet, and
    /// validates it. A failure leaves what was made until then.
    pub fn init(path: &str, replies: &[Reply]) -> (out: Progress<Result<GitRepository, Error>>)
        ensures
            match out {
                Progress::Ask(query) => creation(path@, replies@) == ProgressModel::<
                    Result<RepositoryModel, ErrorModel>,
                >::Ask(query@),
                Progress::Done(Ok(repo)) => creation(path@, replies@) == ProgressModel::Done(
                    Ok::<RepositoryModel, ErrorModel>(repo@),
                ),
                Progress::Done(Err(error)) => creation(path@, replies@) == ProgressModel::Done(
                    Err::<RepositoryModel, ErrorModel>(error@),
                ),
            },
    {
        if replies.len() == 0 {
            return Progress::Ask(Query::Stat { path: String::from_str(path) });
        }
        if replies[0].entry_kind() != EntryKind::Missing {
            return Progress::Done(
                Err(Error::RepositoryAlreadyExists { worktree: String::from_str(path) }),
            );
        }
        let repository = GitRepository::at(path);
        let mut step: usize = 0;
        while step < 10
            invariant
                step <= 10,
                step < replies.len(),
                repository@ == RepositoryModel::at(path@),
                creation(path@, replies@) == creation_from(repository@, replies@, step as int),
            decreases 10 - step,
        {
            let (query, context) = repository.creation_step(step);
            if replies.len() <= 1 + step {
                return Progress::Ask(query);
            }
            match &replies[1 + step] {
                Reply::Done => {},
                refused => {
                    return Progress::Done(
                        Err(Error::IoError { msg: context, source: refused.failure_reason() }),
                    );
                },
            }
            step += 1;
        }
        let rest = &replies[11..replies.len()];
        assert(rest@ =~= replies@.skip(11));
        match repository.is_valid(rest) {
            Progress::Ask(query) => Progress::Ask(query),
            Progress::Done(Ok(_)) => Progress::Done(Ok(repository)),
            Progress::Done(Err(error)) => Progress::Done(Err(error)),
        }
    }

    /// The directory and the file that hold the object `id`.
    fn object_place(&self, id: &str) -> (place: (String, String))
        requires
            is_object_id(id@),
        ensures
            place.0@ == object_dir(self@.gitdir, id@),
            place.1@ == object_path(self@.gitdir, id@),
    {
        let head = id.substring_char(0, 2);
        let tail = id.substring_char(2, 40);
        assert(head@ =~= id@.take(2));
        assert(tail@ =~= id@.skip(2));
        let segments = ["objects", head];
        assert(views(segments@) =~= seq!["objects"@, id@.take(2)]);
        let dir = repo_path(self.gitdir.as_str(), segments.as_slice());
        let file = join_path(dir.as_str(), tail);
        (dir, file)
    }

    /// Reads the object `sha` from the store.
    pub fn read_object(&self, sha: &str, replies: &[Reply]) -> (out: Progress<
        Result<GitObject, Error>,
    >)
        ensures
            match out {
                Progress::Ask(query) => reading(self@, sha@, replies@) == ProgressModel::<
                    Result<GitObjectModel, ErrorModel>,
                >::Ask(query@),
                Progress::Done(Ok(object)) => reading(self@, sha@, replies@)
                    == ProgressModel::Done(Ok::<GitObjectModel, ErrorModel>(object@)),
                Progress::Done(Err(error)) => reading(self@, sha@, replies@)
                    == ProgressModel::Done(Err::<GitObjectModel, ErrorModel>(error@)),
            },
    {
        if !valid_object_id(sha) {
            return Progress::Done(
                Err(
                    Error::GitObjectError {
                        fault: ObjectFault::InvalidId { id: String::from_str(sha) },
                    },
                ),
            );
        }
        let (_, path) = self.object_place(sha);
        if replies.len() == 0 {
            return Progress::Ask(Query::ReadFile { path });
        }
        match &replies[0] {
            Reply::Contents(stream) => Progress::Done(
                GitObject::unpack(path.as_str(), stream.as_slice()),
            ),
            refused => {
                let mut msg = String::from_str("Error while reading Git object from [");
                msg.append(sha);
                msg.append("]");
                Progress::Done(Err(Error::IoError { msg, source: refused.failure_reason() }))
            },
        }
    }

    /// Stores an object and gives its id.
    pub fn write_object(&self, object: &GitObject, replies: &[Reply]) -> (out: Progress<
        Result<String, Error>,
    >)
        ensures
            match out {
                Progress::Ask(query) => storing(self@, object@, replies@) == ProgressModel::<
                    Result<Seq<char>, ErrorModel>,
                >::Ask(query@),
                Progress::Done(Ok(id)) => storing(self@, object@, replies@)
                    == ProgressModel::Done(Ok::<Seq<char>, ErrorModel>(id@)),
                Progress::Done(Err(error)) => storing(self@, object@, replies@)
                    == ProgressModel::Done(Err::<Seq<char>, ErrorModel>(error@)),
            },
    {
        let framed = object.serialize();
        let id = object_id(framed.as_slice());
        let (dir, file) = self.object_place(id.as_str());
        if replies.len() == 0 {
            return Progress::Ask(Query::Stat { path: dir });
        }
        let kind = replies[0].entry_kind();
        let answered: usize = if kind == EntryKind::Directory {
            1
        } else if kind != EntryKind::Missing {
            return Progress::Done(Err(Error::NotADirectory { path: dir }));
        } else if replies.len() == 1 {
            return Progress::Ask(Query::CreateDir { path: dir });
        } else {
            match &replies[1] {
                Reply::Done => 2,
                refused => {
                    return Progress::Done(
                        Err(
                            Error::IoError {
                                msg: String::from_str("Error while creating directory"),
                                source: refused.failure_reason(),
                            },
                        ),
                    );
                },
            }
        };
        let rest = &replies[answered..replies.len()];
        assert(rest@ =~= replies@.skip(answered as int));
        if rest.len() == 0 {
            return Progress::Ask(Query::WriteFile { path: file, contents: object.pack() });
        }
        match &rest[0] {
            Reply::Done => Progress::Done(Ok(id)),
            refused => Progress::Done(
                Err(
                    Error::IoError {
                        msg: String::from_str("Error while writing Git object"),
                        source: refused.failure_reason(),
                    },
                ),
            ),
        }
    }
}

/// A repository that was created is valid: where the creation at `path`
/// ends with a repository, it is the repository at `path`, and the replies
/// that followed the creation steps let both its validation and its
/// opening pass.
pub proof fn lemma_created_repository_is_valid(path: Seq<char>, replies: Seq<Reply>)
    ensures
        creation(path, replies) matches ProgressModel::Done(Ok(repo)) ==> {
            &&& repo == RepositoryModel::at(path)
            &&& repo.wf()
            &&& validation(repo, replies.skip(11)) == ProgressModel::Done(
                Ok::<(), ErrorModel>(()),
            )
            &&& opening(path, replies.skip(11)) == ProgressModel::Done(
                Ok::<RepositoryModel, ErrorModel>(repo),
            )
        },
{
    if replies.len() > 0 && replies[0].kind() == EntryKind::Missing {
        lemma_creation_ends_in_validation(RepositoryModel::at(path), replies, 0);
    }
}

proof fn lemma_creation_ends_in_validation(repo: RepositoryModel, replies: Seq<Reply>, step: int)
    requires
        0 <= step <= 10,
    ensures
        creation_from(repo, replies, step) matches ProgressModel::Done(Ok(made)) ==> made == repo
            && validation(repo, replies.skip(11)) == ProgressModel::Done(
            Ok::<(), ErrorModel>(()),
        ),
    decreases 10 - step,
{
    assert(creation_steps(repo).len() == 10);
    if step < 10 && replies.len() > 1 + step && replies[1 + step] is Done {
        lemma_creation_ends_in_validation(repo, replies, step + 1);
    }
    if let ProgressModel::Done(Ok(passed)) = validation(repo, replies.skip(11)) {
        assert(passed == ());
    }
}

/// Opening a path at which nothing is fails at once with
/// `DirectoryNotFound`, whatever else is on disk: the one question asked
/// was what the path names.
pub proof fn lemma_opening_missing_path(path: Seq<char>, replies: Seq<Reply>)
    requires
        replies.len() > 0,
        replies[0].kind() == EntryKind::Missing,
    ensures
        opening(path, Seq::<Reply>::empty()) == ProgressModel::<
            Result<RepositoryModel, ErrorModel>,
        >::Ask(QueryModel::Stat { path }),
        opening(path, replies) == ProgressModel::Done(
            Err::<RepositoryModel, ErrorModel>(ErrorModel::DirectoryNotFound { path }),
        ),
{
}

/// The configuration file is asked for only when seven replies have come
/// and every shape check has passed on them.
pub proof fn lemma_config_is_read_last(repo: RepositoryModel, replies: Seq<Reply>)
    ensures
        validation(repo, replies) matches ProgressModel::Ask(QueryModel::ReadFile { path }) ==> {
            &&& path == config_path(repo)
            &&& replies.len() == 7
            &&& forall|i: int|
                0 <= i < 7 ==> shape_verdict(
                    #[trigger] shape_checks(repo)[i],
                    replies[i].kind(),
                ) is None
        },
{
    reveal_with_fuel(validation_from, 8);
}

/// The first fault decides: where every shape check before `stage` has
/// passed and the one at `stage` finds a fault, that fault is the result,
/// whatever the replies after it say.
pub proof fn lemma_first_fault_decides(repo: RepositoryModel, replies: Seq<Reply>, stage: int)
    requires
        0 <= stage < 7,
        stage < replies.len(),
        forall|i: int|
            0 <= i < stage ==> shape_verdict(#[trigger] shape_checks(repo)[i], replies[i].kind())
                is None,
        shape_verdict(shape_checks(repo)[stage], replies[stage].kind()) is Some,
    ensures
        validation(repo, replies) == ProgressModel::Done(
            Err::<(), ErrorModel>(
                shape_verdict(shape_checks(repo)[stage], replies[stage].kind()).unwrap(),
            ),
        ),
{
    reveal_with_fuel(validation_from, 8);
    let checks = shape_checks(repo);
    assert(stage > 0 ==> shape_verdict(checks[0], replies[0].kind()) is None);
    assert(stage > 1 ==> shape_verdict(checks[1], replies[1].kind()) is None);
    assert(stage > 2 ==> shape_verdict(checks[2], replies[2].kind()) is None);
    assert(stage > 3 ==> shape_verdict(checks[3], replies[3].kind()) is None);
    assert(stage > 4 ==> shape_verdict(checks[4], replies[4].kind()) is None);
    assert(stage > 5 ==> shape_verdict(checks[5], replies[5].kind()) is None);
}

/// A repository without its `branches` directory is refused: with the
/// worktree in place and nothing at `branches`, validation fails with
/// `DirectoryNotFound` naming that directory.
pub proof fn lemma_missing_branches_is_refused(repo: RepositoryModel, replies: Seq<Reply>)
    requires
        replies.len() >= 2,
        replies[0].kind() == EntryKind::Directory,
        replies[1].kind() == EntryKind::Missing,
    ensures
        validation(repo, replies) == ProgressModel::Done(
            Err::<(), ErrorModel>(
                ErrorModel::DirectoryNotFound { path: join_all(repo.gitdir, seq!["branches"@]) },
            ),
        ),
{
    lemma_first_fault_decides(repo, replies, 1);
}

/// A text that is no object id is refused with a typed error, and nothing
/// is asked of the disk.
pub proof fn lemma_invalid_id_is_refused(repo: RepositoryModel, id: Seq<char>, replies: Seq<Reply>)
    requires
        !is_object_id(id),
    ensures
        reading(repo, id, replies) == ProgressModel::Done(
            Err::<GitObjectModel, ErrorModel>(
                ErrorModel::GitObjectError { fault: ObjectFaultModel::InvalidId { id } },
            ),
        ),
{
}

/// Validation changes nothing on disk, and it ends: it never asks for a
/// change, and with eight replies it has its result.
pub proof fn lemma_validation_only_reads(repo: RepositoryModel, replies: Seq<Reply>)
    ensures
        validation(repo, replies) matches ProgressModel::Ask(query) ==> !query.mutates(),
        replies.len() >= 8 ==> validation(repo, replies) is Done,
{
    reveal_with_fuel(validation_from, 8);
}

/// Creating a repository where something already is fails with
/// `RepositoryAlreadyExists` and changes nothing: the one question asked
/// was what the path names.
pub proof fn lemma_creation_on_taken_path(path: Seq<char>, replies: Seq<Reply>)
    requires
        replies.len() > 0,
        replies[0].kind() != EntryKind::Missing,
    ensures
        creation(path, Seq::<Reply>::empty()) == ProgressModel::<
            Result<RepositoryModel, ErrorModel>,
        >::Ask(QueryModel::Stat { path }),
        creation(path, replies) == ProgressModel::Done(
            Err::<RepositoryModel, ErrorModel>(
                ErrorModel::RepositoryAlreadyExists { worktree: path },
            ),
        ),
{
}

/// Creation asks for a change only after it was told that nothing is at
/// the path, and it ends: with nineteen replies it has its result.
pub proof fn lemma_creation_checks_first(path: Seq<char>, replies: Seq<Reply>)
    ensures
        creation(path, replies) matches ProgressModel::Ask(query) ==> (query.mutates()
            ==> replies.len() > 0 && replies[0].kind() == EntryKind::Missing),
        replies.len() >= 19 ==> creation(path, replies) is Done,
{
    reveal_with_fuel(creation_from, 11);
    if replies.len() >= 19 {
        lemma_validation_only_reads(RepositoryModel::at(path), replies.skip(11));
    }
}

/// An object is written to the file from which its id is read: stored in
/// a directory that exists, it goes to the path that reading by its id
/// asks for.
pub proof fn lemma_stored_where_read(repo: RepositoryModel, object: GitObjectModel, found: Reply)
    requires
        found.kind() == EntryKind::Directory,
    ensures
        is_object_id(id_of(encode(object))),
        storing(repo, object, seq![found]) == ProgressModel::<
            Result<Seq<char>, ErrorModel>,
        >::Ask(
            QueryModel::WriteFile {
                path: object_path(repo.gitdir, id_of(encode(object))),
                contents: zlib_deflate(encode(object), 6),
            },
        ),
        reading(repo, id_of(encode(object)), Seq::<Reply>::empty()) == ProgressModel::<
            Result<GitObjectModel, ErrorModel>,
        >::Ask(QueryModel::ReadFile { path: object_path(repo.gitdir, id_of(encode(object))) }),
{
    lemma_id_is_object_id(encode(object));
    assert(seq![found].skip(1) =~= Seq::<Reply>::empty());
}

/// Reading gives back what was stored, as far as the codec does: from any
/// stream that unpacks to the framed bytes of an object, reading by the
/// object's id yields that object.
pub proof fn lemma_read_after_write(repo: RepositoryModel, object: GitObjectModel, read: Reply)
    requires
        object.payload().len() <= usize::MAX,
    ensures
        (read matches Reply::Contents(stream) && zlib_inflate(stream@) == Ok::<
            Seq<u8>,
            Seq<char>,
        >(encode(object))) ==> reading(repo, id_of(encode(object)), seq![read])
            == ProgressModel::Done(Ok::<GitObjectModel, ErrorModel>(object)),
{
    lemma_id_is_object_id(encode(object));
    lemma_decode_encode(object);
}

proof fn lemma_validation_from_is_stable(
    repo: RepositoryModel,
    replies: Seq<Reply>,
    more: Seq<Reply>,
    stage: int,
)
    requires
        0 <= stage <= 7,
        validation_from(repo, replies, stage) is Done,
    ensures
        validation_from(repo, replies + more, stage) == validation_from(repo, replies, stage),
    decreases 7 - stage,
{
    assert(shape_checks(repo).len() == 7);
    if stage < 7 {
        assert((replies + more)[stage] == replies[stage]);
        if shape_verdict(shape_checks(repo)[stage], replies[stage].kind()) is None {
            lemma_validation_from_is_stable(repo, replies, more, stage + 1);
        }
    } else {
        assert((replies + more)[7] == replies[7]);
    }
}

proof fn lemma_creation_from_is_stable(
    repo: RepositoryModel,
    replies: Seq<Reply>,
    more: Seq<Reply>,
    step: int,
)
    requires
        0 <= step <= 10,
        step < replies.len(),
        creation_from(repo, replies, step) is Done,
    ensures
        creation_from(repo, replies + more, step) == creation_from(repo, replies, step),
    decreases 10 - step,
{
    assert(creation_steps(repo).len() == 10);
    if step < 10 {
        assert((replies + more)[1 + step] == replies[1 + step]);
        if replies[1 + step] is Done {
            lemma_creation_from_is_stable(repo, replies, more, step + 1);
        }
    } else {
        assert((replies + more).skip(11) =~= replies.skip(11) + more);
        lemma_validation_from_is_stable(repo, replies.skip(11), more, 0);
    }
}

/// A result, once reached, stands: replies beyond those that were asked
/// for change nothing, in validation, opening, creation, reading and
/// storing alike.
pub proof fn lemma_results_are_stable(
    repo: RepositoryModel,
    path: Seq<char>,
    id: Seq<char>,
    object: GitObjectModel,
    replies: Seq<Reply>,
    more: Seq<Reply>,
)
    ensures
        validation(repo, replies) is Done ==> validation(repo, replies + more) == validation(
            repo,
            replies,
        ),
        opening(path, replies) is Done ==> opening(path, replies + more) == opening(
            path,
            replies,
        ),
        creation(path, replies) is Done ==> creation(path, replies + more) == creation(
            path,
            replies,
        ),
        reading(repo, id, replies) is Done ==> reading(repo, id, replies + more) == reading(
            repo,
            id,
            replies,
        ),
        storing(repo, object, replies) is Done ==> storing(repo, object, replies + more)
            == storing(repo, object, replies),
{
    if validation(repo, replies) is Done {
        lemma_validation_from_is_stable(repo, replies, more, 0);
    }
    if opening(path, replies) is Done {
        lemma_validation_from_is_stable(RepositoryModel::at(path), replies, more, 0);
    }
    if creation(path, replies) is Done {
        assert((replies + more)[0] == replies[0]);
        if replies[0].kind() == EntryKind::Missing {
            lemma_creation_from_is_stable(RepositoryModel::at(path), replies, more, 0);
        }
    }
    if reading(repo, id, replies) is Done && is_object_id(id) {
        assert((replies + more)[0] == replies[0]);
    }
    if storing(repo, object, replies) is Done {
        assert((replies + more)[0] == replies[0]);
        if replies[0].kind() == EntryKind::Directory {
            assert((replies + more).skip(1) =~= replies.skip(1) + more);
            assert((replies.skip(1) + more)[0] == replies.skip(1)[0]);
        } else if replies[0].kind() == EntryKind::Missing {
            assert((replies + more)[1] == replies[1]);
            if replies[1] is Done {
                assert((replies + more).skip(2) =~= replies.skip(2) + more);
                assert((replies.skip(2) + more)[0] == replies.skip(2)[0]);
            }
        }
    }
}

} // verus!
