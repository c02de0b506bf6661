use std::collections::BTreeMap;

use wyag::{
    find_repository, ConfigFault, EntryKind, Error, GitObject, GitRepository, ObjectFault,
    Progress, Query, Reply,
};

#[derive(Clone, Debug, PartialEq)]
enum Node {
    Dir,
    File(Vec<u8>),
}

/// A disk held in memory, which answers queries as a file system would.
#[derive(Clone, Debug, PartialEq)]
struct Disk {
    entries: BTreeMap<String, Node>,
    asked: Vec<Query>,
}

fn parent(path: &str) -> String {
    match path.rfind('/') {
        Some(0) => "/".to_string(),
        Some(at) => path[..at].to_string(),
        None => String::new(),
    }
}

impl Disk {
    fn new() -> Disk {
        let mut entries = BTreeMap::new();
        entries.insert(String::new(), Node::Dir);
        entries.insert("/".to_string(), Node::Dir);
        Disk { entries, asked: Vec::new() }
    }

    fn mkdir_all(&mut self, path: &str) {
        if !self.entries.contains_key(path) {
            self.mkdir_all(&parent(path));
            self.entries.insert(path.to_string(), Node::Dir);
        }
    }

    fn put(&mut self, path: &str, contents: &[u8]) {
        self.mkdir_all(&parent(path));
        self.entries.insert(path.to_string(), Node::File(contents.to_vec()));
    }

    fn file(&self, path: &str) -> Vec<u8> {
        match self.entries.get(path) {
            Some(Node::File(contents)) => contents.clone(),
            other => panic!("no file at {}: {:?}", path, other),
        }
    }

    fn perform(&mut self, query: &Query) -> Reply {
        self.asked.push(query.clone());
        match query {
            Query::Stat { path } => Reply::Kind(match self.entries.get(path) {
                None => EntryKind::Missing,
                Some(Node::Dir) => EntryKind::Directory,
                Some(Node::File(_)) => EntryKind::File,
            }),
            Query::ReadFile { path } => match self.entries.get(path) {
                Some(Node::File(contents)) => Reply::Contents(contents.clone()),
                Some(Node::Dir) => Reply::Failed("Is a directory".to_string()),
                None => Reply::Failed("No such file or directory".to_string()),
            },
            Query::CreateDir { path } => {
                if self.entries.contains_key(path) {
                    Reply::Failed("File exists".to_string())
                } else if self.entries.get(&parent(path)) != Some(&Node::Dir) {
                    Reply::Failed("No such file or directory".to_string())
                } else {
                    self.entries.insert(path.clone(), Node::Dir);
                    Reply::Done
                }
            }
            Query::WriteFile { path, contents } => {
                if self.entries.get(&parent(path)) != Some(&Node::Dir) {
                    Reply::Failed("No such file or directory".to_string())
                } else if self.entries.get(path) == Some(&Node::Dir) {
                    Reply::Failed("Is a directory".to_string())
                } else {
                    self.entries.insert(path.clone(), Node::File(contents.clone()));
                    Reply::Done
                }
            }
        }
    }

    /// Runs an operation to its end, doing on this disk what it asks for.
    fn run<T>(&mut self, operation: impl Fn(&[Reply]) -> Progress<T>) -> T {
        let mut replies = Vec::new();
        loop {
            match operation(&replies) {
                Progress::Ask(query) => replies.push(self.perform(&query)),
                Progress::Done(result) => return result,
            }
        }
    }
}

fn init(disk: &mut Disk, path: &str) -> Result<GitRepository, Error> {
    disk.run(|replies| GitRepository::init(path, replies))
}

fn open(disk: &mut Disk, path: &str) -> Result<GitRepository, Error> {
    disk.run(|replies| GitRepository::from_existing(path, replies))
}

fn locate(disk: &mut Disk, cwd: &str) -> Result<String, Error> {
    disk.run(|replies| find_repository(cwd, replies))
}

const LOREM: &str = "Lorem ipsum dolor sit amet.";
const LOREM_ID: &str = "3ffe1398195ef384e2edbfd29d05516a33299e43";

#[test]
fn test_from_existing() {
    let mut disk = Disk::new();
    let path = "test_repo";

    init(&mut disk, path).expect("Failed to init repo");

    let repository = open(&mut disk, path).expect("Should have worked!");

    assert!(disk.run(|replies| repository.is_valid(replies)).is_ok());
}

#[test]
fn test_opening_nonexistent_repo_should_fail() {
    let mut disk = Disk::new();
    let path = "nonexistent_repo";

    match open(&mut disk, path) {
        Err(Error::DirectoryNotFound { .. }) => {}
        e => panic!("Expected 'RepositoryNotFound', but got '{:#?}'", e),
    }
}

#[test]
fn test_cat_file_with_existing_blob() {
    let mut disk = Disk::new();
    disk.mkdir_all("/work");
    init(&mut disk, "/work/project").unwrap();
    disk.mkdir_all("/work/project/src/deep");
    let framed = format!("blob {}\0{}", LOREM.len(), LOREM);
    let stream = miniz_oxide::deflate::compress_to_vec_zlib(framed.as_bytes(), 6);
    disk.put(
        "/work/project/.git/objects/3f/fe1398195ef384e2edbfd29d05516a33299e43",
        &stream,
    );

    let path = locate(&mut disk, "/work/project/src/deep").unwrap();
    assert_eq!(path, "/work/project");

    let repository = open(&mut disk, &path).unwrap();

    let hash = "3ffe1398195ef384e2edbfd29d05516a33299e43";

    let git_object = disk.run(|replies| repository.read_object(hash, replies)).unwrap();

    if let GitObject::GitBlob { data } = git_object {
        let text = String::from_utf8(data).unwrap();
        assert_eq!(text, "Lorem ipsum dolor sit amet.");
    } else {
        panic!("Expected GitBlob");
    }
}

#[test]
fn created_repository_opens_and_validates() {
    for path in ["repo", "/tmp/r", "a/b"] {
        let mut disk = Disk::new();
        disk.mkdir_all(&parent(path));
        let created = init(&mut disk, path).unwrap();
        assert_eq!(created.worktree(), path);
        assert_eq!(created.gitdir(), format!("{}/.git", path));
        let opened = open(&mut disk, path).unwrap();
        assert_eq!(opened, created);
        assert_eq!(disk.run(|replies| opened.is_valid(replies)), Ok(()));
    }
}

#[test]
fn creation_asks_in_the_documented_order() {
    let mut disk = Disk::new();
    init(&mut disk, "r").unwrap();
    let asked: Vec<String> = disk
        .asked
        .iter()
        .map(|query| match query {
            Query::Stat { path } => format!("stat {}", path),
            Query::ReadFile { path } => format!("read {}", path),
            Query::CreateDir { path } => format!("mkdir {}", path),
            Query::WriteFile { path, .. } => format!("write {}", path),
        })
        .collect();
    assert_eq!(
        asked,
        vec![
            "stat r",
            "mkdir r",
            "mkdir r/.git",
            "mkdir r/.git/branches",
            "mkdir r/.git/objects",
            "mkdir r/.git/refs",
            "mkdir r/.git/refs/tags",
            "mkdir r/.git/refs/heads",
            "write r/.git/description",
            "write r/.git/HEAD",
            "write r/.git/config",
            "stat r",
            "stat r/.git/branches",
            "stat r/.git/objects",
            "stat r/.git/refs/tags",
            "stat r/.git/refs/heads",
            "stat r/.git/description",
            "stat r/.git/HEAD",
            "read r/.git/config",
        ]
    );
}

#[test]
fn created_files_hold_the_fixed_texts() {
    let mut disk = Disk::new();
    disk.mkdir_all("/tmp");
    init(&mut disk, "/tmp/r").unwrap();
    assert_eq!(disk.file("/tmp/r/.git/HEAD"), b"ref: refs/heads/master\n".to_vec());
    assert_eq!(
        disk.file("/tmp/r/.git/description"),
        b"Unnamed repository; edit this file 'description' to name the repository.\n".to_vec()
    );
    assert_eq!(
        disk.file("/tmp/r/.git/config"),
        b"[core]\nrepositoryformatversion=0\nfilemode=false\nbare=false\n".to_vec()
    );
    let text = String::from_utf8(disk.file("/tmp/r/.git/config")).unwrap();
    let config = ini::Ini::load_from_str(&text).unwrap();
    assert_eq!(config.get_from(Some("core"), "bare"), Some("false"));
    assert_eq!(config.get_from(Some("core"), "filemode"), Some("false"));
    assert_eq!(config.get_from(Some("core"), "repositoryformatversion"), Some("0"));
    for dir in ["branches", "objects", "refs", "refs/tags", "refs/heads"] {
        assert_eq!(disk.entries.get(&format!("/tmp/r/.git/{}", dir)), Some(&Node::Dir));
    }
}

#[test]
fn opening_a_missing_path_asks_one_question() {
    let mut disk = Disk::new();
    let error = open(&mut disk, "nowhere").unwrap_err();
    assert_eq!(error, Error::DirectoryNotFound { path: "nowhere".to_string() });
    assert_eq!(disk.asked, vec![Query::Stat { path: "nowhere".to_string() }]);
}

#[test]
fn creating_over_an_existing_path_changes_nothing() {
    let mut disk = Disk::new();
    disk.put("taken/file.txt", b"kept");
    let before = disk.entries.clone();
    let error = init(&mut disk, "taken").unwrap_err();
    assert_eq!(error, Error::RepositoryAlreadyExists { worktree: "taken".to_string() });
    assert_eq!(disk.entries, before);
    assert_eq!(disk.asked, vec![Query::Stat { path: "taken".to_string() }]);

    let error = init(&mut disk, "taken/file.txt").unwrap_err();
    assert_eq!(error, Error::RepositoryAlreadyExists { worktree: "taken/file.txt".to_string() });
    assert_eq!(disk.entries, before);
}

#[test]
fn creation_reports_the_step_that_failed_and_keeps_the_rest() {
    let mut disk = Disk::new();
    let error = init(&mut disk, "no/parent/here").unwrap_err();
    assert_eq!(
        error,
        Error::IoError {
            msg: "Error while initializing repository".to_string(),
            source: "No such file or directory".to_string(),
        }
    );

    let refuse_at = |refused: usize| {
        move |replies: &[Reply]| {
            let mut fixed: Vec<Reply> = replies.to_vec();
            if fixed.len() > refused {
                fixed[refused] = Reply::Failed("Permission denied".to_string());
                fixed.truncate(refused + 1);
            }
            GitRepository::init("r", &fixed)
        }
    };
    let expected = [
        (1, "Error while initializing repository"),
        (2, "Error while creating directory"),
        (7, "Error while creating directory"),
        (8, "Error while writing description"),
        (9, "Error while writing HEAD"),
        (10, "Error while writing config file"),
    ];
    for (refused, msg) in expected {
        let mut disk = Disk::new();
        let error = disk.run(refuse_at(refused)).unwrap_err();
        assert_eq!(
            error,
            Error::IoError { msg: msg.to_string(), source: "Permission denied".to_string() }
        );
        assert_eq!(disk.asked.len(), refused + 1);
    }
}

#[test]
fn validation_reports_the_first_fault() {
    let mut disk = Disk::new();
    init(&mut disk, "r").unwrap();
    let repository = open(&mut disk, "r").unwrap();
    let check = |disk: &Disk| disk.clone().run(|replies| repository.is_valid(replies));

    let mut broken = disk.clone();
    broken.entries.remove("r/.git/objects");
    assert_eq!(
        check(&broken),
        Err(Error::DirectoryNotFound { path: "r/.git/objects".to_string() })
    );

    let mut broken = disk.clone();
    broken.entries.insert("r/.git/refs/tags".to_string(), Node::File(Vec::new()));
    broken.entries.remove("r/.git/HEAD");
    assert_eq!(check(&broken), Err(Error::NotADirectory { path: "r/.git/refs/tags".to_string() }));

    let mut broken = disk.clone();
    broken.entries.remove("r/.git/refs/heads");
    assert_eq!(
        check(&broken),
        Err(Error::DirectoryNotFound { path: "r/.git/refs/heads".to_string() })
    );

    let mut broken = disk.clone();
    broken.entries.remove("r/.git/description");
    broken.entries.remove("r/.git/HEAD");
    assert_eq!(check(&broken), Err(Error::FileNotFound { path: "r/.git/description".to_string() }));

    let mut broken = disk.clone();
    broken.entries.insert("r/.git/HEAD".to_string(), Node::Dir);
    assert_eq!(check(&broken), Err(Error::NotAFile { path: "r/.git/HEAD".to_string() }));

    let mut broken = disk.clone();
    broken.entries.remove("r/.git/branches");
    assert_eq!(
        check(&broken),
        Err(Error::DirectoryNotFound { path: "r/.git/branches".to_string() })
    );

    let mut broken = disk.clone();
    broken.entries.insert("r/.git/branches".to_string(), Node::File(Vec::new()));
    broken.entries.remove("r/.git/objects");
    assert_eq!(check(&broken), Err(Error::NotADirectory { path: "r/.git/branches".to_string() }));

    let mut broken = disk.clone();
    broken.entries.remove("r/.git/refs");
    broken.entries.remove("r/.git/refs/tags");
    broken.entries.remove("r/.git/refs/heads");
    assert_eq!(
        check(&broken),
        Err(Error::DirectoryNotFound { path: "r/.git/refs/tags".to_string() })
    );

    let mut broken = disk.clone();
    broken.entries.insert("r".to_string(), Node::File(Vec::new()));
    assert_eq!(check(&broken), Err(Error::NotADirectory { path: "r".to_string() }));
}

fn with_config(text: &[u8]) -> Result<GitRepository, Error> {
    let mut disk = Disk::new();
    init(&mut disk, "r").unwrap();
    disk.put("r/.git/config", text);
    open(&mut disk, "r")
}

#[test]
fn validation_rejects_another_format_version() {
    let error =
        with_config(b"[core]\nrepositoryformatversion=1\nfilemode=false\nbare=false\n").unwrap_err();
    assert_eq!(
        error,
        Error::ConfigError {
            fault: ConfigFault::UnexpectedValue {
                key: "repositoryformatversion".to_string(),
                expected: "0".to_string(),
                actual: "1".to_string(),
            }
        }
    );
}

#[test]
fn validation_checks_the_settings_in_order() {
    assert_eq!(
        with_config(b"[core]\nrepositoryformatversion=0\nfilemode=true\nbare=true\n"),
        Err(Error::ConfigError {
            fault: ConfigFault::UnexpectedValue {
                key: "filemode".to_string(),
                expected: "false".to_string(),
                actual: "true".to_string(),
            }
        })
    );
    assert_eq!(
        with_config(b"[core]\nrepositoryformatversion=0\nfilemode=false\nbare=False\n"),
        Err(Error::ConfigError {
            fault: ConfigFault::UnexpectedValue {
                key: "bare".to_string(),
                expected: "false".to_string(),
                actual: "False".to_string(),
            }
        })
    );
    assert_eq!(
        with_config(b"[core]\nrepositoryformatversion=0\nbare=false\n"),
        Err(Error::ConfigError {
            fault: ConfigFault::MissingKey {
                section: "core".to_string(),
                key: "filemode".to_string(),
            }
        })
    );
    assert_eq!(
        with_config(b"[user]\nname=someone\n"),
        Err(Error::ConfigError {
            fault: ConfigFault::MissingSection { section: "core".to_string() }
        })
    );
    assert!(with_config(
        b"\xEF\xBB\xBF[user]\nname=x\n[core]\nbare=false\nfilemode=false\nrepositoryformatversion=0\n"
    )
    .is_ok());
}

#[test]
fn validation_reports_a_config_that_cannot_be_read() {
    match with_config(b"[core\nbare") {
        Err(Error::OpenConfigError { config_file, source }) => {
            assert_eq!(config_file, "r/.git/config");
            assert!(!source.is_empty());
        }
        other => panic!("expected OpenConfigError, got {:?}", other),
    }
    match with_config(b"[core]\nbare=\xFF\xFE\n") {
        Err(Error::OpenConfigError { config_file, .. }) => assert_eq!(config_file, "r/.git/config"),
        other => panic!("expected OpenConfigError, got {:?}", other),
    }

    let mut disk = Disk::new();
    init(&mut disk, "r").unwrap();
    disk.entries.insert("r/.git/config".to_string(), Node::Dir);
    assert_eq!(
        open(&mut disk, "r"),
        Err(Error::OpenConfigError {
            config_file: "r/.git/config".to_string(),
            source: "Is a directory".to_string(),
        })
    );
}

#[test]
fn locate_finds_the_nearest_marker() {
    let mut disk = Disk::new();
    disk.mkdir_all("a/b/c");
    disk.mkdir_all("a/.git");
    assert_eq!(locate(&mut disk, "a/b/c"), Ok("a".to_string()));
    assert_eq!(locate(&mut disk, "a/b"), Ok("a".to_string()));
    assert_eq!(locate(&mut disk, "a"), Ok("a".to_string()));

    disk.mkdir_all("a/b/.git");
    assert_eq!(locate(&mut disk, "a/b/c"), Ok("a/b".to_string()));
    assert_eq!(locate(&mut disk, "a/b/c/"), Ok("a/b".to_string()));
}

#[test]
fn locate_fails_where_no_marker_is() {
    let mut disk = Disk::new();
    disk.mkdir_all("a/b/c");
    disk.mkdir_all("/x/y");
    assert_eq!(locate(&mut disk, "a/b/c"), Err(Error::RepositoryNotFound { path: String::new() }));
    assert_eq!(
        locate(&mut disk, "/x/y"),
        Err(Error::RepositoryNotFound { path: "/".to_string() })
    );
    let asked: Vec<Query> = disk.asked.iter().rev().take(3).rev().cloned().collect();
    assert_eq!(
        asked,
        vec![
            Query::Stat { path: "/x/y/.git".to_string() },
            Query::Stat { path: "/x/.git".to_string() },
            Query::Stat { path: "/.git".to_string() },
        ]
    );
}

#[test]
fn locate_wants_a_directory_as_marker() {
    let mut disk = Disk::new();
    disk.mkdir_all("/p/q");
    disk.put("/p/q/.git", b"gitdir: elsewhere");
    disk.mkdir_all("/p/.git");
    assert_eq!(locate(&mut disk, "/p/q"), Ok("/p".to_string()));
    disk.mkdir_all("/.git");
    disk.entries.remove("/p/.git");
    assert_eq!(locate(&mut disk, "/p/q"), Ok("/".to_string()));
}

#[test]
fn stored_object_reads_back() {
    let mut disk = Disk::new();
    let repository = init(&mut disk, "r").unwrap();
    let object = GitObject::GitBlob { data: LOREM.as_bytes().to_vec() };

    let id = disk.run(|replies| repository.write_object(&object, replies)).unwrap();
    assert_eq!(id, LOREM_ID);
    assert_eq!(disk.entries.get("r/.git/objects/3f"), Some(&Node::Dir));
    let stored = disk.file("r/.git/objects/3f/fe1398195ef384e2edbfd29d05516a33299e43");
    assert_eq!(
        miniz_oxide::inflate::decompress_to_vec_zlib(&stored).unwrap(),
        b"blob 27\0Lorem ipsum dolor sit amet.".to_vec()
    );

    let read = disk.run(|replies| repository.read_object(&id, replies)).unwrap();
    assert_eq!(read, object);

    let again = disk.run(|replies| repository.write_object(&object, replies)).unwrap();
    assert_eq!(again, id);
    let empty = GitObject::GitBlob { data: Vec::new() };
    let empty_id = disk.run(|replies| repository.write_object(&empty, replies)).unwrap();
    assert_eq!(empty_id, "e69de29bb2d1d6434b8b29ae775ad8c2e48c5391");
    assert_eq!(disk.run(|replies| repository.read_object(&empty_id, replies)), Ok(empty));
}

#[test]
fn storing_reports_what_the_disk_refuses() {
    let mut disk = Disk::new();
    let repository = init(&mut disk, "r").unwrap();
    let object = GitObject::GitBlob { data: LOREM.as_bytes().to_vec() };

    let mut blocked = disk.clone();
    blocked.put("r/.git/objects/3f", b"");
    assert_eq!(
        blocked.run(|replies| repository.write_object(&object, replies)),
        Err(Error::NotADirectory { path: "r/.git/objects/3f".to_string() })
    );

    let mut blocked = disk.clone();
    blocked.entries.remove("r/.git/objects");
    assert_eq!(
        blocked.run(|replies| repository.write_object(&object, replies)),
        Err(Error::IoError {
            msg: "Error while creating directory".to_string(),
            source: "No such file or directory".to_string(),
        })
    );

    let mut blocked = disk.clone();
    blocked.mkdir_all("r/.git/objects/3f/fe1398195ef384e2edbfd29d05516a33299e43");
    assert_eq!(
        blocked.run(|replies| repository.write_object(&object, replies)),
        Err(Error::IoError {
            msg: "Error while writing Git object".to_string(),
            source: "Is a directory".to_string(),
        })
    );
}

#[test]
fn reading_a_missing_object_is_an_io_error() {
    let mut disk = Disk::new();
    let repository = init(&mut disk, "r").unwrap();
    assert_eq!(
        disk.run(|replies| repository.read_object(LOREM_ID, replies)),
        Err(Error::IoError {
            msg: "Error while reading Git object from [3ffe1398195ef384e2edbfd29d05516a33299e43]"
                .to_string(),
            source: "No such file or directory".to_string(),
        })
    );
    assert_eq!(
        disk.asked.last(),
        Some(&Query::ReadFile {
            path: "r/.git/objects/3f/fe1398195ef384e2edbfd29d05516a33299e43".to_string()
        })
    );
}

#[test]
fn replies_that_do_not_fit_count_as_failures() {
    let repository = GitRepository::from_existing("r", &[Reply::Done]);
    assert_eq!(
        repository,
        Progress::Done(Err(Error::DirectoryNotFound { path: "r".to_string() }))
    );
    let created = GitRepository::init("r", &[Reply::Kind(EntryKind::Missing), Reply::Contents(vec![])]);
    assert_eq!(
        created,
        Progress::Done(Err(Error::IoError {
            msg: "Error while initializing repository".to_string(),
            source: "unexpected reply".to_string(),
        }))
    );
}

#[test]
fn a_result_stands_whatever_follows() {
    let replies = vec![Reply::Kind(EntryKind::Other), Reply::Kind(EntryKind::Directory)];
    assert_eq!(find_repository("/a", &replies), Progress::Done(Ok("/".to_string())));
    let mut longer = replies.clone();
    longer.push(Reply::Done);
    assert_eq!(find_repository("/a", &longer), Progress::Done(Ok("/".to_string())));
    assert_eq!(
        find_repository("/a", &replies[..1]),
        Progress::Ask(Query::Stat { path: "/.git".to_string() })
    );
    let nothing = vec![Reply::Kind(EntryKind::Missing); 9];
    assert_eq!(
        find_repository("/a/b", &nothing),
        Progress::Done(Err(Error::RepositoryNotFound { path: "/".to_string() }))
    );
}

#[test]
fn reading_by_a_text_that_is_no_id_asks_nothing() {
    let mut disk = Disk::new();
    let repository = init(&mut disk, "r").unwrap();
    disk.asked.clear();
    let before = disk.entries.clone();
    for text in ["", "a", "HEAD", "3ffe13", "\u{e9}a", "3FFE1398195EF384E2EDBFD29D05516A33299E43", "../../../../etc/passwd"] {
        assert_eq!(
            disk.run(|replies| repository.read_object(text, replies)),
            Err(Error::GitObjectError { fault: ObjectFault::InvalidId { id: text.to_string() } })
        );
        assert_eq!(
            repository.read_object(text, &[Reply::Contents(b"x".to_vec())]),
            Progress::Done(Err(Error::GitObjectError {
                fault: ObjectFault::InvalidId { id: text.to_string() }
            }))
        );
    }
    assert!(disk.asked.is_empty());
    assert_eq!(disk.entries, before);
}

#[test]
fn locate_counts_a_dot_segment_as_no_level() {
    let mut disk = Disk::new();
    disk.mkdir_all("a/b");
    disk.mkdir_all("a/.git");
    disk.mkdir_all("a/./b");
    assert_eq!(locate(&mut disk, "a/./b"), Ok("a".to_string()));
    assert_eq!(
        find_repository(
            "a/./b",
            &[Reply::Kind(EntryKind::Missing), Reply::Kind(EntryKind::Directory)]
        ),
        Progress::Done(Ok("a".to_string()))
    );
    assert_eq!(
        find_repository("/x/.", &[Reply::Kind(EntryKind::Missing)]),
        Progress::Ask(Query::Stat { path: "/.git".to_string() })
    );
    assert_eq!(
        find_repository("/.", &[Reply::Kind(EntryKind::Missing)]),
        Progress::Done(Err(Error::RepositoryNotFound { path: "/.".to_string() }))
    );
}

#[test]
fn validation_takes_eight_replies_at_most() {
    let shapes = vec![
        Reply::Kind(EntryKind::Directory),
        Reply::Kind(EntryKind::Directory),
        Reply::Kind(EntryKind::Directory),
        Reply::Kind(EntryKind::Directory),
        Reply::Kind(EntryKind::Directory),
        Reply::Kind(EntryKind::File),
        Reply::Kind(EntryKind::File),
    ];
    assert_eq!(
        GitRepository::from_existing("r", &shapes[..6]),
        Progress::Ask(Query::Stat { path: "r/.git/HEAD".to_string() })
    );
    assert_eq!(
        GitRepository::from_existing("r", &shapes),
        Progress::Ask(Query::ReadFile { path: "r/.git/config".to_string() })
    );
    let mut all = shapes.clone();
    all.push(Reply::Contents(
        b"[core]\nrepositoryformatversion=0\nfilemode=false\nbare=false\n".to_vec(),
    ));
    assert!(matches!(GitRepository::from_existing("r", &all), Progress::Done(Ok(_))));
}
