use std::path::PathBuf;

use gswitch::dotfile::{
    create_dotfile, find_dotfile_in_dir, get_dotfile_profile, get_dotfile_profile_in_dir,
    read_profile_from_dotfile, walk_to_root,
};
use gswitch::error::Error;
use gswitch::host::{Reply, Request, Step};
use gswitch::path::FsPath;

/// A path as the machine spells it.
fn text_of(path: &FsPath) -> String {
    let mut spelled = PathBuf::new();
    for part in &path.parts {
        spelled.push(&part.text);
    }
    spelled.to_string_lossy().into_owned()
}

fn reply(success: bool, output: &str, diagnostic: &str) -> Reply {
    Reply { success, output: Some(output.to_string()), diagnostic: diagnostic.to_string() }
}

/// A machine in memory: directories with repositories, files, and a git
/// that keeps settings user-wide and for each repository.
struct Machine {
    cwd: Option<String>,
    repos: Vec<String>,
    files: Vec<(String, String)>,
    dirs: Vec<String>,
    settings: Vec<(String, String, String)>,
    refused: Vec<String>,
    asked: Vec<Request>,
}

impl Machine {
    fn new() -> Machine {
        Machine {
            cwd: None,
            repos: Vec::new(),
            files: Vec::new(),
            dirs: Vec::new(),
            settings: Vec::new(),
            refused: Vec::new(),
            asked: Vec::new(),
        }
    }

    fn with_repo(top: &str) -> Machine {
        let mut machine = Machine::new();
        machine.repos.push(top.to_string());
        machine.set(top, "user.name", "Test User");
        machine.set(top, "user.email", "test@example.com");
        machine
    }

    fn create_file(&mut self, path: &str, content: &str) {
        self.files.retain(|(p, _)| p != path);
        self.files.push((path.to_string(), content.to_string()));
    }

    fn content(&self, path: &str) -> Option<String> {
        self.files.iter().find(|(p, _)| p == path).map(|(_, c)| c.clone())
    }

    fn set(&mut self, scope: &str, key: &str, value: &str) {
        self.settings.retain(|(s, k, _)| !(s == scope && k == key));
        self.settings.push((scope.to_string(), key.to_string(), value.to_string()));
    }

    fn get(&self, scope: &str, key: &str) -> Option<String> {
        self.settings.iter().find(|(s, k, _)| s == scope && k == key).map(|(_, _, v)| v.clone())
    }

    fn top_of(&self, dir: &str) -> Option<String> {
        let mut best: Option<String> = None;
        for top in &self.repos {
            let inside = dir == top || dir.starts_with(&format!("{}/", top));
            if inside && best.as_ref().map_or(true, |b| b.len() < top.len()) {
                best = Some(top.clone());
            }
        }
        best
    }

    fn git(&mut self, args: &[String], dir: Option<String>) -> Reply {
        let words: Vec<&str> = args.iter().map(|a| a.as_str()).collect();
        let top = dir.or(self.cwd.clone()).and_then(|d| self.top_of(&d));
        let no_repo = "fatal: not a git repository";
        match words.as_slice() {
            ["rev-parse", "--show-toplevel"] => match top {
                Some(top) => reply(true, &format!("{}\n", top), ""),
                None => reply(false, "", no_repo),
            },
            ["config", "--get", key] => {
                let local = top.and_then(|t| self.get(&t, key));
                match local.or(self.get("global", key)) {
                    Some(value) => reply(true, &format!("{}\n", value), ""),
                    None => reply(false, "", ""),
                }
            }
            ["config", flag, "--get", key] => {
                let scope = if *flag == "--global" { Some("global".to_string()) } else { top };
                match scope.and_then(|s| self.get(&s, key)) {
                    Some(value) => reply(true, &format!("{}\n", value), ""),
                    None => reply(false, "", ""),
                }
            }
            ["config", flag, key, value] => {
                let scope = if *flag == "--global" { Some("global".to_string()) } else { top };
                match scope {
                    _ if self.refused.iter().any(|k| k == key) => {
                        reply(false, "", "error: could not lock config file")
                    }
                    Some(scope) => {
                        self.set(&scope, key, value);
                        reply(true, "", "")
                    }
                    None => reply(false, "", no_repo),
                }
            }
            _ => reply(false, "", "unknown command"),
        }
    }

    fn answer(&mut self, request: &Request) -> Reply {
        match request {
            Request::Git { args, dir } => self.git(args, dir.as_ref().map(text_of)),
            Request::CurrentDir => match &self.cwd {
                Some(dir) => reply(true, dir, ""),
                None => reply(false, "", "no current directory"),
            },
            Request::Exists { path } => {
                reply(self.content(&text_of(path)).is_some(), "", "")
            }
            Request::Read { path } => match self.content(&text_of(path)) {
                Some(content) => reply(true, &content, ""),
                None => reply(false, "", "No such file or directory"),
            },
            Request::Write { path, content } => {
                self.create_file(&text_of(path), content);
                reply(true, "", "")
            }
            Request::CreateDir { path } => {
                self.dirs.push(text_of(path));
                reply(true, "", "")
            }
        }
    }

    /// Does what an operation asks until the operation is done.
    fn run<T>(&mut self, mut script: impl FnMut(&Vec<Reply>) -> Step<T>) -> T {
        let mut replies = Vec::new();
        loop {
            match script(&replies) {
                Step::Done(result) => return result,
                Step::Ask(request) => {
                    assert!(replies.len() < 100, "the operation does not end");
                    let answer = self.answer(&request);
                    self.asked.push(request);
                    replies.push(answer);
                }
            }
        }
    }

    /// How many settings git was asked to write.
    fn writes(&self) -> usize {
        self.asked.iter().filter(|q| match q {
            Request::Git { args, .. } => {
                args.len() == 4 && args[0] == "config" && args[2] != "--get"
            }
            Request::Write { .. } => true,
            _ => false,
        }).count()
    }
}

fn git_request(args: &[&str], dir: Option<&str>) -> Request {
    Request::Git {
        args: args.iter().map(|a| a.to_string()).collect(),
        dir: dir.map(FsPath::parse),
    }
}

fn probe(path: &str) -> Request {
    Request::Exists { path: FsPath::parse(path) }
}

#[test]
fn test_find_dotfile_in_git_repo() {
    let mut repo = Machine::with_repo("/work/repo");
    repo.create_file("/work/repo/.gswitch", "test-profile\n");
    let path = FsPath::parse("/work/repo");

    let dotfile_path = repo.run(|replies| find_dotfile_in_dir(Some(&path), replies));
    assert!(dotfile_path.is_some());
    assert_eq!(dotfile_path.unwrap(), FsPath::parse("/work/repo/.gswitch"));
}

#[test]
fn test_find_dotfile_in_subdirectory() {
    let mut repo = Machine::with_repo("/work/repo");
    repo.create_file("/work/repo/.gswitch", "test-profile\n");
    let subdir = FsPath::parse("/work/repo/subdir");

    let dotfile_path = repo.run(|replies| find_dotfile_in_dir(Some(&subdir), replies));
    assert!(dotfile_path.is_some());
    assert_eq!(dotfile_path.unwrap(), FsPath::parse("/work/repo/.gswitch"));
}

#[test]
fn test_find_dotfile_not_in_git_repo() {
    let mut temp_dir = Machine::new();
    temp_dir.create_file("/tmp/plain/.gswitch", "test-profile\n");
    let path = FsPath::parse("/tmp/plain");

    let dotfile_path = temp_dir.run(|replies| find_dotfile_in_dir(Some(&path), replies));
    assert!(dotfile_path.is_none());
}

#[test]
fn test_find_dotfile_no_file() {
    let mut repo = Machine::with_repo("/work/repo");
    let path = FsPath::parse("/work/repo");
    let dotfile_path = repo.run(|replies| find_dotfile_in_dir(Some(&path), replies));
    assert!(dotfile_path.is_none());
}

#[test]
fn test_read_profile_from_dotfile() {
    let mut temp_dir = Machine::new();
    temp_dir.create_file("/tmp/plain/.gswitch", "work-profile\n");
    let gswitch_path = FsPath::parse("/tmp/plain/.gswitch");

    let profile_name =
        temp_dir.run(|replies| read_profile_from_dotfile(&gswitch_path, replies)).unwrap();
    assert_eq!(profile_name, "work-profile");
}

#[test]
fn test_read_profile_from_dotfile_with_whitespace() {
    let mut temp_dir = Machine::new();
    temp_dir.create_file("/tmp/plain/.gswitch", "  work-profile  \n");
    let gswitch_path = FsPath::parse("/tmp/plain/.gswitch");

    let profile_name =
        temp_dir.run(|replies| read_profile_from_dotfile(&gswitch_path, replies)).unwrap();
    assert_eq!(profile_name, "work-profile");
}

#[test]
fn test_read_profile_from_empty_dotfile() {
    let mut temp_dir = Machine::new();
    temp_dir.create_file("/tmp/plain/.gswitch", "");
    let gswitch_path = FsPath::parse("/tmp/plain/.gswitch");

    let result = temp_dir.run(|replies| read_profile_from_dotfile(&gswitch_path, replies));
    assert!(result.is_err());
    assert!(result.unwrap_err().to_string().contains("empty"));
}

#[test]
fn test_read_profile_from_whitespace_only_dotfile() {
    let mut temp_dir = Machine::new();
    temp_dir.create_file("/tmp/plain/.gswitch", "   \n  \t  \n");
    let gswitch_path = FsPath::parse("/tmp/plain/.gswitch");

    let result = temp_dir.run(|replies| read_profile_from_dotfile(&gswitch_path, replies));
    assert!(result.is_err());
    assert!(result.unwrap_err().to_string().contains("empty"));
}

#[test]
fn test_read_profile_from_nonexistent_dotfile() {
    let mut temp_dir = Machine::new();
    let gswitch_path = FsPath::parse("/tmp/plain/.gswitch");

    let result = temp_dir.run(|replies| read_profile_from_dotfile(&gswitch_path, replies));
    assert!(result.is_err());
}

#[test]
fn test_create_dotfile() {
    let mut temp_dir = Machine::new();
    let gswitch_path = FsPath::parse("/tmp/plain/.gswitch");

    temp_dir.run(|replies| create_dotfile(&gswitch_path, "test-profile", replies)).unwrap();

    assert!(temp_dir.content("/tmp/plain/.gswitch").is_some());
    let content = temp_dir.content("/tmp/plain/.gswitch").unwrap();
    assert_eq!(content, "test-profile\n");
}

#[test]
fn test_get_dotfile_profile() {
    let mut repo = Machine::with_repo("/work/repo");
    repo.create_file("/work/repo/.gswitch", "integration-test\n");
    let path = FsPath::parse("/work/repo");

    let profile_name =
        repo.run(|replies| get_dotfile_profile_in_dir(Some(&path), replies)).unwrap();
    assert_eq!(profile_name, Some("integration-test".to_string()));
}

#[test]
fn test_get_dotfile_profile_no_file() {
    let mut repo = Machine::with_repo("/work/repo");
    let path = FsPath::parse("/work/repo");
    let profile_name =
        repo.run(|replies| get_dotfile_profile_in_dir(Some(&path), replies)).unwrap();
    assert!(profile_name.is_none());
}

#[test]
fn test_get_dotfile_profile_not_in_git_repo() {
    let mut temp_dir = Machine::new();
    temp_dir.create_file("/tmp/plain/.gswitch", "should-not-find\n");
    let path = FsPath::parse("/tmp/plain");

    let profile_name =
        temp_dir.run(|replies| get_dotfile_profile_in_dir(Some(&path), replies)).unwrap();
    assert!(profile_name.is_none());
}

#[test]
fn marker_parsing() {
    let path = FsPath::parse("/tmp/plain/.gswitch");
    assert_eq!(
        read_profile_from_dotfile(&path, &Vec::new()),
        Step::Ask(Request::Read { path: FsPath::parse("/tmp/plain/.gswitch") })
    );
    assert_eq!(
        read_profile_from_dotfile(&path, &vec![reply(true, "  work  \n", "")]),
        Step::Done(Ok("work".to_string()))
    );
    assert_eq!(
        read_profile_from_dotfile(&path, &vec![reply(true, "   \n\t", "")]),
        Step::Done(Err(Error::MarkerEmpty))
    );
    assert_eq!(
        read_profile_from_dotfile(&path, &vec![reply(false, "work\n", "denied")]),
        Step::Done(Err(Error::MarkerUnreadable))
    );
    assert_eq!(Error::MarkerEmpty.to_string(), ".gswitch file is empty");
    assert_eq!(Error::MarkerUnreadable.to_string(), "Failed to read .gswitch file");
}

#[test]
fn create_dotfile_overwrites_and_reports_failure() {
    let mut temp_dir = Machine::new();
    temp_dir.create_file("/tmp/plain/.gswitch", "old and long content\n");
    let path = FsPath::parse("/tmp/plain/.gswitch");
    assert_eq!(temp_dir.run(|replies| create_dotfile(&path, "new", replies)), Ok(()));
    assert_eq!(temp_dir.content("/tmp/plain/.gswitch"), Some("new\n".to_string()));
    assert_eq!(
        temp_dir.asked,
        vec![Request::Write {
            path: FsPath::parse("/tmp/plain/.gswitch"),
            content: "new\n".to_string()
        }]
    );
    let failed = create_dotfile(&path, "new", &vec![reply(false, "", "read-only file system")]);
    let expected = Error::MarkerNotWritten { diagnostic: "read-only file system".to_string() };
    assert_eq!(expected.to_string(), "Failed to create .gswitch file: read-only file system");
    assert_eq!(failed, Step::Done(Err(expected)));
}

#[test]
fn closest_marker_wins() {
    let mut repo = Machine::with_repo("/R");
    repo.create_file("/R/.gswitch", "top\n");
    repo.create_file("/R/a/b/.gswitch", "near\n");
    let start = FsPath::parse("/R/a/b/c");

    let found = repo.run(|replies| find_dotfile_in_dir(Some(&start), replies));
    assert_eq!(found, Some(FsPath::parse("/R/a/b/.gswitch")));
    let key = repo.run(|replies| get_dotfile_profile_in_dir(Some(&start), replies));
    assert_eq!(key, Ok(Some("near".to_string())));

    let beside = FsPath::parse("/R/a/x");
    let found = repo.run(|replies| find_dotfile_in_dir(Some(&beside), replies));
    assert_eq!(found, Some(FsPath::parse("/R/.gswitch")));
}

#[test]
fn search_stops_at_the_top_of_the_repository() {
    let mut repo = Machine::with_repo("/home/me/repo");
    repo.create_file("/home/me/.gswitch", "outside\n");
    repo.create_file("/home/.gswitch", "further\n");
    let start = FsPath::parse("/home/me/repo/src/deep");

    let found = repo.run(|replies| find_dotfile_in_dir(Some(&start), replies));
    assert_eq!(found, None);
    assert_eq!(
        repo.asked,
        vec![
            probe("/home/me/repo/src/deep/.gswitch"),
            git_request(&["rev-parse", "--show-toplevel"], Some("/home/me/repo/src/deep")),
            probe("/home/me/repo/src/deep/.gswitch"),
            probe("/home/me/repo/src/.gswitch"),
            probe("/home/me/repo/.gswitch"),
        ]
    );
}

#[test]
fn search_in_a_nested_repository_stops_at_the_inner_top() {
    let mut repo = Machine::with_repo("/work/outer");
    repo.repos.push("/work/outer/vendor/inner".to_string());
    repo.create_file("/work/outer/.gswitch", "outer\n");
    let start = FsPath::parse("/work/outer/vendor/inner/src");
    assert_eq!(repo.run(|replies| find_dotfile_in_dir(Some(&start), replies)), None);
    let outside = FsPath::parse("/work/outer/vendor");
    assert_eq!(
        repo.run(|replies| find_dotfile_in_dir(Some(&outside), replies)),
        Some(FsPath::parse("/work/outer/.gswitch"))
    );
}

#[test]
fn a_marker_in_the_start_directory_is_confirmed_by_git() {
    let mut repo = Machine::with_repo("/work/repo");
    repo.create_file("/work/repo/a/.gswitch", "here\n");
    let start = FsPath::parse("/work/repo/a");
    let found = repo.run(|replies| find_dotfile_in_dir(Some(&start), replies));
    assert_eq!(found, Some(FsPath::parse("/work/repo/a/.gswitch")));
    assert_eq!(
        repo.asked,
        vec![
            probe("/work/repo/a/.gswitch"),
            git_request(&["rev-parse", "--show-toplevel"], Some("/work/repo/a")),
        ]
    );

    let mut plain = Machine::new();
    plain.create_file("/tmp/plain/.gswitch", "here\n");
    let start = FsPath::parse("/tmp/plain");
    assert_eq!(plain.run(|replies| find_dotfile_in_dir(Some(&start), replies)), None);
    assert_eq!(
        plain.asked,
        vec![
            probe("/tmp/plain/.gswitch"),
            git_request(&["rev-parse", "--show-toplevel"], Some("/tmp/plain")),
            git_request(&["rev-parse", "--show-toplevel"], Some("/tmp/plain")),
        ]
    );
}

#[test]
fn search_without_a_directory_starts_where_the_process_stands() {
    let mut repo = Machine::with_repo("/work/repo");
    repo.create_file("/work/repo/.gswitch", "from-cwd\n");
    repo.cwd = Some("/work/repo/sub".to_string());
    assert_eq!(
        repo.run(|replies| find_dotfile_in_dir(None, replies)),
        Some(FsPath::parse("/work/repo/.gswitch"))
    );
    assert_eq!(repo.asked[0], Request::CurrentDir);
    assert_eq!(
        repo.run(|replies| get_dotfile_profile(replies)),
        Ok(Some("from-cwd".to_string()))
    );

    let mut lost = Machine::with_repo("/work/repo");
    lost.create_file("/work/repo/.gswitch", "from-cwd\n");
    assert_eq!(lost.run(|replies| find_dotfile_in_dir(None, replies)), None);
    assert_eq!(lost.asked, vec![Request::CurrentDir]);
}

#[test]
fn search_ends_where_there_is_no_parent() {
    let replies = vec![
        reply(false, "", ""),
        reply(true, "/elsewhere\n", ""),
        reply(false, "", ""),
        reply(false, "", ""),
        reply(false, "", ""),
    ];
    let start = FsPath::parse("/a");
    assert_eq!(find_dotfile_in_dir(Some(&start), &replies[..3].to_vec()), Step::Ask(probe("/.gswitch")));
    assert_eq!(find_dotfile_in_dir(Some(&start), &replies[..4].to_vec()), Step::Done(None));
    let relative = FsPath::parse("a");
    assert_eq!(
        find_dotfile_in_dir(Some(&relative), &replies[..3].to_vec()),
        Step::Ask(probe(".gswitch"))
    );
    assert_eq!(find_dotfile_in_dir(Some(&relative), &replies[..4].to_vec()), Step::Done(None));
}

#[test]
fn an_empty_or_unreadable_marker_is_a_failure_and_no_missing_marker() {
    let path = FsPath::parse("/work/repo");
    for content in ["", " \n", "   \n  \t  \n"] {
        let mut repo = Machine::with_repo("/work/repo");
        repo.create_file("/work/repo/.gswitch", content);
        assert_eq!(
            repo.run(|replies| get_dotfile_profile_in_dir(Some(&path), replies)),
            Err(Error::MarkerEmpty)
        );
    }
    let mut bare = Machine::with_repo("/work/repo");
    assert_eq!(bare.run(|replies| get_dotfile_profile_in_dir(Some(&path), replies)), Ok(None));

    let replies =
        vec![reply(true, "", ""), reply(true, "/work/repo\n", ""), reply(false, "", "denied")];
    assert_eq!(
        get_dotfile_profile_in_dir(Some(&path), &replies),
        Step::Done(Err(Error::MarkerUnreadable))
    );
    assert_eq!(
        get_dotfile_profile_in_dir(Some(&path), &replies[..2].to_vec()),
        Step::Ask(Request::Read { path: FsPath::parse("/work/repo/.gswitch") })
    );
}

#[test]
fn an_empty_marker_nearby_is_not_passed_over_for_one_further_up() {
    let mut repo = Machine::with_repo("/R");
    repo.create_file("/R/.gswitch", "top\n");
    repo.create_file("/R/a/.gswitch", "\t\n");
    let start = FsPath::parse("/R/a/b");
    assert_eq!(
        repo.run(|replies| get_dotfile_profile_in_dir(Some(&start), replies)),
        Err(Error::MarkerEmpty)
    );
}

#[test]
fn walk_to_root_takes_the_first_marker_and_stops_at_the_root() {
    let start = FsPath::parse("/R/a/b");
    let root = FsPath::parse("/R");
    let no = || reply(false, "", "");
    let yes = || reply(true, "", "");
    assert_eq!(walk_to_root(&start, &root, &Vec::new()), Step::Ask(probe("/R/a/b/.gswitch")));
    assert_eq!(walk_to_root(&start, &root, &vec![no()]), Step::Ask(probe("/R/a/.gswitch")));
    assert_eq!(
        walk_to_root(&start, &root, &vec![no(), yes()]),
        Step::Done(Some(FsPath::parse("/R/a/.gswitch")))
    );
    assert_eq!(walk_to_root(&start, &root, &vec![no(), no()]), Step::Ask(probe("/R/.gswitch")));
    assert_eq!(
        walk_to_root(&start, &root, &vec![no(), no(), yes()]),
        Step::Done(Some(FsPath::parse("/R/.gswitch")))
    );
    assert_eq!(walk_to_root(&start, &root, &vec![no(), no(), no()]), Step::Done(None));
    assert_eq!(walk_to_root(&root, &root, &vec![no()]), Step::Done(None));
    assert_eq!(
        walk_to_root(&start, &root, &vec![yes(), no()]),
        Step::Done(Some(FsPath::parse("/R/a/b/.gswitch")))
    );
}

#[test]
fn a_marker_in_the_start_directory_needs_a_root_that_is_text() {
    let start = FsPath::parse("/work/repo");
    let no_text = Reply { success: true, output: None, diagnostic: String::new() };
    let replies = vec![reply(true, "", ""), no_text.clone(), no_text.clone()];
    assert_eq!(
        find_dotfile_in_dir(Some(&start), &replies[..2].to_vec()),
        Step::Ask(git_request(&["rev-parse", "--show-toplevel"], Some("/work/repo")))
    );
    assert_eq!(find_dotfile_in_dir(Some(&start), &replies), Step::Done(None));
    assert_eq!(find_dotfile_in_dir(None, &vec![no_text.clone()]), Step::Done(None));
    let path = FsPath::parse("/work/repo/.gswitch");
    assert_eq!(
        read_profile_from_dotfile(&path, &vec![no_text]),
        Step::Done(Err(Error::MarkerUnreadable))
    );
}
