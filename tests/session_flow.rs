use std::collections::HashSet;

use ftp_server::command::Command;
use ftp_server::reply::{Reply, ResultCode};
use ftp_server::session::{Effect, Session, Step};

/// A directory tree held in memory: the set of existing absolute paths.
struct Tree {
    dirs: HashSet<Vec<u8>>,
}

impl Tree {
    fn new(root: &str) -> Tree {
        let mut dirs = HashSet::new();
        dirs.insert(root.as_bytes().to_vec());
        Tree { dirs }
    }

    /// Resolves `.` and `..` and looks the path up, as canonicalization does.
    fn canonicalize(&self, p: &[u8]) -> Option<Vec<u8>> {
        let mut parts: Vec<&[u8]> = Vec::new();
        for c in p.split(|b| *b == b'/') {
            match c {
                b"" | b"." => {}
                b".." => {
                    parts.pop();
                }
                other => parts.push(other),
            }
        }
        let mut out = Vec::new();
        for c in &parts {
            out.push(b'/');
            out.extend_from_slice(c);
        }
        if out.is_empty() {
            out.push(b'/');
        }
        if self.dirs.contains(&out) {
            Some(out)
        } else {
            None
        }
    }
}

/// Runs one command line the way a connection does and returns the replies.
fn run(s: &mut Session, tree: &mut Tree, root: &[u8], line: &str) -> Vec<Reply> {
    let root = root.to_vec();
    let cmd = Command::new(line.as_bytes().to_vec());
    match s.handle_cmd(cmd, &root) {
        Step::Reply(r) => vec![r],
        Step::OpenPassive(r) => {
            let mut out = vec![r];
            if let Some(e) = s.passive_result(true) {
                out.push(e);
            }
            out
        }
        Step::Resolve(path, pending) => {
            let canonical = tree.canonicalize(&path);
            match s.resolved(pending, canonical, &root) {
                Effect::Reply(r) => vec![r],
                Effect::List(_, first, last) => vec![first, last],
                Effect::CloseData(r) => vec![r],
                Effect::CreateDir(p) => {
                    let ok = tree.dirs.insert(p);
                    vec![Session::created(ok)]
                }
                Effect::RemoveDir(p) => {
                    let ok = tree.dirs.remove(&p);
                    vec![Session::removed(ok)]
                }
            }
        }
    }
}

fn wire(replies: &[Reply]) -> Vec<String> {
    replies.iter().map(|r| String::from_utf8(r.encode()).unwrap()).collect()
}

#[test]
fn login_pwd_mkd_cwd_cdup_rmd() {
    let root = b"/srv/ftp";
    let mut tree = Tree::new("/srv/ftp");
    let mut s = Session::new();
    assert_eq!(wire(&run(&mut s, &mut tree, root, "USER anonymous")), vec!["230 Welcome anonymous!\r\n"]);
    assert_eq!(s.name, Some(b"anonymous".to_vec()));
    assert_eq!(wire(&run(&mut s, &mut tree, root, "PWD")), vec!["257 \"/\" \r\n"]);
    assert_eq!(
        wire(&run(&mut s, &mut tree, root, "MKD sub")),
        vec!["257 Folder successfully created!\r\n"]
    );
    assert!(tree.dirs.contains(&b"/srv/ftp/sub".to_vec()));
    assert_eq!(
        wire(&run(&mut s, &mut tree, root, "CWD sub")),
        vec!["200 Directory changed to \"sub\"\r\n"]
    );
    assert_eq!(s.cwd, b"/sub".to_vec());
    assert_eq!(wire(&run(&mut s, &mut tree, root, "CDUP")), vec!["200 Done\r\n"]);
    assert_eq!(s.cwd, b"/".to_vec());
    assert_eq!(
        wire(&run(&mut s, &mut tree, root, "RMD sub")),
        vec!["250 Folder successfully removed!\r\n"]
    );
    assert!(!tree.dirs.contains(&b"/srv/ftp/sub".to_vec()));
}

#[test]
fn cwd_cannot_escape_root() {
    let root = b"/srv/ftp";
    let mut tree = Tree::new("/srv/ftp");
    tree.dirs.insert(b"/etc".to_vec());
    let mut s = Session::new();
    let replies = run(&mut s, &mut tree, root, "CWD ../../../../etc");
    assert_eq!(wire(&replies), vec!["550 No such file or directory\r\n"]);
    assert_eq!(replies[0].code, ResultCode::FileNotFound);
    assert_eq!(s.cwd, b"/".to_vec());
}

#[test]
fn cwd_then_cdup_round_trip() {
    let root = b"/srv/ftp";
    let mut tree = Tree::new("/srv/ftp");
    tree.dirs.insert(b"/srv/ftp/a".to_vec());
    tree.dirs.insert(b"/srv/ftp/a/b".to_vec());
    let mut s = Session::new();
    run(&mut s, &mut tree, root, "CWD a");
    assert_eq!(s.cwd, b"/a".to_vec());
    run(&mut s, &mut tree, root, "CWD b");
    assert_eq!(s.cwd, b"/a/b".to_vec());
    run(&mut s, &mut tree, root, "CWD ..");
    assert_eq!(s.cwd, b"/a".to_vec());
    run(&mut s, &mut tree, root, "CDUP");
    run(&mut s, &mut tree, root, "CDUP");
    assert_eq!(s.cwd, b"/".to_vec());
}

#[test]
fn second_pasv_is_refused() {
    let root = b"/srv/ftp";
    let mut tree = Tree::new("/srv/ftp");
    let mut s = Session::new();
    assert_eq!(
        wire(&run(&mut s, &mut tree, root, "PASV")),
        vec!["227 127,0,0,1, 168, 202\r\n"]
    );
    assert!(s.data_open);
    assert_eq!(wire(&run(&mut s, &mut tree, root, "PASV")), vec!["225 Already listen...\r\n"]);
    assert!(s.data_open);
}

#[test]
fn failed_accept_reports_service_not_available() {
    let mut s = Session::new();
    let root = b"/srv/ftp".to_vec();
    match s.handle_cmd(Command::Pasv, &root) {
        Step::OpenPassive(r) => assert_eq!(r.code, ResultCode::EnteringPassiveMode),
        other => panic!("unexpected {:?}", other),
    }
    let r = s.passive_result(false).unwrap();
    assert_eq!(r.encode(), b"421 issues happen...\r\n".to_vec());
    assert!(!s.data_open);
}

#[test]
fn list_always_closes_the_data_connection() {
    let root = b"/srv/ftp";
    let mut tree = Tree::new("/srv/ftp");
    let mut s = Session::new();
    assert_eq!(
        wire(&run(&mut s, &mut tree, root, "LIST")),
        vec!["426 No opened data connection\r\n"]
    );
    run(&mut s, &mut tree, root, "PASV");
    assert_eq!(
        wire(&run(&mut s, &mut tree, root, "LIST")),
        vec!["225 Starting to list directory...\r\n", "226 Transfer done\r\n"]
    );
    assert!(!s.data_open);
    run(&mut s, &mut tree, root, "PASV");
    assert_eq!(
        wire(&run(&mut s, &mut tree, root, "LIST missing")),
        vec!["550 No such file or directory\r\n"]
    );
    assert!(!s.data_open);
    assert_eq!(wire(&run(&mut s, &mut tree, root, "PASV"))[0], "227 127,0,0,1, 168, 202\r\n");
}

#[test]
fn list_target_is_the_resolved_path() {
    let root = b"/srv/ftp".to_vec();
    let mut s = Session::new();
    s.passive_result(true);
    match s.handle_cmd(Command::new(b"LIST sub".to_vec()), &root) {
        Step::Resolve(p, pending) => {
            assert_eq!(p, b"/srv/ftp/sub".to_vec());
            match s.resolved(pending, Some(b"/srv/ftp/sub".to_vec()), &root) {
                Effect::List(t, _, _) => assert_eq!(t, b"/srv/ftp/sub".to_vec()),
                other => panic!("unexpected {:?}", other),
            }
        }
        other => panic!("unexpected {:?}", other),
    }
}

#[test]
fn mkd_then_rmd_leaves_tree_unchanged() {
    let root = b"/srv/ftp";
    let mut tree = Tree::new("/srv/ftp");
    tree.dirs.insert(b"/srv/ftp/keep".to_vec());
    let before = tree.dirs.clone();
    let mut s = Session::new();
    run(&mut s, &mut tree, root, "MKD fresh");
    assert_eq!(tree.dirs.len(), before.len() + 1);
    run(&mut s, &mut tree, root, "RMD fresh");
    assert_eq!(tree.dirs, before);
}

#[test]
fn failures_of_mkd_and_rmd() {
    let root = b"/srv/ftp";
    let mut tree = Tree::new("/srv/ftp");
    let mut s = Session::new();
    assert_eq!(wire(&run(&mut s, &mut tree, root, "MKD ..")), vec!["550 Cound't create folder\r\n"]);
    assert_eq!(
        wire(&run(&mut s, &mut tree, root, "MKD nowhere/x")),
        vec!["550 Cound't create folder\r\n"]
    );
    assert_eq!(
        wire(&run(&mut s, &mut tree, root, "RMD nothing")),
        vec!["550 Coundn't remove folder!\r\n"]
    );
    assert_eq!(wire(&[Session::created(false)]), vec!["550 Cound't create folder\r\n"]);
    assert_eq!(wire(&[Session::removed(false)]), vec!["550 Coundn't remove folder!\r\n"]);
}

#[test]
fn simple_replies() {
    let root = b"/srv/ftp";
    let mut tree = Tree::new("/srv/ftp");
    let mut s = Session::new();
    assert_eq!(wire(&[Session::greeting()]), vec!["220 Welcome to this FTP server!\r\n"]);
    assert_eq!(wire(&run(&mut s, &mut tree, root, "AUTH TLS")), vec!["502 Not implemented\r\n"]);
    assert_eq!(wire(&run(&mut s, &mut tree, root, "SYST")), vec!["200 I won't tell\r\n"]);
    assert_eq!(wire(&run(&mut s, &mut tree, root, "NOOP")), vec!["200 Doing nothing...\r\n"]);
    assert_eq!(
        wire(&run(&mut s, &mut tree, root, "TYPE I")),
        vec!["200 Transfer type changed successfully\r\n"]
    );
    assert_eq!(wire(&run(&mut s, &mut tree, root, "USER")), vec!["501 Invalid username\r\n"]);
    assert_eq!(s.name, None);
    assert_eq!(wire(&run(&mut s, &mut tree, root, "CWD")), vec!["501 Missing argument\r\n"]);
    assert_eq!(wire(&run(&mut s, &mut tree, root, "STOR x")), vec!["502 Not implemented\r\n"]);
}

#[test]
fn list_outside_root_is_not_found_and_clears_channel() {
    let root = b"/srv/ftp";
    let mut tree = Tree::new("/srv/ftp");
    tree.dirs.insert(b"/etc".to_vec());
    let mut s = Session::new();
    run(&mut s, &mut tree, root, "PASV");
    assert_eq!(
        wire(&run(&mut s, &mut tree, root, "LIST ../../etc")),
        vec!["550 No such file or directory\r\n"]
    );
    assert!(!s.data_open);
}

#[test]
fn mkd_with_trailing_dot_creates_the_named_directory() {
    let root = b"/srv/ftp";
    let mut tree = Tree::new("/srv/ftp");
    let mut s = Session::new();
    assert_eq!(
        wire(&run(&mut s, &mut tree, root, "MKD a/.")),
        vec!["257 Folder successfully created!\r\n"]
    );
    assert!(tree.dirs.contains(&b"/srv/ftp/a".to_vec()));
}

#[test]
fn cwd_refuses_a_target_that_is_not_normalized() {
    let root = b"/srv/ftp".to_vec();
    let mut s = Session::new();
    match s.handle_cmd(Command::new(b"CWD a".to_vec()), &root) {
        Step::Resolve(_, pending) => match s.resolved(pending, Some(b"/srv/ftp/a/".to_vec()), &root) {
            Effect::Reply(r) => assert_eq!(r.encode(), b"550 No such file or directory\r\n".to_vec()),
            other => panic!("unexpected {:?}", other),
        },
        other => panic!("unexpected {:?}", other),
    }
    assert_eq!(s.cwd, b"/".to_vec());
}
