use ftp_server::command::{push_line_byte, to_uppercase, Command};
use ftp_server::reply::{Reply, ResultCode};

fn parse(s: &[u8]) -> Command {
    Command::new(s.to_vec())
}

#[test]
fn user_with_name() {
    match parse(b"USER anonymous") {
        Command::User(n) => assert_eq!(n, b"anonymous".to_vec()),
        other => panic!("unexpected {:?}", other),
    }
}

#[test]
fn verbs_are_case_folded() {
    assert!(matches!(parse(b"syst"), Command::Syst));
    assert!(matches!(parse(b"NoOp"), Command::Noop));
    assert!(matches!(parse(b"pwd"), Command::Pwd));
    assert!(matches!(parse(b"type I"), Command::Type));
    assert!(matches!(parse(b"pasv"), Command::Pasv));
    assert!(matches!(parse(b"cdup"), Command::CdUp));
    assert!(matches!(parse(b"AUTH TLS"), Command::Auth));
}

#[test]
fn user_without_name_is_empty() {
    match parse(b"USER") {
        Command::User(n) => assert!(n.is_empty()),
        other => panic!("unexpected {:?}", other),
    }
}

#[test]
fn list_defaults_to_current_dir() {
    match parse(b"LIST") {
        Command::List(p) => assert_eq!(p, b".".to_vec()),
        other => panic!("unexpected {:?}", other),
    }
    match parse(b"list sub") {
        Command::List(p) => assert_eq!(p, b"sub".to_vec()),
        other => panic!("unexpected {:?}", other),
    }
}

#[test]
fn path_commands_take_one_token() {
    match parse(b"CWD a b") {
        Command::Cwd(p) => assert_eq!(p, b"a".to_vec()),
        other => panic!("unexpected {:?}", other),
    }
    match parse(b"mkd sub") {
        Command::Mkd(p) => assert_eq!(p, b"sub".to_vec()),
        other => panic!("unexpected {:?}", other),
    }
    match parse(b"RMD sub") {
        Command::Rmd(p) => assert_eq!(p, b"sub".to_vec()),
        other => panic!("unexpected {:?}", other),
    }
}

#[test]
fn missing_required_argument() {
    let cases: [(&[u8], &[u8]); 3] = [(b"CWD", b"CWD"), (b"mkd", b"MKD"), (b"RMD", b"RMD")];
    for (line, verb) in cases {
        match parse(line) {
            Command::MissingArgument(v) => assert_eq!(v, verb.to_vec()),
            other => panic!("unexpected {:?}", other),
        }
    }
}

#[test]
fn unknown_verb_is_kept_upper_cased() {
    match parse(b"retr file") {
        Command::Unknown(v) => assert_eq!(v, b"RETR".to_vec()),
        other => panic!("unexpected {:?}", other),
    }
    match parse(b"") {
        Command::Unknown(v) => assert!(v.is_empty()),
        other => panic!("unexpected {:?}", other),
    }
}

#[test]
fn malformed_utf8_degrades_to_empty() {
    match parse(b"CWD \xff\xfe") {
        Command::Cwd(p) => assert!(p.is_empty()),
        other => panic!("unexpected {:?}", other),
    }
    match parse(b"\xffX") {
        Command::Unknown(v) => assert!(v.is_empty()),
        other => panic!("unexpected {:?}", other),
    }
    match parse("CWD dé".as_bytes()) {
        Command::Cwd(p) => assert_eq!(p, "dé".as_bytes().to_vec()),
        other => panic!("unexpected {:?}", other),
    }
}

#[test]
fn parsing_is_total_on_arbitrary_bytes() {
    for a in 0u8..=255 {
        for b in [0u8, 32, 65, 97, 200, 255] {
            let _ = parse(&[a, b, 32, b, a]);
        }
    }
}

#[test]
fn uppercase_only_ascii_letters() {
    let mut v = b"abz{`AZ\xe9 1".to_vec();
    to_uppercase(&mut v);
    assert_eq!(v, b"ABZ{`AZ\xe9 1".to_vec());
}

#[test]
fn line_assembly_skips_leading_spaces_and_strips_crlf() {
    let mut line: Vec<u8> = Vec::new();
    let mut done = false;
    for b in b"  NOOP\r\n" {
        done = push_line_byte(&mut line, *b);
    }
    assert!(done);
    assert_eq!(line, b"NOOP".to_vec());
    let mut line2: Vec<u8> = Vec::new();
    assert!(!push_line_byte(&mut line2, b'\r'));
    assert!(push_line_byte(&mut line2, b'\n'));
    assert!(line2.is_empty());
}

#[test]
fn reply_encoding() {
    let r = Reply::new(ResultCode::UserLoggedIn, b"Welcome anonymous!".to_vec());
    assert_eq!(r.encode(), b"230 Welcome anonymous!\r\n".to_vec());
    let e = Reply::new(ResultCode::CommandOkay, Vec::new());
    assert_eq!(e.encode(), b"200\r\n".to_vec());
    assert_eq!(ResultCode::FileNotFound.code(), 550);
    assert_eq!(ResultCode::DataConnectionAlreadyOpen.code(), 225);
    assert_eq!(ResultCode::ConnectionClosed.code(), 426);
}

#[test]
fn command_names() {
    assert_eq!(parse(b"user x").as_ref(), "USER");
    assert_eq!(parse(b"CDUP").as_ref(), "CDUP");
    assert_eq!(parse(b"LIST").as_ref(), "LIST");
    assert_eq!(parse(b"CWD").as_ref(), "UNKN");
    assert_eq!(parse(b"XYZ").as_ref(), "UNKN");
}
