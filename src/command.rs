use vstd::prelude::*;

use crate::path::sub_bytes;
use crate::text::{bytes_eq, is_utf8, SPACE};

verus! {

/// One command of the control protocol, as parsed from a command line.
///
/// Arguments are kept as the raw bytes the client sent (well-formed UTF-8,
/// or empty where the client sent anything else).
#[derive(Clone, Debug)]
pub enum Command {
    Auth,
    Syst,
    User(Vec<u8>),
    Noop,
    Pwd,
    Type,
    Pasv,
    List(Vec<u8>),
    Cwd(Vec<u8>),
    CdUp,
    Mkd(Vec<u8>),
    Rmd(Vec<u8>),
    /// A verb that needs an argument, sent without one; holds the verb.
    MissingArgument(Vec<u8>),
    /// An unrecognized verb.
    Unknown(Vec<u8>),
}

/// The index of the first space at or after `from`, or the length of `s`.
pub open spec fn token_end(s: Seq<u8>, from: int) -> int
    decreases s.len() - from,
{
    if from < 0 || from >= s.len() {
        s.len() as int
    } else if s[from] == SPACE {
        from
    } else {
        token_end(s, from + 1)
    }
}

/// The verb of a command line: everything before the first space.
pub open spec fn verb_of(line: Seq<u8>) -> Seq<u8> {
    line.subrange(0, token_end(line, 0))
}

/// The argument of a command line: the bytes after the first space, up to
/// the next space; `None` when the line holds no space.
pub open spec fn argument_of(line: Seq<u8>) -> Option<Seq<u8>> {
    let e = token_end(line, 0);
    if e >= line.len() {
        None
    } else {
        Some(line.subrange(e + 1, token_end(line, e + 1)))
    }
}

/// ASCII upper-casing of one byte; other bytes are left as they are.
pub open spec fn upper_byte(b: u8) -> u8 {
    if 97 <= b <= 122 {
        (b - 32) as u8
    } else {
        b
    }
}

/// ASCII upper-casing of a byte string.
pub open spec fn upper(s: Seq<u8>) -> Seq<u8> {
    s.map_values(|b: u8| upper_byte(b))
}

/// The bytes as they are when they are well-formed UTF-8, else nothing.
pub open spec fn text_or_empty(s: Seq<u8>) -> Seq<u8> {
    if vstd::utf8::valid_utf8(s) {
        s
    } else {
        Seq::empty()
    }
}

pub open spec fn word_auth() -> Seq<u8> { seq![65u8, 85, 84, 72] }
pub open spec fn word_syst() -> Seq<u8> { seq![83u8, 89, 83, 84] }
pub open spec fn word_user() -> Seq<u8> { seq![85u8, 83, 69, 82] }
pub open spec fn word_noop() -> Seq<u8> { seq![78u8, 79, 79, 80] }
pub open spec fn word_pwd() -> Seq<u8> { seq![80u8, 87, 68] }
pub open spec fn word_type() -> Seq<u8> { seq![84u8, 89, 80, 69] }
pub open spec fn word_pasv() -> Seq<u8> { seq![80u8, 65, 83, 86] }
pub open spec fn word_list() -> Seq<u8> { seq![76u8, 73, 83, 84] }
pub open spec fn word_cwd() -> Seq<u8> { seq![67u8, 87, 68] }
pub open spec fn word_cdup() -> Seq<u8> { seq![67u8, 68, 85, 80] }
pub open spec fn word_mkd() -> Seq<u8> { seq![77u8, 75, 68] }
pub open spec fn word_rmd() -> Seq<u8> { seq![82u8, 77, 68] }

/// The directory that `LIST` shows when it is given none: `.`.
pub open spec fn current_dir_arg() -> Seq<u8> {
    seq![46u8]
}

/// The argument of a path-taking command: its text, or `None` if absent.
pub open spec fn path_arg(line: Seq<u8>) -> Option<Seq<u8>> {
    match argument_of(line) {
        Some(a) => Some(text_or_empty(a)),
        None => None,
    }
}

/// Whether `c` is what the command line `line` parses to.
pub open spec fn parses_to(line: Seq<u8>, c: Command) -> bool {
    let v = upper(verb_of(line));
    let a = path_arg(line);
    if v == word_auth() {
        c is Auth
    } else if v == word_syst() {
        c is Syst
    } else if v == word_user() {
        c matches Command::User(n) && n@ == (match a {
            Some(t) => t,
            None => Seq::empty(),
        })
    } else if v == word_noop() {
        c is Noop
    } else if v == word_pwd() {
        c is Pwd
    } else if v == word_type() {
        c is Type
    } else if v == word_pasv() {
        c is Pasv
    } else if v == word_list() {
        c matches Command::List(p) && p@ == (match a {
            Some(t) => t,
            None => current_dir_arg(),
        })
    } else if v == word_cdup() {
        c is CdUp
    } else if v == word_cwd() {
        match a {
            Some(t) => c matches Command::Cwd(p) && p@ == t,
            None => c matches Command::MissingArgument(w) && w@ == v,
        }
    } else if v == word_mkd() {
        match a {
            Some(t) => c matches Command::Mkd(p) && p@ == t,
            None => c matches Command::MissingArgument(w) && w@ == v,
        }
    } else if v == word_rmd() {
        match a {
            Some(t) => c matches Command::Rmd(p) && p@ == t,
            None => c matches Command::MissingArgument(w) && w@ == v,
        }
    } else {
        c matches Command::Unknown(w) && w@ == text_or_empty(v)
    }
}

/// Upper-cases the ASCII letters of `data` in place; other bytes are kept.
pub fn to_uppercase(data: &mut Vec<u8>)
    ensures
        final(data)@ == upper(old(data)@),
{
    let mut i: usize = 0;
    while i < data.len()
        invariant
            i <= data@.len(),
            data@.len() == old(data)@.len(),
            forall|j: int| 0 <= j < i ==> data@[j] == upper_byte(old(data)@[j]),
            forall|j: int| i <= j < data@.len() ==> data@[j] == old(data)@[j],
        decreases data@.len() - i,
    {
        let b = data[i];
        if b >= 97u8 && b <= 122u8 {
            data.set(i, b - 32u8);
        }
        i = i + 1;
    }
    proof {
        assert(data@ =~= upper(old(data)@));
    }
}

/// The index of the first space in `s` at or after `from`, or its length.
fn find_space(s: &Vec<u8>, from: usize) -> (r: usize)
    requires
        from <= s@.len(),
    ensures
        r as int == token_end(s@, from as int),
        from <= r <= s@.len(),
{
    let mut i: usize = from;
    while i < s.len()
        invariant
            from <= i <= s@.len(),
            token_end(s@, from as int) == token_end(s@, i as int),
        decreases s@.len() - i,
    {
        if s[i] == SPACE {
            return i;
        }
        i = i + 1;
    }
    i
}

/// The bytes as they are when they are well-formed UTF-8, else empty.
fn text_or_empty_of(b: Vec<u8>) -> (r: Vec<u8>)
    ensures
        r@ == text_or_empty(b@),
{
    if is_utf8(b.as_slice()) {
        b
    } else {
        Vec::new()
    }
}

/// A vector of three bytes.
fn bytes3(a: u8, b: u8, c: u8) -> (r: Vec<u8>)
    ensures
        r@ == seq![a, b, c],
{
    let mut v: Vec<u8> = Vec::new();
    v.push(a);
    v.push(b);
    v.push(c);
    proof {
        assert(v@ =~= seq![a, b, c]);
    }
    v
}

/// A vector of four bytes.
fn bytes4(a: u8, b: u8, c: u8, d: u8) -> (r: Vec<u8>)
    ensures
        r@ == seq![a, b, c, d],
{
    let mut v: Vec<u8> = Vec::new();
    v.push(a);
    v.push(b);
    v.push(c);
    v.push(d);
    proof {
        assert(v@ =~= seq![a, b, c, d]);
    }
    v
}

/// The first two letters and the length of each verb, which tell the verbs
/// apart.
proof fn lemma_verbs_differ()
    ensures
        word_auth().len() == 4,
        word_auth()[0] == 65u8,
        word_auth()[1] == 85u8,
        word_syst().len() == 4,
        word_syst()[0] == 83u8,
        word_syst()[1] == 89u8,
        word_user().len() == 4,
        word_user()[0] == 85u8,
        word_user()[1] == 83u8,
        word_noop().len() == 4,
        word_noop()[0] == 78u8,
        word_noop()[1] == 79u8,
        word_pwd().len() == 3,
        word_pwd()[0] == 80u8,
        word_pwd()[1] == 87u8,
        word_type().len() == 4,
        word_type()[0] == 84u8,
        word_type()[1] == 89u8,
        word_pasv().len() == 4,
        word_pasv()[0] == 80u8,
        word_pasv()[1] == 65u8,
        word_list().len() == 4,
        word_list()[0] == 76u8,
        word_list()[1] == 73u8,
        word_cwd().len() == 3,
        word_cwd()[0] == 67u8,
        word_cwd()[1] == 87u8,
        word_cdup().len() == 4,
        word_cdup()[0] == 67u8,
        word_cdup()[1] == 68u8,
        word_mkd().len() == 3,
        word_mkd()[0] == 77u8,
        word_mkd()[1] == 75u8,
        word_rmd().len() == 3,
        word_rmd()[0] == 82u8,
        word_rmd()[1] == 77u8,
{
}

/// Whether a buffer ends with carriage return and line feed.
pub open spec fn ends_with_crlf(s: Seq<u8>) -> bool {
    s.len() > 1 && s[s.len() - 2] == 13u8 && s[s.len() - 1] == 10u8
}

/// Takes the next byte read from the control connection into the line being
/// assembled in `line`. Spaces before the first byte of a line are skipped.
/// Returns `true` once `line` holds a whole command line, its terminating
/// carriage return and line feed removed.
pub fn push_line_byte(line: &mut Vec<u8>, b: u8) -> (done: bool)
    ensures
        old(line)@.len() == 0 && b == SPACE ==> final(line)@ == old(line)@ && !done,
        !(old(line)@.len() == 0 && b == SPACE) ==> {
            let s = old(line)@.push(b);
            if ends_with_crlf(s) {
                done && final(line)@ == s.subrange(0, s.len() - 2)
            } else {
                !done && final(line)@ == s
            }
        },
{
    if line.len() == 0 && b == SPACE {
        return false;
    }
    line.push(b);
    let n = line.len();
    if n > 1 && line[n - 2] == 13u8 && line[n - 1] == 10u8 {
        line.pop();
        line.pop();
        proof {
            assert(line@ =~= old(line)@.push(b).subrange(0, n - 2));
        }
        true
    } else {
        false
    }
}

impl Command {
    /// The protocol name of the command, `UNKN` for an unrecognized or
    /// incomplete one.
    pub open spec fn verb_name(self) -> Seq<char> {
        match self {
            Command::Auth => "AUTH"@,
            Command::Syst => "SYST"@,
            Command::User(_) => "USER"@,
            Command::Noop => "NOOP"@,
            Command::Pwd => "PWD"@,
            Command::Type => "TYPE"@,
            Command::Pasv => "PASV"@,
            Command::List(_) => "LIST"@,
            Command::Cwd(_) => "CWD"@,
            Command::CdUp => "CDUP"@,
            Command::Mkd(_) => "MKD"@,
            Command::Rmd(_) => "RMD"@,
            Command::MissingArgument(_) | Command::Unknown(_) => "UNKN"@,
        }
    }

    /// The protocol name of the command.
    pub fn as_ref(&self) -> (r: &str)
        ensures
            r@ == self.verb_name(),
    {
        match self {
            Command::Auth => "AUTH",
            Command::Syst => "SYST",
            Command::User(_) => "USER",
            Command::Noop => "NOOP",
            Command::Pwd => "PWD",
            Command::Type => "TYPE",
            Command::Pasv => "PASV",
            Command::List(_) => "LIST",
            Command::Cwd(_) => "CWD",
            Command::CdUp => "CDUP",
            Command::Mkd(_) => "MKD",
            Command::Rmd(_) => "RMD",
            Command::MissingArgument(_) | Command::Unknown(_) => "UNKN",
        }
    }

    /// Parses one command line (without its line terminator). Parsing never
    /// fails: an unrecognized verb gives `Unknown`, and a required argument
    /// that is absent gives `MissingArgument`.
    pub fn new(input: Vec<u8>) -> (r: Command)
        ensures
            parses_to(input@, r),
    {
        let e = find_space(&input, 0);
        let mut verb = sub_bytes(&input, 0, e);
        to_uppercase(&mut verb);
        let arg: Option<Vec<u8>> = if e < input.len() {
            let e2 = find_space(&input, e + 1);
            Some(text_or_empty_of(sub_bytes(&input, e + 1, e2)))
        } else {
            None
        };
        proof {
            lemma_verbs_differ();
            assert(verb@ == upper(verb_of(input@)));
            assert(arg matches Some(t) ==> path_arg(input@) == Some(t@));
            assert(arg is None ==> path_arg(input@) is None);
        }
        if bytes_eq(verb.as_slice(), bytes4(65u8, 85u8, 84u8, 72u8).as_slice()) {
            Command::Auth
        } else if bytes_eq(verb.as_slice(), bytes4(83u8, 89u8, 83u8, 84u8).as_slice()) {
            Command::Syst
        } else if bytes_eq(verb.as_slice(), bytes4(85u8, 83u8, 69u8, 82u8).as_slice()) {
            match arg {
                Some(t) => Command::User(t),
                None => Command::User(Vec::new()),
            }
        } else if bytes_eq(verb.as_slice(), bytes4(78u8, 79u8, 79u8, 80u8).as_slice()) {
            Command::Noop
        } else if bytes_eq(verb.as_slice(), bytes3(80u8, 87u8, 68u8).as_slice()) {
            Command::Pwd
        } else if bytes_eq(verb.as_slice(), bytes4(84u8, 89u8, 80u8, 69u8).as_slice()) {
            Command::Type
        } else if bytes_eq(verb.as_slice(), bytes4(80u8, 65u8, 83u8, 86u8).as_slice()) {
            Command::Pasv
        } else if bytes_eq(verb.as_slice(), bytes4(76u8, 73u8, 83u8, 84u8).as_slice()) {
            match arg {
                Some(t) => Command::List(t),
                None => {
                    let mut d: Vec<u8> = Vec::new();
                    d.push(46u8);
                    proof {
                        assert(d@ =~= current_dir_arg());
                    }
                    Command::List(d)
                },
            }
        } else if bytes_eq(verb.as_slice(), bytes4(67u8, 68u8, 85u8, 80u8).as_slice()) {
            Command::CdUp
        } else if bytes_eq(verb.as_slice(), bytes3(67u8, 87u8, 68u8).as_slice()) {
            match arg {
                Some(t) => Command::Cwd(t),
                None => Command::MissingArgument(verb),
            }
        } else if bytes_eq(verb.as_slice(), bytes3(77u8, 75u8, 68u8).as_slice()) {
            match arg {
                Some(t) => Command::Mkd(t),
                None => Command::MissingArgument(verb),
            }
        } else if bytes_eq(verb.as_slice(), bytes3(82u8, 77u8, 68u8).as_slice()) {
            match arg {
                Some(t) => Command::Rmd(t),
                None => Command::MissingArgument(verb),
            }
        } else {
            Command::Unknown(text_or_empty_of(verb))
        }
    }
}

} // verus!
