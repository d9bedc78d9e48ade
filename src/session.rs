use vstd::prelude::*;
use vstd::string::StringSliceAdditionalSpecFns;

use crate::command::Command;
use crate::path::{
    confine, confined, bytes_opt, is_normal_dir, join, lemma_parent_normal, normal_dir, join_path, leaf_split, parent_dir, parent_of,
    path_under_root, relative_form, relative_to_root, split_leaf, under_root,
};
use crate::reply::{Reply, ResultCode};
use crate::text::{decimal, push_all, push_decimal, text_bytes};

verus! {

/// The port on which passive data connections are accepted.
pub const PASSIVE_PORT: u16 = 43210;

/// The state of one control connection.
pub struct Session {
    /// The client's current directory, relative to the server root and
    /// starting with `/`.
    pub cwd: Vec<u8>,
    /// The name given by `USER`, once a non-empty one was given.
    pub name: Option<Vec<u8>>,
    /// Whether a passive data connection is open and waits for a transfer.
    pub data_open: bool,
}

/// The mathematical state of a session.
pub struct SessionView {
    pub cwd: Seq<u8>,
    pub name: Option<Seq<u8>>,
    pub data_open: bool,
}

impl View for Session {
    type V = SessionView;

    open spec fn view(&self) -> SessionView {
        SessionView {
            cwd: self.cwd@,
            name: match self.name {
                Some(n) => Some(n@),
                None => None,
            },
            data_open: self.data_open,
        }
    }
}

/// What a command in progress still waits for once its path is resolved.
#[derive(Debug)]
pub enum Pending {
    /// A listing; the data connection is used and closed.
    List,
    /// A change of directory to the argument as the client gave it.
    Cwd(Vec<u8>),
    /// The creation of this entry in the resolved directory.
    Mkd(Vec<u8>),
    /// The recursive removal of the resolved directory.
    Rmd,
}

/// What the connection has to do next after a command.
#[derive(Debug)]
pub enum Step {
    /// Send this reply; the command is done.
    Reply(Reply),
    /// Send this reply, listen on `PASSIVE_PORT`, accept one peer and hand
    /// the outcome to `Session::passive_result`.
    OpenPassive(Reply),
    /// Canonicalize this filesystem path and hand the outcome to
    /// `Session::resolved` together with the pending work.
    Resolve(Vec<u8>, Pending),
}

/// What the connection has to do once a path was resolved.
#[derive(Debug)]
pub enum Effect {
    /// Send this reply; the command is done.
    Reply(Reply),
    /// Send the first reply, list the target over the data connection,
    /// close the data connection, then send the second reply.
    List(Vec<u8>, Reply, Reply),
    /// Close the data connection without a transfer, then send this reply.
    CloseData(Reply),
    /// Create this directory and hand the outcome to `Session::created`.
    CreateDir(Vec<u8>),
    /// Remove this directory recursively and hand the outcome to
    /// `Session::removed`.
    RemoveDir(Vec<u8>),
}

/// The text of the passive-mode reply for a port on the loopback address.
pub open spec fn passive_text(port: u16) -> Seq<u8> {
    "127,0,0,1, ".spec_bytes() + decimal((port / 256) as nat) + ", ".spec_bytes() + decimal(
        (port % 256) as nat,
    )
}

/// The text of the reply to `PWD`: the directory in quotes, then a space.
pub open spec fn pwd_text(cwd: Seq<u8>) -> Seq<u8> {
    "\"".spec_bytes() + cwd + "\" ".spec_bytes()
}

/// The text of the reply to a successful `USER`.
pub open spec fn welcome_text(name: Seq<u8>) -> Seq<u8> {
    "Welcome ".spec_bytes() + name + "!".spec_bytes()
}

/// The text of the reply to a successful `CWD`.
pub open spec fn cwd_text(dir: Seq<u8>) -> Seq<u8> {
    "Directory changed to \"".spec_bytes() + dir + "\"".spec_bytes()
}

/// The reply code of `PASV` and the state after it: refused while a data
/// connection is open, else the passive-mode announcement. Neither changes
/// the state before the peer is accepted.
pub open spec fn pasv_outcome(v: SessionView) -> (SessionView, ResultCode) {
    if v.data_open {
        (v, ResultCode::DataConnectionAlreadyOpen)
    } else {
        (v, ResultCode::EnteringPassiveMode)
    }
}

/// The state once the passive listener accepted a peer, or failed to.
pub open spec fn after_accept(v: SessionView, accepted: bool) -> SessionView {
    SessionView { data_open: v.data_open || accepted, ..v }
}

/// The state once a `LIST` completed, whether or not it succeeded.
pub open spec fn after_list(v: SessionView) -> SessionView {
    SessionView { data_open: false, ..v }
}

/// The state after `CDUP`.
pub open spec fn after_cdup(v: SessionView) -> SessionView {
    SessionView { cwd: parent_of(v.cwd), ..v }
}

/// The state after `CWD`, given what canonicalization of the target gave. A
/// target that is not a normalized directory below the root is refused
/// (canonical paths always are).
pub open spec fn after_cwd(v: SessionView, root: Seq<u8>, canonical: Option<Seq<u8>>) -> SessionView {
    match confined(canonical, root) {
        Ok(c) => if normal_dir(relative_form(root, c)) {
            SessionView { cwd: relative_form(root, c), ..v }
        } else {
            v
        },
        Err(_) => v,
    }
}

/// Whether `p` is a reply with this code and text.
pub open spec fn is_reply(p: Reply, code: ResultCode, text: Seq<u8>) -> bool {
    p.code == code && p.message@ == text
}

/// Whether `s` is a step that just sends a reply with this code and text.
pub open spec fn replies(s: Step, code: ResultCode, text: Seq<u8>) -> bool {
    s matches Step::Reply(p) && is_reply(p, code, text)
}

/// A reply with the given code and text.
fn reply(code: ResultCode, text: &str) -> (r: Reply)
    ensures
        is_reply(r, code, text.spec_bytes()),
{
    Reply::new(code, text_bytes(text))
}

/// The text of the passive-mode reply.
fn passive_message(port: u16) -> (r: Vec<u8>)
    ensures
        r@ == passive_text(port),
{
    let mut out = text_bytes("127,0,0,1, ");
    push_decimal(&mut out, (port / 256) as u64);
    let sep = text_bytes(", ");
    push_all(&mut out, &sep);
    push_decimal(&mut out, (port % 256) as u64);
    proof {
        assert(out@ =~= passive_text(port));
    }
    out
}

/// `prefix`, `middle` and `suffix` one after the other.
fn surround(prefix: &str, middle: &Vec<u8>, suffix: &str) -> (r: Vec<u8>)
    ensures
        r@ == prefix.spec_bytes() + middle@ + suffix.spec_bytes(),
{
    let mut out = text_bytes(prefix);
    push_all(&mut out, middle);
    let tail = text_bytes(suffix);
    push_all(&mut out, &tail);
    out
}

/// The invariant of a session: its current directory is a normalized
/// absolute directory.
pub open spec fn session_wf(v: SessionView) -> bool {
    normal_dir(v.cwd)
}

impl Session {
    /// A fresh session: at the root, with no user and no data connection.
    pub fn new() -> (r: Session)
        ensures
            r@ == (SessionView { cwd: seq![47u8], name: None, data_open: false }),
            session_wf(r@),
    {
        let mut cwd: Vec<u8> = Vec::new();
        cwd.push(47u8);
        proof {
            assert(cwd@ =~= seq![47u8]);
        }
        Session { cwd, name: None, data_open: false }
    }

    /// The reply that greets a new connection.
    pub fn greeting() -> (r: Reply)
        ensures
            is_reply(r, ResultCode::ServiceReadyForNewUser, "Welcome to this FTP server!".spec_bytes()),
    {
        reply(ResultCode::ServiceReadyForNewUser, "Welcome to this FTP server!")
    }

    /// Takes one command: decides its reply, or the path that has to be
    /// resolved (or the passive listener that has to be opened) before it
    /// can be answered. `root` is the server root.
    pub fn handle_cmd(&mut self, cmd: Command, root: &Vec<u8>) -> (r: Step)
        ensures
            session_wf(old(self)@) ==> session_wf(final(self)@),
            match cmd {
                Command::Auth | Command::Unknown(_) => final(self)@ == old(self)@ && replies(
                    r,
                    ResultCode::CommandNotImplemented,
                    "Not implemented".spec_bytes(),
                ),
                Command::Syst => final(self)@ == old(self)@ && replies(
                    r,
                    ResultCode::CommandOkay,
                    "I won't tell".spec_bytes(),
                ),
                Command::User(n) => if n@.len() == 0 {
                    final(self)@ == old(self)@ && replies(
                        r,
                        ResultCode::InvalidParameterOrArgument,
                        "Invalid username".spec_bytes(),
                    )
                } else {
                    final(self)@ == (SessionView { name: Some(n@), ..old(self)@ }) && replies(
                        r,
                        ResultCode::UserLoggedIn,
                        welcome_text(n@),
                    )
                },
                Command::Noop => final(self)@ == old(self)@ && replies(
                    r,
                    ResultCode::CommandOkay,
                    "Doing nothing...".spec_bytes(),
                ),
                Command::Pwd => final(self)@ == old(self)@ && if old(self).cwd@.len() == 0 {
                    replies(r, ResultCode::FileNotFound, "No such file or directory".spec_bytes())
                } else {
                    replies(r, ResultCode::PATHNAMECreated, pwd_text(old(self).cwd@))
                },
                Command::Type => final(self)@ == old(self)@ && replies(
                    r,
                    ResultCode::CommandOkay,
                    "Transfer type changed successfully".spec_bytes(),
                ),
                Command::Pasv => final(self)@ == pasv_outcome(old(self)@).0 && if old(
                    self,
                ).data_open {
                    replies(r, pasv_outcome(old(self)@).1, "Already listen...".spec_bytes())
                } else {
                    r matches Step::OpenPassive(p) && is_reply(
                        p,
                        pasv_outcome(old(self)@).1,
                        passive_text(PASSIVE_PORT),
                    )
                },
                Command::List(p) => final(self)@ == old(self)@ && if old(self).data_open {
                    r matches Step::Resolve(t, Pending::List) && t@ == under_root(
                        root@,
                        join(old(self).cwd@, p@),
                    )
                } else {
                    replies(r, ResultCode::ConnectionClosed, "No opened data connection".spec_bytes())
                },
                Command::Cwd(d) => final(self)@ == old(self)@ && (r matches Step::Resolve(
                    t,
                    Pending::Cwd(d2),
                ) && t@ == under_root(root@, join(old(self).cwd@, d@)) && d2@ == d@),
                Command::CdUp => final(self)@ == after_cdup(old(self)@) && replies(
                    r,
                    ResultCode::CommandOkay,
                    "Done".spec_bytes(),
                ),
                Command::Mkd(p) => final(self)@ == old(self)@ && match leaf_split(
                    join(old(self).cwd@, p@),
                ) {
                    Some((dir, leaf)) => r matches Step::Resolve(t, Pending::Mkd(n)) && t@
                        == under_root(root@, dir) && n@ == leaf,
                    None => replies(r, ResultCode::FileNotFound, "Cound't create folder".spec_bytes()),
                },
                Command::Rmd(p) => final(self)@ == old(self)@ && (r matches Step::Resolve(
                    t,
                    Pending::Rmd,
                ) && t@ == under_root(root@, join(old(self).cwd@, p@))),
                Command::MissingArgument(_) => final(self)@ == old(self)@ && replies(
                    r,
                    ResultCode::InvalidParameterOrArgument,
                    "Missing argument".spec_bytes(),
                ),
            },
    {
        match cmd {
            Command::Auth => Step::Reply(reply(ResultCode::CommandNotImplemented, "Not implemented")),
            Command::Syst => Step::Reply(reply(ResultCode::CommandOkay, "I won't tell")),
            Command::User(username) => {
                if username.len() == 0 {
                    Step::Reply(reply(ResultCode::InvalidParameterOrArgument, "Invalid username"))
                } else {
                    let message = surround("Welcome ", &username, "!");
                    self.name = Some(username);
                    Step::Reply(Reply::new(ResultCode::UserLoggedIn, message))
                }
            },
            Command::Noop => Step::Reply(reply(ResultCode::CommandOkay, "Doing nothing...")),
            Command::Pwd => {
                if self.cwd.len() > 0 {
                    let message = surround("\"", &self.cwd, "\" ");
                    Step::Reply(Reply::new(ResultCode::PATHNAMECreated, message))
                } else {
                    Step::Reply(reply(ResultCode::FileNotFound, "No such file or directory"))
                }
            },
            Command::Type => Step::Reply(
                reply(ResultCode::CommandOkay, "Transfer type changed successfully"),
            ),
            Command::Pasv => {
                if self.data_open {
                    Step::Reply(reply(ResultCode::DataConnectionAlreadyOpen, "Already listen..."))
                } else {
                    let message = passive_message(PASSIVE_PORT);
                    Step::OpenPassive(Reply::new(ResultCode::EnteringPassiveMode, message))
                }
            },
            Command::List(path) => {
                if self.data_open {
                    let target = join_path(&self.cwd, &path);
                    Step::Resolve(path_under_root(root, &target), Pending::List)
                } else {
                    Step::Reply(reply(ResultCode::ConnectionClosed, "No opened data connection"))
                }
            },
            Command::Cwd(directory) => {
                let target = join_path(&self.cwd, &directory);
                Step::Resolve(path_under_root(root, &target), Pending::Cwd(directory))
            },
            Command::CdUp => {
                proof {
                    if session_wf(self@) {
                        lemma_parent_normal(self.cwd@);
                    }
                }
                self.cwd = parent_dir(&self.cwd);
                Step::Reply(reply(ResultCode::CommandOkay, "Done"))
            },
            Command::Mkd(path) => {
                let target = join_path(&self.cwd, &path);
                match split_leaf(&target) {
                    Some((dir, leaf)) => Step::Resolve(path_under_root(root, &dir), Pending::Mkd(leaf)),
                    None => Step::Reply(reply(ResultCode::FileNotFound, "Cound't create folder")),
                }
            },
            Command::Rmd(path) => {
                let target = join_path(&self.cwd, &path);
                Step::Resolve(path_under_root(root, &target), Pending::Rmd)
            },
            Command::MissingArgument(_) => Step::Reply(
                reply(ResultCode::InvalidParameterOrArgument, "Missing argument"),
            ),
            Command::Unknown(_) => Step::Reply(
                reply(ResultCode::CommandNotImplemented, "Not implemented"),
            ),
        }
    }
    /// Takes the outcome of accepting a peer on the passive listener: an
    /// accepted peer becomes the data connection; a failure is reported.
    pub fn passive_result(&mut self, accepted: bool) -> (r: Option<Reply>)
        ensures
            session_wf(old(self)@) ==> session_wf(final(self)@),
            final(self)@ == after_accept(old(self)@, accepted),
            accepted ==> r is None,
            !accepted ==> (r matches Some(p) && is_reply(
                p,
                ResultCode::ServiceNotAvailable,
                "issues happen...".spec_bytes(),
            )),
    {
        if accepted {
            self.data_open = true;
            None
        } else {
            Some(reply(ResultCode::ServiceNotAvailable, "issues happen..."))
        }
    }

    /// Takes the outcome of canonicalizing the path of a pending command
    /// (`None` where the path does not exist) and decides the rest of the
    /// command. Paths outside `root` are refused like missing ones.
    pub fn resolved(&mut self, pending: Pending, canonical: Option<Vec<u8>>, root: &Vec<u8>) -> (r:
        Effect)
        ensures
            session_wf(old(self)@) ==> session_wf(final(self)@),
            match pending {
                Pending::List => final(self)@ == after_list(old(self)@) && match confined(
                    bytes_opt(canonical),
                    root@,
                ) {
                    Ok(c) => r matches Effect::List(t, first, last) && t@ == c && is_reply(
                        first,
                        ResultCode::DataConnectionAlreadyOpen,
                        "Starting to list directory...".spec_bytes(),
                    ) && is_reply(last, ResultCode::ClosingDataConnection, "Transfer done".spec_bytes()),
                    Err(_) => r matches Effect::CloseData(p) && is_reply(
                        p,
                        ResultCode::FileNotFound,
                        "No such file or directory".spec_bytes(),
                    ),
                },
                Pending::Cwd(d) => final(self)@ == after_cwd(old(self)@, root@, bytes_opt(canonical))
                    && match confined(bytes_opt(canonical), root@) {
                    Ok(c) => if normal_dir(relative_form(root@, c)) {
                        r matches Effect::Reply(p) && is_reply(p, ResultCode::CommandOkay, cwd_text(d@))
                    } else {
                        r matches Effect::Reply(p) && is_reply(
                            p,
                            ResultCode::FileNotFound,
                            "No such file or directory".spec_bytes(),
                        )
                    },
                    Err(_) => r matches Effect::Reply(p) && is_reply(
                        p,
                        ResultCode::FileNotFound,
                        "No such file or directory".spec_bytes(),
                    ),
                },
                Pending::Mkd(n) => final(self)@ == old(self)@ && match confined(
                    bytes_opt(canonical),
                    root@,
                ) {
                    Ok(c) => r matches Effect::CreateDir(t) && t@ == join(c, n@),
                    Err(_) => r matches Effect::Reply(p) && is_reply(
                        p,
                        ResultCode::FileNotFound,
                        "Cound't create folder".spec_bytes(),
                    ),
                },
                Pending::Rmd => final(self)@ == old(self)@ && match confined(
                    bytes_opt(canonical),
                    root@,
                ) {
                    Ok(c) => r matches Effect::RemoveDir(t) && t@ == c,
                    Err(_) => r matches Effect::Reply(p) && is_reply(
                        p,
                        ResultCode::FileNotFound,
                        "Coundn't remove folder!".spec_bytes(),
                    ),
                },
            },
    {
        let place = confine(canonical, root);
        match pending {
            Pending::List => {
                self.data_open = false;
                match place {
                    Ok(c) => Effect::List(
                        c,
                        reply(ResultCode::DataConnectionAlreadyOpen, "Starting to list directory..."),
                        reply(ResultCode::ClosingDataConnection, "Transfer done"),
                    ),
                    Err(_) => Effect::CloseData(reply(ResultCode::FileNotFound, "No such file or directory")),
                }
            },
            Pending::Cwd(directory) => match place {
                Ok(c) => {
                    let rel = relative_to_root(root, &c);
                    if is_normal_dir(&rel) {
                        self.cwd = rel;
                        let message = surround("Directory changed to \"", &directory, "\"");
                        Effect::Reply(Reply::new(ResultCode::CommandOkay, message))
                    } else {
                        Effect::Reply(reply(ResultCode::FileNotFound, "No such file or directory"))
                    }
                },
                Err(_) => Effect::Reply(reply(ResultCode::FileNotFound, "No such file or directory")),
            },
            Pending::Mkd(leaf) => match place {
                Ok(c) => Effect::CreateDir(join_path(&c, &leaf)),
                Err(_) => Effect::Reply(reply(ResultCode::FileNotFound, "Cound't create folder")),
            },
            Pending::Rmd => match place {
                Ok(c) => Effect::RemoveDir(c),
                Err(_) => Effect::Reply(reply(ResultCode::FileNotFound, "Coundn't remove folder!")),
            },
        }
    }

    /// The reply once the directory of a `MKD` was created, or could not be.
    pub fn created(ok: bool) -> (r: Reply)
        ensures
            ok ==> is_reply(r, ResultCode::PATHNAMECreated, "Folder successfully created!".spec_bytes()),
            !ok ==> is_reply(r, ResultCode::FileNotFound, "Cound't create folder".spec_bytes()),
    {
        if ok {
            reply(ResultCode::PATHNAMECreated, "Folder successfully created!")
        } else {
            reply(ResultCode::FileNotFound, "Cound't create folder")
        }
    }

    /// The reply once the directory of an `RMD` was removed, or could not be.
    pub fn removed(ok: bool) -> (r: Reply)
        ensures
            ok ==> is_reply(r, ResultCode::RequestedFileActionOkay, "Folder successfully removed!".spec_bytes()),
            !ok ==> is_reply(r, ResultCode::FileNotFound, "Coundn't remove folder!".spec_bytes()),
    {
        if ok {
            reply(ResultCode::RequestedFileActionOkay, "Folder successfully removed!")
        } else {
            reply(ResultCode::FileNotFound, "Coundn't remove folder!")
        }
    }
}

} // verus!
