//! Session state machine: drives one connection from unauthenticated,
//! through registration, to closed, dispatching commands against the
//! shared registry and producing exactly one reply per command.
//!
//! The machine itself does no I/O. The surrounding server decodes bytes
//! into [`Transmission`]s, answers the one filesystem question a `glide`
//! command raises (does the path name a regular file, and how long is it),
//! and feeds both to [`session_step`]; it sends whatever reply comes back
//! and, on `Closed`, tears the connection down. Self-targeted glide
//! requests are allowed: a user may queue a file for themselves.
use vstd::prelude::*;
use vstd::string::StringExecFns;

use crate::codec::Transmission;
use crate::codec::TransmissionV;
use crate::grammar::Command;
use crate::grammar::CommandV;
use crate::grammar::parse;
use crate::grammar::parse_spec;
use crate::registry::ClientRecordV;
use crate::registry::Registry;
use crate::registry::ShareRequest;
use crate::registry::ShareRequestV;
use crate::registry::has_request;
use crate::registry::has_user;
use crate::registry::first_request;
use crate::registry::names_view;
use crate::registry::pending_of;
use crate::registry::reqs_view;
use crate::registry::spec_add_request;
use crate::registry::spec_others;
use crate::registry::spec_register;
use crate::registry::spec_resolve;
use crate::registry::spec_unregister;
use crate::text::spec_dec;
use crate::text::u64_to_dec;
use crate::username::valid_username;
use crate::username::validate_username;

verus! {

/// The reply when nobody else is connected.
pub open spec fn no_others_reply() -> Seq<char> {
    "No other users are connected."@
}

/// One `@name` line per listed user.
pub open spec fn name_lines(names: Seq<Seq<char>>) -> Seq<char>
    decreases names.len(),
{
    if names.len() == 0 {
        Seq::empty()
    } else {
        "\n@"@ + names[0] + name_lines(names.drop_first())
    }
}

/// The reply to `list`.
pub open spec fn list_reply(names: Seq<Seq<char>>) -> Seq<char> {
    if names.len() == 0 {
        no_others_reply()
    } else {
        "Connected users:"@ + name_lines(names)
    }
}

/// One line per pending request: sender, filename, size.
pub open spec fn request_lines(p: Seq<ShareRequestV>) -> Seq<char>
    decreases p.len(),
{
    if p.len() == 0 {
        Seq::empty()
    } else {
        "\n@"@ + p[0].sender + " wants to send '"@ + p[0].filename + "' ("@ + spec_dec(
            p[0].size as nat,
        ) + " bytes)"@ + request_lines(p.drop_first())
    }
}

/// The reply to `reqs`.
pub open spec fn requests_reply(p: Seq<ShareRequestV>) -> Seq<char> {
    if p.len() == 0 {
        "No pending requests."@
    } else {
        "Pending requests:"@ + request_lines(p)
    }
}

/// The reply when the glide path names no regular file.
pub open spec fn file_missing_reply(path: Seq<char>) -> Seq<char> {
    "File not found: '"@ + path + "'."@
}

/// The reply when the glide recipient is not connected.
pub open spec fn no_user_reply(to: Seq<char>) -> Seq<char> {
    "User @"@ + to + " is not connected."@
}

/// The confirmation after a queued glide request.
pub open spec fn glide_ok_reply(path: Seq<char>, to: Seq<char>) -> Seq<char> {
    "Glide request for '"@ + path + "' sent to @"@ + to + "."@
}

/// The reply when `ok`/`no` names a sender with nothing pending.
pub open spec fn no_request_reply(from: Seq<char>) -> Seq<char> {
    "No pending request from @"@ + from + "."@
}

/// The report after resolving a request, one wording per disposition.
pub open spec fn resolved_reply(accept: bool, req: ShareRequestV) -> Seq<char> {
    if accept {
        "Accepted '"@ + req.filename + "' from @"@ + req.sender + "."@
    } else {
        "Declined '"@ + req.filename + "' from @"@ + req.sender + "."@
    }
}

/// The help text; every topic gets the same message.
pub open spec fn help_reply() -> Seq<char> {
    "Commands:\n  list                 - list connected users\n  reqs                 - list pending share requests\n  glide <path> @<user> - offer a file to a user\n  ok @<user>           - accept that user's earliest request\n  no @<user>           - decline that user's earliest request\n  help [topic]         - show this message"@
}

/// The echo for a line the grammar does not know.
pub open spec fn invalid_reply(text: Seq<char>) -> Seq<char> {
    "Unrecognized command: '"@ + text + "'. Type 'help' for a list of commands."@
}

fn list_reply_exec(names: &Vec<String>) -> (r: String)
    ensures
        r@ == list_reply(names_view(names@)),
{
    let ghost nv = names_view(names@);
    let n = names.len();
    if n == 0 {
        return String::from_str("No other users are connected.");
    }
    let mut s = String::from_str("Connected users:");
    let mut i: usize = 0;
    proof {
        assert(nv.take(0) =~= Seq::<Seq<char>>::empty());
        assert(s@ =~= "Connected users:"@ + name_lines(nv.take(0)));
    }
    while i < n
        invariant
            i <= n,
            n == names@.len(),
            nv == names_view(names@),
            s@ == "Connected users:"@ + name_lines(nv.take(i as int)),
        decreases n - i,
    {
        s.append("\n@");
        s.append(names[i].as_str());
        proof {
            lemma_name_lines_push(nv.take(i as int), nv[i as int]);
            assert(nv.take(i as int).push(nv[i as int]) =~= nv.take(i as int + 1));
            assert(s@ =~= "Connected users:"@ + name_lines(nv.take(i as int + 1)));
        }
        i += 1;
    }
    proof {
        assert(nv.take(n as int) =~= nv);
    }
    s
}

/// Appending one name appends one line.
proof fn lemma_name_lines_push(a: Seq<Seq<char>>, x: Seq<char>)
    ensures
        name_lines(a.push(x)) == name_lines(a) + "\n@"@ + x,
    decreases a.len(),
{
    if a.len() == 0 {
        assert(a.push(x).drop_first() =~= Seq::<Seq<char>>::empty());
        assert(a.push(x)[0] == x);
        assert(name_lines(Seq::<Seq<char>>::empty()) == Seq::<char>::empty());
        assert(name_lines(a) == Seq::<char>::empty());
        assert(name_lines(a.push(x)) == "\n@"@ + x + name_lines(Seq::<Seq<char>>::empty()));
        assert(name_lines(a.push(x)) =~= name_lines(a) + "\n@"@ + x);
    } else {
        assert(a.push(x).drop_first() =~= a.drop_first().push(x));
        assert(a.push(x)[0] == a[0]);
        lemma_name_lines_push(a.drop_first(), x);
        assert(name_lines(a.push(x)) == "\n@"@ + a[0] + name_lines(a.drop_first().push(x)));
        assert(name_lines(a) == "\n@"@ + a[0] + name_lines(a.drop_first()));
        assert(name_lines(a.push(x)) =~= name_lines(a) + "\n@"@ + x);
    }
}

fn requests_reply_exec(p: &Vec<ShareRequest>) -> (r: String)
    ensures
        r@ == requests_reply(reqs_view(p@)),
{
    let ghost pv = reqs_view(p@);
    let n = p.len();
    if n == 0 {
        return String::from_str("No pending requests.");
    }
    let mut s = String::from_str("Pending requests:");
    let mut i: usize = 0;
    proof {
        assert(pv.take(0) =~= Seq::<ShareRequestV>::empty());
        assert(s@ =~= "Pending requests:"@ + request_lines(pv.take(0)));
    }
    while i < n
        invariant
            i <= n,
            n == p@.len(),
            pv == reqs_view(p@),
            s@ == "Pending requests:"@ + request_lines(pv.take(i as int)),
        decreases n - i,
    {
        s.append("\n@");
        s.append(p[i].sender.as_str());
        s.append(" wants to send '");
        s.append(p[i].filename.as_str());
        s.append("' (");
        let size_text = u64_to_dec(p[i].size);
        s.append(size_text.as_str());
        s.append(" bytes)");
        proof {
            lemma_request_lines_push(pv.take(i as int), pv[i as int]);
            assert(pv.take(i as int).push(pv[i as int]) =~= pv.take(i as int + 1));
            assert(s@ =~= "Pending requests:"@ + request_lines(pv.take(i as int + 1)));
        }
        i += 1;
    }
    proof {
        assert(pv.take(n as int) =~= pv);
    }
    s
}

/// Appending one request appends one line.
proof fn lemma_request_lines_push(a: Seq<ShareRequestV>, x: ShareRequestV)
    ensures
        request_lines(a.push(x)) == request_lines(a) + "\n@"@ + x.sender + " wants to send '"@
            + x.filename + "' ("@ + spec_dec(x.size as nat) + " bytes)"@,
    decreases a.len(),
{
    if a.len() == 0 {
        assert(a.push(x).drop_first() =~= Seq::<ShareRequestV>::empty());
        assert(a.push(x)[0] == x);
        assert(request_lines(Seq::<ShareRequestV>::empty()) == Seq::<char>::empty());
        assert(request_lines(a) == Seq::<char>::empty());
        assert(request_lines(a.push(x)) == "\n@"@ + x.sender + " wants to send '"@ + x.filename
            + "' ("@ + spec_dec(x.size as nat) + " bytes)"@ + request_lines(
            Seq::<ShareRequestV>::empty(),
        ));
        assert(request_lines(a.push(x)) =~= request_lines(a) + "\n@"@ + x.sender
            + " wants to send '"@ + x.filename + "' ("@ + spec_dec(x.size as nat) + " bytes)"@);
    } else {
        assert(a.push(x).drop_first() =~= a.drop_first().push(x));
        assert(a.push(x)[0] == a[0]);
        lemma_request_lines_push(a.drop_first(), x);
        assert(request_lines(a.push(x)) == "\n@"@ + a[0].sender + " wants to send '"@
            + a[0].filename + "' ("@ + spec_dec(a[0].size as nat) + " bytes)"@ + request_lines(
            a.drop_first().push(x),
        ));
        assert(request_lines(a) == "\n@"@ + a[0].sender + " wants to send '"@ + a[0].filename
            + "' ("@ + spec_dec(a[0].size as nat) + " bytes)"@ + request_lines(a.drop_first()));
        assert(request_lines(a.push(x)) =~= request_lines(a) + "\n@"@ + x.sender
            + " wants to send '"@ + x.filename + "' ("@ + spec_dec(x.size as nat) + " bytes)"@);
    }
}

fn file_missing_reply_exec(path: &String) -> (r: String)
    ensures
        r@ == file_missing_reply(path@),
{
    let mut s = String::from_str("File not found: '");
    s.append(path.as_str());
    s.append("'.");
    proof {
        assert(s@ =~= file_missing_reply(path@));
    }
    s
}

fn no_user_reply_exec(to: &String) -> (r: String)
    ensures
        r@ == no_user_reply(to@),
{
    let mut s = String::from_str("User @");
    s.append(to.as_str());
    s.append(" is not connected.");
    proof {
        assert(s@ =~= no_user_reply(to@));
    }
    s
}

fn glide_ok_reply_exec(path: &String, to: &String) -> (r: String)
    ensures
        r@ == glide_ok_reply(path@, to@),
{
    let mut s = String::from_str("Glide request for '");
    s.append(path.as_str());
    s.append("' sent to @");
    s.append(to.as_str());
    s.append(".");
    proof {
        assert(s@ =~= glide_ok_reply(path@, to@));
    }
    s
}

fn no_request_reply_exec(from: &String) -> (r: String)
    ensures
        r@ == no_request_reply(from@),
{
    let mut s = String::from_str("No pending request from @");
    s.append(from.as_str());
    s.append(".");
    proof {
        assert(s@ =~= no_request_reply(from@));
    }
    s
}

fn resolved_reply_exec(accept: bool, req: &ShareRequest) -> (r: String)
    ensures
        r@ == resolved_reply(accept, req@),
{
    let mut s = if accept {
        String::from_str("Accepted '")
    } else {
        String::from_str("Declined '")
    };
    s.append(req.filename.as_str());
    s.append("' from @");
    s.append(req.sender.as_str());
    s.append(".");
    proof {
        assert(s@ =~= resolved_reply(accept, req@));
    }
    s
}

fn help_reply_exec() -> (r: String)
    ensures
        r@ == help_reply(),
{
    String::from_str(
        "Commands:\n  list                 - list connected users\n  reqs                 - list pending share requests\n  glide <path> @<user> - offer a file to a user\n  ok @<user>           - accept that user's earliest request\n  no @<user>           - decline that user's earliest request\n  help [topic]         - show this message",
    )
}

fn invalid_reply_exec(text: &String) -> (r: String)
    ensures
        r@ == invalid_reply(text@),
{
    let mut s = String::from_str("Unrecognized command: '");
    s.append(text.as_str());
    s.append("'. Type 'help' for a list of commands.");
    proof {
        assert(s@ =~= invalid_reply(text@));
    }
    s
}

/// Whether a request from `from` awaits `me`.
pub open spec fn resolvable(s: Seq<ClientRecordV>, me: Seq<char>, from: Seq<char>) -> bool {
    has_user(s, me) && has_request(pending_of(s, me), from)
}

/// The registry after one command from `me`. `sz` is the filesystem's
/// answer for a glide path: the byte size, if the path names a regular
/// file. Only `glide`, `ok` and `no` can change the registry.
pub open spec fn spec_command_registry(
    s: Seq<ClientRecordV>,
    me: Seq<char>,
    c: CommandV,
    sz: Option<u64>,
) -> Seq<ClientRecordV> {
    match c {
        CommandV::Glide { path, to } => if sz is Some && has_user(s, to) {
            spec_add_request(s, to, ShareRequestV { sender: me, filename: path, size: sz->0 })
        } else {
            s
        },
        CommandV::Accept { from } => if resolvable(s, me, from) {
            spec_resolve(s, me, from)
        } else {
            s
        },
        CommandV::Decline { from } => if resolvable(s, me, from) {
            spec_resolve(s, me, from)
        } else {
            s
        },
        _ => s,
    }
}

/// The one reply to a command from `me` against registry `s`.
pub open spec fn spec_command_reply(
    s: Seq<ClientRecordV>,
    me: Seq<char>,
    c: CommandV,
    sz: Option<u64>,
) -> Seq<char> {
    match c {
        CommandV::List => list_reply(spec_others(s, me)),
        CommandV::Requests => requests_reply(pending_of(s, me)),
        CommandV::Glide { path, to } => if sz is None {
            file_missing_reply(path)
        } else if !has_user(s, to) {
            no_user_reply(to)
        } else {
            glide_ok_reply(path, to)
        },
        CommandV::Accept { from } => if resolvable(s, me, from) {
            resolved_reply(true, pending_of(s, me)[first_request(pending_of(s, me), from)])
        } else {
            no_request_reply(from)
        },
        CommandV::Decline { from } => if resolvable(s, me, from) {
            resolved_reply(false, pending_of(s, me)[first_request(pending_of(s, me), from)])
        } else {
            no_request_reply(from)
        },
        CommandV::Help(_) => help_reply(),
        CommandV::Invalid(text) => invalid_reply(text),
    }
}

/// Resolves the earliest request from `from` and reports the disposition,
/// or reports that nothing is pending.
fn resolve_exec(reg: &mut Registry, me: &String, from: &String, accept: bool) -> (reply: String)
    requires
        old(reg).wf(),
    ensures
        final(reg).wf(),
        resolvable(old(reg)@, me@, from@) ==> final(reg)@ == spec_resolve(old(reg)@, me@, from@)
            && reply@ == resolved_reply(
            accept,
            pending_of(old(reg)@, me@)[first_request(pending_of(old(reg)@, me@), from@)],
        ),
        !resolvable(old(reg)@, me@, from@) ==> final(reg)@ == old(reg)@ && reply@
            == no_request_reply(from@),
{
    match reg.resolve_request(me, from, accept) {
        Ok(req) => resolved_reply_exec(accept, &req),
        Err(_) => no_request_reply_exec(from),
    }
}

/// Dispatches one parsed command for the registered user `me`, mutating
/// the registry as the command demands and returning exactly one reply.
/// `glide_size` is the filesystem's answer for the command's glide path
/// (`None` for no regular file there); it is ignored for other commands.
pub fn handle_command(reg: &mut Registry, me: &String, cmd: Command, glide_size: Option<u64>) -> (reply:
    String)
    requires
        old(reg).wf(),
    ensures
        final(reg).wf(),
        final(reg)@ == spec_command_registry(old(reg)@, me@, cmd@, glide_size),
        reply@ == spec_command_reply(old(reg)@, me@, cmd@, glide_size),
{
    match cmd {
        Command::List => {
            let names = reg.list_others(me);
            list_reply_exec(&names)
        },
        Command::Requests => {
            let p = reg.list_pending(me);
            requests_reply_exec(&p)
        },
        Command::Glide { path, to } => {
            match glide_size {
                None => file_missing_reply_exec(&path),
                Some(size) => {
                    let req = ShareRequest {
                        sender: me.clone(),
                        filename: path.clone(),
                        size,
                    };
                    match reg.add_request(&to, req) {
                        Ok(()) => glide_ok_reply_exec(&path, &to),
                        Err(_) => no_user_reply_exec(&to),
                    }
                },
            }
        },
        Command::Accept { from } => resolve_exec(reg, me, &from, true),
        Command::Decline { from } => resolve_exec(reg, me, &from, false),
        Command::Help(_) => help_reply_exec(),
        Command::Invalid(text) => invalid_reply_exec(&text),
    }
}

/// Where a connection stands: no name yet, registered under a name, or
/// torn down.
#[derive(Debug, PartialEq, Eq)]
pub enum SessionState {
    Unauthenticated,
    Registered(String),
    Closed,
}

/// Mathematical image of a [`SessionState`].
pub enum SessionStateV {
    Unauthenticated,
    Registered(Seq<char>),
    Closed,
}

impl View for SessionState {
    type V = SessionStateV;

    open spec fn view(&self) -> SessionStateV {
        match self {
            SessionState::Unauthenticated => SessionStateV::Unauthenticated,
            SessionState::Registered(name) => SessionStateV::Registered(name@),
            SessionState::Closed => SessionStateV::Closed,
        }
    }
}

/// What the session sends back for one incoming message.
#[derive(Debug, PartialEq, Eq)]
pub enum Reply {
    /// A protocol control message, sent as a frame.
    Control(Transmission),
    /// A command reply, sent as a text frame.
    Text(String),
    /// Nothing; the message was ignored.
    Silent,
}

/// Mathematical image of a [`Reply`].
pub enum ReplyV {
    Control(TransmissionV),
    Text(Seq<char>),
    Silent,
}

impl View for Reply {
    type V = ReplyV;

    open spec fn view(&self) -> ReplyV {
        match self {
            Reply::Control(t) => ReplyV::Control(t@),
            Reply::Text(s) => ReplyV::Text(s@),
            Reply::Silent => ReplyV::Silent,
        }
    }
}

/// The whole state machine: next session state, next registry, and reply
/// for one incoming message.
///
/// Unauthenticated: only a `Username` message matters — it is answered
/// `UsernameInvalid`, `UsernameTaken`, or `UsernameOk` (registering the
/// name); everything else is ignored without reply. Registered: a
/// `Command` is parsed and dispatched, always with exactly one text
/// reply; `ClientDisconnected` runs cleanup and closes; anything else is
/// ignored. Closed is terminal.
pub open spec fn spec_step(
    st: SessionStateV,
    s: Seq<ClientRecordV>,
    t: TransmissionV,
    peer: Seq<char>,
    sz: Option<u64>,
) -> (SessionStateV, Seq<ClientRecordV>, ReplyV) {
    match st {
        SessionStateV::Unauthenticated => match t {
            TransmissionV::Username(name) => if !valid_username(name) {
                (
                    SessionStateV::Unauthenticated,
                    s,
                    ReplyV::Control(TransmissionV::UsernameInvalid),
                )
            } else if has_user(s, name) {
                (SessionStateV::Unauthenticated, s, ReplyV::Control(TransmissionV::UsernameTaken))
            } else {
                (
                    SessionStateV::Registered(name),
                    spec_register(s, name, peer),
                    ReplyV::Control(TransmissionV::UsernameOk),
                )
            },
            _ => (SessionStateV::Unauthenticated, s, ReplyV::Silent),
        },
        SessionStateV::Registered(me) => match t {
            TransmissionV::Command(line) => (
                SessionStateV::Registered(me),
                spec_command_registry(s, me, parse_spec(line), sz),
                ReplyV::Text(spec_command_reply(s, me, parse_spec(line), sz)),
            ),
            TransmissionV::ClientDisconnected => (
                SessionStateV::Closed,
                spec_unregister(s, me),
                ReplyV::Silent,
            ),
            _ => (SessionStateV::Registered(me), s, ReplyV::Silent),
        },
        SessionStateV::Closed => (SessionStateV::Closed, s, ReplyV::Silent),
    }
}

/// Drives the session one step: takes the current state, the shared
/// registry, one decoded message, the peer's address (recorded at
/// registration), and the filesystem's answer for a glide path. Returns
/// the next state and the reply to send, and leaves the registry as the
/// machine demands. The caller runs this under the registry lock and does
/// the I/O around it.
pub fn session_step(
    state: SessionState,
    reg: &mut Registry,
    t: Transmission,
    peer: &String,
    glide_size: Option<u64>,
) -> (r: (SessionState, Reply))
    requires
        old(reg).wf(),
    ensures
        final(reg).wf(),
        (r.0@, final(reg)@, r.1@) == spec_step(state@, old(reg)@, t@, peer@, glide_size),
{
    match state {
        SessionState::Unauthenticated => {
            match t {
                Transmission::Username(name) => {
                    if !validate_username(name.as_str()) {
                        (
                            SessionState::Unauthenticated,
                            Reply::Control(Transmission::UsernameInvalid),
                        )
                    } else if reg.is_registered(&name) {
                        (
                            SessionState::Unauthenticated,
                            Reply::Control(Transmission::UsernameTaken),
                        )
                    } else {
                        match reg.register(name.clone(), peer.clone()) {
                            Ok(()) => (
                                SessionState::Registered(name),
                                Reply::Control(Transmission::UsernameOk),
                            ),
                            Err(_) => vstd::pervasive::unreached(),
                        }
                    }
                },
                _ => (SessionState::Unauthenticated, Reply::Silent),
            }
        },
        SessionState::Registered(me) => {
            match t {
                Transmission::Command(line) => {
                    let cmd = parse(line.as_str());
                    let reply = handle_command(reg, &me, cmd, glide_size);
                    (SessionState::Registered(me), Reply::Text(reply))
                },
                Transmission::ClientDisconnected => {
                    reg.unregister(&me);
                    (SessionState::Closed, Reply::Silent)
                },
                _ => (SessionState::Registered(me), Reply::Silent),
            }
        },
        SessionState::Closed => (SessionState::Closed, Reply::Silent),
    }
}

} // verus!
