//! The mailbox retrieval protocol: its reply grammar and its session state machine.

use vstd::prelude::*;
use vstd::string::StringSliceAdditionalSpecFns;
use vstd::utf8::encode_utf8;
use crate::smtp::State;
use crate::text::{
    chars_of, concat3, decimal, flatten, decimal_exec, digits_value, has_prefix, is_number, occurs_at_exec,
    lemma_encode_utf8_concat, parse_number, push_str_chars, skip_run, skip_white, skip_word, starts_with, string_of,
    strip_terminator, without_terminator,
};
use crate::tcp;
use crate::util::MailError;

verus! {

/// One reply line of the retrieval protocol.
#[derive(Debug, Clone, PartialEq, Eq)]
pub enum Response {
    Success(String),
    Failure(String),
}

/// What a reply line says, as text.
pub enum ReplyView {
    Success(Seq<char>),
    Failure(Seq<char>),
}

/// The reply grammar: `"+OK " + text` is success, `"-ERR " + text` is failure,
/// anything else is no reply.
pub open spec fn reply_of(s: Seq<char>) -> Option<ReplyView> {
    if has_prefix(s, "+OK "@) {
        Some(ReplyView::Success(s.subrange(4, s.len() as int)))
    } else if has_prefix(s, "-ERR "@) {
        Some(ReplyView::Failure(s.subrange(5, s.len() as int)))
    } else {
        None
    }
}

pub open spec fn response_view(r: Response) -> ReplyView {
    match r {
        Response::Success(t) => ReplyView::Success(t@),
        Response::Failure(t) => ReplyView::Failure(t@),
    }
}

/// Parses one reply line, taken exactly as given.
pub fn parse_response(response: &str) -> (r: Result<Response, MailError>)
    ensures
        match r {
            Ok(resp) => reply_of(response@) == Some(response_view(resp)),
            Err(e) => reply_of(response@) is None
                && (e matches MailError::POP3ResponseParseError(t) && t@ == response@),
        },
{
    proof {
        reveal_strlit("+OK ");
        reveal_strlit("-ERR ");
    }
    let v = chars_of(response);
    if starts_with(&v, "+OK ") {
        Ok(Response::Success(string_of(&v, 4, v.len())))
    } else if starts_with(&v, "-ERR ") {
        Ok(Response::Failure(string_of(&v, 5, v.len())))
    } else {
        Err(MailError::POP3ResponseParseError(string_of(&v, 0, v.len())))
    }
}

/// Success text is handed back unchanged, failure text likewise, and no
/// other line is a reply.
pub proof fn lemma_reply_grammar(t: Seq<char>, s: Seq<char>)
    ensures
        reply_of("+OK "@ + t) == Some(ReplyView::Success(t)),
        reply_of("-ERR "@ + t) == Some(ReplyView::Failure(t)),
        reply_of(s) is Some <==> (has_prefix(s, "+OK "@) || has_prefix(s, "-ERR "@)),
{
    reveal_strlit("+OK ");
    reveal_strlit("-ERR ");
    let a = "+OK "@ + t;
    let b = "-ERR "@ + t;
    assert(a.subrange(0, 4) =~= "+OK "@);
    assert(a.subrange(4, a.len() as int) =~= t);
    assert(b.subrange(0, 5) =~= "-ERR "@);
    assert(b.subrange(5, b.len() as int) =~= t);
    assert(!has_prefix(b, "+OK "@)) by {
        assert(b.subrange(0, 4)[0] == '-');
    }
}

/// The two numbers of a status or listing body: exactly two words separated
/// by white space (white space may also lead and trail), both numbers.
pub open spec fn status_pair(s: Seq<char>) -> Option<(nat, nat)> {
    let i = skip_white(s, 0);
    let j = skip_word(s, i);
    let k = skip_white(s, j);
    let l = skip_word(s, k);
    if skip_white(s, l) == s.len() && is_number(s.subrange(i, j)) && is_number(s.subrange(k, l)) {
        Some((digits_value(s.subrange(i, j)), digits_value(s.subrange(k, l))))
    } else {
        None
    }
}

/// Parses the body of a status or listing reply: two numbers separated by
/// white space, as `(count, total bytes)` or `(sequence number, size)`.
pub fn parse_status_response(response: &str) -> (r: Result<(usize, usize), MailError>)
    ensures
        match r {
            Ok((a, b)) => status_pair(response@) == Some((a as nat, b as nat)),
            Err(e) => status_pair(response@) is None
                && (e matches MailError::POP3StatusParseError(t) && t@ == response@),
        },
{
    let v = chars_of(response);
    let fail = MailError::POP3StatusParseError(string_of(&v, 0, v.len()));
    assert(v@.subrange(0, v@.len() as int) =~= v@);
    let i = skip_run(&v, 0, true);
    let j = skip_run(&v, i, false);
    let k = skip_run(&v, j, true);
    let l = skip_run(&v, k, false);
    if skip_run(&v, l, true) != v.len() {
        return Err(fail);
    }
    match (parse_number(&v, i, j), parse_number(&v, k, l)) {
        (Some(a), Some(b)) => Ok((a, b)),
        _ => Err(fail),
    }
}

/// `s` is `<number> octets`.
pub open spec fn is_octets_line(s: Seq<char>) -> bool {
    &&& s.len() >= 7
    &&& s.subrange(s.len() - 7, s.len() as int) == " octets"@
    &&& is_number(s.subrange(0, s.len() - 7))
}

/// Parses the first line of a retrieval reply, `<number> octets`, into the
/// declared length.
pub fn parse_retr_octets_count(response: &str) -> (r: Result<usize, MailError>)
    ensures
        match r {
            Ok(n) => is_octets_line(response@)
                && n == digits_value(response@.subrange(0, response@.len() - 7)),
            Err(e) => !is_octets_line(response@)
                && (e matches MailError::POP3OctetsParseError(t) && t@ == response@),
        },
{
    proof {
        reveal_strlit(" octets");
    }
    let v = chars_of(response);
    let fail = MailError::POP3OctetsParseError(string_of(&v, 0, v.len()));
    assert(v@.subrange(0, v@.len() as int) =~= v@);
    if v.len() < 7 {
        return Err(fail);
    }
    let suffix = chars_of(" octets");
    if !occurs_at_exec(&v, &suffix, v.len() - 7) {
        return Err(fail);
    }
    match parse_number(&v, 0, v.len() - 7) {
        Some(n) => Ok(n),
        None => Err(fail),
    }
}


// ---------------------------------------------------------------- session

/// The reply a retrieval session waits for.
#[derive(Clone, Copy, Debug, PartialEq, Eq, Structural)]
pub enum Exchange {
    Greeting,
    User,
    Pass,
    Noop,
    Stat,
    List,
    Retr,
    /// The reply to `top`, with the number of lines asked for.
    Top(usize),
    /// Further lines of a retrieved message.
    Body,
    /// The reply to `dele` for this message.
    Dele(usize),
    Rset,
    Quit,
}

/// When the lines of a retrieved message are complete.
#[derive(Clone, Copy, Debug, PartialEq, Eq, Structural)]
pub enum BodyEnd {
    /// Once the text holds at least this many bytes.
    Octets(usize),
    /// Once this many lines have been read.
    Lines(usize),
}

/// A retrieval session.
pub struct Client {
    client: tcp::Client,
    name: String,
    account: Option<String>,
    password: Option<String>,
    dele_list: Vec<usize>,
    state: State,
    debug: bool,
    awaiting: Option<Exchange>,
    head: String,
    body: String,
    body_len: usize,
    lines_read: usize,
    body_end: BodyEnd,
    consumed: Ghost<Seq<Seq<char>>>,
}

/// A retrieval session as values.
pub struct ClientView {
    pub host_name: Seq<char>,
    pub port: u16,
    /// The terminator the transport appends to each line.
    pub end_pointer: Seq<char>,
    pub name: Seq<char>,
    pub account: Option<Seq<char>>,
    pub password: Option<Seq<char>>,
    /// The messages staged for deletion, in the order they were marked.
    pub deletes: Seq<usize>,
    pub state: State,
    pub debug: bool,
    pub awaiting: Option<Exchange>,
    /// The text that precedes the lines of a `top` result.
    pub head: Seq<char>,
    pub body_end: BodyEnd,
    /// The message lines read since the retrieval began, in order.
    pub consumed: Seq<Seq<char>>,
}

pub open spec fn text_opt(o: Option<String>) -> Option<Seq<char>> {
    match o {
        Some(s) => Some(s@),
        None => None,
    }
}

impl View for Client {
    type V = ClientView;

    closed spec fn view(&self) -> ClientView {
        ClientView {
            host_name: self.client.host_name()@,
            port: self.client.port(),
            end_pointer: self.client.end_pointer()@,
            name: self.name@,
            account: text_opt(self.account),
            password: text_opt(self.password),
            deletes: self.dele_list@,
            state: self.state,
            debug: self.debug,
            awaiting: self.awaiting,
            head: self.head@,
            body_end: self.body_end,
            consumed: self.consumed@,
        }
    }
}

/// Whether the message lines read so far complete the retrieval: for a
/// declared octet count, once their UTF-8 encoding holds that many bytes.
pub open spec fn body_complete(end: BodyEnd, consumed: Seq<Seq<char>>) -> bool {
    match end {
        BodyEnd::Octets(d) => encode_utf8(flatten(consumed)).len() >= d,
        BodyEnd::Lines(k) => consumed.len() >= k,
    }
}

/// The session's invariant: no message is staged twice; each awaited reply
/// belongs to one state; a retrieval in progress is not yet complete.
pub open spec fn view_wf(v: ClientView) -> bool {
    &&& v.deletes.no_duplicates()
    &&& (v.awaiting == Some(Exchange::Greeting) ==> v.state == State::Init)
    &&& ((v.awaiting == Some(Exchange::User) || v.awaiting == Some(Exchange::Pass)) ==> v.state
        == State::TCPConnected && v.password is Some)
    &&& ((v.awaiting == Some(Exchange::Noop) || v.awaiting == Some(Exchange::Quit)) ==> v.state
        != State::Init)
    &&& ((v.awaiting == Some(Exchange::Stat) || v.awaiting == Some(Exchange::List) || v.awaiting
        == Some(Exchange::Retr) || v.awaiting == Some(Exchange::Body) || v.awaiting == Some(Exchange::Rset)
        || v.awaiting matches Some(Exchange::Top(_)) || v.awaiting matches Some(Exchange::Dele(_)))
        ==> v.state == State::Authorized)
    &&& (v.awaiting == Some(Exchange::Body) ==> !body_complete(v.body_end, v.consumed))
    &&& (v.awaiting matches Some(Exchange::Dele(n)) ==> !v.deletes.contains(n))
}

/// The exchange is over; nothing else changes.
pub open spec fn idle(v: ClientView) -> ClientView {
    ClientView { awaiting: None, ..v }
}

/// The exchange `e` is awaited next.
pub open spec fn awaits(v: ClientView, e: Exchange) -> ClientView {
    ClientView { awaiting: Some(e), ..v }
}

/// A received status line, its terminator removed, read by the reply grammar.
pub open spec fn answer(line: Seq<char>) -> Option<ReplyView> {
    reply_of(without_terminator(line))
}

/// The error for a status line that is a failure or no reply at all.
pub open spec fn refusal_is(line: Seq<char>, e: MailError) -> bool {
    match answer(line) {
        Some(ReplyView::Failure(t)) => e matches MailError::POP3ErrResponse(u) && u@ == t,
        None => e matches MailError::POP3ResponseParseError(u) && u@ == without_terminator(line),
        _ => false,
    }
}

impl Client {
    pub closed spec fn wf(&self) -> bool {
        &&& view_wf(self@)
        &&& (self.body_end is Octets ==> self.body_len == encode_utf8(flatten(self.consumed@)).len())
        &&& (self.body_end is Lines ==> self.lines_read == self.consumed@.len())
        &&& self.body@ == flatten(self.consumed@)
    }

    /// A well-formed session's view meets the session invariant.
    pub proof fn lemma_wf(&self)
        requires
            self.wf(),
        ensures
            view_wf(self@),
    {
    }

    /// A session with the retrieval port, no credentials and nothing staged.
    pub fn new(host_name: String, name: String) -> (r: Client)
        ensures
            r.wf(),
            r@.host_name == host_name@,
            r@.port == 110,
            r@.end_pointer == "\r\n"@,
            r@.name == name@,
            r@.account is None,
            r@.password is None,
            r@.deletes.len() == 0,
            r@.state == State::Init,
            !r@.debug,
            r@.awaiting is None,
    {
        let mut client = tcp::Client::new(host_name, 110);
        client.set_end_pointer(concat3("\r\n", "", ""));
        proof {
            reveal_strlit("");
            assert("\r\n"@ + ""@ + ""@ =~= "\r\n"@);
        }
        Client {
            client,
            name,
            account: None,
            password: None,
            dele_list: Vec::new(),
            state: State::Init,
            debug: false,
            awaiting: None,
            head: String::new(),
            body: String::new(),
            body_len: 0,
            lines_read: 0,
            body_end: BodyEnd::Lines(0),
            consumed: Ghost(Seq::empty()),
        }
    }

    /// The transport settings: host, port and line terminator.
    pub fn transport(&self) -> (r: &tcp::Client)
        ensures
            r.host_name()@ == self@.host_name,
            r.port() == self@.port,
            r.end_pointer()@ == self@.end_pointer,
    {
        &self.client
    }

    pub fn state(&self) -> (r: State)
        ensures
            r == self@.state,
    {
        self.state
    }

    pub fn is_debug(&self) -> (r: bool)
        ensures
            r == self@.debug,
    {
        self.debug
    }

    pub fn debug(&mut self)
        requires
            old(self).wf(),
        ensures
            final(self).wf(),
            final(self)@ == (ClientView { debug: !old(self)@.debug, ..old(self)@ }),
    {
        self.debug = !self.debug;
    }

    /// The messages staged for deletion, in the order they were marked.
    pub fn display_delete_list(&self) -> (r: Vec<usize>)
        ensures
            r@ == self@.deletes,
    {
        let mut out: Vec<usize> = Vec::new();
        let mut i: usize = 0;
        while i < self.dele_list.len()
            invariant
                i <= self.dele_list@.len(),
                out@ == self.dele_list@.subrange(0, i as int),
            decreases self.dele_list.len() - i,
        {
            out.push(self.dele_list[i]);
            i = i + 1;
            assert(out@ =~= self.dele_list@.subrange(0, i as int));
        }
        assert(self.dele_list@.subrange(0, i as int) =~= self.dele_list@);
        out
    }

    /// Drops the session back to `Init` without a goodbye, clearing the debug
    /// flag, the staged deletions and any exchange in progress.
    pub fn reset_client(&mut self)
        requires
            old(self).wf(),
        ensures
            final(self).wf(),
            final(self)@ == (ClientView {
                state: State::Init,
                debug: false,
                deletes: Seq::empty(),
                awaiting: None,
                ..old(self)@
            }),
    {
        self.state = State::Init;
        self.debug = false;
        self.dele_list = Vec::new();
        self.awaiting = None;
        assert(self@.deletes =~= Seq::<usize>::empty());
    }

    /// Reads the status line awaited for `expected`: its success text, or the
    /// failure; either way the exchange is over.
    fn read_status(&mut self, expected: Exchange, line: &str) -> (r: Result<String, MailError>)
        requires
            old(self).wf(),
        ensures
            final(self).wf(),
            old(self)@.awaiting != Some(expected) ==> (r matches Err(MailError::SessionStateError)
                && final(self)@ == old(self)@),
            old(self)@.awaiting == Some(expected) ==> final(self)@ == idle(old(self)@) && match r {
                Ok(t) => answer(line@) == Some(ReplyView::Success(t@)),
                Err(e) => refusal_is(line@, e),
            },
    {
        if self.awaiting != Some(expected) {
            return Err(MailError::SessionStateError);
        }
        self.awaiting = None;
        let stripped = strip_terminator(line);
        match parse_response(stripped.as_str()) {
            Ok(Response::Success(t)) => Ok(t),
            Ok(Response::Failure(t)) => Err(MailError::POP3ErrResponse(t)),
            Err(e) => Err(e),
        }
    }

    /// Starts a session: from `Init`, the greeting is awaited next (the
    /// caller opens the connection and hands the first line to `connect_reply`).
    pub fn connect(&mut self) -> (r: Result<(), MailError>)
        requires
            old(self).wf(),
        ensures
            final(self).wf(),
            old(self)@.state == State::Init ==> r is Ok && final(self)@ == awaits(old(self)@, Exchange::Greeting),
            old(self)@.state != State::Init ==> (r matches Err(MailError::SessionStateError)
                && final(self)@ == old(self)@),
    {
        if self.state != State::Init {
            return Err(MailError::SessionStateError);
        }
        self.awaiting = Some(Exchange::Greeting);
        Ok(())
    }

    /// Reads the greeting; a success greeting moves the session to `TCPConnected`.
    pub fn connect_reply(&mut self, line: &str) -> (r: Result<String, MailError>)
        requires
            old(self).wf(),
        ensures
            final(self).wf(),
            old(self)@.awaiting != Some(Exchange::Greeting) ==> (r matches Err(MailError::SessionStateError)
                && final(self)@ == old(self)@),
            old(self)@.awaiting == Some(Exchange::Greeting) ==> match r {
                Ok(t) => answer(line@) == Some(ReplyView::Success(t@))
                    && final(self)@ == (ClientView { state: State::TCPConnected, ..idle(old(self)@) }),
                Err(e) => refusal_is(line@, e) && final(self)@ == idle(old(self)@),
            },
    {
        let r = self.read_status(Exchange::Greeting, line);
        if r.is_ok() {
            self.state = State::TCPConnected;
        }
        r
    }

    /// Checks the connection with a no-op; the command to send.
    pub fn connection_test(&mut self) -> (r: Result<String, MailError>)
        requires
            old(self).wf(),
        ensures
            final(self).wf(),
            old(self)@.state == State::Init ==> (r matches Err(MailError::SessionStateError)
                && final(self)@ == old(self)@),
            old(self)@.state != State::Init ==> (r matches Ok(c) && c@ == "noop"@
                && final(self)@ == awaits(old(self)@, Exchange::Noop)),
    {
        self.simple_command(Exchange::Noop, "noop", false)
    }

    /// Reads the reply to the no-op; nothing else changes.
    pub fn connection_test_reply(&mut self, line: &str) -> (r: Result<String, MailError>)
        requires
            old(self).wf(),
        ensures
            final(self).wf(),
            old(self)@.awaiting != Some(Exchange::Noop) ==> (r matches Err(MailError::SessionStateError)
                && final(self)@ == old(self)@),
            old(self)@.awaiting == Some(Exchange::Noop) ==> final(self)@ == idle(old(self)@) && match r {
                Ok(t) => answer(line@) == Some(ReplyView::Success(t@)),
                Err(e) => refusal_is(line@, e),
            },
    {
        self.read_status(Exchange::Noop, line)
    }

    /// A command without argument, allowed in `Authorized` only when
    /// `authorized_only`, else in any state but `Init`.
    fn simple_command(&mut self, e: Exchange, command: &str, authorized_only: bool) -> (r: Result<String, MailError>)
        requires
            old(self).wf(),
            e == Exchange::Noop || e == Exchange::Quit || e == Exchange::Stat || e == Exchange::Rset,
            authorized_only <==> (e == Exchange::Stat || e == Exchange::Rset),
        ensures
            final(self).wf(),
            (if authorized_only {
                old(self)@.state != State::Authorized
            } else {
                old(self)@.state == State::Init
            }) ==> (r matches Err(MailError::SessionStateError) && final(self)@ == old(self)@),
            !(if authorized_only {
                old(self)@.state != State::Authorized
            } else {
                old(self)@.state == State::Init
            }) ==> (r matches Ok(c) && c@ == command@ && final(self)@ == awaits(old(self)@, e)),
    {
        if (authorized_only && self.state != State::Authorized) || (!authorized_only && self.state
            == State::Init) {
            return Err(MailError::SessionStateError);
        }
        self.awaiting = Some(e);
        let c = concat3(command, "", "");
        proof {
            reveal_strlit("");
            assert(c@ =~= command@);
        }
        Ok(c)
    }

    /// Starts the two-step login from `TCPConnected`: the account command to send.
    pub fn login(&mut self, account: String, password: String) -> (r: Result<String, MailError>)
        requires
            old(self).wf(),
        ensures
            final(self).wf(),
            old(self)@.state != State::TCPConnected ==> (r matches Err(MailError::SessionStateError)
                && final(self)@ == old(self)@),
            old(self)@.state == State::TCPConnected ==> (r matches Ok(c) && c@ == "user "@ + account@
                && final(self)@ == (ClientView {
                    account: Some(account@),
                    password: Some(password@),
                    awaiting: Some(Exchange::User),
                    ..old(self)@
                })),
    {
        if self.state != State::TCPConnected {
            return Err(MailError::SessionStateError);
        }
        let c = concat3("user ", account.as_str(), "");
        proof {
            reveal_strlit("");
            assert(c@ =~= "user "@ + account@);
        }
        self.account = Some(account);
        self.password = Some(password);
        self.awaiting = Some(Exchange::User);
        Ok(c)
    }

    /// Reads a reply of the login. After the account step succeeds, the
    /// secret command to send; after the secret step succeeds, nothing, and
    /// the session is `Authorized`. A failure at either step ends the login
    /// with the session still `TCPConnected`.
    pub fn login_reply(&mut self, line: &str) -> (r: Result<Option<String>, MailError>)
        requires
            old(self).wf(),
        ensures
            final(self).wf(),
            !(old(self)@.awaiting == Some(Exchange::User) || old(self)@.awaiting == Some(Exchange::Pass))
                ==> (r matches Err(MailError::SessionStateError) && final(self)@ == old(self)@),
            old(self)@.awaiting == Some(Exchange::User) ==> match r {
                Ok(Some(c)) => answer(line@) is Some && answer(line@)->0 is Success
                    && c@ == "pass "@ + old(self)@.password->0
                    && final(self)@ == awaits(old(self)@, Exchange::Pass),
                Ok(None) => false,
                Err(e) => refusal_is(line@, e) && final(self)@ == idle(old(self)@),
            },
            old(self)@.awaiting == Some(Exchange::Pass) ==> match r {
                Ok(Some(_)) => false,
                Ok(None) => answer(line@) is Some && answer(line@)->0 is Success
                    && final(self)@ == (ClientView { state: State::Authorized, ..idle(old(self)@) }),
                Err(e) => refusal_is(line@, e) && final(self)@ == idle(old(self)@),
            },
    {
        if self.awaiting == Some(Exchange::User) {
            match self.read_status(Exchange::User, line) {
                Ok(_) => {
                    let c = match &self.password {
                        Some(p) => concat3("pass ", p.as_str(), ""),
                        None => String::new(),
                    };
                    proof {
                        reveal_strlit("");
                    }
                    assert(c@ =~= "pass "@ + old(self)@.password->0);
                    self.awaiting = Some(Exchange::Pass);
                    Ok(Some(c))
                },
                Err(e) => Err(e),
            }
        } else if self.awaiting == Some(Exchange::Pass) {
            match self.read_status(Exchange::Pass, line) {
                Ok(_) => {
                    self.state = State::Authorized;
                    Ok(None)
                },
                Err(e) => Err(e),
            }
        } else {
            Err(MailError::SessionStateError)
        }
    }

    /// Asks for the mailbox status; the command to send.
    pub fn status_query(&mut self) -> (r: Result<String, MailError>)
        requires
            old(self).wf(),
        ensures
            final(self).wf(),
            old(self)@.state != State::Authorized ==> (r matches Err(MailError::SessionStateError)
                && final(self)@ == old(self)@),
            old(self)@.state == State::Authorized ==> (r matches Ok(c) && c@ == "stat"@
                && final(self)@ == awaits(old(self)@, Exchange::Stat)),
    {
        self.simple_command(Exchange::Stat, "stat", true)
    }

    /// Reads the status reply: the message count and the total size.
    pub fn status_query_reply(&mut self, line: &str) -> (r: Result<(usize, usize), MailError>)
        requires
            old(self).wf(),
        ensures
            final(self).wf(),
            old(self)@.awaiting != Some(Exchange::Stat) ==> (r matches Err(MailError::SessionStateError)
                && final(self)@ == old(self)@),
            old(self)@.awaiting == Some(Exchange::Stat) ==> final(self)@ == idle(old(self)@)
                && pair_reply(line@, r),
    {
        let t = self.read_status(Exchange::Stat, line);
        match t {
            Ok(t) => {
                parse_status_response(t.as_str())
            },
            Err(e) => Err(e),
        }
    }

    /// Asks for the size of message `order_number`; the command to send.
    pub fn mail_info_short(&mut self, order_number: usize) -> (r: Result<String, MailError>)
        requires
            old(self).wf(),
        ensures
            final(self).wf(),
            old(self)@.state != State::Authorized ==> (r matches Err(MailError::SessionStateError)
                && final(self)@ == old(self)@),
            old(self)@.state == State::Authorized ==> (r matches Ok(c)
                && c@ == "list "@ + decimal(order_number as nat)
                && final(self)@ == awaits(old(self)@, Exchange::List)),
    {
        if self.state != State::Authorized {
            return Err(MailError::SessionStateError);
        }
        self.awaiting = Some(Exchange::List);
        let n = decimal_exec(order_number);
        let c = concat3("list ", n.as_str(), "");
        proof {
            reveal_strlit("");
            assert(c@ =~= "list "@ + decimal(order_number as nat));
        }
        Ok(c)
    }

    /// Reads the listing reply: the message number and its size.
    pub fn mail_info_short_reply(&mut self, line: &str) -> (r: Result<(usize, usize), MailError>)
        requires
            old(self).wf(),
        ensures
            final(self).wf(),
            old(self)@.awaiting != Some(Exchange::List) ==> (r matches Err(MailError::SessionStateError)
                && final(self)@ == old(self)@),
            old(self)@.awaiting == Some(Exchange::List) ==> final(self)@ == idle(old(self)@)
                && pair_reply(line@, r),
    {
        let t = self.read_status(Exchange::List, line);
        match t {
            Ok(t) => {
                parse_status_response(t.as_str())
            },
            Err(e) => Err(e),
        }
    }

    /// Asks for message `order_number` whole; the command to send.
    pub fn get_mail_by_order(&mut self, order_number: usize) -> (r: Result<String, MailError>)
        requires
            old(self).wf(),
        ensures
            final(self).wf(),
            old(self)@.state != State::Authorized ==> (r matches Err(MailError::SessionStateError)
                && final(self)@ == old(self)@),
            old(self)@.state == State::Authorized ==> (r matches Ok(c)
                && c@ == "retr "@ + decimal(order_number as nat)
                && final(self)@ == awaits(old(self)@, Exchange::Retr)),
    {
        if self.state != State::Authorized {
            return Err(MailError::SessionStateError);
        }
        self.awaiting = Some(Exchange::Retr);
        let n = decimal_exec(order_number);
        let c = concat3("retr ", n.as_str(), "");
        proof {
            reveal_strlit("");
            assert(c@ =~= "retr "@ + decimal(order_number as nat));
        }
        Ok(c)
    }

    fn start_body(&mut self, head: String, end: BodyEnd)
        requires
            old(self).wf(),
            old(self)@.state == State::Authorized,
            !body_complete(end, Seq::empty()),
        ensures
            final(self).wf(),
            final(self)@ == (ClientView {
                awaiting: Some(Exchange::Body),
                head: head@,
                body_end: end,
                consumed: Seq::empty(),
                ..old(self)@
            }),
    {
        self.head = head;
        self.body = String::new();
        self.body_len = 0;
        self.lines_read = 0;
        self.body_end = end;
        self.consumed = Ghost(Seq::empty());
        self.awaiting = Some(Exchange::Body);
    }

    /// Reads the first line of a retrieval, `+OK <n> octets`. With `n` zero
    /// the (empty) message is complete at once; otherwise its lines follow,
    /// for `body_line`.
    pub fn retr_reply(&mut self, line: &str) -> (r: Result<Option<String>, MailError>)
        requires
            old(self).wf(),
        ensures
            final(self).wf(),
            old(self)@.awaiting != Some(Exchange::Retr) ==> (r matches Err(MailError::SessionStateError)
                && final(self)@ == old(self)@),
            old(self)@.awaiting == Some(Exchange::Retr) ==> match answer(line@) {
                Some(ReplyView::Success(t)) => if !is_octets_line(t) {
                    (r matches Err(MailError::POP3OctetsParseError(u)) && u@ == t)
                        && final(self)@ == idle(old(self)@)
                } else if digits_value(t.subrange(0, t.len() - 7)) == 0 {
                    (r matches Ok(Some(b)) && b@.len() == 0) && final(self)@ == idle(old(self)@)
                } else {
                    r matches Ok(None) && final(self)@ == (ClientView {
                        awaiting: Some(Exchange::Body),
                        head: Seq::empty(),
                        body_end: BodyEnd::Octets(digits_value(t.subrange(0, t.len() - 7)) as usize),
                        consumed: Seq::empty(),
                        ..old(self)@
                    })
                },
                _ => (r matches Err(e) && refusal_is(line@, e)) && final(self)@ == idle(old(self)@),
            },
    {
        let t = match self.read_status(Exchange::Retr, line) {
            Ok(t) => t,
            Err(e) => {
                return Err(e);
            },
        };
        match parse_retr_octets_count(t.as_str()) {
            Err(e) => Err(e),
            Ok(n) => {
                if n == 0 {
                    Ok(Some(String::new()))
                } else {
                    self.start_body(String::new(), BodyEnd::Octets(n));
                    Ok(None)
                }
            },
        }
    }

    /// Asks for the headers and first `top_line` lines of message
    /// `order_number`; the command to send.
    pub fn top(&mut self, order_number: usize, top_line: usize) -> (r: Result<String, MailError>)
        requires
            old(self).wf(),
        ensures
            final(self).wf(),
            old(self)@.state != State::Authorized ==> (r matches Err(MailError::SessionStateError)
                && final(self)@ == old(self)@),
            old(self)@.state == State::Authorized ==> (r matches Ok(c)
                && c@ == "top "@ + decimal(order_number as nat) + " "@ + decimal(top_line as nat)
                && final(self)@ == awaits(old(self)@, Exchange::Top(top_line))),
    {
        if self.state != State::Authorized {
            return Err(MailError::SessionStateError);
        }
        self.awaiting = Some(Exchange::Top(top_line));
        let n = decimal_exec(order_number);
        let k = decimal_exec(top_line);
        let mut c = concat3("top ", n.as_str(), " ");
        push_str_chars(&mut c, k.as_str());
        Ok(c)
    }

    /// Reads the first line of a `top` reply. Exactly the number of lines
    /// asked for follow, for `body_line`; the result starts with the reply
    /// text and a line break.
    pub fn top_reply(&mut self, line: &str) -> (r: Result<Option<String>, MailError>)
        requires
            old(self).wf(),
        ensures
            final(self).wf(),
            !(old(self)@.awaiting matches Some(Exchange::Top(_))) ==> (r matches Err(
                MailError::SessionStateError,
            ) && final(self)@ == old(self)@),
            old(self)@.awaiting matches Some(Exchange::Top(k)) ==> match answer(line@) {
                Some(ReplyView::Success(t)) => if k == 0 {
                    (r matches Ok(Some(b)) && b@ == t + "\r\n"@) && final(self)@ == idle(old(self)@)
                } else {
                    r matches Ok(None) && final(self)@ == (ClientView {
                        awaiting: Some(Exchange::Body),
                        head: t + "\r\n"@,
                        body_end: BodyEnd::Lines(k),
                        consumed: Seq::empty(),
                        ..old(self)@
                    })
                },
                _ => (r matches Err(e) && refusal_is(line@, e)) && final(self)@ == idle(old(self)@),
            },
    {
        let k = match self.awaiting {
            Some(Exchange::Top(k)) => k,
            _ => {
                return Err(MailError::SessionStateError);
            },
        };
        let t = match self.read_status(Exchange::Top(k), line) {
            Ok(t) => t,
            Err(e) => {
                return Err(e);
            },
        };
        let mut head = t;
        push_str_chars(&mut head, "\r\n");
        if k == 0 {
            Ok(Some(head))
        } else {
            self.start_body(head, BodyEnd::Lines(k));
            Ok(None)
        }
    }

    /// Takes one line of a retrieved message, kept as received. Once the
    /// lines read complete the retrieval, the message text: what preceded
    /// the lines, then every line read, end to end.
    pub fn body_line(&mut self, line: &str) -> (r: Result<Option<String>, MailError>)
        requires
            old(self).wf(),
        ensures
            final(self).wf(),
            old(self)@.awaiting != Some(Exchange::Body) ==> (r matches Err(MailError::SessionStateError)
                && final(self)@ == old(self)@),
            old(self)@.awaiting == Some(Exchange::Body) ==> {
                let consumed = old(self)@.consumed.push(line@);
                if body_complete(old(self)@.body_end, consumed) {
                    (r matches Ok(Some(b)) && b@ == old(self)@.head + flatten(consumed))
                        && final(self)@ == (ClientView {
                            consumed: Seq::empty(),
                            head: Seq::empty(),
                            ..idle(old(self)@)
                        })
                } else {
                    r matches Ok(None) && final(self)@ == (ClientView { consumed, ..old(self)@ })
                }
            },
    {
        if self.awaiting != Some(Exchange::Body) {
            return Err(MailError::SessionStateError);
        }
        let ghost consumed = self.consumed@.push(line@);
        assert(consumed.drop_last() =~= self.consumed@);
        assert(flatten(consumed) == flatten(self.consumed@) + line@);
        proof {
            lemma_encode_utf8_concat(flatten(self.consumed@), line@);
        }
        let n = line.as_bytes().len();
        assert(n == encode_utf8(line@).len());
        let done = match self.body_end {
            BodyEnd::Octets(d) => n >= d - self.body_len,
            BodyEnd::Lines(k) => self.lines_read + 1 >= k,
        };
        if done {
            self.awaiting = None;
            let mut text = String::new();
            std::mem::swap(&mut text, &mut self.head);
            push_str_chars(&mut text, self.body.as_str());
            push_str_chars(&mut text, line);
            self.body = String::new();
            self.body_len = 0;
            self.lines_read = 0;
            self.consumed = Ghost(Seq::empty());
            assert(text@ =~= old(self)@.head + flatten(consumed));
            Ok(Some(text))
        } else {
            push_str_chars(&mut self.body, line);
            self.consumed = Ghost(consumed);
            match self.body_end {
                BodyEnd::Octets(_) => {
                    self.body_len = self.body_len + n;
                },
                BodyEnd::Lines(_) => {
                    self.lines_read = self.lines_read + 1;
                },
            }
            Ok(None)
        }
    }
}

impl Client {
    /// Whether message `n` is staged for deletion.
    pub fn staged(&self, n: usize) -> (r: bool)
        ensures
            r == self@.deletes.contains(n),
    {
        let mut i: usize = 0;
        while i < self.dele_list.len()
            invariant
                i <= self.dele_list@.len(),
                forall|j: int| 0 <= j < i ==> self.dele_list@[j] != n,
            decreases self.dele_list.len() - i,
        {
            if self.dele_list[i] == n {
                return true;
            }
            i = i + 1;
        }
        false
    }

    /// Stages message `order_number` for deletion: the command to send. A
    /// message already staged is refused and nothing is sent.
    pub fn delete(&mut self, order_number: usize) -> (r: Result<String, MailError>)
        requires
            old(self).wf(),
        ensures
            final(self).wf(),
            old(self)@.state != State::Authorized ==> (r matches Err(MailError::SessionStateError)
                && final(self)@ == old(self)@),
            old(self)@.state == State::Authorized && old(self)@.deletes.contains(order_number)
                ==> (r matches Err(MailError::POP3DeleteDuplicateError(n)) && n == order_number
                && final(self)@ == old(self)@),
            old(self)@.state == State::Authorized && !old(self)@.deletes.contains(order_number)
                ==> (r matches Ok(c) && c@ == "dele "@ + decimal(order_number as nat)
                && final(self)@ == awaits(old(self)@, Exchange::Dele(order_number))),
    {
        if self.state != State::Authorized {
            return Err(MailError::SessionStateError);
        }
        if self.staged(order_number) {
            return Err(MailError::POP3DeleteDuplicateError(order_number));
        }
        self.awaiting = Some(Exchange::Dele(order_number));
        let n = decimal_exec(order_number);
        let c = concat3("dele ", n.as_str(), "");
        proof {
            reveal_strlit("");
            assert(c@ =~= "dele "@ + decimal(order_number as nat));
        }
        Ok(c)
    }

    /// Reads the reply to a deletion; on success the message joins the
    /// staged list.
    pub fn delete_reply(&mut self, line: &str) -> (r: Result<(), MailError>)
        requires
            old(self).wf(),
        ensures
            final(self).wf(),
            !(old(self)@.awaiting matches Some(Exchange::Dele(_))) ==> (r matches Err(
                MailError::SessionStateError,
            ) && final(self)@ == old(self)@),
            old(self)@.awaiting matches Some(Exchange::Dele(n)) ==> match r {
                Ok(()) => answer(line@) is Some && answer(line@)->0 is Success
                    && final(self)@ == (ClientView { deletes: old(self)@.deletes.push(n), ..idle(old(self)@) }),
                Err(e) => refusal_is(line@, e) && final(self)@ == idle(old(self)@),
            },
    {
        let n = match self.awaiting {
            Some(Exchange::Dele(n)) => n,
            _ => {
                return Err(MailError::SessionStateError);
            },
        };
        match self.read_status(Exchange::Dele(n), line) {
            Ok(_) => {
                self.dele_list.push(n);
                Ok(())
            },
            Err(e) => Err(e),
        }
    }

    /// Asks the server to forget the deletions; the command to send.
    pub fn reset_delete(&mut self) -> (r: Result<String, MailError>)
        requires
            old(self).wf(),
        ensures
            final(self).wf(),
            old(self)@.state != State::Authorized ==> (r matches Err(MailError::SessionStateError)
                && final(self)@ == old(self)@),
            old(self)@.state == State::Authorized ==> (r matches Ok(c) && c@ == "rset"@
                && final(self)@ == awaits(old(self)@, Exchange::Rset)),
    {
        self.simple_command(Exchange::Rset, "rset", true)
    }

    /// Reads the reply to the reset; on success nothing is staged any more.
    pub fn reset_delete_reply(&mut self, line: &str) -> (r: Result<(), MailError>)
        requires
            old(self).wf(),
        ensures
            final(self).wf(),
            old(self)@.awaiting != Some(Exchange::Rset) ==> (r matches Err(MailError::SessionStateError)
                && final(self)@ == old(self)@),
            old(self)@.awaiting == Some(Exchange::Rset) ==> match r {
                Ok(()) => answer(line@) is Some && answer(line@)->0 is Success
                    && final(self)@ == (ClientView { deletes: Seq::empty(), ..idle(old(self)@) }),
                Err(e) => refusal_is(line@, e) && final(self)@ == idle(old(self)@),
            },
    {
        match self.read_status(Exchange::Rset, line) {
            Ok(_) => {
                self.dele_list = Vec::new();
                assert(self@.deletes =~= Seq::<usize>::empty());
                Ok(())
            },
            Err(e) => Err(e),
        }
    }

    /// Ends the session, committing the staged deletions; the command to send.
    pub fn quit(&mut self) -> (r: Result<String, MailError>)
        requires
            old(self).wf(),
        ensures
            final(self).wf(),
            old(self)@.state == State::Init ==> (r matches Err(MailError::SessionStateError)
                && final(self)@ == old(self)@),
            old(self)@.state != State::Init ==> (r matches Ok(c) && c@ == "quit"@
                && final(self)@ == awaits(old(self)@, Exchange::Quit)),
    {
        self.simple_command(Exchange::Quit, "quit", false)
    }

    /// Reads the reply to quit. On success the session is back at `Init`
    /// (the caller closes the connection) and the deletions it committed are
    /// handed back; on failure the session stays as it was.
    pub fn quit_reply(&mut self, line: &str) -> (r: Result<Vec<usize>, MailError>)
        requires
            old(self).wf(),
        ensures
            final(self).wf(),
            old(self)@.awaiting != Some(Exchange::Quit) ==> (r matches Err(MailError::SessionStateError)
                && final(self)@ == old(self)@),
            old(self)@.awaiting == Some(Exchange::Quit) ==> match r {
                Ok(committed) => answer(line@) is Some && answer(line@)->0 is Success
                    && committed@ == old(self)@.deletes
                    && final(self)@ == (ClientView {
                        state: State::Init,
                        deletes: Seq::empty(),
                        ..idle(old(self)@)
                    }),
                Err(e) => refusal_is(line@, e) && final(self)@ == idle(old(self)@),
            },
    {
        match self.read_status(Exchange::Quit, line) {
            Ok(_) => {
                let mut committed: Vec<usize> = Vec::new();
                std::mem::swap(&mut committed, &mut self.dele_list);
                self.state = State::Init;
                assert(self@.deletes =~= Seq::<usize>::empty());
                Ok(committed)
            },
            Err(e) => Err(e),
        }
    }
}

/// A retrieval that declared `d` octets, once complete, yields exactly the
/// lines it read, joined end to end, and their UTF-8 encoding holds at least
/// `d` bytes.
pub proof fn lemma_fetched_text(d: usize, consumed: Seq<Seq<char>>, text: Seq<char>)
    requires
        body_complete(BodyEnd::Octets(d), consumed),
        text == Seq::<char>::empty() + flatten(consumed),
    ensures
        text == flatten(consumed),
        encode_utf8(text).len() >= d,
{
    assert(text =~= flatten(consumed));
}

/// The reply carrying a pair of numbers: the pair where the status line is a
/// success whose text is two numbers, the error otherwise.
pub open spec fn pair_reply(line: Seq<char>, r: Result<(usize, usize), MailError>) -> bool {
    match answer(line) {
        Some(ReplyView::Success(t)) => match r {
            Ok((a, b)) => status_pair(t) == Some((a as nat, b as nat)),
            Err(e) => status_pair(t) is None && (e matches MailError::POP3StatusParseError(u) && u@ == t),
        },
        _ => r matches Err(e) && refusal_is(line, e),
    }
}

} // verus!
