//! The mail submission protocol: its multi-line replies, the outbound mail,
//! and its session state machine.

use vstd::prelude::*;
use vstd::utf8::encode_utf8;
use crate::text::{
    concat3, chars_of, digits_value, is_digit, is_digit_exec, parse_number, push_str_chars, string_of, strip_terminator,
    without_terminator,
};
use crate::tcp;
use crate::util::MailError;

verus! {

/// More continuation lines than this in one reply are taken as a runaway peer.
pub const MAX_CONTINUATION_LINES: usize = 1000;

/// A complete reply: the code of its final line and the text of every line.
#[derive(Debug)]
pub struct Response {
    code: usize,
    group: Vec<String>,
}

impl View for Response {
    type V = (nat, Seq<Seq<char>>);

    closed spec fn view(&self) -> (nat, Seq<Seq<char>>) {
        (self.code as nat, views_of_strings(self.group@))
    }
}

pub open spec fn views_of_strings(v: Seq<String>) -> Seq<Seq<char>> {
    v.map_values(|s: String| s@)
}

impl Response {
    pub fn new(code: usize) -> (r: Response)
        ensures
            r@ == (code as nat, Seq::<Seq<char>>::empty()),
    {
        let r = Response { code, group: Vec::new() };
        assert(views_of_strings(r.group@) =~= Seq::<Seq<char>>::empty());
        r
    }

    pub fn code(&self) -> (r: usize)
        ensures
            r == self@.0,
    {
        self.code
    }

    /// The text of each line, code and marker removed, in order.
    pub fn group(&self) -> (r: &Vec<String>)
        ensures
            views_of_strings(r@) == self@.1,
    {
        &self.group
    }
}

/// One reply line, classified.
pub enum LineView {
    Continues(nat, Seq<char>),
    Last(nat, Seq<char>),
}

/// The reply line grammar: three digits, then `-` and text for a line that
/// continues, or a space and text (or nothing) for the final line.
pub open spec fn reply_line(s: Seq<char>) -> Option<LineView> {
    if s.len() >= 3 && is_digit(s[0]) && is_digit(s[1]) && is_digit(s[2]) {
        let code = digits_value(s.subrange(0, 3));
        if s.len() == 3 {
            Some(LineView::Last(code, Seq::empty()))
        } else if s[3] == '-' {
            Some(LineView::Continues(code, s.subrange(4, s.len() as int)))
        } else if s[3] == ' ' {
            Some(LineView::Last(code, s.subrange(4, s.len() as int)))
        } else {
            None
        }
    } else {
        None
    }
}

/// Where the gathering of one reply stands.
pub enum Gathered {
    Pending(Seq<Seq<char>>),
    Complete(nat, Seq<Seq<char>>),
    Malformed(Seq<char>),
    Overtime,
}

/// One received line added to the texts gathered so far; its line
/// terminator (`\r\n` or `\n`) is not part of it.
pub open spec fn gather_step(texts: Seq<Seq<char>>, line: Seq<char>) -> Gathered {
    match reply_line(without_terminator(line)) {
        None => Gathered::Malformed(line),
        Some(LineView::Continues(_, t)) => if texts.len() + 1 > MAX_CONTINUATION_LINES {
            Gathered::Overtime
        } else {
            Gathered::Pending(texts.push(t))
        },
        Some(LineView::Last(c, t)) => Gathered::Complete(c, texts.push(t)),
    }
}

/// Gathering over `lines`; it stops at the first line that completes or fails.
pub open spec fn gather(lines: Seq<Seq<char>>) -> Gathered
    decreases lines.len(),
{
    if lines.len() == 0 {
        Gathered::Pending(Seq::empty())
    } else {
        match gather(lines.drop_last()) {
            Gathered::Pending(texts) => gather_step(texts, lines.last()),
            done => done,
        }
    }
}

/// Collects the lines of one reply.
pub struct ReplyReader {
    group: Vec<String>,
}

impl View for ReplyReader {
    type V = Seq<Seq<char>>;

    closed spec fn view(&self) -> Seq<Seq<char>> {
        views_of_strings(self.group@)
    }
}

/// The classification of a line, as code, marker and text.
fn classify(line: &Vec<char>) -> (r: Option<(usize, bool, String)>)
    ensures
        match reply_line(line@) {
            None => r is None,
            Some(LineView::Continues(c, t)) => r matches Some((c2, last, t2)) && c2 == c && !last && t2@ == t,
            Some(LineView::Last(c, t)) => r matches Some((c2, last, t2)) && c2 == c && last && t2@ == t,
        },
{
    if line.len() < 3 || !is_digit_exec(line[0]) || !is_digit_exec(line[1]) || !is_digit_exec(line[2]) {
        return None;
    }
    let code = match parse_number(line, 0, 3) {
        Some(c) => c,
        None => {
            proof {
                crate::text::lemma_three_digits_fit(line@.subrange(0, 3));
            }
            return None;
        },
    };
    if line.len() == 3 {
        return Some((code, true, String::new()));
    }
    if line[3] == '-' {
        Some((code, false, string_of(line, 4, line.len())))
    } else if line[3] == ' ' {
        Some((code, true, string_of(line, 4, line.len())))
    } else {
        None
    }
}

impl ReplyReader {
    pub fn new() -> (r: ReplyReader)
        ensures
            r@ == Seq::<Seq<char>>::empty(),
    {
        let r = ReplyReader { group: Vec::new() };
        assert(r@ =~= Seq::<Seq<char>>::empty());
        r
    }

    /// Takes one received line. Gives the reply once its final line has come;
    /// the reader is then empty again, as it is after a failure.
    pub fn feed(&mut self, line: &str) -> (r: Result<Option<Response>, MailError>)
        ensures
            match gather_step(old(self)@, line@) {
                Gathered::Pending(texts) => r matches Ok(None) && final(self)@ == texts,
                Gathered::Complete(c, texts) => r matches Ok(Some(resp)) && resp@ == (c, texts)
                    && final(self)@ == Seq::<Seq<char>>::empty(),
                Gathered::Malformed(l) => r matches Err(MailError::SMTPResponseParseError(t)) && t@ == l
                    && final(self)@ == Seq::<Seq<char>>::empty(),
                Gathered::Overtime => r matches Err(MailError::SMTPResponseOvertimeError)
                    && final(self)@ == Seq::<Seq<char>>::empty(),
            },
    {
        let stripped = strip_terminator(line);
        let v = chars_of(stripped.as_str());
        let ghost before = self@;
        match classify(&v) {
            None => {
                self.group = Vec::new();
                assert(self@ =~= Seq::<Seq<char>>::empty());
                let whole = chars_of(line);
                assert(whole@.subrange(0, whole@.len() as int) =~= whole@);
                Err(MailError::SMTPResponseParseError(string_of(&whole, 0, whole.len())))
            },
            Some((code, last, text)) => {
                if !last && self.group.len() >= MAX_CONTINUATION_LINES {
                    self.group = Vec::new();
                    assert(self@ =~= Seq::<Seq<char>>::empty());
                    return Err(MailError::SMTPResponseOvertimeError);
                }
                let ghost t = text@;
                self.group.push(text);
                assert(self@ =~= before.push(t));
                if last {
                    let mut group: Vec<String> = Vec::new();
                    std::mem::swap(&mut group, &mut self.group);
                    assert(self@ =~= Seq::<Seq<char>>::empty());
                    Ok(Some(Response { code, group }))
                } else {
                    Ok(None)
                }
            },
        }
    }
}

proof fn lemma_gather_stops(lines: Seq<Seq<char>>, k: int)
    requires
        0 <= k <= lines.len(),
        !(gather(lines.subrange(0, k)) is Pending),
    ensures
        gather(lines) == gather(lines.subrange(0, k)),
    decreases lines.len() - k,
{
    if k < lines.len() {
        assert(lines.subrange(0, k + 1).drop_last() =~= lines.subrange(0, k));
        lemma_gather_stops(lines, k + 1);
    } else {
        assert(lines.subrange(0, k) =~= lines);
    }
}

/// Gathers one reply from `lines`, in order; lines after the final one are
/// not read.
pub fn parse_response_group(lines: &Vec<String>) -> (r: Result<Response, MailError>)
    ensures
        match gather(views_of_strings(lines@)) {
            Gathered::Complete(c, texts) => r matches Ok(resp) && resp@ == (c, texts),
            Gathered::Malformed(l) => r matches Err(MailError::SMTPResponseParseError(t)) && t@ == l,
            Gathered::Overtime => r matches Err(MailError::SMTPResponseOvertimeError),
            Gathered::Pending(_) => r matches Err(MailError::SMTPResponseIncompleteError),
        },
{
    let ghost ls = views_of_strings(lines@);
    let mut reader = ReplyReader::new();
    let mut i: usize = 0;
    assert(ls.subrange(0, 0) =~= Seq::<Seq<char>>::empty());
    while i < lines.len()
        invariant
            ls == views_of_strings(lines@),
            i <= lines@.len(),
            gather(ls.subrange(0, i as int)) == Gathered::Pending(reader@),
        decreases lines.len() - i,
    {
        assert(ls.subrange(0, i + 1).drop_last() =~= ls.subrange(0, i as int));
        assert(ls.subrange(0, i + 1).last() == lines@[i as int]@);
        let step = reader.feed(lines[i].as_str());
        match step {
            Ok(None) => {},
            Ok(Some(resp)) => {
                proof {
                    lemma_gather_stops(ls, i + 1);
                }
                return Ok(resp);
            },
            Err(e) => {
                proof {
                    lemma_gather_stops(ls, i + 1);
                }
                return Err(e);
            },
        }
        i = i + 1;
    }
    assert(ls.subrange(0, i as int) =~= ls);
    Err(MailError::SMTPResponseIncompleteError)
}

/// A reply whose first lines all continue, more of them than the bound
/// allows, is cut off as overtime.
pub proof fn lemma_overtime(lines: Seq<Seq<char>>)
    requires
        lines.len() > MAX_CONTINUATION_LINES,
        forall|i: int| 0 <= i <= MAX_CONTINUATION_LINES ==>
            (#[trigger] reply_line(without_terminator(lines[i]))) matches Some(LineView::Continues(_, _)),
    ensures
        gather(lines) == Gathered::Overtime,
{
    let n = MAX_CONTINUATION_LINES as int;
    lemma_pending_prefix(lines, n);
    assert(lines.subrange(0, n + 1).drop_last() =~= lines.subrange(0, n));
    assert(lines.subrange(0, n + 1).last() == lines[n]);
    lemma_gather_stops(lines, n + 1);
}

proof fn lemma_pending_prefix(lines: Seq<Seq<char>>, k: int)
    requires
        0 <= k <= MAX_CONTINUATION_LINES,
        k < lines.len(),
        forall|i: int| 0 <= i <= MAX_CONTINUATION_LINES ==>
            (#[trigger] reply_line(without_terminator(lines[i]))) matches Some(LineView::Continues(_, _)),
    ensures
        gather(lines.subrange(0, k)) matches Gathered::Pending(texts) && texts.len() == k,
    decreases k,
{
    if k > 0 {
        lemma_pending_prefix(lines, k - 1);
        assert(lines.subrange(0, k).drop_last() =~= lines.subrange(0, k - 1));
        assert(lines.subrange(0, k).last() == lines[k - 1]);
        assert(reply_line(without_terminator(lines[k - 1])) matches Some(LineView::Continues(_, _)));
    } else {
        assert(lines.subrange(0, 0) =~= Seq::<Seq<char>>::empty());
    }
}


// ---------------------------------------------------------------- outbound mail

/// A mail to submit. It is complete when all four fields are present.
#[derive(Debug, Clone)]
pub struct SMTPMail {
    pub from: Option<String>,
    pub to: Option<String>,
    pub subject: Option<String>,
    pub content: Option<Vec<String>>,
}

/// An outbound mail as text.
pub struct MailDraft {
    pub from: Option<Seq<char>>,
    pub to: Option<Seq<char>>,
    pub subject: Option<Seq<char>>,
    pub content: Option<Seq<Seq<char>>>,
}

pub open spec fn text_of(o: Option<String>) -> Option<Seq<char>> {
    match o {
        Some(s) => Some(s@),
        None => None,
    }
}

impl View for SMTPMail {
    type V = MailDraft;

    open spec fn view(&self) -> MailDraft {
        MailDraft {
            from: text_of(self.from),
            to: text_of(self.to),
            subject: text_of(self.subject),
            content: match self.content {
                Some(c) => Some(views_of_strings(c@)),
                None => None,
            },
        }
    }
}

/// 0 for a complete mail; otherwise the position (1 to 4) of the first
/// missing field among sender, recipient, subject and content.
pub open spec fn draft_integrity(d: MailDraft) -> nat {
    if d.from is None {
        1
    } else if d.to is None {
        2
    } else if d.subject is None {
        3
    } else if d.content is None {
        4
    } else {
        0
    }
}

impl SMTPMail {
    /// A mail with no field set.
    pub fn new() -> (r: SMTPMail)
        ensures
            r@ == (MailDraft { from: None, to: None, subject: None, content: None }),
    {
        SMTPMail { from: None, to: None, subject: None, content: None }
    }

    pub fn check_integrity(&self) -> (r: usize)
        ensures
            r == draft_integrity(self@),
    {
        if self.from.is_none() {
            1
        } else if self.to.is_none() {
            2
        } else if self.subject.is_none() {
            3
        } else if self.content.is_none() {
            4
        } else {
            0
        }
    }
}

/// The lines of the data phase: sender, recipient and subject lines, a blank
/// line, the content, a blank line and the lone `.` that ends the data.
pub open spec fn serialized(d: MailDraft) -> Seq<Seq<char>> {
    seq![
        "from:<"@ + d.from->0 + ">"@,
        "to:<"@ + d.to->0 + ">"@,
        "subject:"@ + d.subject->0,
        Seq::<char>::empty(),
    ] + d.content->0 + seq![Seq::<char>::empty(), "."@]
}

/// The data-phase lines of a complete mail.
pub fn serialize(mail: SMTPMail) -> (r: Vec<String>)
    requires
        draft_integrity(mail@) == 0,
    ensures
        views_of_strings(r@) == serialized(mail@),
{
    let ghost d = mail@;
    let SMTPMail { from, to, subject, content } = mail;
    let from = match from {
        Some(x) => x,
        None => String::new(),
    };
    let to = match to {
        Some(x) => x,
        None => String::new(),
    };
    let subject = match subject {
        Some(x) => x,
        None => String::new(),
    };
    let mut content = match content {
        Some(x) => x,
        None => Vec::new(),
    };
    let mut lines: Vec<String> = Vec::new();
    lines.push(concat3("from:<", from.as_str(), ">"));
    lines.push(concat3("to:<", to.as_str(), ">"));
    lines.push(concat3("subject:", subject.as_str(), ""));
    lines.push(String::new());
    lines.append(&mut content);
    lines.push(String::new());
    lines.push(concat3(".", "", ""));
    proof {
        reveal_strlit("");
        assert(views_of_strings(lines@) =~= serialized(d));
    }
    lines
}

// ---------------------------------------------------------------- session

/// Where a session stands.
#[derive(Clone, Copy, Debug, PartialEq, Eq, Structural)]
pub enum State {
    Init,
    TCPConnected,
    Authorized,
}

/// The reply a submission session waits for.
#[derive(Clone, Copy, Debug, PartialEq, Eq, Structural)]
pub enum Stage {
    Greeting,
    Ehlo,
    Auth,
    AuthUser,
    AuthPass,
    MailFrom,
    RcptTo,
    Data,
    Body,
    Quit,
}

/// What the caller does next with the connection.
#[derive(Debug)]
pub enum Action {
    /// Read one more line and hand it to `receive_line`.
    Receive,
    /// Write this line, then read the reply.
    Send(String),
    /// Write these lines, then read the reply.
    SendLines(Vec<String>),
    /// The operation is over.
    Done,
}

pub enum ActionView {
    Receive,
    Send(Seq<char>),
    SendLines(Seq<Seq<char>>),
    Done,
}

pub open spec fn action_view(a: Action) -> ActionView {
    match a {
        Action::Receive => ActionView::Receive,
        Action::Send(s) => ActionView::Send(s@),
        Action::SendLines(v) => ActionView::SendLines(views_of_strings(v@)),
        Action::Done => ActionView::Done,
    }
}

/// The code each stage's reply must carry.
pub open spec fn expected_code(stage: Stage) -> nat {
    match stage {
        Stage::Greeting => 220,
        Stage::Ehlo => 250,
        Stage::Auth => 334,
        Stage::AuthUser => 334,
        Stage::AuthPass => 235,
        Stage::MailFrom => 250,
        Stage::RcptTo => 250,
        Stage::Data => 354,
        Stage::Body => 250,
        Stage::Quit => 221,
    }
}

fn expected_code_exec(stage: Stage) -> (r: usize)
    ensures
        r == expected_code(stage),
{
    match stage {
        Stage::Greeting => 220,
        Stage::Ehlo => 250,
        Stage::Auth => 334,
        Stage::AuthUser => 334,
        Stage::AuthPass => 235,
        Stage::MailFrom => 250,
        Stage::RcptTo => 250,
        Stage::Data => 354,
        Stage::Body => 250,
        Stage::Quit => 221,
    }
}

/// What standard padded base64 of `b` is.
pub uninterp spec fn base64_encoded(b: Seq<u8>) -> Seq<char>;

/// Relies on `base64::encode` (standard alphabet, padded) of the UTF-8 bytes
/// of `s`. Its buffer size cannot overflow for a string that exists.
#[verifier::external_body]
fn encode_base64(s: &str) -> (r: String)
    ensures
        r@ == base64_encoded(encode_utf8(s@)),
{
    base64::encode(s)
}

/// A submission session.
pub struct Client {
    client: tcp::Client,
    name: String,
    account: String,
    password: String,
    mail_group: Vec<SMTPMail>,
    state: State,
    debug: bool,
    reader: ReplyReader,
    stage: Option<Stage>,
    in_flight: Option<SMTPMail>,
}

/// A submission session as values.
pub struct ClientView {
    pub host_name: Seq<char>,
    pub port: u16,
    /// The terminator the transport appends to each line.
    pub end_pointer: Seq<char>,
    pub name: Seq<char>,
    pub account: Seq<char>,
    pub password: Seq<char>,
    pub outbox: Seq<MailDraft>,
    pub state: State,
    pub debug: bool,
    pub pending: Seq<Seq<char>>,
    pub stage: Option<Stage>,
    pub in_flight: Option<MailDraft>,
}

pub open spec fn drafts(v: Seq<SMTPMail>) -> Seq<MailDraft> {
    v.map_values(|m: SMTPMail| m@)
}

impl View for Client {
    type V = ClientView;

    closed spec fn view(&self) -> ClientView {
        ClientView {
            host_name: self.client.host_name()@,
            port: self.client.port(),
            end_pointer: self.client.end_pointer()@,
            name: self.name@,
            account: self.account@,
            password: self.password@,
            outbox: drafts(self.mail_group@),
            state: self.state,
            debug: self.debug,
            pending: self.reader@,
            stage: self.stage,
            in_flight: match self.in_flight {
                Some(m) => Some(m@),
                None => None,
            },
        }
    }
}

/// The session's invariant: a mail is in flight exactly while its envelope
/// is being sent, and it is complete; each stage belongs to one state; no
/// reply is gathered outside an exchange.
pub open spec fn view_wf(v: ClientView) -> bool {
    &&& (v.in_flight is Some <==> (v.stage == Some(Stage::MailFrom) || v.stage == Some(Stage::RcptTo)
        || v.stage == Some(Stage::Data)))
    &&& (v.in_flight is Some ==> draft_integrity(v.in_flight->0) == 0)
    &&& (v.stage == Some(Stage::Greeting) ==> v.state == State::Init)
    &&& (v.stage == Some(Stage::Quit) ==> v.state == State::Init)
    &&& ((v.stage == Some(Stage::Ehlo) || v.stage == Some(Stage::Auth) || v.stage == Some(Stage::AuthUser)
        || v.stage == Some(Stage::AuthPass)) ==> v.state == State::TCPConnected)
    &&& ((v.stage == Some(Stage::MailFrom) || v.stage == Some(Stage::RcptTo) || v.stage == Some(Stage::Data)
        || v.stage == Some(Stage::Body)) ==> v.state == State::Authorized)
    &&& (v.stage is None ==> v.pending.len() == 0)
}

/// The exchange is given up: a mail still in flight goes back to the end of
/// the outbox.
pub open spec fn abandoned(v: ClientView) -> ClientView {
    ClientView {
        stage: None,
        pending: Seq::empty(),
        in_flight: None,
        outbox: match v.in_flight {
            Some(m) => v.outbox.push(m),
            None => v.outbox,
        },
        ..v
    }
}

pub open spec fn advanced(v: ClientView, stage: Option<Stage>) -> ClientView {
    ClientView { stage, pending: Seq::empty(), ..v }
}

/// A complete reply with `code` at the current stage: the next view, and the
/// next action, or nothing where the code is not the one expected.
pub open spec fn on_reply(v: ClientView, code: nat) -> (ClientView, Option<ActionView>) {
    let st = v.stage->0;
    if code != expected_code(st) {
        (abandoned(v), None)
    } else {
        match st {
            Stage::Greeting => (ClientView { state: State::TCPConnected, ..advanced(v, None) }, Some(ActionView::Done)),
            Stage::Ehlo => (advanced(v, Some(Stage::Auth)), Some(ActionView::Send("auth login"@))),
            Stage::Auth => (advanced(v, Some(Stage::AuthUser)),
                Some(ActionView::Send(base64_encoded(encode_utf8(v.account))))),
            Stage::AuthUser => (advanced(v, Some(Stage::AuthPass)),
                Some(ActionView::Send(base64_encoded(encode_utf8(v.password))))),
            Stage::AuthPass => (ClientView { state: State::Authorized, ..advanced(v, None) }, Some(ActionView::Done)),
            Stage::MailFrom => (advanced(v, Some(Stage::RcptTo)),
                Some(ActionView::Send("rcpt to:<"@ + v.in_flight->0.to->0 + ">"@))),
            Stage::RcptTo => (advanced(v, Some(Stage::Data)), Some(ActionView::Send("data"@))),
            Stage::Data => (ClientView { in_flight: None, ..advanced(v, Some(Stage::Body)) },
                Some(ActionView::SendLines(serialized(v.in_flight->0)))),
            Stage::Body => (advanced(v, None), Some(ActionView::Done)),
            Stage::Quit => (advanced(v, None), Some(ActionView::Done)),
        }
    }
}

impl Client {
    pub closed spec fn wf(&self) -> bool {
        view_wf(self@)
    }

    /// A well-formed session's view meets the session invariant.
    pub proof fn lemma_wf(&self)
        requires
            self.wf(),
        ensures
            view_wf(self@),
    {
    }

    /// A session with the submission port, no credentials and an empty outbox.
    pub fn new(host_name: String, name: String) -> (r: Client)
        ensures
            r.wf(),
            r@.host_name == host_name@,
            r@.port == 25,
            r@.end_pointer == "\r\n"@,
            r@.name == name@,
            r@.account.len() == 0,
            r@.password.len() == 0,
            r@.outbox.len() == 0,
            r@.state == State::Init,
            !r@.debug,
            r@.stage is None,
            r@.in_flight is None,
    {
        let mut client = tcp::Client::new(host_name, 25);
        client.set_end_pointer(concat3("\r\n", "", ""));
        proof {
            reveal_strlit("");
            assert("\r\n"@ + ""@ + ""@ =~= "\r\n"@);
        }
        let r = Client {
            client,
            name,
            account: String::new(),
            password: String::new(),
            mail_group: Vec::new(),
            state: State::Init,
            debug: false,
            reader: ReplyReader::new(),
            stage: None,
            in_flight: None,
        };
        assert(r@.outbox =~= Seq::<MailDraft>::empty());
        r
    }

    /// The transport settings: host, port and line terminator.
    pub fn transport(&self) -> (r: &tcp::Client)
        ensures
            r.host_name()@ == self@.host_name,
            r.port() == self@.port,
            r.end_pointer()@ == self@.end_pointer,
    {
        &self.client
    }

    pub fn state(&self) -> (r: State)
        ensures
            r == self@.state,
    {
        self.state
    }

    pub fn is_debug(&self) -> (r: bool)
        ensures
            r == self@.debug,
    {
        self.debug
    }

    /// The outbox, in order.
    pub fn mail_group(&self) -> (r: &Vec<SMTPMail>)
        ensures
            drafts(r@) == self@.outbox,
    {
        &self.mail_group
    }

    /// Sets or replaces the account name and secret used by `login`.
    pub fn set_credentials(&mut self, account: String, password: String)
        requires
            old(self).wf(),
        ensures
            final(self).wf(),
            final(self)@ == (ClientView { account: account@, password: password@, ..old(self)@ }),
    {
        self.account = account;
        self.password = password;
    }

    pub fn debug(&mut self)
        requires
            old(self).wf(),
        ensures
            final(self).wf(),
            final(self)@ == (ClientView { debug: !old(self)@.debug, ..old(self)@ }),
    {
        self.debug = !self.debug;
    }

    /// Appends a mail to the outbox.
    pub fn save(&mut self, mail: SMTPMail)
        requires
            old(self).wf(),
        ensures
            final(self).wf(),
            final(self)@ == (ClientView { outbox: old(self)@.outbox.push(mail@), ..old(self)@ }),
    {
        let ghost m = mail@;
        self.mail_group.push(mail);
        assert(drafts(self.mail_group@) =~= old(self)@.outbox.push(m));
    }

    /// Starts a session: from `Init`, the greeting is awaited next (the
    /// caller opens the connection and hands each line to `receive_line`).
    pub fn connect(&mut self) -> (r: Result<(), MailError>)
        requires
            old(self).wf(),
        ensures
            final(self).wf(),
            old(self)@.state == State::Init ==> r is Ok
                && final(self)@ == advanced(abandoned(old(self)@), Some(Stage::Greeting)),
            old(self)@.state != State::Init ==> (r matches Err(MailError::SessionStateError)
                && final(self)@ == old(self)@),
    {
        if self.state != State::Init {
            return Err(MailError::SessionStateError);
        }
        self.abandon();
        self.stage = Some(Stage::Greeting);
        Ok(())
    }

    /// Starts the login: from `TCPConnected`, the greeting command to send.
    pub fn login(&mut self) -> (r: Result<String, MailError>)
        requires
            old(self).wf(),
        ensures
            final(self).wf(),
            old(self)@.state == State::TCPConnected ==> (r matches Ok(c) && c@ == "ehlo "@ + old(self)@.name
                && final(self)@ == advanced(abandoned(old(self)@), Some(Stage::Ehlo))),
            old(self)@.state != State::TCPConnected ==> (r matches Err(MailError::SessionStateError)
                && final(self)@ == old(self)@),
    {
        if self.state != State::TCPConnected {
            return Err(MailError::SessionStateError);
        }
        self.abandon();
        self.stage = Some(Stage::Ehlo);
        let command = concat3("ehlo ", self.name.as_str(), "");
        proof {
            reveal_strlit("");
            assert(command@ =~= "ehlo "@ + old(self)@.name);
        }
        Ok(command)
    }

    /// Starts sending the mail at 1-based position `order_number` of the
    /// outbox: its sender command. An incomplete mail stays where it is and
    /// nothing is sent.
    pub fn send(&mut self, order_number: usize) -> (r: Result<String, MailError>)
        requires
            old(self).wf(),
        ensures
            final(self).wf(),
            old(self)@.state != State::Authorized ==> (r matches Err(MailError::SessionStateError)
                && final(self)@ == old(self)@),
            old(self)@.state == State::Authorized && !(1 <= order_number <= old(self)@.outbox.len())
                ==> (r matches Err(MailError::SMTPMailNotFoundError(n)) && n == order_number
                && final(self)@ == old(self)@),
            old(self)@.state == State::Authorized && 1 <= order_number <= old(self)@.outbox.len()
                && draft_integrity(old(self)@.outbox[order_number - 1]) != 0
                ==> (r matches Err(MailError::SMTPMailIntegrityFailedError(k))
                && k == draft_integrity(old(self)@.outbox[order_number - 1])
                && final(self)@ == old(self)@),
            old(self)@.state == State::Authorized && 1 <= order_number <= old(self)@.outbox.len()
                && draft_integrity(old(self)@.outbox[order_number - 1]) == 0
                ==> (r matches Ok(c)
                && c@ == "mail from:<"@ + old(self)@.outbox[order_number - 1].from->0 + ">"@
                && final(self)@ == (ClientView {
                    outbox: abandoned(old(self)@).outbox.remove(order_number - 1),
                    in_flight: Some(old(self)@.outbox[order_number - 1]),
                    ..advanced(abandoned(old(self)@), Some(Stage::MailFrom))
                })),
    {
        if self.state != State::Authorized {
            return Err(MailError::SessionStateError);
        }
        if order_number < 1 || order_number > self.mail_group.len() {
            return Err(MailError::SMTPMailNotFoundError(order_number));
        }
        let code = self.mail_group[order_number - 1].check_integrity();
        if code != 0 {
            return Err(MailError::SMTPMailIntegrityFailedError(code));
        }
        self.abandon();
        assert(self@.outbox[order_number - 1] == old(self)@.outbox[order_number - 1]);
        let ghost before = self.mail_group@;
        let mail = self.mail_group.remove(order_number - 1);
        assert(mail@ == old(self)@.outbox[order_number - 1]);
        assert(drafts(self.mail_group@) =~= drafts(before).remove(order_number - 1));
        let command = match &mail.from {
            Some(from) => concat3("mail from:<", from.as_str(), ">"),
            None => String::new(),
        };
        self.in_flight = Some(mail);
        self.stage = Some(Stage::MailFrom);
        Ok(command)
    }

    /// Ends the session: the outbox is cleared and the state returns to
    /// `Init` whatever the server answers; the quit command to send.
    pub fn quit(&mut self) -> (r: Result<String, MailError>)
        requires
            old(self).wf(),
        ensures
            final(self).wf(),
            old(self)@.state == State::Init ==> (r matches Err(MailError::SessionStateError)
                && final(self)@ == old(self)@),
            old(self)@.state != State::Init ==> (r matches Ok(c) && c@ == "quit"@
                && final(self)@ == (ClientView {
                    state: State::Init,
                    outbox: Seq::empty(),
                    stage: Some(Stage::Quit),
                    pending: Seq::empty(),
                    in_flight: None,
                    ..old(self)@
                })),
    {
        if self.state == State::Init {
            return Err(MailError::SessionStateError);
        }
        self.mail_group = Vec::new();
        self.in_flight = None;
        self.reader = ReplyReader::new();
        self.state = State::Init;
        self.stage = Some(Stage::Quit);
        assert(drafts(self.mail_group@) =~= Seq::<MailDraft>::empty());
        let command = concat3("quit", "", "");
        proof {
            reveal_strlit("");
            assert(command@ =~= "quit"@);
        }
        Ok(command)
    }

    /// Drops the session back to `Init` without a goodbye, clearing the debug
    /// flag, the outbox and any exchange in progress.
    pub fn reset(&mut self)
        requires
            old(self).wf(),
        ensures
            final(self).wf(),
            final(self)@ == (ClientView {
                state: State::Init,
                debug: false,
                outbox: Seq::empty(),
                stage: None,
                pending: Seq::empty(),
                in_flight: None,
                ..old(self)@
            }),
    {
        self.mail_group = Vec::new();
        self.in_flight = None;
        self.reader = ReplyReader::new();
        self.state = State::Init;
        self.stage = None;
        self.debug = false;
        assert(drafts(self.mail_group@) =~= Seq::<MailDraft>::empty());
    }

    /// Gives up the exchange in progress, as after a failed read or write: a
    /// mail whose data was not yet accepted returns to the end of the outbox.
    pub fn abandon(&mut self)
        requires
            old(self).wf(),
        ensures
            final(self).wf(),
            final(self)@ == abandoned(old(self)@),
    {
        self.stage = None;
        self.reader = ReplyReader::new();
        let mut mail: Option<SMTPMail> = None;
        std::mem::swap(&mut mail, &mut self.in_flight);
        match mail {
            Some(m) => {
                let ghost d = m@;
                self.mail_group.push(m);
                assert(drafts(self.mail_group@) =~= old(self)@.outbox.push(d));
            },
            None => {},
        }
    }

    /// Takes one received line of the reply being awaited, and says what to
    /// do next. A code other than the expected one ends the exchange.
    pub fn receive_line(&mut self, line: &str) -> (r: Result<Action, MailError>)
        requires
            old(self).wf(),
        ensures
            final(self).wf(),
            old(self)@.stage is None ==> (r matches Err(MailError::SessionStateError)
                && final(self)@ == old(self)@),
            old(self)@.stage is Some ==> match gather_step(old(self)@.pending, line@) {
                Gathered::Pending(texts) => r matches Ok(Action::Receive)
                    && final(self)@ == (ClientView { pending: texts, ..old(self)@ }),
                Gathered::Complete(c, _) => final(self)@ == on_reply(old(self)@, c).0
                    && match on_reply(old(self)@, c).1 {
                        Some(a) => r matches Ok(act) && action_view(act) == a,
                        None => r matches Err(MailError::SMTPUnexpectedCodeError(k)) && k == c,
                    },
                Gathered::Malformed(l) => final(self)@ == abandoned(old(self)@)
                    && (r matches Err(MailError::SMTPResponseParseError(t)) && t@ == l),
                Gathered::Overtime => final(self)@ == abandoned(old(self)@)
                    && (r matches Err(MailError::SMTPResponseOvertimeError)),
            },
    {
        let stage = match self.stage {
            Some(s) => s,
            None => {
                return Err(MailError::SessionStateError);
            },
        };
        match self.reader.feed(line) {
            Err(e) => {
                self.abandon();
                Err(e)
            },
            Ok(None) => Ok(Action::Receive),
            Ok(Some(resp)) => {
                let code = resp.code();
                self.complete(stage, code)
            },
        }
    }

    fn complete(&mut self, stage: Stage, code: usize) -> (r: Result<Action, MailError>)
        requires
            old(self).wf(),
            old(self)@.stage == Some(stage),
        ensures
            final(self).wf(),
            final(self)@ == on_reply(old(self)@, code as nat).0,
            match on_reply(old(self)@, code as nat).1 {
                Some(a) => r matches Ok(act) && action_view(act) == a,
                None => r matches Err(MailError::SMTPUnexpectedCodeError(k)) && k == code,
            },
    {
        proof {
            reveal_strlit("");
            assert("auth login"@ + ""@ + ""@ =~= "auth login"@);
            assert("data"@ + ""@ + ""@ =~= "data"@);
        }
        if code != expected_code_exec(stage) {
            self.abandon();
            return Err(MailError::SMTPUnexpectedCodeError(code));
        }
        self.reader = ReplyReader::new();
        match stage {
            Stage::Greeting => {
                self.state = State::TCPConnected;
                self.stage = None;
                Ok(Action::Done)
            },
            Stage::Ehlo => {
                self.stage = Some(Stage::Auth);
                Ok(Action::Send(concat3("auth login", "", "")))
            },
            Stage::Auth => {
                self.stage = Some(Stage::AuthUser);
                Ok(Action::Send(encode_base64(self.account.as_str())))
            },
            Stage::AuthUser => {
                self.stage = Some(Stage::AuthPass);
                Ok(Action::Send(encode_base64(self.password.as_str())))
            },
            Stage::AuthPass => {
                self.state = State::Authorized;
                self.stage = None;
                Ok(Action::Done)
            },
            Stage::MailFrom => {
                self.stage = Some(Stage::RcptTo);
                let command = match &self.in_flight {
                    Some(mail) => match &mail.to {
                        Some(to) => concat3("rcpt to:<", to.as_str(), ">"),
                        None => String::new(),
                    },
                    None => String::new(),
                };
                Ok(Action::Send(command))
            },
            Stage::RcptTo => {
                self.stage = Some(Stage::Data);
                Ok(Action::Send(concat3("data", "", "")))
            },
            Stage::Data => {
                self.stage = Some(Stage::Body);
                let mut mail: Option<SMTPMail> = None;
                std::mem::swap(&mut mail, &mut self.in_flight);
                match mail {
                    Some(m) => Ok(Action::SendLines(serialize(m))),
                    None => Ok(Action::SendLines(Vec::new())),
                }
            },
            Stage::Body => {
                self.stage = None;
                Ok(Action::Done)
            },
            Stage::Quit => {
                self.stage = None;
                Ok(Action::Done)
            },
        }
    }
}

} // verus!
