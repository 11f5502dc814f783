//! Decoding of a retrieved multipart message into its header fields and its
//! plain-text and HTML parts.

use vstd::prelude::*;
use encoding::{DecoderTrap, Encoding};
use encoding::all::GBK;
use crate::text::{
    chars_of, contains, contains_exec, find_char, flatten, has_prefix, index_of, occurs_at, occurs_at_exec,
    push_range, range_is, string_of,
};
use crate::util::MailError;

verus! {

/// The integrity code reported when the headers name no boundary.
pub const MISSING_BOUNDARY: usize = 7;

/// What standard base64 `s` decodes to, if it is valid base64.
pub uninterp spec fn base64_decoded(s: Seq<char>) -> Option<Seq<u8>>;

/// Relies on `base64::decode` (standard alphabet, padded): the bytes that `s`
/// encodes, or nothing where `s` is not such an encoding.
#[verifier::external_body]
fn decode_base64(s: &str) -> (r: Option<Vec<u8>>)
    ensures
        match r {
            Some(b) => base64_decoded(s@) == Some(b@),
            None => base64_decoded(s@) is None,
        },
{
    base64::decode(s).ok()
}

/// What the GBK bytes `b` decode to, if they are valid GBK.
pub uninterp spec fn gbk_decoded(b: Seq<u8>) -> Option<Seq<char>>;

/// Relies on `encoding::all::GBK.decode` with `DecoderTrap::Strict`: the text
/// that `b` encodes, or nothing where `b` holds an invalid sequence.
#[verifier::external_body]
fn decode_gbk(b: &Vec<u8>) -> (r: Option<String>)
    ensures
        match r {
            Some(t) => gbk_decoded(b@) == Some(t@),
            None => gbk_decoded(b@) is None,
        },
{
    GBK.decode(b.as_slice(), DecoderTrap::Strict).ok()
}

// ---------------------------------------------------------------- lines

pub open spec fn without_cr(l: Seq<char>) -> Seq<char> {
    if l.len() > 0 && l.last() == '\r' {
        l.drop_last()
    } else {
        l
    }
}

/// Finished lines and the line in progress after reading `s`.
pub open spec fn split_state(s: Seq<char>) -> (Seq<Seq<char>>, Seq<char>)
    decreases s.len(),
{
    if s.len() == 0 {
        (Seq::empty(), Seq::empty())
    } else {
        let (done, cur) = split_state(s.drop_last());
        if s.last() == '\n' {
            (done.push(without_cr(cur)), Seq::empty())
        } else {
            (done, cur.push(s.last()))
        }
    }
}

/// The lines of `s`: split at `\n`, a `\r` before it dropped, and no empty
/// line after a final `\n`.
pub open spec fn lines_of(s: Seq<char>) -> Seq<Seq<char>> {
    let (done, cur) = split_state(s);
    if cur.len() > 0 {
        done.push(cur)
    } else {
        done
    }
}

/// The texts of a sequence of character vectors.
pub open spec fn views(v: Seq<Vec<char>>) -> Seq<Seq<char>> {
    v.map_values(|l: Vec<char>| l@)
}

/// Splits text into its lines.
pub fn split_lines(v: &Vec<char>) -> (r: Vec<Vec<char>>)
    ensures
        views(r@) == lines_of(v@),
{
    let mut done: Vec<Vec<char>> = Vec::new();
    let mut cur: Vec<char> = Vec::new();
    let mut i: usize = 0;
    assert(v@.subrange(0, 0) =~= Seq::<char>::empty());
    assert(views(done@) =~= Seq::<Seq<char>>::empty());
    while i < v.len()
        invariant
            i <= v@.len(),
            (views(done@), cur@) == split_state(v@.subrange(0, i as int)),
        decreases v.len() - i,
    {
        let c = v[i];
        assert(v@.subrange(0, i + 1).drop_last() =~= v@.subrange(0, i as int));
        let ghost old_done = views(done@);
        if c == '\n' {
            let ghost whole = cur@;
            if cur.len() > 0 && cur[cur.len() - 1] == '\r' {
                cur.pop();
            }
            assert(cur@ =~= without_cr(whole));
            done.push(cur);
            cur = Vec::new();
            assert(views(done@) =~= old_done.push(without_cr(whole)));
        } else {
            cur.push(c);
        }
        i = i + 1;
    }
    assert(v@.subrange(0, v@.len() as int) =~= v@);
    if cur.len() > 0 {
        let ghost old_done = views(done@);
        let ghost last = cur@;
        done.push(cur);
        assert(views(done@) =~= old_done.push(last));
    }
    done
}

// ---------------------------------------------------------------- headers

/// The header fields found so far.
pub struct HeaderView {
    pub time: Option<Seq<char>>,
    pub from: Option<(Seq<char>, Seq<char>)>,
    pub to: Option<(Seq<char>, Seq<char>)>,
    pub subject: Option<Seq<char>>,
    pub boundary: Option<Seq<char>>,
}

pub open spec fn rest_after(line: Seq<char>, p: Seq<char>) -> Seq<char> {
    line.subrange(p.len() as int, line.len() as int)
}

/// `Date: <text>` with nonempty text.
pub open spec fn date_of(line: Seq<char>) -> Option<Seq<char>> {
    if has_prefix(line, "Date: "@) && line.len() > "Date: "@.len() {
        Some(rest_after(line, "Date: "@))
    } else {
        None
    }
}

/// `<p>name" <address>...`: a quoted display name (the prefix `p` ends with the
/// opening quote) and a nonempty address in angle brackets.
pub open spec fn address_of(line: Seq<char>, p: Seq<char>) -> Option<(Seq<char>, Seq<char>)> {
    if has_prefix(line, p) {
        let q = index_of(line, '"', p.len() as int);
        if line.len() > 2 && q < line.len() - 2 && line[q + 1] == ' ' && line[q + 2] == '<' {
            let g = index_of(line, '>', q + 3);
            if q + 3 < g && g < line.len() {
                Some((line.subrange(p.len() as int, q), line.subrange(q + 3, g)))
            } else {
                None
            }
        } else {
            None
        }
    } else {
        None
    }
}

/// `Subject: <text>`.
pub open spec fn subject_of(line: Seq<char>) -> Option<Seq<char>> {
    if has_prefix(line, "Subject: "@) {
        Some(rest_after(line, "Subject: "@))
    } else {
        None
    }
}

/// A tab-indented `boundary="<text>"` attribute.
pub open spec fn boundary_of(line: Seq<char>) -> Option<Seq<char>> {
    let p = "\tboundary=\""@;
    if has_prefix(line, p) {
        let q = index_of(line, '"', p.len() as int);
        if q < line.len() {
            Some(line.subrange(p.len() as int, q))
        } else {
            None
        }
    } else {
        None
    }
}

/// `To: <address>` without a display name.
pub open spec fn bare_to_of(line: Seq<char>) -> Option<Seq<char>> {
    if has_prefix(line, "To: "@) {
        Some(rest_after(line, "To: "@))
    } else {
        None
    }
}

/// One header line read: the first form that matches sets its field.
pub open spec fn header_step(h: HeaderView, line: Seq<char>) -> HeaderView {
    if date_of(line) is Some {
        HeaderView { time: date_of(line), ..h }
    } else if address_of(line, "From: \""@) is Some {
        HeaderView { from: address_of(line, "From: \""@), ..h }
    } else if address_of(line, "To: \""@) is Some {
        HeaderView { to: address_of(line, "To: \""@), ..h }
    } else if subject_of(line) is Some {
        HeaderView { subject: subject_of(line), ..h }
    } else if boundary_of(line) is Some {
        HeaderView { boundary: boundary_of(line), ..h }
    } else if bare_to_of(line) is Some {
        HeaderView { to: Some((Seq::empty(), bare_to_of(line)->0)), ..h }
    } else {
        h
    }
}

pub open spec fn no_headers() -> HeaderView {
    HeaderView { time: None, from: None, to: None, subject: None, boundary: None }
}

/// The header scan over `lines`; it stops at the first boundary line.
pub open spec fn header_scan(lines: Seq<Seq<char>>) -> HeaderView
    decreases lines.len(),
{
    if lines.len() == 0 {
        no_headers()
    } else {
        let h = header_scan(lines.drop_last());
        if h.boundary is Some {
            h
        } else {
            header_step(h, lines.last())
        }
    }
}

proof fn lemma_header_scan_stops(lines: Seq<Seq<char>>, k: int)
    requires
        0 <= k <= lines.len(),
        header_scan(lines.subrange(0, k)).boundary is Some,
    ensures
        header_scan(lines) == header_scan(lines.subrange(0, k)),
    decreases lines.len() - k,
{
    if k < lines.len() {
        assert(lines.subrange(0, k + 1).drop_last() =~= lines.subrange(0, k));
        lemma_header_scan_stops(lines, k + 1);
    } else {
        assert(lines.subrange(0, k) =~= lines);
    }
}

pub open spec fn opt_view(o: Option<String>) -> Option<Seq<char>> {
    match o {
        Some(s) => Some(s@),
        None => None,
    }
}

pub open spec fn pair_view(o: Option<(String, String)>) -> Option<(Seq<char>, Seq<char>)> {
    match o {
        Some((a, b)) => Some((a@, b@)),
        None => None,
    }
}

struct Headers {
    time: Option<String>,
    from: Option<(String, String)>,
    to: Option<(String, String)>,
    subject: Option<String>,
    boundary: Option<String>,
}

impl View for Headers {
    type V = HeaderView;

    closed spec fn view(&self) -> HeaderView {
        HeaderView {
            time: opt_view(self.time),
            from: pair_view(self.from),
            to: pair_view(self.to),
            subject: opt_view(self.subject),
            boundary: opt_view(self.boundary),
        }
    }
}

fn rest_if_prefixed(line: &Vec<char>, p: &str) -> (r: Option<String>)
    ensures
        opt_view(r) == (if has_prefix(line@, p@) {
            Some(rest_after(line@, p@))
        } else {
            None
        }),
{
    let pv = chars_of(p);
    if occurs_at_exec(line, &pv, 0) {
        Some(string_of(line, pv.len(), line.len()))
    } else {
        None
    }
}

fn address_in(line: &Vec<char>, p: &str) -> (r: Option<(String, String)>)
    ensures
        pair_view(r) == address_of(line@, p@),
{
    let pv = chars_of(p);
    if !occurs_at_exec(line, &pv, 0) {
        return None;
    }
    match find_char(line, pv.len(), '"') {
        None => None,
        Some(q) => {
            if line.len() > 2 && q < line.len() - 2 && line[q + 1] == ' ' && line[q + 2] == '<' {
                match find_char(line, q + 3, '>') {
                    Some(g) => {
                        if g > q + 3 {
                            Some((string_of(line, pv.len(), q), string_of(line, q + 3, g)))
                        } else {
                            None
                        }
                    },
                    None => None,
                }
            } else {
                None
            }
        },
    }
}

fn boundary_in(line: &Vec<char>) -> (r: Option<String>)
    ensures
        opt_view(r) == boundary_of(line@),
{
    let pv = chars_of("\tboundary=\"");
    if !occurs_at_exec(line, &pv, 0) {
        return None;
    }
    match find_char(line, pv.len(), '"') {
        Some(q) => Some(string_of(line, pv.len(), q)),
        None => None,
    }
}

fn header_step_exec(h: &mut Headers, line: &Vec<char>)
    ensures
        final(h)@ == header_step(old(h)@, line@),
{
    proof {
        reveal_strlit("Date: ");
    }
    let date = rest_if_prefixed(line, "Date: ");
    if date.is_some() && line.len() > 6 {
        h.time = date;
        return;
    }
    let from = address_in(line, "From: \"");
    if from.is_some() {
        h.from = from;
        return;
    }
    let to = address_in(line, "To: \"");
    if to.is_some() {
        h.to = to;
        return;
    }
    let subject = rest_if_prefixed(line, "Subject: ");
    if subject.is_some() {
        h.subject = subject;
        return;
    }
    let boundary = boundary_in(line);
    if boundary.is_some() {
        h.boundary = boundary;
        return;
    }
    match rest_if_prefixed(line, "To: ") {
        Some(address) => {
            h.to = Some((String::new(), address));
        },
        None => {},
    }
}


// ---------------------------------------------------------------- parts

/// The kind of part being collected.
#[derive(Clone, Copy, Debug, PartialEq, Eq, Structural)]
pub enum PartKind {
    Plain,
    Html,
}

/// The part scan's state: the open part, its transfer encoding, its text so
/// far, and the parts already closed.
pub struct BodyView {
    pub open: Option<PartKind>,
    pub seven_bit: bool,
    pub acc: Seq<char>,
    pub plain: Option<Seq<char>>,
    pub html: Option<Seq<char>>,
}

/// Why a message does not decode.
pub enum DecodeFault {
    MissingBoundary,
    Format(Seq<char>),
    Decode(Seq<char>),
    Incomplete(nat),
}

/// `Content-Type: <type>; charset=<charset>`, the type free of `;`.
pub open spec fn content_type_of(line: Seq<char>) -> Option<(Seq<char>, Seq<char>)> {
    let p = "Content-Type: "@;
    let c = "; charset="@;
    if has_prefix(line, p) {
        let k = index_of(line, ';', p.len() as int);
        if occurs_at(line, c, k) {
            Some((line.subrange(p.len() as int, k), line.subrange(k + c.len(), line.len() as int)))
        } else {
            None
        }
    } else {
        None
    }
}

/// `Content-Transfer-Encoding: <encoding>`.
pub open spec fn encoding_of(line: Seq<char>) -> Option<Seq<char>> {
    if has_prefix(line, "Content-Transfer-Encoding: "@) {
        Some(rest_after(line, "Content-Transfer-Encoding: "@))
    } else {
        None
    }
}

/// The text of a closed part: as collected for 7bit, else base64 of GBK text.
pub open spec fn part_text(acc: Seq<char>, seven_bit: bool) -> Option<Seq<char>> {
    if seven_bit {
        Some(acc)
    } else {
        match base64_decoded(acc) {
            Some(b) => gbk_decoded(b),
            None => None,
        }
    }
}

pub open spec fn close_part(st: BodyView, kind: PartKind, t: Seq<char>) -> BodyView {
    BodyView {
        open: None,
        seven_bit: false,
        acc: Seq::empty(),
        plain: if kind == PartKind::Plain { Some(t) } else { st.plain },
        html: if kind == PartKind::Html { Some(t) } else { st.html },
    }
}

/// A delimiter line, given the decoded text of the open part: the part is
/// stored and closed, or the decoding fault is reported; with no part open
/// only the transfer encoding is reset.
pub open spec fn delimiter_step(st: BodyView, text: Option<Seq<char>>) -> Result<BodyView, DecodeFault> {
    match st.open {
        None => Ok(BodyView { seven_bit: false, ..st }),
        Some(kind) => match text {
            Some(t) => Ok(close_part(st, kind, t)),
            None => Err(DecodeFault::Decode(st.acc)),
        },
    }
}

/// One line of the part scan with delimiter `b`.
pub open spec fn body_step(st: BodyView, line: Seq<char>, b: Seq<char>) -> Result<BodyView, DecodeFault> {
    if content_type_of(line) is Some {
        let (t, c) = content_type_of(line)->0;
        if c == "GBK"@ && t == "text/plain"@ {
            Ok(BodyView { open: Some(PartKind::Plain), acc: Seq::empty(), ..st })
        } else if c == "GBK"@ && t == "text/html"@ {
            Ok(BodyView { open: Some(PartKind::Html), acc: Seq::empty(), ..st })
        } else {
            Err(DecodeFault::Format(line))
        }
    } else if encoding_of(line) is Some {
        let e = encoding_of(line)->0;
        if e == "base64"@ {
            Ok(BodyView { seven_bit: false, ..st })
        } else if e == "7bit"@ {
            Ok(BodyView { seven_bit: true, ..st })
        } else {
            Err(DecodeFault::Format(line))
        }
    } else if contains(line, b) {
        delimiter_step(st, part_text(st.acc, st.seven_bit))
    } else if st.open is Some {
        Ok(BodyView { acc: st.acc + line, ..st })
    } else {
        Ok(st)
    }
}

pub open spec fn no_parts() -> BodyView {
    BodyView { open: None, seven_bit: false, acc: Seq::empty(), plain: None, html: None }
}

/// The part scan over `lines` from state `st`, stopping at the first fault.
pub open spec fn scan_from(st: BodyView, lines: Seq<Seq<char>>, b: Seq<char>) -> Result<BodyView, DecodeFault>
    decreases lines.len(),
{
    if lines.len() == 0 {
        Ok(st)
    } else {
        match scan_from(st, lines.drop_last(), b) {
            Ok(next) => body_step(next, lines.last(), b),
            Err(f) => Err(f),
        }
    }
}

/// The part scan over a whole message.
pub open spec fn body_scan(lines: Seq<Seq<char>>, b: Seq<char>) -> Result<BodyView, DecodeFault> {
    scan_from(no_parts(), lines, b)
}

/// The part scan: the open part, its transfer encoding and text so far, and
/// the parts already closed.
pub struct PartScan {
    open: Option<PartKind>,
    seven_bit: bool,
    acc: String,
    plain: Option<String>,
    html: Option<String>,
}

impl View for PartScan {
    type V = BodyView;

    closed spec fn view(&self) -> BodyView {
        BodyView {
            open: self.open,
            seven_bit: self.seven_bit,
            acc: self.acc@,
            plain: opt_view(self.plain),
            html: opt_view(self.html),
        }
    }
}

/// The engine's error for a decode fault.
pub open spec fn fault_is(f: DecodeFault, e: MailError) -> bool {
    match (f, e) {
        (DecodeFault::MissingBoundary, MailError::POP3MailIntegrityFailedError(n)) => n == MISSING_BOUNDARY,
        (DecodeFault::Format(l), MailError::POP3MailFormatNotSupportError(t)) => t@ == l,
        (DecodeFault::Decode(a), MailError::POP3MailDecodeError(t)) => t@ == a,
        (DecodeFault::Incomplete(k), MailError::POP3MailIntegrityFailedError(n)) => n == k,
        _ => false,
    }
}

/// Decodes a part's collected text.
fn decode_part(acc: &String, seven_bit: bool) -> (r: Option<String>)
    ensures
        opt_view(r) == part_text(acc@, seven_bit),
{
    if seven_bit {
        return Some(acc.clone());
    }
    match decode_base64(acc.as_str()) {
        Some(bytes) => decode_gbk(&bytes),
        None => None,
    }
}

fn body_step_exec(st: &mut PartScan, line: &Vec<char>, b: &Vec<char>) -> (r: Result<(), MailError>)
    ensures
        match body_step(old(st)@, line@, b@) {
            Ok(next) => r is Ok && final(st)@ == next,
            Err(f) => r matches Err(e) && fault_is(f, e),
        },
{
    proof {
        reveal_strlit("; charset=");
    }
    assert(line@.subrange(0, line@.len() as int) =~= line@);
    let ct = chars_of("Content-Type: ");
    if occurs_at_exec(line, &ct, 0) {
        match find_char(line, ct.len(), ';') {
            Some(k) => {
                let cs = chars_of("; charset=");
                if occurs_at_exec(line, &cs, k) {
                    let n = line.len();
                    assert(k + cs@.len() <= line@.len());
                    let gbk = range_is(line, k + cs.len(), n, "GBK");
                    if gbk && range_is(line, ct.len(), k, "text/plain") {
                        st.open = Some(PartKind::Plain);
                        st.acc = String::new();
                        return Ok(());
                    } else if gbk && range_is(line, ct.len(), k, "text/html") {
                        st.open = Some(PartKind::Html);
                        st.acc = String::new();
                        return Ok(());
                    } else {
                        return Err(MailError::POP3MailFormatNotSupportError(string_of(line, 0, line.len())));
                    }
                }
            },
            None => {},
        }
    }
    let te = chars_of("Content-Transfer-Encoding: ");
    if occurs_at_exec(line, &te, 0) {
        if range_is(line, te.len(), line.len(), "base64") {
            st.seven_bit = false;
            return Ok(());
        } else if range_is(line, te.len(), line.len(), "7bit") {
            st.seven_bit = true;
            return Ok(());
        } else {
            return Err(MailError::POP3MailFormatNotSupportError(string_of(line, 0, line.len())));
        }
    }
    if contains_exec(line, b) {
        let text = match st.open {
            Some(_) => decode_part(&st.acc, st.seven_bit),
            None => None,
        };
        return st.close_with(text);
    }
    if st.open.is_some() {
        push_range(&mut st.acc, line, 0, line.len());
        assert(line@.subrange(0, line@.len() as int) =~= line@);
    }
    Ok(())
}

impl PartScan {
    /// A scan with no part open and none closed.
    pub fn new() -> (r: PartScan)
        ensures
            r@ == no_parts(),
    {
        PartScan { open: None, seven_bit: false, acc: String::new(), plain: None, html: None }
    }

    pub fn open_part(&self) -> (r: Option<PartKind>)
        ensures
            r == self@.open,
    {
        self.open
    }

    /// The text collected for the open part.
    pub fn collected(&self) -> (r: &String)
        ensures
            r@ == self@.acc,
    {
        &self.acc
    }

    pub fn plain(&self) -> (r: &Option<String>)
        ensures
            opt_view(*r) == self@.plain,
    {
        &self.plain
    }

    pub fn html(&self) -> (r: &Option<String>)
        ensures
            opt_view(*r) == self@.html,
    {
        &self.html
    }

    /// Handles a delimiter line, given the decoded text of the open part
    /// (nothing where it does not decode).
    pub fn close_with(&mut self, text: Option<String>) -> (r: Result<(), MailError>)
        ensures
            match delimiter_step(old(self)@, opt_view(text)) {
                Ok(next) => r is Ok && final(self)@ == next,
                Err(f) => (r matches Err(e) && fault_is(f, e)) && final(self)@ == old(self)@,
            },
    {
        match self.open {
            None => {
                self.seven_bit = false;
                Ok(())
            },
            Some(kind) => match text {
                Some(t) => {
                    match kind {
                        PartKind::Plain => {
                            self.plain = Some(t);
                        },
                        PartKind::Html => {
                            self.html = Some(t);
                        },
                    }
                    self.open = None;
                    self.seven_bit = false;
                    self.acc = String::new();
                    Ok(())
                },
                None => Err(MailError::POP3MailDecodeError(self.acc.clone())),
            },
        }
    }

    /// Reads one line of the message with delimiter `boundary`.
    pub fn read_line(&mut self, line: &str, boundary: &str) -> (r: Result<(), MailError>)
        ensures
            match body_step(old(self)@, line@, boundary@) {
                Ok(next) => r is Ok && final(self)@ == next,
                Err(f) => r matches Err(e) && fault_is(f, e),
            },
    {
        let l = chars_of(line);
        let b = chars_of(boundary);
        body_step_exec(self, &l, &b)
    }
}

/// A line that none of the part headers or the delimiter `b` matches.
pub open spec fn is_payload_line(line: Seq<char>, b: Seq<char>) -> bool {
    content_type_of(line) is None && encoding_of(line) is None && !contains(line, b)
}

/// A part tagged as GBK plain text in base64 (a `Content-Type` line, then a
/// `Content-Transfer-Encoding` line), followed by payload lines and a
/// delimiter line, closes with the plain text that the joined payload
/// decodes to; the part is closed and the HTML part is left as it was.
pub proof fn lemma_plain_part(
    st: BodyView,
    b: Seq<char>,
    type_line: Seq<char>,
    encoding_line: Seq<char>,
    payload: Seq<Seq<char>>,
    delimiter: Seq<char>,
    bytes: Seq<u8>,
    text: Seq<char>,
)
    requires
        content_type_of(type_line) == Some(("text/plain"@, "GBK"@)),
        content_type_of(encoding_line) is None,
        encoding_of(encoding_line) == Some("base64"@),
        forall|i: int| 0 <= i < payload.len() ==> is_payload_line(#[trigger] payload[i], b),
        content_type_of(delimiter) is None,
        encoding_of(delimiter) is None,
        contains(delimiter, b),
        base64_decoded(flatten(payload)) == Some(bytes),
        gbk_decoded(bytes) == Some(text),
    ensures
        scan_from(st, seq![type_line, encoding_line] + payload + seq![delimiter], b) matches Ok(next)
            && next.plain == Some(text) && next.html == st.html && next.open is None,
{
    let head = seq![type_line, encoding_line];
    lemma_payload_collected(st, b, type_line, encoding_line, payload, payload.len() as int);
    let lines = head + payload + seq![delimiter];
    assert(payload.subrange(0, payload.len() as int) =~= payload);
    assert(lines.drop_last() =~= head + payload);
    assert(lines.last() == delimiter);
    let collected = BodyView {
        open: Some(PartKind::Plain),
        seven_bit: false,
        acc: flatten(payload),
        ..st
    };
    assert(scan_from(st, head + payload, b) == Ok::<BodyView, DecodeFault>(collected));
    assert(part_text(flatten(payload), false) == Some(text));
    assert(scan_from(st, lines, b) == body_step(collected, delimiter, b));
}

proof fn lemma_payload_collected(
    st: BodyView,
    b: Seq<char>,
    type_line: Seq<char>,
    encoding_line: Seq<char>,
    payload: Seq<Seq<char>>,
    k: int,
)
    requires
        0 <= k <= payload.len(),
        content_type_of(type_line) == Some(("text/plain"@, "GBK"@)),
        content_type_of(encoding_line) is None,
        encoding_of(encoding_line) == Some("base64"@),
        forall|i: int| 0 <= i < payload.len() ==> is_payload_line(#[trigger] payload[i], b),
    ensures
        scan_from(st, seq![type_line, encoding_line] + payload.subrange(0, k), b) == Ok::<BodyView, DecodeFault>(
            BodyView {
                open: Some(PartKind::Plain),
                seven_bit: false,
                acc: flatten(payload.subrange(0, k)),
                ..st
            },
        ),
    decreases k,
{
    let head = seq![type_line, encoding_line];
    if k == 0 {
        assert(payload.subrange(0, 0) =~= Seq::<Seq<char>>::empty());
        assert(head + payload.subrange(0, 0) =~= head);
        assert(head.drop_last() =~= seq![type_line]);
        assert(head.drop_last().drop_last() =~= Seq::<Seq<char>>::empty());
        assert(flatten(Seq::<Seq<char>>::empty()) =~= Seq::<char>::empty());
        let opened = BodyView { open: Some(PartKind::Plain), acc: Seq::empty(), ..st };
        assert(scan_from(st, Seq::<Seq<char>>::empty(), b) == Ok::<BodyView, DecodeFault>(st));
        assert(body_step(st, type_line, b) == Ok::<BodyView, DecodeFault>(opened));
        assert(scan_from(st, seq![type_line], b) == Ok::<BodyView, DecodeFault>(opened));
        assert(body_step(opened, encoding_line, b) == Ok::<BodyView, DecodeFault>(
            BodyView { seven_bit: false, ..opened },
        ));
    } else {
        lemma_payload_collected(st, b, type_line, encoding_line, payload, k - 1);
        let lines = head + payload.subrange(0, k);
        assert(lines.drop_last() =~= head + payload.subrange(0, k - 1));
        assert(lines.last() == payload[k - 1]);
        assert(is_payload_line(payload[k - 1], b));
        assert(payload.subrange(0, k).drop_last() =~= payload.subrange(0, k - 1));
        assert(payload.subrange(0, k).last() == payload[k - 1]);
        assert(flatten(payload.subrange(0, k)) == flatten(payload.subrange(0, k - 1)) + payload[k - 1]);
    }
}

// ---------------------------------------------------------------- messages

/// A decoded message.
pub struct POP3Mail {
    time: Option<String>,
    from: Option<(String, String)>,
    to: Option<(String, String)>,
    subject: Option<String>,
    plain: Option<String>,
    html: Option<String>,
}

/// A decoded message as text.
pub struct MailView {
    pub time: Option<Seq<char>>,
    pub from: Option<(Seq<char>, Seq<char>)>,
    pub to: Option<(Seq<char>, Seq<char>)>,
    pub subject: Option<Seq<char>>,
    pub plain: Option<Seq<char>>,
    pub html: Option<Seq<char>>,
}

impl View for POP3Mail {
    type V = MailView;

    closed spec fn view(&self) -> MailView {
        MailView {
            time: opt_view(self.time),
            from: pair_view(self.from),
            to: pair_view(self.to),
            subject: opt_view(self.subject),
            plain: opt_view(self.plain),
            html: opt_view(self.html),
        }
    }
}

/// 0 when date, sender, recipient, plain part and HTML part are all present;
/// otherwise the position (1 to 5) of the first that is missing.
pub open spec fn integrity(m: MailView) -> nat {
    if m.time is None {
        1
    } else if m.from is None {
        2
    } else if m.to is None {
        3
    } else if m.plain is None {
        4
    } else if m.html is None {
        5
    } else {
        0
    }
}

/// Like `integrity`, for the header fields only: date, sender, recipient.
pub open spec fn head_integrity(m: MailView) -> nat {
    if m.time is None {
        1
    } else if m.from is None {
        2
    } else if m.to is None {
        3
    } else {
        0
    }
}

impl POP3Mail {
    /// A message with no field set.
    pub fn new() -> (r: POP3Mail)
        ensures
            r@ == (MailView { time: None, from: None, to: None, subject: None, plain: None, html: None }),
    {
        POP3Mail { time: None, from: None, to: None, subject: None, plain: None, html: None }
    }

    pub fn check_integrity(&self) -> (r: usize)
        ensures
            r == integrity(self@),
    {
        if self.time.is_none() {
            1
        } else if self.from.is_none() {
            2
        } else if self.to.is_none() {
            3
        } else if self.plain.is_none() {
            4
        } else if self.html.is_none() {
            5
        } else {
            0
        }
    }

    pub fn check_head_integrity(&self) -> (r: usize)
        ensures
            r == head_integrity(self@),
    {
        if self.time.is_none() {
            1
        } else if self.from.is_none() {
            2
        } else if self.to.is_none() {
            3
        } else {
            0
        }
    }

    pub fn time(&self) -> (r: &Option<String>)
        ensures
            opt_view(*r) == self@.time,
    {
        &self.time
    }

    /// Display name and address of the sender.
    pub fn from(&self) -> (r: &Option<(String, String)>)
        ensures
            pair_view(*r) == self@.from,
    {
        &self.from
    }

    /// Display name and address of the recipient.
    pub fn to(&self) -> (r: &Option<(String, String)>)
        ensures
            pair_view(*r) == self@.to,
    {
        &self.to
    }

    pub fn subject(&self) -> (r: &Option<String>)
        ensures
            opt_view(*r) == self@.subject,
    {
        &self.subject
    }

    pub fn plain(&self) -> (r: &Option<String>)
        ensures
            opt_view(*r) == self@.plain,
    {
        &self.plain
    }

    pub fn html(&self) -> (r: &Option<String>)
        ensures
            opt_view(*r) == self@.html,
    {
        &self.html
    }
}

/// What a raw message decodes to: the header fields from the header scan, the
/// parts from the part scan with the boundary it found, and a fault where the
/// boundary, a format, a payload or a required field is wrong.
pub open spec fn decoded(raw: Seq<char>) -> Result<MailView, DecodeFault> {
    let lines = lines_of(raw);
    let h = header_scan(lines);
    if h.boundary is None || h.boundary->0.len() == 0 {
        Err(DecodeFault::MissingBoundary)
    } else {
        match body_scan(lines, h.boundary->0) {
            Err(f) => Err(f),
            Ok(st) => {
                let m = MailView {
                    time: h.time,
                    from: h.from,
                    to: h.to,
                    subject: h.subject,
                    plain: st.plain,
                    html: st.html,
                };
                if integrity(m) != 0 {
                    Err(DecodeFault::Incomplete(integrity(m)))
                } else {
                    Ok(m)
                }
            },
        }
    }
}

/// Decodes a retrieved message into its header fields and its two text parts.
pub fn parse_raw_mail(raw: String) -> (r: Result<POP3Mail, MailError>)
    ensures
        match r {
            Ok(m) => decoded(raw@) == Ok::<MailView, DecodeFault>(m@),
            Err(e) => decoded(raw@) matches Err(f) && fault_is(f, e),
        },
{
    let chars = chars_of(raw.as_str());
    let lines = split_lines(&chars);
    let ghost ls = lines_of(raw@);
    let mut h = Headers { time: None, from: None, to: None, subject: None, boundary: None };
    let mut i: usize = 0;
    let mut found = false;
    assert(ls.subrange(0, 0) =~= Seq::<Seq<char>>::empty());
    while i < lines.len() && !found
        invariant
            views(lines@) == ls,
            i <= lines@.len(),
            h@ == header_scan(ls.subrange(0, i as int)),
            found == (h@.boundary is Some),
        decreases lines.len() - i,
    {
        assert(ls.subrange(0, i + 1).drop_last() =~= ls.subrange(0, i as int));
        header_step_exec(&mut h, &lines[i]);
        i = i + 1;
        found = h.boundary.is_some();
    }
    proof {
        if h@.boundary is Some {
            lemma_header_scan_stops(ls, i as int);
        } else {
            assert(ls.subrange(0, i as int) =~= ls);
        }
    }
    let boundary = match &h.boundary {
        Some(b) => chars_of(b.as_str()),
        None => Vec::new(),
    };
    if boundary.len() == 0 {
        return Err(MailError::POP3MailIntegrityFailedError(MISSING_BOUNDARY));
    }
    let mut st = PartScan::new();
    let mut j: usize = 0;
    while j < lines.len()
        invariant
            views(lines@) == ls,
            j <= lines@.len(),
            boundary@ == h@.boundary->0,
            boundary@.len() > 0,
            ls == lines_of(raw@),
            h@.boundary is Some,
            header_scan(ls) == h@,
            body_scan(ls.subrange(0, j as int), boundary@) == Ok::<BodyView, DecodeFault>(st@),
        decreases lines.len() - j,
    {
        assert(ls.subrange(0, j + 1).drop_last() =~= ls.subrange(0, j as int));
        assert(ls.subrange(0, j + 1).last() == lines@[j as int]@);
        match body_step_exec(&mut st, &lines[j], &boundary) {
            Err(e) => {
                assert(body_scan(ls.subrange(0, j + 1), boundary@) is Err);
                proof {
                    lemma_body_scan_fails(ls, boundary@, j as int + 1);
                }
                return Err(e);
            },
            Ok(()) => {},
        }
        j = j + 1;
    }
    assert(ls.subrange(0, j as int) =~= ls);
    let mail = POP3Mail {
        time: h.time,
        from: h.from,
        to: h.to,
        subject: h.subject,
        plain: st.plain,
        html: st.html,
    };
    let code = mail.check_integrity();
    if code != 0 {
        return Err(MailError::POP3MailIntegrityFailedError(code));
    }
    Ok(mail)
}

/// Once the part scan has failed on a prefix, it fails on the whole with the same fault.
proof fn lemma_body_scan_fails(lines: Seq<Seq<char>>, b: Seq<char>, k: int)
    requires
        0 <= k <= lines.len(),
        body_scan(lines.subrange(0, k), b) is Err,
    ensures
        body_scan(lines, b) == body_scan(lines.subrange(0, k), b),
    decreases lines.len() - k,
{
    if k < lines.len() {
        assert(lines.subrange(0, k + 1).drop_last() =~= lines.subrange(0, k));
        lemma_body_scan_fails(lines, b, k + 1);
    } else {
        assert(lines.subrange(0, k) =~= lines);
    }
}

} // verus!
