//! The error type shared by the transport, both protocols and the decoder.

use vstd::prelude::*;
use crate::smtp::{drafts, text_of, views_of_strings, MailDraft, SMTPMail};
use crate::text::{trim_end_of, trimmed_end};

verus! {

/// Every failure the engine reports, by layer.
#[derive(Debug, Clone, PartialEq, Eq)]
pub enum MailError {
    /// Received bytes were not valid UTF-8.
    TCPFromUTF8Error,
    /// A write on the connection failed.
    TCPWriteError,
    /// No connection is open.
    TCPNoConnectionError,
    /// Opening the connection failed.
    TCPConnectFailError,
    /// The operation does not fit the session's current state.
    SessionStateError,
    /// A retrieval reply line that is neither `+OK ` nor `-ERR ` followed by text.
    POP3ResponseParseError(String),
    /// A status or listing body that is not two numbers.
    POP3StatusParseError(String),
    /// A retrieval header that is not `<number> octets`.
    POP3OctetsParseError(String),
    /// The server answered `-ERR` with this text.
    POP3ErrResponse(String),
    /// The message is already staged for deletion.
    POP3DeleteDuplicateError(usize),
    /// A decoded message lacks a required field (see `POP3Mail::check_integrity`),
    /// or has no boundary (`MISSING_BOUNDARY`).
    POP3MailIntegrityFailedError(usize),
    /// A part's payload is not base64 of GBK text.
    POP3MailDecodeError(String),
    /// A part header names a type, charset or transfer encoding that is not handled.
    POP3MailFormatNotSupportError(String),
    /// A submission reply line without a status code and marker.
    SMTPResponseParseError(String),
    /// More continuation lines arrived than any server sends.
    SMTPResponseOvertimeError,
    /// The reply lines ended before a final line.
    SMTPResponseIncompleteError,
    /// The server answered with this code where another was needed.
    SMTPUnexpectedCodeError(usize),
    /// No mail stands at this position of the outbox.
    SMTPMailNotFoundError(usize),
    /// The mail lacks a field (see `SMTPMail::check_integrity`).
    SMTPMailIntegrityFailedError(usize),
}

/// Whether the transport can recover from `error` by connecting again.
pub fn is_error_tcp_handled(error: MailError) -> (r: bool)
    ensures
        r == (error is TCPNoConnectionError || error is TCPConnectFailError),
{
    match error {
        MailError::TCPNoConnectionError => true,
        MailError::TCPConnectFailError => true,
        _ => false,
    }
}

/// Removes trailing white space from a successful result; an error passes unchanged.
pub fn trim_ok_result(result: Result<String, String>) -> (r: Result<String, String>)
    ensures
        match (result, r) {
            (Ok(s), Ok(t)) => t@ == trimmed_end(s@),
            (Err(s), Err(t)) => t == s,
            _ => false,
        },
{
    match result {
        Ok(s) => Ok(trim_end_of(s.as_str())),
        Err(s) => Err(s),
    }
}


fn clone_text(o: &Option<String>) -> (r: Option<String>)
    ensures
        text_of(r) == text_of(*o),
{
    match o {
        Some(s) => Some(s.clone()),
        None => None,
    }
}

fn clone_lines(v: &Vec<String>) -> (r: Vec<String>)
    ensures
        views_of_strings(r@) == views_of_strings(v@),
{
    let mut out: Vec<String> = Vec::new();
    let mut i: usize = 0;
    while i < v.len()
        invariant
            i <= v@.len(),
            views_of_strings(out@) == views_of_strings(v@.subrange(0, i as int)),
        decreases v.len() - i,
    {
        let c = v[i].clone();
        assert(c@ == v@[i as int]@);
        let ghost before = out@;
        out.push(c);
        assert(views_of_strings(out@) =~= views_of_strings(before).push(v@[i as int]@));
        assert(views_of_strings(v@.subrange(0, i + 1)) =~= views_of_strings(v@.subrange(0, i as int)).push(
            v@[i as int]@,
        ));
        i = i + 1;
    }
    assert(v@.subrange(0, i as int) =~= v@);
    out
}

/// Edits the outbox one mail at a time: a mail is taken from the saved list
/// (or created), its fields and lines edited, and saved back in place.
pub struct MailEditor {
    current_order: usize,
    current_saved: bool,
    lines: Vec<String>,
    saved_mails: Vec<SMTPMail>,
    current_from: Option<String>,
    current_to: Option<String>,
    current_subject: Option<String>,
    current_content: Option<Vec<String>>,
}

/// The editor as values. `order` is the 1-based position of the mail being
/// edited, 0 when none is.
pub struct EditorView {
    pub order: nat,
    pub saved: bool,
    pub lines: Seq<Seq<char>>,
    pub mails: Seq<MailDraft>,
    pub current: MailDraft,
}

impl View for MailEditor {
    type V = EditorView;

    closed spec fn view(&self) -> EditorView {
        EditorView {
            order: self.current_order as nat,
            saved: self.current_saved,
            lines: views_of_strings(self.lines@),
            mails: drafts(self.saved_mails@),
            current: MailDraft {
                from: text_of(self.current_from),
                to: text_of(self.current_to),
                subject: text_of(self.current_subject),
                content: match self.current_content {
                    Some(c) => Some(views_of_strings(c@)),
                    None => None,
                },
            },
        }
    }
}

pub open spec fn blank_draft() -> MailDraft {
    MailDraft { from: None, to: None, subject: None, content: None }
}

impl MailEditor {
    pub closed spec fn wf(&self) -> bool {
        self.current_order <= self.saved_mails@.len()
    }

    /// In a well-formed editor the mail being edited is one of the saved mails.
    pub proof fn lemma_wf(&self)
        requires
            self.wf(),
        ensures
            self@.order <= self@.mails.len(),
    {
    }

    /// An editor over `saved_mails`, with no mail taken.
    pub fn new(saved_mails: Vec<SMTPMail>) -> (r: MailEditor)
        ensures
            r.wf(),
            r@ == (EditorView {
                order: 0,
                saved: false,
                lines: Seq::empty(),
                mails: drafts(saved_mails@),
                current: blank_draft(),
            }),
    {
        let r = MailEditor {
            current_order: 0,
            current_saved: false,
            lines: Vec::new(),
            saved_mails,
            current_from: None,
            current_to: None,
            current_subject: None,
            current_content: None,
        };
        assert(r@.lines =~= Seq::<Seq<char>>::empty());
        r
    }

    /// Forgets the mail being edited.
    pub fn clear_current(&mut self)
        requires
            old(self).wf(),
        ensures
            final(self).wf(),
            final(self)@ == (EditorView {
                order: 0,
                saved: false,
                lines: Seq::empty(),
                current: blank_draft(),
                ..old(self)@
            }),
    {
        self.current_content = None;
        self.current_saved = false;
        self.current_order = 0;
        self.current_subject = None;
        self.current_to = None;
        self.current_from = None;
        self.lines.clear();
        assert(self@.lines =~= Seq::<Seq<char>>::empty());
    }

    pub fn current_order(&self) -> (r: usize)
        ensures
            r == self@.order,
    {
        self.current_order
    }

    pub fn is_saved(&self) -> (r: bool)
        ensures
            r == self@.saved,
    {
        self.current_saved
    }

    /// The saved mails, in order.
    pub fn saved_mails(&self) -> (r: &Vec<SMTPMail>)
        ensures
            drafts(r@) == self@.mails,
    {
        &self.saved_mails
    }

    /// The fields of the mail being edited.
    pub fn current(&self) -> (r: SMTPMail)
        ensures
            r@ == self@.current,
    {
        SMTPMail {
            from: clone_text(&self.current_from),
            to: clone_text(&self.current_to),
            subject: clone_text(&self.current_subject),
            content: match &self.current_content {
                Some(c) => Some(clone_lines(c)),
                None => None,
            },
        }
    }

    /// Whether the editor may be left: nothing is being edited, or it is saved.
    pub fn can_quit(&self) -> (r: bool)
        ensures
            r == (self@.order == 0 || self@.saved),
    {
        self.current_order == 0 || self.current_saved
    }

    /// Starts a new, empty mail at the end of the saved list; refused while
    /// the mail being edited is unsaved.
    pub fn take_new(&mut self) -> (r: bool)
        requires
            old(self).wf(),
        ensures
            final(self).wf(),
            r == (old(self)@.order == 0 || old(self)@.saved),
            !r ==> final(self)@ == old(self)@,
            r ==> final(self)@ == (EditorView {
                order: old(self)@.mails.len() + 1,
                saved: false,
                lines: Seq::empty(),
                mails: old(self)@.mails.push(blank_draft()),
                current: blank_draft(),
            }),
    {
        if !(self.current_order == 0 || self.current_saved) {
            return false;
        }
        self.saved_mails.push(SMTPMail::new());
        assert(drafts(self.saved_mails@) =~= old(self)@.mails.push(blank_draft()));
        self.current_order = self.saved_mails.len();
        self.current_saved = false;
        self.current_from = None;
        self.current_to = None;
        self.current_subject = None;
        self.current_content = None;
        self.lines.clear();
        assert(self@.lines =~= Seq::<Seq<char>>::empty());
        true
    }

    /// Loads the saved mail at 1-based position `order_number` for editing;
    /// refused while the mail being edited is unsaved, or where no mail stands.
    pub fn take(&mut self, order_number: usize) -> (r: bool)
        requires
            old(self).wf(),
        ensures
            final(self).wf(),
            r == ((old(self)@.order == 0 || old(self)@.saved) && 1 <= order_number <= old(self)@.mails.len()),
            !r ==> final(self)@ == old(self)@,
            r ==> final(self)@ == (EditorView {
                order: order_number as nat,
                saved: false,
                lines: match old(self)@.mails[order_number - 1].content {
                    Some(c) => c,
                    None => Seq::empty(),
                },
                mails: old(self)@.mails,
                current: old(self)@.mails[order_number - 1],
            }),
    {
        if !(self.current_order == 0 || self.current_saved) || order_number == 0 || order_number
            > self.saved_mails.len() {
            return false;
        }
        let mail = &self.saved_mails[order_number - 1];
        let from = clone_text(&mail.from);
        let to = clone_text(&mail.to);
        let subject = clone_text(&mail.subject);
        let (content, lines) = match &mail.content {
            Some(c) => (Some(clone_lines(c)), clone_lines(c)),
            None => {
                let empty: Vec<String> = Vec::new();
                assert(views_of_strings(empty@) =~= Seq::<Seq<char>>::empty());
                (None, empty)
            },
        };
        self.current_from = from;
        self.current_to = to;
        self.current_subject = subject;
        self.current_content = content;
        self.lines = lines;
        self.current_order = order_number;
        self.current_saved = false;
        true
    }

    /// Sets the sender of the mail being edited; refused when none is.
    pub fn set_from(&mut self, from: String) -> (r: bool)
        requires
            old(self).wf(),
        ensures
            final(self).wf(),
            r == (old(self)@.order != 0),
            !r ==> final(self)@ == old(self)@,
            r ==> final(self)@ == (EditorView {
                saved: false,
                current: MailDraft { from: Some(from@), ..old(self)@.current },
                ..old(self)@
            }),
    {
        if self.current_order == 0 {
            return false;
        }
        self.current_from = Some(from);
        self.current_saved = false;
        true
    }

    /// Sets the recipient of the mail being edited; refused when none is.
    pub fn set_to(&mut self, to: String) -> (r: bool)
        requires
            old(self).wf(),
        ensures
            final(self).wf(),
            r == (old(self)@.order != 0),
            !r ==> final(self)@ == old(self)@,
            r ==> final(self)@ == (EditorView {
                saved: false,
                current: MailDraft { to: Some(to@), ..old(self)@.current },
                ..old(self)@
            }),
    {
        if self.current_order == 0 {
            return false;
        }
        self.current_to = Some(to);
        self.current_saved = false;
        true
    }

    /// Sets the subject of the mail being edited; refused when none is.
    pub fn set_subject(&mut self, subject: String) -> (r: bool)
        requires
            old(self).wf(),
        ensures
            final(self).wf(),
            r == (old(self)@.order != 0),
            !r ==> final(self)@ == old(self)@,
            r ==> final(self)@ == (EditorView {
                saved: false,
                current: MailDraft { subject: Some(subject@), ..old(self)@.current },
                ..old(self)@
            }),
    {
        if self.current_order == 0 {
            return false;
        }
        self.current_subject = Some(subject);
        self.current_saved = false;
        true
    }

    fn lines_changed(&mut self)
        requires
            old(self).wf(),
        ensures
            final(self).wf(),
            final(self)@ == (EditorView {
                saved: false,
                current: MailDraft { content: Some(old(self)@.lines), ..old(self)@.current },
                ..old(self)@
            }),
    {
        self.current_content = Some(clone_lines(&self.lines));
        self.current_saved = false;
    }

    /// Appends lines to the content of the mail being edited, or, with
    /// `replace`, makes them the whole content; refused when no mail is edited.
    pub fn write_lines(&mut self, new_lines: Vec<String>, replace: bool) -> (r: bool)
        requires
            old(self).wf(),
        ensures
            final(self).wf(),
            r == (old(self)@.order != 0),
            !r ==> final(self)@ == old(self)@,
            r ==> {
                let lines = if replace {
                    views_of_strings(new_lines@)
                } else {
                    old(self)@.lines + views_of_strings(new_lines@)
                };
                final(self)@ == (EditorView {
                    saved: false,
                    lines,
                    current: MailDraft { content: Some(lines), ..old(self)@.current },
                    ..old(self)@
                })
            },
    {
        if self.current_order == 0 {
            return false;
        }
        let mut new_lines = new_lines;
        let ghost added = views_of_strings(new_lines@);
        if replace {
            self.lines.clear();
        }
        let ghost before = self.lines@;
        self.lines.append(&mut new_lines);
        assert(views_of_strings(self.lines@) =~= views_of_strings(before) + added);
        proof {
            if replace {
                assert(views_of_strings(before) =~= Seq::<Seq<char>>::empty());
            }
        }
        self.lines_changed();
        true
    }

    /// Replaces content line `line_number` (1-based); refused when no mail is
    /// edited or no such line exists.
    pub fn replace_line(&mut self, line_number: usize, line: String) -> (r: bool)
        requires
            old(self).wf(),
        ensures
            final(self).wf(),
            r == (old(self)@.order != 0 && 1 <= line_number <= old(self)@.lines.len()),
            !r ==> final(self)@ == old(self)@,
            r ==> {
                let lines = old(self)@.lines.update(line_number - 1, line@);
                final(self)@ == (EditorView {
                    saved: false,
                    lines,
                    current: MailDraft { content: Some(lines), ..old(self)@.current },
                    ..old(self)@
                })
            },
    {
        if self.current_order == 0 || line_number == 0 || line_number > self.lines.len() {
            return false;
        }
        let ghost l = line@;
        self.lines.set(line_number - 1, line);
        assert(views_of_strings(self.lines@) =~= old(self)@.lines.update(line_number - 1, l));
        self.lines_changed();
        true
    }

    /// Removes content line `line_number` (1-based); refused when no mail is
    /// edited or no such line exists.
    pub fn remove_line(&mut self, line_number: usize) -> (r: bool)
        requires
            old(self).wf(),
        ensures
            final(self).wf(),
            r == (old(self)@.order != 0 && 1 <= line_number <= old(self)@.lines.len()),
            !r ==> final(self)@ == old(self)@,
            r ==> {
                let lines = old(self)@.lines.remove(line_number - 1);
                final(self)@ == (EditorView {
                    saved: false,
                    lines,
                    current: MailDraft { content: Some(lines), ..old(self)@.current },
                    ..old(self)@
                })
            },
    {
        if self.current_order == 0 || line_number == 0 || line_number > self.lines.len() {
            return false;
        }
        self.lines.remove(line_number - 1);
        assert(views_of_strings(self.lines@) =~= old(self)@.lines.remove(line_number - 1));
        self.lines_changed();
        true
    }

    /// Writes the mail being edited back to its place in the saved list;
    /// refused when none is edited.
    pub fn save(&mut self) -> (r: bool)
        requires
            old(self).wf(),
        ensures
            final(self).wf(),
            r == (old(self)@.order != 0),
            !r ==> final(self)@ == old(self)@,
            r ==> final(self)@ == (EditorView {
                saved: true,
                mails: old(self)@.mails.update(old(self)@.order - 1, old(self)@.current),
                ..old(self)@
            }),
    {
        if self.current_order == 0 {
            return false;
        }
        let mail = self.current();
        let ghost m = mail@;
        self.saved_mails.set(self.current_order - 1, mail);
        assert(drafts(self.saved_mails@) =~= old(self)@.mails.update(old(self)@.order - 1, m));
        self.current_saved = true;
        true
    }

    /// Deletes the saved mail at 1-based position `order_number`. If it is
    /// the one being edited, editing stops; a later one being edited keeps
    /// its place in the shortened list.
    pub fn delete(&mut self, order_number: usize) -> (r: bool)
        requires
            old(self).wf(),
        ensures
            final(self).wf(),
            r == (1 <= order_number <= old(self)@.mails.len()),
            !r ==> final(self)@ == old(self)@,
            r && old(self)@.order == order_number ==> final(self)@ == (EditorView {
                order: 0,
                saved: false,
                lines: Seq::empty(),
                mails: old(self)@.mails.remove(order_number - 1),
                current: blank_draft(),
            }),
            r && old(self)@.order != order_number ==> final(self)@ == (EditorView {
                order: if old(self)@.order > order_number {
                    (old(self)@.order - 1) as nat
                } else {
                    old(self)@.order
                },
                mails: old(self)@.mails.remove(order_number - 1),
                ..old(self)@
            }),
    {
        if order_number == 0 || order_number > self.saved_mails.len() {
            return false;
        }
        if self.current_order == order_number {
            self.clear_current();
        } else if self.current_order > order_number {
            self.current_order = self.current_order - 1;
        }
        self.saved_mails.remove(order_number - 1);
        assert(drafts(self.saved_mails@) =~= old(self)@.mails.remove(order_number - 1));
        true
    }

    /// The saved mails, handed back when editing ends.
    pub fn into_saved_mails(self) -> (r: Vec<SMTPMail>)
        ensures
            drafts(r@) == self@.mails,
    {
        self.saved_mails
    }
}

} // verus!
