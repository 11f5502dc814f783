use mail_client::smtp::{parse_response_group, serialize, Action, Client, ReplyReader, Response, SMTPMail, State};
use mail_client::tcp;
use mail_client::util::{MailEditor, MailError};

fn lines(v: &[&str]) -> Vec<String> {
    v.iter().map(|s| String::from(*s)).collect()
}

fn mail(from: Option<&str>, to: Option<&str>, subject: Option<&str>, content: Option<&[&str]>) -> SMTPMail {
    SMTPMail {
        from: from.map(String::from),
        to: to.map(String::from),
        subject: subject.map(String::from),
        content: content.map(lines),
    }
}

fn sent(a: Result<Action, MailError>) -> String {
    match a {
        Ok(Action::Send(s)) => s,
        other => panic!("expected a line to send, got {:?}", other),
    }
}

fn authorized() -> Client {
    let mut c = Client::new(String::from("smtp.example.com"), String::from("desk"));
    c.set_credentials(String::from("user"), String::from("secret"));
    assert_eq!(c.connect(), Ok(()));
    assert!(matches!(c.receive_line("220 ready\r\n"), Ok(Action::Done)));
    assert_eq!(c.state(), State::TCPConnected);
    assert_eq!(c.login(), Ok(String::from("ehlo desk")));
    assert!(matches!(c.receive_line("250-smtp.example.com\r\n"), Ok(Action::Receive)));
    assert_eq!(sent(c.receive_line("250 AUTH LOGIN\r\n")), "auth login");
    assert_eq!(sent(c.receive_line("334 VXNlcm5hbWU6\r\n")), "dXNlcg==");
    assert_eq!(sent(c.receive_line("334 UGFzc3dvcmQ6\r\n")), "c2VjcmV0");
    assert!(matches!(c.receive_line("235 accepted\r\n"), Ok(Action::Done)));
    assert_eq!(c.state(), State::Authorized);
    c
}

#[test]
fn gathers_multiline_reply() {
    let r = parse_response_group(&lines(&["250-first", "250-second", "250 third"])).unwrap();
    assert_eq!(r.code(), 250);
    assert_eq!(r.group(), &lines(&["first", "second", "third"]));
}

#[test]
fn lines_after_final_are_not_read() {
    let r = parse_response_group(&lines(&["354 go ahead\r\n", "garbage"])).unwrap();
    assert_eq!(r.code(), 354);
    assert_eq!(r.group(), &lines(&["go ahead"]));
}

#[test]
fn reply_text_keeps_trailing_spaces() {
    let r = parse_response_group(&lines(&["250-a \r\n", "250 b  \n"])).unwrap();
    assert_eq!(r.group(), &lines(&["a ", "b  "]));
}

#[test]
fn final_line_without_text() {
    let r = parse_response_group(&lines(&["221"])).unwrap();
    assert_eq!(r.code(), 221);
    assert_eq!(r.group(), &lines(&[""]));
}

#[test]
fn too_many_continuation_lines() {
    let mut v: Vec<String> = (0..1001).map(|i| format!("250-line {}", i)).collect();
    v.push(String::from("250 end"));
    assert_eq!(parse_response_group(&v).err().map(|e| e), Some(MailError::SMTPResponseOvertimeError));
}

#[test]
fn continuation_lines_at_the_bound() {
    let mut v: Vec<String> = (0..1000).map(|i| format!("250-line {}", i)).collect();
    v.push(String::from("250 end"));
    let r = parse_response_group(&v).unwrap();
    assert_eq!(r.group().len(), 1001);
}

#[test]
fn malformed_and_incomplete_replies() {
    assert_eq!(
        parse_response_group(&lines(&["25 short"])).err(),
        Some(MailError::SMTPResponseParseError(String::from("25 short")))
    );
    assert_eq!(
        parse_response_group(&lines(&["250*odd"])).err(),
        Some(MailError::SMTPResponseParseError(String::from("250*odd")))
    );
    assert_eq!(parse_response_group(&lines(&["250-more"])).err(), Some(MailError::SMTPResponseIncompleteError));
    assert_eq!(parse_response_group(&Vec::new()).err(), Some(MailError::SMTPResponseIncompleteError));
}

#[test]
fn reader_streams_lines() {
    let mut r = ReplyReader::new();
    assert!(matches!(r.feed("220-hello\r\n"), Ok(None)));
    let resp = r.feed("220 ready\r\n").unwrap().unwrap();
    assert_eq!(resp.code(), 220);
    assert_eq!(resp.group(), &lines(&["hello", "ready"]));
    let empty = Response::new(550);
    assert_eq!(empty.code(), 550);
    assert!(empty.group().is_empty());
}

#[test]
fn mail_integrity_codes() {
    assert_eq!(SMTPMail::new().check_integrity(), 1);
    assert_eq!(mail(Some("a@x"), None, Some("s"), Some(&["c"])).check_integrity(), 2);
    assert_eq!(mail(Some("a@x"), Some("b@x"), None, Some(&["c"])).check_integrity(), 3);
    assert_eq!(mail(Some("a@x"), Some("b@x"), Some("s"), None).check_integrity(), 4);
    assert_eq!(mail(Some("a@x"), Some("b@x"), Some("s"), Some(&["c"])).check_integrity(), 0);
}

#[test]
fn serialization_layout() {
    let m = mail(Some("a@x.org"), Some("b@y.org"), Some("Hi"), Some(&["line one", "line two"]));
    assert_eq!(
        serialize(m),
        lines(&["from:<a@x.org>", "to:<b@y.org>", "subject:Hi", "", "line one", "line two", "", "."])
    );
}

#[test]
fn incomplete_mail_stays_in_outbox() {
    let mut c = authorized();
    c.save(mail(Some("a@x.org"), None, Some("Hi"), Some(&["body"])));
    assert_eq!(c.send(1), Err(MailError::SMTPMailIntegrityFailedError(2)));
    assert_eq!(c.mail_group().len(), 1);
    let kept = &c.mail_group()[0];
    assert_eq!(kept.from, Some(String::from("a@x.org")));
    assert_eq!(kept.to, None);
    assert_eq!(kept.subject, Some(String::from("Hi")));
    assert_eq!(kept.content, Some(lines(&["body"])));
    assert!(matches!(c.receive_line("250 ok\r\n"), Err(MailError::SessionStateError)));
}

#[test]
fn full_send_flow() {
    let mut c = authorized();
    c.save(mail(Some("a@x.org"), Some("b@y.org"), Some("Hi"), Some(&["body"])));
    assert_eq!(c.send(1), Ok(String::from("mail from:<a@x.org>")));
    assert_eq!(c.mail_group().len(), 0);
    assert_eq!(sent(c.receive_line("250 sender ok\r\n")), "rcpt to:<b@y.org>");
    assert_eq!(sent(c.receive_line("250 recipient ok\r\n")), "data");
    match c.receive_line("354 go ahead\r\n") {
        Ok(Action::SendLines(v)) => {
            assert_eq!(v, lines(&["from:<a@x.org>", "to:<b@y.org>", "subject:Hi", "", "body", "", "."]))
        },
        other => panic!("expected data lines, got {:?}", other),
    }
    assert!(matches!(c.receive_line("250 queued\r\n"), Ok(Action::Done)));
    assert_eq!(c.mail_group().len(), 0);
}

#[test]
fn refused_data_requeues_mail() {
    let mut c = authorized();
    c.save(mail(Some("a@x.org"), Some("b@y.org"), Some("Hi"), Some(&["body"])));
    c.send(1).unwrap();
    sent(c.receive_line("250 ok\r\n"));
    sent(c.receive_line("250 ok\r\n"));
    assert_eq!(c.receive_line("554 no\r\n").err(), Some(MailError::SMTPUnexpectedCodeError(554)));
    assert_eq!(c.mail_group().len(), 1);
    assert_eq!(c.mail_group()[0].to, Some(String::from("b@y.org")));
}

#[test]
fn late_failure_does_not_requeue() {
    let mut c = authorized();
    c.save(mail(Some("a@x.org"), Some("b@y.org"), Some("Hi"), Some(&["body"])));
    c.send(1).unwrap();
    sent(c.receive_line("250 ok\r\n"));
    sent(c.receive_line("250 ok\r\n"));
    assert!(matches!(c.receive_line("354 go\r\n"), Ok(Action::SendLines(_))));
    assert_eq!(c.receive_line("451 failed\r\n").err(), Some(MailError::SMTPUnexpectedCodeError(451)));
    assert_eq!(c.mail_group().len(), 0);
}

#[test]
fn transport_failure_requeues_mail() {
    let mut c = authorized();
    c.save(mail(Some("a@x.org"), Some("b@y.org"), Some("Hi"), Some(&["body"])));
    c.send(1).unwrap();
    c.abandon();
    assert_eq!(c.mail_group().len(), 1);
}

#[test]
fn send_out_of_range_and_state() {
    let mut c = Client::new(String::from("h"), String::from("n"));
    assert_eq!(c.transport().get_port(), 25);
    assert_eq!(c.send(1), Err(MailError::SessionStateError));
    let mut c = authorized();
    assert_eq!(c.send(1), Err(MailError::SMTPMailNotFoundError(1)));
    assert_eq!(c.send(0), Err(MailError::SMTPMailNotFoundError(0)));
}

#[test]
fn failed_login_step_keeps_connected() {
    let mut c = Client::new(String::from("h"), String::from("n"));
    c.connect().unwrap();
    c.receive_line("220 hi\r\n").unwrap();
    c.login().unwrap();
    sent(c.receive_line("250 ok\r\n"));
    assert_eq!(c.receive_line("504 no auth\r\n").err(), Some(MailError::SMTPUnexpectedCodeError(504)));
    assert_eq!(c.state(), State::TCPConnected);
}

#[test]
fn quit_clears_outbox() {
    let mut c = authorized();
    c.save(SMTPMail::new());
    assert_eq!(c.quit(), Ok(String::from("quit")));
    assert_eq!(c.state(), State::Init);
    assert_eq!(c.mail_group().len(), 0);
    assert!(matches!(c.receive_line("221 bye\r\n"), Ok(Action::Done)));
}

#[test]
fn reset_clears_session() {
    let mut c = authorized();
    c.debug();
    c.save(SMTPMail::new());
    c.reset();
    assert_eq!(c.state(), State::Init);
    assert!(!c.is_debug());
    assert_eq!(c.mail_group().len(), 0);
}

#[test]
fn transport_frames_and_decodes() {
    let mut t = tcp::Client::new(String::from("mx.example.com"), 25);
    assert_eq!(t.frame("noop"), "noop");
    t.set_end_pointer(String::from("\r\n"));
    t.set_port(587);
    assert_eq!(t.frame("noop"), "noop\r\n");
    assert_eq!(t.get_port(), 587);
    assert_eq!(t.get_host_name(), "mx.example.com");
    assert_eq!(tcp::Client::decode_line(vec![0x2b, 0x4f, 0x4b]), Ok(String::from("+OK")));
    assert_eq!(tcp::Client::decode_line(vec![0xff, 0x0a]), Err(MailError::TCPFromUTF8Error));
}

#[test]
fn editor_round_trip() {
    let mut e = MailEditor::new(Vec::new());
    assert!(e.can_quit());
    assert!(!e.set_from(String::from("a@x")));
    assert!(e.take_new());
    assert_eq!(e.current_order(), 1);
    assert!(e.set_from(String::from("a@x")));
    assert!(e.set_to(String::from("b@x")));
    assert!(e.set_subject(String::from("s")));
    assert!(e.write_lines(lines(&["one", "two"]), false));
    assert!(e.replace_line(2, String::from("TWO")));
    assert!(!e.replace_line(3, String::from("x")));
    assert!(e.write_lines(lines(&["three"]), false));
    assert!(e.remove_line(1));
    assert!(!e.can_quit());
    assert!(!e.take_new());
    assert!(e.save());
    assert!(e.can_quit());
    let saved = &e.saved_mails()[0];
    assert_eq!(saved.content, Some(lines(&["TWO", "three"])));
    assert_eq!(saved.check_integrity(), 0);
    assert!(e.take_new());
    assert!(e.save());
    assert!(e.take(1));
    assert_eq!(e.current().subject, Some(String::from("s")));
    assert!(e.delete(2));
    assert_eq!(e.current_order(), 1);
    assert!(e.delete(1));
    assert_eq!(e.current_order(), 0);
    e.clear_current();
    assert!(e.into_saved_mails().is_empty());
}
