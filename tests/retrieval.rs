use mail_client::pop3::{
    parse_response, parse_retr_octets_count, parse_status_response, Client, Response,
};
use mail_client::smtp::State;
use mail_client::util::{is_error_tcp_handled, trim_ok_result, MailError};

fn connected() -> Client {
    let mut c = Client::new(String::from("pop.example.com"), String::from("desk"));
    assert_eq!(c.connect(), Ok(()));
    assert_eq!(c.connect_reply("+OK POP3 ready\r\n"), Ok(String::from("POP3 ready")));
    assert_eq!(c.state(), State::TCPConnected);
    c
}

fn authorized() -> Client {
    let mut c = connected();
    assert_eq!(c.login(String::from("a"), String::from("p")), Ok(String::from("user a")));
    assert_eq!(c.login_reply("+OK send secret\r\n"), Ok(Some(String::from("pass p"))));
    assert_eq!(c.login_reply("+OK logged in\r\n"), Ok(None));
    assert_eq!(c.state(), State::Authorized);
    c
}

#[test]
fn success_reply_keeps_text() {
    assert_eq!(parse_response("+OK 2 320"), Ok(Response::Success(String::from("2 320"))));
    assert_eq!(parse_response("+OK  spaced  "), Ok(Response::Success(String::from(" spaced  "))));
    assert_eq!(parse_response("+OK "), Ok(Response::Success(String::new())));
}

#[test]
fn failure_reply_keeps_text() {
    assert_eq!(parse_response("-ERR no such message"), Ok(Response::Failure(String::from("no such message"))));
}

#[test]
fn other_lines_are_not_replies() {
    for line in ["+OK", "OK fine", "-ERR", "+ok yes", "", " +OK x"] {
        assert_eq!(parse_response(line), Err(MailError::POP3ResponseParseError(String::from(line))));
    }
}

#[test]
fn status_pair_parses() {
    assert_eq!(parse_status_response("5 2000"), Ok((5, 2000)));
    assert_eq!(parse_status_response("0 0"), Ok((0, 0)));
}

#[test]
fn status_pair_takes_any_white_space_run() {
    assert_eq!(parse_status_response("5  2000"), Ok((5, 2000)));
    assert_eq!(parse_status_response("5\t2000"), Ok((5, 2000)));
    assert_eq!(parse_status_response(" 5 2000 "), Ok((5, 2000)));
}

#[test]
fn status_pair_rejects_malformed() {
    for body in ["5 abc", "5", "5 2000 7", "", "  ", "5x 2000", "99999999999999999999999 1"] {
        assert_eq!(parse_status_response(body), Err(MailError::POP3StatusParseError(String::from(body))));
    }
}

#[test]
fn octets_line_parses() {
    assert_eq!(parse_retr_octets_count("11 octets"), Ok(11));
    assert_eq!(parse_retr_octets_count("11 bytes"), Err(MailError::POP3OctetsParseError(String::from("11 bytes"))));
    assert_eq!(parse_retr_octets_count(" octets"), Err(MailError::POP3OctetsParseError(String::from(" octets"))));
}

#[test]
fn greeting_failure_stays_init() {
    let mut c = Client::new(String::from("pop.example.com"), String::from("desk"));
    assert_eq!(c.transport().get_port(), 110);
    assert_eq!(c.connect(), Ok(()));
    assert_eq!(c.connect_reply("-ERR busy\r\n"), Err(MailError::POP3ErrResponse(String::from("busy"))));
    assert_eq!(c.state(), State::Init);
}

#[test]
fn failed_secret_leaves_connected() {
    let mut c = connected();
    assert_eq!(c.login(String::from("a"), String::from("p")), Ok(String::from("user a")));
    assert_eq!(c.login_reply("+OK\u{20}user ok\r\n"), Ok(Some(String::from("pass p"))));
    assert_eq!(c.login_reply("-ERR bad secret\r\n"), Err(MailError::POP3ErrResponse(String::from("bad secret"))));
    assert_eq!(c.state(), State::TCPConnected);
}

#[test]
fn failed_account_step_stops_login() {
    let mut c = connected();
    c.login(String::from("a"), String::from("p")).unwrap();
    assert_eq!(c.login_reply("-ERR unknown\r\n"), Err(MailError::POP3ErrResponse(String::from("unknown"))));
    assert_eq!(c.state(), State::TCPConnected);
    assert_eq!(c.login_reply("+OK late\r\n"), Err(MailError::SessionStateError));
}

#[test]
fn operations_in_wrong_state_are_refused() {
    let mut c = Client::new(String::from("h"), String::from("n"));
    assert_eq!(c.status_query(), Err(MailError::SessionStateError));
    assert_eq!(c.get_mail_by_order(1), Err(MailError::SessionStateError));
    assert_eq!(c.delete(1), Err(MailError::SessionStateError));
    assert_eq!(c.quit(), Err(MailError::SessionStateError));
    assert_eq!(c.login(String::from("a"), String::from("p")), Err(MailError::SessionStateError));
    let mut c = connected();
    assert_eq!(c.status_query(), Err(MailError::SessionStateError));
    assert_eq!(c.connect(), Err(MailError::SessionStateError));
}

#[test]
fn second_mark_delete_is_refused() {
    let mut c = authorized();
    assert_eq!(c.delete(3), Ok(String::from("dele 3")));
    assert_eq!(c.delete_reply("+OK message 3 deleted\r\n"), Ok(()));
    assert_eq!(c.delete(3), Err(MailError::POP3DeleteDuplicateError(3)));
    assert_eq!(c.delete_reply("+OK again\r\n"), Err(MailError::SessionStateError));
    assert_eq!(c.display_delete_list(), vec![3]);
}

#[test]
fn quit_commits_deletions() {
    let mut c = authorized();
    c.delete(3).unwrap();
    c.delete_reply("+OK\u{20}ok\r\n").unwrap();
    c.delete(12).unwrap();
    c.delete_reply("+OK ok\r\n").unwrap();
    assert_eq!(c.quit(), Ok(String::from("quit")));
    assert_eq!(c.quit_reply("+OK bye\r\n"), Ok(vec![3, 12]));
    assert_eq!(c.state(), State::Init);
    assert_eq!(c.display_delete_list(), Vec::<usize>::new());
}

#[test]
fn failed_quit_keeps_session() {
    let mut c = authorized();
    c.delete(2).unwrap();
    c.delete_reply("+OK ok\r\n").unwrap();
    c.quit().unwrap();
    assert_eq!(c.quit_reply("-ERR later\r\n"), Err(MailError::POP3ErrResponse(String::from("later"))));
    assert_eq!(c.state(), State::Authorized);
    assert_eq!(c.display_delete_list(), vec![2]);
}

#[test]
fn reset_delete_clears_list() {
    let mut c = authorized();
    c.delete(1).unwrap();
    c.delete_reply("+OK ok\r\n").unwrap();
    assert_eq!(c.reset_delete(), Ok(String::from("rset")));
    assert_eq!(c.reset_delete_reply("+OK reset\r\n"), Ok(()));
    assert_eq!(c.display_delete_list(), Vec::<usize>::new());
}

#[test]
fn status_and_listing() {
    let mut c = authorized();
    assert_eq!(c.status_query(), Ok(String::from("stat")));
    assert_eq!(c.status_query_reply("+OK 5 2000\r\n"), Ok((5, 2000)));
    assert_eq!(c.mail_info_short(12), Ok(String::from("list 12")));
    assert_eq!(c.mail_info_short_reply("+OK 12 340\r\n"), Ok((12, 340)));
    c.status_query().unwrap();
    assert_eq!(c.status_query_reply("+OK 5 abc\r\n"), Err(MailError::POP3StatusParseError(String::from("5 abc"))));
    c.status_query().unwrap();
    assert_eq!(c.status_query_reply("garbage\r\n"), Err(MailError::POP3ResponseParseError(String::from("garbage"))));
}

#[test]
fn fetch_stops_at_declared_length() {
    let mut c = authorized();
    assert_eq!(c.get_mail_by_order(1), Ok(String::from("retr 1")));
    assert_eq!(c.retr_reply("+OK 11 octets\r\n"), Ok(None));
    assert_eq!(c.body_line("Hello\r\n"), Ok(None));
    let body = c.body_line("World\r\n").unwrap().unwrap();
    assert_eq!(body, "Hello\r\nWorld\r\n");
    assert!(body.chars().count() >= 11);
    assert_eq!(c.body_line("extra\r\n"), Err(MailError::SessionStateError));
}

#[test]
fn fetch_counts_octets_not_characters() {
    let mut c = authorized();
    c.get_mail_by_order(2).unwrap();
    assert_eq!(c.retr_reply("+OK 8 octets\r\n"), Ok(None));
    // Two characters of three bytes each, and the terminator: eight bytes.
    assert_eq!(c.body_line("你好\r\n"), Ok(Some(String::from("你好\r\n"))));
}

#[test]
fn status_text_keeps_trailing_spaces() {
    let mut c = connected();
    assert_eq!(c.connection_test(), Ok(String::from("noop")));
    assert_eq!(c.connection_test_reply("+OK fine  \r\n"), Ok(String::from("fine  ")));
    c.connection_test().unwrap();
    assert_eq!(c.connection_test_reply("+OK \n"), Ok(String::new()));
}

#[test]
fn fetch_of_empty_message() {
    let mut c = authorized();
    c.get_mail_by_order(4).unwrap();
    assert_eq!(c.retr_reply("+OK 0 octets\r\n"), Ok(Some(String::new())));
}

#[test]
fn fetch_with_bad_header() {
    let mut c = authorized();
    c.get_mail_by_order(4).unwrap();
    assert_eq!(c.retr_reply("+OK lots\r\n"), Err(MailError::POP3OctetsParseError(String::from("lots"))));
    c.get_mail_by_order(9).unwrap();
    assert_eq!(c.retr_reply("-ERR no such message\r\n"), Err(MailError::POP3ErrResponse(String::from("no such message"))));
}

#[test]
fn top_reads_exact_line_count() {
    let mut c = authorized();
    assert_eq!(c.top(2, 2), Ok(String::from("top 2 2")));
    assert_eq!(c.top_reply("+OK top follows\r\n"), Ok(None));
    assert_eq!(c.body_line("a\r\n"), Ok(None));
    assert_eq!(c.body_line("b\r\n"), Ok(Some(String::from("top follows\r\na\r\nb\r\n"))));
    c.top(2, 0).unwrap();
    assert_eq!(c.top_reply("+OK none\r\n"), Ok(Some(String::from("none\r\n"))));
}

#[test]
fn connection_test_round_trip() {
    let mut c = connected();
    assert_eq!(c.connection_test(), Ok(String::from("noop")));
    assert_eq!(c.connection_test_reply("+OK fine\r\n"), Ok(String::from("fine")));
}

#[test]
fn reset_client_returns_to_init() {
    let mut c = authorized();
    c.debug();
    assert!(c.is_debug());
    c.delete(1).unwrap();
    c.delete_reply("+OK ok\r\n").unwrap();
    c.reset_client();
    assert_eq!(c.state(), State::Init);
    assert!(!c.is_debug());
    assert_eq!(c.display_delete_list(), Vec::<usize>::new());
}

#[test]
fn tcp_errors_that_reconnect_fixes() {
    assert!(is_error_tcp_handled(MailError::TCPNoConnectionError));
    assert!(is_error_tcp_handled(MailError::TCPConnectFailError));
    assert!(!is_error_tcp_handled(MailError::TCPWriteError));
    assert!(!is_error_tcp_handled(MailError::TCPFromUTF8Error));
}

#[test]
fn trim_ok_result_trims_success_only() {
    assert_eq!(trim_ok_result(Ok(String::from("text \r\n\t"))), Ok(String::from("text")));
    assert_eq!(trim_ok_result(Ok(String::from("  lead"))), Ok(String::from("  lead")));
    assert_eq!(trim_ok_result(Err(String::from("e \r\n"))), Err(String::from("e \r\n")));
}
