use mail_client::mime::{parse_raw_mail, PartKind, PartScan, POP3Mail, MISSING_BOUNDARY};
use mail_client::util::MailError;

fn message(plain_headers: &str, plain_body: &str, html_headers: &str, html_body: &str) -> String {
    let mut m = String::new();
    m.push_str("Date: Mon, 1 Jan 2024 10:00:00 +0800\r\n");
    m.push_str("From: \"Alice\" <alice@example.com>\r\n");
    m.push_str("To: \"Bob\" <bob@example.com>\r\n");
    m.push_str("Subject: Hello\r\n");
    m.push_str("Content-Type: multipart/alternative;\r\n");
    m.push_str("\tboundary=\"----=_Part_1\"\r\n");
    m.push_str("\r\n");
    m.push_str("------=_Part_1\r\n");
    m.push_str(plain_headers);
    m.push_str("\r\n");
    m.push_str(plain_body);
    m.push_str("------=_Part_1\r\n");
    m.push_str(html_headers);
    m.push_str("\r\n");
    m.push_str(html_body);
    m.push_str("------=_Part_1--\r\n");
    m
}

const PLAIN_BASE64: &str = "Content-Type: text/plain; charset=GBK\r\nContent-Transfer-Encoding: base64\r\n";
const HTML_7BIT: &str = "Content-Type: text/html; charset=GBK\r\nContent-Transfer-Encoding: 7bit\r\n";

#[test]
fn decodes_base64_gbk_plain_part() {
    // "你好" in GBK is C4 E3 BA C3, whose base64 is "xOO6ww==".
    let raw = message(PLAIN_BASE64, "xOO6ww==\r\n", HTML_7BIT, "<p>hi</p>\r\n");
    let mail = parse_raw_mail(raw).unwrap();
    assert_eq!(mail.plain(), &Some(String::from("你好")));
    assert_eq!(mail.html(), &Some(String::from("<p>hi</p>")));
    assert_eq!(mail.time(), &Some(String::from("Mon, 1 Jan 2024 10:00:00 +0800")));
    assert_eq!(mail.from(), &Some((String::from("Alice"), String::from("alice@example.com"))));
    assert_eq!(mail.to(), &Some((String::from("Bob"), String::from("bob@example.com"))));
    assert_eq!(mail.subject(), &Some(String::from("Hello")));
    assert_eq!(mail.check_integrity(), 0);
}

#[test]
fn base64_payload_split_over_lines() {
    // "你好" followed by "!" (0x21): C4 E3 BA C3 21 is "xOO6wyE=".
    let raw = message(PLAIN_BASE64, "xOO6\r\nwyE=\r\n", HTML_7BIT, "<b>x</b>\r\n");
    let mail = parse_raw_mail(raw).unwrap();
    assert_eq!(mail.plain(), &Some(String::from("你好!")));
}

#[test]
fn bare_recipient_address() {
    let raw = message(PLAIN_BASE64, "xOO6ww==\r\n", HTML_7BIT, "x\r\n").replace(
        "To: \"Bob\" <bob@example.com>",
        "To: bob@example.com",
    );
    let mail = parse_raw_mail(raw).unwrap();
    assert_eq!(mail.to(), &Some((String::new(), String::from("bob@example.com"))));
}

#[test]
fn missing_boundary() {
    let raw = String::from("Date: today\r\nFrom: \"A\" <a@x>\r\nTo: \"B\" <b@x>\r\n\r\nbody\r\n");
    assert_eq!(parse_raw_mail(raw).err(), Some(MailError::POP3MailIntegrityFailedError(MISSING_BOUNDARY)));
}

#[test]
fn plain_only_message_is_incomplete() {
    let mut raw = message(PLAIN_BASE64, "xOO6ww==\r\n", HTML_7BIT, "x\r\n");
    let cut = raw.find("------=_Part_1\r\nContent-Type: text/html").unwrap();
    raw.truncate(cut);
    raw.push_str("------=_Part_1--\r\n");
    assert_eq!(parse_raw_mail(raw).err(), Some(MailError::POP3MailIntegrityFailedError(5)));
}

#[test]
fn missing_date_is_incomplete() {
    let raw = message(PLAIN_BASE64, "xOO6ww==\r\n", HTML_7BIT, "x\r\n")
        .replace("Date: Mon, 1 Jan 2024 10:00:00 +0800\r\n", "");
    assert_eq!(parse_raw_mail(raw).err(), Some(MailError::POP3MailIntegrityFailedError(1)));
}

#[test]
fn unsupported_charset() {
    let raw = message(
        "Content-Type: text/plain; charset=UTF-8\r\nContent-Transfer-Encoding: base64\r\n",
        "aGk=\r\n",
        HTML_7BIT,
        "x\r\n",
    );
    assert_eq!(
        parse_raw_mail(raw).err(),
        Some(MailError::POP3MailFormatNotSupportError(String::from("Content-Type: text/plain; charset=UTF-8")))
    );
}

#[test]
fn unsupported_transfer_encoding() {
    let raw = message(
        "Content-Type: text/plain; charset=GBK\r\nContent-Transfer-Encoding: quoted-printable\r\n",
        "hi\r\n",
        HTML_7BIT,
        "x\r\n",
    );
    assert_eq!(
        parse_raw_mail(raw).err(),
        Some(MailError::POP3MailFormatNotSupportError(String::from("Content-Transfer-Encoding: quoted-printable")))
    );
}

#[test]
fn invalid_base64_payload() {
    let raw = message(PLAIN_BASE64, "not base64!\r\n", HTML_7BIT, "x\r\n");
    assert_eq!(parse_raw_mail(raw).err(), Some(MailError::POP3MailDecodeError(String::from("not base64!"))));
}

#[test]
fn invalid_gbk_payload() {
    // 0x81 alone is an incomplete GBK sequence; its base64 is "gQ==".
    let raw = message(PLAIN_BASE64, "gQ==\r\n", HTML_7BIT, "x\r\n");
    assert_eq!(parse_raw_mail(raw).err(), Some(MailError::POP3MailDecodeError(String::from("gQ=="))));
}

#[test]
fn empty_mail_is_incomplete() {
    let m = POP3Mail::new();
    assert_eq!(m.check_integrity(), 1);
    assert_eq!(m.check_head_integrity(), 1);
}

#[test]
fn part_scan_closes_with_given_text() {
    let mut scan = PartScan::new();
    assert_eq!(scan.read_line("Content-Type: text/plain; charset=GBK", "XX"), Ok(()));
    assert_eq!(scan.open_part(), Some(PartKind::Plain));
    assert_eq!(scan.read_line("payload", "XX"), Ok(()));
    assert_eq!(scan.collected(), "payload");
    assert_eq!(scan.close_with(Some(String::from("decoded"))), Ok(()));
    assert_eq!(scan.plain(), &Some(String::from("decoded")));
    assert_eq!(scan.open_part(), None);
    assert_eq!(scan.html(), &None);
}

#[test]
fn part_scan_reports_undecodable_part() {
    let mut scan = PartScan::new();
    scan.read_line("Content-Type: text/html; charset=GBK", "XX").unwrap();
    scan.read_line("abc", "XX").unwrap();
    assert_eq!(scan.close_with(None), Err(MailError::POP3MailDecodeError(String::from("abc"))));
    assert_eq!(scan.open_part(), Some(PartKind::Html));
}

#[test]
fn part_scan_delimiter_line_decodes_base64() {
    let mut scan = PartScan::new();
    scan.read_line("Content-Type: text/plain; charset=GBK", "XX").unwrap();
    scan.read_line("Content-Transfer-Encoding: base64", "XX").unwrap();
    scan.read_line("xOO6ww==", "XX").unwrap();
    scan.read_line("--XX", "XX").unwrap();
    assert_eq!(scan.plain(), &Some(String::from("你好")));
}
