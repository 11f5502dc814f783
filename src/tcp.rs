//! The line transport's framing: where to connect, the line terminator, and
//! how a line is written and read back as text. The socket itself belongs to
//! the caller.

use vstd::prelude::*;
use vstd::utf8::{decode_utf8, valid_utf8};
use crate::text::push_str_chars;
use crate::util::MailError;

verus! {

/// Relies on `String::from_utf8`: text exactly when the bytes are valid UTF-8.
#[verifier::external_body]
fn utf8_text(bytes: Vec<u8>) -> (r: Option<String>)
    ensures
        match r {
            Some(s) => valid_utf8(bytes@) && s@ == decode_utf8(bytes@),
            None => !valid_utf8(bytes@),
        },
{
    String::from_utf8(bytes).ok()
}

/// Where a connection goes and how its lines end.
#[derive(Clone, Debug)]
pub struct Client {
    host_name: String,
    port: u16,
    end_pointer: String,
}

impl Client {
    /// A transport to `host_name:port` whose lines have no terminator yet.
    pub fn new(host_name: String, port: u16) -> (r: Client)
        ensures
            r.host_name()@ == host_name@,
            r.port() == port,
            r.end_pointer()@.len() == 0,
    {
        Client { host_name, port, end_pointer: String::new() }
    }

    pub closed spec fn host_name(&self) -> String {
        self.host_name
    }

    pub closed spec fn port(&self) -> u16 {
        self.port
    }

    pub closed spec fn end_pointer(&self) -> String {
        self.end_pointer
    }

    pub fn get_host_name(&self) -> (r: &String)
        ensures
            r@ == self.host_name()@,
    {
        &self.host_name
    }

    pub fn get_port(&self) -> (r: u16)
        ensures
            r == self.port(),
    {
        self.port
    }

    pub fn set_port(&mut self, port: u16)
        ensures
            final(self).port() == port,
            final(self).host_name() == old(self).host_name(),
            final(self).end_pointer() == old(self).end_pointer(),
    {
        self.port = port;
    }

    pub fn set_end_pointer(&mut self, end_pointer: String)
        ensures
            final(self).end_pointer() == end_pointer,
            final(self).host_name() == old(self).host_name(),
            final(self).port() == old(self).port(),
    {
        self.end_pointer = end_pointer;
    }

    /// The text written for one line: the content, then the terminator.
    pub fn frame(&self, content: &str) -> (r: String)
        ensures
            r@ == content@ + self.end_pointer()@,
    {
        let mut s = String::new();
        push_str_chars(&mut s, content);
        push_str_chars(&mut s, self.end_pointer.as_str());
        assert(s@ =~= content@ + self.end_pointer@);
        s
    }

    /// A received line's bytes as text, or the decode failure.
    pub fn decode_line(bytes: Vec<u8>) -> (r: Result<String, MailError>)
        ensures
            match r {
                Ok(s) => valid_utf8(bytes@) && s@ == decode_utf8(bytes@),
                Err(e) => !valid_utf8(bytes@) && e == MailError::TCPFromUTF8Error,
            },
    {
        match utf8_text(bytes) {
            Some(s) => Ok(s),
            None => Err(MailError::TCPFromUTF8Error),
        }
    }
}

} // verus!
