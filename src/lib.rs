//! Protocol engine of a console mail client: a line transport, the mailbox
//! retrieval and mail submission state machines with their line grammars,
//! and a decoder for multipart messages.

pub mod text;
pub mod util;
pub mod tcp;
pub mod pop3;
pub mod mime;
pub mod smtp;
