//! The commands a client sends, and their spelling on the wire.

use vstd::prelude::*;
use crate::smtp::args::{
    Domain, DomainView, ForwardPath, ForwardPathView, ReversePath, ReversePathView,
};
use crate::text::crlf;

verus! {

/// A command of the client.
#[derive(Debug, PartialEq, Eq)]
pub enum Command {
    /// Greets the server under the client's own name.
    Ehlo(Domain),
    /// Opens a transaction with the envelope sender.
    Mail(ReversePath),
    /// Names one recipient.
    Rcpt(ForwardPath),
    /// Announces the message body.
    Data,
    /// Ends the session.
    Quit,
}

/// The mathematical value of a `Command`.
pub enum CommandView {
    Ehlo(DomainView),
    Mail(ReversePathView),
    Rcpt(ForwardPathView),
    Data,
    Quit,
}

impl CommandView {
    /// The command line, terminator included.
    pub open spec fn text(self) -> Seq<char> {
        match self {
            CommandView::Ehlo(domain) => "EHLO "@ + domain.text() + crlf(),
            CommandView::Mail(sender) => "MAIL FROM:"@ + sender.text() + crlf(),
            CommandView::Rcpt(recipient) => "RCPT TO:"@ + recipient.text() + crlf(),
            CommandView::Data => "DATA"@ + crlf(),
            CommandView::Quit => "QUIT"@ + crlf(),
        }
    }
}

impl View for Command {
    type V = CommandView;

    open spec fn view(&self) -> CommandView {
        match self {
            Command::Ehlo(domain) => CommandView::Ehlo(domain@),
            Command::Mail(sender) => CommandView::Mail(sender@),
            Command::Rcpt(recipient) => CommandView::Rcpt(recipient@),
            Command::Data => CommandView::Data,
            Command::Quit => CommandView::Quit,
        }
    }
}

impl DeepView for Command {
    type V = CommandView;

    open spec fn deep_view(&self) -> CommandView {
        self@
    }
}

impl Clone for Command {
    fn clone(&self) -> (r: Self)
        ensures
            r@ == self@,
    {
        match self {
            Command::Ehlo(domain) => Command::Ehlo(domain.clone()),
            Command::Mail(sender) => Command::Mail(sender.clone()),
            Command::Rcpt(recipient) => Command::Rcpt(recipient.clone()),
            Command::Data => Command::Data,
            Command::Quit => Command::Quit,
        }
    }
}

impl Command {
    /// Appends the command line, terminator included.
    pub fn write_to(&self, out: &mut String)
        ensures
            final(out)@ == old(out)@ + self@.text(),
    {
        proof {
            reveal_strlit("\r\n");
        }
        match self {
            Command::Ehlo(domain) => {
                out.append("EHLO ");
                domain.write_to(out);
            },
            Command::Mail(sender) => {
                out.append("MAIL FROM:");
                sender.write_to(out);
            },
            Command::Rcpt(recipient) => {
                out.append("RCPT TO:");
                recipient.write_to(out);
            },
            Command::Data => {
                out.append("DATA");
            },
            Command::Quit => {
                out.append("QUIT");
            },
        }
        out.append("\r\n");
        assert(out@ =~= old(out)@ + self@.text());
    }

    /// The command line, terminator included.
    pub fn to_string(&self) -> (r: String)
        ensures
            r@ == self@.text(),
    {
        let mut out = String::new();
        self.write_to(&mut out);
        assert(out@ =~= self@.text());
        out
    }
}

} // verus!
