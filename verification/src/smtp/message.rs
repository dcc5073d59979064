//! A message envelope with its body, and the notification that tells a
//! sender about recipients that could not be reached.

use vstd::prelude::*;
use crate::smtp::args::{
    ForwardPath, ForwardPathView, PathView, ReversePath, ReversePathView,
};

verus! {

/// A message: who sent it, who is to receive it, and its lines of text.
#[derive(Debug, PartialEq, Eq)]
pub struct Message {
    pub reverse_path: ReversePath,
    pub forward_paths: Vec<ForwardPath>,
    pub data: Vec<String>,
}

/// The mathematical value of a `Message`.
pub struct MessageView {
    pub reverse_path: ReversePathView,
    pub forward_paths: Seq<ForwardPathView>,
    pub data: Seq<Seq<char>>,
}

/// The lines with which every notification begins.
pub open spec fn preamble() -> Seq<Seq<char>> {
    seq![
        "Subject: Undeliverable mail"@,
        ""@,
        "Your message could not be delivered to the following recipients."@,
    ]
}

/// The line of a notification that names one recipient.
pub open spec fn rejection_line(recipient: PathView) -> Seq<char> {
    "The host rejected "@ + recipient.text()
}

/// The notification for a message of the given sender of which the given
/// recipients were refused.  It is sent from the null sender, so that it
/// can never be answered by a notification in turn, to the sender of the
/// message, and names the recipients in the order in which they were
/// refused.  There is none where no recipient was refused, and none for a
/// message that came from the null sender.
pub open spec fn notification(sender: ReversePathView, rejected: Seq<PathView>) -> Option<
    MessageView,
> {
    match sender {
        ReversePathView::Regular(mailbox) if rejected.len() > 0 => Some(
            MessageView {
                reverse_path: ReversePathView::Null,
                forward_paths: seq![ForwardPathView::Regular(mailbox)],
                data: preamble() + rejected.map_values(|p: PathView| rejection_line(p)),
            },
        ),
        _ => None,
    }
}

impl MessageView {
    /// The empty notification about this message: addressed to its
    /// sender, sent from the null sender, holding the preamble only.
    pub open spec fn undeliverable(self) -> Option<MessageView> {
        match self.reverse_path {
            ReversePathView::Null => None,
            ReversePathView::Regular(mailbox) => Some(
                MessageView {
                    reverse_path: ReversePathView::Null,
                    forward_paths: seq![ForwardPathView::Regular(mailbox)],
                    data: preamble(),
                },
            ),
        }
    }

    /// The message with one more line at the end of its text.
    pub open spec fn push_line(self, line: Seq<char>) -> MessageView {
        MessageView { data: self.data.push(line), ..self }
    }
}

impl View for Message {
    type V = MessageView;

    open spec fn view(&self) -> MessageView {
        MessageView {
            reverse_path: self.reverse_path@,
            forward_paths: self.forward_paths.deep_view(),
            data: self.data.deep_view(),
        }
    }
}

impl DeepView for Message {
    type V = MessageView;

    open spec fn deep_view(&self) -> MessageView {
        self@
    }
}

impl Message {
    /// Puts a message together from its three parts.
    pub fn from_parts(
        reverse_path: ReversePath,
        forward_paths: Vec<ForwardPath>,
        data: Vec<String>,
    ) -> (r: Message)
        ensures
            r@ == (MessageView {
                reverse_path: reverse_path@,
                forward_paths: forward_paths.deep_view(),
                data: data.deep_view(),
            }),
    {
        Message { reverse_path, forward_paths, data }
    }

    /// Turns the message into the empty notification about it, or into
    /// nothing where it came from the null sender.
    pub fn into_undeliverable(self) -> (r: Option<Message>)
        ensures
            r.deep_view() == self@.undeliverable(),
    {
        match self.reverse_path {
            ReversePath::Null => None,
            ReversePath::Regular(mailbox) => {
                let mut forward_paths: Vec<ForwardPath> = Vec::new();
                forward_paths.push(ForwardPath::Regular(mailbox));
                let mut data: Vec<String> = Vec::new();
                data.push(String::from_str("Subject: Undeliverable mail"));
                data.push(String::from_str(""));
                data.push(
                    String::from_str(
                        "Your message could not be delivered to the following recipients.",
                    ),
                );
                let notice = Message { reverse_path: ReversePath::Null, forward_paths, data };
                assert(notice@.forward_paths =~= seq![ForwardPathView::Regular(mailbox@)]);
                assert(notice@.data =~= preamble());
                Some(notice)
            },
        }
    }

    /// Adds a line at the end of the text.
    pub fn push_line(&mut self, line: String)
        ensures
            final(self)@ == old(self)@.push_line(line@),
    {
        self.data.push(line);
        assert(self@.data =~= old(self)@.data.push(line@));
    }
}

} // verus!
