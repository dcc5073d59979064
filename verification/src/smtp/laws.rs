//! What holds of every session, proved over the mathematical value of
//! the client.  `Client::push` is proved to compute `ClientView::push`, so
//! each statement here is a statement about the executable session too.

use vstd::prelude::*;
use crate::error::DeliveryError;
use crate::smtp::args::{DomainView, PathView};
use crate::smtp::client::{reply_code, ClientView, ForeignMessageView, OutputView, State};
use crate::smtp::response::ResponseCode;
use crate::text::ends_with_crlf;

verus! {

/// The fragments put together, in order.
pub open spec fn joined(fragments: Seq<Seq<char>>) -> Seq<char>
    decreases fragments.len(),
{
    if fragments.len() == 0 {
        Seq::<char>::empty()
    } else {
        joined(fragments.drop_last()) + fragments.last()
    }
}

/// A text cut into pieces of one character each.
pub open spec fn singly(line: Seq<char>) -> Seq<Seq<char>> {
    line.map_values(|c: char| seq![c])
}

/// What a push returned, as a list of at most one output.
pub open spec fn emitted(output: Option<OutputView>) -> Seq<OutputView> {
    match output {
        Some(output) => seq![output],
        None => Seq::<OutputView>::empty(),
    }
}

/// Feeds a session the fragments one after another.  The result is the
/// session after the last of them and everything that was to be sent on
/// the way, in order.
pub open spec fn feed(session: ClientView, fragments: Seq<Seq<char>>) -> (
    ClientView,
    Seq<OutputView>,
)
    decreases fragments.len(),
{
    if fragments.len() == 0 {
        (session, Seq::<OutputView>::empty())
    } else {
        let (before, sent) = feed(session, fragments.drop_last());
        let (after, output) = before.push(fragments.last());
        (after, sent + emitted(output))
    }
}

/// The position of a stage in the order of the session.
pub open spec fn rank(state: State) -> int {
    match state {
        State::Initiated => 0,
        State::Greeted => 1,
        State::SentReversePath => 2,
        State::SendingForwardPaths => 3,
        State::SentForwardPaths => 4,
        State::SentData => 5,
        State::ShouldExit => 6,
    }
}

/// What holds of every session that was started by `ClientView::initial`
/// and fed any input since.
pub open spec fn reachable(session: ClientView) -> bool {
    &&& !ends_with_crlf(session.reply)
    &&& rank(session.state) <= 2 ==> session.last_sent_path is None && session.rejected.len() == 0
    &&& session.state == State::SendingForwardPaths ==> session.last_sent_path is Some
    &&& rank(session.state) >= 4 ==> session.pending.len() == 0
    &&& session.failure == Some(DeliveryError::NoForwardPaths) ==> session.state
        == State::SentReversePath && session.pending.len() == 0
    &&& session.failure matches Some(error) ==> session.state != State::ShouldExit && (error
        == DeliveryError::ProtocolViolation || error == DeliveryError::NoForwardPaths)
}

/// A session at its start is reachable.
pub proof fn lemma_initial_reachable(hostname: DomainView, message: ForeignMessageView)
    ensures
        reachable(ClientView::initial(hostname, message)),
{
}

/// Whatever a reachable session is fed, it stays reachable.
pub proof fn lemma_push_reachable(session: ClientView, fragment: Seq<char>)
    requires
        reachable(session),
    ensures
        reachable(session.push(fragment).0),
{
}

/// A session that has ended or was given up ignores all input.
pub proof fn lemma_closed_is_final(session: ClientView, fragment: Seq<char>)
    requires
        session.closed(),
    ensures
        session.push(fragment) == (session, None::<OutputView>),
{
}

/// The stages are passed in order and one at a time: a push leaves the
/// session in its stage or moves it to the next one, and never back.
/// Something is sent only when a line was completed, and nothing is sent
/// by a push that gives the session up.
pub proof fn lemma_push_advances(session: ClientView, fragment: Seq<char>)
    ensures
        ({
            let (after, output) = session.push(fragment);
            &&& rank(after.state) == rank(session.state) || rank(after.state) == rank(
                session.state,
            ) + 1
            &&& output is Some ==> ends_with_crlf(session.reply + fragment) && after.reply.len()
                == 0
            &&& output is Some ==> after.failure is None
            &&& session.failure is Some ==> after.failure == session.failure
            &&& after.hostname == session.hostname
            &&& after.reverse_path == session.reverse_path
            &&& after.data == session.data
        }),
{
}

/// A refusal of one recipient does not end the session.  While recipients
/// are being named, a failure reply moves the recipient named last to
/// the refused ones, and the session goes on: it names the next pending
/// recipient, or announces the body once none is left.  No other
/// recipient is touched.
pub proof fn lemma_refusal_is_survived(session: ClientView, fragment: Seq<char>, last: PathView)
    requires
        !session.closed(),
        session.state == State::SendingForwardPaths,
        session.last_sent_path == Some(last),
        ends_with_crlf(session.reply + fragment),
        reply_code(session.reply + fragment) == Some(ResponseCode::Negative),
    ensures
        ({
            let (after, output) = session.push(fragment);
            &&& after.failure is None
            &&& output is Some
            &&& after.rejected == session.rejected.push(last)
            &&& session.pending.len() > 0 ==> after.state == State::SendingForwardPaths
                && after.last_sent_path == Some(session.pending[0]) && after.pending
                == session.pending.drop_first()
            &&& session.pending.len() == 0 ==> after.state == State::SentForwardPaths
        }),
{
}

/// The refused recipients only ever grow, by one recipient at a time, and
/// the one that is added is the one that was named last.
pub proof fn lemma_rejected_grows(session: ClientView, fragment: Seq<char>)
    ensures
        ({
            let after = session.push(fragment).0;
            ||| after.rejected == session.rejected
            ||| session.last_sent_path is Some && after.rejected == session.rejected.push(
                session.last_sent_path->0,
            )
        }),
{
}

/// However a reply line is cut into fragments, the session ends up in
/// the same state and sends the same as if the line had come in one
/// piece.
///
/// The line is any text that completes no line before its end: joined to
/// what the session holds already, no proper prefix of it ends with the
/// line terminator.
pub proof fn lemma_fragmentation(session: ClientView, fragments: Seq<Seq<char>>)
    requires
        !ends_with_crlf(session.reply),
        forall|k: int|
            0 <= k < joined(fragments).len() ==> !ends_with_crlf(
                session.reply + #[trigger] joined(fragments).take(k),
            ),
    ensures
        feed(session, fragments) == (
            session.push(joined(fragments)).0,
            emitted(session.push(joined(fragments)).1),
        ),
    decreases fragments.len(),
{
    let line = joined(fragments);
    if fragments.len() == 0 {
        assert(session.reply + line =~= session.reply);
        assert((ClientView { reply: session.reply + line, ..session }) == session);
    } else {
        let init = fragments.drop_last();
        let last = fragments.last();
        let head = joined(init);
        assert(line == head + last);
        assert forall|k: int| 0 <= k < head.len() implies !ends_with_crlf(
            session.reply + #[trigger] head.take(k),
        ) by {
            assert(head.take(k) =~= line.take(k));
        }
        lemma_fragmentation(session, init);
        let (before, sent) = feed(session, init);
        assert(before == session.push(head).0);
        assert(sent == emitted(session.push(head).1));
        if session.closed() {
        } else if last.len() == 0 {
            assert(line =~= head);
            assert(before.reply + last =~= before.reply);
            assert(!before.closed() ==> (ClientView { reply: before.reply + last, ..before })
                == before);
            assert(sent + emitted(None::<OutputView>) =~= sent);
        } else {
            assert(line.take(head.len() as int) =~= head);
            assert(!ends_with_crlf(session.reply + head));
            assert(sent =~= Seq::<OutputView>::empty());
            assert(before.reply + last =~= session.reply + line);
            assert(sent + emitted(before.push(last).1) =~= emitted(before.push(last).1));
        }
    }
}

/// Fed one character at a time, a session ends up in the same state and
/// sends the same as if the reply line had come in one piece.
pub proof fn lemma_character_by_character(session: ClientView, line: Seq<char>)
    requires
        !ends_with_crlf(session.reply),
        forall|k: int|
            0 <= k < line.len() ==> !ends_with_crlf(session.reply + #[trigger] line.take(k)),
    ensures
        feed(session, singly(line)) == (session.push(line).0, emitted(session.push(line).1)),
{
    lemma_joined_singly(line);
    lemma_fragmentation(session, singly(line));
}

/// Cutting a text into single characters and joining them gives the text.
pub proof fn lemma_joined_singly(line: Seq<char>)
    ensures
        joined(singly(line)) == line,
    decreases line.len(),
{
    if line.len() > 0 {
        lemma_joined_singly(line.drop_last());
        assert(singly(line).drop_last() =~= singly(line.drop_last()));
        assert(joined(singly(line)) =~= line);
    } else {
        assert(joined(singly(line)) =~= line);
    }
}

} // verus!
