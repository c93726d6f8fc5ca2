use vstd::prelude::*;

use crate::client::session::{
    client_next, join_result, ChatClientView, ClientActionView, ClientError, ClientEventView,
    JoinEventView,
};
use crate::common::event::{FromServerView, ToServerView};

verus! {

/// Whatever it sees, a chat client writes only to its server.
pub proof fn law_client_writes_only_to_server(c: ChatClientView, e: ClientEventView)
    ensures
        forall|i: int|
            0 <= i < client_next(c, e).len() ==> (#[trigger] client_next(c, e)[i] matches ClientActionView::Send {
                to,
                ..
            } ==> to == c.remote_address),
{
}

/// Every heartbeat is answered with a keep-alive whose failure ends the client.
pub proof fn law_heartbeat_is_answered(c: ChatClientView)
    ensures
        client_next(c, ClientEventView::Received { msg: FromServerView::Heartbeat }) == seq![
            ClientActionView::Send {
                to: c.remote_address,
                msg: ToServerView::KeepAlive,
                must_succeed: true,
            },
        ],
{
}

/// A session ends exactly when the user shuts it down or the server tells
/// it to; a user's shutdown first tells the server that the client leaves.
pub proof fn law_session_ends_only_on_shutdown(c: ChatClientView, e: ClientEventView)
    ensures
        client_next(c, e).contains(ClientActionView::Finish) <==> (e is Shutdown || e
            == ClientEventView::Received { msg: FromServerView::Shutdown }),
        e is Shutdown ==> client_next(c, e)[0] == (ClientActionView::Send {
            to: c.remote_address,
            msg: ToServerView::Leave,
            must_succeed: false,
        }),
{
    let v = client_next(c, e);
    if e is Shutdown {
        assert(v[1] == ClientActionView::Finish);
    } else if e == (ClientEventView::Received { msg: FromServerView::Shutdown }) {
        assert(v[1] == ClientActionView::Finish);
    } else {
        assert forall|i: int| 0 <= i < v.len() implies v[i] != ClientActionView::Finish by {}
    }
}

/// The join handshake fails only when the server does not answer in time.
pub proof fn law_join_fails_only_on_timeout(e: JoinEventView)
    ensures
        join_result(e).1 is Err <==> e is TimedOut,
        join_result(e).1 matches Err(err) ==> err == ClientError::Timeout,
{
}

/// What a client does about each thing it sees: a typed line goes to the
/// server unchanged as a chat line; the user's shutdown sends `Leave` and
/// ends; a chat line from the server is shown verbatim; the server's
/// `Shutdown` is announced and ends the session; a heartbeat is answered
/// with a keep-alive that must get through; an `Ack` is shown as "ack";
/// a `Ping` and an unreadable datagram are ignored.
pub proof fn law_client_reactions(c: ChatClientView, line: Seq<char>, m: Seq<char>)
    ensures
        client_next(c, ClientEventView::Line { line }) == seq![
            ClientActionView::Send {
                to: c.remote_address,
                msg: ToServerView::Message { message: line },
                must_succeed: false,
            },
        ],
        client_next(c, ClientEventView::Shutdown) == seq![
            ClientActionView::Send {
                to: c.remote_address,
                msg: ToServerView::Leave,
                must_succeed: false,
            },
            ClientActionView::Finish,
        ],
        client_next(c, ClientEventView::Received { msg: FromServerView::Message { message: m } })
            == seq![ClientActionView::Print { line: m }],
        client_next(c, ClientEventView::Received { msg: FromServerView::Shutdown }) == seq![
            ClientActionView::Print { line: "shutting down!"@ },
            ClientActionView::Finish,
        ],
        client_next(c, ClientEventView::Received { msg: FromServerView::Ack }) == seq![
            ClientActionView::Print { line: "ack"@ },
        ],
        client_next(c, ClientEventView::Received { msg: FromServerView::Ping }).len() == 0,
        client_next(c, ClientEventView::ReadFailed).len() == 0,
{
}

/// What the join handshake prints: "Connection established!" on an `Ack`,
/// "Shutting down" when the user stops first, "Timeout expired" on a
/// timeout, and nothing for any other answer or an unreadable one.
pub proof fn law_join_messages(e: JoinEventView)
    ensures
        e == (JoinEventView::Answered { msg: Some(FromServerView::Ack) }) ==> join_result(e) == (
        Some("Connection established!"@), Ok::<(), ClientError>(())),
        e is Shutdown ==> join_result(e) == (Some("Shutting down"@), Ok::<(), ClientError>(())),
        e is TimedOut ==> join_result(e) == (Some("Timeout expired"@), Err::<(), ClientError>(
            ClientError::Timeout,
        )),
        e is Answered && e != (JoinEventView::Answered { msg: Some(FromServerView::Ack) })
            ==> join_result(e) == (None::<Seq<char>>, Ok::<(), ClientError>(())),
{
}

} // verus!
