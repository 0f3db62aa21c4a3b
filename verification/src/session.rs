//! Handing comments on over web sockets: the server's end and the overlay's.

use vstd::prelude::*;

use crate::decimal;
use crate::text;

verus! {

/// The pause before the overlay connects again, in milliseconds.
pub const RECONNECT_PAUSE_MS: u64 = 1200;

/// What happens at the server's end of a connection.
#[derive(Debug)]
pub enum SocketEvent {
    /// A comment is to be handed on, in this form.
    Comment { json: String },
    /// A comment could not be brought into that form.
    Unserializable { reason: String },
    /// The connection was too slow for this many comments.
    Lagged { skipped: u64 },
    /// There will be no more comments.
    FeedClosed,
    /// What was sent has gone out.
    Sent,
    /// What was sent could not go out.
    SendFailed,
    /// The client has said something.
    ClientSpoke,
    /// The client has closed the connection, or it is gone.
    ClientClosed,
    /// The connection has failed.
    ClientFailed,
}

/// What the server does next.
#[derive(Debug)]
pub enum SocketAction {
    /// Wait for what happens next.
    Wait,
    /// Send this text.
    Send { json: String },
    /// Report this error, and wait for what happens next.
    Report { text: String },
    /// End the connection.
    End,
}

/// What the server does next, with its texts as characters.
pub enum SocketNext {
    Wait,
    Send { json: Seq<char> },
    Report { text: Seq<char> },
    End,
}

impl View for SocketAction {
    type V = SocketNext;

    open spec fn view(&self) -> SocketNext {
        match *self {
            SocketAction::Wait => SocketNext::Wait,
            SocketAction::Send { json } => SocketNext::Send { json: json@ },
            SocketAction::Report { text } => SocketNext::Report { text: text@ },
            SocketAction::End => SocketNext::End,
        }
    }
}

/// What the server does about an event: comments go out, a comment that is lost
/// is reported and the connection goes on, and the connection ends with the
/// feed, with the client or with the first failure to send.
pub open spec fn socket_next(event: SocketEvent) -> SocketNext {
    match event {
        SocketEvent::Comment { json } => SocketNext::Send { json: json@ },
        SocketEvent::Unserializable { reason } => SocketNext::Report {
            text: "failed to serialize message: "@ + reason@,
        },
        SocketEvent::Lagged { skipped } => SocketNext::Report {
            text: "websocket lagged, skipped "@ + decimal::decimal(skipped as int)
                + " messages"@,
        },
        SocketEvent::FeedClosed => SocketNext::End,
        SocketEvent::Sent => SocketNext::Wait,
        SocketEvent::SendFailed => SocketNext::End,
        SocketEvent::ClientSpoke => SocketNext::Wait,
        SocketEvent::ClientClosed => SocketNext::End,
        SocketEvent::ClientFailed => SocketNext::End,
    }
}

/// Decides what the server does about an event.
pub fn handle_socket(event: SocketEvent) -> (r: SocketAction)
    ensures
        r@ == socket_next(event),
{
    match event {
        SocketEvent::Comment { json } => SocketAction::Send { json },
        SocketEvent::Unserializable { reason } => {
            let text = text::joined("failed to serialize message: ", reason.as_str());
            SocketAction::Report { text }
        },
        SocketEvent::Lagged { skipped } => {
            let mut text = "websocket lagged, skipped ".to_owned();
            decimal::append_u64(&mut text, skipped);
            text.append(" messages");
            SocketAction::Report { text }
        },
        SocketEvent::FeedClosed => SocketAction::End,
        SocketEvent::Sent => SocketAction::Wait,
        SocketEvent::SendFailed => SocketAction::End,
        SocketEvent::ClientSpoke => SocketAction::Wait,
        SocketEvent::ClientClosed => SocketAction::End,
        SocketEvent::ClientFailed => SocketAction::End,
    }
}

/// What happens at the overlay's end of a connection.
#[derive(Debug)]
pub enum FeedEvent {
    Connected,
    ConnectFailed { reason: String },
    /// A comment was read and handed to the overlay.
    Delivered,
    /// A comment was read and there is no overlay any more.
    OverlayGone,
    /// What was read is no comment.
    Unparsable { reason: String },
    /// Something was read that carries no text.
    OtherFrame,
    /// The server has closed the connection.
    ServerClosed,
    ReadFailed { reason: String },
    /// There is nothing more to read.
    StreamEnded,
}

/// What the overlay's end does next.
#[derive(Clone, Copy, Debug, PartialEq, Eq, Structural)]
pub enum FeedAction {
    /// Read what comes next.
    Read,
    /// Connect again after a pause.
    Reconnect { pause_ms: u64 },
    /// Stop for good.
    Stop,
}

/// What the overlay's end does next, and the error that it reports before.
#[derive(Debug)]
pub struct FeedStep {
    pub report: Option<String>,
    pub action: FeedAction,
}

/// The error that an event is reported as.
pub open spec fn feed_report(event: FeedEvent) -> Option<Seq<char>> {
    match event {
        FeedEvent::ConnectFailed { reason } => Some("websocket connect error: "@ + reason@),
        FeedEvent::Unparsable { reason } => Some("failed to parse danmaku: "@ + reason@),
        FeedEvent::ReadFailed { reason } => Some("websocket read error: "@ + reason@),
        _ => None,
    }
}

/// What the overlay's end does about an event: it reads on whatever it gets,
/// connects again once the connection is gone, and stops only with the overlay.
pub open spec fn feed_action(event: FeedEvent) -> FeedAction {
    match event {
        FeedEvent::OverlayGone => FeedAction::Stop,
        FeedEvent::ConnectFailed { .. } => FeedAction::Reconnect { pause_ms: RECONNECT_PAUSE_MS },
        FeedEvent::ServerClosed => FeedAction::Reconnect { pause_ms: RECONNECT_PAUSE_MS },
        FeedEvent::ReadFailed { .. } => FeedAction::Reconnect { pause_ms: RECONNECT_PAUSE_MS },
        FeedEvent::StreamEnded => FeedAction::Reconnect { pause_ms: RECONNECT_PAUSE_MS },
        _ => FeedAction::Read,
    }
}

/// Decides what the overlay's end does about an event.
pub fn websocket_consumer_step(event: FeedEvent) -> (r: FeedStep)
    ensures
        r.action == feed_action(event),
        text::view_option(r.report) == feed_report(event),
{
    let again = FeedAction::Reconnect { pause_ms: RECONNECT_PAUSE_MS };
    match event {
        FeedEvent::Connected => FeedStep { report: None, action: FeedAction::Read },
        FeedEvent::ConnectFailed { reason } => FeedStep {
            report: Some(text::joined("websocket connect error: ", reason.as_str())),
            action: again,
        },
        FeedEvent::Delivered => FeedStep { report: None, action: FeedAction::Read },
        FeedEvent::OverlayGone => FeedStep { report: None, action: FeedAction::Stop },
        FeedEvent::Unparsable { reason } => FeedStep {
            report: Some(text::joined("failed to parse danmaku: ", reason.as_str())),
            action: FeedAction::Read,
        },
        FeedEvent::OtherFrame => FeedStep { report: None, action: FeedAction::Read },
        FeedEvent::ServerClosed => FeedStep { report: None, action: again },
        FeedEvent::ReadFailed { reason } => FeedStep {
            report: Some(text::joined("websocket read error: ", reason.as_str())),
            action: again,
        },
        FeedEvent::StreamEnded => FeedStep { report: None, action: again },
    }
}

/// The overlay's end never stops while there is an overlay.
pub proof fn lemma_feed_keeps_going(event: FeedEvent)
    ensures
        feed_action(event) is Stop <==> event is OverlayGone,
{
}

/// A comment goes out as it is, and nothing else does. What goes out changes
/// nothing of the connection, which ends exactly with the feed, with the client,
/// or with a failure to send or to receive. What is lost is reported.
pub proof fn lemma_server_hands_on(event: SocketEvent)
    ensures
        socket_next(event) is Send <==> event is Comment,
        event matches SocketEvent::Comment { json } ==> socket_next(event) == (SocketNext::Send {
            json: json@,
        }),
        socket_next(event) is End <==> event is FeedClosed || event is SendFailed || event
            is ClientClosed || event is ClientFailed,
        socket_next(event) is Report <==> event is Unserializable || event is Lagged,
        event matches SocketEvent::Lagged { skipped } ==> socket_next(event) == (
        SocketNext::Report {
            text: "websocket lagged, skipped "@ + decimal::decimal(skipped as int) + " messages"@,
        }),
        event matches SocketEvent::Unserializable { reason } ==> socket_next(event) == (
        SocketNext::Report { text: "failed to serialize message: "@ + reason@ }),
{
}

/// The overlay's end connects again, after 1200 milliseconds, exactly where it
/// could not connect or the connection is gone. Whatever else it gets it reads
/// on, also where that is no comment. It reports what fails, with the reason.
pub proof fn lemma_overlay_reads_on(event: FeedEvent)
    ensures
        feed_action(event) is Reconnect <==> event is ConnectFailed || event is ServerClosed
            || event is ReadFailed || event is StreamEnded,
        feed_action(event) matches FeedAction::Reconnect { pause_ms } ==> pause_ms == 1200,
        feed_action(event) is Read <==> event is Connected || event is Delivered || event
            is Unparsable || event is OtherFrame,
        feed_report(event) is Some <==> event is ConnectFailed || event is Unparsable || event
            is ReadFailed,
        event matches FeedEvent::ConnectFailed { reason } ==> feed_report(event) == Some(
            "websocket connect error: "@ + reason@,
        ),
        event matches FeedEvent::Unparsable { reason } ==> feed_report(event) == Some(
            "failed to parse danmaku: "@ + reason@,
        ),
        event matches FeedEvent::ReadFailed { reason } ==> feed_report(event) == Some(
            "websocket read error: "@ + reason@,
        ),
{
}

/// What the server does is seen as what it holds.
pub proof fn lemma_views(a: SocketAction)
    ensures
        a is Wait <==> a@ is Wait,
        a is End <==> a@ is End,
        a matches SocketAction::Send { json } ==> a@ == (SocketNext::Send { json: json@ }),
        a matches SocketAction::Report { text } ==> a@ == (SocketNext::Report { text: text@ }),
{
}

} // verus!
