//! One persistent connection of the preview server: when a client is told
//! to reload.
//!
//! A connection remembers the content that its client saw last. Each time
//! the channel reports a change, the connection compares: if the content
//! differs, the client gets one text frame with the payload `refresh`, and
//! the new content counts as seen. Frames from the client are drained and
//! ignored. Waiting for changes and moving frames is the caller's work.

use vstd::prelude::*;

verus! {

/// The payload of the one frame that the server sends.
pub const REFRESH: &'static str = "refresh";

/// What a connection asks of the transport.
#[derive(Clone, Copy, PartialEq, Eq, Debug, Structural)]
pub enum SocketAction {
    /// Send one text frame with the payload `REFRESH`.
    SendRefresh,
    /// Nothing is to be done.
    Idle,
    /// The connection is over: stop serving it.
    Close,
}

/// What happens on a connection.
#[derive(PartialEq, Eq, Debug)]
pub enum SocketEvent {
    /// The channel reported a change; this is the content it holds now.
    Changed(String),
    /// The channel is gone: no further change will come.
    ChannelClosed,
    /// The last frame could not be sent.
    SendFailed,
    /// A frame came in from the client.
    Inbound,
    /// The transport reported an error or the end of the stream.
    TransportClosed,
}

/// The state of one connection.
#[derive(Debug)]
pub struct Connection {
    seen: String,
    pushing: bool,
    open: bool,
}

/// The state of a connection, as plain values.
pub struct ConnectionView {
    /// The content that the client saw last.
    pub seen: Seq<char>,
    /// Changes are still passed on to the client.
    pub pushing: bool,
    /// The transport has not reported its end.
    pub open: bool,
}

/// An event, as plain values.
pub enum SocketEventView {
    /// The channel reported a change to this content.
    Changed(Seq<char>),
    /// The channel is gone.
    ChannelClosed,
    /// The last frame could not be sent.
    SendFailed,
    /// A frame came in from the client.
    Inbound,
    /// The transport reported an error or the end of the stream.
    TransportClosed,
}

impl View for SocketEvent {
    type V = SocketEventView;

    open spec fn view(&self) -> SocketEventView {
        match self {
            SocketEvent::Changed(content) => SocketEventView::Changed(content@),
            SocketEvent::ChannelClosed => SocketEventView::ChannelClosed,
            SocketEvent::SendFailed => SocketEventView::SendFailed,
            SocketEvent::Inbound => SocketEventView::Inbound,
            SocketEvent::TransportClosed => SocketEventView::TransportClosed,
        }
    }
}

impl View for Connection {
    type V = ConnectionView;

    closed spec fn view(&self) -> ConnectionView {
        ConnectionView { seen: self.seen@, pushing: self.pushing, open: self.open }
    }
}

impl ConnectionView {
    /// A connection that has just been accepted while the channel held
    /// `current`.
    pub open spec fn accepted(current: Seq<char>) -> ConnectionView {
        ConnectionView { seen: current, pushing: true, open: true }
    }

    /// What the connection asks for on `event`.
    pub open spec fn action(self, event: SocketEventView) -> SocketAction {
        match event {
            SocketEventView::Changed(content) => if self.pushing && content != self.seen {
                SocketAction::SendRefresh
            } else {
                SocketAction::Idle
            },
            SocketEventView::ChannelClosed => SocketAction::Idle,
            SocketEventView::SendFailed => SocketAction::Idle,
            SocketEventView::Inbound => SocketAction::Idle,
            SocketEventView::TransportClosed => SocketAction::Close,
        }
    }

    /// The connection after `event`.
    pub open spec fn after(self, event: SocketEventView) -> ConnectionView {
        match event {
            SocketEventView::Changed(content) => if self.pushing && content != self.seen {
                ConnectionView { seen: content, ..self }
            } else {
                self
            },
            SocketEventView::ChannelClosed => ConnectionView { pushing: false, ..self },
            SocketEventView::SendFailed => ConnectionView { pushing: false, ..self },
            SocketEventView::Inbound => self,
            SocketEventView::TransportClosed => ConnectionView { open: false, ..self },
        }
    }

    /// How many refresh frames the connection sends while the channel
    /// reports the contents `contents` one after the other.
    pub open spec fn refreshes(self, contents: Seq<Seq<char>>) -> nat
        decreases contents.len(),
    {
        if contents.len() == 0 {
            0
        } else {
            let event = SocketEventView::Changed(contents.first());
            let sent: nat = if self.action(event) is SendRefresh {
                1
            } else {
                0
            };
            sent + self.after(event).refreshes(contents.drop_first())
        }
    }
}

/// How many of `contents` differ from the content before them, `seen`
/// standing before the first.
pub open spec fn distinct_changes(seen: Seq<char>, contents: Seq<Seq<char>>) -> nat
    decreases contents.len(),
{
    if contents.len() == 0 {
        0
    } else {
        let before = if contents.len() == 1 {
            seen
        } else {
            contents[contents.len() - 2]
        };
        let changed: nat = if contents.last() != before {
            1
        } else {
            0
        };
        distinct_changes(seen, contents.drop_last()) + changed
    }
}

impl Connection {
    /// Accepts a connection while the channel holds `current`: the client
    /// has just loaded that content.
    pub fn accept(current: String) -> (connection: Connection)
        ensures
            connection@ == ConnectionView::accepted(current@),
    {
        Connection { seen: current, pushing: true, open: true }
    }

    /// Tells whether the transport is still open.
    pub fn is_open(&self) -> (r: bool)
        ensures
            r == self@.open,
    {
        self.open
    }

    /// Tells whether changes are still passed on to the client.
    pub fn is_pushing(&self) -> (r: bool)
        ensures
            r == self@.pushing,
    {
        self.pushing
    }
}

/// Handles one event on a connection and tells what the transport is to
/// do.
pub fn handle_ws_connection(connection: &mut Connection, event: SocketEvent) -> (action:
    SocketAction)
    ensures
        action == old(connection)@.action(event@),
        final(connection)@ == old(connection)@.after(event@),
{
    match event {
        SocketEvent::Changed(content) => {
            if connection.pushing && content != connection.seen {
                connection.seen = content;
                SocketAction::SendRefresh
            } else {
                SocketAction::Idle
            }
        },
        SocketEvent::ChannelClosed => {
            connection.pushing = false;
            SocketAction::Idle
        },
        SocketEvent::SendFailed => {
            connection.pushing = false;
            SocketAction::Idle
        },
        SocketEvent::Inbound => SocketAction::Idle,
        SocketEvent::TransportClosed => {
            connection.open = false;
            SocketAction::Close
        },
    }
}

/// A connection sends exactly one refresh for each content that differs
/// from the one before it, and none for a content that repeats.
pub proof fn law_one_refresh_per_change(seen: Seq<char>, contents: Seq<Seq<char>>)
    ensures
        ConnectionView::accepted(seen).refreshes(contents) == distinct_changes(seen, contents),
    decreases contents.len(),
{
    let start = ConnectionView::accepted(seen);
    if contents.len() > 0 {
        let rest = contents.drop_first();
        let next = start.after(SocketEventView::Changed(contents.first()));
        assert(next == ConnectionView::accepted(contents.first()));
        law_one_refresh_per_change(contents.first(), rest);
        lemma_changes_from_front(seen, contents);
    }
}

/// Counting changes from the back is counting them from the front.
proof fn lemma_changes_from_front(seen: Seq<char>, contents: Seq<Seq<char>>)
    requires
        contents.len() > 0,
    ensures
        distinct_changes(seen, contents) == (if contents.first() != seen {
            1nat
        } else {
            0nat
        }) + distinct_changes(contents.first(), contents.drop_first()),
    decreases contents.len(),
{
    let rest = contents.drop_first();
    if contents.len() == 1 {
        assert(contents.drop_last().len() == 0);
        assert(rest.len() == 0);
        assert(distinct_changes(seen, contents.drop_last()) == 0);
        assert(distinct_changes(contents.first(), rest) == 0);
        assert(contents.last() == contents.first());
    } else {
        let front = contents.drop_last();
        lemma_changes_from_front(seen, front);
        assert(front.first() == contents.first());
        assert(front.drop_first() == rest.drop_last());
        assert(rest.last() == contents.last());
        let before = if rest.len() == 1 {
            contents.first()
        } else {
            rest[rest.len() - 2]
        };
        assert(before == contents[contents.len() - 2]);
        assert(distinct_changes(contents.first(), rest) == distinct_changes(
            contents.first(),
            rest.drop_last(),
        ) + (if rest.last() != before {
            1nat
        } else {
            0nat
        }));
    }
}

/// A refresh is sent only for a content that differs from the one seen
/// last; the same content reported again sends nothing.
pub proof fn law_no_refresh_on_repeat(connection: ConnectionView, content: Seq<char>)
    ensures
        connection.after(SocketEventView::Changed(content)).action(
            SocketEventView::Changed(content),
        ) is Idle,
        content == connection.seen ==> connection.action(SocketEventView::Changed(content)) is Idle,
{
}

} // verus!
