use vstd::prelude::*;

use crate::message::{delivers, is_own_sentinel, is_sentinel, sentinel, ConnId, Message, ScopeKind};
use crate::wire::{render, render_message};

verus! {

/// What an outbound actor does with one message from the hub.
pub enum OutboundAction {
    /// The connection's own sentinel came back: the actor ends.
    Stop,
    /// Write this rendering to the connection.
    Write(String),
    /// The message is not for this connection.
    Skip,
}

/// The decision of the outbound actor of connection `me` on message `m`,
/// without the rendered text.
pub open spec fn outbound_stops(me: ConnId, m: Message) -> bool {
    is_own_sentinel(m, me)
}

/// Whether the outbound actor of `me` writes `m` to its connection.
pub open spec fn observes(me: ConnId, m: Message) -> bool {
    !is_own_sentinel(m, me) && delivers(m, me)
}

/// One step of the outbound actor of connection `me`: stop on its own
/// sentinel, otherwise write the rendering of `m` if its scope selects `me`.
pub fn outbound_step(me: ConnId, m: &Message) -> (r: OutboundAction)
    ensures
        outbound_stops(me, *m) <==> r is Stop,
        observes(me, *m) <==> r is Write,
        r is Write ==> r->Write_0@ == render(*m),
{
    if m.is_own_sentinel(me) {
        OutboundAction::Stop
    } else if m.is_for(me) {
        OutboundAction::Write(render_message(m))
    } else {
        OutboundAction::Skip
    }
}

/// What one read of a connection's input produced.
pub enum LineRead {
    /// A line of text, with its terminator if one was read.
    Line(String),
    /// The peer closed the stream: zero bytes were read.
    EndOfStream,
    /// The read failed.
    Failed,
}

/// What an inbound actor does after one read.
pub enum InboundAction {
    /// Post this message to the hub and read on.
    Post(Message),
    /// Post this message to the hub, then end: it is the sentinel.
    PostThenStop(Message),
    /// End without posting: the stream ended or failed.
    Stop,
}

/// The message the inbound actor of `me` posts for the line `text`.
pub open spec fn posted(me: ConnId, text: Seq<char>, m: Message) -> bool {
    &&& m.text@ == text
    &&& m.sender == me
    &&& m.scope == ScopeKind::All
    &&& m.except_ids is None
    &&& m.include_ids is None
}

/// One step of the inbound actor of connection `me`: a line becomes a
/// message to all, tagged with `me`; the sentinel is posted and ends the
/// actor; end of stream and failure end it without posting.
pub fn inbound_step(me: ConnId, read: LineRead) -> (r: InboundAction)
    ensures
        match read {
            LineRead::Line(text) => if text@ == sentinel() {
                r is PostThenStop && posted(me, text@, r->PostThenStop_0)
            } else {
                r is Post && posted(me, text@, r->Post_0)
            },
            _ => r is Stop,
        },
{
    match read {
        LineRead::Line(text) => {
            let stop = is_sentinel(&text);
            let m = Message::to_all(text, me);
            if stop {
                InboundAction::PostThenStop(m)
            } else {
                InboundAction::Post(m)
            }
        },
        LineRead::EndOfStream => InboundAction::Stop,
        LineRead::Failed => InboundAction::Stop,
    }
}

} // verus!
