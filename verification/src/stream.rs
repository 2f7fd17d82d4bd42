//! The streaming side of the gateway: the relay consumer's accumulation
//! state, the per-connection cancellation supervisor, and the exact frames
//! the two streaming surfaces emit.

use vstd::prelude::*;
use crate::jsonio::{json_field_bool, json_field_bool_of, json_field_str, json_field_str_of,
    json_quoted, push_json_string};
use crate::text::push_str;

verus! {

/// A duplex control input: `message` starts a run, `cancel` aborts the
/// active one.
pub struct WsClientMessage {
    /// The control kind: `message` or `cancel`.
    pub kind: String,
    pub content: String,
    pub stream: Option<bool>,
}

/// A duplex notification: `chunk`, `status`, `error`, or the terminal
/// `done`.
pub struct WsServerMessage {
    pub kind: String,
    pub content: String,
}

/// Reads one duplex control input from its JSON text: the `type` and
/// `content` strings are required, the `stream` flag rides along when it is
/// a boolean.
pub fn parse_ws_client(text: &str) -> (r: Option<WsClientMessage>)
    ensures
        match r {
            Some(m) => json_field_str_of(text@, "type"@) == Some(m.kind@) && json_field_str_of(
                text@,
                "content"@,
            ) == Some(m.content@) && m.stream == json_field_bool_of(text@, "stream"@),
            None => json_field_str_of(text@, "type"@) is None || json_field_str_of(
                text@,
                "content"@,
            ) is None,
        },
{
    let kind = match json_field_str(text, "type") {
        Some(k) => k,
        None => {
            return None;
        },
    };
    let content = match json_field_str(text, "content") {
        Some(c) => c,
        None => {
            return None;
        },
    };
    let stream = json_field_bool(text, "stream");
    Some(WsClientMessage { kind, content, stream })
}

/// The JSON text of one duplex notification.
pub open spec fn ws_server_json_of(kind: Seq<char>, content: Seq<char>) -> Seq<char> {
    "{\"type\":"@ + json_quoted(kind) + ",\"content\":"@ + json_quoted(content) + "}"@
}

impl WsServerMessage {
    /// Renders the notification as the JSON text the duplex surface sends.
    pub fn to_json(&self) -> (r: String)
        ensures
            r@ =~= ws_server_json_of(self.kind@, self.content@),
    {
        let mut out = String::from_str("{\"type\":");
        push_json_string(&mut out, self.kind.as_str());
        push_str(&mut out, ",\"content\":");
        push_json_string(&mut out, self.content.as_str());
        push_str(&mut out, "}");
        out
    }

    /// One text fragment relayed to the consumer.
    pub fn chunk(content: &str) -> (r: WsServerMessage)
        ensures
            r.kind@ == "chunk"@,
            r.content@ == content@,
    {
        WsServerMessage { kind: String::from_str("chunk"), content: content.to_owned() }
    }

    /// A status notification.
    pub fn status(content: &str) -> (r: WsServerMessage)
        ensures
            r.kind@ == "status"@,
            r.content@ == content@,
    {
        WsServerMessage { kind: String::from_str("status"), content: content.to_owned() }
    }

    /// The turn-complete notification.
    pub fn done() -> (r: WsServerMessage)
        ensures
            r.kind@ == "done"@,
            r.content@ == ""@,
    {
        proof {
            reveal_strlit("");
            assert(""@ =~= Seq::<char>::empty());
        }
        WsServerMessage { kind: String::from_str("done"), content: String::new() }
    }

    /// An error notification.
    pub fn error(content: &str) -> (r: WsServerMessage)
        ensures
            r.kind@ == "error"@,
            r.content@ == content@,
    {
        WsServerMessage { kind: String::from_str("error"), content: content.to_owned() }
    }
}

/// What the consumer of a relayed stream accumulates: the concatenated text
/// for eventual single-entry persistence, and how many fragments passed.
/// Individual fragments are never persisted.
pub struct StreamAccumulator {
    pub text: String,
    pub chunks: u64,
}

impl StreamAccumulator {
    /// An empty accumulator: tolerating a producer that sends zero tokens,
    /// it still completes with empty text.
    pub fn new() -> (r: StreamAccumulator)
        ensures
            r.text@ == Seq::<char>::empty(),
            r.chunks == 0,
    {
        StreamAccumulator { text: String::new(), chunks: 0 }
    }

    /// Takes one fragment in: the text grows by exactly that fragment, in
    /// arrival order.
    pub fn on_token(&mut self, token: &str)
        ensures
            final(self).text@ == old(self).text@ + token@,
            final(self).chunks == (if old(self).chunks < u64::MAX {
                (old(self).chunks + 1) as u64
            } else {
                old(self).chunks
            }),
    {
        push_str(&mut self.text, token);
        if self.chunks < u64::MAX {
            self.chunks = self.chunks + 1;
        }
    }

    /// Hands the full accumulated text over.
    pub fn into_text(self) -> (r: String)
        ensures
            r == self.text,
    {
        self.text
    }
}

/// The notifications an explicit cancel emits, in order: a status
/// notification, then the turn-complete notification. Fragments already
/// relayed are never retracted.
pub fn cancel_notifications() -> (r: Vec<WsServerMessage>)
    ensures
        r@.len() == 2,
        r@[0].kind@ == "status"@,
        r@[0].content@ == "Process cancelled"@,
        r@[1].kind@ == "done"@,
        r@[1].content@ == ""@,
{
    let mut out: Vec<WsServerMessage> = Vec::new();
    out.push(WsServerMessage::status("Process cancelled"));
    out.push(WsServerMessage::done());
    out
}

/// The one-slot run registry of a duplex connection: at most one active
/// run, by construction.
pub struct ConnectionSupervisor {
    /// The handle of the active run, when one is live.
    pub active: Option<u64>,
    /// The handle the next run receives.
    pub next_run: u64,
}

impl ConnectionSupervisor {
    /// A supervisor for a fresh connection: no active run.
    pub fn new() -> (r: ConnectionSupervisor)
        ensures
            r.active is None,
            r.next_run == 0,
    {
        ConnectionSupervisor { active: None, next_run: 0 }
    }

    /// A new inbound message: whatever run is active is aborted on the spot
    /// — last-write-wins, never queued — and a new run starts and becomes
    /// the single active one.
    pub fn on_message(&mut self) -> (r: (Option<u64>, u64))
        ensures
            r.0 == old(self).active,
            r.1 == old(self).next_run,
            final(self).active == Some(old(self).next_run),
            final(self).next_run == (if old(self).next_run < u64::MAX {
                (old(self).next_run + 1) as u64
            } else {
                old(self).next_run
            }),
    {
        let aborted = self.active;
        let started = self.next_run;
        self.active = Some(started);
        if self.next_run < u64::MAX {
            self.next_run = self.next_run + 1;
        }
        (aborted, started)
    }

    /// An explicit cancel: the active run, if any, is aborted and the
    /// status-then-done notifications go out; with no active run nothing
    /// happens. Writes already committed before the abort stand.
    pub fn on_cancel(&mut self) -> (r: (Option<u64>, Vec<WsServerMessage>))
        ensures
            r.0 == old(self).active,
            final(self).active is None,
            final(self).next_run == old(self).next_run,
            old(self).active is Some ==> r.1@.len() == 2 && r.1@[0].kind@ == "status"@
                && r.1@[0].content@ == "Process cancelled"@ && r.1@[1].kind@ == "done"@
                && r.1@[1].content@ == ""@,
            old(self).active is None ==> r.1@.len() == 0,
    {
        let aborted = self.active;
        self.active = None;
        let notices: Vec<WsServerMessage> = match aborted {
            Some(_) => cancel_notifications(),
            None => Vec::new(),
        };
        (aborted, notices)
    }

    /// The connection closes: any active run is aborted first.
    pub fn on_close(&mut self) -> (r: Option<u64>)
        ensures
            r == old(self).active,
            final(self).active is None,
            final(self).next_run == old(self).next_run,
    {
        let aborted = self.active;
        self.active = None;
        aborted
    }
}

/// One event of the event-line streaming surface: the payload behind a
/// `data: ` prefix, closed by a blank line.
pub fn sse_data_frame(payload: &str) -> (r: String)
    ensures
        r@ =~= "data: "@ + payload@ + "\n\n"@,
{
    let mut out = String::from_str("data: ");
    push_str(&mut out, payload);
    push_str(&mut out, "\n\n");
    out
}

/// The literal terminal event of the event-line streaming surface.
pub fn sse_done_frame() -> (r: String)
    ensures
        r@ == "data: [DONE]\n\n"@,
{
    String::from_str("data: [DONE]\n\n")
}

} // verus!
