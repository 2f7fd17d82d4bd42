//! The session/message store: an in-memory engine for the storage interface
//! the gateway consumes — sessions with a last-updated marker, append-only
//! creation-ordered messages, cascading deletion, and windowed listing.

use vstd::prelude::*;
use crate::agent::fresh_uuid;

verus! {

/// One conversation.
pub struct Session {
    /// Synthesized identifier text.
    pub id: String,
    pub name: String,
    /// Logical creation instant: the store's tick when it was created.
    pub created_at: u64,
    /// Logical last-updated marker, bumped by every message insert.
    pub updated_at: u64,
    /// Raw JSON text of attached metadata.
    pub metadata: String,
}

/// One stored chat message.
pub struct Message {
    pub id: i64,
    pub session_id: String,
    pub role: String,
    pub content: String,
    pub model: Option<String>,
    pub token_count: Option<i64>,
    /// Logical creation instant: the store's tick when it was inserted.
    pub created_at: u64,
    /// Raw JSON text of attached metadata.
    pub metadata: String,
}

/// Mathematical image of a [`Session`].
pub struct SessionView {
    pub id: Seq<char>,
    pub name: Seq<char>,
    pub created_at: u64,
    pub updated_at: u64,
    pub metadata: Seq<char>,
}

/// Mathematical image of a stored [`Message`].
pub struct StoredMessageView {
    pub id: i64,
    pub session_id: Seq<char>,
    pub role: Seq<char>,
    pub content: Seq<char>,
    pub model: Option<Seq<char>>,
    pub token_count: Option<i64>,
    pub created_at: u64,
    pub metadata: Seq<char>,
}

impl View for Session {
    type V = SessionView;

    open spec fn view(&self) -> SessionView {
        SessionView {
            id: self.id@,
            name: self.name@,
            created_at: self.created_at,
            updated_at: self.updated_at,
            metadata: self.metadata@,
        }
    }
}

impl DeepView for Session {
    type V = SessionView;

    open spec fn deep_view(&self) -> SessionView {
        self.view()
    }
}

impl View for Message {
    type V = StoredMessageView;

    open spec fn view(&self) -> StoredMessageView {
        StoredMessageView {
            id: self.id,
            session_id: self.session_id@,
            role: self.role@,
            content: self.content@,
            model: crate::models::opt_str_view(self.model),
            token_count: self.token_count,
            created_at: self.created_at,
            metadata: self.metadata@,
        }
    }
}

impl DeepView for Message {
    type V = StoredMessageView;

    open spec fn deep_view(&self) -> StoredMessageView {
        self.view()
    }
}

impl Clone for Session {
    fn clone(&self) -> (r: Self)
        ensures
            r@ == self@,
    {
        Session {
            id: self.id.clone(),
            name: self.name.clone(),
            created_at: self.created_at,
            updated_at: self.updated_at,
            metadata: self.metadata.clone(),
        }
    }
}

impl Clone for Message {
    fn clone(&self) -> (r: Self)
        ensures
            r@ == self@,
    {
        Message {
            id: self.id,
            session_id: self.session_id.clone(),
            role: self.role.clone(),
            content: self.content.clone(),
            model: crate::models::clone_opt_string(&self.model),
            token_count: self.token_count,
            created_at: self.created_at,
            metadata: self.metadata.clone(),
        }
    }
}

/// Sessions ordered most recently updated first.
pub open spec fn sessions_ordered(ss: Seq<Session>) -> bool {
    forall|i: int, j: int| 0 <= i < j < ss.len() ==> ss[i].updated_at >= ss[j].updated_at
}

/// Messages in creation order, ids never decreasing.
pub open spec fn messages_ordered(ms: Seq<Message>) -> bool {
    forall|i: int, j: int|
        0 <= i < j < ms.len() ==> ms[i].created_at <= ms[j].created_at && ms[i].id <= ms[j].id
}

/// The messages of one session, oldest first.
pub open spec fn session_messages(ms: Seq<Message>, session_id: Seq<char>) -> Seq<Message>
    decreases ms.len(),
{
    if ms.len() == 0 {
        Seq::empty()
    } else {
        (if ms[0].session_id@ == session_id {
            seq![ms[0]]
        } else {
            Seq::empty()
        }) + session_messages(ms.drop_first(), session_id)
    }
}

/// The sessions left after one is deleted.
pub open spec fn sessions_without(ss: Seq<Session>, id: Seq<char>) -> Seq<Session>
    decreases ss.len(),
{
    if ss.len() == 0 {
        Seq::empty()
    } else {
        (if ss[0].id@ == id {
            Seq::empty()
        } else {
            seq![ss[0]]
        }) + sessions_without(ss.drop_first(), id)
    }
}

/// The messages left after a session's are cascaded away.
pub open spec fn messages_without(ms: Seq<Message>, session_id: Seq<char>) -> Seq<Message>
    decreases ms.len(),
{
    if ms.len() == 0 {
        Seq::empty()
    } else {
        (if ms[0].session_id@ == session_id {
            Seq::empty()
        } else {
            seq![ms[0]]
        }) + messages_without(ms.drop_first(), session_id)
    }
}

/// The first session carrying `id`, if any.
pub open spec fn session_with_id(ss: Seq<Session>, id: Seq<char>) -> Option<Session>
    decreases ss.len(),
{
    if ss.len() == 0 {
        None
    } else if ss[0].id@ == id {
        Some(ss[0])
    } else {
        session_with_id(ss.drop_first(), id)
    }
}

proof fn lemma_without_absent(ss: Seq<Session>, id: Seq<char>)
    requires
        session_with_id(ss, id) is None,
    ensures
        sessions_without(ss, id) =~= ss,
    decreases ss.len(),
{
    if ss.len() > 0 {
        assert(ss[0].id@ != id);
        lemma_without_absent(ss.drop_first(), id);
        assert(seq![ss[0]] + ss.drop_first() =~= ss);
    }
}

/// The in-memory session/message store. It plays the storage engine's part:
/// one shared handle, guarded outside this crate, used one statement
/// sequence at a time.
pub struct DbService {
    /// Sessions, most recently updated first.
    pub sessions: Vec<Session>,
    /// Messages of every session, in creation order.
    pub messages: Vec<Message>,
    /// The id the next message receives.
    pub next_message_id: i64,
    /// The logical clock stamped onto creations and updates.
    pub clock: u64,
}

impl DbService {
    /// The store's structural invariant.
    pub open spec fn wf(self) -> bool {
        &&& sessions_ordered(self.sessions@)
        &&& messages_ordered(self.messages@)
        &&& (forall|i: int|
            0 <= i < self.sessions@.len() ==> self.sessions@[i].updated_at <= self.clock)
        &&& (forall|i: int|
            0 <= i < self.messages@.len() ==> self.messages@[i].created_at <= self.clock
                && self.messages@[i].id <= self.next_message_id)
        &&& self.next_message_id >= 1
    }

    /// An empty store.
    pub fn new() -> (r: DbService)
        ensures
            r.wf(),
            r.sessions@.len() == 0,
            r.messages@.len() == 0,
    {
        DbService { sessions: Vec::new(), messages: Vec::new(), next_message_id: 1, clock: 0 }
    }

    fn tick(&mut self) -> (now: u64)
        requires
            old(self).wf(),
        ensures
            final(self).wf(),
            final(self).sessions == old(self).sessions,
            final(self).messages == old(self).messages,
            final(self).next_message_id == old(self).next_message_id,
            now == final(self).clock,
            now >= old(self).clock,
    {
        if self.clock < u64::MAX {
            self.clock = self.clock + 1;
        }
        self.clock
    }

    /// Creates a session with the given name and metadata text, and returns
    /// a copy of the new record. The new session is the most recently
    /// updated one.
    pub fn insert_session(&mut self, name: &str, metadata: &str) -> (r: Session)
        requires
            old(self).wf(),
        ensures
            final(self).wf(),
            final(self).sessions@.len() == old(self).sessions@.len() + 1,
            final(self).sessions@[0]@ == r@,
            final(self).sessions@.skip(1) =~= old(self).sessions@,
            final(self).messages == old(self).messages,
            r@.name == name@,
            r@.metadata == metadata@,
            r@.created_at == r@.updated_at,
            r@.id.len() == 36,
    {
        let now = self.tick();
        let session = Session {
            id: fresh_uuid(),
            name: name.to_owned(),
            created_at: now,
            updated_at: now,
            metadata: metadata.to_owned(),
        };
        let copy = session.clone();
        self.sessions.insert(0, session);
        proof {
            assert(self.sessions@.skip(1) =~= old(self).sessions@);
        }
        copy
    }

    /// Looks one session up by id, returning a copy.
    pub fn get_session(&self, id: &str) -> (r: Option<Session>)
        ensures
            match r {
                Some(s) => session_with_id(self.sessions@, id@) matches Some(found) && found@
                    == s@,
                None => session_with_id(self.sessions@, id@) is None,
            },
    {
        let mut i: usize = 0;
        proof {
            assert(self.sessions@.skip(0) =~= self.sessions@);
        }
        while i < self.sessions.len()
            invariant
                0 <= i <= self.sessions@.len(),
                session_with_id(self.sessions@, id@) == session_with_id(
                    self.sessions@.skip(i as int),
                    id@,
                ),
            decreases self.sessions@.len() - i,
        {
            let ghost rest = self.sessions@.skip(i as int);
            proof {
                assert(rest[0] == self.sessions@[i as int]);
                assert(rest.drop_first() =~= self.sessions@.skip(i as int + 1));
            }
            if crate::text::str_eq(self.sessions[i].id.as_str(), id) {
                return Some(self.sessions[i].clone());
            }
            i = i + 1;
        }
        proof {
            assert(self.sessions@.skip(self.sessions@.len() as int).len() == 0);
        }
        None
    }

    /// Lists sessions most recently updated first, `offset` skipped and at
    /// most `limit` returned.
    pub fn list_sessions(&self, limit: usize, offset: usize) -> (r: Vec<Session>)
        requires
            self.wf(),
        ensures
            r.deep_view() =~= window_views(self.sessions@, limit as int, offset as int),
            sessions_ordered_views(r.deep_view()),
    {
        let mut out: Vec<Session> = Vec::new();
        let mut i: usize = offset;
        while i < self.sessions.len() && out.len() < limit
            invariant
                self.wf(),
                offset <= i <= self.sessions@.len() || (i == offset && offset
                    >= self.sessions@.len()),
                out@.len() <= limit,
                out@.len() == (if i > offset {
                    i - offset
                } else {
                    0int
                }),
                out.deep_view() =~= seq_views(self.sessions@.subrange(
                    (if offset <= self.sessions@.len() {
                        offset as int
                    } else {
                        self.sessions@.len() as int
                    }),
                    (if i <= self.sessions@.len() {
                        i as int
                    } else {
                        self.sessions@.len() as int
                    }),
                )),
            decreases self.sessions@.len() - i,
        {
            let ghost before = out.deep_view();
            out.push(self.sessions[i].clone());
            proof {
                assert(out.deep_view() =~= before.push(self.sessions@[i as int]@));
                assert(self.sessions@.subrange(offset as int, i as int + 1)
                    =~= self.sessions@.subrange(offset as int, i as int).push(
                    self.sessions@[i as int],
                ));
                assert(seq_views(self.sessions@.subrange(offset as int, i as int + 1))
                    =~= seq_views(self.sessions@.subrange(offset as int, i as int)).push(
                    self.sessions@[i as int]@,
                ));
            }
            i = i + 1;
        }
        out
    }
}

/// The views of a run of sessions.
pub open spec fn seq_views(ss: Seq<Session>) -> Seq<SessionView> {
    ss.map_values(|s: Session| s@)
}

/// The window a listing returns: `offset` skipped, at most `limit` taken.
pub open spec fn window_views(ss: Seq<Session>, limit: int, offset: int) -> Seq<SessionView> {
    if offset >= ss.len() {
        Seq::empty()
    } else if offset + limit <= ss.len() {
        seq_views(ss.subrange(offset, offset + limit))
    } else {
        seq_views(ss.subrange(offset, ss.len() as int))
    }
}

/// Most-recently-updated-first order, on views.
pub open spec fn sessions_ordered_views(ss: Seq<SessionView>) -> bool {
    forall|i: int, j: int| 0 <= i < j < ss.len() ==> ss[i].updated_at >= ss[j].updated_at
}

} // verus!

verus! {

/// The views of a run of stored messages.
pub open spec fn msg_views(ms: Seq<Message>) -> Seq<StoredMessageView> {
    ms.map_values(|m: Message| m@)
}

/// The window a message listing returns: `offset` skipped, at most `limit`
/// taken, oldest first.
pub open spec fn msg_window_views(ms: Seq<Message>, limit: int, offset: int) -> Seq<
    StoredMessageView,
> {
    if offset >= ms.len() {
        Seq::empty()
    } else if offset + limit <= ms.len() {
        msg_views(ms.subrange(offset, offset + limit))
    } else {
        msg_views(ms.subrange(offset, ms.len() as int))
    }
}

proof fn lemma_session_messages_snoc(ms: Seq<Message>, m: Message, sid: Seq<char>)
    ensures
        session_messages(ms.push(m), sid) =~= session_messages(ms, sid) + (if m.session_id@
            == sid {
            seq![m]
        } else {
            Seq::<Message>::empty()
        }),
    decreases ms.len(),
{
    let ghost tail = if m.session_id@ == sid {
        seq![m]
    } else {
        Seq::<Message>::empty()
    };
    if ms.len() == 0 {
        assert(ms.push(m)[0] == m);
        assert(ms.push(m).drop_first() =~= Seq::<Message>::empty());
        assert(session_messages(Seq::<Message>::empty(), sid) == Seq::<Message>::empty());
        assert(session_messages(ms.push(m), sid) =~= tail);
        assert(session_messages(ms, sid) + tail =~= tail);
    } else {
        let ghost head = if ms[0].session_id@ == sid {
            seq![ms[0]]
        } else {
            Seq::<Message>::empty()
        };
        assert(ms.push(m)[0] == ms[0]);
        assert(ms.push(m).drop_first() =~= ms.drop_first().push(m));
        lemma_session_messages_snoc(ms.drop_first(), m, sid);
        assert(session_messages(ms.push(m), sid) == head + session_messages(
            ms.drop_first().push(m),
            sid,
        ));
        assert(head + (session_messages(ms.drop_first(), sid) + tail)
            =~= (head + session_messages(ms.drop_first(), sid)) + tail);
    }
}

proof fn lemma_without_ordered(ss: Seq<Session>, id: Seq<char>)
    requires
        sessions_ordered(ss),
    ensures
        sessions_ordered(sessions_without(ss, id)),
        forall|k: int|
            0 <= k < sessions_without(ss, id).len() ==> exists|j: int|
                0 <= j < ss.len() && #[trigger] sessions_without(ss, id)[k] == ss[j],
    decreases ss.len(),
{
    if ss.len() > 0 {
        assert(forall|i: int, j: int|
            0 <= i < j < ss.drop_first().len() ==> ss.drop_first()[i].updated_at
                >= ss.drop_first()[j].updated_at);
        lemma_without_ordered(ss.drop_first(), id);
        let rest = sessions_without(ss.drop_first(), id);
        if ss[0].id@ == id {
            assert(sessions_without(ss, id) =~= rest);
            assert(forall|k: int|
                0 <= k < rest.len() ==> exists|j: int|
                    0 <= j < ss.len() && #[trigger] rest[k] == ss[j]) by {
                assert(forall|k: int|
                    0 <= k < rest.len() ==> exists|j: int|
                        0 <= j < ss.drop_first().len() && #[trigger] rest[k]
                            == ss.drop_first()[j]);
                assert(forall|j: int|
                    0 <= j < ss.drop_first().len() ==> #[trigger] ss.drop_first()[j]
                        == ss[j + 1]);
            };
        } else {
            assert(sessions_without(ss, id) =~= seq![ss[0]] + rest);
            assert(forall|k: int|
                0 <= k < rest.len() ==> exists|j: int|
                    0 <= j < ss.drop_first().len() && #[trigger] rest[k]
                        == ss.drop_first()[j]);
            assert(forall|k: int|
                0 <= k < (seq![ss[0]] + rest).len() ==> exists|j: int|
                    0 <= j < ss.len() && #[trigger] (seq![ss[0]] + rest)[k] == #[trigger] ss[j])
                by {
                assert(forall|j: int|
                    0 <= j < ss.drop_first().len() ==> #[trigger] ss.drop_first()[j]
                        == ss[j + 1]);
                assert((seq![ss[0]] + rest)[0] == ss[0]);
            };
            assert(forall|k: int|
                0 <= k < rest.len() ==> (exists|j: int|
                    0 <= j < ss.len() && #[trigger] rest[k] == ss[j]));
            assert forall|i: int, j: int|
                0 <= i < j < (seq![ss[0]] + rest).len() implies (seq![ss[0]] + rest)[i].updated_at
                >= (seq![ss[0]] + rest)[j].updated_at by {
                if i > 0 {
                    assert(rest[i - 1].updated_at >= rest[j - 1].updated_at);
                } else {
                    let v = (seq![ss[0]] + rest)[j];
                    assert(rest[j - 1] == v);
                    assert(exists|l: int| 0 <= l < ss.len() && rest[j - 1] == ss[l]);
                    let l = choose|l: int| 0 <= l < ss.len() && rest[j - 1] == ss[l];
                    assert(ss[0].updated_at >= ss[l].updated_at);
                }
            };
        }
    }
}

impl DbService {
    /// Records one message for a session: it joins the end of the
    /// creation-ordered log with a fresh id, and the session's last-updated
    /// marker is bumped, making it the most recently updated one. A missing
    /// session leaves the session list untouched; the message is recorded
    /// either way, and the caller checks the session exists beforehand.
    pub fn insert_message(
        &mut self,
        session_id: &str,
        role: &str,
        content: &str,
        model: Option<&str>,
        token_count: Option<i64>,
        metadata: &str,
    ) -> (r: Message)
        requires
            old(self).wf(),
        ensures
            final(self).wf(),
            final(self).messages@.len() == old(self).messages@.len() + 1,
            final(self).messages@.subrange(0, old(self).messages@.len() as int) =~= old(
                self,
            ).messages@,
            r@ == final(self).messages@[old(self).messages@.len() as int]@,
            r@.session_id == session_id@,
            r@.role == role@,
            r@.content == content@,
            r@.model == (match model {
                Some(m) => Some(m@),
                None => None::<Seq<char>>,
            }),
            r@.token_count == token_count,
            r@.metadata == metadata@,
            match session_with_id(old(self).sessions@, session_id@) {
                Some(s) => final(self).sessions@.len() >= 1 && {
                    let bumped = final(self).sessions@[0];
                    &&& bumped.id@ == s.id@
                    &&& bumped.name@ == s.name@
                    &&& bumped.created_at == s.created_at
                    &&& bumped.metadata@ == s.metadata@
                    &&& bumped.updated_at >= s.updated_at
                    &&& final(self).sessions@.skip(1) =~= sessions_without(
                        old(self).sessions@,
                        session_id@,
                    )
                },
                None => final(self).sessions@ =~= old(self).sessions@,
            },
    {
        let now = self.tick();
        let model_owned: Option<String> = match model {
            Some(m) => Some(m.to_owned()),
            None => None,
        };
        let message = Message {
            id: self.next_message_id,
            session_id: session_id.to_owned(),
            role: role.to_owned(),
            content: content.to_owned(),
            model: model_owned,
            token_count,
            created_at: now,
            metadata: metadata.to_owned(),
        };
        let copy = message.clone();
        let ghost old_messages = self.messages@;
        self.messages.push(message);
        proof {
            assert(self.messages@.subrange(0, old_messages.len() as int) =~= old_messages);
        }
        if self.next_message_id < i64::MAX {
            self.next_message_id = self.next_message_id + 1;
        }
        // Bump the session's last-updated marker and move it to the front.
        let ghost old_sessions = self.sessions@;
        let ghost stamp = self.clock;
        let ghost msgs_done = self.messages@;
        let ghost nid_done = self.next_message_id;
        let mut kept: Vec<Session> = Vec::new();
        let mut found: Option<Session> = None;
        let ghost mut i: int = 0;
        proof {
            assert(old_sessions.skip(0) =~= old_sessions);
            assert(forall|l: int|
                0 <= l < old_sessions.len() ==> old_sessions[l].updated_at <= stamp);
        }
        while self.sessions.len() > 0
            invariant
                0 <= i,
                i + self.sessions@.len() == old_sessions.len(),
                self.sessions@ =~= old_sessions.skip(i),
                sessions_ordered(old_sessions),
                self.clock == stamp,
                self.messages@ == msgs_done,
                self.next_message_id == nid_done,
                kept@ + sessions_without(old_sessions.skip(i), session_id@)
                    =~= sessions_without(old_sessions, session_id@),
                match found {
                    Some(s) => session_with_id(old_sessions, session_id@) == Some(s)
                        && s.updated_at <= stamp,
                    None => session_with_id(old_sessions, session_id@) == session_with_id(
                        old_sessions.skip(i),
                        session_id@,
                    ),
                },
                sessions_ordered(kept@),
                forall|k: int, l: int|
                    0 <= k < kept@.len() && i <= l < old_sessions.len()
                        ==> kept@[k].updated_at >= old_sessions[l].updated_at,
                forall|k: int| 0 <= k < kept@.len() ==> kept@[k].updated_at <= stamp,
                forall|l: int|
                    0 <= l < old_sessions.len() ==> old_sessions[l].updated_at <= stamp,
            decreases self.sessions@.len(),
        {
            let ghost rest = old_sessions.skip(i);
            let s = self.sessions.remove(0);
            proof {
                assert(rest[0] == s);
                assert(rest.drop_first() =~= old_sessions.skip(i + 1));
                assert(self.sessions@ =~= old_sessions.skip(i + 1));
            }
            if crate::text::str_eq(s.id.as_str(), session_id) {
                proof {
                    assert(session_with_id(rest, session_id@) == Some(rest[0]));
                    assert(sessions_without(rest, session_id@) =~= sessions_without(
                        rest.drop_first(),
                        session_id@,
                    ));
                }
                if found.is_none() {
                    found = Some(s);
                }
            } else {
                let ghost kept_before = kept@;
                kept.push(s);
                proof {
                    assert(kept@ =~= kept_before.push(rest[0]));
                    assert(sessions_without(rest, session_id@) == seq![rest[0]]
                        + sessions_without(rest.drop_first(), session_id@));
                    assert(kept_before + (seq![rest[0]] + sessions_without(
                        rest.drop_first(),
                        session_id@,
                    )) =~= kept_before.push(rest[0]) + sessions_without(
                        rest.drop_first(),
                        session_id@,
                    ));
                }
            }
            proof {
                i = i + 1;
            }
        }
        proof {
            assert(old_sessions.skip(i).len() == 0);
            assert(sessions_without(old_sessions.skip(i), session_id@)
                =~= Seq::<Session>::empty());
            assert(kept@ + Seq::<Session>::empty() =~= kept@);
            assert(kept@ =~= sessions_without(old_sessions, session_id@));
        }
        match found {
            Some(s) => {
                let mut bumped = s;
                bumped.updated_at = self.clock;
                let ghost kept_view = kept@;
                kept.insert(0, bumped);
                self.sessions = kept;
                proof {
                    assert(self.sessions@.skip(1) =~= kept_view);
                    assert(self.sessions@[0] == bumped);
                }
            },
            None => {
                self.sessions = kept;
                proof {
                    assert(session_with_id(old_sessions, session_id@) is None);
                    lemma_without_absent(old_sessions, session_id@);
                }
            },
        }
        copy
    }

    /// The messages of one session, oldest first, `offset` skipped and at
    /// most `limit` returned.
    pub fn get_messages(&self, session_id: &str, limit: usize, offset: usize) -> (r: Vec<
        Message,
    >)
        ensures
            r.deep_view() =~= msg_window_views(
                session_messages(self.messages@, session_id@),
                limit as int,
                offset as int,
            ),
    {
        let mut filtered: Vec<Message> = Vec::new();
        let mut i: usize = 0;
        proof {
            assert(self.messages@.subrange(0, 0) =~= Seq::<Message>::empty());
            assert(session_messages(Seq::<Message>::empty(), session_id@)
                =~= Seq::<Message>::empty());
        }
        while i < self.messages.len()
            invariant
                0 <= i <= self.messages@.len(),
                filtered.deep_view() =~= msg_views(
                    session_messages(self.messages@.subrange(0, i as int), session_id@),
                ),
            decreases self.messages@.len() - i,
        {
            let ghost prefix = self.messages@.subrange(0, i as int);
            let ghost m = self.messages@[i as int];
            proof {
                assert(self.messages@.subrange(0, i as int + 1) =~= prefix.push(m));
                lemma_session_messages_snoc(prefix, m, session_id@);
            }
            if crate::text::str_eq(self.messages[i].session_id.as_str(), session_id) {
                let ghost before = filtered.deep_view();
                filtered.push(self.messages[i].clone());
                proof {
                    assert(filtered.deep_view() =~= before.push(m@));
                    assert(msg_views(session_messages(prefix, session_id@) + seq![m])
                        =~= msg_views(session_messages(prefix, session_id@)).push(m@));
                }
            } else {
                proof {
                    assert(session_messages(prefix, session_id@) + Seq::<Message>::empty()
                        =~= session_messages(prefix, session_id@));
                }
            }
            i = i + 1;
        }
        proof {
            assert(self.messages@.subrange(0, self.messages@.len() as int) =~= self.messages@);
        }
        let ghost all = session_messages(self.messages@, session_id@);
        let mut out: Vec<Message> = Vec::new();
        let mut j: usize = offset;
        while j < filtered.len() && out.len() < limit
            invariant
                filtered.deep_view() =~= msg_views(all),
                filtered@.len() == all.len(),
                offset <= j <= filtered@.len() || (j == offset && offset >= filtered@.len()),
                out@.len() == (if j > offset {
                    j - offset
                } else {
                    0int
                }),
                out@.len() <= limit,
                out.deep_view() =~= msg_views(all).subrange(
                    (if offset <= all.len() {
                        offset as int
                    } else {
                        all.len() as int
                    }),
                    (if j <= all.len() {
                        j as int
                    } else {
                        all.len() as int
                    }),
                ),
            decreases filtered@.len() - j,
        {
            let ghost before = out.deep_view();
            out.push(filtered[j].clone());
            proof {
                assert(out.deep_view() =~= before.push(msg_views(all)[j as int]));
                assert(msg_views(all).subrange(offset as int, j as int + 1)
                    =~= msg_views(all).subrange(offset as int, j as int).push(
                    msg_views(all)[j as int],
                ));
            }
            j = j + 1;
        }
        proof {
            if offset < all.len() {
                if offset + limit <= all.len() {
                    assert(msg_window_views(all, limit as int, offset as int)
                        =~= msg_views(all).subrange(offset as int, offset + limit));
                } else {
                    assert(msg_window_views(all, limit as int, offset as int)
                        =~= msg_views(all).subrange(offset as int, all.len() as int));
                }
            }
        }
        out
    }

    /// Deletes one session and, in the same stroke, every message it holds:
    /// the cascade is atomic — both lists come out filtered, other sessions
    /// and their messages stand untouched.
    pub fn delete_session(&mut self, id: &str)
        requires
            old(self).wf(),
        ensures
            final(self).wf(),
            final(self).sessions@ =~= sessions_without(old(self).sessions@, id@),
            final(self).messages@ =~= messages_without(old(self).messages@, id@),
    {
        let ghost old_sessions = self.sessions@;
        let ghost old_messages = self.messages@;
        let ghost stamp = self.clock;
        let ghost nid = self.next_message_id;
        let mut kept_sessions: Vec<Session> = Vec::new();
        let ghost mut i: int = 0;
        proof {
            assert(old_sessions.skip(0) =~= old_sessions);
        }
        while self.sessions.len() > 0
            invariant
                0 <= i,
                i + self.sessions@.len() == old_sessions.len(),
                self.sessions@ =~= old_sessions.skip(i),
                sessions_ordered(old_sessions),
                self.clock == stamp,
                self.next_message_id == nid,
                self.messages@ == old_messages,
                kept_sessions@ + sessions_without(old_sessions.skip(i), id@)
                    =~= sessions_without(old_sessions, id@),
                sessions_ordered(kept_sessions@),
                forall|a: int, l: int|
                    0 <= a < kept_sessions@.len() && i <= l < old_sessions.len()
                        ==> kept_sessions@[a].updated_at >= old_sessions[l].updated_at,
                forall|a: int|
                    0 <= a < kept_sessions@.len() ==> kept_sessions@[a].updated_at <= stamp,
                forall|l: int|
                    0 <= l < old_sessions.len() ==> old_sessions[l].updated_at <= stamp,
            decreases self.sessions@.len(),
        {
            let ghost rest = old_sessions.skip(i);
            let s = self.sessions.remove(0);
            proof {
                assert(rest[0] == s);
                assert(rest.drop_first() =~= old_sessions.skip(i + 1));
                assert(self.sessions@ =~= old_sessions.skip(i + 1));
            }
            if crate::text::str_eq(s.id.as_str(), id) {
                proof {
                    assert(sessions_without(rest, id@) =~= sessions_without(
                        rest.drop_first(),
                        id@,
                    ));
                }
            } else {
                let ghost kept_before = kept_sessions@;
                kept_sessions.push(s);
                proof {
                    assert(kept_sessions@ =~= kept_before.push(rest[0]));
                    assert(sessions_without(rest, id@) == seq![rest[0]] + sessions_without(
                        rest.drop_first(),
                        id@,
                    ));
                    assert(kept_before + (seq![rest[0]] + sessions_without(
                        rest.drop_first(),
                        id@,
                    )) =~= kept_before.push(rest[0]) + sessions_without(
                        rest.drop_first(),
                        id@,
                    ));
                }
            }
            proof {
                i = i + 1;
            }
        }
        proof {
            assert(old_sessions.skip(i).len() == 0);
            assert(sessions_without(old_sessions.skip(i), id@)
                =~= Seq::<Session>::empty());
            assert(kept_sessions@ + Seq::<Session>::empty() =~= kept_sessions@);
        }
        self.sessions = kept_sessions;
        let mut kept_messages: Vec<Message> = Vec::new();
        let ghost mut j: int = 0;
        proof {
            assert(old_messages.skip(0) =~= old_messages);
            assert(forall|l: int|
                0 <= l < old_messages.len() ==> old_messages[l].created_at <= stamp
                    && old_messages[l].id <= nid);
        }
        while self.messages.len() > 0
            invariant
                0 <= j,
                j + self.messages@.len() == old_messages.len(),
                self.messages@ =~= old_messages.skip(j),
                messages_ordered(old_messages),
                self.clock == stamp,
                self.next_message_id == nid,
                self.sessions@ =~= sessions_without(old_sessions, id@),
                sessions_ordered(self.sessions@),
                forall|a: int|
                    0 <= a < self.sessions@.len() ==> self.sessions@[a].updated_at <= stamp,
                kept_messages@ + messages_without(old_messages.skip(j), id@)
                    =~= messages_without(old_messages, id@),
                messages_ordered(kept_messages@),
                forall|a: int, l: int|
                    0 <= a < kept_messages@.len() && j <= l < old_messages.len()
                        ==> kept_messages@[a].created_at <= old_messages[l].created_at
                        && kept_messages@[a].id <= old_messages[l].id,
                forall|a: int|
                    0 <= a < kept_messages@.len() ==> kept_messages@[a].created_at <= stamp
                        && kept_messages@[a].id <= nid,
                forall|l: int|
                    0 <= l < old_messages.len() ==> old_messages[l].created_at <= stamp
                        && old_messages[l].id <= nid,
                nid >= 1,
            decreases self.messages@.len(),
        {
            let ghost rest = old_messages.skip(j);
            let m = self.messages.remove(0);
            proof {
                assert(rest[0] == m);
                assert(rest.drop_first() =~= old_messages.skip(j + 1));
                assert(self.messages@ =~= old_messages.skip(j + 1));
            }
            if crate::text::str_eq(m.session_id.as_str(), id) {
                proof {
                    assert(messages_without(rest, id@) =~= messages_without(
                        rest.drop_first(),
                        id@,
                    ));
                }
            } else {
                let ghost kept_before = kept_messages@;
                kept_messages.push(m);
                proof {
                    assert(kept_messages@ =~= kept_before.push(rest[0]));
                    assert(messages_without(rest, id@) == seq![rest[0]] + messages_without(
                        rest.drop_first(),
                        id@,
                    ));
                    assert(kept_before + (seq![rest[0]] + messages_without(
                        rest.drop_first(),
                        id@,
                    )) =~= kept_before.push(rest[0]) + messages_without(
                        rest.drop_first(),
                        id@,
                    ));
                }
            }
            proof {
                j = j + 1;
            }
        }
        proof {
            assert(old_messages.skip(j).len() == 0);
            assert(messages_without(old_messages.skip(j), id@)
                =~= Seq::<Message>::empty());
            assert(kept_messages@ + Seq::<Message>::empty() =~= kept_messages@);
        }
        self.messages = kept_messages;
    }
}

} // verus!

verus! {

/// Saturating signed addition.
pub open spec fn sat_add_i64(a: i64, b: i64) -> i64 {
    if a + b > i64::MAX {
        i64::MAX
    } else if a + b < i64::MIN {
        i64::MIN
    } else {
        (a + b) as i64
    }
}

/// The reported token count of one message, zero when none was recorded.
pub open spec fn msg_tokens(m: Message) -> i64 {
    match m.token_count {
        Some(t) => t,
        None => 0,
    }
}

/// The saturating running total of reported token counts.
pub open spec fn token_total_from(ms: Seq<Message>, acc: i64) -> i64
    decreases ms.len(),
{
    if ms.len() == 0 {
        acc
    } else {
        token_total_from(ms.drop_first(), sat_add_i64(acc, msg_tokens(ms[0])))
    }
}

/// A length clamped into a signed counter.
pub open spec fn len_as_i64(n: nat) -> i64 {
    if n > i64::MAX {
        i64::MAX
    } else {
        n as i64
    }
}

impl DbService {
    /// Whole-store counters: how many sessions and messages are held, the
    /// total of reported token counts (saturating), and a storage size
    /// supplied by whatever holds the bytes.
    pub fn stats(&self, db_size_bytes: u64) -> (r: crate::api::SystemStats)
        ensures
            r.total_sessions == len_as_i64(self.sessions@.len()),
            r.total_messages == len_as_i64(self.messages@.len()),
            r.total_tokens == token_total_from(self.messages@, 0),
            r.db_size_bytes == db_size_bytes,
    {
        let sessions_len: u64 = self.sessions.len() as u64;
        let total_sessions: i64 = if sessions_len <= 0x7fff_ffff_ffff_ffffu64 {
            sessions_len as i64
        } else {
            i64::MAX
        };
        let messages_len: u64 = self.messages.len() as u64;
        let total_messages: i64 = if messages_len <= 0x7fff_ffff_ffff_ffffu64 {
            messages_len as i64
        } else {
            i64::MAX
        };
        let mut total_tokens: i64 = 0;
        let mut i: usize = 0;
        proof {
            assert(self.messages@.skip(0) =~= self.messages@);
        }
        while i < self.messages.len()
            invariant
                0 <= i <= self.messages@.len(),
                token_total_from(self.messages@, 0) == token_total_from(
                    self.messages@.skip(i as int),
                    total_tokens,
                ),
            decreases self.messages@.len() - i,
        {
            let ghost rest = self.messages@.skip(i as int);
            proof {
                assert(rest[0] == self.messages@[i as int]);
                assert(rest.drop_first() =~= self.messages@.skip(i as int + 1));
            }
            let t: i64 = match self.messages[i].token_count {
                Some(t) => t,
                None => 0,
            };
            let wide: i128 = total_tokens as i128 + t as i128;
            total_tokens = if wide > i64::MAX as i128 {
                i64::MAX
            } else if wide < i64::MIN as i128 {
                i64::MIN
            } else {
                wide as i64
            };
            i = i + 1;
        }
        proof {
            assert(self.messages@.skip(self.messages@.len() as int).len() == 0);
        }
        crate::api::SystemStats {
            total_sessions,
            total_messages,
            total_tokens,
            db_size_bytes,
        }
    }
}

} // verus!

verus! {

impl DbService {
    /// Renames a session and/or replaces its metadata: given fields land,
    /// absent ones stand, the last-updated marker is bumped, and the
    /// session becomes the most recently updated one. A copy of the updated
    /// record comes back; a missing id changes nothing.
    pub fn update_session(&mut self, id: &str, name: Option<&str>, metadata: Option<&str>) -> (r:
        Option<Session>)
        requires
            old(self).wf(),
        ensures
            final(self).wf(),
            final(self).messages == old(self).messages,
            match session_with_id(old(self).sessions@, id@) {
                Some(s) => r matches Some(updated) && final(self).sessions@.len() >= 1 && {
                    let front = final(self).sessions@[0];
                    &&& front@ == updated@
                    &&& updated.id@ == s.id@
                    &&& updated.created_at == s.created_at
                    &&& updated.name@ == (match name {
                        Some(n) => n@,
                        None => s.name@,
                    })
                    &&& updated.metadata@ == (match metadata {
                        Some(m) => m@,
                        None => s.metadata@,
                    })
                    &&& updated.updated_at >= s.updated_at
                    &&& final(self).sessions@.skip(1) =~= sessions_without(
                        old(self).sessions@,
                        id@,
                    )
                },
                None => r is None && final(self).sessions@ =~= old(self).sessions@,
            },
    {
        let now = self.tick();
        let ghost old_sessions = self.sessions@;
        let ghost stamp = self.clock;
        let ghost msgs_done = self.messages;
        let ghost nid_done = self.next_message_id;
        let mut kept: Vec<Session> = Vec::new();
        let mut found: Option<Session> = None;
        let ghost mut i: int = 0;
        proof {
            assert(old_sessions.skip(0) =~= old_sessions);
            assert(forall|l: int|
                0 <= l < old_sessions.len() ==> old_sessions[l].updated_at <= stamp);
        }
        while self.sessions.len() > 0
            invariant
                0 <= i,
                i + self.sessions@.len() == old_sessions.len(),
                self.sessions@ =~= old_sessions.skip(i),
                sessions_ordered(old_sessions),
                self.clock == stamp,
                self.messages == msgs_done,
                self.next_message_id == nid_done,
                kept@ + sessions_without(old_sessions.skip(i), id@) =~= sessions_without(
                    old_sessions,
                    id@,
                ),
                match found {
                    Some(s) => session_with_id(old_sessions, id@) == Some(s) && s.updated_at
                        <= stamp,
                    None => session_with_id(old_sessions, id@) == session_with_id(
                        old_sessions.skip(i),
                        id@,
                    ),
                },
                sessions_ordered(kept@),
                forall|k: int, l: int|
                    0 <= k < kept@.len() && i <= l < old_sessions.len()
                        ==> kept@[k].updated_at >= old_sessions[l].updated_at,
                forall|k: int| 0 <= k < kept@.len() ==> kept@[k].updated_at <= stamp,
                forall|l: int|
                    0 <= l < old_sessions.len() ==> old_sessions[l].updated_at <= stamp,
            decreases self.sessions@.len(),
        {
            let ghost rest = old_sessions.skip(i);
            let s = self.sessions.remove(0);
            proof {
                assert(rest[0] == s);
                assert(rest.drop_first() =~= old_sessions.skip(i + 1));
                assert(self.sessions@ =~= old_sessions.skip(i + 1));
            }
            if crate::text::str_eq(s.id.as_str(), id) {
                proof {
                    assert(session_with_id(rest, id@) == Some(rest[0]));
                    assert(sessions_without(rest, id@) =~= sessions_without(
                        rest.drop_first(),
                        id@,
                    ));
                }
                if found.is_none() {
                    found = Some(s);
                }
            } else {
                let ghost kept_before = kept@;
                kept.push(s);
                proof {
                    assert(kept@ =~= kept_before.push(rest[0]));
                    assert(sessions_without(rest, id@) == seq![rest[0]] + sessions_without(
                        rest.drop_first(),
                        id@,
                    ));
                    assert(kept_before + (seq![rest[0]] + sessions_without(
                        rest.drop_first(),
                        id@,
                    )) =~= kept_before.push(rest[0]) + sessions_without(
                        rest.drop_first(),
                        id@,
                    ));
                }
            }
            proof {
                i = i + 1;
            }
        }
        proof {
            assert(old_sessions.skip(i).len() == 0);
            assert(sessions_without(old_sessions.skip(i), id@) =~= Seq::<Session>::empty());
            assert(kept@ + Seq::<Session>::empty() =~= kept@);
            assert(kept@ =~= sessions_without(old_sessions, id@));
        }
        match found {
            Some(s) => {
                let mut updated = s;
                match name {
                    Some(n) => {
                        updated.name = n.to_owned();
                    },
                    None => {},
                }
                match metadata {
                    Some(m) => {
                        updated.metadata = m.to_owned();
                    },
                    None => {},
                }
                updated.updated_at = now;
                let copy = updated.clone();
                let ghost kept_view = kept@;
                kept.insert(0, updated);
                self.sessions = kept;
                proof {
                    assert(self.sessions@.skip(1) =~= kept_view);
                }
                Some(copy)
            },
            None => {
                self.sessions = kept;
                proof {
                    assert(session_with_id(old_sessions, id@) is None);
                    lemma_without_absent(old_sessions, id@);
                }
                None
            },
        }
    }
}

} // verus!
