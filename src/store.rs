//! The state store: the client's snapshot of the daemon's state, and the event
//! applier, the only writer of that snapshot.
//!
//! Each daemon event kind has one mutation; `applied` states them all, and
//! `StateStore::apply` performs them.

use vstd::prelude::*;
use crate::lists::{
    all_sorted, list_or_empty, removed_in, table_remove_id, table_upsert_back,
    table_upsert_sorted, upsert_back, upsert_front,
};
use crate::ordered::{find_id, Identified, remove_by_id, sorted_by_id, upsert_sorted, without_id};
use crate::table::{
    Entry, find_key, keys_distinct, lemma_list_map_remove, lemma_map_put, list_map, put_key,
    table_map, take_key,
};
use crate::streaming::{stream_step, StreamingMessage, StreamingToolCall};
use crate::types::{
    DaemonEvent, Message, MessageEvent, Part, PermissionRequest, QuestionRequest, Session,
    SessionStatus, StreamEvent,
};

verus! {

/// Which top-level view the presentation shows.
#[derive(Clone, Copy, Debug, PartialEq, Eq, Structural)]
pub enum ActiveView {
    Sessions,
    Chat,
    Settings,
}

/// The store's content as mathematical values.
pub struct StoreView {
    /// Whether the daemon counts as reachable.
    pub connected: bool,
    /// Sessions, newest first, at most one per id.
    pub sessions: Seq<Session>,
    /// The selected session, if any.
    pub active_session: Option<Seq<char>>,
    pub active_view: ActiveView,
    /// Status per session id.
    pub statuses: Map<Seq<char>, SessionStatus>,
    /// Messages per session id.
    pub messages: Map<Seq<char>, Seq<Message>>,
    /// Parts per message id, each list sorted by part id.
    pub parts: Map<Seq<char>, Seq<Part>>,
    /// Pending permission requests per session id, each list sorted by id.
    pub permissions: Map<Seq<char>, Seq<PermissionRequest>>,
    /// Pending questions per session id, each list sorted by id.
    pub questions: Map<Seq<char>, Seq<QuestionRequest>>,
    /// The message being streamed, if any.
    pub streaming: Option<StreamingMessage>,
}

/// The view of an optional string.
pub open spec fn opt_view(o: Option<String>) -> Option<Seq<char>> {
    match o {
        Some(s) => Some(s@),
        None => None,
    }
}

/// The ids of the records of `s`.
pub open spec fn ids_of<T: Identified>(s: Seq<T>) -> Set<Seq<char>> {
    Set::new(|k: Seq<char>| exists|i: int| 0 <= i < s.len() && (#[trigger] s[i]).id_view() == k)
}

/// The effect of deleting session `id`: the session goes, its messages go,
/// and with them their parts; a selection of it is cleared.
pub open spec fn session_removed(v: StoreView, id: Seq<char>) -> StoreView {
    StoreView {
        sessions: without_id(v.sessions, id),
        messages: v.messages.remove(id),
        parts: v.parts.remove_keys(ids_of(list_or_empty(v.messages, id))),
        active_session: if v.active_session == Some(id) {
            None
        } else {
            v.active_session
        },
        active_view: if v.active_session == Some(id) {
            ActiveView::Sessions
        } else {
            v.active_view
        },
        ..v
    }
}

/// The documented effect of each daemon event on the store.
pub open spec fn applied(v: StoreView, e: DaemonEvent) -> StoreView {
    match e {
        DaemonEvent::SessionCreated(s) => StoreView { sessions: upsert_front(v.sessions, s), ..v },
        DaemonEvent::SessionUpdated(s) => StoreView { sessions: upsert_front(v.sessions, s), ..v },
        DaemonEvent::SessionDeleted(id) => session_removed(v, id@),
        DaemonEvent::SessionStatus { session_id, status } => StoreView {
            statuses: v.statuses.insert(session_id@, status),
            ..v
        },
        DaemonEvent::MessageCreated(me) => StoreView {
            messages: v.messages.insert(
                me.session_id@,
                upsert_back(list_or_empty(v.messages, me.session_id@), me.message),
            ),
            ..v
        },
        DaemonEvent::MessageUpdated(me) => StoreView {
            messages: v.messages.insert(
                me.session_id@,
                upsert_back(list_or_empty(v.messages, me.session_id@), me.message),
            ),
            ..v
        },
        DaemonEvent::MessageRemoved { session_id, message_id } => StoreView {
            messages: removed_in(v.messages, session_id@, message_id@),
            parts: v.parts.remove(message_id@),
            ..v
        },
        DaemonEvent::MessagePartUpdated(p) => StoreView {
            parts: v.parts.insert(
                p.message_id@,
                upsert_sorted(list_or_empty(v.parts, p.message_id@), p),
            ),
            ..v
        },
        DaemonEvent::MessagePartRemoved { message_id, part_id } => StoreView {
            parts: removed_in(v.parts, message_id@, part_id@),
            ..v
        },
        DaemonEvent::PermissionAsked(r) => StoreView {
            permissions: v.permissions.insert(
                r.session_id@,
                upsert_sorted(list_or_empty(v.permissions, r.session_id@), r),
            ),
            ..v
        },
        DaemonEvent::PermissionReplied { session_id, request_id } => StoreView {
            permissions: removed_in(v.permissions, session_id@, request_id@),
            ..v
        },
        DaemonEvent::QuestionAsked(r) => StoreView {
            questions: v.questions.insert(
                r.session_id@,
                upsert_sorted(list_or_empty(v.questions, r.session_id@), r),
            ),
            ..v
        },
        DaemonEvent::QuestionReplied { session_id, request_id } => StoreView {
            questions: removed_in(v.questions, session_id@, request_id@),
            ..v
        },
        DaemonEvent::ConnectionStatus(c) => StoreView { connected: c, ..v },
        DaemonEvent::Keepalive => v,
    }
}

/// The authoritative in-memory snapshot of the daemon's state.
pub struct StateStore {
    connected: bool,
    sessions: Vec<Session>,
    active_session_id: Option<String>,
    active_view: ActiveView,
    statuses: Vec<Entry<SessionStatus>>,
    messages: Vec<Entry<Vec<Message>>>,
    parts: Vec<Entry<Vec<Part>>>,
    permissions: Vec<Entry<Vec<PermissionRequest>>>,
    questions: Vec<Entry<Vec<QuestionRequest>>>,
    streaming: Option<StreamingMessage>,
}

impl View for StateStore {
    type V = StoreView;

    closed spec fn view(&self) -> StoreView {
        StoreView {
            connected: self.connected,
            sessions: self.sessions@,
            active_session: opt_view(self.active_session_id),
            active_view: self.active_view,
            statuses: table_map(self.statuses@),
            messages: list_map(self.messages@),
            parts: list_map(self.parts@),
            permissions: list_map(self.permissions@),
            questions: list_map(self.questions@),
            streaming: self.streaming,
        }
    }
}

/// No two records of `s` share an id.
pub open spec fn ids_distinct<T: Identified>(s: Seq<T>) -> bool {
    forall|i: int, j: int|
        0 <= i < s.len() && 0 <= j < s.len() && i != j ==> s[i].id_view() != s[j].id_view()
}

impl StateStore {
    /// The store's invariant: at most one session per id, and every part list
    /// and prompt queue sorted by id.
    pub closed spec fn wf(&self) -> bool {
        &&& keys_distinct(self.statuses@)
        &&& keys_distinct(self.messages@)
        &&& keys_distinct(self.parts@)
        &&& keys_distinct(self.permissions@)
        &&& keys_distinct(self.questions@)
        &&& ids_distinct(self.sessions@)
        &&& all_sorted(self@.parts)
        &&& all_sorted(self@.permissions)
        &&& all_sorted(self@.questions)
    }

    /// What the view promises of a well-formed store.
    pub proof fn lemma_wf(&self)
        requires
            self.wf(),
        ensures
            ids_distinct(self@.sessions),
            all_sorted(self@.parts),
            all_sorted(self@.permissions),
            all_sorted(self@.questions),
    {
    }

    /// An empty store, not connected, showing the session list.
    pub fn new() -> (r: StateStore)
        ensures
            r.wf(),
            r@ == (StoreView {
                connected: false,
                sessions: Seq::empty(),
                active_session: None,
                active_view: ActiveView::Sessions,
                statuses: Map::empty(),
                messages: Map::empty(),
                parts: Map::empty(),
                permissions: Map::empty(),
                questions: Map::empty(),
                streaming: None,
            }),
    {
        let r = StateStore {
            connected: false,
            sessions: Vec::new(),
            active_session_id: None,
            active_view: ActiveView::Sessions,
            statuses: Vec::new(),
            messages: Vec::new(),
            parts: Vec::new(),
            permissions: Vec::new(),
            questions: Vec::new(),
            streaming: None,
        };
        assert(table_map(r.statuses@) =~= Map::empty());
        assert(list_map(r.messages@) =~= Map::empty());
        assert(list_map(r.parts@) =~= Map::empty());
        assert(list_map(r.permissions@) =~= Map::empty());
        assert(list_map(r.questions@) =~= Map::empty());
        r
    }

    /// Sets the connectivity flag.
    pub fn set_connected(&mut self, connected: bool)
        requires
            old(self).wf(),
        ensures
            final(self).wf(),
            final(self)@ == (StoreView { connected, ..old(self)@ }),
    {
        self.connected = connected;
    }

    /// Inserts a session, or replaces the one with its id; a new one goes
    /// first.
    pub fn upsert_session(&mut self, session: Session)
        requires
            old(self).wf(),
        ensures
            final(self).wf(),
            final(self)@ == (StoreView { sessions: upsert_front(old(self)@.sessions, session), ..old(self)@ }),
    {
        let ghost before = self.sessions@;
        match find_id(&self.sessions, session.id_ref()) {
            Some(i) => {
                self.sessions.remove(i);
                self.sessions.insert(i, session);
                assert(self.sessions@ =~= before.update(i as int, session));
                assert(ids_distinct(self.sessions@)) by {
                    assert forall|a: int, b: int|
                        0 <= a < self.sessions@.len() && 0 <= b < self.sessions@.len() && a != b
                        implies self.sessions@[a].id_view() != self.sessions@[b].id_view() by {
                        assert(self.sessions@[a].id_view() == before[a].id_view());
                        assert(self.sessions@[b].id_view() == before[b].id_view());
                    }
                }
            },
            None => {
                self.sessions.insert(0, session);
                proof {
                    crate::ordered::lemma_id_index_none(before, session.id_view());
                }
                assert(ids_distinct(self.sessions@)) by {
                    assert forall|a: int, b: int|
                        0 <= a < self.sessions@.len() && 0 <= b < self.sessions@.len() && a != b
                        implies self.sessions@[a].id_view() != self.sessions@[b].id_view() by {
                        if a > 0 {
                            assert(self.sessions@[a] == before[a - 1]);
                        }
                        if b > 0 {
                            assert(self.sessions@[b] == before[b - 1]);
                        }
                    }
                }
            },
        }
    }

    /// Replaces the status record of a session.
    pub fn set_session_status(&mut self, session_id: String, status: SessionStatus)
        requires
            old(self).wf(),
        ensures
            final(self).wf(),
            final(self)@ == (StoreView {
                statuses: old(self)@.statuses.insert(session_id@, status),
                ..old(self)@
            }),
    {
        let ghost before = self.statuses@;
        let ghost k = session_id@;
        put_key(&mut self.statuses, session_id, status);
        proof {
            lemma_map_put(before, self.statuses@, k, status);
        }
    }

    /// Inserts a message into its session's list, or replaces the one with
    /// its id; a new one goes last.
    pub fn upsert_message(&mut self, session_id: String, message: Message)
        requires
            old(self).wf(),
        ensures
            final(self).wf(),
            final(self)@ == (StoreView {
                messages: old(self)@.messages.insert(
                    session_id@,
                    upsert_back(list_or_empty(old(self)@.messages, session_id@), message),
                ),
                ..old(self)@
            }),
    {
        table_upsert_back(&mut self.messages, session_id, message);
    }

    /// Upserts a part into its message's list, in part-id order.
    pub fn update_part(&mut self, part: Part)
        requires
            old(self).wf(),
        ensures
            final(self).wf(),
            final(self)@ == (StoreView {
                parts: old(self)@.parts.insert(
                    part.message_id@,
                    upsert_sorted(list_or_empty(old(self)@.parts, part.message_id@), part),
                ),
                ..old(self)@
            }),
    {
        let k = part.message_id.clone();
        table_upsert_sorted(&mut self.parts, k, part);
    }

    /// Removes one part of a message; nothing if it is not there.
    pub fn remove_part(&mut self, message_id: &String, part_id: &String)
        requires
            old(self).wf(),
        ensures
            final(self).wf(),
            final(self)@ == (StoreView {
                parts: removed_in(old(self)@.parts, message_id@, part_id@),
                ..old(self)@
            }),
    {
        table_remove_id(&mut self.parts, message_id, part_id);
    }

    /// Upserts a permission request into its session's queue, in id order.
    pub fn handle_permission_asked(&mut self, request: PermissionRequest)
        requires
            old(self).wf(),
        ensures
            final(self).wf(),
            final(self)@ == (StoreView {
                permissions: old(self)@.permissions.insert(
                    request.session_id@,
                    upsert_sorted(list_or_empty(old(self)@.permissions, request.session_id@), request),
                ),
                ..old(self)@
            }),
    {
        let k = request.session_id.clone();
        table_upsert_sorted(&mut self.permissions, k, request);
    }

    /// Removes an answered permission request from its session's queue.
    pub fn handle_permission_replied(&mut self, session_id: &String, request_id: &String)
        requires
            old(self).wf(),
        ensures
            final(self).wf(),
            final(self)@ == (StoreView {
                permissions: removed_in(old(self)@.permissions, session_id@, request_id@),
                ..old(self)@
            }),
    {
        table_remove_id(&mut self.permissions, session_id, request_id);
    }

    /// Upserts a question request into its session's queue, in id order.
    pub fn handle_question_asked(&mut self, request: QuestionRequest)
        requires
            old(self).wf(),
        ensures
            final(self).wf(),
            final(self)@ == (StoreView {
                questions: old(self)@.questions.insert(
                    request.session_id@,
                    upsert_sorted(list_or_empty(old(self)@.questions, request.session_id@), request),
                ),
                ..old(self)@
            }),
    {
        let k = request.session_id.clone();
        table_upsert_sorted(&mut self.questions, k, request);
    }

    /// Removes an answered or rejected question from its session's queue.
    pub fn handle_question_replied(&mut self, session_id: &String, request_id: &String)
        requires
            old(self).wf(),
        ensures
            final(self).wf(),
            final(self)@ == (StoreView {
                questions: removed_in(old(self)@.questions, session_id@, request_id@),
                ..old(self)@
            }),
    {
        table_remove_id(&mut self.questions, session_id, request_id);
    }
}

} // verus!

verus! {

impl StateStore {
    /// Removes a message from its session's list and, with it, every part
    /// keyed to its id.
    pub fn remove_message(&mut self, session_id: &String, message_id: &String)
        requires
            old(self).wf(),
        ensures
            final(self).wf(),
            final(self)@ == (StoreView {
                messages: removed_in(old(self)@.messages, session_id@, message_id@),
                parts: old(self)@.parts.remove(message_id@),
                ..old(self)@
            }),
    {
        table_remove_id(&mut self.messages, session_id, message_id);
        let ghost before = self.parts@;
        let _ = take_key(&mut self.parts, message_id);
        proof {
            lemma_list_map_remove(before, self.parts@, message_id@);
            let m = list_map(before);
            assert forall|k2: Seq<char>| #[trigger] self@.parts.contains_key(k2) implies sorted_by_id(
                self@.parts[k2],
            ) by {
                assert(m.contains_key(k2));
            }
        }
    }

    /// Deletes a session: the session, its messages and their parts go, and a
    /// selection of it is cleared.
    pub fn remove_session(&mut self, session_id: &String)
        requires
            old(self).wf(),
        ensures
            final(self).wf(),
            final(self)@ == session_removed(old(self)@, session_id@),
    {
        let ghost old_view = self@;
        let ghost k = session_id@;
        proof {
            crate::ordered::lemma_without_id_distinct(self.sessions@, k);
        }
        remove_by_id(&mut self.sessions, session_id);
        let ghost msgs_before = self.messages@;
        let taken = take_key(&mut self.messages, session_id);
        proof {
            lemma_list_map_remove(msgs_before, self.messages@, k);
        }
        let msgs = match taken {
            Some(l) => l,
            None => Vec::new(),
        };
        assert(msgs@ == list_or_empty(old_view.messages, k));
        let ghost parts0 = list_map(self.parts@);
        let ghost pre = *self;
        let mut j: usize = 0;
        assert(ids_of(msgs@.subrange(0, 0)) =~= Set::empty());
        assert(parts0.remove_keys(Set::empty()) =~= parts0);
        while j < msgs.len()
            invariant
                j <= msgs@.len(),
                keys_distinct(self.parts@),
                list_map(self.parts@) == parts0.remove_keys(ids_of(msgs@.subrange(0, j as int))),
                all_sorted(parts0),
                self.sessions == pre.sessions,
                self.messages == pre.messages,
                self.statuses == pre.statuses,
                self.permissions == pre.permissions,
                self.questions == pre.questions,
                self.connected == pre.connected,
                self.active_session_id == pre.active_session_id,
                self.active_view == pre.active_view,
                self.streaming == pre.streaming,
            decreases msgs@.len() - j,
        {
            let ghost before = self.parts@;
            let _ = take_key(&mut self.parts, msgs[j].id_ref());
            proof {
                lemma_list_map_remove(before, self.parts@, msgs@[j as int].id_view());
                let a = msgs@.subrange(0, j as int);
                let b = msgs@.subrange(0, j + 1);
                assert(ids_of(b) =~= ids_of(a).insert(msgs@[j as int].id_view())) by {
                    assert forall|x: Seq<char>| ids_of(b).contains(x) <==> ids_of(a).insert(
                        msgs@[j as int].id_view(),
                    ).contains(x) by {
                        if ids_of(b).contains(x) {
                            let t = choose|t: int| 0 <= t < b.len() && (#[trigger] b[t]).id_view() == x;
                            if t < j {
                                assert(a[t] == b[t]);
                            }
                        }
                        if ids_of(a).contains(x) {
                            let t = choose|t: int| 0 <= t < a.len() && (#[trigger] a[t]).id_view() == x;
                            assert(b[t] == a[t]);
                        }
                        if x == msgs@[j as int].id_view() {
                            assert(b[j as int] == msgs@[j as int]);
                        }
                    }
                }
                assert(list_map(self.parts@) =~= parts0.remove_keys(ids_of(b)));
            }
            j = j + 1;
        }
        assert(msgs@.subrange(0, msgs@.len() as int) =~= msgs@);
        let clear = match &self.active_session_id {
            Some(a) => *a == *session_id,
            None => false,
        };
        if clear {
            self.active_session_id = None;
            self.active_view = ActiveView::Sessions;
        }
        proof {
            let m = list_map(self.parts@);
            assert forall|k2: Seq<char>| #[trigger] m.contains_key(k2) implies sorted_by_id(m[k2]) by {
                assert(parts0.contains_key(k2));
            }
            assert(self@.messages == old_view.messages.remove(k));
        }
    }

    /// Applies one daemon event: the mutation of its kind, as `applied`
    /// states it.
    pub fn apply(&mut self, e: DaemonEvent)
        requires
            old(self).wf(),
        ensures
            final(self).wf(),
            final(self)@ == applied(old(self)@, e),
    {
        match e {
            DaemonEvent::SessionCreated(s) => self.upsert_session(s),
            DaemonEvent::SessionUpdated(s) => self.upsert_session(s),
            DaemonEvent::SessionDeleted(id) => self.remove_session(&id),
            DaemonEvent::SessionStatus { session_id, status } => self.set_session_status(
                session_id,
                status,
            ),
            DaemonEvent::MessageCreated(me) => {
                let MessageEvent { session_id, message } = me;
                self.upsert_message(session_id, message)
            },
            DaemonEvent::MessageUpdated(me) => {
                let MessageEvent { session_id, message } = me;
                self.upsert_message(session_id, message)
            },
            DaemonEvent::MessageRemoved { session_id, message_id } => self.remove_message(
                &session_id,
                &message_id,
            ),
            DaemonEvent::MessagePartUpdated(p) => self.update_part(p),
            DaemonEvent::MessagePartRemoved { message_id, part_id } => self.remove_part(
                &message_id,
                &part_id,
            ),
            DaemonEvent::PermissionAsked(r) => self.handle_permission_asked(r),
            DaemonEvent::PermissionReplied { session_id, request_id } =>
                self.handle_permission_replied(&session_id, &request_id),
            DaemonEvent::QuestionAsked(r) => self.handle_question_asked(r),
            DaemonEvent::QuestionReplied { session_id, request_id } => self.handle_question_replied(
                &session_id,
                &request_id,
            ),
            DaemonEvent::ConnectionStatus(c) => self.set_connected(c),
            DaemonEvent::Keepalive => {},
        }
    }
}

} // verus!

verus! {

/// Asking the same permission twice (same session, same request id, any
/// payloads) leaves one entry with that id in the queue, and it holds the
/// second payload; from an empty queue, it is the only entry.
pub proof fn lemma_permission_asked_twice(v: StoreView, a: PermissionRequest, b: PermissionRequest)
    requires
        all_sorted(v.permissions),
        a.id@ == b.id@,
        a.session_id@ == b.session_id@,
    ensures
        ({
            let once = applied(v, DaemonEvent::PermissionAsked(a));
            let twice = applied(once, DaemonEvent::PermissionAsked(b));
            let q = twice.permissions[b.session_id@];
            &&& twice.permissions.contains_key(b.session_id@)
            &&& q.contains(b)
            &&& forall|j: int| 0 <= j < q.len() && (#[trigger] q[j]).id@ == b.id@ ==> q[j] == b
            &&& q.len() == once.permissions[a.session_id@].len()
            &&& list_or_empty(v.permissions, a.session_id@).len() == 0 ==> q == seq![b]
        }),
{
    let k = a.session_id@;
    let s0 = list_or_empty(v.permissions, k);
    assert(sorted_by_id(s0));
    crate::ordered::lemma_upsert_sorted(s0, a);
    let s1 = upsert_sorted(s0, a);
    let once = applied(v, DaemonEvent::PermissionAsked(a));
    assert(once.permissions[k] == s1);
    assert(list_or_empty(once.permissions, k) == s1);
    crate::ordered::lemma_upsert_sorted(s1, b);
    let s2 = upsert_sorted(s1, b);
    if crate::ordered::id_index(s1, b.id_view(), 0) < 0 {
        crate::ordered::lemma_id_index_none(s1, b.id_view());
        let t = choose|t: int| 0 <= t < s1.len() && s1[t] == a;
        assert(s1[t].id_view() == b.id_view());
    }
    if s0.len() == 0 {
        assert(s1 =~= seq![a]);
        assert(s2 =~= seq![b]);
    }
}

/// Removing a message takes every part keyed to it out of the store, and the
/// message out of its session's list; the parts of other messages stay.
pub proof fn lemma_message_removed_purges_parts(
    v: StoreView,
    session_id: String,
    message_id: String,
)
    ensures
        ({
            let after = applied(
                v,
                DaemonEvent::MessageRemoved { session_id: session_id, message_id: message_id },
            );
            &&& !after.parts.contains_key(message_id@)
            &&& forall|k: Seq<char>|
                k != message_id@ ==> #[trigger] after.parts.contains_key(k) == v.parts.contains_key(
                    k,
                ) && (v.parts.contains_key(k) ==> after.parts[k] == v.parts[k])
            &&& forall|j: int|
                0 <= j < list_or_empty(after.messages, session_id@).len() ==> (#[trigger] list_or_empty(
                    after.messages,
                    session_id@,
                )[j]).id@ != message_id@
        }),
{
    let s = list_or_empty(v.messages, session_id@);
    crate::ordered::lemma_without_id(s, message_id@);
}

} // verus!

verus! {

impl StateStore {
    /// Whether the daemon counts as reachable.
    pub fn connected(&self) -> (r: bool)
        ensures
            r == self@.connected,
    {
        self.connected
    }

    /// The sessions, newest first.
    pub fn sessions(&self) -> (r: &Vec<Session>)
        ensures
            r@ == self@.sessions,
    {
        &self.sessions
    }

    /// The selected session's id, if any.
    pub fn active_session_id(&self) -> (r: Option<&String>)
        ensures
            match r {
                Some(s) => self@.active_session == Some(s@),
                None => self@.active_session is None,
            },
    {
        match &self.active_session_id {
            Some(s) => Some(s),
            None => None,
        }
    }

    /// The view the presentation shows.
    pub fn active_view(&self) -> (r: ActiveView)
        ensures
            r == self@.active_view,
    {
        self.active_view
    }

    /// Selects a session (or none); selecting one switches to the chat view.
    pub fn set_active_session(&mut self, session_id: Option<String>)
        requires
            old(self).wf(),
        ensures
            final(self).wf(),
            final(self)@ == (StoreView {
                active_session: opt_view(session_id),
                active_view: if session_id is Some {
                    ActiveView::Chat
                } else {
                    old(self)@.active_view
                },
                ..old(self)@
            }),
    {
        if session_id.is_some() {
            self.active_view = ActiveView::Chat;
        }
        self.active_session_id = session_id;
    }

    /// Switches the view.
    pub fn set_view(&mut self, view: ActiveView)
        requires
            old(self).wf(),
        ensures
            final(self).wf(),
            final(self)@ == (StoreView { active_view: view, ..old(self)@ }),
    {
        self.active_view = view;
    }

    /// The messages of a session, if any were stored.
    pub fn messages_of(&self, session_id: &String) -> (r: Option<&Vec<Message>>)
        requires
            self.wf(),
        ensures
            match r {
                Some(l) => self@.messages.contains_key(session_id@) && l@ == self@.messages[session_id@],
                None => !self@.messages.contains_key(session_id@),
            },
    {
        crate::lists::table_get(&self.messages, session_id)
    }

    /// Replaces the whole message list of a session.
    pub fn set_messages(&mut self, session_id: String, messages: Vec<Message>)
        requires
            old(self).wf(),
        ensures
            final(self).wf(),
            final(self)@ == (StoreView {
                messages: old(self)@.messages.insert(session_id@, messages@),
                ..old(self)@
            }),
    {
        let ghost before = self.messages@;
        let ghost k = session_id@;
        put_key(&mut self.messages, session_id, messages);
        proof {
            crate::table::lemma_list_map_put(before, self.messages@, k, messages);
        }
    }

    /// The parts of a message, in id order, if any were stored.
    pub fn get_parts(&self, message_id: &String) -> (r: Option<&Vec<Part>>)
        requires
            self.wf(),
        ensures
            match r {
                Some(l) => self@.parts.contains_key(message_id@) && l@ == self@.parts[message_id@],
                None => !self@.parts.contains_key(message_id@),
            },
    {
        crate::lists::table_get(&self.parts, message_id)
    }

    /// The status record of a session, if any.
    pub fn get_session_status(&self, session_id: &String) -> (r: Option<&SessionStatus>)
        requires
            self.wf(),
        ensures
            match r {
                Some(st) => self@.statuses.contains_key(session_id@) && *st == self@.statuses[session_id@],
                None => !self@.statuses.contains_key(session_id@),
            },
    {
        match find_key(&self.statuses, session_id) {
            Some(i) => Some(&self.statuses[i].value),
            None => None,
        }
    }

    /// Whether a session is marked busy.
    pub fn is_session_busy(&self, session_id: &String) -> (r: bool)
        requires
            self.wf(),
        ensures
            r == (self@.statuses.contains_key(session_id@) && self@.statuses[session_id@].busy),
    {
        match self.get_session_status(session_id) {
            Some(st) => st.busy,
            None => false,
        }
    }

    /// The pending permission requests of a session, in id order; none where
    /// the queue is absent or empty.
    pub fn get_pending_permissions(&self, session_id: &String) -> (r: Option<&Vec<PermissionRequest>>)
        requires
            self.wf(),
        ensures
            match r {
                Some(l) => self@.permissions.contains_key(session_id@) && l@
                    == self@.permissions[session_id@] && l@.len() > 0,
                None => !self@.permissions.contains_key(session_id@)
                    || self@.permissions[session_id@].len() == 0,
            },
    {
        match crate::lists::table_get(&self.permissions, session_id) {
            Some(l) => if l.len() > 0 {
                Some(l)
            } else {
                None
            },
            None => None,
        }
    }

    /// The first pending permission request of a session.
    pub fn get_next_permission(&self, session_id: &String) -> (r: Option<&PermissionRequest>)
        requires
            self.wf(),
        ensures
            match r {
                Some(p) => self@.permissions.contains_key(session_id@)
                    && self@.permissions[session_id@].len() > 0 && *p
                    == self@.permissions[session_id@][0],
                None => !self@.permissions.contains_key(session_id@)
                    || self@.permissions[session_id@].len() == 0,
            },
    {
        match self.get_pending_permissions(session_id) {
            Some(l) => Some(&l[0]),
            None => None,
        }
    }

    /// Whether a session has a pending permission request.
    pub fn has_pending_permissions(&self, session_id: &String) -> (r: bool)
        requires
            self.wf(),
        ensures
            r == (self@.permissions.contains_key(session_id@)
                && self@.permissions[session_id@].len() > 0),
    {
        self.get_pending_permissions(session_id).is_some()
    }

    /// The pending questions of a session, in id order; none where the queue
    /// is absent or empty.
    pub fn get_pending_questions(&self, session_id: &String) -> (r: Option<&Vec<QuestionRequest>>)
        requires
            self.wf(),
        ensures
            match r {
                Some(l) => self@.questions.contains_key(session_id@) && l@
                    == self@.questions[session_id@] && l@.len() > 0,
                None => !self@.questions.contains_key(session_id@)
                    || self@.questions[session_id@].len() == 0,
            },
    {
        match crate::lists::table_get(&self.questions, session_id) {
            Some(l) => if l.len() > 0 {
                Some(l)
            } else {
                None
            },
            None => None,
        }
    }

    /// The first pending question of a session.
    pub fn get_next_question(&self, session_id: &String) -> (r: Option<&QuestionRequest>)
        requires
            self.wf(),
        ensures
            match r {
                Some(q) => self@.questions.contains_key(session_id@)
                    && self@.questions[session_id@].len() > 0 && *q
                    == self@.questions[session_id@][0],
                None => !self@.questions.contains_key(session_id@)
                    || self@.questions[session_id@].len() == 0,
            },
    {
        match self.get_pending_questions(session_id) {
            Some(l) => Some(&l[0]),
            None => None,
        }
    }

    /// Whether a session has a pending question.
    pub fn has_pending_questions(&self, session_id: &String) -> (r: bool)
        requires
            self.wf(),
        ensures
            r == (self@.questions.contains_key(session_id@) && self@.questions[session_id@].len()
                > 0),
    {
        self.get_pending_questions(session_id).is_some()
    }

    /// Whether a session waits on the user for anything.
    pub fn has_pending_prompts(&self, session_id: &String) -> (r: bool)
        requires
            self.wf(),
        ensures
            r == ((self@.permissions.contains_key(session_id@)
                && self@.permissions[session_id@].len() > 0) || (self@.questions.contains_key(
                session_id@,
            ) && self@.questions[session_id@].len() > 0)),
    {
        self.has_pending_permissions(session_id) || self.has_pending_questions(session_id)
    }

    /// The selected session's record, if it is in the store.
    pub fn active_session(&self) -> (r: Option<&Session>)
        requires
            self.wf(),
        ensures
            match r {
                Some(s) => self@.active_session == Some(s.id@) && self@.sessions.contains(*s),
                None => self@.active_session is None || forall|j: int|
                    0 <= j < self@.sessions.len() ==> Some((#[trigger] self@.sessions[j]).id@)
                        != self@.active_session,
            },
    {
        match &self.active_session_id {
            Some(id) => match find_id(&self.sessions, id) {
                Some(i) => Some(&self.sessions[i]),
                None => {
                    proof {
                        crate::ordered::lemma_id_index_none(self.sessions@, id@);
                    }
                    None
                },
            },
            None => None,
        }
    }

    /// The messages of the selected session, if any.
    pub fn active_messages(&self) -> (r: Option<&Vec<Message>>)
        requires
            self.wf(),
        ensures
            match r {
                Some(l) => self@.active_session is Some && self@.messages.contains_key(
                    self@.active_session->0,
                ) && l@ == self@.messages[self@.active_session->0],
                None => self@.active_session is None || !self@.messages.contains_key(
                    self@.active_session->0,
                ),
            },
    {
        match &self.active_session_id {
            Some(id) => self.messages_of(id),
            None => None,
        }
    }
}

} // verus!

verus! {

impl StateStore {
    /// Starts a fresh streaming record for a message, replacing any other.
    pub fn start_streaming(&mut self, session_id: &str, message_id: &str)
        requires
            old(self).wf(),
        ensures
            final(self).wf(),
            final(self)@.streaming is Some,
            ({
                let m = final(self)@.streaming->0;
                &&& m.session_id@ == session_id@
                &&& m.message_id@ == message_id@
                &&& m.content@.len() == 0
                &&& m.tool_calls@.len() == 0
                &&& m.reasoning is None
                &&& !m.is_complete
            }),
            final(self)@ == (StoreView { streaming: final(self)@.streaming, ..old(self)@ }),
    {
        self.streaming = Some(StreamingMessage::new(session_id, message_id));
    }

    /// The message being streamed, if any.
    pub fn streaming_message(&self) -> (r: Option<&StreamingMessage>)
        ensures
            match r {
                Some(m) => self@.streaming == Some(*m),
                None => self@.streaming is None,
            },
    {
        match &self.streaming {
            Some(m) => Some(m),
            None => None,
        }
    }

    /// Applies one event of the message-generation stream to the streaming
    /// record; nothing where no message is being streamed.
    pub fn apply_stream_event(&mut self, e: StreamEvent)
        requires
            old(self).wf(),
        ensures
            final(self).wf(),
            old(self)@.streaming is None ==> final(self)@ == old(self)@,
            old(self)@.streaming is Some ==> final(self)@.streaming is Some && stream_step(
                old(self)@.streaming->0,
                final(self)@.streaming->0,
                e,
            ),
            final(self)@ == (StoreView { streaming: final(self)@.streaming, ..old(self)@ }),
    {
        match self.streaming.take() {
            Some(m) => {
                let mut m = m;
                m.apply(e);
                self.streaming = Some(m);
            },
            None => {},
        }
    }

    /// Appends a content delta to the streaming record, if any.
    pub fn update_streaming_content(&mut self, content: &str)
        requires
            old(self).wf(),
        ensures
            final(self).wf(),
            old(self)@.streaming is None ==> final(self)@ == old(self)@,
            old(self)@.streaming is Some ==> final(self)@.streaming is Some
                && final(self)@.streaming->0.content@ == old(self)@.streaming->0.content@ + content@
                && final(self)@.streaming->0.tool_calls == old(self)@.streaming->0.tool_calls
                && final(self)@.streaming->0.is_complete == old(self)@.streaming->0.is_complete,
            final(self)@ == (StoreView { streaming: final(self)@.streaming, ..old(self)@ }),
    {
        match self.streaming.take() {
            Some(m) => {
                let mut m = m;
                m.push_content(content);
                self.streaming = Some(m);
            },
            None => {},
        }
    }

    /// Upserts a tool call of the streaming record by id, if there is one.
    pub fn update_streaming_tool_call(&mut self, tool_call: StreamingToolCall)
        requires
            old(self).wf(),
        ensures
            final(self).wf(),
            old(self)@.streaming is None ==> final(self)@ == old(self)@,
            old(self)@.streaming is Some ==> final(self)@.streaming is Some
                && final(self)@.streaming->0.tool_calls@ == upsert_back(
                old(self)@.streaming->0.tool_calls@,
                tool_call,
            ) && final(self)@.streaming->0.content == old(self)@.streaming->0.content,
            final(self)@ == (StoreView { streaming: final(self)@.streaming, ..old(self)@ }),
    {
        match self.streaming.take() {
            Some(m) => {
                let mut m = m;
                m.upsert_tool_call(tool_call);
                self.streaming = Some(m);
            },
            None => {},
        }
    }

    /// Marks the streaming record complete, if there is one.
    pub fn complete_streaming(&mut self)
        requires
            old(self).wf(),
        ensures
            final(self).wf(),
            old(self)@.streaming is None ==> final(self)@ == old(self)@,
            old(self)@.streaming is Some ==> final(self)@.streaming is Some
                && final(self)@.streaming->0.is_complete && final(self)@.streaming->0.content
                == old(self)@.streaming->0.content,
            final(self)@ == (StoreView { streaming: final(self)@.streaming, ..old(self)@ }),
    {
        match self.streaming.take() {
            Some(m) => {
                let mut m = m;
                m.is_complete = true;
                self.streaming = Some(m);
            },
            None => {},
        }
    }
}

} // verus!

verus! {

/// Two parts of one message whose list is still empty end up in id order,
/// whichever of them arrives first.
pub proof fn lemma_part_arrival_order(v: StoreView, a: Part, b: Part)
    requires
        a.message_id@ == b.message_id@,
        !v.parts.contains_key(a.message_id@),
        crate::ordered::lex_lt(a.id@, b.id@),
    ensures
        applied(applied(v, DaemonEvent::MessagePartUpdated(a)), DaemonEvent::MessagePartUpdated(b)).parts[a.message_id@]
            == seq![a, b],
        applied(applied(v, DaemonEvent::MessagePartUpdated(b)), DaemonEvent::MessagePartUpdated(a)).parts[a.message_id@]
            == seq![a, b],
{
    let k = a.message_id@;
    crate::ordered::lemma_lex_irreflexive(a.id@);
    let e = Seq::<Part>::empty();
    assert(list_or_empty(v.parts, k) == e);
    // a first, then b
    assert(crate::ordered::id_index(e, a.id_view(), 0) == -1);
    assert(crate::ordered::insert_pos(e, a.id_view(), 0) == 0);
    let s1 = upsert_sorted(e, a);
    assert(s1 =~= seq![a]);
    assert(crate::ordered::id_index(s1, b.id_view(), 1) == -1);
    assert(crate::ordered::id_index(s1, b.id_view(), 0) == -1);
    crate::ordered::lemma_lex_total(a.id@, b.id@);
    assert(crate::ordered::insert_pos(s1, b.id_view(), 1) == 1);
    assert(crate::ordered::insert_pos(s1, b.id_view(), 0) == 1);
    assert(upsert_sorted(s1, b) =~= seq![a, b]);
    // b first, then a
    assert(crate::ordered::id_index(e, b.id_view(), 0) == -1);
    assert(crate::ordered::insert_pos(e, b.id_view(), 0) == 0);
    let t1 = upsert_sorted(e, b);
    assert(t1 =~= seq![b]);
    assert(crate::ordered::id_index(t1, a.id_view(), 1) == -1);
    assert(crate::ordered::id_index(t1, a.id_view(), 0) == -1);
    assert(crate::ordered::insert_pos(t1, a.id_view(), 0) == 0);
    assert(upsert_sorted(t1, a) =~= seq![a, b]);
}

} // verus!
