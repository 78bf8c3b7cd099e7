//! The bookkeeping of live previews between editor windows: which windows listen, which
//! preview sessions are open and who owns them, and which sessions have ended. Every
//! operation says which windows to notify and with which cancellations; sending is the
//! host's.
use crate::codec::uuid_parses;
use crate::preview::{validate_session_id, MAX_ACTIVE_PREVIEW_SESSIONS, TOMBSTONE_CAPACITY};
use crate::strmap::StrMap;
use crate::text::{chars_of, str_eq, string_of};
use vstd::prelude::*;

verus! {

/// An open preview session: the window that owns it, the registration of that window it
/// was opened under, and the last sequence number it published.
#[derive(Debug)]
pub struct PreviewSession {
    pub owner: String,
    pub generation: u64,
    pub last_seq: u64,
}

/// Value of [`PreviewSession`] in specifications.
pub struct PreviewSessionV {
    pub owner: Seq<char>,
    pub generation: u64,
    pub last_seq: u64,
}

impl DeepView for PreviewSession {
    type V = PreviewSessionV;

    open spec fn deep_view(&self) -> PreviewSessionV {
        PreviewSessionV { owner: self.owner@, generation: self.generation, last_seq: self.last_seq }
    }
}

/// The cancellation of a session that listeners are told of: its id, the sequence number
/// after its last one, and its owner.
#[derive(Debug)]
pub struct CancelNotice {
    pub session_id: String,
    pub seq: u64,
    pub source_label: String,
}

/// Value of [`CancelNotice`] in specifications.
pub struct CancelNoticeV {
    pub session_id: Seq<char>,
    pub seq: u64,
    pub source_label: Seq<char>,
}

impl DeepView for CancelNotice {
    type V = CancelNoticeV;

    open spec fn deep_view(&self) -> CancelNoticeV {
        CancelNoticeV { session_id: self.session_id@, seq: self.seq, source_label: self.source_label@ }
    }
}

/// The sequence number after `n`, staying at the largest one.
pub open spec fn next_seq(n: u64) -> u64 {
    if n == u64::MAX {
        n
    } else {
        (n + 1) as u64
    }
}

/// The notice that cancels a session.
pub open spec fn notice_of(id: Seq<char>, s: PreviewSessionV) -> CancelNoticeV {
    CancelNoticeV { session_id: id, seq: next_seq(s.last_seq), source_label: s.owner }
}

/// The ended sessions after `id` ends, oldest first: a new id joins at the end, and the
/// oldest leaves when there are more than [`TOMBSTONE_CAPACITY`].
pub open spec fn tombstoned(t: Seq<Seq<char>>, id: Seq<char>) -> Seq<Seq<char>> {
    if t.contains(id) {
        t
    } else if t.len() + 1 > TOMBSTONE_CAPACITY {
        t.push(id).drop_first()
    } else {
        t.push(id)
    }
}

/// The ended sessions after each of `ids` ends, in order.
pub open spec fn tombstoned_all(t: Seq<Seq<char>>, ids: Seq<Seq<char>>) -> Seq<Seq<char>>
    decreases ids.len(),
{
    if ids.len() == 0 {
        t
    } else {
        tombstoned(tombstoned_all(t, ids.drop_last()), ids.last())
    }
}

/// What the broker is: the next registration number, the registration of each listening
/// window, the open sessions and how many, and the ended sessions, oldest first.
pub struct BrokerView {
    pub next_generation: u64,
    pub channels: Map<Seq<char>, u64>,
    pub sessions: Map<Seq<char>, PreviewSessionV>,
    pub session_count: nat,
    pub tombstones: Seq<Seq<char>>,
}

/// The windows to notify: every listening window but `except`.
pub open spec fn listeners(channels: Map<Seq<char>, u64>, except: Option<Seq<char>>) -> Set<Seq<char>> {
    channels.dom().filter(|l: Seq<char>| except != Some(l))
}

/// The preview bookkeeping.
pub struct PreviewBroker {
    next_generation: u64,
    channels: StrMap<u64>,
    sessions: StrMap<PreviewSession>,
    tombstones: Vec<String>,
}

impl View for PreviewBroker {
    type V = BrokerView;

    closed spec fn view(&self) -> BrokerView {
        BrokerView {
            next_generation: self.next_generation,
            channels: self.channels@,
            sessions: self.sessions@,
            session_count: self.sessions.spec_len(),
            tombstones: self.tombstones.deep_view(),
        }
    }
}

/// What every broker keeps: each session ends once in the record of ended sessions, which
/// holds at most [`TOMBSTONE_CAPACITY`]; at most [`MAX_ACTIVE_PREVIEW_SESSIONS`] are open;
/// and no registration or session is newer than the last registration number given.
pub open spec fn broker_wf(b: BrokerView) -> bool {
    &&& b.tombstones.no_duplicates()
    &&& b.tombstones.len() <= TOMBSTONE_CAPACITY
    &&& b.session_count <= MAX_ACTIVE_PREVIEW_SESSIONS
    &&& forall|l: Seq<char>| #[trigger] b.channels.contains_key(l) ==> b.channels[l] <= b.next_generation
    &&& forall|k: Seq<char>| #[trigger] b.sessions.contains_key(k) ==> b.sessions[k].generation <= b.next_generation
}

impl PreviewBroker {
    /// A broker with no windows, sessions or ended sessions.
    pub fn new() -> (r: Self)
        ensures
            broker_wf(r@),
            r@.next_generation == 0,
            r@.channels == Map::<Seq<char>, u64>::empty(),
            r@.sessions == Map::<Seq<char>, PreviewSessionV>::empty(),
            r@.tombstones == Seq::<Seq<char>>::empty(),
    {
        let r = PreviewBroker {
            next_generation: 0,
            channels: StrMap::new(),
            sessions: StrMap::new(),
            tombstones: Vec::new(),
        };
        assert(r.tombstones.deep_view() =~= Seq::<Seq<char>>::empty());
        r
    }

    /// Whether a session has ended (and is still remembered).
    pub fn has_ended(&self, session_id: &str) -> (r: bool)
        ensures
            r == self@.tombstones.contains(session_id@),
    {
        let ghost t = self.tombstones.deep_view();
        let mut i: usize = 0;
        while i < self.tombstones.len()
            invariant
                i <= self.tombstones.len(),
                t == self.tombstones.deep_view(),
                forall|j: int| 0 <= j < i ==> t[j] != session_id@,
            decreases self.tombstones.len() - i,
        {
            if str_eq(self.tombstones[i].as_str(), session_id) {
                assert(t[i as int] == session_id@);
                return true;
            }
            i += 1;
        }
        false
    }

    /// Records that a session ended, as [`tombstoned`] states.
    fn end_session(&mut self, session_id: &str)
        requires
            broker_wf(old(self)@),
        ensures
            broker_wf(final(self)@),
            final(self)@ == (BrokerView { tombstones: tombstoned(old(self)@.tombstones, session_id@), ..old(self)@ }),
    {
        if self.has_ended(session_id) {
            return;
        }
        let ghost t0 = self.tombstones.deep_view();
        self.tombstones.push(string_of(&chars_of(session_id)));
        assert(self.tombstones.deep_view() =~= t0.push(session_id@));
        if self.tombstones.len() > TOMBSTONE_CAPACITY {
            let ghost t1 = self.tombstones.deep_view();
            self.tombstones.remove(0);
            assert(self.tombstones.deep_view() =~= t1.drop_first());
        }
        proof {
            let t = self.tombstones.deep_view();
            let u = t0.push(session_id@);
            assert forall|a: int, b: int| 0 <= a < u.len() && 0 <= b < u.len() && a != b implies u[a] != u[b] by {
                if a < t0.len() && b < t0.len() {
                } else if a == t0.len() {
                    assert(t0.contains(u[b]));
                } else {
                    assert(t0.contains(u[a]));
                }
            }
            assert(u.no_duplicates());
            if u.len() > TOMBSTONE_CAPACITY {
                assert forall|a: int, b: int| 0 <= a < t.len() && 0 <= b < t.len() && a != b implies t[a] != t[b] by {
                    assert(t[a] == u[a + 1]);
                    assert(t[b] == u[b + 1]);
                }
            }
        }
    }

    /// The listening windows but `except`.
    fn listener_labels(&self, except: Option<&str>) -> (r: Vec<String>)
        ensures
            r.deep_view().no_duplicates(),
            r.deep_view().to_set() == listeners(self@.channels, opt_view(except)),
    {
        self.channels.check_wf();
        let keys = self.channels.keys();
        let mut out: Vec<String> = Vec::new();
        let mut i: usize = 0;
        while i < keys.len()
            invariant
                i <= keys.len(),
                keys@.len() == self.channels.spec_len(),
                self.channels.wf(),
                forall|j: int| 0 <= j < keys@.len() ==> keys@[j]@ == self.channels.spec_key(j),
                out.deep_view().no_duplicates(),
                forall|k: Seq<char>|
                    #[trigger] out.deep_view().contains(k) <==> exists|j: int|
                        0 <= j < i && keys@[j]@ == k && opt_view(except) != Some(k),
            decreases keys.len() - i,
        {
            let keep = match except {
                Some(e) => !str_eq(keys[i].as_str(), e),
                None => true,
            };
            if keep {
                let ghost before = out.deep_view();
                let ghost x = keys@[i as int]@;
                proof {
                    self.channels.lemma_distinct();
                    if out.deep_view().contains(x) {
                        let j = choose|j: int| 0 <= j < i && keys@[j]@ == x && opt_view(except) != Some(x);
                        assert(self.channels.spec_key(j) == self.channels.spec_key(i as int));
                    }
                }
                out.push(keys[i].clone());
                proof {
                    let now = out.deep_view();
                    assert(now =~= before.push(x));
                    assert forall|a: int, b: int| 0 <= a < now.len() && 0 <= b < now.len() && a != b implies now[a]
                        != now[b] by {
                        if a == before.len() {
                            assert(before.contains(now[b]));
                        } else if b == before.len() {
                            assert(before.contains(now[a]));
                        }
                    }
                    assert forall|k: Seq<char>| #[trigger] out.deep_view().contains(k) <==> exists|j: int|
                        0 <= j < i + 1 && keys@[j]@ == k && opt_view(except) != Some(k) by {
                        if now.contains(k) {
                            let idx = choose|idx: int| 0 <= idx < now.len() && now[idx] == k;
                            if idx < before.len() {
                                assert(before[idx] == k);
                                assert(before.contains(k));
                            } else {
                                assert(keys@[i as int]@ == k);
                            }
                        }
                        if exists|j: int| 0 <= j < i + 1 && keys@[j]@ == k && opt_view(except) != Some(k) {
                            let j = choose|j: int| 0 <= j < i + 1 && keys@[j]@ == k && opt_view(except) != Some(k);
                            if j < i {
                                assert(before.contains(k));
                                let idx = choose|idx: int| 0 <= idx < before.len() && before[idx] == k;
                                assert(now[idx] == k);
                            } else {
                                assert(now[before.len() as int] == k);
                            }
                        }
                    }
                }
            }
            i += 1;
        }
        proof {
            assert forall|k: Seq<char>| #[trigger] out.deep_view().to_set().contains(k) == listeners(self@.channels, opt_view(except)).contains(k) by {
                if self.channels@.contains_key(k) {
                    let j = self.channels.lemma_key(k);
                }
                if exists|j: int| 0 <= j < keys@.len() && keys@[j]@ == k {
                    let j = choose|j: int| 0 <= j < keys@.len() && keys@[j]@ == k;
                    self.channels.lemma_index(j);
                }
            }
            assert(out.deep_view().to_set() =~= listeners(self@.channels, opt_view(except)));
        }
        out
    }
}

/// Whether ending the sessions of `label` (of every window, where `None`), except those
/// opened under registration `keep`, ends this session.
pub open spec fn cancelled_by(s: PreviewSessionV, label: Option<Seq<char>>, keep: Option<u64>) -> bool {
    (label is None || label == Some(s.owner)) && keep != Some(s.generation)
}

/// The ids of some cancellations.
pub open spec fn notice_ids(notices: Seq<CancelNoticeV>) -> Seq<Seq<char>> {
    notices.map_values(|n: CancelNoticeV| n.session_id)
}

/// From `before` to `after`, exactly the matching sessions ended, once each, with these
/// cancellations: they left the open sessions and joined the ended ones in the order of
/// the cancellations; the windows and registrations stay.
pub open spec fn sessions_cancelled(
    before: BrokerView,
    after: BrokerView,
    label: Option<Seq<char>>,
    keep: Option<u64>,
    notices: Seq<CancelNoticeV>,
) -> bool {
    let ids = notice_ids(notices);
    &&& ids.no_duplicates()
    &&& forall|k: Seq<char>|
        #[trigger] ids.contains(k) <==> before.sessions.contains_key(k) && cancelled_by(before.sessions[k], label, keep)
    &&& forall|i: int| 0 <= i < notices.len() ==> #[trigger] notices[i] == notice_of(ids[i], before.sessions[ids[i]])
    &&& after.sessions == before.sessions.remove_keys(ids.to_set())
    &&& after.tombstones == tombstoned_all(before.tombstones, ids)
    &&& after.next_generation == before.next_generation
    &&& after.channels == before.channels
    &&& after.session_count <= before.session_count
}

impl PreviewBroker {
    /// Ends the matching sessions, as [`sessions_cancelled`] states.
    fn cancel_matching(&mut self, label: Option<&str>, keep: Option<u64>) -> (notices: Vec<CancelNotice>)
        requires
            broker_wf(old(self)@),
        ensures
            broker_wf(final(self)@),
            sessions_cancelled(old(self)@, final(self)@, opt_view(label), keep, notices.deep_view()),
    {
        self.sessions.check_wf();
        let keys = self.sessions.keys();
        let ghost b0 = self@;
        let ghost s0 = self.sessions;
        let ghost mut ids: Seq<Seq<char>> = Seq::empty();
        let mut notices: Vec<CancelNotice> = Vec::new();
        let mut i: usize = 0;
        proof {
            s0.lemma_distinct();
            assert(notices.deep_view() =~= Seq::<CancelNoticeV>::empty());
            assert(b0.sessions.remove_keys(ids.to_set()) =~= b0.sessions);
        }
        while i < keys.len()
            invariant
                i <= keys.len(),
                keys@.len() == s0.spec_len(),
                s0.wf(),
                b0.sessions == s0@,
                forall|j: int| 0 <= j < keys@.len() ==> keys@[j]@ == s0.spec_key(j),
                forall|a: int, b: int|
                    0 <= a < s0.spec_len() && 0 <= b < s0.spec_len() && a != b ==> s0.spec_key(a) != s0.spec_key(b),
                broker_wf(self@),
                self@.next_generation == b0.next_generation,
                self@.channels == b0.channels,
                self@.session_count <= b0.session_count,
                ids == notice_ids(notices.deep_view()),
                ids.no_duplicates(),
                forall|k: Seq<char>|
                    #[trigger] ids.contains(k) <==> exists|j: int|
                        0 <= j < i && keys@[j]@ == k && cancelled_by(b0.sessions[k], opt_view(label), keep),
                forall|t: int| 0 <= t < notices@.len() ==> #[trigger] notices.deep_view()[t] == notice_of(ids[t], b0.sessions[ids[t]]),
                self@.sessions == b0.sessions.remove_keys(ids.to_set()),
                self@.tombstones == tombstoned_all(b0.tombstones, ids),
            decreases keys.len() - i,
        {
            let k = &keys[i];
            let ghost kv = k@;
            proof {
                s0.lemma_index(i as int);
                if ids.contains(kv) {
                    let j = choose|j: int| 0 <= j < i && keys@[j]@ == kv && cancelled_by(b0.sessions[kv], opt_view(label), keep);
                    assert(s0.spec_key(j) == s0.spec_key(i as int));
                }
                assert(self@.sessions.contains_key(kv));
            }
            let session = self.sessions.get(k.as_str()).unwrap();
            let owned = match label {
                Some(l) => str_eq(session.owner.as_str(), l),
                None => true,
            };
            let kept = match keep {
                Some(g) => session.generation == g,
                None => false,
            };
            if owned && !kept {
                let notice = CancelNotice {
                    session_id: k.clone(),
                    seq: session.last_seq.saturating_add(1),
                    source_label: session.owner.clone(),
                };
                let ghost before_ids = ids;
                let ghost before_notices = notices.deep_view();
                self.sessions.remove(k.as_str());
                self.end_session(k.as_str());
                notices.push(notice);
                proof {
                    ids = ids.push(kv);
                    assert(notices.deep_view() =~= before_notices.push(notice_of(kv, b0.sessions[kv])));
                    assert(notice_ids(notices.deep_view()) =~= ids);
                    assert forall|a: int, b: int| 0 <= a < ids.len() && 0 <= b < ids.len() && a != b implies ids[a]
                        != ids[b] by {
                        if a == before_ids.len() {
                            assert(before_ids.contains(ids[b]));
                        } else if b == before_ids.len() {
                            assert(before_ids.contains(ids[a]));
                        }
                    }
                    assert forall|k2: Seq<char>| #[trigger] ids.contains(k2) <==> exists|j: int|
                        0 <= j < i + 1 && keys@[j]@ == k2 && cancelled_by(b0.sessions[k2], opt_view(label), keep) by {
                        if ids.contains(k2) && k2 != kv {
                            let idx = choose|idx: int| 0 <= idx < ids.len() && ids[idx] == k2;
                            assert(before_ids[idx] == k2);
                            assert(before_ids.contains(k2));
                        }
                        if exists|j: int| 0 <= j < i + 1 && keys@[j]@ == k2 && cancelled_by(b0.sessions[k2], opt_view(label), keep) {
                            let j = choose|j: int| 0 <= j < i + 1 && keys@[j]@ == k2 && cancelled_by(b0.sessions[k2], opt_view(label), keep);
                            if j < i {
                                assert(before_ids.contains(k2));
                                let idx = choose|idx: int| 0 <= idx < before_ids.len() && before_ids[idx] == k2;
                                assert(ids[idx] == k2);
                            } else {
                                assert(ids[before_ids.len() as int] == k2);
                            }
                        }
                    }
                    assert(ids.to_set() =~= before_ids.to_set().insert(kv));
                    assert(self@.sessions =~= b0.sessions.remove_keys(ids.to_set()));
                    assert(ids.drop_last() =~= before_ids);
                }
            } else {
                proof {
                    assert forall|k2: Seq<char>| #[trigger] ids.contains(k2) <==> exists|j: int|
                        0 <= j < i + 1 && keys@[j]@ == k2 && cancelled_by(b0.sessions[k2], opt_view(label), keep) by {
                        if exists|j: int| 0 <= j < i + 1 && keys@[j]@ == k2 && cancelled_by(b0.sessions[k2], opt_view(label), keep) {
                            let j = choose|j: int| 0 <= j < i + 1 && keys@[j]@ == k2 && cancelled_by(b0.sessions[k2], opt_view(label), keep);
                            if j == i {
                                assert(k2 == kv);
                            }
                        }
                    }
                }
            }
            i += 1;
        }
        proof {
            assert forall|k: Seq<char>| #[trigger] ids.contains(k) <==> b0.sessions.contains_key(k) && cancelled_by(
                b0.sessions[k],
                opt_view(label),
                keep,
            ) by {
                if ids.contains(k) {
                    let j = choose|j: int| 0 <= j < keys@.len() && keys@[j]@ == k && cancelled_by(b0.sessions[k], opt_view(label), keep);
                    s0.lemma_index(j);
                }
                if b0.sessions.contains_key(k) && cancelled_by(b0.sessions[k], opt_view(label), keep) {
                    let j = s0.lemma_key(k);
                    assert(keys@[j]@ == k);
                }
            }
        }
        notices
    }
}

/// What registering a window gives: its registration number, the windows to notify, and
/// the cancellations of the sessions it had opened under an earlier registration.
#[derive(Debug)]
pub struct Subscription {
    pub generation: u64,
    pub recipients: Vec<String>,
    pub cancellations: Vec<CancelNotice>,
}

/// Why a window may not publish to a session, if it may not, checked in this order: the
/// session ended; the window does not listen; the session is another window's, or was
/// opened under an earlier registration of this one, or has seen this sequence number;
/// or, for a new session, too many are open.
pub open spec fn publish_error(b: BrokerView, label: Seq<char>, session_id: Seq<char>, seq: u64) -> Option<
    Seq<char>,
> {
    if b.tombstones.contains(session_id) {
        Some("preview session has already ended"@)
    } else if !b.channels.contains_key(label) {
        Some("preview publisher is not subscribed"@)
    } else if b.sessions.contains_key(session_id) {
        let s = b.sessions[session_id];
        if s.owner != label {
            Some("preview session is owned by another window"@)
        } else if s.generation != b.channels[label] {
            Some("preview session registration is stale"@)
        } else if seq <= s.last_seq {
            Some("preview sequence must increase monotonically"@)
        } else {
            None
        }
    } else if b.session_count >= MAX_ACTIVE_PREVIEW_SESSIONS {
        Some("active preview session count exceeds 1024"@)
    } else {
        None
    }
}

/// The broker after a window published sequence number `seq` to a session: the session
/// records it, and a new session belongs to the window under its registration.
pub open spec fn published(b: BrokerView, label: Seq<char>, session_id: Seq<char>, seq: u64) -> BrokerView {
    if b.sessions.contains_key(session_id) {
        BrokerView {
            sessions: b.sessions.insert(session_id, PreviewSessionV { last_seq: seq, ..b.sessions[session_id] }),
            ..b
        }
    } else {
        BrokerView {
            sessions: b.sessions.insert(
                session_id,
                PreviewSessionV { owner: label, generation: b.channels[label], last_seq: seq },
            ),
            session_count: b.session_count + 1,
            ..b
        }
    }
}

/// The session that cancelling or finishing `session_id` ends: the open one, or else one
/// of the window under its registration (`fallback` where it does not listen) that never
/// published.
pub open spec fn ending_session(b: BrokerView, label: Seq<char>, session_id: Seq<char>, fallback: u64) -> PreviewSessionV {
    if b.sessions.contains_key(session_id) {
        b.sessions[session_id]
    } else {
        PreviewSessionV {
            owner: label,
            generation: if b.channels.contains_key(label) {
                b.channels[label]
            } else {
                fallback
            },
            last_seq: 0,
        }
    }
}

/// The broker after a session ended: it is no longer open, and it joins the ended ones.
pub open spec fn session_ended(before: BrokerView, after: BrokerView, session_id: Seq<char>) -> bool {
    &&& after.sessions == before.sessions.remove(session_id)
    &&& after.tombstones == tombstoned(before.tombstones, session_id)
    &&& after.next_generation == before.next_generation
    &&& after.channels == before.channels
    &&& after.session_count <= before.session_count
}

/// The windows to notify, as a list without repeats.
pub open spec fn notifies(r: Vec<String>, channels: Map<Seq<char>, u64>, except: Option<Seq<char>>) -> bool {
    r.deep_view().no_duplicates() && r.deep_view().to_set() == listeners(channels, except)
}

impl PreviewBroker {
    /// Registers a window under the next registration number and ends the sessions it had
    /// opened under earlier ones; refused, with nothing changed, when the numbers run out.
    pub fn subscribe(&mut self, label: &str) -> (r: Result<Subscription, String>)
        requires
            broker_wf(old(self)@),
        ensures
            broker_wf(final(self)@),
            old(self)@.next_generation == u64::MAX ==> (r matches Err(e) && e@
                == "preview registration generation overflow"@ && final(self)@ == old(self)@),
            old(self)@.next_generation < u64::MAX ==> (r matches Ok(sub) && sub.generation
                == old(self)@.next_generation + 1 && sessions_cancelled(
                BrokerView {
                    next_generation: sub.generation,
                    channels: old(self)@.channels.insert(label@, sub.generation),
                    ..old(self)@
                },
                final(self)@,
                Some(label@),
                Some(sub.generation),
                sub.cancellations.deep_view(),
            ) && notifies(sub.recipients, final(self)@.channels, None)),
            r is Ok ==> forall|k: Seq<char>| #[trigger] final(self)@.sessions.contains_key(k)
                ==> final(self)@.sessions[k].owner != label@,
    {
        if self.next_generation == u64::MAX {
            return Err(string_of(&chars_of("preview registration generation overflow")));
        }
        let generation = self.next_generation + 1;
        self.next_generation = generation;
        self.channels.insert(string_of(&chars_of(label)), generation);
        let cancellations = self.cancel_matching(Some(label), Some(generation));
        let recipients = self.listener_labels(None);
        Ok(Subscription { generation, recipients, cancellations })
    }

    /// Records a window's publication of sequence number `seq` to a session, as
    /// [`publish_error`] and [`published`] state, and names the other windows to send it to.
    pub fn publish_after_admission(&mut self, label: &str, session_id: &str, seq: u64) -> (r: Result<
        Vec<String>,
        String,
    >)
        requires
            broker_wf(old(self)@),
        ensures
            broker_wf(final(self)@),
            match publish_error(old(self)@, label@, session_id@, seq) {
                Some(m) => r matches Err(e) && e@ == m && final(self)@ == old(self)@,
                None => r matches Ok(recipients) && final(self)@ == published(old(self)@, label@, session_id@, seq)
                    && notifies(recipients, final(self)@.channels, Some(label@)),
            },
    {
        if self.has_ended(session_id) {
            return Err(string_of(&chars_of("preview session has already ended")));
        }
        let generation = match self.channels.get(label) {
            Some(g) => *g,
            None => {
                return Err(string_of(&chars_of("preview publisher is not subscribed")));
            },
        };
        let session = match self.sessions.get(session_id) {
            Some(s) => {
                if !str_eq(s.owner.as_str(), label) {
                    return Err(string_of(&chars_of("preview session is owned by another window")));
                }
                if s.generation != generation {
                    return Err(string_of(&chars_of("preview session registration is stale")));
                }
                if seq <= s.last_seq {
                    return Err(string_of(&chars_of("preview sequence must increase monotonically")));
                }
                PreviewSession { owner: s.owner.clone(), generation: s.generation, last_seq: seq }
            },
            None => {
                if self.sessions.len() >= MAX_ACTIVE_PREVIEW_SESSIONS {
                    return Err(string_of(&chars_of("active preview session count exceeds 1024")));
                }
                PreviewSession { owner: string_of(&chars_of(label)), generation, last_seq: seq }
            },
        };
        self.sessions.insert(string_of(&chars_of(session_id)), session);
        Ok(self.listener_labels(Some(label)))
    }

    /// Ends every open session, and names the windows to tell.
    pub fn cancel_all(&mut self) -> (r: (Vec<String>, Vec<CancelNotice>))
        requires
            broker_wf(old(self)@),
        ensures
            broker_wf(final(self)@),
            sessions_cancelled(old(self)@, final(self)@, None, None, r.1.deep_view()),
            notifies(r.0, final(self)@.channels, None),
    {
        let cancellations = self.cancel_matching(None, None);
        (self.listener_labels(None), cancellations)
    }

    /// Ends the session that a window cancels: refused, with nothing changed, for an id
    /// that is not a UUID, a session that already ended, another window's session, or,
    /// for a session that never published, a window that does not listen.
    pub fn cancel(&mut self, label: &str, session_id: &str) -> (r: Result<(Vec<String>, CancelNotice), String>)
        requires
            broker_wf(old(self)@),
        ensures
            broker_wf(final(self)@),
            !uuid_parses(session_id@) ==> (r matches Err(e) && e@ == "preview sessionId must be a UUID"@
                && final(self)@ == old(self)@),
            uuid_parses(session_id@) && old(self)@.tombstones.contains(session_id@) ==> (r matches Err(e) && e@
                == "preview session has already ended"@ && final(self)@ == old(self)@),
            uuid_parses(session_id@) && !old(self)@.tombstones.contains(session_id@) && old(
                self,
            )@.sessions.contains_key(session_id@) && old(self)@.sessions[session_id@].owner != label@ ==> (r matches Err(
                e,
            ) && e@ == "preview session is owned by another window"@ && final(self)@ == old(self)@),
            uuid_parses(session_id@) && !old(self)@.tombstones.contains(session_id@) && !old(
                self,
            )@.sessions.contains_key(session_id@) && !old(self)@.channels.contains_key(label@) ==> (r matches Err(e)
                && e@ == "preview canceller is not subscribed"@ && final(self)@ == old(self)@),
            uuid_parses(session_id@) && !old(self)@.tombstones.contains(session_id@) && (if old(
                self,
            )@.sessions.contains_key(session_id@) {
                old(self)@.sessions[session_id@].owner == label@
            } else {
                old(self)@.channels.contains_key(label@)
            }) ==> (r matches Ok(v) && v.1.deep_view() == notice_of(
                session_id@,
                ending_session(old(self)@, label@, session_id@, 0),
            ) && session_ended(old(self)@, final(self)@, session_id@) && notifies(
                v.0,
                final(self)@.channels,
                Some(label@),
            )),
    {
        validate_session_id(session_id)?;
        if self.has_ended(session_id) {
            return Err(string_of(&chars_of("preview session has already ended")));
        }
        let ended = match self.sessions.get(session_id) {
            Some(s) => {
                if !str_eq(s.owner.as_str(), label) {
                    return Err(string_of(&chars_of("preview session is owned by another window")));
                }
                PreviewSession { owner: s.owner.clone(), generation: s.generation, last_seq: s.last_seq }
            },
            None => match self.channels.get(label) {
                Some(g) => PreviewSession { owner: string_of(&chars_of(label)), generation: *g, last_seq: 0 },
                None => {
                    return Err(string_of(&chars_of("preview canceller is not subscribed")));
                },
            },
        };
        let ghost before_removal = self@;
        self.sessions.remove(session_id);
        proof {
            assert forall|k: Seq<char>| #[trigger] self@.sessions.contains_key(k) implies self@.sessions[k].generation
                <= self@.next_generation by {
                assert(before_removal.sessions.contains_key(k));
            }
            assert(broker_wf(before_removal));
            assert(self@.tombstones == before_removal.tombstones);
            assert(self@.channels == before_removal.channels);
            assert(self@.session_count <= before_removal.session_count);
        }
        self.end_session(session_id);
        let notice = CancelNotice {
            session_id: string_of(&chars_of(session_id)),
            seq: ended.last_seq.saturating_add(1),
            source_label: ended.owner,
        };
        Ok((self.listener_labels(Some(label)), notice))
    }

    /// Ends a session whose changes were committed. An id that is not a UUID, or a session
    /// that already ended, is left alone (`false`); another window's session is refused;
    /// otherwise the session ends (`true`), and where `broadcast_cancel` says so, the
    /// other windows are named with its cancellation.
    pub fn finish_committed_session(&mut self, label: &str, session_id: &str, broadcast_cancel: bool) -> (r: Result<
        (bool, Vec<String>, Option<CancelNotice>),
        String,
    >)
        requires
            broker_wf(old(self)@),
        ensures
            broker_wf(final(self)@),
            !uuid_parses(session_id@) || old(self)@.tombstones.contains(session_id@) ==> (r matches Ok(v) && !v.0
                && v.1@.len() == 0 && v.2 is None && final(self)@ == old(self)@),
            uuid_parses(session_id@) && !old(self)@.tombstones.contains(session_id@) && old(
                self,
            )@.sessions.contains_key(session_id@) && old(self)@.sessions[session_id@].owner != label@ ==> (r matches Err(
                e,
            ) && e@ == "preview session is owned by another window"@ && final(self)@ == old(self)@),
            uuid_parses(session_id@) && !old(self)@.tombstones.contains(session_id@) && (old(
                self,
            )@.sessions.contains_key(session_id@) ==> old(self)@.sessions[session_id@].owner == label@) ==> (r matches Ok(
                v,
            ) && v.0 && session_ended(old(self)@, final(self)@, session_id@) && (if broadcast_cancel {
                v.2 matches Some(n) && n.deep_view() == notice_of(
                    session_id@,
                    ending_session(old(self)@, label@, session_id@, 0),
                ) && notifies(v.1, final(self)@.channels, Some(label@))
            } else {
                v.2 is None && v.1@.len() == 0
            })),
    {
        if !crate::codec::parse_uuid_ok(session_id) {
            return Ok((false, Vec::new(), None));
        }
        if self.has_ended(session_id) {
            return Ok((false, Vec::new(), None));
        }
        let ended = match self.sessions.get(session_id) {
            Some(s) => {
                if !str_eq(s.owner.as_str(), label) {
                    return Err(string_of(&chars_of("preview session is owned by another window")));
                }
                PreviewSession { owner: s.owner.clone(), generation: s.generation, last_seq: s.last_seq }
            },
            None => {
                let generation = match self.channels.get(label) {
                    Some(g) => *g,
                    None => 0,
                };
                PreviewSession { owner: string_of(&chars_of(label)), generation, last_seq: 0 }
            },
        };
        let ghost before_removal = self@;
        self.sessions.remove(session_id);
        proof {
            assert forall|k: Seq<char>| #[trigger] self@.sessions.contains_key(k) implies self@.sessions[k].generation
                <= self@.next_generation by {
                assert(before_removal.sessions.contains_key(k));
            }
            assert(broker_wf(before_removal));
            assert(self@.tombstones == before_removal.tombstones);
            assert(self@.channels == before_removal.channels);
            assert(self@.session_count <= before_removal.session_count);
        }
        self.end_session(session_id);
        if broadcast_cancel {
            let notice = CancelNotice {
                session_id: string_of(&chars_of(session_id)),
                seq: ended.last_seq.saturating_add(1),
                source_label: ended.owner,
            };
            Ok((true, self.listener_labels(Some(label)), Some(notice)))
        } else {
            Ok((true, Vec::new(), None))
        }
    }

    /// Forgets a window: it no longer listens and its sessions end; names the windows to
    /// tell.
    pub fn remove_label(&mut self, label: &str) -> (r: (Vec<String>, Vec<CancelNotice>))
        requires
            broker_wf(old(self)@),
        ensures
            broker_wf(final(self)@),
            sessions_cancelled(
                BrokerView { channels: old(self)@.channels.remove(label@), ..old(self)@ },
                final(self)@,
                Some(label@),
                None,
                r.1.deep_view(),
            ),
            notifies(r.0, final(self)@.channels, None),
    {
        self.channels.remove(label);
        let cancellations = self.cancel_matching(Some(label), None);
        (self.listener_labels(None), cancellations)
    }
}

/// An ended session takes no more publications: once a session ended, publishing to it
/// is refused, whichever window publishes.
pub proof fn lemma_ended_session_refuses_publication(
    before: BrokerView,
    after: BrokerView,
    session_id: Seq<char>,
    label: Seq<char>,
    seq: u64,
)
    requires
        session_ended(before, after, session_id),
    ensures
        publish_error(after, label, session_id, seq) == Some("preview session has already ended"@),
{
    let t = before.tombstones;
    if !t.contains(session_id) {
        let u = t.push(session_id);
        assert(u[u.len() - 1] == session_id);
        if t.len() + 1 > TOMBSTONE_CAPACITY {
            assert(u.drop_first()[u.len() - 2] == session_id);
        }
    }
}

/// A publication moves its session's sequence number forward: the session then belongs
/// to the publishing window and records the new number, which is above the one it had.
pub proof fn lemma_publication_advances_sequence(b: BrokerView, label: Seq<char>, session_id: Seq<char>, seq: u64)
    requires
        publish_error(b, label, session_id, seq) is None,
    ensures
        published(b, label, session_id, seq).sessions[session_id].last_seq == seq,
        published(b, label, session_id, seq).sessions[session_id].owner == label,
        b.sessions.contains_key(session_id) ==> seq > b.sessions[session_id].last_seq,
{
}

/// Cancelling every session leaves none open.
pub proof fn lemma_cancel_all_leaves_no_session(before: BrokerView, after: BrokerView, notices: Seq<CancelNoticeV>)
    requires
        sessions_cancelled(before, after, None, None, notices),
    ensures
        after.sessions.dom().is_empty(),
{
    let ids = notice_ids(notices);
    assert forall|k: Seq<char>| !#[trigger] after.sessions.contains_key(k) by {
        if before.sessions.contains_key(k) {
            assert(ids.contains(k));
        }
    }
    assert(after.sessions.dom() =~= Set::<Seq<char>>::empty());
}

/// The view of an optional text.
pub open spec fn opt_view(o: Option<&str>) -> Option<Seq<char>> {
    match o {
        Some(s) => Some(s@),
        None => None,
    }
}

} // verus!
