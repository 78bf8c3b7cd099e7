//! Whether a gesture commit of the web session may go ahead: a repeated mutation id is
//! answered from its acknowledgement (or refused when the request differs), and a request
//! made against another history epoch, editor revision or plugin revision is refused. An
//! admitted commit moves the editor revision on by one.
use vstd::prelude::*;

verus! {

/// The acknowledgement of a committed gesture: its mutation id and the fingerprint of its
/// request.
pub struct GestureAck {
    pub id: String,
    pub fingerprint: String,
}

/// What the session holds of a gesture request before committing it.
pub struct GestureRequestHead {
    pub mutation_id: String,
    pub fingerprint: String,
    pub observed_history_epoch: Option<u64>,
    pub editor_base_revision: u64,
    pub plugin_base_revision: u64,
}

/// The revisions that a request is checked against.
#[derive(Clone, Copy, Debug, PartialEq, Eq, Structural)]
pub struct SessionRevisions {
    pub history_epoch: u64,
    pub editor_revision: u64,
    pub plugin_revision: u64,
}

/// Whether a gesture commit may go ahead.
#[derive(Clone, Copy, Debug, PartialEq, Eq, Structural)]
pub enum GestureAdmission {
    /// The mutation was committed before with the same request: answer with acknowledgement
    /// `ack`.
    Replay { ack: usize },
    /// The mutation id was used before for another request.
    MutationIdReused,
    /// The request was made against another history epoch; the current one is given.
    HistoryEpochConflict { current: u64 },
    /// The request was made against another editor revision; the current one is given.
    RevisionConflict { current: u64 },
    /// The request was made against another plugin revision; the current one is given.
    PluginRevisionConflict { current: u64 },
    /// The commit may go ahead.
    Proceed,
}

/// `i` is the first acknowledgement with mutation id `id`.
pub open spec fn is_first_ack(acks: Seq<(Seq<char>, Seq<char>)>, id: Seq<char>, i: int) -> bool {
    &&& 0 <= i < acks.len()
    &&& acks[i].0 == id
    &&& forall|j: int| 0 <= j < i ==> acks[j].0 != id
}

/// The acknowledgements as (mutation id, fingerprint) pairs.
pub open spec fn acks_view(acks: Seq<GestureAck>) -> Seq<(Seq<char>, Seq<char>)> {
    acks.map_values(|a: GestureAck| (a.id@, a.fingerprint@))
}

/// Whether a gesture request may be committed, given the acknowledgements so far and the
/// session's revisions: a known mutation id decides first, then the history epoch (when
/// the request names one), then the editor revision, then the plugin revision.
pub open spec fn gesture_admitted(
    acks: Seq<(Seq<char>, Seq<char>)>,
    id: Seq<char>,
    fingerprint: Seq<char>,
    observed_epoch: Option<u64>,
    editor_base: u64,
    plugin_base: u64,
    rev: SessionRevisions,
) -> GestureAdmission {
    if exists|i: int| is_first_ack(acks, id, i) {
        let i = choose|i: int| is_first_ack(acks, id, i);
        if acks[i].1 == fingerprint {
            GestureAdmission::Replay { ack: i as usize }
        } else {
            GestureAdmission::MutationIdReused
        }
    } else if observed_epoch matches Some(e) && e != rev.history_epoch {
        GestureAdmission::HistoryEpochConflict { current: rev.history_epoch }
    } else if editor_base != rev.editor_revision {
        GestureAdmission::RevisionConflict { current: rev.editor_revision }
    } else if plugin_base != rev.plugin_revision {
        GestureAdmission::PluginRevisionConflict { current: rev.plugin_revision }
    } else {
        GestureAdmission::Proceed
    }
}

/// Decides whether a gesture request may be committed, as [`gesture_admitted`] states.
pub fn admit_gesture(acks: &Vec<GestureAck>, request: &GestureRequestHead, rev: SessionRevisions) -> (r:
    GestureAdmission)
    ensures
        r == gesture_admitted(
            acks_view(acks@),
            request.mutation_id@,
            request.fingerprint@,
            request.observed_history_epoch,
            request.editor_base_revision,
            request.plugin_base_revision,
            rev,
        ),
{
    let ghost av = acks_view(acks@);
    let mut i: usize = 0;
    while i < acks.len()
        invariant
            i <= acks.len(),
            av == acks_view(acks@),
            forall|j: int| 0 <= j < i ==> av[j].0 != request.mutation_id@,
        decreases acks.len() - i,
    {
        if crate::text::str_eq(acks[i].id.as_str(), request.mutation_id.as_str()) {
            proof {
                assert(is_first_ack(av, request.mutation_id@, i as int));
                let k = choose|k: int| is_first_ack(av, request.mutation_id@, k);
                if k < i {
                    assert(av[k].0 != request.mutation_id@);
                }
                if i < k {
                    assert(av[i as int].0 != request.mutation_id@);
                }
            }
            if crate::text::str_eq(acks[i].fingerprint.as_str(), request.fingerprint.as_str()) {
                return GestureAdmission::Replay { ack: i };
            }
            return GestureAdmission::MutationIdReused;
        }
        i += 1;
    }
    proof {
        assert forall|k: int| !is_first_ack(av, request.mutation_id@, k) by {
            if is_first_ack(av, request.mutation_id@, k) {
                assert(av[k].0 != request.mutation_id@);
            }
        }
    }
    match request.observed_history_epoch {
        Some(e) => {
            if e != rev.history_epoch {
                return GestureAdmission::HistoryEpochConflict { current: rev.history_epoch };
            }
        },
        None => {},
    }
    if request.editor_base_revision != rev.editor_revision {
        return GestureAdmission::RevisionConflict { current: rev.editor_revision };
    }
    if request.plugin_base_revision != rev.plugin_revision {
        return GestureAdmission::PluginRevisionConflict { current: rev.plugin_revision };
    }
    GestureAdmission::Proceed
}

/// The editor revision after an admitted commit: one more, where it does not overflow.
pub fn next_editor_revision(revision: u64) -> (r: Option<u64>)
    ensures
        r == (if revision < u64::MAX {
            Some((revision + 1) as u64)
        } else {
            None::<u64>
        }),
{
    revision.checked_add(1)
}

/// A stale request never goes ahead: once the request's editor revision is not the
/// session's, the commit is replayed from an acknowledgement or refused.
pub proof fn lemma_stale_revision_refused(
    acks: Seq<(Seq<char>, Seq<char>)>,
    id: Seq<char>,
    fingerprint: Seq<char>,
    observed_epoch: Option<u64>,
    editor_base: u64,
    plugin_base: u64,
    rev: SessionRevisions,
)
    requires
        editor_base != rev.editor_revision,
    ensures
        gesture_admitted(acks, id, fingerprint, observed_epoch, editor_base, plugin_base, rev)
            != GestureAdmission::Proceed,
{
}

} // verus!
