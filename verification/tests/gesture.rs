use dmnote_editor_engine::gesture::{
    admit_gesture, next_editor_revision, GestureAck, GestureAdmission, GestureRequestHead,
    SessionRevisions,
};

fn request(id: &str, fingerprint: &str, base: u64) -> GestureRequestHead {
    GestureRequestHead {
        mutation_id: id.into(),
        fingerprint: fingerprint.into(),
        observed_history_epoch: Some(2),
        editor_base_revision: base,
        plugin_base_revision: 0,
    }
}

#[test]
fn gesture_commits_are_admitted_only_against_current_revisions() {
    let rev = SessionRevisions { history_epoch: 2, editor_revision: 7, plugin_revision: 0 };
    let acks = vec![GestureAck { id: "m1".into(), fingerprint: "f1".into() }];
    assert_eq!(admit_gesture(&acks, &request("m2", "f2", 7), rev), GestureAdmission::Proceed);
    assert_eq!(
        admit_gesture(&acks, &request("m2", "f2", 6), rev),
        GestureAdmission::RevisionConflict { current: 7 }
    );
    assert_eq!(admit_gesture(&acks, &request("m1", "f1", 6), rev), GestureAdmission::Replay { ack: 0 });
    assert_eq!(admit_gesture(&acks, &request("m1", "other", 7), rev), GestureAdmission::MutationIdReused);
    let mut old_epoch = request("m3", "f3", 7);
    old_epoch.observed_history_epoch = Some(1);
    assert_eq!(
        admit_gesture(&acks, &old_epoch, rev),
        GestureAdmission::HistoryEpochConflict { current: 2 }
    );
    let mut plugin = request("m4", "f4", 7);
    plugin.plugin_base_revision = 3;
    assert_eq!(
        admit_gesture(&acks, &plugin, rev),
        GestureAdmission::PluginRevisionConflict { current: 0 }
    );
    assert_eq!(next_editor_revision(7), Some(8));
    assert_eq!(next_editor_revision(u64::MAX), None);
}
