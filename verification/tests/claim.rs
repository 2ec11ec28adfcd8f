//! Claiming and reserving wizard objects.

use mogen_studio::ids::IdSet;
use mogen_studio::wizard::claim::{
    claim_pending_batch, next_pending_object_skipping, next_pending_reference_skipping,
    object_missing, reference_missing,
};
use mogen_studio::wizard::state::{ObjectEntry, Triple, WizardState};

fn triple(v: [f32; 3]) -> Triple {
    Triple {
        x: v[0].to_bits(),
        y: v[1].to_bits(),
        z: v[2].to_bits(),
    }
}

fn obj(id: &str) -> ObjectEntry {
    ObjectEntry {
        id: id.to_string(),
        name: id.to_string(),
        role: String::new(),
        prompt: String::new(),
        size: triple([1.0, 1.0, 1.0]),
        position: triple([0.0, 0.0, 0.0]),
        rotation_y_deg: 0.0f32.to_bits(),
        reference_image: None,
        mog_path: None,
        thumb_path: None,
        position_guide: None,
    }
}

/// What is on disk: nothing, or one file.
fn empty_disk() -> IdSet {
    IdSet::new()
}

fn existing_file(disk: &mut IdSet) -> String {
    let path = "/tmp/mogen-studio-batch-tests/1.png".to_string();
    disk.insert(path.clone());
    path
}

#[test]
fn second_claim_before_completion_is_empty() {
    let disk = empty_disk();
    let manifest = vec![obj("a"), obj("b"), obj("c")];
    let mut in_flight = IdSet::new();

    let first = claim_pending_batch(&manifest, &mut in_flight, 3, |o| {
        reference_missing(o, &disk)
    });
    assert_eq!(first.len(), 3, "first claim takes the whole batch");
    assert_eq!(in_flight.len(), 3, "claimed ids are reserved");

    let second = claim_pending_batch(&manifest, &mut in_flight, 3, |o| {
        reference_missing(o, &disk)
    });
    assert!(
        second.is_empty(),
        "nothing left to claim while the first batch is still in flight"
    );
    assert_eq!(in_flight.len(), 3, "no double-issue");
}

#[test]
fn poll_gate_sees_no_pending_after_claim() {
    let disk = empty_disk();
    let mut state = WizardState::default();
    state.manifest = vec![obj("a"), obj("b"), obj("c")];
    let mut in_flight = IdSet::new();

    assert!(
        next_pending_reference_skipping(&state, &in_flight, &disk).is_some(),
        "work exists before any claim"
    );
    let _ = claim_pending_batch(&state.manifest, &mut in_flight, 3, |o| {
        reference_missing(o, &disk)
    });
    assert!(
        next_pending_reference_skipping(&state, &in_flight, &disk).is_none(),
        "poll gate must report no pending work once the batch is reserved"
    );
}

#[test]
fn claim_never_exceeds_target_concurrency() {
    let disk = empty_disk();
    let manifest: Vec<_> = (0..10).map(|i| obj(&format!("o{i}"))).collect();
    let mut in_flight = IdSet::new();
    let claimed = claim_pending_batch(&manifest, &mut in_flight, 3, |o| {
        reference_missing(o, &disk)
    });
    assert_eq!(
        claimed.len(),
        3,
        "capacity caps the batch at target_concurrency"
    );
    assert_eq!(in_flight.len(), 3);
}

#[test]
fn capacity_accounts_for_already_in_flight() {
    let disk = empty_disk();
    let manifest: Vec<_> = (0..10).map(|i| obj(&format!("o{i}"))).collect();
    let mut in_flight = IdSet::new();
    in_flight.insert("o0".to_string());
    in_flight.insert("o1".to_string());
    let claimed = claim_pending_batch(&manifest, &mut in_flight, 3, |o| {
        reference_missing(o, &disk)
    });
    assert_eq!(
        claimed.len(),
        1,
        "only one free slot remains under a target of 3"
    );
    assert_eq!(in_flight.len(), 3, "o0, o1 pre-existing + o2 newly claimed");
    assert_eq!(claimed[0].id, "o2");
}

#[test]
fn completed_id_can_be_reclaimed() {
    let disk = empty_disk();
    let manifest = vec![obj("a")];
    let mut in_flight = IdSet::new();
    let first = claim_pending_batch(&manifest, &mut in_flight, 3, |o| {
        reference_missing(o, &disk)
    });
    assert_eq!(first.len(), 1);
    in_flight.remove("a");
    let again = claim_pending_batch(&manifest, &mut in_flight, 3, |o| {
        reference_missing(o, &disk)
    });
    assert_eq!(again.len(), 1, "a freed, still-missing object is reclaimable");
}

#[test]
fn objects_with_existing_reference_are_not_claimed() {
    let mut disk = empty_disk();
    let mut done = obj("done");
    done.reference_image = Some(existing_file(&mut disk));
    let manifest = vec![done, obj("todo")];
    let mut in_flight = IdSet::new();
    let claimed = claim_pending_batch(&manifest, &mut in_flight, 3, |o| {
        reference_missing(o, &disk)
    });
    assert_eq!(claimed.len(), 1, "only the object missing its PNG is claimed");
    assert_eq!(claimed[0].id, "todo");
}

#[test]
fn objects_with_existing_mog_are_not_claimed() {
    let mut disk = empty_disk();
    let mut built = obj("built");
    built.mog_path = Some(existing_file(&mut disk));
    let manifest = vec![built, obj("todo")];
    let mut in_flight = IdSet::new();
    let claimed =
        claim_pending_batch(&manifest, &mut in_flight, 3, |o| object_missing(o, &disk));
    assert_eq!(
        claimed.len(),
        1,
        "only the object missing its .mog is claimed"
    );
    assert_eq!(claimed[0].id, "todo");
}

#[test]
fn object_missing_tracks_mog_path() {
    let mut disk = empty_disk();
    let mut built = obj("built");
    built.mog_path = Some(existing_file(&mut disk));
    assert!(!object_missing(&built, &disk), "an on-disk .mog is not missing");
    assert!(object_missing(&obj("fresh"), &disk), "no .mog means missing");
}

#[test]
fn a_file_that_is_gone_counts_as_missing() {
    let disk = empty_disk();
    let mut stale = obj("stale");
    stale.reference_image = Some("/gone/stale.png".to_string());
    assert!(reference_missing(&stale, &disk));
}

#[test]
fn next_pending_object_skips_taken_and_present() {
    let mut disk = empty_disk();
    let mut built = obj("built");
    built.mog_path = Some(existing_file(&mut disk));
    let mut state = WizardState::default();
    state.manifest = vec![built, obj("taken"), obj("free")];
    let mut in_flight = IdSet::new();
    in_flight.insert("taken".to_string());
    let next = next_pending_object_skipping(&state, &in_flight, &disk);
    assert_eq!(next.map(|o| o.id.as_str()), Some("free"));
}

#[test]
fn a_full_pool_claims_nothing() {
    let disk = empty_disk();
    let manifest = vec![obj("a"), obj("b")];
    let mut in_flight = IdSet::new();
    in_flight.insert("x".to_string());
    in_flight.insert("y".to_string());
    let claimed = claim_pending_batch(&manifest, &mut in_flight, 1, |o| {
        reference_missing(o, &disk)
    });
    assert!(claimed.is_empty());
    assert_eq!(in_flight.len(), 2);
}

#[test]
fn a_repeated_id_is_claimed_twice_and_reserved_once() {
    let disk = empty_disk();
    let manifest = vec![obj("a"), obj("a"), obj("b"), obj("c")];
    let mut in_flight = IdSet::new();
    let claimed = claim_pending_batch(&manifest, &mut in_flight, 3, |o| {
        reference_missing(o, &disk)
    });
    let ids: Vec<&str> = claimed.iter().map(|o| o.id.as_str()).collect();
    assert_eq!(ids, vec!["a", "a", "b"]);
    assert_eq!(in_flight.len(), 2);
}
