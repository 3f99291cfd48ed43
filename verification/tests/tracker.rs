use bevy_blender_utils::BBUManager;
use bevy_blender_utils::BBUSceneSpawnedEventWithId;
use bevy_blender_utils::LoadState;
use bevy_blender_utils::NotificationQueue;
use bevy_blender_utils::NotificationReader;
use bevy_blender_utils::OracleView;
use bevy_blender_utils::SceneHandle;

#[derive(Clone, Copy, PartialEq, Eq, Debug)]
enum TestId {
    A,
    B,
}

fn loaded_fields(e: &BBUSceneSpawnedEventWithId<TestId>) -> (TestId, SceneHandle, Option<String>) {
    match e {
        BBUSceneSpawnedEventWithId::Loaded { id, handle, path } => (*id, *handle, path.clone()),
        BBUSceneSpawnedEventWithId::Failed { .. } => panic!("expected a Loaded notification"),
    }
}

fn failed_path(e: &BBUSceneSpawnedEventWithId<TestId>) -> Option<String> {
    match e {
        BBUSceneSpawnedEventWithId::Failed { path } => path.clone(),
        BBUSceneSpawnedEventWithId::Loaded { .. } => panic!("expected a Failed notification"),
    }
}

#[test]
fn pending_entry_stays_tracked() {
    let mut tracker: BBUManager<TestId> = BBUManager::new();
    let mut queue: NotificationQueue<TestId> = NotificationQueue::new();
    let h1 = SceneHandle::new(1);
    tracker.manage(TestId::A, h1);

    let mut oracle = OracleView::new();
    oracle.report(h1, LoadState::Loading, None);
    tracker.inform_if_loaded(&oracle, &mut queue);

    assert_eq!(queue.len(), 0);
    assert!(!tracker.is_loaded());
    assert_eq!(tracker.handles(), vec![h1]);
}

#[test]
fn ready_ok_emits_loaded_exactly_once() {
    let mut tracker: BBUManager<TestId> = BBUManager::new();
    let mut queue: NotificationQueue<TestId> = NotificationQueue::new();
    let h1 = SceneHandle::new(1);
    tracker.manage(TestId::A, h1);

    // First tick: still loading, nothing emitted.
    let mut oracle = OracleView::new();
    oracle.report(h1, LoadState::Loading, None);
    tracker.inform_if_loaded(&oracle, &mut queue);
    assert_eq!(queue.len(), 0);

    // Second tick: loaded with a known source path.
    let mut oracle = OracleView::new();
    oracle.report(h1, LoadState::Loaded, Some(String::from("scenes/demo.glb")));
    tracker.inform_if_loaded(&oracle, &mut queue);

    assert_eq!(queue.len(), 1);
    let (id, handle, path) = loaded_fields(queue.get(0));
    assert_eq!(id, TestId::A);
    assert_eq!(handle, h1);
    assert_eq!(path, Some(String::from("scenes/demo.glb")));
    assert!(tracker.is_loaded());

    // Later ticks produce nothing more for this handle.
    let mut oracle = OracleView::new();
    oracle.report(h1, LoadState::Loaded, Some(String::from("scenes/demo.glb")));
    tracker.inform_if_loaded(&oracle, &mut queue);
    assert_eq!(queue.len(), 1);
}

#[test]
fn ready_failed_without_path_emits_failed() {
    let mut tracker: BBUManager<TestId> = BBUManager::new();
    let mut queue: NotificationQueue<TestId> = NotificationQueue::new();
    let h2 = SceneHandle::new(2);
    tracker.manage(TestId::B, h2);

    let mut oracle = OracleView::new();
    oracle.report(h2, LoadState::Failed, None);
    tracker.inform_if_loaded(&oracle, &mut queue);

    assert_eq!(queue.len(), 1);
    assert_eq!(failed_path(queue.get(0)), None);
    assert!(tracker.is_loaded());
}

#[test]
fn unloaded_entry_is_dropped_silently() {
    let mut tracker: BBUManager<TestId> = BBUManager::new();
    let mut queue: NotificationQueue<TestId> = NotificationQueue::new();
    let h1 = SceneHandle::new(1);
    tracker.manage(TestId::A, h1);

    let mut oracle = OracleView::new();
    oracle.report(h1, LoadState::Unloaded, None);
    tracker.inform_if_loaded(&oracle, &mut queue);

    assert_eq!(queue.len(), 0);
    assert!(tracker.is_loaded());
}

#[test]
fn duplicate_registration_resolves_independently() {
    let mut tracker: BBUManager<TestId> = BBUManager::new();
    let mut queue: NotificationQueue<TestId> = NotificationQueue::new();
    let h1 = SceneHandle::new(7);
    tracker.manage(TestId::A, h1);
    tracker.manage(TestId::B, h1);

    let mut oracle = OracleView::new();
    oracle.report(h1, LoadState::Loaded, Some(String::from("scenes/twice.glb")));
    tracker.inform_if_loaded(&oracle, &mut queue);

    assert_eq!(queue.len(), 2);
    let (id0, handle0, _) = loaded_fields(queue.get(0));
    let (id1, handle1, _) = loaded_fields(queue.get(1));
    assert_eq!(id0, TestId::A);
    assert_eq!(id1, TestId::B);
    assert_eq!(handle0, h1);
    assert_eq!(handle1, h1);
    assert!(tracker.is_loaded());
}

#[test]
fn is_loaded_is_idempotent() {
    let mut tracker: BBUManager<TestId> = BBUManager::new();
    assert_eq!(tracker.is_loaded(), tracker.is_loaded());
    tracker.manage(TestId::A, SceneHandle::new(1));
    let first = tracker.is_loaded();
    let second = tracker.is_loaded();
    assert_eq!(first, second);
    assert!(!first);
}

#[test]
fn mixed_states_handled_in_one_pass_without_early_exit() {
    let mut tracker: BBUManager<TestId> = BBUManager::new();
    let mut queue: NotificationQueue<TestId> = NotificationQueue::new();
    let pending = SceneHandle::new(1);
    let ok = SceneHandle::new(2);
    let failed = SceneHandle::new(3);
    let gone = SceneHandle::new(4);
    tracker.manage(TestId::A, pending);
    tracker.manage(TestId::A, ok);
    tracker.manage(TestId::B, failed);
    tracker.manage(TestId::B, gone);

    let mut oracle = OracleView::new();
    oracle.report(pending, LoadState::NotLoaded, None);
    oracle.report(ok, LoadState::Loaded, Some(String::from("scenes/ok.glb")));
    oracle.report(failed, LoadState::Failed, Some(String::from("scenes/bad.glb")));
    oracle.report(gone, LoadState::Unloaded, None);
    tracker.inform_if_loaded(&oracle, &mut queue);

    // Notifications come in registry order: the Loaded one, then the Failed one.
    assert_eq!(queue.len(), 2);
    let (id, handle, path) = loaded_fields(queue.get(0));
    assert_eq!((id, handle), (TestId::A, ok));
    assert_eq!(path, Some(String::from("scenes/ok.glb")));
    assert_eq!(failed_path(queue.get(1)), Some(String::from("scenes/bad.glb")));

    // Only the pending entry is still tracked.
    assert!(!tracker.is_loaded());
    assert_eq!(tracker.handles(), vec![pending]);

    // Polling again with the same snapshot emits nothing new.
    tracker.inform_if_loaded(&oracle, &mut queue);
    assert_eq!(queue.len(), 2);
    assert_eq!(tracker.handles(), vec![pending]);
}

#[test]
fn broadcast_queue_serves_independent_readers() {
    let mut tracker: BBUManager<TestId> = BBUManager::new();
    let mut queue: NotificationQueue<TestId> = NotificationQueue::new();
    let h1 = SceneHandle::new(1);
    let h2 = SceneHandle::new(2);
    tracker.manage(TestId::A, h1);
    tracker.manage(TestId::B, h2);

    let mut oracle = OracleView::new();
    oracle.report(h1, LoadState::Loaded, None);
    oracle.report(h2, LoadState::Failed, None);
    tracker.inform_if_loaded(&oracle, &mut queue);

    let mut reader1 = NotificationReader::new();
    let mut reader2 = NotificationReader::new();

    let first1 = loaded_fields(reader1.next(&queue).expect("reader1 first"));
    let first2 = loaded_fields(reader2.next(&queue).expect("reader2 first"));
    assert_eq!(first1, first2);

    assert_eq!(failed_path(reader1.next(&queue).expect("reader1 second")), None);
    assert!(reader1.next(&queue).is_none());

    // reader2 lags behind and still sees everything once.
    assert_eq!(failed_path(reader2.next(&queue).expect("reader2 second")), None);
    assert!(reader2.next(&queue).is_none());
}
