use lidar_sequence_viewer::codec::Frame;
use lidar_sequence_viewer::player::{PlayerState, TaskDisposition};
use lidar_sequence_viewer::sequence::{LoadState, Sequence};

fn sequence_at(point_folder: &str, label_folder: Option<&str>, n: usize) -> Sequence {
    Sequence {
        point_folder: point_folder.to_string(),
        label_folder: label_folder.map(|s| s.to_string()),
        frames: vec![None; n],
        load_states: vec![LoadState::NotRequested; n],
        frame_count: n,
    }
}

fn player_with(n: usize) -> PlayerState {
    let mut p = PlayerState::default();
    p.set_sequence(sequence_at("seq/velodyne", None, n));
    p
}

fn empty_frame() -> Frame {
    Frame { points: Vec::new(), labels: None }
}

fn load_slot(p: &mut PlayerState, i: usize) {
    let generation = p.sequence_number;
    assert_eq!(
        p.handle_task_event(generation, i, Some(Ok(empty_frame()))),
        TaskDisposition::Stored
    );
}

fn state_of(p: &PlayerState, i: usize) -> LoadState {
    p.sequence.as_ref().unwrap().load_states[i]
}

#[test]
fn seek_evicts_only_outside_the_memory_window() {
    // Memory window radius 500 around the playhead.  After a seek to 200
    // the window is [-300, 700) clipped to [0, 700): index 50 stays
    // resident, index 1000 is evicted.
    let mut p = player_with(1100);
    load_slot(&mut p, 50);
    load_slot(&mut p, 1000);
    p.request_frame(200);
    assert_eq!(state_of(&p, 50), LoadState::Loaded);
    assert_eq!(state_of(&p, 1000), LoadState::NotRequested);
    assert!(p.sequence.as_ref().unwrap().frames[1000].is_none());
}

#[test]
fn seek_keeps_a_loaded_frame_inside_the_window() {
    // With the playhead at 700 the window is [200, 1200): a previously
    // loaded frame at 1000 remains resident while one at 50 is evicted.
    let mut p = player_with(1100);
    load_slot(&mut p, 50);
    load_slot(&mut p, 1000);
    p.request_frame(700);
    assert_eq!(state_of(&p, 1000), LoadState::Loaded);
    assert_eq!(state_of(&p, 50), LoadState::NotRequested);
}

#[test]
fn forward_playback_evicts_frame_zero_exactly_at_the_window_radius() {
    // actual_frame advances one by one from 0 to 600 over loaded frames;
    // frame 0's slot is evicted exactly when the playhead reaches 500,
    // not before.
    let mut p = player_with(601);
    for i in 0..=600usize {
        load_slot(&mut p, i);
    }
    p.play();
    for t in 1..=600usize {
        p.apply_clock(t);
        assert_eq!(p.get_frame(), t);
        assert_eq!(p.frame_tick(), Some(t));
        if t < 500 {
            assert_eq!(state_of(&p, 0), LoadState::Loaded, "evicted too early at {}", t);
        } else {
            assert_eq!(state_of(&p, 0), LoadState::NotRequested, "still resident at {}", t);
        }
    }
}

#[test]
fn seek_cancels_tasks_that_have_not_completed() {
    // Three decodes for frames 10, 11, 12 are outstanding; a seek far away
    // happens; at the next poll the unfinished task for frame 11 is
    // cancelled, its handle dropped, and its slot is NotRequested - so its
    // late completion never makes the slot Loaded.
    let mut p = player_with(2000);
    let generation = p.sequence_number;
    p.request_frame(10);
    let requests = p.buffer_next_frames();
    let dispatched: Vec<usize> = requests.iter().map(|r| r.frame_number).collect();
    assert_eq!(dispatched, vec![10, 11, 12, 13, 14]);
    assert_eq!(state_of(&p, 11), LoadState::Requested);

    p.request_frame(1600);
    assert!(p.has_frame_request);
    // poll pass over the outstanding tasks: none has completed
    for i in [10usize, 11, 12] {
        assert_eq!(p.handle_task_event(generation, i, None), TaskDisposition::Cancelled);
    }
    p.clear_frame_request();
    assert_eq!(state_of(&p, 11), LoadState::NotRequested);
    assert_ne!(state_of(&p, 11), LoadState::Loaded);
}

#[test]
fn completion_under_an_old_generation_is_discarded() {
    // A decode for frame 5 of sequence A is in flight when sequence B is
    // opened; A's completion must not populate B's store.
    let mut p = PlayerState::default();
    p.set_sequence(sequence_at("a/velodyne", None, 30));
    let generation_a = p.sequence_number;
    p.request_frame(5);
    let requests = p.buffer_next_frames();
    assert!(requests.iter().any(|r| r.frame_number == 5 && r.generation == generation_a));

    p.set_sequence(sequence_at("b/velodyne", None, 30));
    assert_eq!(
        p.handle_task_event(generation_a, 5, Some(Ok(empty_frame()))),
        TaskDisposition::DiscardStale
    );
    let s = p.sequence.as_ref().unwrap();
    assert!(s.frames[5].is_none());
    assert_eq!(s.load_states[5], LoadState::NotRequested);
    assert_eq!(s.point_folder, "b/velodyne");
}

#[test]
fn dispatch_batch_carries_generation_and_paths() {
    let mut p = PlayerState::default();
    p.set_sequence(sequence_at("seq/velodyne", Some("seq/labels"), 100));
    let generation = p.sequence_number;
    let requests = p.buffer_next_frames();
    assert_eq!(requests.len(), 5);
    for (k, r) in requests.iter().enumerate() {
        assert_eq!(r.frame_number, k);
        assert_eq!(r.generation, generation);
        assert_eq!(r.points_path, format!("seq/velodyne/{:0>6}.bin", k));
        assert_eq!(r.labels_path.as_deref(), Some(format!("seq/labels/{:0>6}.label", k)).as_deref());
        assert_eq!(state_of(&p, k), LoadState::Requested);
    }
    // already-requested slots are not dispatched again
    let again = p.buffer_next_frames();
    assert!(again.is_empty());
}

#[test]
fn dispatch_skips_the_loaded_run_and_advances_the_cursor() {
    let mut p = player_with(100);
    for i in 0..3 {
        load_slot(&mut p, i);
    }
    let requests = p.buffer_next_frames();
    let dispatched: Vec<usize> = requests.iter().map(|r| r.frame_number).collect();
    assert_eq!(dispatched, vec![3, 4, 5, 6, 7]);
    // the cursor rests on the last loaded frame of the skipped run
    assert_eq!(p.get_buffer_frame(), 2);
}

#[test]
fn dispatch_stops_at_the_steady_state_target() {
    let mut p = player_with(1000);
    // prefetch target is actual + 300; pretend the cursor already reached it
    p.buffer_frame = 300;
    let requests = p.buffer_next_frames();
    assert!(requests.is_empty());
    assert_eq!(p.get_buffer_frame(), 300);
}

#[test]
fn dispatch_target_is_clipped_to_the_last_frame() {
    let mut p = player_with(10);
    p.buffer_frame = 9;
    assert!(p.buffer_next_frames().is_empty());
    p.buffer_frame = 5;
    let requests = p.buffer_next_frames();
    let dispatched: Vec<usize> = requests.iter().map(|r| r.frame_number).collect();
    assert_eq!(dispatched, vec![5, 6, 7, 8, 9]);
}

#[test]
fn dispatch_without_a_sequence_does_nothing() {
    let mut p = PlayerState::default();
    assert!(p.buffer_next_frames().is_empty());
}

#[test]
fn out_of_order_completion_is_tolerated() {
    // Tasks may complete in any order; the skip-ahead only depends on
    // which slots are loaded, never on completion order.
    let mut p = player_with(100);
    let generation = p.sequence_number;
    let first = p.buffer_next_frames();
    assert_eq!(first.iter().map(|r| r.frame_number).collect::<Vec<_>>(), vec![0, 1, 2, 3, 4]);
    // completions arrive as 3, 1, 0
    for i in [3usize, 1, 0] {
        assert_eq!(
            p.handle_task_event(generation, i, Some(Ok(empty_frame()))),
            TaskDisposition::Stored
        );
    }
    let second = p.buffer_next_frames();
    // the loaded prefix 0..1 is skipped (2 is in flight, not loaded), the
    // cursor rests on its last loaded slot, and only slots that are still
    // not requested are dispatched
    assert_eq!(p.get_buffer_frame(), 1);
    assert_eq!(second.iter().map(|r| r.frame_number).collect::<Vec<_>>(), vec![5, 6]);
}

#[test]
fn eviction_never_removes_the_playhead_frame() {
    let mut p = player_with(1100);
    load_slot(&mut p, 200);
    p.request_frame(200);
    assert_eq!(state_of(&p, 200), LoadState::Loaded);
    // forward advance with its single-slot eviction spares it too
    load_slot(&mut p, 500 + 200);
    p.play();
    p.apply_clock(500);
    let _ = p.frame_tick();
    assert_eq!(state_of(&p, 700), LoadState::Loaded);
}
