use streamplay::playback::PlaybackQueue;

fn chunk(start: i32, len: i32) -> Vec<i32> {
    (start..start + len).collect()
}

#[test]
fn chunks_of_five_three_eight_through_buffers_of_four() {
    let c0 = chunk(0, 5);
    let c1 = chunk(100, 3);
    let c2 = chunk(200, 8);
    let mut queue = PlaybackQueue::new();
    queue.push(c0.clone());
    queue.push(c1.clone());
    queue.push(c2.clone());
    let mut outputs = Vec::new();
    for _ in 0..4 {
        let mut out = [0i32; 4];
        assert_eq!(queue.fill(&mut out, -1), 4);
        outputs.push(out);
    }
    assert_eq!(outputs[0], [0, 1, 2, 3]);
    assert_eq!(outputs[1], [4, 100, 101, 102]);
    assert_eq!(outputs[2], [200, 201, 202, 203]);
    assert_eq!(outputs[3], [204, 205, 206, 207]);
    assert!(queue.is_empty());
    let played: Vec<i32> = outputs.iter().flatten().copied().collect();
    let expected: Vec<i32> = c0.iter().chain(c1.iter()).chain(c2.iter()).copied().collect();
    assert_eq!(played, expected);
}

#[test]
fn samples_played_once_each_then_silence() {
    let mut queue = PlaybackQueue::new();
    queue.push(chunk(1, 5));
    queue.push(chunk(10, 2));
    let mut played = Vec::new();
    for _ in 0..3 {
        let mut out = [0i32; 3];
        queue.fill(&mut out, 0);
        played.extend_from_slice(&out);
    }
    assert_eq!(played, vec![1, 2, 3, 4, 5, 10, 11, 0, 0]);
}

#[test]
fn empty_queue_gives_silence_without_waiting() {
    let mut queue: PlaybackQueue<f32> = PlaybackQueue::new();
    let mut out = [0.5f32; 6];
    assert_eq!(queue.fill(&mut out, 0.0), 0);
    assert_eq!(out, [0.0; 6]);
    assert!(queue.is_empty());
}

#[test]
fn underrun_keeps_taken_samples_and_pads_with_silence() {
    let mut queue = PlaybackQueue::new();
    queue.push(vec![0.25f32, -0.25]);
    let mut out = [1.0f32; 5];
    assert_eq!(queue.fill(&mut out, 0.0), 2);
    assert_eq!(out, [0.25, -0.25, 0.0, 0.0, 0.0]);
}

#[test]
fn remainder_of_a_chunk_carries_over() {
    let mut queue = PlaybackQueue::new();
    queue.push(vec![1, 2, 3, 4, 5, 6, 7]);
    let mut out = [0i32; 3];
    assert_eq!(queue.fill(&mut out, 0), 3);
    assert_eq!(out, [1, 2, 3]);
    assert!(!queue.is_empty());
    queue.push(vec![8]);
    let mut out = [0i32; 10];
    assert_eq!(queue.fill(&mut out, 0), 5);
    assert_eq!(out, [4, 5, 6, 7, 8, 0, 0, 0, 0, 0]);
    assert!(queue.is_empty());
}

#[test]
fn empty_chunks_and_empty_output_change_nothing() {
    let mut queue = PlaybackQueue::new();
    queue.push(Vec::new());
    assert!(queue.is_empty());
    queue.push(vec![3, 4]);
    queue.push(Vec::new());
    let mut none: [i32; 0] = [];
    assert_eq!(queue.fill(&mut none, 0), 0);
    let mut out = [0i32; 2];
    assert_eq!(queue.fill(&mut out, 0), 2);
    assert_eq!(out, [3, 4]);
    assert!(queue.is_empty());
}
