//! The bounded sample queue: backpressure at the high-water mark, silence on
//! underrun, ordering, and the fan-out helper.

use playmod::sink::{fan_out, CaptureSink, PushSamples, SampleQueue, HIGH_WATER};

#[test]
fn push_below_mark_is_accepted() {
    let mut q = SampleQueue::new();
    let chunk: Vec<i16> = (0..960).map(|i| i as i16).collect();
    assert!(q.try_push(&chunk));
    assert_eq!(q.len(), 960);
}

#[test]
fn push_above_mark_is_refused_until_drained() {
    let mut q = SampleQueue::new();
    let chunk = vec![7i16; 600];
    assert!(q.try_push(&chunk));
    assert!(q.try_push(&chunk));
    assert_eq!(q.len(), 1200);
    // Above the mark: the producer must hold off (this is what makes its
    // blocking loop wait).
    assert!(q.len() > HIGH_WATER);
    assert!(!q.try_push(&chunk));
    assert_eq!(q.len(), 1200);
    // The consumer drains below the mark: pushing is possible again.
    let _ = q.drain(300);
    assert_eq!(q.len(), 900);
    assert!(q.try_push(&chunk));
    assert_eq!(q.len(), 1500);
}

#[test]
fn drain_underrun_pads_with_silence() {
    let mut q = SampleQueue::new();
    assert!(q.try_push(&[5, -6, 7]));
    let out = q.drain(8);
    assert_eq!(out, vec![5, -6, 7, 0, 0, 0, 0, 0]);
    assert_eq!(q.len(), 0);
    // Draining an empty queue is silence, never an error.
    let out = q.drain(4);
    assert_eq!(out, vec![0, 0, 0, 0]);
}

#[test]
fn drain_preserves_order_across_pushes() {
    let mut q = SampleQueue::new();
    assert!(q.try_push(&[1, 2, 3]));
    assert!(q.try_push(&[4, 5]));
    assert_eq!(q.drain(5), vec![1, 2, 3, 4, 5]);
}

#[test]
fn drain_leaves_the_rest_queued() {
    let mut q = SampleQueue::new();
    assert!(q.try_push(&[10, 20, 30, 40]));
    assert_eq!(q.drain(2), vec![10, 20]);
    assert_eq!(q.drain(2), vec![30, 40]);
}

#[test]
fn fan_out_replicates_each_frame() {
    let mono = vec![1i16, -2, 3];
    assert_eq!(fan_out(&mono, 2), vec![1, 1, -2, -2, 3, 3]);
    assert_eq!(fan_out(&mono, 1), vec![1, -2, 3]);
}

#[test]
fn capture_sink_records_in_order() {
    let mut s = CaptureSink::new();
    s.push_samples(&[1, 2]);
    s.push_samples(&[3]);
    assert_eq!(s.samples, vec![1, 2, 3]);
}
