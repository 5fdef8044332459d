use glowie::segments::{generate_segments, LineSegment, SampleFrame};

fn f(x: i16, y: i16) -> SampleFrame {
    SampleFrame { x, y }
}

#[test]
fn three_frames_make_two_segments() {
    let mut backlog = vec![f(0, 0), f(32767, 0), f(32767, 32767)];
    let segs = generate_segments(&mut backlog);
    assert_eq!(
        segs,
        vec![
            LineSegment { start: f(0, 0), end: f(32767, 0), time: 0 },
            LineSegment { start: f(32767, 0), end: f(32767, 32767), time: 1 },
        ]
    );
    assert_eq!(backlog, vec![f(32767, 32767)]);
}

#[test]
fn n_frames_make_n_minus_one_segments() {
    let mut backlog: Vec<SampleFrame> = (0..50).map(|i| f(i * 10, -i)).collect();
    let segs = generate_segments(&mut backlog);
    assert_eq!(segs.len(), 49);
    for (i, s) in segs.iter().enumerate() {
        assert_eq!(s.time, i as u32);
        assert_eq!(s.start, f(i as i16 * 10, -(i as i16)));
        assert_eq!(s.end, f((i as i16 + 1) * 10, -(i as i16 + 1)));
    }
    assert_eq!(backlog, vec![f(490, -49)]);
}

#[test]
fn short_backlog_is_left_alone() {
    let mut one = vec![f(3, 4)];
    assert!(generate_segments(&mut one).is_empty());
    assert_eq!(one, vec![f(3, 4)]);
    let mut none: Vec<SampleFrame> = Vec::new();
    assert!(generate_segments(&mut none).is_empty());
    assert!(none.is_empty());
}

#[test]
fn polyline_continues_across_batches() {
    let mut backlog = vec![f(1, 1), f(2, 2)];
    let first = generate_segments(&mut backlog);
    assert_eq!(first.len(), 1);
    backlog.push(f(3, 3));
    let second = generate_segments(&mut backlog);
    assert_eq!(second, vec![LineSegment { start: f(2, 2), end: f(3, 3), time: 0 }]);
}
