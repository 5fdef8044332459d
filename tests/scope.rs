use glowie::binner::TILES;
use glowie::compositor::{Binding, DecaySurfaces};
use glowie::packing::pack_line;
use glowie::queue::SampleQueue;
use glowie::scope::Scope;
use glowie::segments::{LineSegment, SampleFrame};

fn f(x: i16, y: i16) -> SampleFrame {
    SampleFrame { x, y }
}

#[test]
fn new_scope_starts_at_the_origin() {
    let s = Scope::new(360, 360);
    assert_eq!(s.samples(), &vec![f(0, 0)]);
    assert!(s.lines().is_empty());
    assert_eq!(s.directory().len(), TILES);
    assert!(s.directory().iter().all(|&w| w == 0));
    assert_eq!(s.total_time(), 0);
    assert_eq!(s.window_size(), (360, 360));
    assert_eq!(s.surfaces(), DecaySurfaces::new(360, 360));
}

#[test]
fn three_frames_in_one_batch_draw_two_segments() {
    let mut s = Scope::new(360, 360);
    // the backlog already holds the origin
    s.extend(vec![f(32767, 0), f(32767, 32767)]);
    assert_eq!(s.draw(), Binding::Front);
    assert_eq!(s.total_time(), 2);
    assert_eq!(s.samples(), &vec![f(32767, 32767)]);
    let first = LineSegment { start: f(0, 0), end: f(32767, 0), time: 0 };
    let second = LineSegment { start: f(32767, 0), end: f(32767, 32767), time: 1 };
    // the first segment runs along row 7 and 8, the second along columns 15
    // and 14 of the upper half
    assert!(s.lines().contains(&pack_line(&first)));
    assert!(s.lines().contains(&pack_line(&second)));
    let mut end = 0u32;
    for (t, &w) in s.directory().iter().enumerate() {
        assert_eq!(w & 0xffff, end, "offset of tile {}", t);
        end += w >> 16;
    }
    assert_eq!(end as usize, s.lines().len());
    // tile 120 (row 7, column 8) holds only the first segment
    let w = s.directory()[120];
    assert_eq!(w >> 16, 1);
    assert_eq!(s.lines()[(w & 0xffff) as usize], pack_line(&first));
}

#[test]
fn a_frame_without_new_samples_draws_nothing_and_still_composites() {
    let mut s = Scope::new(360, 360);
    assert_eq!(s.draw(), Binding::Front);
    assert_eq!(s.total_time(), 0);
    assert!(s.lines().is_empty());
    assert_eq!(s.samples(), &vec![f(0, 0)]);
    assert_eq!(s.draw(), Binding::Back);
    assert!(!s.surfaces().read_fresh());
}

#[test]
fn budget_holds_across_a_whole_frame() {
    let mut s = Scope::new(360, 360);
    let frames: Vec<SampleFrame> = (0..3000)
        .map(|i| if i % 2 == 0 { f(-32767, 0) } else { f(32767, 0) })
        .collect();
    s.extend(frames);
    s.draw();
    // the origin frame plus 3000 frames make 3000 segments: 32 tiles each
    // for the full strokes, fewer for the first half stroke
    assert!(s.lines().len() <= 65536);
    assert!(s.lines().len() > 65536 - 256);
    assert!((s.total_time() as usize) < 3000);
    assert_eq!(s.samples(), &vec![f(32767, 0)]);
    let last = s.directory()[TILES - 1];
    assert_eq!(((last & 0xffff) + (last >> 16)) as usize, s.lines().len());
}

#[test]
fn resize_gives_fresh_surfaces_and_keeps_the_backlog() {
    let mut s = Scope::new(360, 360);
    s.extend(vec![f(100, 100)]);
    s.draw();
    s.extend(vec![f(200, 200)]);
    s.window_resized(1280, 720);
    assert_eq!(s.window_size(), (1280, 720));
    assert!(s.surfaces().read_fresh());
    assert_eq!(s.surfaces(), DecaySurfaces::new(1280, 720));
    assert_eq!(s.samples(), &vec![f(100, 100), f(200, 200)]);
    assert_eq!(s.draw(), Binding::Front);
}

#[test]
fn drain_from_moves_the_queue_into_the_backlog() {
    let mut s = Scope::new(360, 360);
    let mut q = SampleQueue::new(16);
    q.push(f(1, 2)).unwrap();
    q.push(f(3, 4)).unwrap();
    s.drain_from(&mut q);
    assert_eq!(s.samples(), &vec![f(0, 0), f(1, 2), f(3, 4)]);
    assert_eq!(q.pop(), None);
    s.draw();
    assert_eq!(s.total_time(), 2);
    assert_eq!(s.samples(), &vec![f(3, 4)]);
}
