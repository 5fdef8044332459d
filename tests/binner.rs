use glowie::binner::{bin_segments, tile_accepts, tile_hits, MAX_LINES, SAFETY_MARGIN, TILES};
use glowie::packing::{pack_line, PackedLine};
use glowie::segments::{LineSegment, SampleFrame};

fn seg(x0: i16, y0: i16, x1: i16, y1: i16, time: u32) -> LineSegment {
    LineSegment {
        start: SampleFrame { x: x0, y: y0 },
        end: SampleFrame { x: x1, y: y1 },
        time,
    }
}

fn accepted(s: &LineSegment) -> Vec<usize> {
    (0..TILES).filter(|&t| tile_accepts(t, s)).collect()
}

#[test]
fn point_at_origin_lies_in_the_four_middle_tiles() {
    let s = seg(0, 0, 0, 0, 0);
    assert_eq!(accepted(&s), vec![119, 120, 135, 136]);
    assert_eq!(tile_hits(&s).1, 4);
}

#[test]
fn horizontal_line_through_the_middle_takes_two_rows() {
    let s = seg(-32767, 0, 32767, 0, 0);
    let expected: Vec<usize> = (112..144).collect();
    assert_eq!(accepted(&s), expected);
    let (mask, n) = tile_hits(&s);
    assert_eq!(n, 32);
    assert_eq!(mask.len(), TILES);
    assert!(mask[112] && mask[143] && !mask[111] && !mask[144]);
}

#[test]
fn projection_is_clamped_to_the_segment() {
    // from 0.5 to 0.6 on the horizontal axis
    let s = seg(16384, 0, 19660, 0, 0);
    assert_eq!(accepted(&s), vec![123, 124, 125, 139, 140, 141]);
    // the same segment reversed takes the same tiles
    let r = seg(19660, 0, 16384, 0, 0);
    assert_eq!(accepted(&r), vec![123, 124, 125, 139, 140, 141]);
}

#[test]
fn corner_tile_takes_only_nearby_segments() {
    // the center of tile 0 is (-15/16, -15/16)
    let near = seg(-32767, -32767, -30000, -32767, 0);
    assert!(tile_accepts(0, &near));
    let far = seg(32767, 32767, 30000, 32767, 0);
    assert!(!tile_accepts(0, &far));
    assert!(tile_accepts(255, &far));
}

fn empty_buckets() -> Vec<Vec<PackedLine>> {
    vec![Vec::new(); TILES]
}

#[test]
fn binning_puts_each_segment_in_every_accepting_tile() {
    let segs = vec![seg(0, 0, 0, 0, 0), seg(-32767, 0, 32767, 0, 1)];
    let mut buckets = empty_buckets();
    let (taken, total) = bin_segments(&segs, &mut buckets);
    assert_eq!(taken, 2);
    assert_eq!(total, 4 + 32);
    assert_eq!(buckets[119], vec![pack_line(&segs[0]), pack_line(&segs[1])]);
    assert_eq!(buckets[112], vec![pack_line(&segs[1])]);
    assert!(buckets[0].is_empty());
    let sum: usize = buckets.iter().map(|b| b.len()).sum();
    assert_eq!(sum, total);
}

#[test]
fn binning_stops_once_the_budget_is_passed() {
    // full-width horizontal strokes, back and forth: 32 tiles each
    let segs: Vec<LineSegment> = (0..2999u32)
        .map(|i| {
            if i % 2 == 0 {
                seg(-32767, 0, 32767, 0, i)
            } else {
                seg(32767, 0, -32767, 0, i)
            }
        })
        .collect();
    let mut buckets = empty_buckets();
    let (taken, total) = bin_segments(&segs, &mut buckets);
    // 2040 strokes make 65280 assignments, which is not over the bound;
    // the next one passes it and binning stops there
    assert_eq!(taken, 2041);
    assert_eq!(total, 65312);
    assert!(total > MAX_LINES - SAFETY_MARGIN);
    assert!(total <= MAX_LINES);
    assert_eq!(buckets[120].len(), 2041);
    assert_eq!(buckets[120][2040].time, 2040);
}

#[test]
fn binning_nothing_places_nothing() {
    let mut buckets = empty_buckets();
    assert_eq!(bin_segments(&Vec::new(), &mut buckets), (0, 0));
    assert!(buckets.iter().all(|b| b.is_empty()));
}
