use vstd::prelude::*;

verus! {

/// One stereo sample frame, each channel a 16-bit signed normalized value
/// (the value `32767` stands for `1.0`).
#[derive(Clone, Copy, Debug, PartialEq, Eq, Structural)]
pub struct SampleFrame {
    pub x: i16,
    pub y: i16,
}

/// A line segment between two consecutive frames, with its position in the
/// batch that produced it.
#[derive(Clone, Copy, Debug, PartialEq, Eq, Structural)]
pub struct LineSegment {
    pub start: SampleFrame,
    pub end: SampleFrame,
    pub time: u32,
}

/// The segments that a backlog forms: one for each adjacent pair of frames,
/// numbered from zero.
pub open spec fn segments_of(b: Seq<SampleFrame>) -> Seq<LineSegment> {
    if b.len() < 2 {
        Seq::empty()
    } else {
        Seq::new(
            (b.len() - 1) as nat,
            |i: int| LineSegment { start: b[i], end: b[i + 1], time: i as u32 },
        )
    }
}

/// What is left of a backlog once its segments have been taken: its last
/// frame, or the backlog itself when it forms no segment.
pub open spec fn backlog_after(b: Seq<SampleFrame>) -> Seq<SampleFrame> {
    if b.len() < 2 {
        b
    } else {
        seq![b.last()]
    }
}

/// Turns every adjacent pair of frames of `backlog` into a segment and keeps
/// only the last frame, so that the next batch continues the polyline.
pub fn generate_segments(backlog: &mut Vec<SampleFrame>) -> (segs: Vec<LineSegment>)
    requires
        old(backlog)@.len() <= 0x1_0000_0000,
    ensures
        segs@ == segments_of(old(backlog)@),
        final(backlog)@ == backlog_after(old(backlog)@),
{
    let n = backlog.len();
    let mut segs: Vec<LineSegment> = Vec::new();
    if n < 2 {
        return segs;
    }
    let mut i: usize = 0;
    while i + 1 < n
        invariant
            backlog@ == old(backlog)@,
            n == backlog@.len(),
            n >= 2,
            n <= 0x1_0000_0000,
            i + 1 <= n,
            segs@.len() == i,
            forall|j: int|
                0 <= j < i ==> #[trigger] segs@[j] == (LineSegment {
                    start: backlog@[j],
                    end: backlog@[j + 1],
                    time: j as u32,
                }),
        decreases n - i,
    {
        segs.push(LineSegment { start: backlog[i], end: backlog[i + 1], time: i as u32 });
        i = i + 1;
    }
    let last = backlog[n - 1];
    backlog.clear();
    backlog.push(last);
    assert(segs@ =~= segments_of(old(backlog)@));
    assert(backlog@ =~= backlog_after(old(backlog)@));
    segs
}

/// A backlog of `n >= 2` frames forms `n - 1` segments and keeps one frame;
/// a shorter one forms none and stays as it is.
pub proof fn lemma_segment_counts(b: Seq<SampleFrame>)
    ensures
        b.len() >= 2 ==> segments_of(b).len() == b.len() - 1 && backlog_after(b).len() == 1
            && backlog_after(b)[0] == b[b.len() - 1],
        b.len() < 2 ==> segments_of(b).len() == 0 && backlog_after(b) == b,
{
}

} // verus!
