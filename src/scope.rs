use vstd::prelude::*;
use crate::binner::{
    assigned, bin_segments, bucket_of, buckets_view, hits_below, lemma_budget, lemma_lens_empty,
    lens_below, taken, MAX_LINES, TILES,
};
use crate::compositor::{Binding, DecaySurfaces};
use crate::directory::{
    build_directory, directory_word, flatten, lemma_directory_offsets, lemma_flatten_len,
    word_count, word_offset,
};
use crate::packing::PackedLine;
use crate::queue::SampleQueue;
use crate::segments::{backlog_after, generate_segments, segments_of, LineSegment, SampleFrame};

verus! {

/// The buckets that binning `segs` fills, one per tile.
pub open spec fn bins(segs: Seq<LineSegment>) -> Seq<Seq<PackedLine>> {
    Seq::new(TILES as nat, |t: int| bucket_of(segs, t))
}

proof fn lemma_lens_bins_push(segs: Seq<LineSegment>, s: LineSegment, n: int)
    requires
        0 <= n <= TILES,
    ensures
        lens_below(bins(segs.push(s)), n) == lens_below(bins(segs), n) + hits_below(s, n),
    decreases n,
{
    if n > 0 {
        lemma_lens_bins_push(segs, s, n - 1);
        assert(segs.push(s).drop_last() =~= segs);
    }
}

proof fn lemma_assigned_lens(segs: Seq<LineSegment>, k: int)
    requires
        0 <= k <= segs.len(),
    ensures
        assigned(segs, k) == lens_below(bins(segs.take(k)), TILES as int),
    decreases k,
{
    if k > 0 {
        lemma_assigned_lens(segs, k - 1);
        assert(segs.take(k) =~= segs.take(k - 1).push(segs[k - 1]));
        lemma_lens_bins_push(segs.take(k - 1), segs[k - 1], TILES as int);
    } else {
        let b = bins(segs.take(0));
        assert forall|t: int| 0 <= t < b.len() implies b[t].len() == 0 by {
            assert(segs.take(0).len() == 0);
        }
        lemma_lens_empty(b, TILES as int);
    }
}

/// The per-frame state of the oscilloscope: the sample backlog, the tile
/// buckets (kept allocated from frame to frame), the flattened line buffer
/// and the tile directory that indexes it, the time span of the last batch,
/// the window size and the decay surfaces.
pub struct Scope {
    width: u32,
    height: u32,
    directory: Vec<u32>,
    total_time: u32,
    buckets: Vec<Vec<PackedLine>>,
    lines: Vec<PackedLine>,
    samples: Vec<SampleFrame>,
    surfaces: DecaySurfaces,
}

impl Scope {
    pub closed spec fn wf(&self) -> bool {
        &&& self.buckets@.len() == TILES
        &&& forall|t: int| 0 <= t < TILES ==> (#[trigger] self.buckets@[t])@.len() == 0
        &&& self.directory@.len() == TILES
        &&& self.surfaces.width == self.width
        &&& self.surfaces.height == self.height
    }

    /// The frames waiting to be turned into segments.
    pub closed spec fn samples_spec(&self) -> Seq<SampleFrame> {
        self.samples@
    }

    /// The records of the last frame, in tile order.
    pub closed spec fn lines_spec(&self) -> Seq<PackedLine> {
        self.lines@
    }

    /// The directory words of the last frame, one per tile.
    pub closed spec fn directory_spec(&self) -> Seq<u32> {
        self.directory@
    }

    /// The number of segments that the last frame drew.
    pub closed spec fn total_time_spec(&self) -> u32 {
        self.total_time
    }

    pub closed spec fn window_spec(&self) -> (u32, u32) {
        (self.width, self.height)
    }

    pub closed spec fn surfaces_spec(&self) -> DecaySurfaces {
        self.surfaces
    }

    /// Whether the backlog, line buffer, directory and time span are those
    /// that one frame leaves when it starts from the backlog `samples`: the
    /// backlog's segments are binned (as far as the budget allows) and the
    /// buckets flattened; the backlog keeps its last frame.
    pub open spec fn frame_of_spec(&self, samples: Seq<SampleFrame>) -> bool {
        let segs = segments_of(samples);
        let k = taken(segs);
        &&& self.samples_spec() == backlog_after(samples)
        &&& self.total_time_spec() == k
        &&& self.lines_spec() == flatten(bins(segs.take(k)), TILES as int)
        &&& forall|i: int|
            0 <= i < TILES ==> self.directory_spec()[i] as int == directory_word(
                bins(segs.take(k)),
                i,
            )
    }

    /// After a frame the directory indexes the line buffer exactly: the
    /// first tile starts at zero, each tile's records start where those of
    /// the tile before it end, the last tile's end where the buffer ends, and
    /// the buffer holds fewer than `MAX_LINES` records.
    pub proof fn lemma_frame_directory(&self, samples: Seq<SampleFrame>)
        requires
            self.wf(),
            self.frame_of_spec(samples),
        ensures
            self.directory_spec().len() == TILES,
            word_offset(self.directory_spec()[0]) == 0,
            forall|i: int|
                0 <= i < TILES - 1 ==> word_offset(#[trigger] self.directory_spec()[i]) + word_count(
                    self.directory_spec()[i],
                ) == word_offset(self.directory_spec()[i + 1]),
            word_offset(self.directory_spec()[TILES - 1]) + word_count(
                self.directory_spec()[TILES - 1],
            ) == self.lines_spec().len(),
            self.lines_spec().len() < MAX_LINES,
    {
        let segs = segments_of(samples);
        let k = taken(segs);
        let b = bins(segs.take(k));
        lemma_budget(segs);
        lemma_assigned_lens(segs, k);
        lemma_flatten_len(b, TILES as int);
        lemma_directory_offsets(b, self.directory_spec());
    }

    /// A scope for a window of the given size. The backlog starts with one
    /// frame at the origin, so that the first curve starts there.
    pub fn new(width: u32, height: u32) -> (r: Scope)
        ensures
            r.wf(),
            r.samples_spec() == seq![SampleFrame { x: 0, y: 0 }],
            r.lines_spec().len() == 0,
            forall|i: int| 0 <= i < TILES ==> r.directory_spec()[i] == 0,
            r.total_time_spec() == 0,
            r.window_spec() == (width, height),
            r.surfaces_spec() == DecaySurfaces::new_spec(width, height),
    {
        let mut buckets: Vec<Vec<PackedLine>> = Vec::new();
        let mut directory: Vec<u32> = Vec::new();
        let mut i: usize = 0;
        while i < TILES
            invariant
                i <= TILES,
                buckets@.len() == i,
                directory@.len() == i,
                forall|t: int| 0 <= t < i ==> (#[trigger] buckets@[t])@.len() == 0,
                forall|t: int| 0 <= t < i ==> directory@[t] == 0,
            decreases TILES - i,
        {
            buckets.push(Vec::new());
            directory.push(0);
            i = i + 1;
        }
        let mut samples: Vec<SampleFrame> = Vec::new();
        samples.push(SampleFrame { x: 0, y: 0 });
        assert(samples@ =~= seq![SampleFrame { x: 0, y: 0 }]);
        Scope {
            width,
            height,
            directory,
            total_time: 0,
            buckets,
            lines: Vec::new(),
            samples,
            surfaces: DecaySurfaces::new(width, height),
        }
    }

    /// Appends `frames` to the backlog.
    pub fn extend(&mut self, frames: Vec<SampleFrame>)
        requires
            old(self).wf(),
        ensures
            final(self).wf(),
            final(self).samples_spec() == old(self).samples_spec() + frames@,
            final(self).lines_spec() == old(self).lines_spec(),
            final(self).directory_spec() == old(self).directory_spec(),
            final(self).total_time_spec() == old(self).total_time_spec(),
            final(self).window_spec() == old(self).window_spec(),
            final(self).surfaces_spec() == old(self).surfaces_spec(),
    {
        let mut frames = frames;
        self.samples.append(&mut frames);
    }

    /// Moves every frame waiting in `queue`, oldest first, to the backlog.
    pub fn drain_from(&mut self, queue: &mut SampleQueue)
        requires
            old(self).wf(),
            old(queue).wf(),
        ensures
            final(self).wf(),
            final(queue).wf(),
            final(queue).cap() == old(queue).cap(),
            final(queue)@ == Seq::<SampleFrame>::empty(),
            final(self).samples_spec() == old(self).samples_spec() + old(queue)@,
            final(self).lines_spec() == old(self).lines_spec(),
            final(self).directory_spec() == old(self).directory_spec(),
            final(self).total_time_spec() == old(self).total_time_spec(),
            final(self).window_spec() == old(self).window_spec(),
            final(self).surfaces_spec() == old(self).surfaces_spec(),
    {
        queue.drain_into(&mut self.samples);
    }

    /// Builds the geometry of one frame: turns the backlog into segments
    /// (keeping its last frame), bins them into the tiles under the budget,
    /// writes the directory, flattens the buckets into the line buffer and
    /// records how many segments were drawn.
    pub fn generate_chunks(&mut self)
        requires
            old(self).wf(),
            old(self).samples_spec().len() <= 0x1_0000_0000,
        ensures
            final(self).wf(),
            final(self).frame_of_spec(old(self).samples_spec()),
            final(self).window_spec() == old(self).window_spec(),
            final(self).surfaces_spec() == old(self).surfaces_spec(),
    {
        let segs = generate_segments(&mut self.samples);
        let (k, _total) = bin_segments(&segs, &mut self.buckets);
        let ghost b = buckets_view(self.buckets@);
        assert(b =~= bins(segs@.take(k as int)));
        self.directory = build_directory(&mut self.buckets, &mut self.lines);
        self.total_time = k as u32;
    }

    /// Prepares one frame: builds its geometry and records the compositing
    /// pass, returning the binding of the decay surfaces that the pass uses.
    pub fn draw(&mut self) -> (b: Binding)
        requires
            old(self).wf(),
            old(self).samples_spec().len() <= 0x1_0000_0000,
        ensures
            final(self).wf(),
            final(self).frame_of_spec(old(self).samples_spec()),
            final(self).window_spec() == old(self).window_spec(),
            b == (if old(self).surfaces_spec().read_is_a {
                Binding::Front
            } else {
                Binding::Back
            }),
            final(self).surfaces_spec().read_is_a == !old(self).surfaces_spec().read_is_a,
            !final(self).surfaces_spec().read_fresh_spec(),
    {
        self.generate_chunks();
        let ghost mid = *self;
        let b = self.surfaces.composite();
        assert(self.samples_spec() == mid.samples_spec());
        assert(self.lines_spec() == mid.lines_spec());
        assert(self.directory_spec() == mid.directory_spec());
        assert(self.total_time_spec() == mid.total_time_spec());
        b
    }

    /// The frames waiting to be turned into segments.
    pub fn samples(&self) -> (r: &Vec<SampleFrame>)
        ensures
            r@ == self.samples_spec(),
    {
        &self.samples
    }

    /// The records of the last frame, in tile order.
    pub fn lines(&self) -> (r: &Vec<PackedLine>)
        ensures
            r@ == self.lines_spec(),
    {
        &self.lines
    }

    /// The directory words of the last frame, one per tile (see
    /// `directory_word`).
    pub fn directory(&self) -> (r: &Vec<u32>)
        ensures
            r@ == self.directory_spec(),
    {
        &self.directory
    }

    /// The number of segments that the last frame drew.
    pub fn total_time(&self) -> (r: u32)
        ensures
            r == self.total_time_spec(),
    {
        self.total_time
    }

    pub fn window_size(&self) -> (r: (u32, u32))
        ensures
            r == self.window_spec(),
    {
        (self.width, self.height)
    }

    pub fn surfaces(&self) -> (r: DecaySurfaces)
        ensures
            r == self.surfaces_spec(),
    {
        self.surfaces
    }

    /// Takes the new window size and discards the decay surfaces for fresh
    /// ones of that size.
    pub fn window_resized(&mut self, width: u32, height: u32)
        requires
            old(self).wf(),
        ensures
            final(self).wf(),
            final(self).window_spec() == (width, height),
            final(self).surfaces_spec() == DecaySurfaces::new_spec(width, height),
            final(self).surfaces_spec().read_fresh_spec(),
            final(self).samples_spec() == old(self).samples_spec(),
            final(self).lines_spec() == old(self).lines_spec(),
            final(self).directory_spec() == old(self).directory_spec(),
            final(self).total_time_spec() == old(self).total_time_spec(),
    {
        self.surfaces.resize(width, height);
        self.width = width;
        self.height = height;
    }
}

} // verus!
