use vstd::prelude::*;

verus! {

/// The binding of the decay surfaces that a compositing pass uses.
#[derive(Clone, Copy, Debug, PartialEq, Eq, Structural)]
pub enum Binding {
    /// Reads surface A and writes surface B.
    Front,
    /// Reads surface B and writes surface A.
    Back,
}

/// The two persistent decay surfaces, A and B, of one viewport size. Which
/// one the next pass reads is a flag; a pass writes the other, and the flag
/// is then flipped, so that the surface just written is read next. A surface
/// is fresh while it holds the value it was allocated with.
#[derive(Clone, Copy, Debug, PartialEq, Eq, Structural)]
pub struct DecaySurfaces {
    pub width: u32,
    pub height: u32,
    pub read_is_a: bool,
    pub a_fresh: bool,
    pub b_fresh: bool,
}

impl DecaySurfaces {
    /// Whether the surface that the next pass reads holds its reset value.
    pub open spec fn read_fresh_spec(&self) -> bool {
        if self.read_is_a {
            self.a_fresh
        } else {
            self.b_fresh
        }
    }

    /// Two fresh surfaces of the given size; the first pass reads A.
    pub fn new(width: u32, height: u32) -> (r: DecaySurfaces)
        ensures
            r == DecaySurfaces::new_spec(width, height),
    {
        DecaySurfaces { width, height, read_is_a: true, a_fresh: true, b_fresh: true }
    }

    /// Records one compositing pass: returns the binding it uses, marks the
    /// surface it writes as no longer fresh, and flips which surface is read.
    pub fn composite(&mut self) -> (b: Binding)
        ensures
            b == (if old(self).read_is_a {
                Binding::Front
            } else {
                Binding::Back
            }),
            final(self).read_is_a == !old(self).read_is_a,
            final(self).width == old(self).width,
            final(self).height == old(self).height,
            old(self).read_is_a ==> final(self).a_fresh == old(self).a_fresh && !final(self).b_fresh,
            !old(self).read_is_a ==> final(self).b_fresh == old(self).b_fresh && !final(self).a_fresh,
            !final(self).read_fresh_spec(),
    {
        let b = if self.read_is_a {
            self.b_fresh = false;
            Binding::Front
        } else {
            self.a_fresh = false;
            Binding::Back
        };
        self.read_is_a = !self.read_is_a;
        b
    }

    /// Discards both surfaces and takes two fresh ones of the new size: the
    /// trail drawn so far is lost, and the next pass reads a fresh surface.
    pub fn resize(&mut self, width: u32, height: u32)
        ensures
            *final(self) == DecaySurfaces::new_spec(width, height),
            final(self).read_fresh_spec(),
    {
        *self = DecaySurfaces::new(width, height);
    }

    pub open spec fn new_spec(width: u32, height: u32) -> DecaySurfaces {
        DecaySurfaces { width, height, read_is_a: true, a_fresh: true, b_fresh: true }
    }

    /// Whether the surface that the next pass reads holds its reset value.
    pub fn read_fresh(&self) -> (r: bool)
        ensures
            r == self.read_fresh_spec(),
    {
        if self.read_is_a {
            self.a_fresh
        } else {
            self.b_fresh
        }
    }
}

} // verus!
