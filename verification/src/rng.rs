//! The source of random draws that the generator consumes.
//!
//! A `DrawSource` holds a finite, pre-drawn sequence of raw values and a
//! cursor. Consuming a draw past the end of the sequence yields 0, so
//! evaluation is total; the caller sizes the sequence to the template.
//! Everything the generator produces is a deterministic function of the
//! draw sequence, which is what makes generation reproducible from a
//! scripted sequence of draws.
use vstd::prelude::*;

verus! {

/// The raw value of the draw at `pos`: the recorded value while draws
/// remain, and 0 once the sequence is exhausted.
pub open spec fn draw_at(draws: Seq<usize>, pos: nat) -> usize {
    if pos < draws.len() {
        draws[pos as int]
    } else {
        0
    }
}

/// The cursor after consuming one draw at `pos`.
pub open spec fn next_pos(draws: Seq<usize>, pos: nat) -> nat {
    if pos < draws.len() {
        pos + 1
    } else {
        pos
    }
}

/// The index in `0..n` selected by the draw at `pos`: the draw reduced
/// modulo the number of choices.
pub open spec fn pick_at(draws: Seq<usize>, pos: nat, n: nat) -> nat {
    if n == 0 {
        0
    } else {
        (draw_at(draws, pos) as nat) % n
    }
}

/// A finite sequence of pre-drawn random values with a cursor.
pub struct DrawSource {
    /// The recorded draws.
    pub draws: Vec<usize>,
    /// How many draws have been consumed.
    pub pos: usize,
}

impl DrawSource {
    /// A draw source that replays exactly the given values, in order.
    pub fn new(draws: Vec<usize>) -> (r: DrawSource)
        ensures
            r.draws@ == draws@,
            r.pos == 0,
    {
        DrawSource { draws, pos: 0 }
    }

    /// Consume and return one raw draw.
    pub fn next(&mut self) -> (r: usize)
        ensures
            r == draw_at(old(self).draws@, old(self).pos as nat),
            final(self).draws@ == old(self).draws@,
            final(self).pos as nat == next_pos(old(self).draws@, old(self).pos as nat),
    {
        if self.pos < self.draws.len() {
            let v = self.draws[self.pos];
            self.pos = self.pos + 1;
            v
        } else {
            0
        }
    }

    /// Consume one draw and reduce it to an index in `0..n`.
    pub fn pick(&mut self, n: usize) -> (r: usize)
        requires
            n > 0,
        ensures
            r as nat == pick_at(old(self).draws@, old(self).pos as nat, n as nat),
            r < n,
            final(self).draws@ == old(self).draws@,
            final(self).pos as nat == next_pos(old(self).draws@, old(self).pos as nat),
    {
        let v = self.next();
        v % n
    }
}

} // verus!
