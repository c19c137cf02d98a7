//! One image-guessing round: image metadata, the normalized secret answer,
//! and the circles drawn so far.

use vstd::prelude::*;
use crate::events::Circle;
use crate::text::{hint_of, lower_of, make_hint, normalize, normalized};

verus! {

/// A round in progress. The answer is stored lowercase-normalized; the image
/// payload is an opaque blob passed through to clients unchanged.
pub struct Round {
    pub circles: Vec<Circle>,
    pub image_data: Vec<u8>,
    pub image_dimensions: (u32, u32),
    pub answer: String,
}

impl Round {
    /// A fresh round: no circles drawn yet, and the answer stored in its
    /// lowercase form.
    pub fn new(image_data: Vec<u8>, image_dimensions: (u32, u32), answer: &str) -> (r: Round)
        ensures
            r.circles@ == Seq::<Circle>::empty(),
            r.image_data == image_data,
            r.image_dimensions == image_dimensions,
            r.answer@ == lower_of(answer@),
    {
        let lowered = crate::text::lowercase(answer);
        let circles: Vec<Circle> = Vec::new();
        proof {
            assert(circles@ =~= Seq::<Circle>::empty());
        }
        Round { circles, image_data, image_dimensions, answer: lowered }
    }

    /// Appends one circle; circles are append-only within a round.
    pub fn add_circle(&mut self, circle: Circle)
        ensures
            final(self).circles@ == old(self).circles@.push(circle),
            final(self).image_data == old(self).image_data,
            final(self).image_dimensions == old(self).image_dimensions,
            final(self).answer == old(self).answer,
    {
        self.circles.push(circle);
    }

    /// The masked hint of the answer: alphanumerics hidden, word shape kept.
    pub fn answer_hint(&self) -> (r: String)
        ensures
            r@ == hint_of(self.answer@),
    {
        make_hint(self.answer.as_str())
    }

    /// Whether a guess matches the answer, after trim and case
    /// normalization.
    pub fn is_correct_answer(&self, s: &str) -> (r: bool)
        ensures
            r == (normalized(s@) == self.answer@),
    {
        let guess = normalize(s);
        guess == self.answer
    }
}

} // verus!
