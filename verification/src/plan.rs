//! The stream index plan: which positional input of the encoder each
//! logical input of a project is.

use vstd::prelude::*;

verus! {

/// Positional input index of every logical input, derived once per
/// compilation from the optional features and the number of segments.
///
/// Inputs come in this order: the background asset if there is one, the
/// image of each segment, the concatenated speech track, the music if there
/// is any.
#[derive(Clone, Copy, Debug, PartialEq, Eq)]
pub struct StreamIndexPlan {
    /// Index of the background asset, if the project has one.
    pub background: Option<u128>,
    /// Index of the image of the first segment.
    pub first_image: u128,
    /// Number of segment images.
    pub images: u128,
    /// Index of the concatenated speech track.
    pub speech: u128,
    /// Index of the background music, if the project has any.
    pub music: Option<u128>,
}

/// The plan for a project with `segments` segments.
pub open spec fn plan_for(has_background: bool, has_music: bool, segments: nat) -> StreamIndexPlan {
    let first_image: nat = if has_background {
        1
    } else {
        0
    };
    StreamIndexPlan {
        background: if has_background {
            Some(0u128)
        } else {
            None
        },
        first_image: first_image as u128,
        images: segments as u128,
        speech: (first_image + segments) as u128,
        music: if has_music {
            Some((first_image + segments + 1) as u128)
        } else {
            None
        },
    }
}

impl StreamIndexPlan {
    /// Index of the image of segment `i`.
    pub open spec fn image_index(self, i: int) -> u128 {
        (self.first_image + i) as u128
    }

    /// The plan is the plan of some project: made by [`StreamIndexPlan::new`]
    /// and not changed since.
    pub open spec fn is_plan(self) -> bool {
        self.images <= usize::MAX && self == plan_for(
            self.background is Some,
            self.music is Some,
            self.images as nat,
        )
    }

    /// Number of inputs that the plan assigns.
    pub open spec fn input_count(self) -> nat {
        (self.speech + 1 + if self.music is Some {
            1nat
        } else {
            0nat
        }) as nat
    }

    /// The plan for `segments` segments with or without a background asset
    /// and music.
    pub fn new(has_background: bool, has_music: bool, segments: usize) -> (plan: StreamIndexPlan)
        ensures
            plan == plan_for(has_background, has_music, segments as nat),
            plan.is_plan(),
    {
        let first_image: u128 = if has_background {
            1
        } else {
            0
        };
        let speech: u128 = first_image + segments as u128;
        StreamIndexPlan {
            background: if has_background {
                Some(0)
            } else {
                None
            },
            first_image,
            images: segments as u128,
            speech,
            music: if has_music {
                Some(speech + 1)
            } else {
                None
            },
        }
    }

    /// Index of the image of segment `i`.
    pub fn image(&self, i: usize) -> (index: u128)
        requires
            self.is_plan(),
        ensures
            index == self.image_index(i as int),
    {
        self.first_image + i as u128
    }
}

} // verus!
