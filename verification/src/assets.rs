//! The assets that a project refers to, and the test that all of them are
//! there before anything is rendered.

use vstd::prelude::*;
use crate::command::{arg_views, push_owned};
use crate::output::{is_taken, name_is_taken};
use crate::video::{OverlayMetaView, Project, ProjectView};

verus! {

/// An asset that the project refers to is not there.
#[derive(Debug, Clone, PartialEq, Eq)]
pub struct AssetMissingError {
    /// The path of the asset.
    pub path: String,
}

/// The image and the speech clip of each of `segments`, in order.
pub open spec fn segment_assets(segments: Seq<OverlayMetaView>) -> Seq<Seq<char>>
    decreases segments.len(),
{
    if segments.len() == 0 {
        Seq::empty()
    } else {
        segment_assets(segments.drop_last()) + seq![segments.last().image, segments.last().audio]
    }
}

impl ProjectView {
    /// The paths that the project refers to: the background if it is an
    /// asset, the image and the speech clip of each segment, the music if
    /// there is any.
    pub open spec fn assets(self) -> Seq<Seq<char>> {
        (if self.has_background() {
            seq![self.video.background]
        } else {
            Seq::empty()
        }) + segment_assets(self.overlay.overlays) + (if self.has_bgm() {
            seq![self.music.audio]
        } else {
            Seq::empty()
        })
    }
}

/// `at` is the place of the first of `assets` that is not among `present`.
pub open spec fn is_first_missing(assets: Seq<Seq<char>>, present: Seq<String>, at: int) -> bool {
    &&& 0 <= at < assets.len()
    &&& !is_taken(present, assets[at])
    &&& forall|j: int| 0 <= j < at ==> is_taken(present, #[trigger] assets[j])
}

impl Project {
    /// The paths that the project refers to, in the order background,
    /// segments, music.
    pub fn assets(&self) -> (assets: Vec<String>)
        ensures
            arg_views(assets@) == self@.assets(),
    {
        let mut assets: Vec<String> = Vec::new();
        assert(arg_views(assets@) =~= Seq::empty());
        if self.has_background() {
            push_owned(&mut assets, self.video.background.clone());
        }
        let ghost segments = self@.overlay.overlays;
        let ghost before = arg_views(assets@);
        let mut i: usize = 0;
        proof {
            assert(segments.take(0) =~= Seq::empty());
            assert(before =~= (if self@.has_background() {
                seq![self@.video.background]
            } else {
                Seq::empty()
            }));
            assert(before + segment_assets(segments.take(0)) =~= before);
        }
        while i < self.overlay.overlays.len()
            invariant
                i <= self.overlay.overlays.len(),
                segments == self@.overlay.overlays,
                arg_views(assets@) == before + segment_assets(segments.take(i as int)),
            decreases self.overlay.overlays.len() - i,
        {
            push_owned(&mut assets, self.overlay.overlays[i].image.clone());
            push_owned(&mut assets, self.overlay.overlays[i].audio.clone());
            proof {
                let next = segments.take(i + 1);
                assert(next.drop_last() =~= segments.take(i as int));
                assert(next.last() == self.overlay.overlays@[i as int]@);
                assert(arg_views(assets@) =~= before + segment_assets(next));
            }
            i += 1;
        }
        assert(segments.take(i as int) =~= segments);
        let ghost listed = arg_views(assets@);
        if self.has_bgm() {
            push_owned(&mut assets, self.music.audio.clone());
            assert(arg_views(assets@) =~= listed + seq![self@.music.audio]);
        } else {
            assert(listed + Seq::<Seq<char>>::empty() =~= listed);
        }
        assets
    }

    /// Tests that every asset of the project is among the paths `present`
    /// that were found to exist. Fails with the first that is not.
    pub fn check_assets(&self, present: &Vec<String>) -> (r: Result<(), AssetMissingError>)
        ensures
            match r {
                Ok(_) => forall|j: int|
                    0 <= j < self@.assets().len() ==> is_taken(
                        present@,
                        #[trigger] self@.assets()[j],
                    ),
                Err(e) => exists|at: int|
                    is_first_missing(self@.assets(), present@, at) && e.path@
                        == #[trigger] self@.assets()[at],
            },
    {
        let assets = self.assets();
        let mut i: usize = 0;
        while i < assets.len()
            invariant
                i <= assets.len(),
                arg_views(assets@) == self@.assets(),
                forall|j: int| 0 <= j < i ==> is_taken(present@, #[trigger] self@.assets()[j]),
            decreases assets.len() - i,
        {
            assert(arg_views(assets@)[i as int] == assets@[i as int]@);
            if !name_is_taken(present, &assets[i]) {
                assert(is_first_missing(self@.assets(), present@, i as int));
                return Err(AssetMissingError { path: assets[i].clone() });
            }
            i += 1;
        }
        Ok(())
    }
}

} // verus!
