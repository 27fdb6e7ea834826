//! The project model: what one composed video consists of, with the
//! mathematical view that the contracts of the crate are stated over.

use vstd::prelude::*;
use crate::decimal::Decimal;
use crate::text::starts_with;

verus! {

/// Frame geometry and background of the video.
#[derive(Debug, Clone, PartialEq, Eq)]
pub struct Video {
    /// Frame width in pixels.
    pub width: u16,
    /// Frame height in pixels.
    pub height: u16,
    /// Horizontal crop offset in pixels, used with a background asset.
    pub crop_x: Decimal,
    /// Vertical crop offset in pixels, used with a background asset.
    pub crop_y: Decimal,
    /// Path of a background asset, or a `color=<spec>` directive.
    pub background: String,
    /// Offset in seconds at which the background asset starts.
    pub background_start_time: Decimal,
}

/// Background music.
#[derive(Debug, Clone, PartialEq, Eq)]
pub struct Music {
    /// Path of the audio asset; empty where there is no music.
    pub audio: String,
    /// Playback volume multiplier.
    pub volume: Decimal,
    /// Offset in seconds at which the audio asset starts.
    pub start_time: Decimal,
}

/// Progress bar along the bottom edge.
#[derive(Debug, Clone, PartialEq, Eq)]
pub struct ProgressBar {
    /// Whether a bar is drawn at all.
    pub enable: bool,
    /// Whether an opaque full-width track lies beneath the bar.
    pub solid: bool,
    /// Bar height in pixels.
    pub height: u16,
    /// Bar color, hex or named.
    pub color: String,
}

/// One timed unit of the video: an image shown while a speech clip plays.
#[derive(Debug, Clone, PartialEq, Eq)]
pub struct OverlayMeta {
    /// Path of the image asset.
    pub image: String,
    /// Path of the speech asset.
    pub audio: String,
    /// How long the image is shown, in seconds.
    pub duration: Decimal,
}

/// The overlay images and how they are laid over the background.
#[derive(Debug, Clone, PartialEq, Eq)]
pub struct Overlay {
    /// Opacity of every overlay image, from 0 to 1.
    pub opacity: Decimal,
    /// Pixels kept free on each side of an overlay image.
    pub padding: u16,
    /// The segments, in the order in which they are shown.
    pub overlays: Vec<OverlayMeta>,
}

/// Everything that describes one video.
#[derive(Debug, Clone, PartialEq, Eq)]
pub struct Project {
    pub video: Video,
    pub music: Music,
    pub progress_bar: ProgressBar,
    pub overlay: Overlay,
}

/// Mathematical view of [`Video`].
pub struct VideoView {
    pub width: u16,
    pub height: u16,
    pub crop_x: Decimal,
    pub crop_y: Decimal,
    pub background: Seq<char>,
    pub background_start_time: Decimal,
}

/// Mathematical view of [`Music`].
pub struct MusicView {
    pub audio: Seq<char>,
    pub volume: Decimal,
    pub start_time: Decimal,
}

/// Mathematical view of [`ProgressBar`].
pub struct ProgressBarView {
    pub enable: bool,
    pub solid: bool,
    pub height: u16,
    pub color: Seq<char>,
}

/// Mathematical view of [`OverlayMeta`].
pub struct OverlayMetaView {
    pub image: Seq<char>,
    pub audio: Seq<char>,
    pub duration: Decimal,
}

/// Mathematical view of [`Overlay`].
pub struct OverlayView {
    pub opacity: Decimal,
    pub padding: u16,
    pub overlays: Seq<OverlayMetaView>,
}

/// Mathematical view of [`Project`].
pub struct ProjectView {
    pub video: VideoView,
    pub music: MusicView,
    pub progress_bar: ProgressBarView,
    pub overlay: OverlayView,
}

impl View for Video {
    type V = VideoView;

    open spec fn view(&self) -> VideoView {
        VideoView {
            width: self.width,
            height: self.height,
            crop_x: self.crop_x,
            crop_y: self.crop_y,
            background: self.background@,
            background_start_time: self.background_start_time,
        }
    }
}

impl View for Music {
    type V = MusicView;

    open spec fn view(&self) -> MusicView {
        MusicView { audio: self.audio@, volume: self.volume, start_time: self.start_time }
    }
}

impl View for ProgressBar {
    type V = ProgressBarView;

    open spec fn view(&self) -> ProgressBarView {
        ProgressBarView {
            enable: self.enable,
            solid: self.solid,
            height: self.height,
            color: self.color@,
        }
    }
}

impl View for OverlayMeta {
    type V = OverlayMetaView;

    open spec fn view(&self) -> OverlayMetaView {
        OverlayMetaView { image: self.image@, audio: self.audio@, duration: self.duration }
    }
}

impl View for Overlay {
    type V = OverlayView;

    open spec fn view(&self) -> OverlayView {
        OverlayView {
            opacity: self.opacity,
            padding: self.padding,
            overlays: self.overlays@.map_values(|m: OverlayMeta| m@),
        }
    }
}

impl View for Project {
    type V = ProjectView;

    open spec fn view(&self) -> ProjectView {
        ProjectView {
            video: self.video@,
            music: self.music@,
            progress_bar: self.progress_bar@,
            overlay: self.overlay@,
        }
    }
}

/// Sum of the durations of `segments`, in millionths of a second.
pub open spec fn total_units(segments: Seq<OverlayMetaView>) -> nat
    decreases segments.len(),
{
    if segments.len() == 0 {
        0
    } else {
        total_units(segments.drop_last()) + segments.last().duration.units as nat
    }
}

/// What a new project holds before anything is configured.
pub open spec fn default_project() -> ProjectView {
    ProjectView {
        video: VideoView {
            width: 1080,
            height: 1920,
            crop_x: Decimal { units: 1_166_600_000 },
            crop_y: Decimal { units: 0 },
            background: "color=white"@,
            background_start_time: Decimal { units: 0 },
        },
        music: MusicView {
            audio: Seq::empty(),
            volume: Decimal { units: 100_000 },
            start_time: Decimal { units: 0 },
        },
        progress_bar: ProgressBarView {
            enable: true,
            solid: false,
            height: 10,
            color: "#FF4500"@,
        },
        overlay: OverlayView {
            opacity: Decimal { units: 1_000_000 },
            padding: 100,
            overlays: Seq::empty(),
        },
    }
}

impl ProjectView {
    /// The background is an asset to read, not a color to synthesize.
    pub open spec fn has_background(self) -> bool {
        !"color="@.is_prefix_of(self.video.background)
    }

    /// There is background music.
    pub open spec fn has_bgm(self) -> bool {
        self.music.audio.len() > 0
    }

    /// Total planned duration in millionths of a second.
    pub open spec fn total(self) -> nat {
        total_units(self.overlay.overlays)
    }
}

/// A sum of `n` durations is at most `n` times the largest `u64`.
pub proof fn lemma_total_bound(segments: Seq<OverlayMetaView>)
    ensures
        total_units(segments) <= segments.len() * u64::MAX,
    decreases segments.len(),
{
    if segments.len() > 0 {
        lemma_total_bound(segments.drop_last());
        assert(total_units(segments) <= segments.len() * u64::MAX) by (nonlinear_arith)
            requires
                total_units(segments) <= total_units(segments.drop_last()) + u64::MAX,
                total_units(segments.drop_last()) <= (segments.len() - 1) * u64::MAX,
        ;
    }
}

/// The total of two timelines laid end to end is the sum of their totals.
pub proof fn lemma_total_concat(a: Seq<OverlayMetaView>, b: Seq<OverlayMetaView>)
    ensures
        total_units(a + b) == total_units(a) + total_units(b),
    decreases b.len(),
{
    if b.len() == 0 {
        assert(a + b =~= a);
    } else {
        lemma_total_concat(a, b.drop_last());
        assert((a + b).drop_last() =~= a + b.drop_last());
    }
}

/// Taking one segment out lowers the total by the duration of that segment.
pub proof fn lemma_total_remove(segments: Seq<OverlayMetaView>, at: int)
    requires
        0 <= at < segments.len(),
    ensures
        total_units(segments) == total_units(segments.remove(at)) + segments[at].duration.units,
    decreases segments.len(),
{
    if at == segments.len() - 1 {
        assert(segments.remove(at) =~= segments.drop_last());
    } else {
        lemma_total_remove(segments.drop_last(), at);
        assert(segments.remove(at).drop_last() =~= segments.drop_last().remove(at));
    }
}

/// The total planned duration is the exact sum of the durations whatever
/// the order of the segments: two timelines that hold the same segments,
/// each as often as the other, have the same total. The empty timeline has
/// the total zero.
pub proof fn lemma_total_order_free(a: Seq<OverlayMetaView>, b: Seq<OverlayMetaView>)
    requires
        a.to_multiset() == b.to_multiset(),
    ensures
        total_units(a) == total_units(b),
        total_units(Seq::empty()) == 0,
    decreases a.len(),
{
    broadcast use vstd::seq_lib::group_to_multiset_ensures;

    a.to_multiset_ensures();
    b.to_multiset_ensures();
    if a.len() == 0 {
        assert(b.len() == 0);
        assert(a =~= b);
    } else {
        let x = a.last();
        assert(a =~= a.drop_last().push(x));
        assert(a.to_multiset() =~= a.drop_last().to_multiset().insert(x));
        assert(b.to_multiset().count(x) > 0);
        assert(b.contains(x));
        let at = choose|at: int| 0 <= at < b.len() && b[at] == x;
        assert(b.remove(at).to_multiset() =~= a.drop_last().to_multiset());
        lemma_total_order_free(a.drop_last(), b.remove(at));
        lemma_total_remove(b, at);
    }
}

impl Default for Project {
    /// 1080 by 1920 on white, no music at a tenth of the volume, an orange
    /// bar of ten pixels, opaque overlays with a padding of 100, no segment.
    fn default() -> (project: Project)
        ensures
            project@ == default_project(),
    {
        let project = Project {
            video: Video {
                width: 1080,
                height: 1920,
                crop_x: Decimal { units: 1_166_600_000 },
                crop_y: Decimal { units: 0 },
                background: String::from_str("color=white"),
                background_start_time: Decimal { units: 0 },
            },
            music: Music {
                audio: String::new(),
                volume: Decimal { units: 100_000 },
                start_time: Decimal { units: 0 },
            },
            progress_bar: ProgressBar {
                enable: true,
                solid: false,
                height: 10,
                color: String::from_str("#FF4500"),
            },
            overlay: Overlay {
                opacity: Decimal { units: 1_000_000 },
                padding: 100,
                overlays: Vec::new(),
            },
        };
        assert(project@.overlay.overlays =~= Seq::empty());
        project
    }
}

impl Project {
    /// Appends a segment to the end of the timeline.
    pub fn add_overlay(&mut self, image: &str, tts: &str, duration: Decimal)
        ensures
            final(self)@ == (ProjectView {
                overlay: OverlayView {
                    overlays: old(self)@.overlay.overlays.push(
                        OverlayMetaView { image: image@, audio: tts@, duration },
                    ),
                    ..old(self)@.overlay
                },
                ..old(self)@
            }),
            final(self)@.total() == old(self)@.total() + duration.units,
    {
        let segment = OverlayMeta {
            image: String::from_str(image),
            audio: String::from_str(tts),
            duration,
        };
        self.overlay.overlays.push(segment);
        proof {
            let grown = old(self)@.overlay.overlays.push(
                OverlayMetaView { image: image@, audio: tts@, duration },
            );
            assert(self@.overlay.overlays =~= grown);
            assert(grown.drop_last() =~= old(self)@.overlay.overlays);
        }
    }

    /// Total planned duration: the sum of the durations of all segments, in
    /// millionths of a second.
    pub fn len(&self) -> (total: u128)
        ensures
            total == self@.total(),
    {
        let mut total: u128 = 0;
        let mut i: usize = 0;
        let ghost segments = self@.overlay.overlays;
        assert(segments.take(0) =~= Seq::empty());
        while i < self.overlay.overlays.len()
            invariant
                i <= self.overlay.overlays.len(),
                segments == self@.overlay.overlays,
                total == total_units(segments.take(i as int)),
            decreases self.overlay.overlays.len() - i,
        {
            proof {
                let next = segments.take(i + 1);
                assert(next.drop_last() =~= segments.take(i as int));
                assert(next.last() == self.overlay.overlays@[i as int]@);
                lemma_total_bound(segments.take(i as int));
                assert(total + u64::MAX <= u128::MAX) by (nonlinear_arith)
                    requires
                        total <= i * u64::MAX,
                        i < usize::MAX,
                        usize::MAX <= u64::MAX,
                ;
            }
            total = total + self.overlay.overlays[i].duration.units as u128;
            i += 1;
        }
        assert(segments.take(i as int) =~= segments);
        total
    }

    /// Whether the background is an asset to read rather than a color to
    /// synthesize.
    pub fn has_background(&self) -> (yes: bool)
        ensures
            yes == self@.has_background(),
    {
        !starts_with(self.video.background.as_str(), "color=")
    }

    /// Whether there is background music.
    pub fn has_bgm(&self) -> (yes: bool)
        ensures
            yes == self@.has_bgm(),
    {
        !self.music.audio.as_str().is_empty()
    }
}

} // verus!
