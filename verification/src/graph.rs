//! The filter graph: the stages that compose a project's frames, their
//! order, and their text in the encoder's filter language.

use vstd::prelude::*;
use vstd::string::StringExecFns;
use crate::decimal::{push_units, units_text, Decimal};
use crate::plan::{plan_for, StreamIndexPlan};
use crate::text::{int_text, nat_text, push_int, push_nat};
use crate::video::{lemma_total_bound, total_units, OverlayMetaView, Project, ProjectView};

verus! {

/// Opacity in millionths from which overlays count as fully opaque and get
/// no alpha stage.
pub const OPAQUE_FROM: u64 = 990_000;

/// One stage of the filter graph. Every stage but the first reads the
/// stream `main` and binds its result to `main` again.
#[derive(Debug, Clone, PartialEq, Eq)]
#[allow(inconsistent_fields)]
pub enum Stage {
    /// Scales the background input to the frame height and crops it to the
    /// frame at the crop offset.
    Background { input: u128, width: u16, height: u16, crop_x: Decimal, crop_y: Decimal },
    /// Synthesizes a constant-color source of the frame size.
    Canvas { directive: String, width: u16, height: u16 },
    /// Scales an image input to `width` pixels wide into its own label.
    Scale { input: u128, width: i64 },
    /// Multiplies the alpha channel of a scaled image by `alpha`.
    Opacity { input: u128, alpha: Decimal },
    /// Lays a scaled image over the frame, centered, while the time in
    /// millionths of a second is between `start` and `end`.
    Composite { input: u128, start: u128, end: u128 },
    /// Synthesizes an opaque full-width track and lays it flush against the
    /// bottom right corner.
    BarTrack { width: u16, height: u16 },
    /// Synthesizes the bar and lets it sweep in from the left over `total`
    /// millionths of a second.
    ProgressBar { color: String, width: u16, height: u16, total: u128 },
}

/// Mathematical view of [`Stage`].
#[allow(inconsistent_fields)]
pub enum StageView {
    Background { input: u128, width: u16, height: u16, crop_x: Decimal, crop_y: Decimal },
    Canvas { directive: Seq<char>, width: u16, height: u16 },
    Scale { input: u128, width: i64 },
    Opacity { input: u128, alpha: Decimal },
    Composite { input: u128, start: u128, end: u128 },
    BarTrack { width: u16, height: u16 },
    ProgressBar { color: Seq<char>, width: u16, height: u16, total: u128 },
}

impl View for Stage {
    type V = StageView;

    open spec fn view(&self) -> StageView {
        match *self {
            Stage::Background { input, width, height, crop_x, crop_y } => StageView::Background {
                input,
                width,
                height,
                crop_x,
                crop_y,
            },
            Stage::Canvas { directive, width, height } => StageView::Canvas {
                directive: directive@,
                width,
                height,
            },
            Stage::Scale { input, width } => StageView::Scale { input, width },
            Stage::Opacity { input, alpha } => StageView::Opacity { input, alpha },
            Stage::Composite { input, start, end } => StageView::Composite { input, start, end },
            Stage::BarTrack { width, height } => StageView::BarTrack { width, height },
            Stage::ProgressBar { color, width, height, total } => StageView::ProgressBar {
                color: color@,
                width,
                height,
                total,
            },
        }
    }
}

impl StageView {
    /// The stage in the encoder's filter language, without a delimiter at
    /// its end.
    pub open spec fn text(self) -> Seq<char> {
        match self {
            StageView::Background { input, width, height, crop_x, crop_y } => "["@ + nat_text(
                input as nat,
            ) + ":v]scale=-1:"@ + nat_text(height as nat) + ",crop="@ + nat_text(width as nat)
                + ":"@ + nat_text(height as nat) + ":"@ + units_text(crop_x.units as nat) + ":"@
                + units_text(crop_y.units as nat) + "[main]"@,
            StageView::Canvas { directive, width, height } => directive + ":s="@ + nat_text(
                width as nat,
            ) + "x"@ + nat_text(height as nat) + "[main]"@,
            StageView::Scale { input, width } => "["@ + nat_text(input as nat) + ":v]scale="@
                + int_text(width as int) + ":-1[overlay"@ + nat_text(input as nat) + "]"@,
            StageView::Opacity { input, alpha } => "[overlay"@ + nat_text(input as nat)
                + "]format=argb,colorchannelmixer=aa="@ + units_text(alpha.units as nat)
                + "[overlay"@ + nat_text(input as nat) + "]"@,
            StageView::Composite { input, start, end } => "[main][overlay"@ + nat_text(
                input as nat,
            ) + "]overlay=(main_w-overlay_w)/2:(main_h-overlay_h)/2:enable='between(t,"@
                + units_text(start as nat) + ","@ + units_text(end as nat) + ")'[main]"@,
            StageView::BarTrack { width, height } => "color=c=#525252:s="@ + nat_text(
                width as nat,
            ) + "x"@ + nat_text(height as nat)
                + "[solid_bar];[main][solid_bar]overlay=main_w-overlay_w:main_h-overlay_h:shortest=1[main]"@,
            StageView::ProgressBar { color, width, height, total } => "color=c="@ + color + ":s="@
                + nat_text(width as nat) + "x"@ + nat_text(height as nat)
                + "[overlay_bar];[main][overlay_bar]overlay=-w+(w/"@ + units_text(total as nat)
                + ")*t:H-h:shortest=1[main]"@,
        }
    }
}

/// The text of a filter graph: the texts of its stages, in order, with a
/// semicolon between one stage and the next.
pub open spec fn graph_text(stages: Seq<StageView>) -> Seq<char>
    decreases stages.len(),
{
    if stages.len() == 0 {
        Seq::empty()
    } else if stages.len() == 1 {
        stages[0].text()
    } else {
        graph_text(stages.drop_last()) + ";"@ + stages.last().text()
    }
}

impl Stage {
    /// Appends the text of the stage to `out`.
    pub fn write(&self, out: &mut String)
        ensures
            final(out)@ == old(out)@ + self@.text(),
    {
        match self {
            Stage::Background { input, width, height, crop_x, crop_y } => {
                out.append("[");
                push_nat(out, *input);
                out.append(":v]scale=-1:");
                push_nat(out, *height as u128);
                out.append(",crop=");
                push_nat(out, *width as u128);
                out.append(":");
                push_nat(out, *height as u128);
                out.append(":");
                push_units(out, crop_x.units as u128);
                out.append(":");
                push_units(out, crop_y.units as u128);
                out.append("[main]");
            },
            Stage::Canvas { directive, width, height } => {
                out.append(directive.as_str());
                out.append(":s=");
                push_nat(out, *width as u128);
                out.append("x");
                push_nat(out, *height as u128);
                out.append("[main]");
            },
            Stage::Scale { input, width } => {
                out.append("[");
                push_nat(out, *input);
                out.append(":v]scale=");
                push_int(out, *width);
                out.append(":-1[overlay");
                push_nat(out, *input);
                out.append("]");
            },
            Stage::Opacity { input, alpha } => {
                out.append("[overlay");
                push_nat(out, *input);
                out.append("]format=argb,colorchannelmixer=aa=");
                push_units(out, alpha.units as u128);
                out.append("[overlay");
                push_nat(out, *input);
                out.append("]");
            },
            Stage::Composite { input, start, end } => {
                out.append("[main][overlay");
                push_nat(out, *input);
                out.append(
                    "]overlay=(main_w-overlay_w)/2:(main_h-overlay_h)/2:enable='between(t,",
                );
                push_units(out, *start);
                out.append(",");
                push_units(out, *end);
                out.append(")'[main]");
            },
            Stage::BarTrack { width, height } => {
                out.append("color=c=#525252:s=");
                push_nat(out, *width as u128);
                out.append("x");
                push_nat(out, *height as u128);
                out.append(
                    "[solid_bar];[main][solid_bar]overlay=main_w-overlay_w:main_h-overlay_h:shortest=1[main]",
                );
            },
            Stage::ProgressBar { color, width, height, total } => {
                out.append("color=c=");
                out.append(color.as_str());
                out.append(":s=");
                push_nat(out, *width as u128);
                out.append("x");
                push_nat(out, *height as u128);
                out.append("[overlay_bar];[main][overlay_bar]overlay=-w+(w/");
                push_units(out, *total);
                out.append(")*t:H-h:shortest=1[main]");
            },
        }
    }
}

/// The views of `stages`, in order.
pub open spec fn stage_views(stages: Seq<Stage>) -> Seq<StageView> {
    stages.map_values(|s: Stage| s@)
}

impl ProjectView {
    /// The stream index plan of the project.
    pub open spec fn plan(self) -> StreamIndexPlan {
        plan_for(self.has_background(), self.has_bgm(), self.overlay.overlays.len())
    }

    /// When segment `i` becomes visible, in millionths of a second from the
    /// start: the sum of the durations of the segments before it.
    pub open spec fn window_start(self, i: int) -> nat {
        total_units(self.overlay.overlays.take(i))
    }

    /// When segment `i` stops being visible.
    pub open spec fn window_end(self, i: int) -> nat {
        total_units(self.overlay.overlays.take(i + 1))
    }

    /// Width of a scaled overlay image: the frame width less the padding on
    /// both sides.
    pub open spec fn overlay_width(self) -> int {
        self.video.width - 2 * self.overlay.padding
    }

    /// Overlays are opaque enough to go without an alpha stage.
    pub open spec fn opaque(self) -> bool {
        self.overlay.opacity.units >= OPAQUE_FROM
    }

    /// The stage that produces the first `main`.
    pub open spec fn background_stage(self) -> StageView {
        if self.has_background() {
            StageView::Background {
                input: self.plan().background->0,
                width: self.video.width,
                height: self.video.height,
                crop_x: self.video.crop_x,
                crop_y: self.video.crop_y,
            }
        } else {
            StageView::Canvas {
                directive: self.video.background,
                width: self.video.width,
                height: self.video.height,
            }
        }
    }

    /// The stages of segment `i`: scale, alpha unless opaque, composite.
    pub open spec fn segment_stages(self, i: int) -> Seq<StageView> {
        let input = self.plan().image_index(i);
        let scale = StageView::Scale { input, width: self.overlay_width() as i64 };
        let composite = StageView::Composite {
            input,
            start: self.window_start(i) as u128,
            end: self.window_end(i) as u128,
        };
        if self.opaque() {
            seq![scale, composite]
        } else {
            seq![scale, StageView::Opacity { input, alpha: self.overlay.opacity }, composite]
        }
    }

    /// The stages of the first `n` segments, in segment order.
    pub open spec fn overlay_stages(self, n: nat) -> Seq<StageView>
        decreases n,
    {
        if n == 0 {
            Seq::empty()
        } else {
            self.overlay_stages((n - 1) as nat) + self.segment_stages(n - 1)
        }
    }

    /// The stages of the progress bar: none unless enabled, the track first
    /// where it is solid.
    pub open spec fn bar_stages(self) -> Seq<StageView> {
        let bar = StageView::ProgressBar {
            color: self.progress_bar.color,
            width: self.video.width,
            height: self.progress_bar.height,
            total: self.total() as u128,
        };
        if !self.progress_bar.enable {
            Seq::empty()
        } else if self.progress_bar.solid {
            seq![
                StageView::BarTrack { width: self.video.width, height: self.progress_bar.height },
                bar,
            ]
        } else {
            seq![bar]
        }
    }

    /// All stages of the video filter graph, in order: background, the
    /// segments, the progress bar.
    pub open spec fn stages(self) -> Seq<StageView> {
        seq![self.background_stage()] + self.overlay_stages(self.overlay.overlays.len())
            + self.bar_stages()
    }

    /// The video filter graph as text.
    pub open spec fn filter_graph(self) -> Seq<char> {
        graph_text(self.stages())
    }

    /// The audio mix expression of a project with music: the music at its
    /// volume, merged with the speech track.
    pub open spec fn audio_mix(self) -> Seq<char> {
        "["@ + nat_text(self.plan().music->0 as nat) + ":a]volume="@ + units_text(
            self.music.volume.units as nat,
        ) + "[bgm];["@ + nat_text(self.plan().speech as nat) + ":a][bgm]amerge=inputs=2[bgm]"@
    }
}

/// The text of the filter graph made of `stages`.
pub fn render_graph(stages: &Vec<Stage>) -> (text: String)
    ensures
        text@ == graph_text(stage_views(stages@)),
{
    let mut text = String::new();
    let ghost views = stage_views(stages@);
    let mut i: usize = 0;
    assert(views.take(0) =~= Seq::<StageView>::empty());
    while i < stages.len()
        invariant
            i <= stages.len(),
            views == stage_views(stages@),
            text@ == graph_text(views.take(i as int)),
        decreases stages.len() - i,
    {
        if i > 0 {
            text.append(";");
        }
        stages[i].write(&mut text);
        proof {
            let next = views.take(i + 1);
            assert(next.drop_last() =~= views.take(i as int));
            assert(next.last() == stages@[i as int]@);
            if i == 0 {
                assert(text@ =~= stages@[i as int]@.text());
            }
        }
        i += 1;
    }
    assert(views.take(i as int) =~= views);
    text
}

impl Project {
    /// The stream index plan of the project.
    pub fn index_plan(&self) -> (plan: StreamIndexPlan)
        ensures
            plan == self@.plan(),
    {
        StreamIndexPlan::new(self.has_background(), self.has_bgm(), self.overlay.overlays.len())
    }

    /// The stages of the video filter graph, with the indices of `plan`.
    pub(crate) fn stages_with(&self, plan: &StreamIndexPlan) -> (stages: Vec<Stage>)
        requires
            *plan == self@.plan(),
        ensures
            stage_views(stages@) == self@.stages(),
    {
        let mut stages: Vec<Stage> = Vec::new();
        match plan.background {
            Some(input) => {
                stages.push(
                    Stage::Background {
                        input,
                        width: self.video.width,
                        height: self.video.height,
                        crop_x: self.video.crop_x,
                        crop_y: self.video.crop_y,
                    },
                );
            },
            None => {
                stages.push(
                    Stage::Canvas {
                        directive: self.video.background.clone(),
                        width: self.video.width,
                        height: self.video.height,
                    },
                );
            },
        }
        let width: i64 = self.video.width as i64 - 2 * (self.overlay.padding as i64);
        let opaque = self.overlay.opacity.units >= OPAQUE_FROM;
        let ghost segments = self@.overlay.overlays;
        let mut start: u128 = 0;
        let mut i: usize = 0;
        proof {
            assert(segments.take(0) =~= Seq::empty());
            assert(stage_views(stages@) =~= seq![self@.background_stage()] + self@.overlay_stages(0));
        }
        while i < self.overlay.overlays.len()
            invariant
                i <= self.overlay.overlays.len(),
                *plan == self@.plan(),
                segments == self@.overlay.overlays,
                width == self@.overlay_width(),
                opaque == self@.opaque(),
                start == self@.window_start(i as int),
                stage_views(stages@) == seq![self@.background_stage()] + self@.overlay_stages(
                    i as nat,
                ),
            decreases self.overlay.overlays.len() - i,
        {
            let ghost before = stage_views(stages@);
            let segment = &self.overlay.overlays[i];
            let input = plan.first_image + i as u128;
            proof {
                let next = segments.take(i + 1);
                assert(next.drop_last() =~= segments.take(i as int));
                assert(next.last() == segment@);
                lemma_total_bound(segments.take(i as int));
                assert(start + u64::MAX <= u128::MAX) by (nonlinear_arith)
                    requires
                        start <= i * u64::MAX,
                        i < usize::MAX,
                        usize::MAX <= u64::MAX,
                ;
            }
            let end: u128 = start + segment.duration.units as u128;
            stages.push(Stage::Scale { input, width });
            if !opaque {
                stages.push(Stage::Opacity { input, alpha: self.overlay.opacity });
            }
            stages.push(Stage::Composite { input, start, end });
            proof {
                assert(stage_views(stages@) =~= before + self@.segment_stages(i as int));
                assert(self@.overlay_stages((i + 1) as nat) == self@.overlay_stages(i as nat)
                    + self@.segment_stages(i as int));
                assert(before + self@.segment_stages(i as int) =~= seq![
                    self@.background_stage(),
                ] + self@.overlay_stages((i + 1) as nat));
            }
            start = end;
            i += 1;
        }
        assert(segments.take(i as int) =~= segments);
        let ghost before = stage_views(stages@);
        if self.progress_bar.enable {
            if self.progress_bar.solid {
                stages.push(
                    Stage::BarTrack { width: self.video.width, height: self.progress_bar.height },
                );
            }
            stages.push(
                Stage::ProgressBar {
                    color: self.progress_bar.color.clone(),
                    width: self.video.width,
                    height: self.progress_bar.height,
                    total: start,
                },
            );
        }
        assert(stage_views(stages@) =~= before + self@.bar_stages());
        stages
    }

    /// The stages of the video filter graph, in order.
    pub fn stages(&self) -> (stages: Vec<Stage>)
        ensures
            stage_views(stages@) == self@.stages(),
    {
        let plan = self.index_plan();
        self.stages_with(&plan)
    }

    /// The video filter graph as text.
    pub fn filter_graph(&self) -> (text: String)
        ensures
            text@ == self@.filter_graph(),
    {
        let stages = self.stages();
        render_graph(&stages)
    }

    /// The audio mix expression with the indices of `plan`; `None` where
    /// the project has no music.
    pub(crate) fn audio_mix_with(&self, plan: &StreamIndexPlan) -> (mix: Option<String>)
        requires
            *plan == self@.plan(),
        ensures
            mix is Some <==> self@.has_bgm(),
            mix matches Some(text) ==> text@ == self@.audio_mix(),
    {
        match plan.music {
            Some(music) => {
                let mut text = String::new();
                text.append("[");
                push_nat(&mut text, music);
                text.append(":a]volume=");
                push_units(&mut text, self.music.volume.units as u128);
                text.append("[bgm];[");
                push_nat(&mut text, plan.speech);
                text.append(":a][bgm]amerge=inputs=2[bgm]");
                Some(text)
            },
            None => None,
        }
    }

    /// The audio mix expression; `None` where the project has no music.
    pub fn audio_mix(&self) -> (mix: Option<String>)
        ensures
            mix is Some <==> self@.has_bgm(),
            mix matches Some(text) ==> text@ == self@.audio_mix(),
    {
        let plan = self.index_plan();
        self.audio_mix_with(&plan)
    }
}

impl ProjectView {
    /// Number of stages that one segment contributes.
    pub open spec fn segment_span(self) -> int {
        if self.opaque() {
            2
        } else {
            3
        }
    }

    /// The segment that the overlay stage at position `k` belongs to, and
    /// the place of the stage within that segment.
    pub open spec fn locate(self, k: int) -> (int, int) {
        if self.opaque() {
            (k / 2, k % 2)
        } else {
            (k / 3, k % 3)
        }
    }
}

/// The overlay stages of the first `n` segments are the stage groups of
/// these segments laid end to end: none is missing and none is added.
pub proof fn lemma_overlay_stages(p: ProjectView, n: nat)
    ensures
        p.overlay_stages(n).len() == p.segment_span() * n,
        forall|k: int|
            0 <= k < p.overlay_stages(n).len() ==> {
                let (i, j) = p.locate(k);
                &&& 0 <= i < n
                &&& 0 <= j < p.segment_span()
                &&& #[trigger] p.overlay_stages(n)[k] == p.segment_stages(i)[j]
            },
    decreases n,
{
    if n > 0 {
        lemma_overlay_stages(p, (n - 1) as nat);
        let before = p.overlay_stages((n - 1) as nat);
        let group = p.segment_stages(n - 1);
        assert(p.overlay_stages(n) == before + group);
        assert forall|k: int| 0 <= k < p.overlay_stages(n).len() implies {
            let (i, j) = p.locate(k);
            &&& 0 <= i < n
            &&& 0 <= j < p.segment_span()
            &&& #[trigger] p.overlay_stages(n)[k] == p.segment_stages(i)[j]
        } by {
            if k < before.len() {
                assert(p.overlay_stages(n)[k] == before[k]);
            } else {
                assert(p.overlay_stages(n)[k] == group[k - before.len()]);
            }
        }
    }
}

/// Time windows tile the timeline. The window of the first segment starts
/// at zero; the window of every segment is as long as the segment; each
/// window starts where the one before it ends, so that windows neither
/// overlap nor leave a gap; the last one ends at the total planned
/// duration. The composite stage of each segment carries its window.
pub proof fn lemma_windows_tile(p: ProjectView, i: int)
    requires
        0 <= i < p.overlay.overlays.len() <= usize::MAX,
    ensures
        p.window_start(0) == 0,
        p.window_end(i) == p.window_start(i) + p.overlay.overlays[i].duration.units,
        p.window_start(i + 1) == p.window_end(i),
        p.window_start(i) <= p.window_end(i) <= p.total() <= u128::MAX,
        i + 1 == p.overlay.overlays.len() ==> p.window_end(i) == p.total(),
        p.segment_stages(i).last() == (StageView::Composite {
            input: p.plan().image_index(i),
            start: p.window_start(i) as u128,
            end: p.window_end(i) as u128,
        }),
        p.stages()[1 + p.segment_span() * (i + 1) - 1] == p.segment_stages(i).last(),
{
    let segments = p.overlay.overlays;
    assert(segments.take(0) =~= Seq::empty());
    assert(segments.take(i + 1).drop_last() =~= segments.take(i));
    lemma_total_prefix(segments, i + 1);
    lemma_total_bound(segments);
    assert(segments.len() * u64::MAX <= u128::MAX) by (nonlinear_arith)
        requires
            segments.len() <= usize::MAX <= u64::MAX,
    ;
    if i + 1 == segments.len() {
        assert(segments.take(i + 1) =~= segments);
    }
    lemma_overlay_stages(p, segments.len());
    let k = p.segment_span() * (i + 1) - 1;
    assert(p.stages()[1 + k] == p.overlay_stages(segments.len())[k]);
}

/// The durations of the first `n` segments sum to no more than those of
/// all.
pub proof fn lemma_total_prefix(segments: Seq<OverlayMetaView>, n: int)
    requires
        0 <= n <= segments.len(),
    ensures
        total_units(segments.take(n)) <= total_units(segments),
    decreases segments.len() - n,
{
    if n < segments.len() {
        lemma_total_prefix(segments, n + 1);
        assert(segments.take(n + 1).drop_last() =~= segments.take(n));
    } else {
        assert(segments.take(n) =~= segments);
    }
}

/// An alpha stage is compiled for a segment exactly if the configured
/// opacity is below the threshold. Below it, the stage group of every
/// segment holds the alpha stage of that segment's image, between its
/// scale stage and its composite stage; at the threshold or above, no stage
/// of the graph is an alpha stage.
pub proof fn lemma_opacity_stage(p: ProjectView)
    ensures
        p.opaque() <==> p.overlay.opacity.units >= 990_000,
        !p.opaque() ==> forall|i: int|
            0 <= i < p.overlay.overlays.len() ==> #[trigger] p.stages()[2 + 3 * i] == (
            StageView::Opacity { input: p.plan().image_index(i), alpha: p.overlay.opacity }),
        p.opaque() ==> forall|k: int|
            0 <= k < p.stages().len() ==> !(#[trigger] p.stages()[k] is Opacity),
        (exists|k: int| 0 <= k < p.stages().len() && #[trigger] p.stages()[k] is Opacity) <==> (
        !p.opaque() && p.overlay.overlays.len() > 0),
{
    let n = p.overlay.overlays.len();
    lemma_overlay_stages(p, n);
    let body = p.overlay_stages(n);
    if p.opaque() {
        assert forall|k: int| 0 <= k < p.stages().len() implies !(#[trigger] p.stages()[k]
            is Opacity) by {
            if 1 <= k < 1 + body.len() {
                assert(p.stages()[k] == body[k - 1]);
            }
        }
    } else {
        assert forall|i: int| 0 <= i < n implies #[trigger] p.stages()[2 + 3 * i] == (
        StageView::Opacity { input: p.plan().image_index(i), alpha: p.overlay.opacity }) by {
            assert(p.stages()[2 + 3 * i] == body[1 + 3 * i]);
        }
        if n > 0 {
            assert(p.stages()[2 + 3 * 0int] is Opacity);
        } else {
            assert forall|k: int| 0 <= k < p.stages().len() implies !(#[trigger] p.stages()[k]
                is Opacity) by {}
        }
    }
}

impl StageView {
    /// The stage binds its result to `main`: every stage does but the two
    /// that prepare one overlay image.
    pub open spec fn binds_main(self) -> bool {
        !(self is Scale) && !(self is Opacity)
    }
}

/// What ends in `tail` still ends in it with something put in front.
proof fn lemma_suffix_stays(front: Seq<char>, text: Seq<char>, tail: Seq<char>)
    requires
        tail.is_suffix_of(text),
    ensures
        tail.is_suffix_of(front + text),
{
    let all = front + text;
    assert(all.subrange(all.len() - tail.len(), all.len() as int) =~= text.subrange(
        text.len() - tail.len(),
        text.len() as int,
    ));
}

/// The text of a stage that binds its result to `main` ends in that label.
proof fn lemma_stage_ends_in_main(stage: StageView)
    requires
        stage.binds_main(),
    ensures
        "[main]"@.is_suffix_of(stage.text()),
{
    let label = "[main]"@;
    reveal_strlit("[main]");
    assert(label.is_suffix_of(label)) by {
        assert(label.subrange(0, label.len() as int) =~= label);
    }
    match stage {
        StageView::Background { .. } | StageView::Canvas { .. } => {
            let front = stage.text().subrange(0, stage.text().len() - 6);
            assert(stage.text() =~= front + label);
            lemma_suffix_stays(front, label, label);
        },
        StageView::Composite { input, start, end } => {
            let close = ")'[main]"@;
            reveal_strlit(")'[main]");
            assert(close.subrange(2, 8) =~= label);
            let front = stage.text().subrange(0, stage.text().len() - 8);
            assert(stage.text() =~= front + close);
            lemma_suffix_stays(front, close, label);
        },
        StageView::BarTrack { width, height } => {
            let close =
                "[solid_bar];[main][solid_bar]overlay=main_w-overlay_w:main_h-overlay_h:shortest=1[main]"@;
            reveal_strlit(
                "[solid_bar];[main][solid_bar]overlay=main_w-overlay_w:main_h-overlay_h:shortest=1[main]",
            );
            assert(close.subrange(close.len() - 6, close.len() as int) =~= label);
            let front = stage.text().subrange(0, stage.text().len() - close.len());
            assert(stage.text() =~= front + close);
            lemma_suffix_stays(front, close, label);
        },
        StageView::ProgressBar { color, width, height, total } => {
            let close = ")*t:H-h:shortest=1[main]"@;
            reveal_strlit(")*t:H-h:shortest=1[main]");
            assert(close.subrange(close.len() - 6, close.len() as int) =~= label);
            let front = stage.text().subrange(0, stage.text().len() - close.len());
            assert(stage.text() =~= front + close);
            lemma_suffix_stays(front, close, label);
        },
        _ => {},
    }
}

/// The video filter graph always ends by binding the stream `main`, which
/// is the stream that the argument list maps into the output: whatever
/// the project, its last stage is the background, the composite of its
/// last segment or a stage of the progress bar, and the text of each of
/// these ends in the label `[main]`.
pub proof fn lemma_graph_ends_in_main(p: ProjectView)
    ensures
        p.stages().len() >= 1,
        p.stages().last().binds_main(),
        "[main]"@.is_suffix_of(p.filter_graph()),
{
    let n = p.overlay.overlays.len();
    let stages = p.stages();
    lemma_overlay_stages(p, n);
    let body = p.overlay_stages(n);
    if p.bar_stages().len() > 0 {
        assert(stages.last() == p.bar_stages().last());
    } else if n > 0 {
        assert(stages.last() == body.last());
        let k = body.len() - 1;
        assert(body[k] == p.segment_stages(p.locate(k).0)[p.locate(k).1]);
    } else {
        assert(stages.last() == p.background_stage());
    }
    lemma_stage_ends_in_main(stages.last());
    if stages.len() > 1 {
        lemma_suffix_stays(
            graph_text(stages.drop_last()) + ";"@,
            stages.last().text(),
            "[main]"@,
        );
    } else {
        assert(stages.last() == stages[0]);
    }
}

} // verus!
