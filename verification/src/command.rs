//! The encoder invocation: the ordered argument list that realizes a
//! project, its form as one shell line, and the manifest from which the
//! speech clips are concatenated beforehand.

use vstd::prelude::*;
use vstd::string::StringExecFns;
use crate::decimal::{format_units, units_text};
use crate::graph::render_graph;
use crate::plan::StreamIndexPlan;
use crate::text::{contains_char, nat_text, push_nat, strip_leading, trim_leading};
use crate::video::{OverlayMetaView, Project, ProjectView};

verus! {

/// The views of `args`, in order.
pub open spec fn arg_views(args: Seq<String>) -> Seq<Seq<char>> {
    args.map_values(|s: String| s@)
}

/// One `-i` flag with the image of each of `segments`, in order.
pub open spec fn image_inputs(segments: Seq<OverlayMetaView>) -> Seq<Seq<char>>
    decreases segments.len(),
{
    if segments.len() == 0 {
        Seq::empty()
    } else {
        image_inputs(segments.drop_last()) + seq!["-i"@, segments.last().image]
    }
}

/// The concat manifest of `segments`: for each, a line that names its
/// speech asset relative to the `audio/` directory.
pub open spec fn manifest_text(segments: Seq<OverlayMetaView>) -> Seq<char>
    decreases segments.len(),
{
    if segments.len() == 0 {
        Seq::empty()
    } else {
        manifest_text(segments.drop_last()) + "file '"@ + strip_leading(
            segments.last().audio,
            "audio/"@,
        ) + "'\n"@
    }
}

/// `arg` holds a space or a semicolon, so that a shell would split it.
pub open spec fn needs_quotes(arg: Seq<char>) -> bool {
    arg.contains(' ') || arg.contains(';')
}

/// `arg` as it stands in a shell line: between double quotes if it needs
/// them, bare if not.
pub open spec fn quoted(arg: Seq<char>) -> Seq<char> {
    if needs_quotes(arg) {
        seq!['"'] + arg + seq!['"']
    } else {
        arg
    }
}

/// The shell line that runs `program` on `args`: the program, then each
/// argument after a space, quoted where it needs to be.
pub open spec fn command_text(program: Seq<char>, args: Seq<Seq<char>>) -> Seq<char>
    decreases args.len(),
{
    if args.len() == 0 {
        program
    } else {
        command_text(program, args.drop_last()) + seq![' '] + quoted(args.last())
    }
}

impl ProjectView {
    /// The total planned duration as the encoder reads it.
    pub open spec fn total_text(self) -> Seq<char> {
        units_text(self.total())
    }

    /// Flags of the background asset, cut to the length of the video from
    /// its start offset: none where the background is synthesized.
    pub open spec fn background_input(self) -> Seq<Seq<char>> {
        if self.has_background() {
            seq![
                "-ss"@,
                units_text(self.video.background_start_time.units as nat),
                "-t"@,
                self.total_text(),
                "-i"@,
                self.video.background,
            ]
        } else {
            Seq::empty()
        }
    }

    /// Flags of the speech track, of the music cut like the background if
    /// there is any, and, without a background asset, of the output length.
    pub open spec fn audio_inputs(self) -> Seq<Seq<char>> {
        seq!["-i"@, "audio/tts.mp3"@] + (if self.has_bgm() {
            seq![
                "-ss"@,
                units_text(self.music.start_time.units as nat),
                "-t"@,
                self.total_text(),
                "-i"@,
                self.music.audio,
            ]
        } else {
            Seq::empty()
        }) + (if self.has_background() {
            Seq::empty()
        } else {
            seq!["-t"@, self.total_text()]
        })
    }

    /// Flags that say what to read, one input per index of the plan and in
    /// its order: background, segment images, speech, music.
    pub open spec fn input_arguments(self) -> Seq<Seq<char>> {
        self.background_input() + image_inputs(self.overlay.overlays) + self.audio_inputs()
    }

    /// Flags that hand over the video filter graph and, with music, the
    /// audio mix expression.
    pub open spec fn filter_arguments(self) -> Seq<Seq<char>> {
        seq!["-filter_complex"@, self.filter_graph()] + (if self.has_bgm() {
            seq!["-filter_complex"@, self.audio_mix()]
        } else {
            Seq::empty()
        })
    }

    /// Flags that pick the output streams: the composed frames, and either
    /// the mixed audio, cut at the shortest stream, or the speech track as
    /// it is.
    pub open spec fn map_arguments(self) -> Seq<Seq<char>> {
        seq!["-map"@, "[main]"@] + (if self.has_bgm() {
            seq!["-map"@, "[bgm]"@, "-shortest"@]
        } else {
            seq!["-map"@, nat_text(self.plan().speech as nat) + ":a"@]
        })
    }

    /// Flags that pick the codecs: an encoder for synthesized frames, a
    /// plain copy for audio that is not mixed.
    pub open spec fn codec_arguments(self) -> Seq<Seq<char>> {
        (if self.has_background() {
            Seq::empty()
        } else {
            seq!["-c:v"@, "libx264"@]
        }) + (if self.has_bgm() {
            Seq::empty()
        } else {
            seq!["-c:a"@, "copy"@]
        })
    }

    /// The whole argument list of the encoder run that writes `output`.
    pub open spec fn arguments(self, output: Seq<char>) -> Seq<Seq<char>> {
        seq!["-hide_banner"@, "-y"@] + self.input_arguments() + self.filter_arguments()
            + self.map_arguments() + self.codec_arguments() + seq![output]
    }
}

/// Appends `arg` to `args`.
fn push_arg(args: &mut Vec<String>, arg: &str)
    ensures
        arg_views(final(args)@) == arg_views(old(args)@).push(arg@),
{
    args.push(String::from_str(arg));
    assert(arg_views(args@) =~= arg_views(old(args)@).push(arg@));
}

/// Appends `arg` to `args`.
pub(crate) fn push_owned(args: &mut Vec<String>, arg: String)
    ensures
        arg_views(final(args)@) == arg_views(old(args)@).push(arg@),
{
    args.push(arg);
    assert(arg_views(args@) =~= arg_views(old(args)@).push(arg@));
}

/// `arg` as it stands in a shell line: between double quotes if it holds a
/// space or a semicolon, bare if it holds neither.
pub fn quote_argument(arg: &str) -> (text: String)
    ensures
        text@ == quoted(arg@),
        needs_quotes(arg@) ==> text@ == seq!['"'] + arg@ + seq!['"'],
        !needs_quotes(arg@) ==> text@ == arg@,
{
    let mut text = String::new();
    if contains_char(arg, ' ') || contains_char(arg, ';') {
        text.push('"');
        text.append(arg);
        text.push('"');
        assert(text@ =~= seq!['"'] + arg@ + seq!['"']);
    } else {
        text.append(arg);
        assert(text@ =~= arg@);
    }
    text
}

/// The shell line that runs `program` on `args`.
pub fn command_line(program: &str, args: &Vec<String>) -> (line: String)
    ensures
        line@ == command_text(program@, arg_views(args@)),
{
    let mut line = String::from_str(program);
    let ghost views = arg_views(args@);
    let mut i: usize = 0;
    assert(views.take(0) =~= Seq::<Seq<char>>::empty());
    while i < args.len()
        invariant
            i <= args.len(),
            views == arg_views(args@),
            line@ == command_text(program@, views.take(i as int)),
        decreases args.len() - i,
    {
        let piece = quote_argument(args[i].as_str());
        line.push(' ');
        line.append(piece.as_str());
        proof {
            let next = views.take(i + 1);
            assert(next.drop_last() =~= views.take(i as int));
            assert(next.last() == args@[i as int]@);
        }
        i += 1;
    }
    assert(views.take(i as int) =~= views);
    line
}

impl Project {
    /// Appends the flags of the background asset, if there is one.
    fn push_background_input(&self, plan: &StreamIndexPlan, total: &str, args: &mut Vec<String>)
        requires
            *plan == self@.plan(),
            total@ == self@.total_text(),
        ensures
            arg_views(final(args)@) == arg_views(old(args)@) + self@.background_input(),
    {
        if plan.background.is_some() {
            push_arg(args, "-ss");
            push_owned(args, self.video.background_start_time.to_text());
            push_arg(args, "-t");
            push_arg(args, total);
            push_arg(args, "-i");
            push_arg(args, self.video.background.as_str());
        }
        assert(arg_views(args@) =~= arg_views(old(args)@) + self@.background_input());
    }

    /// Appends one `-i` flag for the image of each segment.
    fn push_image_inputs(&self, args: &mut Vec<String>)
        ensures
            arg_views(final(args)@) == arg_views(old(args)@) + image_inputs(
                self@.overlay.overlays,
            ),
    {
        let ghost segments = self@.overlay.overlays;
        let ghost before = arg_views(args@);
        let mut i: usize = 0;
        proof {
            assert(segments.take(0) =~= Seq::empty());
            assert(before + image_inputs(segments.take(0)) =~= before);
        }
        while i < self.overlay.overlays.len()
            invariant
                i <= self.overlay.overlays.len(),
                segments == self@.overlay.overlays,
                arg_views(args@) == before + image_inputs(segments.take(i as int)),
            decreases self.overlay.overlays.len() - i,
        {
            push_arg(args, "-i");
            push_arg(args, self.overlay.overlays[i].image.as_str());
            proof {
                let next = segments.take(i + 1);
                assert(next.drop_last() =~= segments.take(i as int));
                assert(next.last() == self.overlay.overlays@[i as int]@);
                assert(arg_views(args@) =~= before + image_inputs(next));
            }
            i += 1;
        }
        assert(segments.take(i as int) =~= segments);
    }

    /// Appends the flags of the speech track, of the music if there is any,
    /// and of the output length if there is no background asset.
    fn push_audio_inputs(&self, plan: &StreamIndexPlan, total: &str, args: &mut Vec<String>)
        requires
            *plan == self@.plan(),
            total@ == self@.total_text(),
        ensures
            arg_views(final(args)@) == arg_views(old(args)@) + self@.audio_inputs(),
    {
        push_arg(args, "-i");
        push_arg(args, "audio/tts.mp3");
        if plan.music.is_some() {
            push_arg(args, "-ss");
            push_owned(args, self.music.start_time.to_text());
            push_arg(args, "-t");
            push_arg(args, total);
            push_arg(args, "-i");
            push_arg(args, self.music.audio.as_str());
        }
        if plan.background.is_none() {
            push_arg(args, "-t");
            push_arg(args, total);
        }
        assert(arg_views(args@) =~= arg_views(old(args)@) + self@.audio_inputs());
    }

    /// Appends the flags that hand over the filter expressions.
    fn push_filters(&self, plan: &StreamIndexPlan, args: &mut Vec<String>)
        requires
            *plan == self@.plan(),
        ensures
            arg_views(final(args)@) == arg_views(old(args)@) + self@.filter_arguments(),
    {
        let stages = self.stages_with(plan);
        push_arg(args, "-filter_complex");
        push_owned(args, render_graph(&stages));
        match self.audio_mix_with(plan) {
            Some(mix) => {
                push_arg(args, "-filter_complex");
                push_owned(args, mix);
            },
            None => {},
        }
        assert(arg_views(args@) =~= arg_views(old(args)@) + self@.filter_arguments());
    }

    /// Appends the flags that pick the output streams.
    fn push_maps(&self, plan: &StreamIndexPlan, args: &mut Vec<String>)
        requires
            *plan == self@.plan(),
        ensures
            arg_views(final(args)@) == arg_views(old(args)@) + self@.map_arguments(),
    {
        push_arg(args, "-map");
        push_arg(args, "[main]");
        push_arg(args, "-map");
        if plan.music.is_some() {
            push_arg(args, "[bgm]");
            push_arg(args, "-shortest");
        } else {
            let mut speech = String::new();
            push_nat(&mut speech, plan.speech);
            speech.append(":a");
            push_owned(args, speech);
        }
        assert(arg_views(args@) =~= arg_views(old(args)@) + self@.map_arguments());
    }

    /// Appends the flags that pick the codecs.
    fn push_codecs(&self, plan: &StreamIndexPlan, args: &mut Vec<String>)
        requires
            *plan == self@.plan(),
        ensures
            arg_views(final(args)@) == arg_views(old(args)@) + self@.codec_arguments(),
    {
        if plan.background.is_none() {
            push_arg(args, "-c:v");
            push_arg(args, "libx264");
        }
        if plan.music.is_none() {
            push_arg(args, "-c:a");
            push_arg(args, "copy");
        }
        assert(arg_views(args@) =~= arg_views(old(args)@) + self@.codec_arguments());
    }

    /// The argument list of the encoder run that renders the project into
    /// `output`. Every stream index in it comes from one index plan.
    pub fn generate(&self, output: &str) -> (args: Vec<String>)
        ensures
            arg_views(args@) == self@.arguments(output@),
    {
        let plan = self.index_plan();
        let total = format_units(self.len());
        let mut args: Vec<String> = Vec::new();
        assert(arg_views(args@) =~= Seq::empty());
        push_arg(&mut args, "-hide_banner");
        push_arg(&mut args, "-y");
        assert(arg_views(args@) =~= seq!["-hide_banner"@, "-y"@]);
        self.push_background_input(&plan, total.as_str(), &mut args);
        self.push_image_inputs(&mut args);
        self.push_audio_inputs(&plan, total.as_str(), &mut args);
        assert(arg_views(args@) =~= seq!["-hide_banner"@, "-y"@] + self@.input_arguments());
        self.push_filters(&plan, &mut args);
        self.push_maps(&plan, &mut args);
        self.push_codecs(&plan, &mut args);
        push_arg(&mut args, output);
        args
    }

    /// The shell line that renders the project into `output`: every
    /// argument that holds a space or a semicolon between double quotes.
    pub fn command(&self, output: &str) -> (line: String)
        ensures
            line@ == command_text("ffmpeg"@, self@.arguments(output@)),
    {
        let args = self.generate(output);
        command_line("ffmpeg", &args)
    }

    /// The manifest from which the speech clips are concatenated, in
    /// segment order, into the one speech track that the encoder reads.
    pub fn speech_manifest(&self) -> (text: String)
        ensures
            text@ == manifest_text(self@.overlay.overlays),
    {
        let mut text = String::new();
        let ghost segments = self@.overlay.overlays;
        let mut i: usize = 0;
        assert(segments.take(0) =~= Seq::empty());
        while i < self.overlay.overlays.len()
            invariant
                i <= self.overlay.overlays.len(),
                segments == self@.overlay.overlays,
                text@ == manifest_text(segments.take(i as int)),
            decreases self.overlay.overlays.len() - i,
        {
            let name = trim_leading(self.overlay.overlays[i].audio.as_str(), "audio/");
            text.append("file '");
            text.append(name.as_str());
            text.append("'\n");
            proof {
                let next = segments.take(i + 1);
                assert(next.drop_last() =~= segments.take(i as int));
                assert(next.last() == self.overlay.overlays@[i as int]@);
            }
            i += 1;
        }
        assert(segments.take(i as int) =~= segments);
        text
    }
}

/// The arguments of the encoder run that concatenates the speech clips
/// listed in the manifest into the speech track.
pub fn concat_arguments() -> (args: Vec<String>)
    ensures
        arg_views(args@) == seq![
            "-y"@,
            "-f"@,
            "concat"@,
            "-i"@,
            "audio/tts.txt"@,
            "-c"@,
            "copy"@,
            "audio/tts.mp3"@,
        ],
{
    let mut args: Vec<String> = Vec::new();
    assert(arg_views(args@) =~= Seq::empty());
    push_arg(&mut args, "-y");
    push_arg(&mut args, "-f");
    push_arg(&mut args, "concat");
    push_arg(&mut args, "-i");
    push_arg(&mut args, "audio/tts.txt");
    push_arg(&mut args, "-c");
    push_arg(&mut args, "copy");
    push_arg(&mut args, "audio/tts.mp3");
    args
}

/// A run of the encoder or of the prober did not succeed.
#[derive(Debug, Clone, PartialEq, Eq)]
pub enum EncoderInvocationError {
    /// The program could not be started.
    NotStarted { program: String },
    /// The program ended with this exit code, or was ended from outside
    /// and has none.
    Failed { program: String, code: Option<i32> },
}

/// What the end of a run of `program` amounts to: success for the exit
/// code zero, a failure that names the program and the code for all else.
pub fn exit_outcome(program: &str, code: Option<i32>) -> (r: Result<(), EncoderInvocationError>)
    ensures
        r is Ok <==> code == Some(0i32),
        r matches Err(e) ==> e matches EncoderInvocationError::Failed { program: p, code: c }
            && p@ == program@ && c == code,
{
    match code {
        Some(0) => Ok(()),
        _ => Err(EncoderInvocationError::Failed { program: String::from_str(program), code }),
    }
}

/// The values of the `-i` flags among `args`, where `args` is made of
/// flags that are each followed by one value.
pub open spec fn input_values(args: Seq<Seq<char>>) -> Seq<Seq<char>>
    decreases args.len(),
{
    if args.len() < 2 {
        Seq::empty()
    } else {
        let before = input_values(args.subrange(0, args.len() - 2));
        if args[args.len() - 2] == "-i"@ {
            before.push(args[args.len() - 1])
        } else {
            before
        }
    }
}

impl ProjectView {
    /// What the encoder reads, in the order of the stream index plan: the
    /// background asset if there is one, the image of each segment, the
    /// speech track, the music if there is any.
    pub open spec fn inputs(self) -> Seq<Seq<char>> {
        (if self.has_background() {
            seq![self.video.background]
        } else {
            Seq::empty()
        }) + self.overlay.overlays.map_values(|s: OverlayMetaView| s.image) + seq![
            "audio/tts.mp3"@,
        ] + (if self.has_bgm() {
            seq![self.music.audio]
        } else {
            Seq::empty()
        })
    }
}

/// One flag with its value adds the value if the flag is `-i`.
proof fn lemma_one_flag(flag: Seq<char>, value: Seq<char>)
    ensures
        input_values(seq![flag, value]) == (if flag == "-i"@ {
            seq![value]
        } else {
            Seq::empty()
        }),
{
    let args = seq![flag, value];
    assert(args.subrange(0, 0) =~= Seq::empty());
    assert(input_values(args.subrange(0, 0)) =~= Seq::empty());
    assert(Seq::<Seq<char>>::empty().push(value) =~= seq![value]);
}

/// The input values of flags laid end to end are those of the parts laid
/// end to end.
proof fn lemma_input_values_concat(a: Seq<Seq<char>>, b: Seq<Seq<char>>)
    requires
        b.len() % 2 == 0,
    ensures
        input_values(a + b) == input_values(a) + input_values(b),
    decreases b.len(),
{
    if b.len() == 0 {
        assert(a + b =~= a);
        assert(input_values(a) + input_values(b) =~= input_values(a));
    } else {
        let all = a + b;
        let shorter = b.subrange(0, b.len() - 2);
        assert(all.subrange(0, all.len() - 2) =~= a + shorter);
        lemma_input_values_concat(a, shorter);
        assert(all[all.len() - 2] == b[b.len() - 2]);
        assert(all[all.len() - 1] == b[b.len() - 1]);
        if b[b.len() - 2] == "-i"@ {
            assert((input_values(a) + input_values(shorter)).push(b[b.len() - 1]) =~= input_values(
                a,
            ) + input_values(shorter).push(b[b.len() - 1]));
        }
    }
}

/// The image flags carry the images, one for each segment and in order.
proof fn lemma_image_inputs(segments: Seq<OverlayMetaView>)
    ensures
        image_inputs(segments).len() == 2 * segments.len(),
        input_values(image_inputs(segments)) == segments.map_values(|s: OverlayMetaView| s.image),
    decreases segments.len(),
{
    let images = segments.map_values(|s: OverlayMetaView| s.image);
    if segments.len() == 0 {
        assert(images =~= Seq::empty());
    } else {
        let before = segments.drop_last();
        lemma_image_inputs(before);
        lemma_one_flag("-i"@, segments.last().image);
        lemma_input_values_concat(image_inputs(before), seq!["-i"@, segments.last().image]);
        assert(images =~= before.map_values(|s: OverlayMetaView| s.image) + seq![
            segments.last().image,
        ]);
    }
}

/// The flags `-ss` and `-t` are not the flag `-i`.
proof fn lemma_flags_differ()
    ensures
        "-ss"@ != "-i"@,
        "-t"@ != "-i"@,
{
    reveal_strlit("-ss");
    reveal_strlit("-t");
    reveal_strlit("-i");
    assert("-ss"@.len() == 3);
    assert("-i"@.len() == 2);
    assert("-t"@[1] != "-i"@[1]);
}

/// The input values of three flags with their values.
proof fn lemma_trimmed_input(start: Seq<char>, length: Seq<char>, path: Seq<char>)
    ensures
        input_values(seq!["-ss"@, start, "-t"@, length, "-i"@, path]) == seq![path],
{
    lemma_flags_differ();
    let all = seq!["-ss"@, start, "-t"@, length, "-i"@, path];
    assert(all =~= seq!["-ss"@, start] + seq!["-t"@, length] + seq!["-i"@, path]);
    lemma_one_flag("-ss"@, start);
    lemma_one_flag("-t"@, length);
    lemma_one_flag("-i"@, path);
    lemma_input_values_concat(seq!["-ss"@, start], seq!["-t"@, length]);
    lemma_input_values_concat(seq!["-ss"@, start] + seq!["-t"@, length], seq!["-i"@, path]);
    assert(Seq::<Seq<char>>::empty() + Seq::<Seq<char>>::empty() + seq![path] =~= seq![path]);
}

/// The command reads its inputs in the order of the stream index plan.
/// The `-i` flags of the argument list name one input for each index of
/// the plan and no other: at the index of the background the background
/// asset, at the index of each segment's image that image, at the index
/// of the speech track the speech track, at the index of the music the
/// music. So an index that the filter graph, the audio mix or a `-map`
/// flag takes from the plan always means the same input.
pub proof fn lemma_inputs_follow_plan(p: ProjectView)
    requires
        p.overlay.overlays.len() <= usize::MAX,
    ensures
        input_values(p.input_arguments()) == p.inputs(),
        p.inputs().len() == p.plan().input_count(),
        p.has_background() ==> p.plan().background == Some(0u128) && p.inputs()[0]
            == p.video.background,
        !p.has_background() ==> p.plan().background is None,
        forall|i: int|
            0 <= i < p.overlay.overlays.len() ==> #[trigger] p.inputs()[p.plan().image_index(i) as int]
                == p.overlay.overlays[i].image,
        p.inputs()[p.plan().speech as int] == "audio/tts.mp3"@,
        p.has_bgm() ==> p.plan().music == Some((p.plan().speech + 1) as u128) && p.inputs()[p.plan().speech
            + 1] == p.music.audio,
        !p.has_bgm() ==> p.plan().music is None,
{
    lemma_flags_differ();
    let segments = p.overlay.overlays;
    let total = p.total_text();
    lemma_image_inputs(segments);
    lemma_one_flag("-i"@, "audio/tts.mp3"@);
    lemma_one_flag("-t"@, total);
    let background = p.background_input();
    let images = image_inputs(segments);
    let speech = seq!["-i"@, "audio/tts.mp3"@];
    let music: Seq<Seq<char>> = if p.has_bgm() {
        seq![
            "-ss"@,
            units_text(p.music.start_time.units as nat),
            "-t"@,
            total,
            "-i"@,
            p.music.audio,
        ]
    } else {
        Seq::empty()
    };
    let length: Seq<Seq<char>> = if p.has_background() {
        Seq::empty()
    } else {
        seq!["-t"@, total]
    };
    if p.has_background() {
        lemma_trimmed_input(
            units_text(p.video.background_start_time.units as nat),
            total,
            p.video.background,
        );
    }
    if p.has_bgm() {
        lemma_trimmed_input(units_text(p.music.start_time.units as nat), total, p.music.audio);
    }
    assert(p.input_arguments() =~= background + images + speech + music + length);
    lemma_input_values_concat(background, images);
    lemma_input_values_concat(background + images, speech);
    lemma_input_values_concat(background + images + speech, music);
    lemma_input_values_concat(background + images + speech + music, length);
    assert(input_values(length) =~= Seq::empty());
    assert(input_values(p.input_arguments()) =~= p.inputs());
}

} // verus!
