//! The persisted project: how a project is laid out in a configuration
//! document, how a document is read back, and what is reported of one that
//! cannot be.

use vstd::prelude::*;
use vstd::string::StringExecFns;
use crate::decimal::{decimal_units, lemma_text_round_trip, units_text, Decimal};
use crate::document::{
    as_flag, as_integer, as_number, as_text, entries_in, entry, entry_of, flag_in, flag_value,
    float_text, integer_in, integer_value, is_table, items, items_in, list_value, number_in,
    number_value, parse_document, parsed, render_document, rendered, set_entry, table_value,
    text_in, text_value,
};
use crate::text::{nat_text, push_nat};
use crate::video::{
    Music, MusicView, Overlay, OverlayMeta, OverlayMetaView, OverlayView, ProgressBar,
    ProgressBarView, Project, ProjectView, Video, VideoView,
};

verus! {

/// A place in a configuration document.
#[derive(Debug, Clone, Copy, PartialEq, Eq)]
pub enum Field {
    Video,
    VideoWidth,
    VideoHeight,
    VideoCropX,
    VideoCropY,
    VideoBackground,
    VideoBackgroundStartTime,
    Music,
    MusicAudio,
    MusicVolume,
    MusicStartTime,
    ProgressBar,
    ProgressBarEnable,
    ProgressBarSolid,
    ProgressBarHeight,
    ProgressBarColor,
    Overlay,
    OverlayOpacity,
    OverlayPadding,
    OverlayOverlays,
    /// The segment at this place of `overlay.overlays`, from zero.
    Segment(usize),
    SegmentImage(usize),
    SegmentAudio(usize),
    SegmentDuration(usize),
}

/// Why a configuration cannot be read or written.
#[derive(Debug, Clone, Copy, PartialEq, Eq)]
pub enum ConfigError {
    /// The text is no document at all.
    Syntax,
    /// The document cannot be put into text.
    Unwritable,
    /// The document lacks this field.
    Missing(Field),
    /// This field does not hold what it has to: a value of another kind,
    /// a number out of range, or a quantity that a document cannot hold
    /// exactly.
    Invalid(Field),
}

impl Field {
    /// The dotted name of the place, with the number of a segment in
    /// brackets.
    pub open spec fn name_text(self) -> Seq<char> {
        match self {
            Field::Video => "video"@,
            Field::VideoWidth => "video.width"@,
            Field::VideoHeight => "video.height"@,
            Field::VideoCropX => "video.crop_x"@,
            Field::VideoCropY => "video.crop_y"@,
            Field::VideoBackground => "video.background"@,
            Field::VideoBackgroundStartTime => "video.background_start_time"@,
            Field::Music => "music"@,
            Field::MusicAudio => "music.audio"@,
            Field::MusicVolume => "music.volume"@,
            Field::MusicStartTime => "music.start_time"@,
            Field::ProgressBar => "progress_bar"@,
            Field::ProgressBarEnable => "progress_bar.enable"@,
            Field::ProgressBarSolid => "progress_bar.solid"@,
            Field::ProgressBarHeight => "progress_bar.height"@,
            Field::ProgressBarColor => "progress_bar.color"@,
            Field::Overlay => "overlay"@,
            Field::OverlayOpacity => "overlay.opacity"@,
            Field::OverlayPadding => "overlay.padding"@,
            Field::OverlayOverlays => "overlay.overlays"@,
            Field::Segment(index) => "overlay.overlays["@ + nat_text(index as nat) + "]"@,
            Field::SegmentImage(index) => "overlay.overlays["@ + nat_text(index as nat) + "].image"@,
            Field::SegmentAudio(index) => "overlay.overlays["@ + nat_text(index as nat) + "].audio"@,
            Field::SegmentDuration(index) => "overlay.overlays["@ + nat_text(index as nat) + "].duration"@,
        }
    }

    /// The dotted name of the place.
    pub fn name(&self) -> (name: String)
        ensures
            name@ == self.name_text(),
    {
        match self {
            Field::Video => String::from_str("video"),
            Field::VideoWidth => String::from_str("video.width"),
            Field::VideoHeight => String::from_str("video.height"),
            Field::VideoCropX => String::from_str("video.crop_x"),
            Field::VideoCropY => String::from_str("video.crop_y"),
            Field::VideoBackground => String::from_str("video.background"),
            Field::VideoBackgroundStartTime => String::from_str("video.background_start_time"),
            Field::Music => String::from_str("music"),
            Field::MusicAudio => String::from_str("music.audio"),
            Field::MusicVolume => String::from_str("music.volume"),
            Field::MusicStartTime => String::from_str("music.start_time"),
            Field::ProgressBar => String::from_str("progress_bar"),
            Field::ProgressBarEnable => String::from_str("progress_bar.enable"),
            Field::ProgressBarSolid => String::from_str("progress_bar.solid"),
            Field::ProgressBarHeight => String::from_str("progress_bar.height"),
            Field::ProgressBarColor => String::from_str("progress_bar.color"),
            Field::Overlay => String::from_str("overlay"),
            Field::OverlayOpacity => String::from_str("overlay.opacity"),
            Field::OverlayPadding => String::from_str("overlay.padding"),
            Field::OverlayOverlays => String::from_str("overlay.overlays"),
            Field::Segment(index) => segment_name(*index, "]"),
            Field::SegmentImage(index) => segment_name(*index, "].image"),
            Field::SegmentAudio(index) => segment_name(*index, "].audio"),
            Field::SegmentDuration(index) => segment_name(*index, "].duration"),
        }
    }
}

/// The name of a place in the segment at `index`, which ends in `tail`.
fn segment_name(index: usize, tail: &str) -> (name: String)
    ensures
        name@ == "overlay.overlays["@ + nat_text(index as nat) + tail@,
{
    let mut name = String::from_str("overlay.overlays[");
    push_nat(&mut name, index as u128);
    name.append(tail);
    name
}

impl ConfigError {
    /// What is wrong, in words, with the name of the field where there is
    /// one.
    pub open spec fn message_text(self) -> Seq<char> {
        match self {
            ConfigError::Syntax => "the configuration is no document"@,
            ConfigError::Unwritable => "the configuration cannot be written"@,
            ConfigError::Missing(field) => "missing field "@ + field.name_text(),
            ConfigError::Invalid(field) => "invalid field "@ + field.name_text(),
        }
    }

    /// What is wrong, in words.
    pub fn message(&self) -> (message: String)
        ensures
            message@ == self.message_text(),
    {
        match self {
            ConfigError::Syntax => String::from_str("the configuration is no document"),
            ConfigError::Unwritable => String::from_str("the configuration cannot be written"),
            ConfigError::Missing(field) => {
                let mut message = String::from_str("missing field ");
                message.append(field.name().as_str());
                message
            },
            ConfigError::Invalid(field) => {
                let mut message = String::from_str("invalid field ");
                message.append(field.name().as_str());
                message
            },
        }
    }
}

/// The entry under `key`, which has to be a table.
pub open spec fn read_table(doc: toml::Value, key: Seq<char>, field: Field) -> Result<
    toml::Value,
    ConfigError,
> {
    match entry_of(doc, key) {
        None => Err(ConfigError::Missing(field)),
        Some(v) => if entries_in(v) is Some {
            Ok(v)
        } else {
            Err(ConfigError::Invalid(field))
        },
    }
}

/// The entry under `key`, which has to be an integer from 0 to 65535.
pub open spec fn read_u16(table: toml::Value, key: Seq<char>, field: Field) -> Result<
    u16,
    ConfigError,
> {
    match entry_of(table, key) {
        None => Err(ConfigError::Missing(field)),
        Some(v) => match integer_in(v) {
            Some(i) => if 0 <= i <= u16::MAX {
                Ok(i as u16)
            } else {
                Err(ConfigError::Invalid(field))
            },
            None => Err(ConfigError::Invalid(field)),
        },
    }
}

/// The entry under `key`, which has to be a boolean.
pub open spec fn read_flag(table: toml::Value, key: Seq<char>, field: Field) -> Result<
    bool,
    ConfigError,
> {
    match entry_of(table, key) {
        None => Err(ConfigError::Missing(field)),
        Some(v) => match flag_in(v) {
            Some(flag) => Ok(flag),
            None => Err(ConfigError::Invalid(field)),
        },
    }
}

/// The entry under `key`, which has to be a string.
pub open spec fn read_text(table: toml::Value, key: Seq<char>, field: Field) -> Result<
    Seq<char>,
    ConfigError,
> {
    match entry_of(table, key) {
        None => Err(ConfigError::Missing(field)),
        Some(v) => match text_in(v) {
            Some(text) => Ok(text),
            None => Err(ConfigError::Invalid(field)),
        },
    }
}

/// The quantity that `v` holds: a float whose text is a quantity, or an
/// integer that is not negative; in both cases one that fits.
pub open spec fn quantity_in(v: toml::Value) -> Option<Decimal> {
    match number_in(v) {
        Some(text) => match decimal_units(text) {
            Some(units) => if units <= u64::MAX {
                Some(Decimal { units: units as u64 })
            } else {
                None
            },
            None => None,
        },
        None => match integer_in(v) {
            Some(i) => if 0 <= i && i * 1_000_000 <= u64::MAX {
                Some(Decimal { units: (i * 1_000_000) as u64 })
            } else {
                None
            },
            None => None,
        },
    }
}

/// The entry under `key`, which has to be a quantity.
pub open spec fn read_quantity(table: toml::Value, key: Seq<char>, field: Field) -> Result<
    Decimal,
    ConfigError,
> {
    match entry_of(table, key) {
        None => Err(ConfigError::Missing(field)),
        Some(v) => match quantity_in(v) {
            Some(quantity) => Ok(quantity),
            None => Err(ConfigError::Invalid(field)),
        },
    }
}

/// The section `video` of `doc`, or the first fault in it.
pub open spec fn read_video(doc: toml::Value) -> Result<VideoView, ConfigError> {
    match read_table(doc, "video"@, Field::Video) {
        Err(e) => Err(e),
        Ok(t) => {
            let width = read_u16(t, "width"@, Field::VideoWidth);
            let height = read_u16(t, "height"@, Field::VideoHeight);
            let crop_x = read_quantity(t, "crop_x"@, Field::VideoCropX);
            let crop_y = read_quantity(t, "crop_y"@, Field::VideoCropY);
            let background = read_text(t, "background"@, Field::VideoBackground);
            let start = read_quantity(
                t,
                "background_start_time"@,
                Field::VideoBackgroundStartTime,
            );
            if width is Err {
                Err(width->Err_0)
            } else if height is Err {
                Err(height->Err_0)
            } else if crop_x is Err {
                Err(crop_x->Err_0)
            } else if crop_y is Err {
                Err(crop_y->Err_0)
            } else if background is Err {
                Err(background->Err_0)
            } else if start is Err {
                Err(start->Err_0)
            } else {
                Ok(
                    VideoView {
                        width: width->Ok_0,
                        height: height->Ok_0,
                        crop_x: crop_x->Ok_0,
                        crop_y: crop_y->Ok_0,
                        background: background->Ok_0,
                        background_start_time: start->Ok_0,
                    },
                )
            }
        },
    }
}

/// The section `music` of `doc`, or the first fault in it.
pub open spec fn read_music(doc: toml::Value) -> Result<MusicView, ConfigError> {
    match read_table(doc, "music"@, Field::Music) {
        Err(e) => Err(e),
        Ok(t) => {
            let audio = read_text(t, "audio"@, Field::MusicAudio);
            let volume = read_quantity(t, "volume"@, Field::MusicVolume);
            let start = read_quantity(t, "start_time"@, Field::MusicStartTime);
            if audio is Err {
                Err(audio->Err_0)
            } else if volume is Err {
                Err(volume->Err_0)
            } else if start is Err {
                Err(start->Err_0)
            } else {
                Ok(
                    MusicView {
                        audio: audio->Ok_0,
                        volume: volume->Ok_0,
                        start_time: start->Ok_0,
                    },
                )
            }
        },
    }
}

/// The section `progress_bar` of `doc`, or the first fault in it.
pub open spec fn read_progress_bar(doc: toml::Value) -> Result<ProgressBarView, ConfigError> {
    match read_table(doc, "progress_bar"@, Field::ProgressBar) {
        Err(e) => Err(e),
        Ok(t) => {
            let enable = read_flag(t, "enable"@, Field::ProgressBarEnable);
            let solid = read_flag(t, "solid"@, Field::ProgressBarSolid);
            let height = read_u16(t, "height"@, Field::ProgressBarHeight);
            let color = read_text(t, "color"@, Field::ProgressBarColor);
            if enable is Err {
                Err(enable->Err_0)
            } else if solid is Err {
                Err(solid->Err_0)
            } else if height is Err {
                Err(height->Err_0)
            } else if color is Err {
                Err(color->Err_0)
            } else {
                Ok(
                    ProgressBarView {
                        enable: enable->Ok_0,
                        solid: solid->Ok_0,
                        height: height->Ok_0,
                        color: color->Ok_0,
                    },
                )
            }
        },
    }
}

/// The segment that `item` holds at place `index`, or the first fault in
/// it.
pub open spec fn read_segment(item: toml::Value, index: usize) -> Result<
    OverlayMetaView,
    ConfigError,
> {
    if entries_in(item) is None {
        Err(ConfigError::Invalid(Field::Segment(index)))
    } else {
        let image = read_text(item, "image"@, Field::SegmentImage(index));
        let audio = read_text(item, "audio"@, Field::SegmentAudio(index));
        let duration = read_quantity(item, "duration"@, Field::SegmentDuration(index));
        if image is Err {
            Err(image->Err_0)
        } else if audio is Err {
            Err(audio->Err_0)
        } else if duration is Err {
            Err(duration->Err_0)
        } else {
            Ok(
                OverlayMetaView {
                    image: image->Ok_0,
                    audio: audio->Ok_0,
                    duration: duration->Ok_0,
                },
            )
        }
    }
}

/// The segments that `items` hold, in order, or the first fault in the
/// first item that has one.
pub open spec fn read_segments(items: Seq<toml::Value>) -> Result<
    Seq<OverlayMetaView>,
    ConfigError,
>
    decreases items.len(),
{
    if items.len() == 0 {
        Ok(Seq::empty())
    } else {
        match read_segments(items.drop_last()) {
            Err(e) => Err(e),
            Ok(done) => match read_segment(items.last(), (items.len() - 1) as usize) {
                Err(e) => Err(e),
                Ok(segment) => Ok(done.push(segment)),
            },
        }
    }
}

/// The section `overlay` of `doc`, or the first fault in it.
pub open spec fn read_overlay(doc: toml::Value) -> Result<OverlayView, ConfigError> {
    match read_table(doc, "overlay"@, Field::Overlay) {
        Err(e) => Err(e),
        Ok(t) => {
            let opacity = read_quantity(t, "opacity"@, Field::OverlayOpacity);
            let padding = read_u16(t, "padding"@, Field::OverlayPadding);
            if opacity is Err {
                Err(opacity->Err_0)
            } else if padding is Err {
                Err(padding->Err_0)
            } else {
                match entry_of(t, "overlays"@) {
                    None => Err(ConfigError::Missing(Field::OverlayOverlays)),
                    Some(list) => match items_in(list) {
                        None => Err(ConfigError::Invalid(Field::OverlayOverlays)),
                        Some(items) => match read_segments(items) {
                            Err(e) => Err(e),
                            Ok(overlays) => Ok(
                                OverlayView {
                                    opacity: opacity->Ok_0,
                                    padding: padding->Ok_0,
                                    overlays,
                                },
                            ),
                        },
                    },
                }
            }
        },
    }
}

/// The project that `doc` holds, or the first fault in it: sections in the
/// order video, music, progress bar, overlay, and the fields of each in
/// the order of the model. What else the document holds is passed over.
pub open spec fn read_project(doc: toml::Value) -> Result<ProjectView, ConfigError> {
    let video = read_video(doc);
    let music = read_music(doc);
    let progress_bar = read_progress_bar(doc);
    let overlay = read_overlay(doc);
    if video is Err {
        Err(video->Err_0)
    } else if music is Err {
        Err(music->Err_0)
    } else if progress_bar is Err {
        Err(progress_bar->Err_0)
    } else if overlay is Err {
        Err(overlay->Err_0)
    } else {
        Ok(
            ProjectView {
                video: video->Ok_0,
                music: music->Ok_0,
                progress_bar: progress_bar->Ok_0,
                overlay: overlay->Ok_0,
            },
        )
    }
}

/// The entry under `key`, which has to be a table.
fn get_table(doc: &toml::Value, key: &str, field: Field) -> (r: Result<toml::Value, ConfigError>)
    ensures
        r == read_table(*doc, key@, field),
{
    match entry(doc, key) {
        None => Err(ConfigError::Missing(field)),
        Some(v) => if is_table(&v) {
            Ok(v)
        } else {
            Err(ConfigError::Invalid(field))
        },
    }
}

/// The entry under `key`, which has to be an integer from 0 to 65535.
fn get_u16(table: &toml::Value, key: &str, field: Field) -> (r: Result<u16, ConfigError>)
    ensures
        r == read_u16(*table, key@, field),
{
    match entry(table, key) {
        None => Err(ConfigError::Missing(field)),
        Some(v) => match as_integer(&v) {
            Some(i) => if 0 <= i && i <= 65535 {
                Ok(i as u16)
            } else {
                Err(ConfigError::Invalid(field))
            },
            None => Err(ConfigError::Invalid(field)),
        },
    }
}

/// The entry under `key`, which has to be a boolean.
fn get_flag(table: &toml::Value, key: &str, field: Field) -> (r: Result<bool, ConfigError>)
    ensures
        r == read_flag(*table, key@, field),
{
    match entry(table, key) {
        None => Err(ConfigError::Missing(field)),
        Some(v) => match as_flag(&v) {
            Some(flag) => Ok(flag),
            None => Err(ConfigError::Invalid(field)),
        },
    }
}

/// The view of a string or the error in its place.
pub open spec fn text_or(r: Result<String, ConfigError>) -> Result<Seq<char>, ConfigError> {
    match r {
        Ok(text) => Ok(text@),
        Err(e) => Err(e),
    }
}

/// The entry under `key`, which has to be a string.
fn get_text(table: &toml::Value, key: &str, field: Field) -> (r: Result<String, ConfigError>)
    ensures
        text_or(r) == read_text(*table, key@, field),
{
    match entry(table, key) {
        None => Err(ConfigError::Missing(field)),
        Some(v) => match as_text(&v) {
            Some(text) => Ok(text),
            None => Err(ConfigError::Invalid(field)),
        },
    }
}

/// The quantity that `v` holds.
fn quantity_of(v: &toml::Value) -> (r: Option<Decimal>)
    ensures
        r == quantity_in(*v),
{
    match as_number(v) {
        Some(text) => Decimal::parse(text.as_str()),
        None => match as_integer(v) {
            Some(i) => if 0 <= i && i <= 18_446_744_073_709 {
                Some(Decimal { units: i as u64 * 1_000_000 })
            } else {
                None
            },
            None => None,
        },
    }
}

/// The entry under `key`, which has to be a quantity.
fn get_quantity(table: &toml::Value, key: &str, field: Field) -> (r: Result<Decimal, ConfigError>)
    ensures
        r == read_quantity(*table, key@, field),
{
    match entry(table, key) {
        None => Err(ConfigError::Missing(field)),
        Some(v) => match quantity_of(&v) {
            Some(quantity) => Ok(quantity),
            None => Err(ConfigError::Invalid(field)),
        },
    }
}

/// The view of what was read or the error in its place.
pub open spec fn view_or<T: View>(r: Result<T, ConfigError>) -> Result<T::V, ConfigError> {
    match r {
        Ok(value) => Ok(value@),
        Err(e) => Err(e),
    }
}

/// Reads the section `video`.
fn get_video(doc: &toml::Value) -> (r: Result<Video, ConfigError>)
    ensures
        view_or(r) == read_video(*doc),
{
    let t = match get_table(doc, "video", Field::Video) {
        Ok(t) => t,
        Err(e) => {
            return Err(e);
        },
    };
    let width = match get_u16(&t, "width", Field::VideoWidth) {
        Ok(x) => x,
        Err(e) => {
            return Err(e);
        },
    };
    let height = match get_u16(&t, "height", Field::VideoHeight) {
        Ok(x) => x,
        Err(e) => {
            return Err(e);
        },
    };
    let crop_x = match get_quantity(&t, "crop_x", Field::VideoCropX) {
        Ok(x) => x,
        Err(e) => {
            return Err(e);
        },
    };
    let crop_y = match get_quantity(&t, "crop_y", Field::VideoCropY) {
        Ok(x) => x,
        Err(e) => {
            return Err(e);
        },
    };
    let background = match get_text(&t, "background", Field::VideoBackground) {
        Ok(x) => x,
        Err(e) => {
            return Err(e);
        },
    };
    let background_start_time = match get_quantity(
        &t,
        "background_start_time",
        Field::VideoBackgroundStartTime,
    ) {
        Ok(x) => x,
        Err(e) => {
            return Err(e);
        },
    };
    Ok(Video { width, height, crop_x, crop_y, background, background_start_time })
}

/// Reads the section `music`.
fn get_music(doc: &toml::Value) -> (r: Result<Music, ConfigError>)
    ensures
        view_or(r) == read_music(*doc),
{
    let t = match get_table(doc, "music", Field::Music) {
        Ok(t) => t,
        Err(e) => {
            return Err(e);
        },
    };
    let audio = match get_text(&t, "audio", Field::MusicAudio) {
        Ok(x) => x,
        Err(e) => {
            return Err(e);
        },
    };
    let volume = match get_quantity(&t, "volume", Field::MusicVolume) {
        Ok(x) => x,
        Err(e) => {
            return Err(e);
        },
    };
    let start_time = match get_quantity(&t, "start_time", Field::MusicStartTime) {
        Ok(x) => x,
        Err(e) => {
            return Err(e);
        },
    };
    Ok(Music { audio, volume, start_time })
}

/// Reads the section `progress_bar`.
fn get_progress_bar(doc: &toml::Value) -> (r: Result<ProgressBar, ConfigError>)
    ensures
        view_or(r) == read_progress_bar(*doc),
{
    let t = match get_table(doc, "progress_bar", Field::ProgressBar) {
        Ok(t) => t,
        Err(e) => {
            return Err(e);
        },
    };
    let enable = match get_flag(&t, "enable", Field::ProgressBarEnable) {
        Ok(x) => x,
        Err(e) => {
            return Err(e);
        },
    };
    let solid = match get_flag(&t, "solid", Field::ProgressBarSolid) {
        Ok(x) => x,
        Err(e) => {
            return Err(e);
        },
    };
    let height = match get_u16(&t, "height", Field::ProgressBarHeight) {
        Ok(x) => x,
        Err(e) => {
            return Err(e);
        },
    };
    let color = match get_text(&t, "color", Field::ProgressBarColor) {
        Ok(x) => x,
        Err(e) => {
            return Err(e);
        },
    };
    Ok(ProgressBar { enable, solid, height, color })
}

/// Reads the segment at place `index`.
fn get_segment(item: &toml::Value, index: usize) -> (r: Result<OverlayMeta, ConfigError>)
    ensures
        view_or(r) == read_segment(*item, index),
{
    if !is_table(item) {
        return Err(ConfigError::Invalid(Field::Segment(index)));
    }
    let image = match get_text(item, "image", Field::SegmentImage(index)) {
        Ok(x) => x,
        Err(e) => {
            return Err(e);
        },
    };
    let audio = match get_text(item, "audio", Field::SegmentAudio(index)) {
        Ok(x) => x,
        Err(e) => {
            return Err(e);
        },
    };
    let duration = match get_quantity(item, "duration", Field::SegmentDuration(index)) {
        Ok(x) => x,
        Err(e) => {
            return Err(e);
        },
    };
    Ok(OverlayMeta { image, audio, duration })
}

/// The views of `segments`, in order.
pub open spec fn segment_views(segments: Seq<OverlayMeta>) -> Seq<OverlayMetaView> {
    segments.map_values(|m: OverlayMeta| m@)
}

/// Reads the segments, in order.
fn get_segments(items: &Vec<toml::Value>) -> (r: Result<Vec<OverlayMeta>, ConfigError>)
    ensures
        (match r {
            Ok(segments) => Ok(segment_views(segments@)),
            Err(e) => Err(e),
        }) == read_segments(items@),
{
    let mut segments: Vec<OverlayMeta> = Vec::new();
    let mut i: usize = 0;
    proof {
        assert(items@.take(0) =~= Seq::empty());
        assert(segment_views(segments@) =~= Seq::empty());
    }
    while i < items.len()
        invariant
            i <= items.len(),
            read_segments(items@.take(i as int)) == Ok::<Seq<OverlayMetaView>, ConfigError>(
                segment_views(segments@),
            ),
        decreases items.len() - i,
    {
        proof {
            let next = items@.take(i + 1);
            assert(next.drop_last() =~= items@.take(i as int));
            assert(next.last() == items@[i as int]);
        }
        let ghost before = segment_views(segments@);
        match get_segment(&items[i], i) {
            Ok(segment) => {
                segments.push(segment);
                assert(segment_views(segments@) =~= before.push(segment@));
            },
            Err(e) => {
                proof {
                    lemma_fault_stays(items@, i + 1);
                }
                return Err(e);
            },
        }
        i += 1;
    }
    assert(items@.take(i as int) =~= items@);
    Ok(segments)
}

/// A fault among the first `n` items is the fault of the whole list.
proof fn lemma_fault_stays(items: Seq<toml::Value>, n: int)
    requires
        0 <= n <= items.len(),
        read_segments(items.take(n)) is Err,
    ensures
        read_segments(items) == read_segments(items.take(n)),
    decreases items.len() - n,
{
    if n < items.len() {
        assert(items.take(n + 1).drop_last() =~= items.take(n));
        lemma_fault_stays(items, n + 1);
    } else {
        assert(items.take(n) =~= items);
    }
}

/// Reads the section `overlay`.
fn get_overlay(doc: &toml::Value) -> (r: Result<Overlay, ConfigError>)
    ensures
        view_or(r) == read_overlay(*doc),
{
    let t = match get_table(doc, "overlay", Field::Overlay) {
        Ok(t) => t,
        Err(e) => {
            return Err(e);
        },
    };
    let opacity = match get_quantity(&t, "opacity", Field::OverlayOpacity) {
        Ok(x) => x,
        Err(e) => {
            return Err(e);
        },
    };
    let padding = match get_u16(&t, "padding", Field::OverlayPadding) {
        Ok(x) => x,
        Err(e) => {
            return Err(e);
        },
    };
    let list = match entry(&t, "overlays") {
        Some(list) => list,
        None => {
            return Err(ConfigError::Missing(Field::OverlayOverlays));
        },
    };
    let listed = match items(&list) {
        Some(listed) => listed,
        None => {
            return Err(ConfigError::Invalid(Field::OverlayOverlays));
        },
    };
    let overlays = match get_segments(&listed) {
        Ok(overlays) => overlays,
        Err(e) => {
            return Err(e);
        },
    };
    Ok(Overlay { opacity, padding, overlays })
}

impl Project {
    /// Reads the project that the document `doc` holds. Fails with the
    /// first field that is missing or does not hold what it has to.
    pub fn from_document(doc: &toml::Value) -> (r: Result<Project, ConfigError>)
        ensures
            view_or(r) == read_project(*doc),
    {
        let video = match get_video(doc) {
            Ok(x) => x,
            Err(e) => {
                return Err(e);
            },
        };
        let music = match get_music(doc) {
            Ok(x) => x,
            Err(e) => {
                return Err(e);
            },
        };
        let progress_bar = match get_progress_bar(doc) {
            Ok(x) => x,
            Err(e) => {
                return Err(e);
            },
        };
        let overlay = match get_overlay(doc) {
            Ok(x) => x,
            Err(e) => {
                return Err(e);
            },
        };
        Ok(Project { video, music, progress_bar, overlay })
    }

    /// Reads a project from the text of its configuration. Fails with
    /// `Syntax` where the text is no document, else as
    /// [`Project::from_document`] does on the document that the text is.
    pub fn load_toml(text: &str) -> (r: Result<Project, ConfigError>)
        ensures
            view_or(r) == (match parsed(text@) {
                Some(doc) => read_project(doc),
                None => Err(ConfigError::Syntax),
            }),
    {
        match parse_document(text) {
            Ok(doc) => Project::from_document(&doc),
            Err(_) => Err(ConfigError::Syntax),
        }
    }
}

/// A document can hold `d` exactly: stored as a float and written out
/// again, the text of `d` is what it was.
pub open spec fn keeps_text(d: Decimal) -> bool {
    float_text(units_text(d.units as nat)) == units_text(d.units as nat)
}

/// `table` holds the integer `x` under `key`.
pub open spec fn holds_integer(table: toml::Value, key: Seq<char>, x: u16) -> bool {
    match entry_of(table, key) {
        Some(v) => integer_in(v) == Some(x as i64),
        None => false,
    }
}

/// `table` holds the boolean `flag` under `key`.
pub open spec fn holds_flag(table: toml::Value, key: Seq<char>, flag: bool) -> bool {
    match entry_of(table, key) {
        Some(v) => flag_in(v) == Some(flag),
        None => false,
    }
}

/// `table` holds the string `text` under `key`.
pub open spec fn holds_text(table: toml::Value, key: Seq<char>, text: Seq<char>) -> bool {
    match entry_of(table, key) {
        Some(v) => text_in(v) == Some(text),
        None => false,
    }
}

/// `table` holds the quantity `d` under `key`, as a float with the text of
/// `d`.
pub open spec fn holds_quantity(table: toml::Value, key: Seq<char>, d: Decimal) -> bool {
    match entry_of(table, key) {
        Some(v) => number_in(v) == Some(units_text(d.units as nat)),
        None => false,
    }
}

/// `table` is a table with exactly the keys `keys`.
pub open spec fn has_keys(table: toml::Value, keys: Set<Seq<char>>) -> bool {
    match entries_in(table) {
        Some(entries) => entries.dom() == keys,
        None => false,
    }
}

/// `t` is the section of `video`: its six fields and nothing else.
pub open spec fn holds_video(t: toml::Value, video: VideoView) -> bool {
    &&& has_keys(
        t,
        set![
            "width"@,
            "height"@,
            "crop_x"@,
            "crop_y"@,
            "background"@,
            "background_start_time"@,
        ],
    )
    &&& holds_integer(t, "width"@, video.width)
    &&& holds_integer(t, "height"@, video.height)
    &&& holds_quantity(t, "crop_x"@, video.crop_x)
    &&& holds_quantity(t, "crop_y"@, video.crop_y)
    &&& holds_text(t, "background"@, video.background)
    &&& holds_quantity(t, "background_start_time"@, video.background_start_time)
}

/// `t` is the section of `music`: its three fields and nothing else.
pub open spec fn holds_music(t: toml::Value, music: MusicView) -> bool {
    &&& has_keys(t, set!["audio"@, "volume"@, "start_time"@])
    &&& holds_text(t, "audio"@, music.audio)
    &&& holds_quantity(t, "volume"@, music.volume)
    &&& holds_quantity(t, "start_time"@, music.start_time)
}

/// `t` is the section of `bar`: its four fields and nothing else.
pub open spec fn holds_progress_bar(t: toml::Value, bar: ProgressBarView) -> bool {
    &&& has_keys(t, set!["enable"@, "solid"@, "height"@, "color"@])
    &&& holds_flag(t, "enable"@, bar.enable)
    &&& holds_flag(t, "solid"@, bar.solid)
    &&& holds_integer(t, "height"@, bar.height)
    &&& holds_text(t, "color"@, bar.color)
}

/// `t` is the table of `segment`: its three fields and nothing else.
pub open spec fn holds_segment(t: toml::Value, segment: OverlayMetaView) -> bool {
    &&& has_keys(t, set!["image"@, "audio"@, "duration"@])
    &&& holds_text(t, "image"@, segment.image)
    &&& holds_text(t, "audio"@, segment.audio)
    &&& holds_quantity(t, "duration"@, segment.duration)
}

/// `items` are the tables of `segments`, one for one and in order.
pub open spec fn hold_segments(items: Seq<toml::Value>, segments: Seq<OverlayMetaView>) -> bool {
    &&& items.len() == segments.len()
    &&& forall|i: int| 0 <= i < items.len() ==> holds_segment(#[trigger] items[i], segments[i])
}

/// `t` is the section of `overlay`: its two fields, the array of its
/// segments, and nothing else.
pub open spec fn holds_overlay(t: toml::Value, overlay: OverlayView) -> bool {
    &&& has_keys(t, set!["opacity"@, "padding"@, "overlays"@])
    &&& holds_quantity(t, "opacity"@, overlay.opacity)
    &&& holds_integer(t, "padding"@, overlay.padding)
    &&& match entry_of(t, "overlays"@) {
        Some(list) => match items_in(list) {
            Some(items) => hold_segments(items, overlay.overlays),
            None => false,
        },
        None => false,
    }
}

/// `doc` is the document of `p`: the four sections, each with the fields
/// of its part of `p`, and nothing else.
pub open spec fn describes(doc: toml::Value, p: ProjectView) -> bool {
    &&& has_keys(doc, set!["video"@, "music"@, "progress_bar"@, "overlay"@])
    &&& match entry_of(doc, "video"@) {
        Some(t) => holds_video(t, p.video),
        None => false,
    }
    &&& match entry_of(doc, "music"@) {
        Some(t) => holds_music(t, p.music),
        None => false,
    }
    &&& match entry_of(doc, "progress_bar"@) {
        Some(t) => holds_progress_bar(t, p.progress_bar),
        None => false,
    }
    &&& match entry_of(doc, "overlay"@) {
        Some(t) => holds_overlay(t, p.overlay),
        None => false,
    }
}

/// The place of the first segment whose duration a document cannot hold
/// exactly, if there is one.
pub open spec fn first_inexact(segments: Seq<OverlayMetaView>) -> Option<nat>
    decreases segments.len(),
{
    if segments.len() == 0 {
        None
    } else {
        match first_inexact(segments.drop_last()) {
            Some(at) => Some(at),
            None => if keeps_text(segments.last().duration) {
                None
            } else {
                Some((segments.len() - 1) as nat)
            },
        }
    }
}

/// Why `p` cannot be written, if it cannot: the first of its quantities
/// that a document cannot hold exactly, in the order of the sections and
/// of the fields in each.
pub open spec fn unwritable(p: ProjectView) -> Option<ConfigError> {
    if !keeps_text(p.video.crop_x) {
        Some(ConfigError::Invalid(Field::VideoCropX))
    } else if !keeps_text(p.video.crop_y) {
        Some(ConfigError::Invalid(Field::VideoCropY))
    } else if !keeps_text(p.video.background_start_time) {
        Some(ConfigError::Invalid(Field::VideoBackgroundStartTime))
    } else if !keeps_text(p.music.volume) {
        Some(ConfigError::Invalid(Field::MusicVolume))
    } else if !keeps_text(p.music.start_time) {
        Some(ConfigError::Invalid(Field::MusicStartTime))
    } else if !keeps_text(p.overlay.opacity) {
        Some(ConfigError::Invalid(Field::OverlayOpacity))
    } else {
        match first_inexact(p.overlay.overlays) {
            Some(at) => Some(ConfigError::Invalid(Field::SegmentDuration(at as usize))),
            None => None,
        }
    }
}

/// The keys of the section `video` differ from one another.
proof fn lemma_video_keys()
    ensures
        "width"@ != "height"@,
        "width"@ != "crop_x"@,
        "width"@ != "crop_y"@,
        "width"@ != "background"@,
        "width"@ != "background_start_time"@,
        "height"@ != "crop_x"@,
        "height"@ != "crop_y"@,
        "height"@ != "background"@,
        "height"@ != "background_start_time"@,
        "crop_x"@ != "crop_y"@,
        "crop_x"@ != "background"@,
        "crop_x"@ != "background_start_time"@,
        "crop_y"@ != "background"@,
        "crop_y"@ != "background_start_time"@,
        "background"@ != "background_start_time"@,
{
    reveal_strlit("width");
    reveal_strlit("height");
    reveal_strlit("crop_x");
    reveal_strlit("crop_y");
    reveal_strlit("background");
    reveal_strlit("background_start_time");
    assert("width"@.len() == 5);
    assert("height"@.len() == 6);
    assert("crop_x"@.len() == 6);
    assert("crop_y"@.len() == 6);
    assert("background"@.len() == 10);
    assert("background_start_time"@.len() == 21);
    assert("height"@[0] != "crop_x"@[0]);
    assert("height"@[0] != "crop_y"@[0]);
    assert("crop_x"@[5] != "crop_y"@[5]);
}

/// The keys of the other sections, of a segment and of the document
/// differ from one another.
proof fn lemma_keys_differ()
    ensures
        "audio"@ != "volume"@,
        "audio"@ != "start_time"@,
        "volume"@ != "start_time"@,
        "enable"@ != "solid"@,
        "enable"@ != "height"@,
        "enable"@ != "color"@,
        "solid"@ != "height"@,
        "solid"@ != "color"@,
        "height"@ != "color"@,
        "image"@ != "audio"@,
        "image"@ != "duration"@,
        "audio"@ != "duration"@,
        "opacity"@ != "padding"@,
        "opacity"@ != "overlays"@,
        "padding"@ != "overlays"@,
        "video"@ != "music"@,
        "video"@ != "progress_bar"@,
        "video"@ != "overlay"@,
        "music"@ != "progress_bar"@,
        "music"@ != "overlay"@,
        "progress_bar"@ != "overlay"@,
{
    reveal_strlit("height");
    reveal_strlit("audio");
    reveal_strlit("volume");
    reveal_strlit("start_time");
    reveal_strlit("enable");
    reveal_strlit("solid");
    reveal_strlit("color");
    reveal_strlit("image");
    reveal_strlit("duration");
    reveal_strlit("opacity");
    reveal_strlit("padding");
    reveal_strlit("overlays");
    reveal_strlit("video");
    reveal_strlit("music");
    reveal_strlit("progress_bar");
    reveal_strlit("overlay");
    assert("height"@.len() == 6);
    assert("audio"@.len() == 5);
    assert("volume"@.len() == 6);
    assert("start_time"@.len() == 10);
    assert("enable"@.len() == 6);
    assert("solid"@.len() == 5);
    assert("color"@.len() == 5);
    assert("image"@.len() == 5);
    assert("duration"@.len() == 8);
    assert("opacity"@.len() == 7);
    assert("padding"@.len() == 7);
    assert("overlays"@.len() == 8);
    assert("video"@.len() == 5);
    assert("music"@.len() == 5);
    assert("progress_bar"@.len() == 12);
    assert("overlay"@.len() == 7);
    assert("enable"@[0] != "height"@[0]);
    assert("solid"@[0] != "color"@[0]);
    assert("image"@[0] != "audio"@[0]);
    assert("opacity"@[0] != "padding"@[0]);
    assert("video"@[0] != "music"@[0]);
}

/// The value that holds `d`, if a document can hold it exactly.
fn quantity_value(d: Decimal) -> (r: Option<toml::Value>)
    ensures
        r is Some <==> keeps_text(d),
        r matches Some(v) ==> number_in(v) == Some(units_text(d.units as nat)),
{
    let text = d.to_text();
    proof {
        lemma_text_round_trip(d.units as nat);
    }
    let value = number_value(text.as_str());
    match as_number(&value) {
        Some(back) => if back == text {
            Some(value)
        } else {
            None
        },
        None => None,
    }
}

/// The section of `video`, or the first of its quantities that a document
/// cannot hold exactly.
fn video_table(video: &Video) -> (r: Result<toml::Value, ConfigError>)
    ensures
        match r {
            Ok(t) => {
                &&& holds_video(t, video@)
                &&& keeps_text(video.crop_x)
                &&& keeps_text(video.crop_y)
                &&& keeps_text(video.background_start_time)
            },
            Err(e) => if !keeps_text(video.crop_x) {
                e == ConfigError::Invalid(Field::VideoCropX)
            } else if !keeps_text(video.crop_y) {
                e == ConfigError::Invalid(Field::VideoCropY)
            } else {
                !keeps_text(video.background_start_time) && e == ConfigError::Invalid(
                    Field::VideoBackgroundStartTime,
                )
            },
        },
{
    let crop_x = match quantity_value(video.crop_x) {
        Some(v) => v,
        None => {
            return Err(ConfigError::Invalid(Field::VideoCropX));
        },
    };
    let crop_y = match quantity_value(video.crop_y) {
        Some(v) => v,
        None => {
            return Err(ConfigError::Invalid(Field::VideoCropY));
        },
    };
    let start = match quantity_value(video.background_start_time) {
        Some(v) => v,
        None => {
            return Err(ConfigError::Invalid(Field::VideoBackgroundStartTime));
        },
    };
    let mut t = table_value();
    set_entry(&mut t, "width", integer_value(video.width as i64));
    set_entry(&mut t, "height", integer_value(video.height as i64));
    set_entry(&mut t, "crop_x", crop_x);
    set_entry(&mut t, "crop_y", crop_y);
    set_entry(&mut t, "background", text_value(video.background.as_str()));
    set_entry(&mut t, "background_start_time", start);
    proof {
        lemma_video_keys();
        assert(entries_in(t)->0.dom() =~= set![
            "width"@,
            "height"@,
            "crop_x"@,
            "crop_y"@,
            "background"@,
            "background_start_time"@,
        ]);
    }
    Ok(t)
}

/// The section of `music`, or the first of its quantities that a document
/// cannot hold exactly.
fn music_table(music: &Music) -> (r: Result<toml::Value, ConfigError>)
    ensures
        match r {
            Ok(t) => {
                &&& holds_music(t, music@)
                &&& keeps_text(music.volume)
                &&& keeps_text(music.start_time)
            },
            Err(e) => if !keeps_text(music.volume) {
                e == ConfigError::Invalid(Field::MusicVolume)
            } else {
                !keeps_text(music.start_time) && e == ConfigError::Invalid(Field::MusicStartTime)
            },
        },
{
    let volume = match quantity_value(music.volume) {
        Some(v) => v,
        None => {
            return Err(ConfigError::Invalid(Field::MusicVolume));
        },
    };
    let start = match quantity_value(music.start_time) {
        Some(v) => v,
        None => {
            return Err(ConfigError::Invalid(Field::MusicStartTime));
        },
    };
    let mut t = table_value();
    set_entry(&mut t, "audio", text_value(music.audio.as_str()));
    set_entry(&mut t, "volume", volume);
    set_entry(&mut t, "start_time", start);
    proof {
        lemma_keys_differ();
        assert(entries_in(t)->0.dom() =~= set!["audio"@, "volume"@, "start_time"@]);
    }
    Ok(t)
}

/// The section of `bar`.
fn progress_bar_table(bar: &ProgressBar) -> (t: toml::Value)
    ensures
        holds_progress_bar(t, bar@),
{
    let mut t = table_value();
    set_entry(&mut t, "enable", flag_value(bar.enable));
    set_entry(&mut t, "solid", flag_value(bar.solid));
    set_entry(&mut t, "height", integer_value(bar.height as i64));
    set_entry(&mut t, "color", text_value(bar.color.as_str()));
    proof {
        lemma_keys_differ();
        assert(entries_in(t)->0.dom() =~= set!["enable"@, "solid"@, "height"@, "color"@]);
    }
    t
}

/// The table of `segment`, if a document can hold its duration exactly.
fn segment_table(segment: &OverlayMeta) -> (r: Option<toml::Value>)
    ensures
        r is Some <==> keeps_text(segment.duration),
        r matches Some(t) ==> holds_segment(t, segment@),
{
    let duration = match quantity_value(segment.duration) {
        Some(v) => v,
        None => {
            return None;
        },
    };
    let mut t = table_value();
    set_entry(&mut t, "image", text_value(segment.image.as_str()));
    set_entry(&mut t, "audio", text_value(segment.audio.as_str()));
    set_entry(&mut t, "duration", duration);
    proof {
        lemma_keys_differ();
        assert(entries_in(t)->0.dom() =~= set!["image"@, "audio"@, "duration"@]);
    }
    Some(t)
}

/// The section of `overlay`, or the first of its quantities that a
/// document cannot hold exactly.
fn overlay_table(overlay: &Overlay) -> (r: Result<toml::Value, ConfigError>)
    ensures
        match r {
            Ok(t) => {
                &&& holds_overlay(t, overlay@)
                &&& keeps_text(overlay.opacity)
                &&& first_inexact(overlay@.overlays) is None
            },
            Err(e) => if !keeps_text(overlay.opacity) {
                e == ConfigError::Invalid(Field::OverlayOpacity)
            } else {
                match first_inexact(overlay@.overlays) {
                    Some(at) => e == ConfigError::Invalid(Field::SegmentDuration(at as usize)),
                    None => false,
                }
            },
        },
{
    let opacity = match quantity_value(overlay.opacity) {
        Some(v) => v,
        None => {
            return Err(ConfigError::Invalid(Field::OverlayOpacity));
        },
    };
    let ghost segments = overlay@.overlays;
    let mut tables: Vec<toml::Value> = Vec::new();
    let mut i: usize = 0;
    assert(segments.take(0) =~= Seq::empty());
    while i < overlay.overlays.len()
        invariant
            i <= overlay.overlays.len(),
            segments == overlay@.overlays,
            keeps_text(overlay.opacity),
            tables.len() == i,
            first_inexact(segments.take(i as int)) is None,
            forall|j: int| 0 <= j < i ==> holds_segment(#[trigger] tables@[j], segments[j]),
        decreases overlay.overlays.len() - i,
    {
        proof {
            let next = segments.take(i + 1);
            assert(next.drop_last() =~= segments.take(i as int));
            assert(next.last() == overlay.overlays@[i as int]@);
        }
        match segment_table(&overlay.overlays[i]) {
            Some(t) => {
                tables.push(t);
            },
            None => {
                proof {
                    assert(first_inexact(segments.take(i + 1)) == Some(i as nat));
                    lemma_inexact_stays(segments, i + 1);
                }
                return Err(ConfigError::Invalid(Field::SegmentDuration(i)));
            },
        }
        i += 1;
    }
    assert(segments.take(i as int) =~= segments);
    let mut t = table_value();
    set_entry(&mut t, "opacity", opacity);
    set_entry(&mut t, "padding", integer_value(overlay.padding as i64));
    set_entry(&mut t, "overlays", list_value(tables));
    proof {
        lemma_keys_differ();
        assert(entries_in(t)->0.dom() =~= set!["opacity"@, "padding"@, "overlays"@]);
    }
    Ok(t)
}

/// A segment among the first `n` that cannot be held exactly is the first
/// such segment of the whole timeline.
proof fn lemma_inexact_stays(segments: Seq<OverlayMetaView>, n: int)
    requires
        0 <= n <= segments.len(),
        first_inexact(segments.take(n)) is Some,
    ensures
        first_inexact(segments) == first_inexact(segments.take(n)),
    decreases segments.len() - n,
{
    if n < segments.len() {
        assert(segments.take(n + 1).drop_last() =~= segments.take(n));
        lemma_inexact_stays(segments, n + 1);
    } else {
        assert(segments.take(n) =~= segments);
    }
}

impl Project {
    /// The document of the project. Fails with the first quantity that a
    /// document cannot hold exactly, so that what is written always reads
    /// back as what it was.
    pub fn to_document(&self) -> (r: Result<toml::Value, ConfigError>)
        ensures
            match unwritable(self@) {
                Some(e) => r == Err::<toml::Value, ConfigError>(e),
                None => match r {
                    Ok(doc) => describes(doc, self@) && read_project(doc) == Ok::<
                        ProjectView,
                        ConfigError,
                    >(self@),
                    Err(_) => false,
                },
            },
    {
        let video = match video_table(&self.video) {
            Ok(t) => t,
            Err(e) => {
                return Err(e);
            },
        };
        let music = match music_table(&self.music) {
            Ok(t) => t,
            Err(e) => {
                return Err(e);
            },
        };
        let progress_bar = progress_bar_table(&self.progress_bar);
        let overlay = match overlay_table(&self.overlay) {
            Ok(t) => t,
            Err(e) => {
                return Err(e);
            },
        };
        let mut doc = table_value();
        set_entry(&mut doc, "video", video);
        set_entry(&mut doc, "music", music);
        set_entry(&mut doc, "progress_bar", progress_bar);
        set_entry(&mut doc, "overlay", overlay);
        proof {
            lemma_keys_differ();
            assert(entries_in(doc)->0.dom() =~= set![
                "video"@,
                "music"@,
                "progress_bar"@,
                "overlay"@,
            ]);
            lemma_read_back(doc, self@);
        }
        Ok(doc)
    }

    /// The text of the project's configuration: the text of its document.
    /// Fails like [`Project::to_document`], and with `Unwritable` where
    /// the document cannot be put into text.
    pub fn save_toml(&self) -> (r: Result<String, ConfigError>)
        ensures
            match unwritable(self@) {
                Some(e) => r == Err::<String, ConfigError>(e),
                None => exists|doc: toml::Value|
                    describes(doc, self@) && text_or(r) == (match #[trigger] rendered(doc) {
                        Some(text) => Ok(text),
                        None => Err(ConfigError::Unwritable),
                    }),
            },
    {
        let doc = match self.to_document() {
            Ok(doc) => doc,
            Err(e) => {
                return Err(e);
            },
        };
        match render_document(&doc) {
            Ok(text) => Ok(text),
            Err(_) => Err(ConfigError::Unwritable),
        }
    }
}

/// The tables of a timeline read back as that timeline.
pub proof fn lemma_segments_read_back(items: Seq<toml::Value>, segments: Seq<OverlayMetaView>)
    requires
        hold_segments(items, segments),
    ensures
        read_segments(items) == Ok::<Seq<OverlayMetaView>, ConfigError>(segments),
    decreases items.len(),
{
    if items.len() == 0 {
        assert(segments =~= Seq::empty());
    } else {
        assert forall|i: int| 0 <= i < items.drop_last().len() implies holds_segment(
            #[trigger] items.drop_last()[i],
            segments.drop_last()[i],
        ) by {
            assert(holds_segment(items[i], segments[i]));
        }
        lemma_segments_read_back(items.drop_last(), segments.drop_last());
        let last = segments.last();
        assert(holds_segment(items.last(), last));
        lemma_text_round_trip(last.duration.units as nat);
        assert(segments =~= segments.drop_last().push(last));
    }
}

/// A project that was written reads back as what it was: whenever a
/// document is the document of a project, reading the document gives that
/// project, field for field, empty strings included.
pub proof fn lemma_read_back(doc: toml::Value, p: ProjectView)
    requires
        describes(doc, p),
    ensures
        read_project(doc) == Ok::<ProjectView, ConfigError>(p),
{
    lemma_text_round_trip(p.video.crop_x.units as nat);
    lemma_text_round_trip(p.video.crop_y.units as nat);
    lemma_text_round_trip(p.video.background_start_time.units as nat);
    lemma_text_round_trip(p.music.volume.units as nat);
    lemma_text_round_trip(p.music.start_time.units as nat);
    lemma_text_round_trip(p.overlay.opacity.units as nat);
    let t = entry_of(doc, "overlay"@)->0;
    let items = items_in(entry_of(t, "overlays"@)->0)->0;
    lemma_segments_read_back(items, p.overlay.overlays);
    assert(read_video(doc) == Ok::<VideoView, ConfigError>(p.video));
    assert(read_music(doc) == Ok::<MusicView, ConfigError>(p.music));
    assert(read_progress_bar(doc) == Ok::<ProgressBarView, ConfigError>(p.progress_bar));
    assert(read_overlay(doc) == Ok::<OverlayView, ConfigError>(p.overlay));
}

} // verus!
