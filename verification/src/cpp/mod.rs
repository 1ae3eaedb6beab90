//! Types and functions that cross the C++ boundary.

pub mod handles;
pub mod playlists;

use vstd::prelude::*;
use vstd::std_specs::convert::FromSpec;

use crate::device;
use crate::util;

verus! {

/// A track as a C++ consumer thinks of it: plain texts and numbers.
///
/// `tempo_bits` holds the IEEE 754 single-precision bits of the tempo in BPM, and
/// `artwork_device_path` the path stored verbatim in the artwork row, empty for none.
#[derive(Debug)]
pub struct Track {
    pub title: String,
    pub artist: String,
    pub album: String,
    pub genre: String,
    pub key: String,
    pub label: String,
    pub composer: String,
    pub remixer: String,
    pub orig_artist: String,
    pub comment: String,
    pub isrc: String,
    pub lyricist: String,
    pub mix_name: String,
    pub release_date: String,
    pub date_added: String,
    pub file_path: String,
    pub filename: String,
    pub artwork_device_path: String,
    pub message: String,
    pub tempo_bits: u32,
    pub bitrate: u32,
    pub sample_rate: u32,
    pub sample_depth: u16,
    pub duration_secs: u16,
    pub file_size: u32,
    pub track_number: u32,
    pub disc_number: u16,
    pub year: u16,
    pub play_count: u16,
    pub rating: Rating,
    pub color: ColorIndex,
    pub file_type: FileType,
    pub autoload_hotcues: bool,
}

/// Outcome of adding a track: a freshly inserted track id, or the existing one if the file path
/// was already there.
#[derive(Debug, Clone, Copy, PartialEq, Eq, Structural)]
pub struct AddTrackOutcome {
    pub id: u32,
    pub is_new: bool,
}

/// Star rating, 0..=5.
#[derive(Debug, Clone, Copy, PartialEq, Eq, Structural)]
pub enum Rating {
    Zero,
    One,
    Two,
    Three,
    Four,
    Five,
}

/// Rekordbox color label.
#[derive(Debug, Clone, Copy, PartialEq, Eq, Structural)]
pub enum ColorIndex {
    NoColor,
    Pink,
    Red,
    Orange,
    Yellow,
    Green,
    Aqua,
    Blue,
    Purple,
}

/// Audio file format. Raw values without a name are represented as `Unknown`.
#[derive(Debug, Clone, Copy, PartialEq, Eq, Structural)]
pub enum FileType {
    Unknown,
    Mp3,
    M4a,
    Flac,
    Wav,
    Aiff,
}

impl From<util::Rating> for Rating {
    fn from(value: util::Rating) -> (r: Self) {
        match value {
            util::Rating::Zero => Rating::Zero,
            util::Rating::One => Rating::One,
            util::Rating::Two => Rating::Two,
            util::Rating::Three => Rating::Three,
            util::Rating::Four => Rating::Four,
            util::Rating::Five => Rating::Five,
        }
    }
}

impl vstd::std_specs::convert::FromSpecImpl<util::Rating> for Rating {
    open spec fn obeys_from_spec() -> bool {
        true
    }

    open spec fn from_spec(value: util::Rating) -> Self {
        match value {
            util::Rating::Zero => Rating::Zero,
            util::Rating::One => Rating::One,
            util::Rating::Two => Rating::Two,
            util::Rating::Three => Rating::Three,
            util::Rating::Four => Rating::Four,
            util::Rating::Five => Rating::Five,
        }
    }
}

impl From<Rating> for util::Rating {
    fn from(value: Rating) -> (r: Self) {
        match value {
            Rating::Zero => util::Rating::Zero,
            Rating::One => util::Rating::One,
            Rating::Two => util::Rating::Two,
            Rating::Three => util::Rating::Three,
            Rating::Four => util::Rating::Four,
            Rating::Five => util::Rating::Five,
        }
    }
}

impl vstd::std_specs::convert::FromSpecImpl<Rating> for util::Rating {
    open spec fn obeys_from_spec() -> bool {
        true
    }

    open spec fn from_spec(value: Rating) -> Self {
        match value {
            Rating::Zero => util::Rating::Zero,
            Rating::One => util::Rating::One,
            Rating::Two => util::Rating::Two,
            Rating::Three => util::Rating::Three,
            Rating::Four => util::Rating::Four,
            Rating::Five => util::Rating::Five,
        }
    }
}

impl From<util::ColorIndex> for ColorIndex {
    fn from(value: util::ColorIndex) -> (r: Self) {
        match value {
            util::ColorIndex::NoColor => ColorIndex::NoColor,
            util::ColorIndex::Pink => ColorIndex::Pink,
            util::ColorIndex::Red => ColorIndex::Red,
            util::ColorIndex::Orange => ColorIndex::Orange,
            util::ColorIndex::Yellow => ColorIndex::Yellow,
            util::ColorIndex::Green => ColorIndex::Green,
            util::ColorIndex::Aqua => ColorIndex::Aqua,
            util::ColorIndex::Blue => ColorIndex::Blue,
            util::ColorIndex::Purple => ColorIndex::Purple,
        }
    }
}

impl vstd::std_specs::convert::FromSpecImpl<util::ColorIndex> for ColorIndex {
    open spec fn obeys_from_spec() -> bool {
        true
    }

    open spec fn from_spec(value: util::ColorIndex) -> Self {
        match value {
            util::ColorIndex::NoColor => ColorIndex::NoColor,
            util::ColorIndex::Pink => ColorIndex::Pink,
            util::ColorIndex::Red => ColorIndex::Red,
            util::ColorIndex::Orange => ColorIndex::Orange,
            util::ColorIndex::Yellow => ColorIndex::Yellow,
            util::ColorIndex::Green => ColorIndex::Green,
            util::ColorIndex::Aqua => ColorIndex::Aqua,
            util::ColorIndex::Blue => ColorIndex::Blue,
            util::ColorIndex::Purple => ColorIndex::Purple,
        }
    }
}

impl From<ColorIndex> for util::ColorIndex {
    fn from(value: ColorIndex) -> (r: Self) {
        match value {
            ColorIndex::NoColor => util::ColorIndex::NoColor,
            ColorIndex::Pink => util::ColorIndex::Pink,
            ColorIndex::Red => util::ColorIndex::Red,
            ColorIndex::Orange => util::ColorIndex::Orange,
            ColorIndex::Yellow => util::ColorIndex::Yellow,
            ColorIndex::Green => util::ColorIndex::Green,
            ColorIndex::Aqua => util::ColorIndex::Aqua,
            ColorIndex::Blue => util::ColorIndex::Blue,
            ColorIndex::Purple => util::ColorIndex::Purple,
        }
    }
}

impl vstd::std_specs::convert::FromSpecImpl<ColorIndex> for util::ColorIndex {
    open spec fn obeys_from_spec() -> bool {
        true
    }

    open spec fn from_spec(value: ColorIndex) -> Self {
        match value {
            ColorIndex::NoColor => util::ColorIndex::NoColor,
            ColorIndex::Pink => util::ColorIndex::Pink,
            ColorIndex::Red => util::ColorIndex::Red,
            ColorIndex::Orange => util::ColorIndex::Orange,
            ColorIndex::Yellow => util::ColorIndex::Yellow,
            ColorIndex::Green => util::ColorIndex::Green,
            ColorIndex::Aqua => util::ColorIndex::Aqua,
            ColorIndex::Blue => util::ColorIndex::Blue,
            ColorIndex::Purple => util::ColorIndex::Purple,
        }
    }
}

impl From<util::FileType> for FileType {
    fn from(value: util::FileType) -> (r: Self) {
        match value {
            util::FileType::Unknown => FileType::Unknown,
            util::FileType::Mp3 => FileType::Mp3,
            util::FileType::M4a => FileType::M4a,
            util::FileType::Flac => FileType::Flac,
            util::FileType::Wav => FileType::Wav,
            util::FileType::Aiff => FileType::Aiff,
            util::FileType::Other(_) => FileType::Unknown,
        }
    }
}

impl vstd::std_specs::convert::FromSpecImpl<util::FileType> for FileType {
    open spec fn obeys_from_spec() -> bool {
        true
    }

    open spec fn from_spec(value: util::FileType) -> Self {
        match value {
            util::FileType::Unknown => FileType::Unknown,
            util::FileType::Mp3 => FileType::Mp3,
            util::FileType::M4a => FileType::M4a,
            util::FileType::Flac => FileType::Flac,
            util::FileType::Wav => FileType::Wav,
            util::FileType::Aiff => FileType::Aiff,
            util::FileType::Other(_) => FileType::Unknown,
        }
    }
}

impl From<FileType> for util::FileType {
    fn from(value: FileType) -> (r: Self) {
        match value {
            FileType::Unknown => util::FileType::Unknown,
            FileType::Mp3 => util::FileType::Mp3,
            FileType::M4a => util::FileType::M4a,
            FileType::Flac => util::FileType::Flac,
            FileType::Wav => util::FileType::Wav,
            FileType::Aiff => util::FileType::Aiff,
        }
    }
}

impl vstd::std_specs::convert::FromSpecImpl<FileType> for util::FileType {
    open spec fn obeys_from_spec() -> bool {
        true
    }

    open spec fn from_spec(value: FileType) -> Self {
        match value {
            FileType::Unknown => util::FileType::Unknown,
            FileType::Mp3 => util::FileType::Mp3,
            FileType::M4a => util::FileType::M4a,
            FileType::Flac => util::FileType::Flac,
            FileType::Wav => util::FileType::Wav,
            FileType::Aiff => util::FileType::Aiff,
        }
    }
}

impl Rating {
    /// The rating that the raw number `repr` of the foreign enumeration stands for.
    pub open spec fn of_repr(repr: u8) -> Rating {
        if repr == 0 {
            Rating::Zero
        } else if repr == 1 {
            Rating::One
        } else if repr == 2 {
            Rating::Two
        } else if repr == 3 {
            Rating::Three
        } else if repr == 4 {
            Rating::Four
        } else if repr == 5 {
            Rating::Five
        } else {
            Rating::Zero
        }
    }

    /// Reads the raw number of the foreign enumeration, which is open: a number without a
    /// variant stands for `Zero`.
    pub fn from_repr(repr: u8) -> (r: Rating)
        ensures
            r == Rating::of_repr(repr),
    {
        match repr {
            0 => Rating::Zero,
            1 => Rating::One,
            2 => Rating::Two,
            3 => Rating::Three,
            4 => Rating::Four,
            5 => Rating::Five,
            _ => Rating::Zero,
        }
    }
}

impl ColorIndex {
    /// The color that the raw number `repr` of the foreign enumeration stands for.
    pub open spec fn of_repr(repr: u8) -> ColorIndex {
        if repr == 0 {
            ColorIndex::NoColor
        } else if repr == 1 {
            ColorIndex::Pink
        } else if repr == 2 {
            ColorIndex::Red
        } else if repr == 3 {
            ColorIndex::Orange
        } else if repr == 4 {
            ColorIndex::Yellow
        } else if repr == 5 {
            ColorIndex::Green
        } else if repr == 6 {
            ColorIndex::Aqua
        } else if repr == 7 {
            ColorIndex::Blue
        } else if repr == 8 {
            ColorIndex::Purple
        } else {
            ColorIndex::NoColor
        }
    }

    /// Reads the raw number of the foreign enumeration, which is open: a number without a
    /// variant stands for `NoColor`.
    pub fn from_repr(repr: u8) -> (r: ColorIndex)
        ensures
            r == ColorIndex::of_repr(repr),
    {
        match repr {
            0 => ColorIndex::NoColor,
            1 => ColorIndex::Pink,
            2 => ColorIndex::Red,
            3 => ColorIndex::Orange,
            4 => ColorIndex::Yellow,
            5 => ColorIndex::Green,
            6 => ColorIndex::Aqua,
            7 => ColorIndex::Blue,
            8 => ColorIndex::Purple,
            _ => ColorIndex::NoColor,
        }
    }
}

impl FileType {
    /// The file format that the raw number `repr` of the foreign enumeration stands for.
    pub open spec fn of_repr(repr: u8) -> FileType {
        if repr == 0 {
            FileType::Unknown
        } else if repr == 1 {
            FileType::Mp3
        } else if repr == 2 {
            FileType::M4a
        } else if repr == 3 {
            FileType::Flac
        } else if repr == 4 {
            FileType::Wav
        } else if repr == 5 {
            FileType::Aiff
        } else {
            FileType::Unknown
        }
    }

    /// Reads the raw number of the foreign enumeration, which is open: a number without a
    /// variant stands for `Unknown`.
    pub fn from_repr(repr: u8) -> (r: FileType)
        ensures
            r == FileType::of_repr(repr),
    {
        match repr {
            0 => FileType::Unknown,
            1 => FileType::Mp3,
            2 => FileType::M4a,
            3 => FileType::Flac,
            4 => FileType::Wav,
            5 => FileType::Aiff,
            _ => FileType::Unknown,
        }
    }
}

/// The typed track that holds what the boundary track `t` holds, field for field.
pub open spec fn native_of(t: Track) -> device::Track {
    device::Track {
        title: t.title,
        artist: t.artist,
        album: t.album,
        genre: t.genre,
        key: t.key,
        label: t.label,
        composer: t.composer,
        remixer: t.remixer,
        orig_artist: t.orig_artist,
        comment: t.comment,
        isrc: t.isrc,
        lyricist: t.lyricist,
        mix_name: t.mix_name,
        release_date: t.release_date,
        date_added: t.date_added,
        file_path: t.file_path,
        filename: t.filename,
        artwork_device_path: t.artwork_device_path,
        message: t.message,
        tempo_bits: t.tempo_bits,
        bitrate: t.bitrate,
        sample_rate: t.sample_rate,
        sample_depth: t.sample_depth,
        duration_secs: t.duration_secs,
        file_size: t.file_size,
        track_number: t.track_number,
        disc_number: t.disc_number,
        year: t.year,
        play_count: t.play_count,
        rating: <util::Rating as FromSpec<Rating>>::from_spec(t.rating),
        color: <util::ColorIndex as FromSpec<ColorIndex>>::from_spec(t.color),
        file_type: <util::FileType as FromSpec<FileType>>::from_spec(t.file_type),
        autoload_hotcues: t.autoload_hotcues,
    }
}

/// Copies the boundary track into the typed one, field for field.
pub fn track_to_native(t: &Track) -> (r: device::Track)
    ensures
        r == native_of(*t),
        r.title@ == t.title@,
        r.artist@ == t.artist@,
        r.album@ == t.album@,
        r.genre@ == t.genre@,
        r.key@ == t.key@,
        r.label@ == t.label@,
        r.composer@ == t.composer@,
        r.remixer@ == t.remixer@,
        r.orig_artist@ == t.orig_artist@,
        r.comment@ == t.comment@,
        r.isrc@ == t.isrc@,
        r.lyricist@ == t.lyricist@,
        r.mix_name@ == t.mix_name@,
        r.release_date@ == t.release_date@,
        r.date_added@ == t.date_added@,
        r.file_path@ == t.file_path@,
        r.filename@ == t.filename@,
        r.artwork_device_path@ == t.artwork_device_path@,
        r.message@ == t.message@,
        r.tempo_bits == t.tempo_bits,
        r.bitrate == t.bitrate,
        r.sample_rate == t.sample_rate,
        r.sample_depth == t.sample_depth,
        r.duration_secs == t.duration_secs,
        r.file_size == t.file_size,
        r.track_number == t.track_number,
        r.disc_number == t.disc_number,
        r.year == t.year,
        r.play_count == t.play_count,
        r.autoload_hotcues == t.autoload_hotcues,
{
    device::Track {
        title: t.title.clone(),
        artist: t.artist.clone(),
        album: t.album.clone(),
        genre: t.genre.clone(),
        key: t.key.clone(),
        label: t.label.clone(),
        composer: t.composer.clone(),
        remixer: t.remixer.clone(),
        orig_artist: t.orig_artist.clone(),
        comment: t.comment.clone(),
        isrc: t.isrc.clone(),
        lyricist: t.lyricist.clone(),
        mix_name: t.mix_name.clone(),
        release_date: t.release_date.clone(),
        date_added: t.date_added.clone(),
        file_path: t.file_path.clone(),
        filename: t.filename.clone(),
        artwork_device_path: t.artwork_device_path.clone(),
        message: t.message.clone(),
        tempo_bits: t.tempo_bits,
        bitrate: t.bitrate,
        sample_rate: t.sample_rate,
        sample_depth: t.sample_depth,
        duration_secs: t.duration_secs,
        file_size: t.file_size,
        track_number: t.track_number,
        disc_number: t.disc_number,
        year: t.year,
        play_count: t.play_count,
        rating: util::Rating::from(t.rating),
        color: util::ColorIndex::from(t.color),
        file_type: util::FileType::from(t.file_type),
        autoload_hotcues: t.autoload_hotcues,
    }
}

/// A zeroed track for the caller to fill in.
pub fn track_default() -> (r: Track)
    ensures
        native_of(r).is_blank(),
        r.rating == Rating::Zero,
        r.color == ColorIndex::NoColor,
        r.file_type == FileType::Unknown,
{
    let d: device::Track = device::Track::default();
    Track {
        title: d.title,
        artist: d.artist,
        album: d.album,
        genre: d.genre,
        key: d.key,
        label: d.label,
        composer: d.composer,
        remixer: d.remixer,
        orig_artist: d.orig_artist,
        comment: d.comment,
        isrc: d.isrc,
        lyricist: d.lyricist,
        mix_name: d.mix_name,
        release_date: d.release_date,
        date_added: d.date_added,
        file_path: d.file_path,
        filename: d.filename,
        artwork_device_path: d.artwork_device_path,
        message: d.message,
        tempo_bits: d.tempo_bits,
        bitrate: d.bitrate,
        sample_rate: d.sample_rate,
        sample_depth: d.sample_depth,
        duration_secs: d.duration_secs,
        file_size: d.file_size,
        track_number: d.track_number,
        disc_number: d.disc_number,
        year: d.year,
        play_count: d.play_count,
        rating: Rating::from(d.rating),
        color: ColorIndex::from(d.color),
        file_type: FileType::from(d.file_type),
        autoload_hotcues: d.autoload_hotcues,
    }
}

/// A rating survives the way to the boundary type and back, and the other way round.
pub proof fn law_rating_round_trip(native: util::Rating, foreign: Rating)
    ensures
        <util::Rating as FromSpec<Rating>>::from_spec(
            <Rating as FromSpec<util::Rating>>::from_spec(native),
        ) == native,
        <Rating as FromSpec<util::Rating>>::from_spec(
            <util::Rating as FromSpec<Rating>>::from_spec(foreign),
        ) == foreign,
{
}

/// A color survives the way to the boundary type and back, and the other way round.
pub proof fn law_color_round_trip(native: util::ColorIndex, foreign: ColorIndex)
    ensures
        <util::ColorIndex as FromSpec<ColorIndex>>::from_spec(
            <ColorIndex as FromSpec<util::ColorIndex>>::from_spec(native),
        ) == native,
        <ColorIndex as FromSpec<util::ColorIndex>>::from_spec(
            <util::ColorIndex as FromSpec<ColorIndex>>::from_spec(foreign),
        ) == foreign,
{
}

/// A file format survives the way through the boundary type unless it is a raw value without a
/// name, which comes back as unknown; every boundary format survives the way back.
pub proof fn law_file_type_round_trip(native: util::FileType, foreign: FileType)
    ensures
        <util::FileType as FromSpec<FileType>>::from_spec(
            <FileType as FromSpec<util::FileType>>::from_spec(native),
        ) == (if native is Other {
            util::FileType::Unknown
        } else {
            native
        }),
        <FileType as FromSpec<util::FileType>>::from_spec(
            <util::FileType as FromSpec<FileType>>::from_spec(foreign),
        ) == foreign,
{
}

/// The typed track has in each field what the boundary track has in the field of the same name; the
/// rating, the color and the file format keep their names.
pub proof fn law_fields_keep_their_names(t: Track)
    ensures
        native_of(t).title@ == t.title@,
        native_of(t).artist@ == t.artist@,
        native_of(t).album@ == t.album@,
        native_of(t).genre@ == t.genre@,
        native_of(t).key@ == t.key@,
        native_of(t).label@ == t.label@,
        native_of(t).composer@ == t.composer@,
        native_of(t).remixer@ == t.remixer@,
        native_of(t).orig_artist@ == t.orig_artist@,
        native_of(t).comment@ == t.comment@,
        native_of(t).isrc@ == t.isrc@,
        native_of(t).lyricist@ == t.lyricist@,
        native_of(t).mix_name@ == t.mix_name@,
        native_of(t).release_date@ == t.release_date@,
        native_of(t).date_added@ == t.date_added@,
        native_of(t).file_path@ == t.file_path@,
        native_of(t).filename@ == t.filename@,
        native_of(t).artwork_device_path@ == t.artwork_device_path@,
        native_of(t).message@ == t.message@,
        native_of(t).tempo_bits == t.tempo_bits,
        native_of(t).bitrate == t.bitrate,
        native_of(t).sample_rate == t.sample_rate,
        native_of(t).sample_depth == t.sample_depth,
        native_of(t).duration_secs == t.duration_secs,
        native_of(t).file_size == t.file_size,
        native_of(t).track_number == t.track_number,
        native_of(t).disc_number == t.disc_number,
        native_of(t).year == t.year,
        native_of(t).play_count == t.play_count,
        native_of(t).autoload_hotcues == t.autoload_hotcues,
        t.rating is Five <==> native_of(t).rating is Five,
        t.color is Purple <==> native_of(t).color is Purple,
        t.file_type is Mp3 <==> native_of(t).file_type is Mp3,
{
}

/// A rating keeps its name in both directions, and is numbered by its stars.
pub proof fn law_ratings_keep_their_names(native: util::Rating, foreign: Rating)
    ensures
        native is Zero <==> <Rating as FromSpec<util::Rating>>::from_spec(native) is Zero,
        foreign is Zero <==> <util::Rating as FromSpec<Rating>>::from_spec(foreign) is Zero,
        native is One <==> <Rating as FromSpec<util::Rating>>::from_spec(native) is One,
        foreign is One <==> <util::Rating as FromSpec<Rating>>::from_spec(foreign) is One,
        native is Two <==> <Rating as FromSpec<util::Rating>>::from_spec(native) is Two,
        foreign is Two <==> <util::Rating as FromSpec<Rating>>::from_spec(foreign) is Two,
        native is Three <==> <Rating as FromSpec<util::Rating>>::from_spec(native) is Three,
        foreign is Three <==> <util::Rating as FromSpec<Rating>>::from_spec(foreign) is Three,
        native is Four <==> <Rating as FromSpec<util::Rating>>::from_spec(native) is Four,
        foreign is Four <==> <util::Rating as FromSpec<Rating>>::from_spec(foreign) is Four,
        native is Five <==> <Rating as FromSpec<util::Rating>>::from_spec(native) is Five,
        foreign is Five <==> <util::Rating as FromSpec<Rating>>::from_spec(foreign) is Five,
        Rating::of_repr(0) is Zero,
        Rating::of_repr(1) is One,
        Rating::of_repr(2) is Two,
        Rating::of_repr(3) is Three,
        Rating::of_repr(4) is Four,
        Rating::of_repr(5) is Five,
{
}

/// A color keeps its name in both directions, and is numbered in the order of the labels.
pub proof fn law_colors_keep_their_names(native: util::ColorIndex, foreign: ColorIndex)
    ensures
        native is NoColor <==> <ColorIndex as FromSpec<util::ColorIndex>>::from_spec(native) is NoColor,
        foreign is NoColor <==> <util::ColorIndex as FromSpec<ColorIndex>>::from_spec(foreign) is NoColor,
        native is Pink <==> <ColorIndex as FromSpec<util::ColorIndex>>::from_spec(native) is Pink,
        foreign is Pink <==> <util::ColorIndex as FromSpec<ColorIndex>>::from_spec(foreign) is Pink,
        native is Red <==> <ColorIndex as FromSpec<util::ColorIndex>>::from_spec(native) is Red,
        foreign is Red <==> <util::ColorIndex as FromSpec<ColorIndex>>::from_spec(foreign) is Red,
        native is Orange <==> <ColorIndex as FromSpec<util::ColorIndex>>::from_spec(native) is Orange,
        foreign is Orange <==> <util::ColorIndex as FromSpec<ColorIndex>>::from_spec(foreign) is Orange,
        native is Yellow <==> <ColorIndex as FromSpec<util::ColorIndex>>::from_spec(native) is Yellow,
        foreign is Yellow <==> <util::ColorIndex as FromSpec<ColorIndex>>::from_spec(foreign) is Yellow,
        native is Green <==> <ColorIndex as FromSpec<util::ColorIndex>>::from_spec(native) is Green,
        foreign is Green <==> <util::ColorIndex as FromSpec<ColorIndex>>::from_spec(foreign) is Green,
        native is Aqua <==> <ColorIndex as FromSpec<util::ColorIndex>>::from_spec(native) is Aqua,
        foreign is Aqua <==> <util::ColorIndex as FromSpec<ColorIndex>>::from_spec(foreign) is Aqua,
        native is Blue <==> <ColorIndex as FromSpec<util::ColorIndex>>::from_spec(native) is Blue,
        foreign is Blue <==> <util::ColorIndex as FromSpec<ColorIndex>>::from_spec(foreign) is Blue,
        native is Purple <==> <ColorIndex as FromSpec<util::ColorIndex>>::from_spec(native) is Purple,
        foreign is Purple <==> <util::ColorIndex as FromSpec<ColorIndex>>::from_spec(foreign) is Purple,
        ColorIndex::of_repr(0) is NoColor,
        ColorIndex::of_repr(1) is Pink,
        ColorIndex::of_repr(2) is Red,
        ColorIndex::of_repr(3) is Orange,
        ColorIndex::of_repr(4) is Yellow,
        ColorIndex::of_repr(5) is Green,
        ColorIndex::of_repr(6) is Aqua,
        ColorIndex::of_repr(7) is Blue,
        ColorIndex::of_repr(8) is Purple,
{
}

/// A file format keeps its name in both directions, but for raw values without a name, and is
/// numbered in the order of the formats.
pub proof fn law_file_types_keep_their_names(native: util::FileType, foreign: FileType)
    ensures
        native is Unknown || native is Other <==> <FileType as FromSpec<
            util::FileType,
        >>::from_spec(native) is Unknown,
        foreign is Unknown <==> <util::FileType as FromSpec<FileType>>::from_spec(
            foreign,
        ) is Unknown,
        native is Mp3 <==> <FileType as FromSpec<util::FileType>>::from_spec(native) is Mp3,
        foreign is Mp3 <==> <util::FileType as FromSpec<FileType>>::from_spec(foreign) is Mp3,
        native is M4a <==> <FileType as FromSpec<util::FileType>>::from_spec(native) is M4a,
        foreign is M4a <==> <util::FileType as FromSpec<FileType>>::from_spec(foreign) is M4a,
        native is Flac <==> <FileType as FromSpec<util::FileType>>::from_spec(native) is Flac,
        foreign is Flac <==> <util::FileType as FromSpec<FileType>>::from_spec(foreign) is Flac,
        native is Wav <==> <FileType as FromSpec<util::FileType>>::from_spec(native) is Wav,
        foreign is Wav <==> <util::FileType as FromSpec<FileType>>::from_spec(foreign) is Wav,
        native is Aiff <==> <FileType as FromSpec<util::FileType>>::from_spec(native) is Aiff,
        foreign is Aiff <==> <util::FileType as FromSpec<FileType>>::from_spec(foreign) is Aiff,
        FileType::of_repr(0) is Unknown,
        FileType::of_repr(1) is Mp3,
        FileType::of_repr(2) is M4a,
        FileType::of_repr(3) is Flac,
        FileType::of_repr(4) is Wav,
        FileType::of_repr(5) is Aiff,
{
}

/// A number of the foreign enumerations that no variant has stands for the neutral one.
pub proof fn law_numbers_without_a_variant(repr: u8)
    ensures
        repr > 5 ==> Rating::of_repr(repr) is Zero,
        repr > 8 ==> ColorIndex::of_repr(repr) is NoColor,
        repr > 5 ==> FileType::of_repr(repr) is Unknown,
{
}

} // verus!
