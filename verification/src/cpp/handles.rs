//! The reader and writer handles of the C++ boundary.

use vstd::prelude::*;

use crate::cpp::playlists::{flatten_playlists, flattened, PlaylistInfo};
use crate::cpp::{native_of, track_to_native, AddTrackOutcome, Track};
use crate::device;
use crate::device::PlaylistNode;

verus! {

/// Why a track is not added.
#[derive(Debug, PartialEq, Eq, Structural)]
pub enum Error<E> {
    /// The device writer failed.
    Device(E),
    /// All track identifiers are taken.
    TooManyTracks,
}

/// A reader pointed at a device export on disk.
#[derive(Debug)]
pub struct Reader {
    path: String,
}

impl Reader {
    /// The device root that the reader was opened with.
    pub closed spec fn path(&self) -> Seq<char> {
        self.path@
    }
}

/// Points a reader at a device export (a directory containing `PIONEER`). Nothing is read yet, so
/// this succeeds on every path.
pub fn open_reader<E>(path: String) -> (r: Result<Box<Reader>, E>)
    ensures
        r is Ok,
        r->Ok_0.path() == path@,
{
    Ok(Box::new(Reader { path }))
}

/// The device root path.
pub fn reader_path(r: &Reader) -> (path: String)
    ensures
        path@ == r.path(),
{
    r.path.clone()
}

/// The playlist tree as loaded from the database, flattened below the root. A failure to load it
/// is handed on.
pub fn reader_playlists<E>(loaded: Result<Vec<PlaylistNode>, E>) -> (r: Result<
    Vec<PlaylistInfo>,
    E,
>)
    ensures
        match loaded {
            Ok(nodes) => r is Ok && r->Ok_0@ == flattened(nodes@, 0),
            Err(e) => r == Err::<Vec<PlaylistInfo>, E>(e),
        },
{
    match loaded {
        Ok(nodes) => Ok(flatten_playlists(nodes, 0)),
        Err(e) => Err(e),
    }
}

/// An export that is being filled. The identifier of a track is its position among the inserted
/// tracks, counted from one.
#[derive(Debug)]
pub struct Writer {
    root: String,
    tracks: Vec<device::Track>,
}

/// Whether a track with the file path `path` is among `tracks`.
pub open spec fn has_path(tracks: Seq<device::Track>, path: Seq<char>) -> bool {
    exists|i: int| 0 <= i < tracks.len() && (#[trigger] tracks[i]).file_path@ == path
}

/// Whether no two tracks share a file path.
pub open spec fn distinct_paths(tracks: Seq<device::Track>) -> bool {
    forall|i: int, j: int|
        0 <= i < j < tracks.len() ==> (#[trigger] tracks[i]).file_path@ != (
        #[trigger] tracks[j]).file_path@
}

/// The position of the track with the file path `path`.
pub open spec fn position_of(tracks: Seq<device::Track>, path: Seq<char>) -> int {
    choose|i: int| 0 <= i < tracks.len() && (#[trigger] tracks[i]).file_path@ == path
}

/// The tracks of an export after `track` was added: unchanged where its file path is there
/// already.
pub open spec fn with_track(tracks: Seq<device::Track>, track: device::Track) -> Seq<
    device::Track,
> {
    if has_path(tracks, track.file_path@) {
        tracks
    } else {
        tracks.push(track)
    }
}

/// The identifier that a track has once it was added.
pub open spec fn id_after_adding(tracks: Seq<device::Track>, track: device::Track) -> int {
    if has_path(tracks, track.file_path@) {
        position_of(tracks, track.file_path@) + 1
    } else {
        tracks.len() as int + 1
    }
}

impl Writer {
    /// The device root that the export goes to.
    pub closed spec fn root(&self) -> Seq<char> {
        self.root@
    }

    /// The inserted tracks in the order of insertion.
    pub closed spec fn view(&self) -> Seq<device::Track> {
        self.tracks@
    }

    /// No file path was inserted twice, and every track has a 32-bit identifier.
    pub open spec fn wf(&self) -> bool {
        &&& distinct_paths(self@)
        &&& self@.len() <= u32::MAX
    }

    /// The inserted tracks in the order of insertion.
    pub fn tracks(&self) -> (r: &Vec<device::Track>)
        ensures
            r@ == self@,
    {
        &self.tracks
    }
}

/// A writer for a new export at `root`, given what creating the export on the device led to. A
/// failure is handed on.
pub fn writer_create<E>(root: String, created: Result<(), E>) -> (r: Result<Box<Writer>, E>)
    ensures
        match created {
            Ok(_) => {
                &&& r is Ok
                &&& r->Ok_0.wf()
                &&& r->Ok_0.root() == root@
                &&& r->Ok_0@ == Seq::<device::Track>::empty()
            },
            Err(e) => r == Err::<Box<Writer>, E>(e),
        },
{
    match created {
        Ok(_) => Ok(Box::new(Writer { root, tracks: Vec::new() })),
        Err(e) => Err(e),
    }
}

/// Says what adding a track comes to, before anything is stored: a new track, or the one that has
/// its file path already. `None` where all identifiers are taken.
pub fn writer_plan_track(w: &Writer, track: &Track) -> (r: Option<AddTrackOutcome>)
    requires
        w.wf(),
    ensures
        r is None <==> !has_path(w@, track.file_path@) && w@.len() == u32::MAX,
        r matches Some(outcome) ==> {
            &&& outcome.id == id_after_adding(w@, native_of(*track))
            &&& outcome.is_new == !has_path(w@, track.file_path@)
        },
{
    let mut i: usize = 0;
    while i < w.tracks.len()
        invariant
            i <= w.tracks.len(),
            w.wf(),
            w@ == w.tracks@,
            forall|k: int| 0 <= k < i ==> (#[trigger] w@[k]).file_path@ != track.file_path@,
        decreases w.tracks.len() - i,
    {
        if w.tracks[i].file_path == track.file_path {
            assert(w@[i as int].file_path@ == track.file_path@);
            return Some(AddTrackOutcome { id: (i + 1) as u32, is_new: false });
        }
        i = i + 1;
    }
    if w.tracks.len() >= u32::MAX as usize {
        return None;
    }
    Some(AddTrackOutcome { id: (w.tracks.len() + 1) as u32, is_new: true })
}

/// Inserts a track, or returns the one that has its file path already, given what storing it on the
/// device led to. A failure is handed on and leaves the export as it was.
pub fn writer_add_track<E>(w: &mut Writer, track: &Track, stored: Result<(), E>) -> (r: Result<
    AddTrackOutcome,
    Error<E>,
>)
    requires
        old(w).wf(),
    ensures
        final(w).wf(),
        final(w).root() == old(w).root(),
        r is Err ==> final(w)@ == old(w)@,
        if !has_path(old(w)@, track.file_path@) && old(w)@.len() == u32::MAX {
            r == Err::<AddTrackOutcome, Error<E>>(Error::TooManyTracks)
        } else {
            match stored {
                Err(e) => r == Err::<AddTrackOutcome, Error<E>>(Error::Device(e)),
                Ok(_) => {
                    let native = native_of(*track);
                    &&& r is Ok
                    &&& final(w)@ == with_track(old(w)@, native)
                    &&& r->Ok_0.id == id_after_adding(old(w)@, native)
                    &&& r->Ok_0.is_new == !has_path(old(w)@, track.file_path@)
                },
            }
        },
        r matches Ok(outcome) && outcome.is_new ==> {
            let last = final(w)@.last();
            &&& final(w)@.len() == old(w)@.len() + 1
            &&& last.title@ == track.title@
            &&& last.artist@ == track.artist@
            &&& last.album@ == track.album@
            &&& last.genre@ == track.genre@
            &&& last.key@ == track.key@
            &&& last.label@ == track.label@
            &&& last.composer@ == track.composer@
            &&& last.remixer@ == track.remixer@
            &&& last.orig_artist@ == track.orig_artist@
            &&& last.comment@ == track.comment@
            &&& last.isrc@ == track.isrc@
            &&& last.lyricist@ == track.lyricist@
            &&& last.mix_name@ == track.mix_name@
            &&& last.release_date@ == track.release_date@
            &&& last.date_added@ == track.date_added@
            &&& last.file_path@ == track.file_path@
            &&& last.filename@ == track.filename@
            &&& last.artwork_device_path@ == track.artwork_device_path@
            &&& last.message@ == track.message@
            &&& last.tempo_bits == track.tempo_bits
            &&& last.bitrate == track.bitrate
            &&& last.sample_rate == track.sample_rate
            &&& last.sample_depth == track.sample_depth
            &&& last.duration_secs == track.duration_secs
            &&& last.file_size == track.file_size
            &&& last.track_number == track.track_number
            &&& last.disc_number == track.disc_number
            &&& last.year == track.year
            &&& last.play_count == track.play_count
            &&& last.autoload_hotcues == track.autoload_hotcues
        },
        r matches Ok(outcome) ==> 1 <= outcome.id <= final(w)@.len() && final(w)@[outcome.id
            - 1].file_path@ == track.file_path@,
{
    let outcome = match writer_plan_track(w, track) {
        Some(outcome) => outcome,
        None => {
            return Err(Error::TooManyTracks);
        },
    };
    match stored {
        Ok(_) => {},
        Err(e) => {
            return Err(Error::Device(e));
        },
    }
    if outcome.is_new {
        w.tracks.push(track_to_native(track));
    }
    Ok(outcome)
}

/// Closes the writer, given what closing the export on the device led to, and hands out the device
/// root and the tracks that the export consists of. A failure is handed on.
pub fn writer_close<E>(w: Box<Writer>, closed: Result<(), E>) -> (r: Result<
    (String, Vec<device::Track>),
    E,
>)
    ensures
        match closed {
            Ok(_) => r is Ok && r->Ok_0.0@ == w.root() && r->Ok_0.1@ == w@,
            Err(e) => r == Err::<(String, Vec<device::Track>), E>(e),
        },
{
    match closed {
        Ok(_) => {
            let writer = *w;
            Ok((writer.root, writer.tracks))
        },
        Err(e) => Err(e),
    }
}

/// Adding a track once more changes nothing and yields the identifier it got at first.
pub proof fn law_adding_twice(tracks: Seq<device::Track>, track: device::Track)
    requires
        distinct_paths(tracks),
    ensures
        with_track(with_track(tracks, track), track) == with_track(tracks, track),
        has_path(with_track(tracks, track), track.file_path@),
        id_after_adding(with_track(tracks, track), track) == id_after_adding(tracks, track),
{
    let after = with_track(tracks, track);
    if !has_path(tracks, track.file_path@) {
        assert(after.last().file_path@ == track.file_path@);
        let at = position_of(after, track.file_path@);
        assert(after[at].file_path@ == track.file_path@);
        if at < tracks.len() {
            assert(tracks[at].file_path@ == track.file_path@);
        }
    }
}

/// The first track of a new export gets the identifier one.
pub proof fn law_first_track(track: device::Track)
    ensures
        id_after_adding(Seq::empty(), track) == 1,
        with_track(Seq::empty(), track) == seq![track],
{
    assert(with_track(Seq::empty(), track) =~= seq![track]);
}

/// Adding another track changes neither the tracks that are there nor their identifiers.
pub proof fn law_identifiers_are_stable(
    tracks: Seq<device::Track>,
    track: device::Track,
    i: int,
)
    requires
        distinct_paths(tracks),
        0 <= i < tracks.len(),
    ensures
        i < with_track(tracks, track).len(),
        with_track(tracks, track)[i] == tracks[i],
        distinct_paths(with_track(tracks, track)),
        id_after_adding(with_track(tracks, track), tracks[i]) == i + 1,
{
    let after = with_track(tracks, track);
    assert(after[i].file_path@ == tracks[i].file_path@);
    let at = position_of(after, tracks[i].file_path@);
    assert(after[at].file_path@ == after[i].file_path@);
    assert(distinct_paths(after)) by {
        assert forall|a: int, b: int| 0 <= a < b < after.len() implies (
        #[trigger] after[a]).file_path@ != (#[trigger] after[b]).file_path@ by {
            assert(after[a] == tracks[a]);
        }
    }
}

/// Once a track was added, the export holds a track with its file path at the place that its
/// identifier says, and the tracks before it are those that were there.
pub proof fn law_identifier_finds_the_track(tracks: Seq<device::Track>, track: device::Track)
    requires
        distinct_paths(tracks),
    ensures
        1 <= id_after_adding(tracks, track) <= with_track(tracks, track).len(),
        with_track(tracks, track)[id_after_adding(tracks, track) - 1].file_path@
            == track.file_path@,
        tracks.is_prefix_of(with_track(tracks, track)),
        with_track(tracks, track).len() <= tracks.len() + 1,
        (forall|i: int| 0 <= i < tracks.len() ==> (#[trigger] tracks[i]).file_path@
            != track.file_path@) ==> with_track(tracks, track) == tracks.push(track),
{
    assert(tracks =~= with_track(tracks, track).subrange(0, tracks.len() as int));
    if has_path(tracks, track.file_path@) {
        let at = position_of(tracks, track.file_path@);
        assert(tracks[at].file_path@ == track.file_path@);
    }
}

} // verus!
