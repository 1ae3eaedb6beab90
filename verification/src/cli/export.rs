//! The rows of a new device database: what is stored of each exported audio file, and which
//! artists and albums the files share.

use vstd::prelude::*;
use vstd::string::*;

use crate::device::layout::texts;
use crate::pdb::{
    Album, AlbumId, ArtistId, ArtistName, History, PageType, PlainPageType, Track, TrackId,
};
use crate::text::{
    decimal, decimal_text, law_numerals_read_back, law_padding, law_padding_keeps_the_value,
    same_text, value_of, zero_padded,
};
use crate::util::FileType;

verus! {

/// What was read of an audio file that has been copied to the device.
#[derive(Debug)]
pub struct AudioFile {
    /// The name of the source file without its extension.
    pub stem: String,
    /// The name of the file on the device.
    pub device_name: String,
    pub title: Option<String>,
    pub artist: Option<String>,
    pub album: Option<String>,
    pub duration_secs: u64,
    pub sample_rate: Option<u32>,
    pub bitrate: Option<u32>,
    pub file_size: u64,
    /// Tempo in centi-BPM, if it could be measured.
    pub tempo: Option<u32>,
}

/// What is stored of an audio file.
#[derive(Debug)]
pub struct TrackInfo {
    pub dest_filename: String,
    pub title: String,
    pub artist_name: String,
    pub album_name: String,
    pub duration_secs: u16,
    pub sample_rate: u32,
    pub bitrate: u32,
    pub file_size: u32,
    pub tempo: u32,
}

/// An optional text, or `otherwise`.
pub open spec fn text_or(text: Option<String>, otherwise: Seq<char>) -> Seq<char> {
    match text {
        Some(text) => text@,
        None => otherwise,
    }
}

/// An optional number, or `otherwise`.
pub open spec fn number_or(number: Option<u32>, otherwise: u32) -> u32 {
    match number {
        Some(number) => number,
        None => otherwise,
    }
}

/// Whether `info` is what is stored of `file`: the stem stands in for a missing title, sizes and
/// durations keep the bits that the database has for them, and what is missing otherwise has a
/// fixed value.
pub open spec fn describes(info: TrackInfo, file: AudioFile) -> bool {
    &&& info.dest_filename@ == file.device_name@
    &&& info.title@ == text_or(file.title, file.stem@)
    &&& info.artist_name@ == text_or(file.artist, Seq::empty())
    &&& info.album_name@ == text_or(file.album, Seq::empty())
    &&& info.duration_secs == file.duration_secs % 0x1_0000
    &&& info.sample_rate == number_or(file.sample_rate, 44100)
    &&& info.bitrate == number_or(file.bitrate, 320)
    &&& info.file_size == file.file_size % 0x1_0000_0000
    &&& info.tempo == number_or(file.tempo, 0)
}

/// What is stored of an audio file.
pub fn track_info(file: AudioFile) -> (r: TrackInfo)
    ensures
        describes(r, file),
{
    let seconds: u64 = file.duration_secs;
    let size: u64 = file.file_size;
    assert(seconds as u16 == seconds % 0x1_0000) by (bit_vector);
    assert(size as u32 == size % 0x1_0000_0000) by (bit_vector);
    TrackInfo {
        dest_filename: file.device_name,
        title: match file.title {
            Some(title) => title,
            None => file.stem,
        },
        artist_name: match file.artist {
            Some(artist) => artist,
            None => String::new(),
        },
        album_name: match file.album {
            Some(album) => album,
            None => String::new(),
        },
        duration_secs: seconds as u16,
        sample_rate: match file.sample_rate {
            Some(rate) => rate,
            None => 44100,
        },
        bitrate: match file.bitrate {
            Some(rate) => rate,
            None => 320,
        },
        file_size: size as u32,
        tempo: match file.tempo {
            Some(tempo) => tempo,
            None => 0,
        },
    }
}

/// The artists of a list of tracks, each once, in the order of their first track. A track without
/// an artist adds none.
pub open spec fn artists_of(tracks: Seq<TrackInfo>) -> Seq<Seq<char>>
    decreases tracks.len(),
{
    if tracks.len() == 0 {
        Seq::empty()
    } else {
        let earlier = artists_of(tracks.drop_last());
        let name = tracks.last().artist_name@;
        if name.len() == 0 || earlier.contains(name) {
            earlier
        } else {
            earlier.push(name)
        }
    }
}

/// The identifier of an artist: its place among `artists`, counted from one; zero for no artist.
pub open spec fn artist_id(artists: Seq<Seq<char>>, name: Seq<char>) -> int {
    if name.len() == 0 {
        0
    } else {
        artists.index_of(name) + 1
    }
}

/// The albums of a list of tracks, each once, in the order of their first track. Albums of the same
/// name by different artists are different albums. A track without an album adds none.
pub open spec fn albums_of(tracks: Seq<TrackInfo>) -> Seq<(Seq<char>, int)>
    decreases tracks.len(),
{
    if tracks.len() == 0 {
        Seq::empty()
    } else {
        let earlier = albums_of(tracks.drop_last());
        let key = album_key(artists_of(tracks), tracks.last());
        if key.0.len() == 0 || earlier.contains(key) {
            earlier
        } else {
            earlier.push(key)
        }
    }
}

/// What tells the album of a track from other albums: its name and the identifier of the artist.
pub open spec fn album_key(artists: Seq<Seq<char>>, track: TrackInfo) -> (Seq<char>, int) {
    (track.album_name@, artist_id(artists, track.artist_name@))
}

/// The identifier of an album: its place among `albums`, counted from one; zero for no album.
pub open spec fn album_id(albums: Seq<(Seq<char>, int)>, key: (Seq<char>, int)) -> int {
    if key.0.len() == 0 {
        0
    } else {
        albums.index_of(key) + 1
    }
}

/// The artists of `tracks` are those that the tracks name, each once.
pub proof fn law_artists_are_listed_once(tracks: Seq<TrackInfo>)
    ensures
        artists_of(tracks).no_duplicates(),
        artists_of(tracks).len() <= tracks.len(),
        forall|i: int|
            0 <= i < tracks.len() && tracks[i].artist_name@.len() > 0
                ==> #[trigger] artists_of(tracks).contains(tracks[i].artist_name@),
        forall|k: int|
            0 <= k < artists_of(tracks).len() ==> (#[trigger] artists_of(tracks)[k]).len() > 0
                && exists|i: int|
                0 <= i < tracks.len() && (#[trigger] tracks[i]).artist_name@ == artists_of(
                    tracks,
                )[k],
    decreases tracks.len(),
{
    if tracks.len() > 0 {
        let short = tracks.drop_last();
        let earlier = artists_of(short);
        let all = artists_of(tracks);
        let name = tracks.last().artist_name@;
        law_artists_are_listed_once(short);
        assert forall|i: int|
            0 <= i < tracks.len()
                && tracks[i].artist_name@.len() > 0 implies #[trigger] all.contains(
            tracks[i].artist_name@,
        ) by {
            if i < short.len() {
                assert(short[i] == tracks[i]);
                assert(earlier.contains(short[i].artist_name@));
                let k = earlier.index_of(tracks[i].artist_name@);
                assert(all[k] == earlier[k]);
            } else if !earlier.contains(name) {
                assert(all.last() == name);
            }
        }
        assert forall|k: int| 0 <= k < all.len() implies (#[trigger] all[k]).len() > 0
            && exists|i: int|
            0 <= i < tracks.len() && (#[trigger] tracks[i]).artist_name@ == all[k] by {
            if k < earlier.len() {
                assert(all[k] == earlier[k]);
                let i = choose|i: int|
                    0 <= i < short.len() && (#[trigger] short[i]).artist_name@ == earlier[k];
                assert(tracks[i] == short[i]);
            } else {
                assert(tracks[tracks.len() - 1].artist_name@ == all[k]);
            }
        }
    }
}

/// More tracks do not change the artists that are there, nor their identifiers.
pub proof fn law_artist_identifiers_are_stable(tracks: Seq<TrackInfo>, n: int, name: Seq<char>)
    requires
        0 <= n <= tracks.len(),
        name.len() == 0 || artists_of(tracks.take(n)).contains(name),
    ensures
        artists_of(tracks.take(n)).is_prefix_of(artists_of(tracks)),
        artist_id(artists_of(tracks.take(n)), name) == artist_id(artists_of(tracks), name),
{
    lemma_artists_prefix(tracks, n);
    law_artists_are_listed_once(tracks);
    let part = artists_of(tracks.take(n));
    let all = artists_of(tracks);
    if name.len() > 0 {
        let k = part.index_of(name);
        assert(all[k] == part[k]);
        assert(all.contains(name));
        assert(all[all.index_of(name)] == name);
    }
}

proof fn lemma_artists_prefix(tracks: Seq<TrackInfo>, n: int)
    requires
        0 <= n <= tracks.len(),
    ensures
        artists_of(tracks.take(n)).is_prefix_of(artists_of(tracks)),
    decreases tracks.len() - n,
{
    let part = artists_of(tracks.take(n));
    if n == tracks.len() {
        assert(tracks.take(n) =~= tracks);
        assert(part =~= part.subrange(0, part.len() as int));
    } else {
        lemma_artists_prefix(tracks, n + 1);
        let next = artists_of(tracks.take(n + 1));
        let all = artists_of(tracks);
        assert(tracks.take(n + 1).drop_last() =~= tracks.take(n));
        assert(part =~= all.subrange(0, part.len() as int)) by {
            assert forall|k: int| 0 <= k < part.len() implies part[k] == all[k] by {
                assert(next[k] == part[k]);
                assert(next[k] == all.subrange(0, next.len() as int)[k]);
            }
        }
    }
}

/// The albums of `tracks` are those that the tracks name, each once.
pub proof fn law_albums_are_listed_once(tracks: Seq<TrackInfo>)
    ensures
        albums_of(tracks).no_duplicates(),
        albums_of(tracks).len() <= tracks.len(),
        forall|i: int|
            0 <= i < tracks.len() && tracks[i].album_name@.len() > 0
                ==> #[trigger] albums_of(tracks).contains(
                album_key(artists_of(tracks), tracks[i]),
            ),
        forall|k: int|
            0 <= k < albums_of(tracks).len() ==> (#[trigger] albums_of(tracks)[k]).0.len() > 0
                && exists|i: int|
                0 <= i < tracks.len() && album_key(artists_of(tracks), #[trigger] tracks[i])
                    == albums_of(tracks)[k],
    decreases tracks.len(),
{
    if tracks.len() > 0 {
        let short = tracks.drop_last();
        let earlier = albums_of(short);
        let all = albums_of(tracks);
        let artists = artists_of(tracks);
        law_albums_are_listed_once(short);
        assert forall|i: int| 0 <= i < short.len() implies #[trigger] album_key(
            artists_of(short),
            short[i],
        ) == album_key(artists, tracks[i]) by {
            lemma_key_is_stable(tracks, i);
        }
        assert forall|i: int|
            0 <= i < tracks.len()
                && tracks[i].album_name@.len() > 0 implies #[trigger] all.contains(
            album_key(artists, tracks[i]),
        ) by {
            let key = album_key(artists, tracks[i]);
            if i < short.len() {
                assert(key == album_key(artists_of(short), short[i]));
                assert(earlier.contains(album_key(artists_of(short), short[i])));
                let k = earlier.index_of(key);
                assert(all[k] == earlier[k]);
            } else if !earlier.contains(key) {
                assert(all.last() == key);
            }
        }
        assert forall|k: int| 0 <= k < all.len() implies (#[trigger] all[k]).0.len() > 0
            && exists|i: int|
            0 <= i < tracks.len() && album_key(artists, #[trigger] tracks[i]) == all[k] by {
            if k < earlier.len() {
                assert(all[k] == earlier[k]);
                let i = choose|i: int|
                    0 <= i < short.len() && album_key(artists_of(short), #[trigger] short[i])
                        == earlier[k];
                assert(tracks[i] == short[i]);
                assert(album_key(artists_of(short), short[i]) == album_key(artists, tracks[i]));
            } else {
                assert(album_key(artists, tracks[tracks.len() - 1]) == all[k]);
            }
        }
    }
}

/// One more track at the end does not change the album keys of the others.
proof fn lemma_key_is_stable(tracks: Seq<TrackInfo>, i: int)
    requires
        0 <= i < tracks.len() - 1,
    ensures
        album_key(artists_of(tracks.drop_last()), tracks.drop_last()[i]) == album_key(
            artists_of(tracks),
            tracks[i],
        ),
{
    let short = tracks.drop_last();
    assert(short =~= tracks.take(tracks.len() - 1));
    law_artists_are_listed_once(short);
    assert(short[i] == tracks[i]);
    let name = tracks[i].artist_name@;
    if name.len() > 0 {
        assert(artists_of(short).contains(short[i].artist_name@));
    }
    law_artist_identifiers_are_stable(tracks, tracks.len() - 1, name);
}

/// Two tracks have the same artist identifier just when they name the same artist, and zero just
/// when they name none.
pub proof fn law_artist_identifiers_tell_artists_apart(tracks: Seq<TrackInfo>, i: int, j: int)
    requires
        0 <= i < tracks.len(),
        0 <= j < tracks.len(),
    ensures
        artist_id(artists_of(tracks), tracks[i].artist_name@) == artist_id(
            artists_of(tracks),
            tracks[j].artist_name@,
        ) <==> tracks[i].artist_name@ == tracks[j].artist_name@,
        artist_id(artists_of(tracks), tracks[i].artist_name@) == 0
            <==> tracks[i].artist_name@.len() == 0,
{
    law_artists_are_listed_once(tracks);
    let artists = artists_of(tracks);
    let a = tracks[i].artist_name@;
    let b = tracks[j].artist_name@;
    if a.len() > 0 {
        assert(artists.contains(tracks[i].artist_name@));
        assert(artists[artists.index_of(a)] == a);
    } else {
        assert(a =~= Seq::empty());
    }
    if b.len() > 0 {
        assert(artists.contains(tracks[j].artist_name@));
        assert(artists[artists.index_of(b)] == b);
    } else {
        assert(b =~= Seq::empty());
    }
}

/// Two tracks with albums have the same album identifier just when both the album and the artist
/// are the same.
pub proof fn law_album_identifiers_tell_albums_apart(tracks: Seq<TrackInfo>, i: int, j: int)
    requires
        0 <= i < tracks.len(),
        0 <= j < tracks.len(),
        tracks[i].album_name@.len() > 0,
        tracks[j].album_name@.len() > 0,
    ensures
        ({
            let artists = artists_of(tracks);
            let albums = albums_of(tracks);
            album_id(albums, album_key(artists, tracks[i])) == album_id(
                albums,
                album_key(artists, tracks[j]),
            )
        }) <==> tracks[i].album_name@ == tracks[j].album_name@ && tracks[i].artist_name@
            == tracks[j].artist_name@,
{
    law_albums_are_listed_once(tracks);
    law_artist_identifiers_tell_artists_apart(tracks, i, j);
    let artists = artists_of(tracks);
    let albums = albums_of(tracks);
    let a = album_key(artists, tracks[i]);
    let b = album_key(artists, tracks[j]);
    assert(albums.contains(album_key(artists, tracks[i])));
    assert(albums.contains(album_key(artists, tracks[j])));
    assert(albums[albums.index_of(a)] == a);
    assert(albums[albums.index_of(b)] == b);
}

/// The artists and albums of a list of tracks.
#[derive(Debug)]
pub struct Catalog {
    artists: Vec<String>,
    albums: Vec<(String, u32)>,
}

/// The keys of a list of albums.
pub open spec fn album_keys(albums: Seq<(String, u32)>) -> Seq<(Seq<char>, int)> {
    Seq::new(albums.len(), |k: int| (albums[k].0@, albums[k].1 as int))
}

impl Catalog {
    /// The names of the artists in the order of their identifiers.
    pub closed spec fn artists(&self) -> Seq<Seq<char>> {
        texts(self.artists@)
    }

    /// The keys of the albums in the order of their identifiers.
    pub closed spec fn albums(&self) -> Seq<(Seq<char>, int)> {
        album_keys(self.albums@)
    }

    /// Whether these are the artists and albums of `tracks`.
    pub open spec fn covers(&self, tracks: Seq<TrackInfo>) -> bool {
        &&& self.artists() == artists_of(tracks)
        &&& self.albums() == albums_of(tracks)
    }

    /// Registers the artist and the album of a track.
    fn register(&mut self, tracks: &Vec<TrackInfo>, i: usize)
        requires
            i < tracks.len() <= u32::MAX,
            old(self).covers(tracks@.take(i as int)),
        ensures
            final(self).covers(tracks@.take(i + 1)),
    {
        let ghost earlier = tracks@.take(i as int);
        let ghost later = tracks@.take(i + 1);
        let info = &tracks[i];
        proof {
            assert(later.drop_last() =~= earlier);
            assert(later.last() == *info);
            law_artists_are_listed_once(earlier);
            law_artists_are_listed_once(later);
            law_albums_are_listed_once(earlier);
        }
        let ghost artists_before = self.artists@;
        if info.artist_name.as_str().unicode_len() > 0 {
            match find_artist(&self.artists, info.artist_name.as_str()) {
                Some(k) => {
                    assert(texts(artists_before)[k as int] == info.artist_name@);
                },
                None => {
                    self.artists.push(info.artist_name.clone());
                    assert(texts(self.artists@) =~= texts(artists_before).push(
                        info.artist_name@,
                    ));
                },
            }
        }
        assert(texts(self.artists@) == artists_of(later));
        if info.album_name.as_str().unicode_len() > 0 {
            proof {
                assert(info.artist_name@ == later[i as int].artist_name@);
                if info.artist_name@.len() > 0 {
                    assert(artists_of(later).contains(later[i as int].artist_name@));
                }
            }
            let id: u32 = artist_number(&self.artists, info.artist_name.as_str());
            let ghost albums_before = self.albums@;
            match find_album(&self.albums, info.album_name.as_str(), id) {
                Some(k) => {
                    assert(album_keys(albums_before)[k as int] == (info.album_name@, id as int));
                },
                None => {
                    self.albums.push((info.album_name.clone(), id));
                    assert(album_keys(self.albums@) =~= album_keys(albums_before).push(
                        (info.album_name@, id as int),
                    ));
                },
            }
        }
    }

    /// The artists and albums of a list of tracks.
    pub fn of(tracks: &Vec<TrackInfo>) -> (r: Catalog)
        requires
            tracks.len() <= u32::MAX,
        ensures
            r.covers(tracks@),
    {
        let mut catalog = Catalog { artists: Vec::new(), albums: Vec::new() };
        assert(tracks@.take(0) =~= Seq::empty());
        assert(catalog.artists() =~= artists_of(tracks@.take(0)));
        assert(catalog.albums() =~= albums_of(tracks@.take(0)));
        let mut i: usize = 0;
        while i < tracks.len()
            invariant
                i <= tracks.len() <= u32::MAX,
                catalog.covers(tracks@.take(i as int)),
            decreases tracks.len() - i,
        {
            catalog.register(tracks, i);
            i = i + 1;
        }
        assert(tracks@.take(i as int) =~= tracks@);
        catalog
    }

    /// The artist rows, in the order of their identifiers.
    fn artist_rows(&self) -> (r: Vec<ArtistName>)
        requires
            self.artists().len() <= u32::MAX,
        ensures
            is_artist_rows(r@, self.artists()),
    {
        let mut rows: Vec<ArtistName> = Vec::new();
        let mut k: usize = 0;
        while k < self.artists.len()
            invariant
                k <= self.artists.len() <= u32::MAX,
                rows@.len() == k,
                forall|j: int|
                    0 <= j < k ==> (#[trigger] rows@[j]).id.0 == j + 1 && rows@[j].name@
                        == self.artists@[j]@,
            decreases self.artists.len() - k,
        {
            rows.push(ArtistName { id: ArtistId((k + 1) as u32), name: self.artists[k].clone() });
            k = k + 1;
        }
        rows
    }

    /// The album rows, in the order of their identifiers.
    fn album_rows(&self) -> (r: Vec<Album>)
        requires
            self.albums().len() <= u32::MAX,
        ensures
            is_album_rows(r@, self.albums()),
    {
        let mut rows: Vec<Album> = Vec::new();
        let mut k: usize = 0;
        while k < self.albums.len()
            invariant
                k <= self.albums.len() <= u32::MAX,
                rows@.len() == k,
                forall|j: int|
                    0 <= j < k ==> (#[trigger] rows@[j]).id.0 == j + 1 && rows@[j].name@
                        == self.albums@[j].0@ && rows@[j].artist_id.0 == self.albums@[j].1,
            decreases self.albums.len() - k,
        {
            rows.push(
                Album {
                    id: AlbumId((k + 1) as u32),
                    artist_id: ArtistId(self.albums[k].1),
                    name: self.albums[k].0.clone(),
                },
            );
            k = k + 1;
        }
        rows
    }
}

/// Looks up an artist.
fn find_artist(artists: &Vec<String>, name: &str) -> (r: Option<usize>)
    ensures
        match r {
            Some(k) => k < artists.len() && artists@[k as int]@ == name@,
            None => !texts(artists@).contains(name@),
        },
{
    let mut k: usize = 0;
    while k < artists.len()
        invariant
            k <= artists.len(),
            forall|j: int| 0 <= j < k ==> (#[trigger] artists@[j])@ != name@,
        decreases artists.len() - k,
    {
        if same_text(artists[k].as_str(), name) {
            return Some(k);
        }
        k = k + 1;
    }
    assert forall|j: int| 0 <= j < texts(artists@).len() implies #[trigger] texts(artists@)[j]
        != name@ by {
        assert(artists@[j]@ != name@);
    }
    None
}

/// Looks up an album.
fn find_album(albums: &Vec<(String, u32)>, name: &str, artist: u32) -> (r: Option<usize>)
    ensures
        match r {
            Some(k) => k < albums.len() && albums@[k as int].0@ == name@ && albums@[k as int].1
                == artist,
            None => !album_keys(albums@).contains((name@, artist as int)),
        },
{
    let mut k: usize = 0;
    while k < albums.len()
        invariant
            k <= albums.len(),
            forall|j: int|
                0 <= j < k ==> (#[trigger] albums@[j]).0@ != name@ || albums@[j].1 != artist,
        decreases albums.len() - k,
    {
        if albums[k].1 == artist && same_text(albums[k].0.as_str(), name) {
            return Some(k);
        }
        k = k + 1;
    }
    assert forall|j: int| 0 <= j < album_keys(albums@).len() implies #[trigger] album_keys(
        albums@,
    )[j] != (name@, artist as int) by {
        assert(albums@[j].0@ != name@ || albums@[j].1 != artist);
    }
    None
}

/// The identifier of an artist that is listed, or zero for no artist.
fn artist_number(artists: &Vec<String>, name: &str) -> (r: u32)
    requires
        artists.len() <= u32::MAX,
        texts(artists@).no_duplicates(),
        name@.len() == 0 || texts(artists@).contains(name@),
    ensures
        r == artist_id(texts(artists@), name@),
{
    if name.unicode_len() == 0 {
        return 0;
    }
    match find_artist(artists, name) {
        Some(k) => {
            proof {
                let names = texts(artists@);
                assert(names[names.index_of(name@)] == name@);
                assert(names[k as int] == name@);
            }
            (k + 1) as u32
        },
        None => 0,
    }
}

/// The identifier of an album that is listed, or zero for no album.
fn album_number(albums: &Vec<(String, u32)>, name: &str, artist: u32) -> (r: u32)
    requires
        albums.len() <= u32::MAX,
        album_keys(albums@).no_duplicates(),
        name@.len() == 0 || album_keys(albums@).contains((name@, artist as int)),
    ensures
        r == album_id(album_keys(albums@), (name@, artist as int)),
{
    if name.unicode_len() == 0 {
        return 0;
    }
    match find_album(albums, name, artist) {
        Some(k) => {
            proof {
                let keys = album_keys(albums@);
                let key = (name@, artist as int);
                assert(keys[keys.index_of(key)] == key);
                assert(keys[k as int] == key);
            }
            (k + 1) as u32
        },
        None => 0,
    }
}

/// Whether `rows` are the rows of `artists`.
pub open spec fn is_artist_rows(rows: Seq<ArtistName>, artists: Seq<Seq<char>>) -> bool {
    &&& rows.len() == artists.len()
    &&& forall|k: int|
        0 <= k < rows.len() ==> (#[trigger] rows[k]).id.0 == k + 1 && rows[k].name@ == artists[k]
}

/// Whether `rows` are the rows of `albums`.
pub open spec fn is_album_rows(rows: Seq<Album>, albums: Seq<(Seq<char>, int)>) -> bool {
    &&& rows.len() == albums.len()
    &&& forall|k: int|
        0 <= k < rows.len() ==> (#[trigger] rows[k]).id.0 == k + 1 && rows[k].name@ == albums[k].0
            && rows[k].artist_id.0 == albums[k].1
}

/// Whether `row` is the row of track number `i`, added on `date`.
pub open spec fn is_track_row(row: Track, tracks: Seq<TrackInfo>, i: int, date: Seq<char>) -> bool {
    let info = tracks[i];
    let artists = artists_of(tracks);
    &&& row.id.0 == i + 1
    &&& row.title@ == info.title@
    &&& row.artist_id.0 == artist_id(artists, info.artist_name@)
    &&& row.album_id.0 == album_id(albums_of(tracks), album_key(artists, info))
    &&& row.file_path@ == "/Contents/"@ + info.dest_filename@
    &&& row.filename@ == info.dest_filename@
    &&& row.sample_rate == info.sample_rate
    &&& row.sample_depth == 16
    &&& row.bitrate == info.bitrate
    &&& row.duration == info.duration_secs
    &&& row.file_size == info.file_size
    &&& row.file_type == FileType::Mp3
    &&& row.tempo == info.tempo
    &&& row.autoload_hotcues@ == "ON"@
    &&& row.date_added@ == date
}

/// The row of track number `i`, added on `date`. Paths on the device start with a slash and are
/// relative to its root.
pub fn track_row(tracks: &Vec<TrackInfo>, i: usize, catalog: &Catalog, date: String) -> (r: Track)
    requires
        i < tracks.len() <= u32::MAX,
        catalog.covers(tracks@),
    ensures
        is_track_row(r, tracks@, i as int, date@),
        r.id.0 == i + 1,
        r.title@ == tracks@[i as int].title@,
        r.file_path@ == "/Contents/"@ + tracks@[i as int].dest_filename@,
        r.filename@ == tracks@[i as int].dest_filename@,
        r.sample_rate == tracks@[i as int].sample_rate,
        r.sample_depth == 16,
        r.bitrate == tracks@[i as int].bitrate,
        r.duration == tracks@[i as int].duration_secs,
        r.file_size == tracks@[i as int].file_size,
        r.tempo == tracks@[i as int].tempo,
        r.file_type is Mp3,
        r.autoload_hotcues@ == "ON"@,
        r.date_added@ == date@,
{
    let info = &tracks[i];
    proof {
        law_artists_are_listed_once(tracks@);
        law_albums_are_listed_once(tracks@);
        if info.artist_name@.len() > 0 {
            assert(artists_of(tracks@).contains(tracks@[i as int].artist_name@));
        }
    }
    let artist: u32 = artist_number(&catalog.artists, info.artist_name.as_str());
    proof {
        if info.album_name@.len() > 0 {
            assert(albums_of(tracks@).contains(
                album_key(artists_of(tracks@), tracks@[i as int]),
            ));
        }
    }
    let album: u32 = album_number(&catalog.albums, info.album_name.as_str(), artist);
    let mut file_path: String = String::from_str("/Contents/");
    file_path.append(info.dest_filename.as_str());
    Track {
        id: TrackId((i + 1) as u32),
        title: info.title.clone(),
        artist_id: ArtistId(artist),
        album_id: AlbumId(album),
        file_path,
        filename: info.dest_filename.clone(),
        sample_rate: info.sample_rate,
        sample_depth: 16,
        bitrate: info.bitrate,
        duration: info.duration_secs,
        file_size: info.file_size,
        file_type: FileType::Mp3,
        tempo: info.tempo,
        autoload_hotcues: String::from_str("ON"),
        date_added: date,
    }
}

/// Whether `row` is the history row of a database made on `date`.
pub open spec fn is_history_row(row: History, date: Seq<char>) -> bool {
    &&& row.subtype == 640
    &&& row.index_shift == 0
    &&& row.unknown == 0
    &&& row.zeroes == 0
    &&& row.date@ == date
    &&& row.magic == 7705
    &&& row.version@ == "1000"@
    &&& row.label@ == Seq::<char>::empty()
}

/// The history row of a database made on `date`.
pub fn history_row(date: String) -> (r: History)
    ensures
        is_history_row(r, date@),
{
    History {
        subtype: 640,
        index_shift: 0,
        unknown: 0,
        zeroes: 0,
        date,
        magic: 7705,
        version: String::from_str("1000"),
        label: String::new(),
    }
}

/// The rows of a new database.
#[derive(Debug)]
pub struct ExportRows {
    pub history: History,
    pub artists: Vec<ArtistName>,
    pub albums: Vec<Album>,
    pub tracks: Vec<Track>,
}

/// The rows of a database of the given tracks, made now.
pub fn export_rows(tracks: &Vec<TrackInfo>) -> (r: ExportRows)
    requires
        tracks.len() <= u32::MAX,
    ensures
        is_date(r.history.date@),
        is_history_row(r.history, r.history.date@),
        is_artist_rows(r.artists@, artists_of(tracks@)),
        is_album_rows(r.albums@, albums_of(tracks@)),
        r.tracks@.len() == tracks@.len(),
        forall|i: int|
            0 <= i < tracks@.len() ==> is_track_row(
                #[trigger] r.tracks@[i],
                tracks@,
                i,
                r.tracks@[i].date_added@,
            ) && is_date(r.tracks@[i].date_added@),
        forall|i: int|
            0 <= i < tracks@.len() ==> (#[trigger] r.tracks@[i]).id.0 == i + 1 && r.tracks@[i].tempo
                == tracks@[i].tempo && r.tracks@[i].duration == tracks@[i].duration_secs
                && r.tracks@[i].file_size == tracks@[i].file_size && r.tracks@[i].bitrate
                == tracks@[i].bitrate && r.tracks@[i].sample_rate == tracks@[i].sample_rate
                && r.tracks@[i].title@ == tracks@[i].title@ && r.tracks@[i].filename@
                == tracks@[i].dest_filename@,
{
    let catalog = Catalog::of(tracks);
    proof {
        law_artists_are_listed_once(tracks@);
        law_albums_are_listed_once(tracks@);
    }
    let history: History = history_row(today());
    let mut rows: Vec<Track> = Vec::new();
    let mut i: usize = 0;
    while i < tracks.len()
        invariant
            i <= tracks.len() <= u32::MAX,
            catalog.covers(tracks@),
            rows@.len() == i,
            forall|k: int|
                0 <= k < i ==> is_track_row(
                    #[trigger] rows@[k],
                    tracks@,
                    k,
                    rows@[k].date_added@,
                ) && is_date(rows@[k].date_added@),
        decreases tracks.len() - i,
    {
        rows.push(track_row(tracks, i, &catalog, today()));
        i = i + 1;
    }
    ExportRows {
        history,
        artists: catalog.artist_rows(),
        albums: catalog.album_rows(),
        tracks: rows,
    }
}

/// The number of days of a month of the Gregorian calendar.
pub open spec fn days_in_month(year: nat, month: nat) -> nat {
    if month == 2 {
        if year % 4 == 0 && (year % 100 != 0 || year % 400 == 0) {
            29
        } else {
            28
        }
    } else if month == 4 || month == 6 || month == 9 || month == 11 {
        30
    } else {
        31
    }
}

/// The text of a date: year, month and day. A year of more than four digits has a plus sign.
pub open spec fn date_text(year: nat, month: nat, day: nat) -> Seq<char> {
    (if year <= 9999 {
        zero_padded(decimal(year), 4)
    } else {
        "+"@ + decimal(year)
    }) + "-"@ + zero_padded(decimal(month), 2) + "-"@ + zero_padded(decimal(day), 2)
}

/// Whether `text` is the text of a date of the Gregorian calendar.
pub open spec fn is_date(text: Seq<char>) -> bool {
    exists|year: nat, month: nat, day: nat|
        1 <= month <= 12 && 1 <= day <= days_in_month(year, month) && text == #[trigger] date_text(
            year,
            month,
            day,
        )
}

/// The current date of the machine's time zone, from `chrono::Local::now` and
/// `chrono::DateTime::format` with the pattern `%Y-%m-%d`. Of the result it is claimed only that it
/// is the text of a date; which date it is depends on the clock and the time zone. `chrono` panics
/// where the clock stands before 1970 or past the last date that it can hold, and where the time
/// zone data of the machine give no offset for the moment or one of a day or more.
#[verifier::external_body]
fn today() -> (r: String)
    ensures
        is_date(r@),
{
    chrono::Local::now().format("%Y-%m-%d").to_string()
}

/// The tables of a new database, in the order that Rekordbox gives them.
pub fn export_tables() -> (r: Vec<PageType>)
    ensures
        r@ == seq![
            PageType::Plain(PlainPageType::Tracks),
            PageType::Plain(PlainPageType::Genres),
            PageType::Plain(PlainPageType::Artists),
            PageType::Plain(PlainPageType::Albums),
            PageType::Plain(PlainPageType::Labels),
            PageType::Plain(PlainPageType::Keys),
            PageType::Plain(PlainPageType::Colors),
            PageType::Plain(PlainPageType::PlaylistTree),
            PageType::Plain(PlainPageType::PlaylistEntries),
            PageType::Unknown(9),
            PageType::Unknown(10),
            PageType::Plain(PlainPageType::HistoryPlaylists),
            PageType::Plain(PlainPageType::HistoryEntries),
            PageType::Plain(PlainPageType::Artwork),
            PageType::Unknown(14),
            PageType::Unknown(15),
            PageType::Plain(PlainPageType::Columns),
            PageType::Plain(PlainPageType::Menu),
            PageType::Unknown(18),
            PageType::Plain(PlainPageType::History),
        ],
        forall|i: int| 0 <= i < r@.len() ==> (#[trigger] r@[i]).number() == i,
{
    let tables: Vec<PageType> = vec![
        PageType::Plain(PlainPageType::Tracks),
        PageType::Plain(PlainPageType::Genres),
        PageType::Plain(PlainPageType::Artists),
        PageType::Plain(PlainPageType::Albums),
        PageType::Plain(PlainPageType::Labels),
        PageType::Plain(PlainPageType::Keys),
        PageType::Plain(PlainPageType::Colors),
        PageType::Plain(PlainPageType::PlaylistTree),
        PageType::Plain(PlainPageType::PlaylistEntries),
        PageType::Unknown(9),
        PageType::Unknown(10),
        PageType::Plain(PlainPageType::HistoryPlaylists),
        PageType::Plain(PlainPageType::HistoryEntries),
        PageType::Plain(PlainPageType::Artwork),
        PageType::Unknown(14),
        PageType::Unknown(15),
        PageType::Plain(PlainPageType::Columns),
        PageType::Plain(PlainPageType::Menu),
        PageType::Unknown(18),
        PageType::Plain(PlainPageType::History),
    ];
    tables
}

/// The line that reports track number `id`.
pub open spec fn report_line(id: nat, info: TrackInfo) -> Seq<char> {
    "  ["@ + decimal(id) + "] "@ + (if info.artist_name@.len() == 0 {
        "(unknown)"@
    } else {
        info.artist_name@
    }) + " - "@ + info.title@ + (if info.album_name@.len() == 0 {
        Seq::empty()
    } else {
        " ["@ + info.album_name@ + "]"@
    })
}

/// The line that reports track number `id`.
pub fn track_report(id: u32, info: &TrackInfo) -> (r: String)
    ensures
        r@ == report_line(id as nat, *info),
{
    let mut line: String = String::from_str("  [");
    line.append(decimal_text(id).as_str());
    line.append("] ");
    if info.artist_name.as_str().unicode_len() == 0 {
        line.append("(unknown)");
    } else {
        line.append(info.artist_name.as_str());
    }
    line.append(" - ");
    line.append(info.title.as_str());
    if info.album_name.as_str().unicode_len() > 0 {
        line.append(" [");
        line.append(info.album_name.as_str());
        line.append("]");
    }
    assert(line@ =~= report_line(id as nat, *info));
    line
}

/// The line that reports an export of so many tracks, artists and albums.
pub open spec fn summary(tracks: nat, artists: nat, albums: nat, destination: Seq<char>) -> Seq<
    char,
> {
    "Exported "@ + decimal(tracks) + " track(s), "@ + decimal(artists) + " artist(s), and "@
        + decimal(albums) + " album(s) to "@ + destination
}

/// The line that reports the whole export to the database at `destination`.
pub fn export_report(rows: &ExportRows, destination: &str) -> (r: String)
    requires
        rows.tracks.len() <= u32::MAX,
        rows.artists.len() <= u32::MAX,
        rows.albums.len() <= u32::MAX,
    ensures
        r@ == "Exported "@ + decimal(rows.tracks@.len()) + " track(s), "@ + decimal(
            rows.artists@.len(),
        ) + " artist(s), and "@ + decimal(rows.albums@.len()) + " album(s) to "@ + destination@,
        r@ == summary(
            rows.tracks@.len(),
            rows.artists@.len(),
            rows.albums@.len(),
            destination@,
        ),
{
    let mut line: String = String::from_str("Exported ");
    line.append(decimal_text(rows.tracks.len() as u32).as_str());
    line.append(" track(s), ");
    line.append(decimal_text(rows.artists.len() as u32).as_str());
    line.append(" artist(s), and ");
    line.append(decimal_text(rows.albums.len() as u32).as_str());
    line.append(" album(s) to ");
    line.append(destination);
    line
}

/// What was read of an audio file arrives in its row: its tempo, size, duration and rates, its title
/// or else its stem, and its name, which is also the last part of its path. What was not read has a
/// fixed value, and only the bits that the database has room for are kept.
pub proof fn law_file_arrives_in_its_row(
    file: AudioFile,
    tracks: Seq<TrackInfo>,
    i: int,
    row: Track,
    date: Seq<char>,
)
    requires
        0 <= i < tracks.len(),
        describes(tracks[i], file),
        is_track_row(row, tracks, i, date),
    ensures
        row.id.0 == i + 1,
        file.tempo matches Some(tempo) ==> row.tempo == tempo,
        file.tempo is None ==> row.tempo == 0,
        file.sample_rate matches Some(rate) ==> row.sample_rate == rate,
        file.sample_rate is None ==> row.sample_rate == 44100,
        file.bitrate matches Some(rate) ==> row.bitrate == rate,
        file.bitrate is None ==> row.bitrate == 320,
        file.duration_secs < 0x1_0000 ==> row.duration == file.duration_secs,
        (file.duration_secs - row.duration) % 0x1_0000 == 0,
        file.file_size < 0x1_0000_0000 ==> row.file_size == file.file_size,
        (file.file_size - row.file_size) % 0x1_0000_0000 == 0,
        file.title matches Some(title) ==> row.title@ == title@,
        file.title is None ==> row.title@ == file.stem@,
        row.filename@ == file.device_name@,
        row.file_path@ == "/Contents/"@ + file.device_name@,
        row.sample_depth == 16,
        row.file_type is Mp3,
        row.autoload_hotcues@ == "ON"@,
        row.date_added@ == date,
        file.artist is None ==> row.artist_id.0 == 0,
        file.album is None ==> row.album_id.0 == 0,
        file.artist matches Some(artist) ==> tracks[i].artist_name@ == artist@,
        file.album matches Some(album) ==> tracks[i].album_name@ == album@,
{
}

/// The identifiers in a track row lead to its artist and its album: the artist row with that
/// identifier has the artist's name, and the album row has the album's name and the same artist.
pub proof fn law_rows_lead_to_artist_and_album(
    tracks: Seq<TrackInfo>,
    artists: Seq<ArtistName>,
    albums: Seq<Album>,
    i: int,
    row: Track,
    date: Seq<char>,
)
    requires
        0 <= i < tracks.len(),
        is_artist_rows(artists, artists_of(tracks)),
        is_album_rows(albums, albums_of(tracks)),
        is_track_row(row, tracks, i, date),
    ensures
        tracks[i].artist_name@.len() == 0 <==> row.artist_id.0 == 0,
        tracks[i].album_name@.len() == 0 <==> row.album_id.0 == 0,
        row.artist_id.0 > 0 ==> row.artist_id.0 <= artists.len() && artists[row.artist_id.0 as int
            - 1].id == row.artist_id && artists[row.artist_id.0 as int - 1].name@
            == tracks[i].artist_name@,
        row.album_id.0 > 0 ==> row.album_id.0 <= albums.len() && albums[row.album_id.0 as int - 1].id
            == row.album_id && albums[row.album_id.0 as int - 1].name@ == tracks[i].album_name@
            && albums[row.album_id.0 as int - 1].artist_id == row.artist_id,
{
    law_artists_are_listed_once(tracks);
    law_albums_are_listed_once(tracks);
    let names = artists_of(tracks);
    let keys = albums_of(tracks);
    let name = tracks[i].artist_name@;
    let key = album_key(names, tracks[i]);
    if name.len() > 0 {
        assert(names.contains(tracks[i].artist_name@));
        assert(names[names.index_of(name)] == name);
        assert(artists[row.artist_id.0 as int - 1].id.0 == row.artist_id.0);
    }
    if key.0.len() > 0 {
        assert(keys.contains(album_key(names, tracks[i])));
        assert(keys[keys.index_of(key)] == key);
        assert(albums[row.album_id.0 as int - 1].id.0 == row.album_id.0);
    }
}

/// One more track adds its artist and its album behind the others, unless they are there or it
/// names none.
pub proof fn law_one_more_track(tracks: Seq<TrackInfo>, track: TrackInfo)
    ensures
        artists_of(Seq::empty()) == Seq::<Seq<char>>::empty(),
        albums_of(Seq::empty()) == Seq::<(Seq<char>, int)>::empty(),
        track.artist_name@.len() > 0 && !artists_of(tracks).contains(track.artist_name@)
            ==> artists_of(tracks.push(track)) == artists_of(tracks).push(track.artist_name@),
        track.artist_name@.len() == 0 || artists_of(tracks).contains(track.artist_name@)
            ==> artists_of(tracks.push(track)) == artists_of(tracks),
        track.album_name@.len() == 0 ==> albums_of(tracks.push(track)) == albums_of(tracks),
        albums_of(tracks).is_prefix_of(albums_of(tracks.push(track))),
        albums_of(tracks.push(track)).len() <= albums_of(tracks).len() + 1,
{
    assert(tracks.push(track).drop_last() =~= tracks);
    let earlier = albums_of(tracks);
    let all = albums_of(tracks.push(track));
    assert(earlier =~= all.subrange(0, earlier.len() as int));
}

/// The history row has nothing but its date, the fixed marks and the version.
pub proof fn law_history_row(row: History, date: Seq<char>)
    requires
        is_history_row(row, date),
    ensures
        row.date@ == date,
        row.version@ == "1000"@,
        row.label@.len() == 0,
        (row.subtype, row.magic) == (640u16, 7705u16),
        (row.index_shift, row.unknown, row.zeroes) == (0u16, 0u32, 0u32),
{
}

/// A number from ten on has one digit more than its tenth.
proof fn lemma_digit_more(n: nat)
    ensures
        n < 10 ==> decimal(n).len() == 1,
        n >= 10 ==> decimal(n).len() == decimal(n / 10).len() + 1,
{
}

/// A number that fits a width fills it when padded, and can be read back.
proof fn lemma_padded_number(n: nat, width: nat)
    requires
        decimal(n).len() <= width,
    ensures
        zero_padded(decimal(n), width).len() == width,
        value_of(zero_padded(decimal(n), width), 10) == n,
{
    law_numerals_read_back(n, 10);
    law_padding(decimal(n), width);
    law_padding_keeps_the_value(decimal(n), width, 10);
}

/// Three texts with a character between each two can be taken apart again.
proof fn lemma_taken_apart(y: Seq<char>, m: Seq<char>, d: Seq<char>, dash: Seq<char>)
    requires
        y.len() == 4,
        m.len() == 2,
        d.len() == 2,
        dash.len() == 1,
    ensures
        ({
            let text = y + dash + m + dash + d;
            &&& text.len() == 10
            &&& text.subrange(0, 4) == y
            &&& text[4] == dash[0]
            &&& text.subrange(5, 7) == m
            &&& text[7] == dash[0]
            &&& text.subrange(8, 10) == d
        }),
{
    let text = y + dash + m + dash + d;
    assert(text.subrange(0, 4) =~= y);
    assert(text.subrange(5, 7) =~= m);
    assert(text.subrange(8, 10) =~= d);
}

/// The date of a four-digit year takes ten characters: four digits, a dash, two digits, a dash and
/// two digits, which can be read back as year, month and day.
#[verifier::spinoff_prover]
pub proof fn law_dates_read_back(year: nat, month: nat, day: nat)
    requires
        year <= 9999,
        1 <= month <= 12,
        1 <= day <= 31,
    ensures
        date_text(year, month, day).len() == 10,
        value_of(date_text(year, month, day).subrange(0, 4), 10) == year,
        date_text(year, month, day)[4] == '-',
        value_of(date_text(year, month, day).subrange(5, 7), 10) == month,
        date_text(year, month, day)[7] == '-',
        value_of(date_text(year, month, day).subrange(8, 10), 10) == day,
{
    reveal_strlit("-");
    assert(decimal(year).len() <= 4) by {
        lemma_digit_more(year);
        lemma_digit_more(year / 10);
        lemma_digit_more(year / 10 / 10);
        lemma_digit_more(year / 10 / 10 / 10);
    }
    assert(decimal(month).len() <= 2 && decimal(day).len() <= 2) by {
        lemma_digit_more(month);
        lemma_digit_more(month / 10);
        lemma_digit_more(day);
        lemma_digit_more(day / 10);
    }
    lemma_padded_number(year, 4);
    lemma_padded_number(month, 2);
    lemma_padded_number(day, 2);
    lemma_taken_apart(
        zero_padded(decimal(year), 4),
        zero_padded(decimal(month), 2),
        zero_padded(decimal(day), 2),
        "-"@,
    );
}

/// A report names the number in brackets, then the artist or that it is unknown, then the title,
/// and the album in brackets where there is one.
pub proof fn law_reports(id: nat, info: TrackInfo)
    ensures
        info.artist_name@.len() > 0 && info.album_name@.len() == 0 ==> report_line(id, info)
            == "  ["@ + decimal(id) + "] "@ + info.artist_name@ + " - "@ + info.title@,
        info.artist_name@.len() == 0 && info.album_name@.len() == 0 ==> report_line(id, info)
            == "  ["@ + decimal(id) + "] (unknown) - "@ + info.title@,
        info.artist_name@.len() > 0 && info.album_name@.len() > 0 ==> report_line(id, info)
            == "  ["@ + decimal(id) + "] "@ + info.artist_name@ + " - "@ + info.title@ + " ["@
            + info.album_name@ + "]"@,
        info.artist_name@.len() == 0 && info.album_name@.len() > 0 ==> report_line(id, info)
            == "  ["@ + decimal(id) + "] (unknown) - "@ + info.title@ + " ["@ + info.album_name@
            + "]"@,
{
    reveal_strlit("] ");
    reveal_strlit("(unknown)");
    reveal_strlit(" - ");
    reveal_strlit("] (unknown) - ");
    assert("] (unknown) - "@ =~= "] "@ + "(unknown)"@ + " - "@);
    if info.artist_name@.len() == 0 {
        let start = "  ["@ + decimal(id) + "] (unknown) - "@ + info.title@;
        if info.album_name@.len() == 0 {
            assert(report_line(id, info) =~= start);
        } else {
            assert(report_line(id, info) =~= start + " ["@ + info.album_name@ + "]"@);
        }
    } else {
        let start = "  ["@ + decimal(id) + "] "@ + info.artist_name@ + " - "@ + info.title@;
        if info.album_name@.len() == 0 {
            assert(report_line(id, info) =~= start);
        } else {
            assert(report_line(id, info) =~= start + " ["@ + info.album_name@ + "]"@);
        }
    }
}

/// The report of an export gives the three numbers, each so that it can be read back, and ends with
/// the destination.
pub proof fn law_summary_reads_back(
    tracks: nat,
    artists: nat,
    albums: nat,
    destination: Seq<char>,
)
    ensures
        ({
            let line = summary(tracks, artists, albums, destination);
            let a = 9 + decimal(tracks).len() as int;
            let b = a + 11 + decimal(artists).len() as int;
            let c = b + 16 + decimal(albums).len() as int;
            &&& value_of(line.subrange(9, a), 10) == tracks
            &&& value_of(line.subrange(a + 11, b), 10) == artists
            &&& value_of(line.subrange(b + 16, c), 10) == albums
            &&& line.skip(line.len() - destination.len()) == destination
        }),
{
    reveal_strlit("Exported ");
    reveal_strlit(" track(s), ");
    reveal_strlit(" artist(s), and ");
    reveal_strlit(" album(s) to ");
    law_numerals_read_back(tracks, 10);
    law_numerals_read_back(artists, 10);
    law_numerals_read_back(albums, 10);
    let line = summary(tracks, artists, albums, destination);
    let a = 9 + decimal(tracks).len() as int;
    let b = a + 11 + decimal(artists).len() as int;
    let c = b + 16 + decimal(albums).len() as int;
    assert(line.subrange(9, a) =~= decimal(tracks));
    assert(line.subrange(a + 11, b) =~= decimal(artists));
    assert(line.subrange(b + 16, c) =~= decimal(albums));
    assert(line.skip(line.len() - destination.len()) =~= destination);
}

/// The months of a year have 28 to 31 days, and together 365, or 366 in a leap year.
pub proof fn law_days_of_a_year(year: nat, month: nat)
    ensures
        28 <= days_in_month(year, month) <= 31,
        days_in_month(year, 1) + days_in_month(year, 2) + days_in_month(year, 3) + days_in_month(
            year,
            4,
        ) + days_in_month(year, 5) + days_in_month(year, 6) + days_in_month(year, 7)
            + days_in_month(year, 8) + days_in_month(year, 9) + days_in_month(year, 10)
            + days_in_month(year, 11) + days_in_month(year, 12) == if year % 400 == 0 || (year % 4
            == 0 && year % 100 != 0) {
            366
        } else {
            365nat
        },
{
}

} // verus!
