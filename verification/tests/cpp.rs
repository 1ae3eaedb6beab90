use rekordcrate::cpp::handles::{
    open_reader, reader_path, reader_playlists, writer_add_track, writer_close, writer_create,
    writer_plan_track, Error,
};
use rekordcrate::cpp::playlists::flatten_playlists;
use rekordcrate::cpp::{track_default, track_to_native, ColorIndex, FileType, Rating, Track};
use rekordcrate::device::{Playlist, PlaylistFolder, PlaylistNode};
use rekordcrate::pdb::PlaylistTreeNodeId;
use rekordcrate::util;

#[test]
fn write_then_read_roundtrip() {
    let root_str = "/media/roundtrip".to_string();

    let mut w = writer_create::<String>(root_str.clone(), Ok(())).expect("writer_create");
    let mut track: Track = track_default();
    track.title = "Test".to_string();
    track.filename = "t.mp3".to_string();
    track.file_path = "/Contents/t.mp3".to_string();
    let outcome = writer_add_track::<String>(&mut w, &track, Ok(())).expect("writer_add_track");
    assert_eq!(outcome.id, 1, "first track should get id 1");
    assert!(outcome.is_new, "first track should be newly inserted");
    let (root, tracks) = writer_close::<String>(w, Ok(())).expect("writer_close");
    assert_eq!(root, root_str);
    assert_eq!(tracks.len(), 1);
    assert_eq!(tracks[0].title, "Test");
    assert_eq!(tracks[0].filename, "t.mp3");
    assert_eq!(tracks[0].file_path, "/Contents/t.mp3");

    let r = open_reader::<String>(root_str.clone()).expect("open_reader");
    assert!(
        reader_path(&r).ends_with(&root_str),
        "reader path should end with the root"
    );

    let playlists = reader_playlists::<String>(Ok(vec![])).expect("reader_playlists");
    assert!(
        playlists.is_empty(),
        "fresh export has no playlists, got {playlists:?}"
    );
    assert_eq!(
        reader_playlists(Err("no database")).expect_err("a failure is handed on"),
        "no database"
    );
}

#[test]
fn dedup_returns_existing_track() {
    let mut w = writer_create::<String>("dedup".to_string(), Ok(())).expect("writer_create");
    let mut track: Track = track_default();
    track.file_path = "/Contents/dup.mp3".to_string();
    let first = writer_add_track::<String>(&mut w, &track, Ok(())).expect("first add");
    let second = writer_add_track::<String>(&mut w, &track, Ok(())).expect("second add");
    assert!(first.is_new, "first add should insert");
    assert!(!second.is_new, "second add with same path should dedup");
    assert_eq!(first.id, second.id, "dedup should return same id");
    assert_eq!(w.tracks().len(), 1);
    writer_close::<String>(w, Ok(())).expect("writer_close");
}

#[test]
fn failures_of_the_device_are_handed_on() {
    assert_eq!(
        writer_create(String::new(), Err("read-only")).expect_err("creating failed"),
        "read-only"
    );
    let mut w = writer_create::<&str>(String::new(), Ok(())).expect("writer_create");
    let mut track = track_default();
    track.file_path = "/a".to_string();
    writer_add_track::<&str>(&mut w, &track, Ok(())).expect("add");
    // Neither a new track nor one that is there changes anything where storing failed.
    for path in ["/a", "/b"] {
        track.file_path = path.to_string();
        assert_eq!(
            writer_add_track(&mut w, &track, Err("disk full")).expect_err("storing failed"),
            Error::Device("disk full")
        );
        assert_eq!(w.tracks().len(), 1);
    }
    assert_eq!(writer_close(w, Err("gone")).expect_err("closing failed"), "gone");
}

#[test]
fn a_plan_says_what_adding_comes_to() {
    let mut w = writer_create::<()>(String::new(), Ok(())).expect("writer_create");
    let mut track = track_default();
    for (path, id, is_new) in [("/a", 1, true), ("/b", 2, true), ("/a", 1, false)] {
        track.file_path = path.to_string();
        let plan = writer_plan_track(&w, &track).expect("room");
        assert_eq!((plan.id, plan.is_new), (id, is_new));
        let outcome = writer_add_track::<()>(&mut w, &track, Ok(())).expect("add");
        assert_eq!((outcome.id, outcome.is_new), (id, is_new));
    }
}

#[test]
fn identifiers_count_the_inserted_tracks() {
    let mut w = writer_create::<()>(String::new(), Ok(())).expect("writer_create");
    let mut ids = Vec::new();
    for path in ["/a", "/b", "/a", "/c", "/b"] {
        let mut track = track_default();
        track.file_path = path.to_string();
        ids.push(writer_add_track::<()>(&mut w, &track, Ok(())).expect("add").id);
    }
    assert_eq!(ids, vec![1, 2, 1, 3, 2]);
}

#[test]
fn ratings_survive_the_boundary() {
    for (i, native) in [
        util::Rating::Zero,
        util::Rating::One,
        util::Rating::Two,
        util::Rating::Three,
        util::Rating::Four,
        util::Rating::Five,
    ]
    .into_iter()
    .enumerate()
    {
        assert_eq!(util::Rating::from(Rating::from(native)), native);
        assert_eq!(Rating::from_repr(i as u8), Rating::from(native));
    }
    assert_eq!(Rating::from_repr(6), Rating::Zero);
}

#[test]
fn colors_survive_the_boundary() {
    for (i, native) in [
        util::ColorIndex::NoColor,
        util::ColorIndex::Pink,
        util::ColorIndex::Red,
        util::ColorIndex::Orange,
        util::ColorIndex::Yellow,
        util::ColorIndex::Green,
        util::ColorIndex::Aqua,
        util::ColorIndex::Blue,
        util::ColorIndex::Purple,
    ]
    .into_iter()
    .enumerate()
    {
        assert_eq!(util::ColorIndex::from(ColorIndex::from(native)), native);
        assert_eq!(ColorIndex::from_repr(i as u8), ColorIndex::from(native));
    }
    assert_eq!(ColorIndex::from_repr(9), ColorIndex::NoColor);
}

#[test]
fn listed_file_types_survive_the_boundary() {
    for (i, native) in [
        util::FileType::Unknown,
        util::FileType::Mp3,
        util::FileType::M4a,
        util::FileType::Flac,
        util::FileType::Wav,
        util::FileType::Aiff,
    ]
    .into_iter()
    .enumerate()
    {
        assert_eq!(util::FileType::from(FileType::from(native)), native);
        assert_eq!(FileType::from_repr(i as u8), FileType::from(native));
    }
    assert_eq!(FileType::from(util::FileType::Other(77)), FileType::Unknown);
    assert_eq!(FileType::from_repr(6), FileType::Unknown);
}

#[test]
fn a_default_track_is_blank() {
    let track = track_default();
    assert_eq!(track.title, "");
    assert_eq!(track.tempo_bits, 0.0f32.to_bits());
    assert_eq!(track.rating, Rating::Zero);
    assert_eq!(track.color, ColorIndex::NoColor);
    assert_eq!(track.file_type, FileType::Unknown);
    assert!(!track.autoload_hotcues);
}

#[test]
fn tracks_cross_the_boundary_field_for_field() {
    let mut track = track_default();
    track.artist = "Artist".to_string();
    track.message = "Message".to_string();
    track.artwork_device_path = "/PIONEER/Artwork/00001/a1.jpg".to_string();
    track.tempo_bits = 128.5f32.to_bits();
    track.year = 1999;
    track.play_count = 3;
    track.rating = Rating::Five;
    track.color = ColorIndex::Purple;
    track.file_type = FileType::Flac;
    track.autoload_hotcues = true;
    let native = track_to_native(&track);
    assert_eq!(native.artist, "Artist");
    assert_eq!(native.message, "Message");
    assert_eq!(native.artwork_device_path, "/PIONEER/Artwork/00001/a1.jpg");
    assert_eq!(f32::from_bits(native.tempo_bits), 128.5);
    assert_eq!(native.year, 1999);
    assert_eq!(native.play_count, 3);
    assert_eq!(native.rating, util::Rating::Five);
    assert_eq!(native.color, util::ColorIndex::Purple);
    assert_eq!(native.file_type, util::FileType::Flac);
    assert!(native.autoload_hotcues);
}

fn playlist(id: u32) -> PlaylistNode {
    PlaylistNode::Playlist(Playlist {
        id: PlaylistTreeNodeId(id),
        name: format!("list {id}"),
    })
}

fn folder(id: u32, children: Vec<PlaylistNode>) -> PlaylistNode {
    PlaylistNode::Folder(PlaylistFolder {
        id: PlaylistTreeNodeId(id),
        name: format!("folder {id}"),
        children,
    })
}

#[test]
fn the_playlist_tree_is_flattened_parents_first() {
    let tree = vec![
        folder(10, vec![playlist(11), folder(12, vec![playlist(13)]), playlist(14)]),
        playlist(15),
    ];
    let flat: Vec<(u32, u32)> = flatten_playlists(tree, 0)
        .into_iter()
        .map(|info| (info.id, info.parent_id))
        .collect();
    assert_eq!(
        flat,
        vec![(10, 0), (11, 10), (12, 10), (13, 12), (14, 10), (15, 0)]
    );
    let names: Vec<String> = flatten_playlists(vec![folder(1, vec![playlist(2)])], 7)
        .into_iter()
        .map(|info| info.name)
        .collect();
    assert_eq!(names, vec!["folder 1", "list 2"]);
}
