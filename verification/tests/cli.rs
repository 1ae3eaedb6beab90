use rekordcrate::cli::dump::{page_lines, table_heading, PageText};
use rekordcrate::cli::export::{
    export_report, export_rows, export_tables, history_row, track_info, track_report, track_row,
    AudioFile, Catalog, TrackInfo,
};
use rekordcrate::cli::guess::{guess_db_type, guess_setting_type, Guess};
use rekordcrate::cli::m3u::{export_playlists, relative_path};
use rekordcrate::cli::naming::{device_names, is_mp3};
use rekordcrate::cli::playlists::{list_playlists, playlist_entries, PlaylistRows};
use rekordcrate::cli::tree::tree_is_finite;
use rekordcrate::device::{Playlist, PlaylistFolder, PlaylistNode};
use rekordcrate::pdb::{
    AlbumId, ArtistId, ArtistName, DatabaseType, PageType, PlainPageType, PlaylistEntry,
    PlaylistTreeNode, PlaylistTreeNodeId, TrackId, TrackPath, TrackTitle,
};
use rekordcrate::setting::SettingType;
use rekordcrate::util::FileType;

fn node(parent: u32, id: u32, is_folder: bool, name: &str) -> PlaylistTreeNode {
    PlaylistTreeNode {
        parent_id: PlaylistTreeNodeId(parent),
        id: PlaylistTreeNodeId(id),
        is_folder,
        name: name.to_string(),
    }
}

fn entry(playlist: u32, index: u32, track: u32) -> PlaylistEntry {
    PlaylistEntry {
        playlist_id: PlaylistTreeNodeId(playlist),
        entry_index: index,
        track_id: TrackId(track),
    }
}

#[test]
fn entries_come_in_the_order_of_their_index() {
    let entries = vec![
        entry(1, 3, 30),
        entry(2, 1, 99),
        entry(1, 1, 10),
        entry(1, 2, 20),
        entry(1, 3, 31),
    ];
    assert_eq!(
        playlist_entries(&entries, PlaylistTreeNodeId(1)),
        vec![(1, TrackId(10)), (2, TrackId(20)), (3, TrackId(31))]
    );
    assert_eq!(playlist_entries(&entries, PlaylistTreeNodeId(3)), vec![]);
}

#[test]
fn the_tree_is_listed_with_entries_and_children() {
    let rows = PlaylistRows {
        nodes: vec![
            node(1, 2, false, "House"),
            node(0, 1, true, "Sets"),
            node(0, 3, false, "Loose"),
        ],
        entries: vec![entry(2, 2, 8), entry(2, 1, 7), entry(3, 1, 9), entry(3, 2, 7)],
        artists: vec![
            ArtistName { id: ArtistId(5), name: "Old".to_string() },
            ArtistName { id: ArtistId(5), name: "New".to_string() },
        ],
        tracks: vec![
            TrackTitle { id: TrackId(7), artist_id: ArtistId(5), title: "Seven".to_string() },
            TrackTitle { id: TrackId(8), artist_id: ArtistId(6), title: "Eight".to_string() },
        ],
    };
    assert!(tree_is_finite(&rows.nodes));
    assert_eq!(
        list_playlists(&rows),
        vec![
            "\u{1F5C0} Sets",
            "    \u{1F5CE} House",
            "      \u{266B} 1: New - Seven",
            "      \u{266B} 2: <Artist for ArtistId(6) not found> - Eight",
            "\u{1F5CE} Loose",
            "  \u{266B} 1: <Track for TrackId(9) not found>",
            "  \u{266B} 2: New - Seven",
        ]
    );
}

#[test]
fn a_tree_that_bites_its_tail_is_not_finite() {
    assert!(tree_is_finite(&vec![]));
    // A node of its own below nothing that can be reached does no harm.
    assert!(tree_is_finite(&vec![node(0, 1, true, "a"), node(7, 7, true, "b")]));
    assert!(!tree_is_finite(&vec![node(0, 0, true, "a")]));
    assert!(!tree_is_finite(&vec![
        node(0, 1, true, "a"),
        node(1, 2, true, "b"),
        node(2, 1, true, "c"),
    ]));
    assert!(tree_is_finite(&vec![
        node(2, 3, true, "c"),
        node(1, 2, true, "b"),
        node(0, 1, true, "a"),
    ]));
}

fn playlist(id: u32, name: &str) -> PlaylistNode {
    PlaylistNode::Playlist(Playlist {
        id: PlaylistTreeNodeId(id),
        name: name.to_string(),
    })
}

fn folder(id: u32, name: &str, children: Vec<PlaylistNode>) -> PlaylistNode {
    PlaylistNode::Folder(PlaylistFolder {
        id: PlaylistTreeNodeId(id),
        name: name.to_string(),
        children,
    })
}

#[test]
fn every_playlist_gets_a_file() {
    let tree = vec![
        folder(1, "Sets", vec![folder(2, "2024", vec![playlist(3, "May")]), playlist(4, "Best")]),
        folder(5, "Empty", vec![]),
        playlist(6, "Loose"),
    ];
    let entries = vec![entry(3, 2, 1), entry(3, 1, 2), entry(3, 3, 99)];
    let tracks = vec![
        TrackPath { id: TrackId(1), file_path: "/Contents/old.mp3".to_string() },
        TrackPath { id: TrackId(2), file_path: "Contents/two.mp3".to_string() },
        TrackPath { id: TrackId(1), file_path: "/Contents/one.mp3".to_string() },
    ];
    let files = export_playlists(&tree, &entries, &tracks);
    let shown: Vec<(String, &str, &Vec<String>)> = files
        .iter()
        .map(|f| (f.folders.join("/"), f.name.as_str(), &f.tracks))
        .collect();
    let none: Vec<String> = vec![];
    assert_eq!(
        shown,
        vec![
            (
                "Sets/2024".to_string(),
                "May.m3u",
                &vec!["Contents/two.mp3".to_string(), "Contents/one.mp3".to_string()]
            ),
            ("Sets".to_string(), "Best.m3u", &none),
            (String::new(), "Loose.m3u", &none),
        ]
    );
}

#[test]
fn only_one_leading_slash_is_dropped() {
    assert_eq!(relative_path("/Contents/a.mp3"), "Contents/a.mp3");
    assert_eq!(relative_path("Contents/a.mp3"), "Contents/a.mp3");
    assert_eq!(relative_path("//a"), "/a");
    assert_eq!(relative_path("/"), "");
    assert_eq!(relative_path(""), "");
    assert_eq!(relative_path("/\u{e9}"), "\u{e9}");
}

#[test]
fn mp3_files_are_known_by_their_extension() {
    for extension in ["mp3", "MP3", "Mp3", "mP3"] {
        assert!(is_mp3(Some(extension)));
    }
    for extension in ["", "mp", "mp33", "mp4", "wav", "\u{ff4d}p3"] {
        assert!(!is_mp3(Some(extension)));
    }
    assert!(!is_mp3(None));
}

fn strings(texts: &[&str]) -> Vec<String> {
    texts.iter().map(|t| t.to_string()).collect()
}

#[test]
fn repeated_stems_get_numbers() {
    assert_eq!(
        device_names(&strings(&["a", "b", "a", "a", "b"])),
        strings(&["a.mp3", "b.mp3", "a_2.mp3", "a_3.mp3", "b_2.mp3"])
    );
    assert_eq!(device_names(&vec![]), Vec::<String>::new());
}

#[test]
fn a_stem_that_looks_numbered_can_collide() {
    assert_eq!(
        device_names(&strings(&["a", "a", "a_2"])),
        strings(&["a.mp3", "a_2.mp3", "a_2.mp3"])
    );
}

fn bare_file(stem: &str) -> AudioFile {
    AudioFile {
        stem: stem.to_string(),
        device_name: format!("{stem}.mp3"),
        title: None,
        artist: None,
        album: None,
        duration_secs: 0,
        sample_rate: None,
        bitrate: None,
        file_size: 0,
        tempo: None,
    }
}

#[test]
fn missing_metadata_has_fixed_values() {
    let info = track_info(bare_file("song"));
    assert_eq!(info.dest_filename, "song.mp3");
    assert_eq!(info.title, "song");
    assert_eq!(info.artist_name, "");
    assert_eq!(info.album_name, "");
    assert_eq!(info.sample_rate, 44_100);
    assert_eq!(info.bitrate, 320);
    assert_eq!(info.tempo, 0);
}

#[test]
fn metadata_is_taken_over() {
    let mut file = bare_file("song");
    file.title = Some("Title".to_string());
    file.artist = Some("Artist".to_string());
    file.album = Some("Album".to_string());
    file.duration_secs = 65_536 + 61;
    file.sample_rate = Some(48_000);
    file.bitrate = Some(192);
    file.file_size = 4_294_967_296 + 5;
    file.tempo = Some(12_800);
    let info = track_info(file);
    assert_eq!(info.title, "Title");
    assert_eq!(info.artist_name, "Artist");
    assert_eq!(info.album_name, "Album");
    assert_eq!(info.duration_secs, 61);
    assert_eq!(info.sample_rate, 48_000);
    assert_eq!(info.bitrate, 192);
    assert_eq!(info.file_size, 5);
    assert_eq!(info.tempo, 12_800);
}

fn tagged(stem: &str, artist: &str, album: &str) -> TrackInfo {
    let mut file = bare_file(stem);
    file.artist = Some(artist.to_string());
    file.album = Some(album.to_string());
    track_info(file)
}

#[test]
fn artists_and_albums_are_shared() {
    let tracks = vec![
        tagged("1", "B", "X"),
        tagged("2", "A", "X"),
        tagged("3", "B", "X"),
        tagged("4", "", "X"),
        tagged("5", "A", ""),
        tagged("6", "", ""),
    ];
    let rows = export_rows(&tracks);
    let artists: Vec<(u32, &str)> =
        rows.artists.iter().map(|a| (a.id.0, a.name.as_str())).collect();
    assert_eq!(artists, vec![(1, "B"), (2, "A")]);
    let albums: Vec<(u32, u32, &str)> = rows
        .albums
        .iter()
        .map(|a| (a.id.0, a.artist_id.0, a.name.as_str()))
        .collect();
    assert_eq!(albums, vec![(1, 1, "X"), (2, 2, "X"), (3, 0, "X")]);
    let ids: Vec<(u32, u32, u32)> = rows
        .tracks
        .iter()
        .map(|t| (t.id.0, t.artist_id.0, t.album_id.0))
        .collect();
    assert_eq!(
        ids,
        vec![(1, 1, 1), (2, 2, 2), (3, 1, 1), (4, 0, 3), (5, 2, 0), (6, 0, 0)]
    );
    assert_eq!(
        export_report(&rows, "usb/PIONEER/rekordbox/export.pdb"),
        "Exported 6 track(s), 2 artist(s), and 3 album(s) to usb/PIONEER/rekordbox/export.pdb"
    );
}

#[test]
fn rows_carry_the_current_date() {
    let before = chrono::Local::now().date_naive();
    let rows = export_rows(&vec![tagged("1", "A", "X")]);
    let after = chrono::Local::now().date_naive();
    for text in [&rows.history.date, &rows.tracks[0].date_added] {
        let date = chrono::NaiveDate::parse_from_str(text, "%Y-%m-%d").expect("a date");
        assert!(before <= date && date <= after);
        assert_eq!(text.len(), 10);
    }
}

#[test]
fn a_track_row_is_filled_from_its_information() {
    let tracks = vec![tagged("0", "Z", "Y"), tagged("song", "A", "X")];
    let row = track_row(&tracks, 1, &Catalog::of(&tracks), "2024-05-01".to_string());
    assert_eq!(row.id, TrackId(2));
    assert_eq!(row.title, "song");
    assert_eq!(row.artist_id, ArtistId(2));
    assert_eq!(row.album_id, AlbumId(2));
    assert_eq!(row.file_path, "/Contents/song.mp3");
    assert_eq!(row.filename, "song.mp3");
    assert_eq!(row.sample_rate, 44_100);
    assert_eq!(row.sample_depth, 16);
    assert_eq!(row.bitrate, 320);
    assert_eq!(row.file_type, FileType::Mp3);
    assert_eq!(row.autoload_hotcues, "ON");
    assert_eq!(row.date_added, "2024-05-01");
}

#[test]
fn the_history_row_is_fixed_but_for_its_date() {
    let row = history_row("2024-05-01".to_string());
    assert_eq!(row.subtype, 640);
    assert_eq!((row.index_shift, row.unknown, row.zeroes), (0, 0, 0));
    assert_eq!(row.date, "2024-05-01");
    assert_eq!(row.magic, 7705);
    assert_eq!(row.version, "1000");
    assert_eq!(row.label, "");
}

#[test]
fn a_database_has_twenty_tables() {
    let tables = export_tables();
    assert_eq!(tables.len(), 20);
    assert_eq!(tables[0], PageType::Plain(PlainPageType::Tracks));
    assert_eq!(tables[9], PageType::Unknown(9));
    assert_eq!(tables[16], PageType::Plain(PlainPageType::Columns));
    assert_eq!(tables[19], PageType::Plain(PlainPageType::History));
}

#[test]
fn tracks_are_reported_with_what_is_known() {
    assert_eq!(track_report(1, &tagged("song", "A", "X")), "  [1] A - song [X]");
    assert_eq!(track_report(12, &tagged("song", "", "")), "  [12] (unknown) - song");
}

#[test]
fn unknown_tables_are_dumped_on_request_only() {
    let plain = PageType::Plain(PlainPageType::Keys);
    let unknown = PageType::Unknown(9);
    for (page_type, parse, dumped) in [
        (plain, false, true),
        (plain, true, true),
        (unknown, false, false),
        (unknown, true, true),
    ] {
        assert_eq!(page_type.is_skipped(parse), !dumped);
        let heading = table_heading("TableIndex(3)", "Keys", page_type, parse);
        assert_eq!(heading.dumped, dumped);
        assert_eq!(heading.lines[0], "Table TableIndex(3): Keys");
        assert_eq!(heading.lines.len(), if dumped { 1 } else { 2 });
    }
    assert_eq!(
        table_heading("1", "2", unknown, false).lines[1],
        "  Skipping unknown table type, use --parse-unknown-tables to attempt parsing"
    );
}

#[test]
fn pages_are_printed_with_what_they_hold() {
    assert_eq!(
        page_lines(&PageText::Data {
            page: "Page 1".to_string(),
            rows: strings(&["Row 1", "Row 2"]),
        }),
        strings(&["  Page 1", "      Row 1", "      Row 2"])
    );
    assert_eq!(
        page_lines(&PageText::Index {
            page: "Page 2".to_string(),
            index: "Index".to_string(),
            entries: strings(&["Entry"]),
        }),
        strings(&["  Page 2", "    Index", "      Entry"])
    );
}

#[test]
fn database_types_are_guessed() {
    assert_eq!(guess_db_type(None, Some("ext")), Guess::NotAFile);
    assert_eq!(guess_db_type(Some("a.pdb"), None), Guess::Unsaid);
    assert_eq!(
        guess_db_type(Some("export.pdb"), None),
        Guess::Certain(DatabaseType::Plain)
    );
    assert_eq!(
        guess_db_type(Some("exportExt.pdb"), None),
        Guess::Certain(DatabaseType::Ext)
    );
    assert_eq!(
        guess_db_type(Some("a.pdb"), Some("plain")),
        Guess::Certain(DatabaseType::Plain)
    );
    assert_eq!(
        guess_db_type(Some("exportExt.pdb"), Some("ext")),
        Guess::Certain(DatabaseType::Ext)
    );
    let overruled = guess_db_type(Some("exportExt.pdb"), Some("plain"));
    assert_eq!(
        overruled,
        Guess::Overruled { used: DatabaseType::Plain, found: DatabaseType::Ext }
    );
    assert_eq!(overruled.chosen(), Some(DatabaseType::Plain));
    assert_eq!(Guess::<DatabaseType>::NotAFile.chosen(), None);
    assert_eq!(Guess::<DatabaseType>::Unsaid.chosen(), None);
}

#[test]
fn setting_types_are_guessed() {
    for (flag, name, kind) in [
        ("devsetting", "DEVSETTING.DAT", SettingType::DevSetting),
        ("djmmysetting", "DJMMYSETTING.DAT", SettingType::DJMMySetting),
        ("mysetting", "MYSETTING.DAT", SettingType::MySetting),
        ("mysetting2", "MYSETTING2.DAT", SettingType::MySetting2),
    ] {
        assert_eq!(guess_setting_type(Some(name), None), Guess::Certain(kind));
        assert_eq!(guess_setting_type(Some("x"), Some(flag)), Guess::Certain(kind));
        assert_eq!(guess_setting_type(Some(name), Some(flag)), Guess::Certain(kind));
        assert_eq!(SettingType::from_filename(name), Some(kind));
    }
    assert_eq!(guess_setting_type(None, None), Guess::NotAFile);
    assert_eq!(guess_setting_type(Some("x"), None), Guess::Unsaid);
    assert_eq!(
        guess_setting_type(Some("MYSETTING.DAT"), Some("mysetting2")).chosen(),
        Some(SettingType::MySetting2)
    );
}
