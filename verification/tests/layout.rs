use std::path::PathBuf;

use rekordcrate::device::layout::{
    anlz_device_path, artwork_folder, dat_files, path_hash, ExportPath, Layout,
};
use rekordcrate::setting::SettingType;

#[test]
fn path_hash_matches_real_rekordbox_exports() {
    let cases: &[(&str, &str, &str)] = &[
        (
            "/Contents/Loopmasters/UnknownAlbum/Demo Track 1.mp3",
            "P016",
            "0000875E",
        ),
        (
            "/Contents/UnknownArtist/UnknownAlbum/NOISE.wav",
            "P019",
            "00020AA9",
        ),
        (
            "/Contents/UnknownArtist/UnknownAlbum/SINEWAVE.wav",
            "P043",
            "00011517",
        ),
        (
            "/Contents/UnknownArtist/UnknownAlbum/SIREN.wav",
            "P017",
            "00009B77",
        ),
        (
            "/Contents/UnknownArtist/UnknownAlbum/HORN.wav",
            "P021",
            "00006D2B",
        ),
    ];
    for (audio_path, want_folder, want_leaf) in cases {
        let (p, h) = path_hash(audio_path);
        assert_eq!(format!("P{p:03X}"), *want_folder, "folder for {audio_path}");
        assert_eq!(format!("{h:08X}"), *want_leaf, "leaf for {audio_path}");
    }
}

/// The place as a path on the host.
fn joined(place: &ExportPath<'_>) -> PathBuf {
    place.names.iter().fold(place.root.clone(), |path, name| path.join(name))
}

#[test]
fn places_of_an_export() {
    let layout = Layout::new(PathBuf::from("/media/usb"));
    assert_eq!(layout.root(), &PathBuf::from("/media/usb"));
    let cases = [
        (layout.pioneer_dir(), "/media/usb/PIONEER"),
        (layout.rekordbox_dir(), "/media/usb/PIONEER/rekordbox"),
        (layout.export_pdb(), "/media/usb/PIONEER/rekordbox/export.pdb"),
        (layout.export_ext_pdb(), "/media/usb/PIONEER/rekordbox/exportExt.pdb"),
        (layout.usbanlz_dir(), "/media/usb/PIONEER/USBANLZ"),
        (layout.contents_dir(), "/media/usb/Contents"),
        (layout.dat_path("MYSETTING.DAT"), "/media/usb/PIONEER/MYSETTING.DAT"),
        (layout.artwork_dir(), "/media/usb/PIONEER/Artwork"),
        (layout.artwork_file(1), "/media/usb/PIONEER/Artwork/00001/a1.jpg"),
        (layout.artwork_m_file(45), "/media/usb/PIONEER/Artwork/00003/a45_m.jpg"),
    ];
    for (place, want) in cases {
        assert_eq!(joined(&place), PathBuf::from(want));
    }
}

#[test]
fn the_main_database_is_called_export_pdb() {
    let layout = Layout::new("/srv/export".into());
    assert!(joined(&layout.export_pdb()).ends_with("export.pdb"));
}

#[test]
fn analysis_files_are_found_by_their_extension() {
    let layout = Layout::new(PathBuf::from("usb"));
    let audio = "/Contents/Artist/Album/01 Title.mp3";
    let dat = joined(&layout.anlz_dat_file(audio));
    assert_eq!(joined(&layout.anlz_ext_file(audio)), dat.with_extension("EXT"));
    assert_eq!(joined(&layout.anlz_2ex_file(audio)), dat.with_extension("2EX"));
}

#[test]
fn analysis_files_follow_the_hash() {
    let layout = Layout::new(PathBuf::from("usb"));
    let audio = "/Contents/UnknownArtist/UnknownAlbum/NOISE.wav";
    let dir = "usb/PIONEER/USBANLZ/P019/00020AA9";
    assert_eq!(joined(&layout.anlz_dir(audio)), PathBuf::from(dir));
    assert_eq!(
        joined(&layout.anlz_dat_file(audio)),
        PathBuf::from(dir).join("ANLZ0000.DAT")
    );
    assert_eq!(
        joined(&layout.anlz_ext_file(audio)),
        PathBuf::from(dir).join("ANLZ0000.EXT")
    );
    assert_eq!(
        joined(&layout.anlz_2ex_file(audio)),
        PathBuf::from(dir).join("ANLZ0000.2EX")
    );
    assert_eq!(anlz_device_path(audio), "/PIONEER/USBANLZ/P019/00020AA9/ANLZ0000.DAT");
}

#[test]
fn the_stored_analysis_path_names_the_analysis_file() {
    let layout = Layout::new(PathBuf::from("/"));
    for audio in ["", "/Contents/a.mp3", "/Contents/\u{e9}t\u{e9}.mp3"] {
        assert_eq!(
            joined(&layout.anlz_dat_file(audio)),
            PathBuf::from(anlz_device_path(audio))
        );
    }
}

#[test]
fn twenty_images_share_an_artwork_folder() {
    assert_eq!(artwork_folder(0), "00001");
    assert_eq!(artwork_folder(19), "00001");
    assert_eq!(artwork_folder(20), "00002");
    assert_eq!(artwork_folder(u32::MAX), "214748365");
}

#[test]
fn hash_of_nothing_is_zero() {
    assert_eq!(path_hash(""), (0, 0));
}

#[test]
fn hash_stays_in_range() {
    for audio in ["/Contents/a.mp3", "\u{10FFFF}", "/Contents/long/long/long/name.wav"] {
        let (p, h) = path_hash(audio);
        assert!(h < 200_003);
        assert!(p < 128);
    }
}

#[test]
fn only_the_low_sixteen_bits_of_a_character_count() {
    assert_eq!(path_hash("/\u{1F600}.mp3"), path_hash("/\u{F600}.mp3"));
}

#[test]
fn setting_files_in_order() {
    assert_eq!(
        dat_files(),
        vec![
            ("DEVSETTING.DAT", SettingType::DevSetting),
            ("DJMMYSETTING.DAT", SettingType::DJMMySetting),
            ("MYSETTING.DAT", SettingType::MySetting),
            ("MYSETTING2.DAT", SettingType::MySetting2),
        ]
    );
}

#[test]
fn a_copied_layout_has_the_same_root() {
    let layout = Layout::new(PathBuf::from("/media/usb"));
    assert_eq!(layout.clone().root(), layout.root());
    assert_eq!(layout.clone(), layout);
}
