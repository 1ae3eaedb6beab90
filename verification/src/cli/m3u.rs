//! The playlist files that a playlist tree is exported to.

use vstd::prelude::*;
use vstd::string::*;

use crate::cli::playlists::{entry_map, in_order, playlist_entries};
use crate::device::layout::texts;
use crate::device::PlaylistNode;
use crate::pdb::{PlaylistEntry, TrackId, TrackPath};

verus! {

/// A playlist file to be written.
#[derive(Debug)]
pub struct M3uFile {
    /// The names of the folders that the file stands in, outermost first.
    pub folders: Vec<String>,
    /// The name of the file.
    pub name: String,
    /// The audio files in the order of the playlist, each relative to the device root.
    pub tracks: Vec<String>,
}

/// The model of a playlist file: its folders, its name and its audio files.
pub type M3uModel = (Seq<Seq<char>>, Seq<char>, Seq<Seq<char>>);

impl M3uFile {
    /// The folders, the name and the audio files as texts.
    pub open spec fn view(&self) -> M3uModel {
        (texts(self.folders@), self.name@, texts(self.tracks@))
    }
}

/// The models of a list of playlist files.
pub open spec fn models(files: Seq<M3uFile>) -> Seq<M3uModel> {
    Seq::new(files.len(), |i: int| files[i]@)
}

/// The file path of the track with the given identifier, that of the last row where there are
/// several.
pub open spec fn path_of_track(tracks: Seq<TrackPath>, id: TrackId) -> Option<Seq<char>>
    decreases tracks.len(),
{
    if tracks.len() == 0 {
        None
    } else if tracks.last().id == id {
        Some(tracks.last().file_path@)
    } else {
        path_of_track(tracks.drop_last(), id)
    }
}

/// A path on the device without the slash that it starts with.
pub open spec fn below_root(path: Seq<char>) -> Seq<char> {
    if path.len() > 0 && path[0] == '/' {
        path.skip(1)
    } else {
        path
    }
}

/// The paths of the tracks of a playlist, in its order. A track without a row is left out.
pub open spec fn listed_paths(list: Seq<(u32, TrackId)>, tracks: Seq<TrackPath>) -> Seq<Seq<char>>
    decreases list.len(),
{
    if list.len() == 0 {
        Seq::empty()
    } else {
        let earlier = listed_paths(list.drop_last(), tracks);
        match path_of_track(tracks, list.last().1) {
            Some(path) => earlier.push(below_root(path)),
            None => earlier,
        }
    }
}

/// The playlist files of a row of siblings that stand in `folders`, with those of everything below
/// them.
pub open spec fn tree_files(
    nodes: Seq<PlaylistNode>,
    folders: Seq<Seq<char>>,
    entries: Seq<PlaylistEntry>,
    tracks: Seq<TrackPath>,
) -> Seq<M3uModel>
    decreases nodes,
{
    if nodes.len() == 0 {
        Seq::empty()
    } else {
        let earlier = tree_files(nodes.drop_last(), folders, entries, tracks);
        match nodes.last() {
            PlaylistNode::Folder(folder) => earlier + tree_files(
                folder.children@,
                folders.push(folder.name@),
                entries,
                tracks,
            ),
            PlaylistNode::Playlist(playlist) => earlier.push(
                (
                    folders,
                    playlist.name@ + ".m3u"@,
                    listed_paths(in_order(entry_map(entries, playlist.id)), tracks),
                ),
            ),
        }
    }
}

/// Looks up the file path of a track.
fn find_path(tracks: &Vec<TrackPath>, id: TrackId) -> (r: Option<&String>)
    ensures
        match r {
            Some(path) => path_of_track(tracks@, id) == Some(path@),
            None => path_of_track(tracks@, id) is None,
        },
{
    let mut i: usize = tracks.len();
    assert(tracks@.take(i as int) =~= tracks@);
    while i > 0
        invariant
            i <= tracks.len(),
            path_of_track(tracks@, id) == path_of_track(tracks@.take(i as int), id),
        decreases i,
    {
        i = i - 1;
        assert(tracks@.take(i + 1).drop_last() =~= tracks@.take(i as int));
        assert(tracks@.take(i + 1).last() == tracks@[i as int]);
        if tracks[i].id == id {
            return Some(&tracks[i].file_path);
        }
    }
    None
}

/// A path on the device without the slash that it starts with.
pub fn relative_path(path: &str) -> (r: String)
    ensures
        r@ == below_root(path@),
{
    let count: usize = path.unicode_len();
    if count > 0 && path.get_char(0) == '/' {
        String::from_str(path.substring_char(1, count))
    } else {
        String::from_str(path)
    }
}

/// The audio files that a playlist lists.
fn track_paths(list: &Vec<(u32, TrackId)>, tracks: &Vec<TrackPath>) -> (r: Vec<String>)
    ensures
        texts(r@) == listed_paths(list@, tracks@),
{
    let mut out: Vec<String> = Vec::new();
    let mut i: usize = 0;
    assert(list@.take(0) =~= Seq::empty());
    assert(texts(out@) =~= Seq::empty());
    while i < list.len()
        invariant
            i <= list.len(),
            texts(out@) == listed_paths(list@.take(i as int), tracks@),
        decreases list.len() - i,
    {
        let ghost before = out@;
        assert(list@.take(i + 1).drop_last() =~= list@.take(i as int));
        if let Some(path) = find_path(tracks, list[i].1) {
            out.push(relative_path(path.as_str()));
            assert(texts(out@) =~= texts(before).push(below_root(path@)));
        }
        i = i + 1;
    }
    assert(list@.take(i as int) =~= list@);
    out
}

/// A copy of a list of names.
fn copy_names(names: &Vec<String>) -> (r: Vec<String>)
    ensures
        texts(r@) == texts(names@),
{
    let mut out: Vec<String> = Vec::new();
    let mut i: usize = 0;
    while i < names.len()
        invariant
            i <= names.len(),
            out.len() == i,
            forall|k: int| 0 <= k < i ==> (#[trigger] out@[k])@ == names@[k]@,
        decreases names.len() - i,
    {
        out.push(names[i].clone());
        i = i + 1;
    }
    assert(texts(out@) =~= texts(names@));
    out
}

/// Appends the playlist files of `nodes` to `out`.
fn push_files(
    nodes: &Vec<PlaylistNode>,
    folders: &Vec<String>,
    entries: &Vec<PlaylistEntry>,
    tracks: &Vec<TrackPath>,
    out: &mut Vec<M3uFile>,
)
    ensures
        models(final(out)@) == models(old(out)@) + tree_files(
            nodes@,
            texts(folders@),
            entries@,
            tracks@,
        ),
    decreases nodes,
{
    let ghost place = texts(folders@);
    let mut i: usize = 0;
    assert(nodes@.take(0) =~= Seq::empty());
    assert(models(out@) =~= models(old(out)@) + tree_files(
        nodes@.take(0),
        place,
        entries@,
        tracks@,
    ));
    while i < nodes.len()
        invariant
            i <= nodes.len(),
            place == texts(folders@),
            models(out@) == models(old(out)@) + tree_files(
                nodes@.take(i as int),
                place,
                entries@,
                tracks@,
            ),
        decreases nodes.len() - i,
    {
        let ghost before = out@;
        let ghost prefix = nodes@.take(i + 1);
        assert(prefix.drop_last() =~= nodes@.take(i as int));
        assert(prefix.last() == nodes@[i as int]);
        let node = &nodes[i];
        match node {
            PlaylistNode::Folder(folder) => {
                let mut inner: Vec<String> = copy_names(folders);
                let ghost outer = inner@;
                inner.push(folder.name.clone());
                assert(texts(inner@) =~= texts(outer).push(folder.name@));
                push_files(&folder.children, &inner, entries, tracks, out);
            },
            PlaylistNode::Playlist(playlist) => {
                let mut name: String = playlist.name.clone();
                name.append(".m3u");
                let list: Vec<(u32, TrackId)> = playlist_entries(entries, playlist.id);
                let file = M3uFile {
                    folders: copy_names(folders),
                    name,
                    tracks: track_paths(&list, tracks),
                };
                let ghost model = file@;
                out.push(file);
                assert(models(out@) =~= models(before).push(model));
            },
        }
        assert(models(out@) =~= models(old(out)@) + tree_files(prefix, place, entries@, tracks@));
        i = i + 1;
    }
    assert(nodes@.take(i as int) =~= nodes@);
}

/// The playlist files of a playlist tree: one per playlist, in the folders that enclose it.
pub fn export_playlists(
    playlists: &Vec<PlaylistNode>,
    entries: &Vec<PlaylistEntry>,
    tracks: &Vec<TrackPath>,
) -> (r: Vec<M3uFile>)
    ensures
        models(r@) == tree_files(playlists@, Seq::empty(), entries@, tracks@),
{
    let mut out: Vec<M3uFile> = Vec::new();
    let root: Vec<String> = Vec::new();
    assert(texts(root@) =~= Seq::empty());
    push_files(playlists, &root, entries, tracks, &mut out);
    assert(models(out@) =~= tree_files(playlists@, Seq::empty(), entries@, tracks@));
    out
}

/// The number of playlists of the tree below `nodes`.
pub open spec fn playlist_count(nodes: Seq<PlaylistNode>) -> nat
    decreases nodes,
{
    if nodes.len() == 0 {
        0
    } else {
        playlist_count(nodes.drop_last()) + match nodes.last() {
            PlaylistNode::Folder(folder) => playlist_count(folder.children@),
            PlaylistNode::Playlist(_) => 1,
        }
    }
}

/// Every playlist gets one file, and a folder none of its own.
pub proof fn law_one_file_per_playlist(
    nodes: Seq<PlaylistNode>,
    folders: Seq<Seq<char>>,
    entries: Seq<PlaylistEntry>,
    tracks: Seq<TrackPath>,
)
    ensures
        tree_files(nodes, folders, entries, tracks).len() == playlist_count(nodes),
    decreases nodes,
{
    if nodes.len() > 0 {
        law_one_file_per_playlist(nodes.drop_last(), folders, entries, tracks);
        if let PlaylistNode::Folder(folder) = nodes.last() {
            law_one_file_per_playlist(
                folder.children@,
                folders.push(folder.name@),
                entries,
                tracks,
            );
        }
    }
}

/// Every playlist file stands in the folder that the export starts from, or further down.
pub proof fn law_files_stay_inside(
    nodes: Seq<PlaylistNode>,
    folders: Seq<Seq<char>>,
    entries: Seq<PlaylistEntry>,
    tracks: Seq<TrackPath>,
    k: int,
)
    requires
        0 <= k < tree_files(nodes, folders, entries, tracks).len(),
    ensures
        folders.is_prefix_of(tree_files(nodes, folders, entries, tracks)[k].0),
    decreases nodes,
{
    if nodes.len() > 0 {
        let earlier = tree_files(nodes.drop_last(), folders, entries, tracks);
        if k < earlier.len() {
            law_files_stay_inside(nodes.drop_last(), folders, entries, tracks, k);
        } else if let PlaylistNode::Folder(folder) = nodes.last() {
            let inner = folders.push(folder.name@);
            law_files_stay_inside(folder.children@, inner, entries, tracks, k - earlier.len());
            let place = tree_files(folder.children@, inner, entries, tracks)[k - earlier.len()].0;
            assert(folders =~= place.subrange(0, folders.len() as int)) by {
                assert forall|j: int| 0 <= j < folders.len() implies folders[j] == place[j] by {
                    assert(inner[j] == place.subrange(0, inner.len() as int)[j]);
                }
            }
        } else {
            assert(folders =~= folders.subrange(0, folders.len() as int));
        }
    }
}

/// Of several rows of a track the last gives its path, and a row says nothing of other tracks.
pub proof fn law_last_path_counts(tracks: Seq<TrackPath>, track: TrackPath, id: TrackId)
    ensures
        path_of_track(Seq::empty(), id) is None,
        path_of_track(tracks.push(track), track.id) == Some(track.file_path@),
        id != track.id ==> path_of_track(tracks.push(track), id) == path_of_track(tracks, id),
{
    assert(tracks.push(track).drop_last() =~= tracks);
}

/// Only a slash in front is dropped, and only one; the rest of the path stays as it is.
pub proof fn law_below_root(path: Seq<char>)
    ensures
        below_root(seq!['/'] + path) == path,
        path.len() == 0 || path[0] != '/' ==> below_root(path) == path,
{
    assert((seq!['/'] + path).skip(1) =~= path);
}

/// One more entry of a playlist puts the path of its track behind the others, and nothing where the
/// track has no row.
pub proof fn law_entries_become_paths(
    list: Seq<(u32, TrackId)>,
    entry: (u32, TrackId),
    tracks: Seq<TrackPath>,
)
    ensures
        listed_paths(Seq::empty(), tracks) == Seq::<Seq<char>>::empty(),
        path_of_track(tracks, entry.1) is None ==> listed_paths(list.push(entry), tracks)
            == listed_paths(list, tracks),
        path_of_track(tracks, entry.1) matches Some(path) ==> listed_paths(list.push(entry), tracks)
            == listed_paths(list, tracks).push(
            if path.len() > 0 && path[0] == '/' {
                path.subrange(1, path.len() as int)
            } else {
                path
            },
        ),
{
    assert(list.push(entry).drop_last() =~= list);
    if let Some(path) = path_of_track(tracks, entry.1) {
        if path.len() > 0 {
            assert(path.skip(1) =~= path.subrange(1, path.len() as int));
        }
    }
}

/// One more sibling adds its files behind those of the others: a playlist one file, named after it,
/// in the folders it stands in; a folder the files of its children, one folder further in.
pub proof fn law_files_of_one_more_sibling(
    nodes: Seq<PlaylistNode>,
    node: PlaylistNode,
    folders: Seq<Seq<char>>,
    entries: Seq<PlaylistEntry>,
    tracks: Seq<TrackPath>,
)
    ensures
        tree_files(Seq::empty(), folders, entries, tracks) == Seq::<M3uModel>::empty(),
        ({
            let earlier = tree_files(nodes, folders, entries, tracks);
            let all = tree_files(nodes.push(node), folders, entries, tracks);
            let n = earlier.len() as int;
            &&& all.len() >= n
            &&& all.take(n) == earlier
            &&& node matches PlaylistNode::Folder(folder) ==> all.skip(n) == tree_files(
                folder.children@,
                folders.push(folder.name@),
                entries,
                tracks,
            )
            &&& node matches PlaylistNode::Playlist(playlist) ==> {
                &&& all.len() == n + 1
                &&& all[n].0 == folders
                &&& all[n].1 == playlist.name@ + ".m3u"@
                &&& all[n].2 == listed_paths(in_order(entry_map(entries, playlist.id)), tracks)
            }
        }),
{
    let earlier = tree_files(nodes, folders, entries, tracks);
    let all = tree_files(nodes.push(node), folders, entries, tracks);
    let n = earlier.len() as int;
    assert(nodes.push(node).drop_last() =~= nodes);
    assert(all.take(n) =~= earlier);
    if let PlaylistNode::Folder(folder) = node {
        assert(all.skip(n) =~= tree_files(
            folder.children@,
            folders.push(folder.name@),
            entries,
            tracks,
        ));
    }
}

/// The model of a list of files has the folders, the name and the audio files of each, in their
/// order.
pub proof fn law_models(files: Seq<M3uFile>, i: int, j: int)
    requires
        0 <= i < files.len(),
    ensures
        models(files).len() == files.len(),
        models(files)[i].1 == files[i].name@,
        models(files)[i].0.len() == files[i].folders@.len(),
        models(files)[i].2.len() == files[i].tracks@.len(),
        0 <= j < files[i].folders@.len() ==> models(files)[i].0[j] == files[i].folders@[j]@,
        0 <= j < files[i].tracks@.len() ==> models(files)[i].2[j] == files[i].tracks@[j]@,
{
}

} // verus!
