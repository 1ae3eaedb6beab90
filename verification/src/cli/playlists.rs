//! Listing the playlist tree with the tracks of its playlists.

use vstd::prelude::*;
use vstd::string::*;

use crate::cli::tree::{is_finite_tree, lemma_nests_prefix, nests_within};
use crate::device::layout::texts;
use crate::pdb::{
    ArtistId, ArtistName, PlaylistEntry, PlaylistTreeNode, PlaylistTreeNodeId, TrackId, TrackTitle,
};
use crate::text::{decimal, decimal_text};

verus! {

/// The tracks of a playlist by their index. Where two rows give the same index, the later counts.
pub open spec fn entry_map(entries: Seq<PlaylistEntry>, playlist: PlaylistTreeNodeId) -> Map<
    u32,
    TrackId,
>
    decreases entries.len(),
{
    if entries.len() == 0 {
        Map::empty()
    } else {
        let earlier = entry_map(entries.drop_last(), playlist);
        if entries.last().playlist_id == playlist {
            earlier.insert(entries.last().entry_index, entries.last().track_id)
        } else {
            earlier
        }
    }
}

/// Whether `list` holds exactly the pairs of `map`, ordered by index.
pub open spec fn lists_in_order(map: Map<u32, TrackId>, list: Seq<(u32, TrackId)>) -> bool {
    &&& forall|i: int, j: int|
        0 <= i < j < list.len() ==> (#[trigger] list[i]).0 < (#[trigger] list[j]).0
    &&& forall|i: int|
        0 <= i < list.len() ==> map.dom().contains((#[trigger] list[i]).0) && map[list[i].0]
            == list[i].1
    &&& forall|key: u32| #[trigger]
        map.dom().contains(key) ==> exists|i: int| 0 <= i < list.len() && (#[trigger] list[i]).0
            == key
}

/// The pairs of `map` ordered by index.
pub open spec fn in_order(map: Map<u32, TrackId>) -> Seq<(u32, TrackId)> {
    choose|list: Seq<(u32, TrackId)>| lists_in_order(map, list)
}

/// There is only one list of the pairs of a map ordered by index.
pub proof fn law_order_is_unique(
    map: Map<u32, TrackId>,
    a: Seq<(u32, TrackId)>,
    b: Seq<(u32, TrackId)>,
)
    requires
        lists_in_order(map, a),
        lists_in_order(map, b),
    ensures
        a == b,
    decreases a.len(),
{
    if a.len() == 0 {
        if b.len() > 0 {
            assert(map.dom().contains(b[0].0));
        }
        assert(a =~= b);
    } else {
        assert(map.dom().contains(a[a.len() - 1].0));
        assert(b.len() > 0);
        let top_a = a[a.len() - 1];
        let top_b = b[b.len() - 1];
        assert(map.dom().contains(top_b.0));
        assert(top_a.0 == top_b.0) by {
            let i = choose|i: int| 0 <= i < b.len() && (#[trigger] b[i]).0 == top_a.0;
            let j = choose|j: int| 0 <= j < a.len() && (#[trigger] a[j]).0 == top_b.0;
            if i < b.len() - 1 {
                assert(b[i].0 < b[b.len() - 1].0);
            }
            if j < a.len() - 1 {
                assert(a[j].0 < a[a.len() - 1].0);
            }
        }
        lemma_order_without_last(map, a);
        lemma_order_without_last(map, b);
        law_order_is_unique(map.remove(top_a.0), a.drop_last(), b.drop_last());
        assert(a =~= a.drop_last().push(top_a));
        assert(b =~= b.drop_last().push(top_b));
    }
}

proof fn lemma_order_without_last(map: Map<u32, TrackId>, list: Seq<(u32, TrackId)>)
    requires
        lists_in_order(map, list),
        list.len() > 0,
    ensures
        lists_in_order(map.remove(list.last().0), list.drop_last()),
{
    let rest = map.remove(list.last().0);
    let short = list.drop_last();
    assert forall|i: int| 0 <= i < short.len() implies rest.dom().contains((#[trigger] short[i]).0)
        && rest[short[i].0] == short[i].1 by {
        assert(list[i].0 < list[list.len() - 1].0);
    }
    assert forall|key: u32| #[trigger] rest.dom().contains(key) implies exists|i: int|
        0 <= i < short.len() && (#[trigger] short[i]).0 == key by {
        let i = choose|i: int| 0 <= i < list.len() && (#[trigger] list[i]).0 == key;
        assert(short[i].0 == key);
    }
}

/// Enters a pair into a list that is ordered by index, in place of one with the same index.
fn enter(list: &mut Vec<(u32, TrackId)>, index: u32, track: TrackId, Ghost(map): Ghost<
    Map<u32, TrackId>,
>)
    requires
        lists_in_order(map, old(list)@),
    ensures
        lists_in_order(map.insert(index, track), final(list)@),
{
    let mut at: usize = list.len();
    while at > 0 && list[at - 1].0 > index
        invariant
            at <= list.len(),
            list@ == old(list)@,
            forall|j: int| at <= j < list@.len() ==> (#[trigger] list@[j]).0 > index,
        decreases at,
    {
        at = at - 1;
    }
    let ghost before = list@;
    let ghost after_map = map.insert(index, track);
    if at > 0 && list[at - 1].0 == index {
        list.set(at - 1, (index, track));
        proof {
            assert forall|i: int| 0 <= i < list@.len() implies (#[trigger] list@[i]).0
                == before[i].0 by {}
            assert forall|i: int| 0 <= i < list@.len() implies after_map.dom().contains(
                (#[trigger] list@[i]).0,
            ) && after_map[list@[i].0] == list@[i].1 by {
                assert(map.dom().contains(before[i].0));
                if i != at - 1 {
                    if i < at - 1 {
                        assert(before[i].0 < before[at - 1].0);
                    } else {
                        assert(before[at - 1].0 < before[i].0);
                    }
                }
            }
            assert forall|key: u32| #[trigger] after_map.dom().contains(key) implies exists|i: int|
                0 <= i < list@.len() && (#[trigger] list@[i]).0 == key by {
                if key == index {
                    assert(list@[at - 1].0 == key);
                } else {
                    assert(map.dom().contains(key));
                    let i = choose|i: int| 0 <= i < before.len() && (#[trigger] before[i]).0 == key;
                    assert(list@[i].0 == key);
                }
            }
        }
    } else {
        list.insert(at, (index, track));
        proof {
            assert forall|i: int| 0 <= i < at implies (#[trigger] before[i]).0 < index by {
                if i < at - 1 {
                    assert(before[i].0 < before[at - 1].0);
                }
            }
            assert forall|i: int| 0 <= i < list@.len() implies #[trigger] list@[i] == (if i < at {
                before[i]
            } else if i == at {
                (index, track)
            } else {
                before[i - 1]
            }) by {}
            assert forall|i: int, j: int| 0 <= i < j < list@.len() implies (
            #[trigger] list@[i]).0 < (#[trigger] list@[j]).0 by {
                let i0 = if i < at {
                    i
                } else {
                    i - 1
                };
                let j0 = if j < at {
                    j
                } else {
                    j - 1
                };
                if i != at && j != at {
                    assert(before[i0].0 < before[j0].0);
                }
            }
            assert forall|i: int| 0 <= i < list@.len() implies after_map.dom().contains(
                (#[trigger] list@[i]).0,
            ) && after_map[list@[i].0] == list@[i].1 by {
                if i < at {
                    assert(map.dom().contains(before[i].0));
                } else if i > at {
                    assert(map.dom().contains(before[i - 1].0));
                    assert(before[i - 1].0 > index);
                }
            }
            assert forall|key: u32| #[trigger] after_map.dom().contains(key) implies exists|i: int|
                0 <= i < list@.len() && (#[trigger] list@[i]).0 == key by {
                if key == index {
                    assert(list@[at as int].0 == key);
                } else {
                    assert(map.dom().contains(key));
                    let i = choose|i: int| 0 <= i < before.len() && (#[trigger] before[i]).0 == key;
                    if i < at {
                        assert(list@[i].0 == key);
                    } else {
                        assert(list@[i + 1].0 == key);
                    }
                }
            }
        }
    }
}

/// The tracks of a playlist with their index, ordered by it.
pub fn playlist_entries(entries: &Vec<PlaylistEntry>, playlist: PlaylistTreeNodeId) -> (r: Vec<
    (u32, TrackId),
>)
    ensures
        lists_in_order(entry_map(entries@, playlist), r@),
        r@ == in_order(entry_map(entries@, playlist)),
{
    let mut list: Vec<(u32, TrackId)> = Vec::new();
    let mut i: usize = 0;
    assert(entries@.take(0) =~= Seq::empty());
    while i < entries.len()
        invariant
            i <= entries.len(),
            lists_in_order(entry_map(entries@.take(i as int), playlist), list@),
        decreases entries.len() - i,
    {
        assert(entries@.take(i + 1).drop_last() =~= entries@.take(i as int));
        let entry: PlaylistEntry = entries[i];
        if entry.playlist_id == playlist {
            let ghost earlier = entry_map(entries@.take(i as int), playlist);
            enter(&mut list, entry.entry_index, entry.track_id, Ghost(earlier));
        }
        i = i + 1;
    }
    assert(entries@.take(i as int) =~= entries@);
    proof {
        let map = entry_map(entries@, playlist);
        law_order_is_unique(map, list@, in_order(map));
    }
    list
}

/// The rows of a database that the playlist listing is made of.
#[derive(Debug)]
pub struct PlaylistRows {
    pub nodes: Vec<PlaylistTreeNode>,
    pub entries: Vec<PlaylistEntry>,
    pub artists: Vec<ArtistName>,
    pub tracks: Vec<TrackTitle>,
}

/// The track row with the given identifier, the last one where there are several.
pub open spec fn track_with_id(tracks: Seq<TrackTitle>, id: TrackId) -> Option<TrackTitle>
    decreases tracks.len(),
{
    if tracks.len() == 0 {
        None
    } else if tracks.last().id == id {
        Some(tracks.last())
    } else {
        track_with_id(tracks.drop_last(), id)
    }
}

/// The artist row with the given identifier, the last one where there are several.
pub open spec fn artist_with_id(artists: Seq<ArtistName>, id: ArtistId) -> Option<ArtistName>
    decreases artists.len(),
{
    if artists.len() == 0 {
        None
    } else if artists.last().id == id {
        Some(artists.last())
    } else {
        artist_with_id(artists.drop_last(), id)
    }
}

/// How a track is shown: artist and title, or what is missing.
pub open spec fn track_line(
    tracks: Seq<TrackTitle>,
    artists: Seq<ArtistName>,
    id: TrackId,
) -> Seq<char> {
    match track_with_id(tracks, id) {
        None => "<Track for TrackId("@ + decimal(id.0 as nat) + ") not found>"@,
        Some(track) => match artist_with_id(artists, track.artist_id) {
            None => "<Artist for ArtistId("@ + decimal(track.artist_id.0 as nat)
                + ") not found> - "@ + track.title@,
            Some(artist) => artist.name@ + " - "@ + track.title@,
        },
    }
}

/// Four blanks per level.
pub open spec fn indentation(level: nat) -> Seq<char>
    decreases level,
{
    if level == 0 {
        Seq::empty()
    } else {
        indentation((level - 1) as nat) + "    "@
    }
}

/// The line of a node: a folder or document sign and the name.
pub open spec fn node_line(node: PlaylistTreeNode, level: nat) -> Seq<char> {
    indentation(level) + (if node.is_folder {
        "\u{1F5C0}"@
    } else {
        "\u{1F5CE}"@
    }) + " "@ + node.name@
}

/// The line of a playlist entry: a note sign, the index and the track.
pub open spec fn entry_line(rows: PlaylistRows, entry: (u32, TrackId), level: nat) -> Seq<char> {
    indentation(level) + "  \u{266B} "@ + decimal(entry.0 as nat) + ": "@ + track_line(
        rows.tracks@,
        rows.artists@,
        entry.1,
    )
}

/// The lines of the entries of a node.
pub open spec fn entry_lines(rows: PlaylistRows, id: PlaylistTreeNodeId, level: nat) -> Seq<
    Seq<char>,
> {
    let list = in_order(entry_map(rows.entries@, id));
    Seq::new(list.len(), |i: int| entry_line(rows, list[i], level))
}

/// The lines of those of the first `n` nodes that hang below `id`, each with its entries and
/// everything below it, down to `depth` levels.
pub open spec fn tree_lines(
    rows: PlaylistRows,
    id: PlaylistTreeNodeId,
    level: nat,
    depth: nat,
    n: nat,
) -> Seq<Seq<char>>
    decreases depth, n,
{
    if n == 0 || depth == 0 {
        Seq::empty()
    } else {
        let node = rows.nodes@[n - 1];
        tree_lines(rows, id, level, depth, (n - 1) as nat) + (if node.parent_id == id {
            seq![node_line(node, level)] + entry_lines(rows, node.id, level) + tree_lines(
                rows,
                node.id,
                level + 1,
                (depth - 1) as nat,
                rows.nodes@.len(),
            )
        } else {
            Seq::empty()
        })
    }
}

/// The lines of the whole playlist tree.
pub open spec fn listing(rows: PlaylistRows) -> Seq<Seq<char>> {
    tree_lines(rows, PlaylistTreeNodeId(0), 0, rows.nodes@.len(), rows.nodes@.len())
}

/// Shows a track.
fn show_track(tracks: &Vec<TrackTitle>, artists: &Vec<ArtistName>, id: TrackId) -> (r: String)
    ensures
        r@ == track_line(tracks@, artists@, id),
{
    let mut i: usize = tracks.len();
    assert(tracks@.take(i as int) =~= tracks@);
    while i > 0
        invariant
            i <= tracks.len(),
            track_with_id(tracks@, id) == track_with_id(tracks@.take(i as int), id),
        decreases i,
    {
        i = i - 1;
        assert(tracks@.take(i + 1).drop_last() =~= tracks@.take(i as int));
        assert(tracks@.take(i + 1).last() == tracks@[i as int]);
        if tracks[i].id == id {
            let track = &tracks[i];
            return match name_of_artist(artists, track.artist_id) {
                Some(artist) => {
                    let mut line: String = artist.name.clone();
                    line.append(" - ");
                    line.append(track.title.as_str());
                    line
                },
                None => {
                    let mut line: String = String::from_str("<Artist for ArtistId(");
                    line.append(decimal_text(track.artist_id.0).as_str());
                    line.append(") not found> - ");
                    line.append(track.title.as_str());
                    line
                },
            };
        }
    }
    let mut line: String = String::from_str("<Track for TrackId(");
    line.append(decimal_text(id.0).as_str());
    line.append(") not found>");
    line
}

/// Looks up an artist.
fn name_of_artist(artists: &Vec<ArtistName>, id: ArtistId) -> (r: Option<&ArtistName>)
    ensures
        match r {
            Some(artist) => artist_with_id(artists@, id) == Some(*artist),
            None => artist_with_id(artists@, id) is None,
        },
{
    let mut i: usize = artists.len();
    assert(artists@.take(i as int) =~= artists@);
    while i > 0
        invariant
            i <= artists.len(),
            artist_with_id(artists@, id) == artist_with_id(artists@.take(i as int), id),
        decreases i,
    {
        i = i - 1;
        assert(artists@.take(i + 1).drop_last() =~= artists@.take(i as int));
        assert(artists@.take(i + 1).last() == artists@[i as int]);
        if artists[i].id == id {
            return Some(&artists[i]);
        }
    }
    None
}

/// Four blanks per level.
fn indent(level: usize) -> (r: String)
    ensures
        r@ == indentation(level as nat),
{
    let mut text: String = String::new();
    let mut i: usize = 0;
    while i < level
        invariant
            i <= level,
            text@ == indentation(i as nat),
        decreases level - i,
    {
        text.append("    ");
        i = i + 1;
    }
    text
}

/// Appends the lines of the entries of a node.
fn push_entries(rows: &PlaylistRows, id: PlaylistTreeNodeId, level: usize, out: &mut Vec<String>)
    ensures
        texts(final(out)@) == texts(old(out)@) + entry_lines(*rows, id, level as nat),
{
    let list: Vec<(u32, TrackId)> = playlist_entries(&rows.entries, id);
    let ghost lines = entry_lines(*rows, id, level as nat);
    let mut i: usize = 0;
    assert(texts(out@) =~= texts(old(out)@) + lines.take(0));
    while i < list.len()
        invariant
            i <= list.len(),
            list@ == in_order(entry_map(rows.entries@, id)),
            lines == entry_lines(*rows, id, level as nat),
            texts(out@) == texts(old(out)@) + lines.take(i as int),
        decreases list.len() - i,
    {
        let ghost before = out@;
        let (index, track) = list[i];
        let mut line: String = indent(level);
        line.append("  \u{266B} ");
        line.append(decimal_text(index).as_str());
        line.append(": ");
        line.append(show_track(&rows.tracks, &rows.artists, track).as_str());
        assert(line@ =~= lines[i as int]);
        out.push(line);
        assert(texts(out@) =~= texts(before).push(lines[i as int]));
        assert(texts(out@) =~= texts(old(out)@) + lines.take(i + 1));
        i = i + 1;
    }
    assert(lines.take(i as int) =~= lines);
}

/// Appends the lines of the nodes below `id`.
fn push_tree(
    rows: &PlaylistRows,
    id: PlaylistTreeNodeId,
    level: usize,
    depth: usize,
    out: &mut Vec<String>,
)
    requires
        nests_within(rows.nodes@, id, depth as nat, rows.nodes@.len()),
        level + depth <= rows.nodes@.len(),
    ensures
        texts(final(out)@) == texts(old(out)@) + tree_lines(
            *rows,
            id,
            level as nat,
            depth as nat,
            rows.nodes@.len(),
        ),
    decreases depth,
{
    let ghost total = rows.nodes@.len();
    let mut i: usize = 0;
    assert(texts(out@) =~= texts(old(out)@) + tree_lines(*rows, id, level as nat, depth as nat, 0));
    while i < rows.nodes.len()
        invariant
            i <= rows.nodes.len(),
            total == rows.nodes@.len(),
            nests_within(rows.nodes@, id, depth as nat, total),
            level + depth <= total,
            texts(out@) == texts(old(out)@) + tree_lines(
                *rows,
                id,
                level as nat,
                depth as nat,
                i as nat,
            ),
        decreases rows.nodes.len() - i,
    {
        let ghost before = out@;
        let node = &rows.nodes[i];
        proof {
            lemma_nests_prefix(rows.nodes@, id, depth as nat, total, (i + 1) as nat);
        }
        if node.parent_id == id {
            let mut line: String = indent(level);
            line.append(
                if node.is_folder {
                    "\u{1F5C0}"
                } else {
                    "\u{1F5CE}"
                },
            );
            line.append(" ");
            line.append(node.name.as_str());
            assert(line@ =~= node_line(*node, level as nat));
            out.push(line);
            assert(texts(out@) =~= texts(before).push(node_line(*node, level as nat)));
            push_entries(rows, node.id, level, out);
            push_tree(rows, node.id, level + 1, depth - 1, out);
            assert(texts(out@) =~= texts(before) + (seq![node_line(*node, level as nat)]
                + entry_lines(*rows, node.id, level as nat) + tree_lines(
                *rows,
                node.id,
                (level + 1) as nat,
                (depth - 1) as nat,
                total,
            )));
        } else {
            assert(texts(out@) =~= texts(before) + Seq::<Seq<char>>::empty());
        }
        assert(texts(out@) =~= texts(old(out)@) + tree_lines(
            *rows,
            id,
            level as nat,
            depth as nat,
            (i + 1) as nat,
        ));
        i = i + 1;
    }
}

/// Lists the playlist tree, one line per node and per entry.
pub fn list_playlists(rows: &PlaylistRows) -> (r: Vec<String>)
    requires
        is_finite_tree(rows.nodes@),
    ensures
        texts(r@) == listing(*rows),
{
    let mut out: Vec<String> = Vec::new();
    push_tree(rows, PlaylistTreeNodeId(0), 0, rows.nodes.len(), &mut out);
    assert(texts(out@) =~= listing(*rows));
    out
}

/// Looking deeper than a finite tree reaches finds nothing more: the listing is that of the whole
/// tree.
pub proof fn law_depth_is_immaterial(
    rows: PlaylistRows,
    id: PlaylistTreeNodeId,
    level: nat,
    depth: nat,
    deeper: nat,
    n: nat,
)
    requires
        n <= rows.nodes@.len(),
        depth <= deeper,
        nests_within(rows.nodes@, id, depth, n),
    ensures
        nests_within(rows.nodes@, id, deeper, n),
        tree_lines(rows, id, level, depth, n) == tree_lines(rows, id, level, deeper, n),
    decreases depth, n,
{
    if n > 0 {
        let node = rows.nodes@[n - 1];
        law_depth_is_immaterial(rows, id, level, depth, deeper, (n - 1) as nat);
        if node.parent_id == id {
            law_depth_is_immaterial(
                rows,
                node.id,
                level + 1,
                (depth - 1) as nat,
                (deeper - 1) as nat,
                rows.nodes@.len(),
            );
        } else if depth == 0 && deeper > 0 {
            assert(tree_lines(rows, id, level, deeper, n) =~= tree_lines(
                rows,
                id,
                level,
                deeper,
                (n - 1) as nat,
            ));
        }
    }
}

/// An indentation is four blanks per level and nothing else.
pub proof fn law_indentation(level: nat)
    ensures
        indentation(level).len() == 4 * level,
        forall|i: int| 0 <= i < indentation(level).len() ==> #[trigger] indentation(level)[i] == ' ',
    decreases level,
{
    reveal_strlit("    ");
    if level > 0 {
        law_indentation((level - 1) as nat);
    }
}

proof fn lemma_one_level_deeper(level: nat)
    ensures
        indentation(level + 1) == "    "@ + indentation(level),
{
    reveal_strlit("    ");
    law_indentation(level);
    law_indentation(level + 1);
    assert(indentation(level + 1) =~= "    "@ + indentation(level));
}

/// At the top, a node shows as a sign for a folder or a playlist, a blank and its name, and an entry
/// as a note sign, its index and its track.
pub proof fn law_lines_at_the_top(
    node: PlaylistTreeNode,
    rows: PlaylistRows,
    index: u32,
    track: TrackId,
)
    ensures
        node.is_folder ==> node_line(node, 0) == "\u{1F5C0} "@ + node.name@,
        !node.is_folder ==> node_line(node, 0) == "\u{1F5CE} "@ + node.name@,
        entry_line(rows, (index, track), 0) == "  \u{266B} "@ + decimal(index as nat) + ": "@
            + track_line(rows.tracks@, rows.artists@, track),
{
    reveal_strlit("\u{1F5C0}");
    reveal_strlit("\u{1F5CE}");
    reveal_strlit("\u{1F5C0} ");
    reveal_strlit("\u{1F5CE} ");
    reveal_strlit(" ");
    assert("\u{1F5C0} "@ =~= "\u{1F5C0}"@ + " "@);
    assert("\u{1F5CE} "@ =~= "\u{1F5CE}"@ + " "@);
    if node.is_folder {
        assert(node_line(node, 0) =~= "\u{1F5C0} "@ + node.name@);
    } else {
        assert(node_line(node, 0) =~= "\u{1F5CE} "@ + node.name@);
    }
    assert(entry_line(rows, (index, track), 0) =~= "  \u{266B} "@ + decimal(index as nat) + ": "@
        + track_line(rows.tracks@, rows.artists@, track));
}

proof fn lemma_entries_deeper(rows: PlaylistRows, id: PlaylistTreeNodeId, level: nat, i: int)
    requires
        0 <= i < entry_lines(rows, id, level).len(),
    ensures
        entry_lines(rows, id, level + 1).len() == entry_lines(rows, id, level).len(),
        entry_lines(rows, id, level + 1)[i] == "    "@ + entry_lines(rows, id, level)[i],
{
    lemma_one_level_deeper(level);
    assert(entry_lines(rows, id, level + 1)[i] =~= "    "@ + entry_lines(rows, id, level)[i]);
}

/// One level deeper, a tree shows the same lines, each behind four more blanks.
pub proof fn law_deeper_is_indented(
    rows: PlaylistRows,
    id: PlaylistTreeNodeId,
    level: nat,
    depth: nat,
    n: nat,
    i: int,
)
    requires
        n <= rows.nodes@.len(),
    ensures
        tree_lines(rows, id, level + 1, depth, n).len() == tree_lines(
            rows,
            id,
            level,
            depth,
            n,
        ).len(),
        0 <= i < tree_lines(rows, id, level, depth, n).len() ==> tree_lines(
            rows,
            id,
            level + 1,
            depth,
            n,
        )[i] == "    "@ + tree_lines(rows, id, level, depth, n)[i],
    decreases depth, n,
{
    if n > 0 && depth > 0 {
        let node = rows.nodes@[n - 1];
        let total = rows.nodes@.len();
        let earlier = tree_lines(rows, id, level, depth, (n - 1) as nat);
        law_deeper_is_indented(rows, id, level, depth, (n - 1) as nat, i);
        if node.parent_id == id {
            let entries = entry_lines(rows, node.id, level);
            let at = i - earlier.len();
            let inner = at - 1 - entries.len();
            lemma_one_level_deeper(level);
            assert(node_line(node, level + 1) =~= "    "@ + node_line(node, level));
            law_deeper_is_indented(rows, node.id, level + 1, (depth - 1) as nat, total, inner);
            if 1 <= at < 1 + entries.len() {
                lemma_entries_deeper(rows, node.id, level, at - 1);
            }
        }
    }
}

/// A node that hangs below `id` shows behind those before it: its own line, a line for each of its
/// entries, and one level deeper everything that hangs below it. Another node shows nothing there.
pub proof fn law_node_then_entries_then_children(
    rows: PlaylistRows,
    id: PlaylistTreeNodeId,
    level: nat,
    depth: nat,
    n: nat,
)
    requires
        0 < n <= rows.nodes@.len(),
        depth > 0,
    ensures
        ({
            let node = rows.nodes@[n - 1];
            let earlier = tree_lines(rows, id, level, depth, (n - 1) as nat);
            let all = tree_lines(rows, id, level, depth, n);
            let list = in_order(entry_map(rows.entries@, node.id));
            let first = earlier.len() as int + 1;
            &&& earlier.is_prefix_of(all)
            &&& node.parent_id != id ==> all == earlier
            &&& node.parent_id == id ==> {
                &&& all.len() >= first + list.len()
                &&& all[first - 1] == node_line(node, level)
                &&& forall|j: int|
                    0 <= j < list.len() ==> #[trigger] all[first + j] == entry_line(
                        rows,
                        list[j],
                        level,
                    )
                &&& all.skip(first + list.len()) == tree_lines(
                    rows,
                    node.id,
                    level + 1,
                    (depth - 1) as nat,
                    rows.nodes@.len(),
                )
            }
        }),
{
    let node = rows.nodes@[n - 1];
    let earlier = tree_lines(rows, id, level, depth, (n - 1) as nat);
    let all = tree_lines(rows, id, level, depth, n);
    let list = in_order(entry_map(rows.entries@, node.id));
    let first = earlier.len() as int + 1;
    assert(earlier =~= all.subrange(0, earlier.len() as int));
    if node.parent_id == id {
        let below = tree_lines(rows, node.id, level + 1, (depth - 1) as nat, rows.nodes@.len());
        assert(all.skip(first + list.len()) =~= below);
        assert forall|j: int| 0 <= j < list.len() implies #[trigger] all[first + j] == entry_line(
            rows,
            list[j],
            level,
        ) by {
            assert(entry_lines(rows, node.id, level)[j] == entry_line(rows, list[j], level));
        }
    } else {
        assert(all =~= earlier);
    }
}

/// Of several rows with the same identifier the last counts.
pub proof fn law_last_row_counts(
    tracks: Seq<TrackTitle>,
    track: TrackTitle,
    artists: Seq<ArtistName>,
    artist: ArtistName,
    track_id: TrackId,
    artist_id: ArtistId,
)
    ensures
        track_with_id(Seq::empty(), track_id) is None,
        artist_with_id(Seq::empty(), artist_id) is None,
        track_with_id(tracks.push(track), track.id) == Some(track),
        artist_with_id(artists.push(artist), artist.id) == Some(artist),
        track_id != track.id ==> track_with_id(tracks.push(track), track_id) == track_with_id(
            tracks,
            track_id,
        ),
        artist_id != artist.id ==> artist_with_id(artists.push(artist), artist_id)
            == artist_with_id(artists, artist_id),
{
    assert(tracks.push(track).drop_last() =~= tracks);
    assert(artists.push(artist).drop_last() =~= artists);
}

/// A track shows as artist and title where both rows are there; a missing row shows by its
/// identifier, and the title shows even without the artist.
pub proof fn law_shown_tracks(tracks: Seq<TrackTitle>, artists: Seq<ArtistName>, id: TrackId)
    ensures
        track_with_id(tracks, id) is None ==> track_line(tracks, artists, id)
            == "<Track for TrackId("@ + decimal(id.0 as nat) + ") not found>"@,
        track_with_id(tracks, id) matches Some(track) ==> {
            &&& artist_with_id(artists, track.artist_id) matches Some(artist) ==> track_line(
                tracks,
                artists,
                id,
            ) == artist.name@ + " - "@ + track.title@
            &&& artist_with_id(artists, track.artist_id) is None ==> track_line(tracks, artists, id)
                == "<Artist for ArtistId("@ + decimal(track.artist_id.0 as nat) + ") not found> - "@
                + track.title@
        },
{
}

/// One more row puts its track at its index into its own playlist, in place of one that is there,
/// and changes no other playlist.
pub proof fn law_entries_by_index(
    entries: Seq<PlaylistEntry>,
    entry: PlaylistEntry,
    playlist: PlaylistTreeNodeId,
    index: u32,
)
    ensures
        entry_map(Seq::empty(), playlist) == Map::<u32, TrackId>::empty(),
        ({
            let before = entry_map(entries, playlist);
            let after = entry_map(entries.push(entry), playlist);
            &&& playlist != entry.playlist_id ==> after == before
            &&& playlist == entry.playlist_id ==> after.dom().contains(entry.entry_index)
                && after[entry.entry_index] == entry.track_id
            &&& index != entry.entry_index ==> (after.dom().contains(index)
                <==> before.dom().contains(index))
            &&& index != entry.entry_index && before.dom().contains(index) ==> after[index]
                == before[index]
        }),
{
    assert(entries.push(entry).drop_last() =~= entries);
}

/// A list in order rises by index, holds exactly the given pairs, and each of them once.
pub proof fn law_lists_in_order(map: Map<u32, TrackId>, list: Seq<(u32, TrackId)>, i: int, j: int)
    requires
        lists_in_order(map, list),
        0 <= i < j < list.len(),
    ensures
        list[i].0 < list[j].0,
        map.dom().contains(list[i].0),
        map[list[i].0] == list[i].1,
        map.dom().contains(list[j].0),
        map[list[j].0] == list[j].1,
        forall|index: u32| #[trigger]
            map.dom().contains(index) ==> exists|k: int|
                0 <= k < list.len() && (#[trigger] list[k]).0 == index,
{
}

/// The listing starts at the root, without indentation, and goes down as far as there are nodes.
pub proof fn law_listing_starts_at_the_root(rows: PlaylistRows, depth: nat)
    requires
        is_finite_tree(rows.nodes@),
        depth >= rows.nodes@.len(),
    ensures
        listing(rows) == tree_lines(
            rows,
            PlaylistTreeNodeId(0),
            0,
            depth,
            rows.nodes@.len(),
        ),
{
    law_depth_is_immaterial(
        rows,
        PlaylistTreeNodeId(0),
        0,
        rows.nodes@.len(),
        depth,
        rows.nodes@.len(),
    );
}

} // verus!
