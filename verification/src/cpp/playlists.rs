//! The playlist tree as a flat list with parent pointers.

use vstd::prelude::*;

use crate::device;
use crate::device::PlaylistNode;

verus! {

/// Flattened node of the playlist tree. A `parent_id` of zero denotes the root.
#[derive(Debug)]
pub struct PlaylistInfo {
    pub id: u32,
    pub name: String,
    pub parent_id: u32,
}

/// The list entry of a single node below `parent_id`.
pub open spec fn own_info(node: PlaylistNode, parent_id: u32) -> PlaylistInfo {
    match node {
        PlaylistNode::Folder(folder) => PlaylistInfo {
            id: folder.id.0,
            name: folder.name,
            parent_id,
        },
        PlaylistNode::Playlist(playlist) => PlaylistInfo {
            id: playlist.id.0,
            name: playlist.name,
            parent_id,
        },
    }
}

/// The list entries of `node` and of everything below it, parents first.
pub open spec fn node_infos(node: PlaylistNode, parent_id: u32) -> Seq<PlaylistInfo>
    decreases node,
{
    match node {
        PlaylistNode::Folder(folder) => seq![own_info(node, parent_id)] + flattened(
            folder.children@,
            folder.id.0,
        ),
        PlaylistNode::Playlist(playlist) => seq![own_info(node, parent_id)],
    }
}

/// The list entries of a row of siblings, each followed by what is below it.
pub open spec fn flattened(nodes: Seq<PlaylistNode>, parent_id: u32) -> Seq<PlaylistInfo>
    decreases nodes,
{
    if nodes.len() == 0 {
        Seq::empty()
    } else {
        flattened(nodes.drop_last(), parent_id) + node_infos(nodes.last(), parent_id)
    }
}

/// Appends the list entries of `nodes` to `out`.
fn flatten_into(nodes: &Vec<PlaylistNode>, parent_id: u32, out: &mut Vec<PlaylistInfo>)
    ensures
        final(out)@ == old(out)@ + flattened(nodes@, parent_id),
    decreases nodes,
{
    let mut i: usize = 0;
    assert(nodes@.take(0) =~= Seq::empty());
    assert(out@ =~= old(out)@ + flattened(nodes@.take(0), parent_id));
    while i < nodes.len()
        invariant
            i <= nodes.len(),
            out@ == old(out)@ + flattened(nodes@.take(i as int), parent_id),
        decreases nodes.len() - i,
    {
        let ghost before = out@;
        let node = &nodes[i];
        match node {
            PlaylistNode::Folder(folder) => {
                let id: u32 = folder.id.0;
                out.push(PlaylistInfo { id, name: folder.name.clone(), parent_id });
                flatten_into(&folder.children, id, out);
            },
            PlaylistNode::Playlist(playlist) => {
                out.push(
                    PlaylistInfo { id: playlist.id.0, name: playlist.name.clone(), parent_id },
                );
            },
        }
        proof {
            let prefix = nodes@.take(i + 1);
            assert(prefix.drop_last() =~= nodes@.take(i as int));
            assert(prefix.last() == nodes@[i as int]);
            assert(out@ =~= before + node_infos(nodes@[i as int], parent_id)) by {
                reveal_with_fuel(node_infos, 2);
            }
            assert(out@ =~= old(out)@ + flattened(prefix, parent_id));
        }
        i = i + 1;
    }
    assert(nodes@.take(nodes@.len() as int) =~= nodes@);
}

/// Walks the playlist tree and lists one entry per node, tagged with its parent.
pub fn flatten_playlists(nodes: Vec<PlaylistNode>, parent_id: u32) -> (r: Vec<PlaylistInfo>)
    ensures
        r@ == flattened(nodes@, parent_id),
{
    let mut out: Vec<PlaylistInfo> = Vec::with_capacity(nodes.len());
    flatten_into(&nodes, parent_id, &mut out);
    assert(out@ =~= flattened(nodes@, parent_id));
    out
}

/// The entries of `infos` that name `id` as their parent, in the order of the list.
pub open spec fn children_of(infos: Seq<PlaylistInfo>, id: u32) -> Seq<PlaylistInfo>
    decreases infos.len(),
{
    if infos.len() == 0 {
        Seq::empty()
    } else if infos.last().parent_id == id {
        children_of(infos.drop_last(), id).push(infos.last())
    } else {
        children_of(infos.drop_last(), id)
    }
}

/// The entries of a row of siblings without what is below them.
pub open spec fn own_infos(nodes: Seq<PlaylistNode>, parent_id: u32) -> Seq<PlaylistInfo> {
    Seq::new(nodes.len(), |i: int| own_info(nodes[i], parent_id))
}

/// Whether some entry of `infos` has the identifier `id`.
pub open spec fn lists_id(infos: Seq<PlaylistInfo>, id: u32) -> bool {
    exists|k: int| 0 <= k < infos.len() && (#[trigger] infos[k]).id == id
}

/// Whether no two entries share an identifier.
pub open spec fn distinct_ids(infos: Seq<PlaylistInfo>) -> bool {
    forall|i: int, j: int|
        0 <= i < j < infos.len() ==> (#[trigger] infos[i]).id != (#[trigger] infos[j]).id
}

/// Whether `folder` occurs somewhere in the tree below `nodes`.
pub open spec fn has_folder(nodes: Seq<PlaylistNode>, folder: device::PlaylistFolder) -> bool
    decreases nodes,
{
    nodes.len() > 0 && (has_folder(nodes.drop_last(), folder) || match nodes.last() {
        PlaylistNode::Folder(last) => last == folder || has_folder(last.children@, folder),
        PlaylistNode::Playlist(_) => false,
    })
}

/// The number of nodes of the tree below `nodes`.
pub open spec fn node_count(nodes: Seq<PlaylistNode>) -> nat
    decreases nodes,
{
    if nodes.len() == 0 {
        0
    } else {
        node_count(nodes.drop_last()) + 1 + match nodes.last() {
            PlaylistNode::Folder(folder) => node_count(folder.children@),
            PlaylistNode::Playlist(_) => 0,
        }
    }
}

proof fn lemma_children_of_append(a: Seq<PlaylistInfo>, b: Seq<PlaylistInfo>, id: u32)
    ensures
        children_of(a + b, id) == children_of(a, id) + children_of(b, id),
    decreases b.len(),
{
    if b.len() == 0 {
        assert(a + b =~= a);
    } else {
        lemma_children_of_append(a, b.drop_last(), id);
        assert((a + b).drop_last() =~= a + b.drop_last());
        assert((a + b).last() == b.last());
    }
    assert(children_of(a + b, id) =~= children_of(a, id) + children_of(b, id));
}

proof fn lemma_no_children(infos: Seq<PlaylistInfo>, id: u32)
    requires
        forall|k: int| 0 <= k < infos.len() ==> (#[trigger] infos[k]).parent_id != id,
    ensures
        children_of(infos, id) == Seq::<PlaylistInfo>::empty(),
    decreases infos.len(),
{
    if infos.len() > 0 {
        lemma_no_children(infos.drop_last(), id);
        assert(infos[infos.len() - 1].parent_id != id);
    }
}

/// Unfolds the entries of the last of a row of siblings.
proof fn lemma_flattened_last(nodes: Seq<PlaylistNode>, parent_id: u32)
    requires
        nodes.len() > 0,
    ensures
        flattened(nodes, parent_id) == flattened(nodes.drop_last(), parent_id) + node_infos(
            nodes.last(),
            parent_id,
        ),
        match nodes.last() {
            PlaylistNode::Folder(folder) => node_infos(nodes.last(), parent_id) == seq![
                own_info(nodes.last(), parent_id),
            ] + flattened(folder.children@, folder.id.0),
            PlaylistNode::Playlist(_) => node_infos(nodes.last(), parent_id) == seq![
                own_info(nodes.last(), parent_id),
            ],
        },
{
    reveal_with_fuel(node_infos, 2);
}

/// The flattened list holds exactly one entry per node of the tree.
pub proof fn law_one_entry_per_node(nodes: Seq<PlaylistNode>, parent_id: u32)
    ensures
        flattened(nodes, parent_id).len() == node_count(nodes),
    decreases nodes,
{
    if nodes.len() > 0 {
        lemma_flattened_last(nodes, parent_id);
        law_one_entry_per_node(nodes.drop_last(), parent_id);
        match nodes.last() {
            PlaylistNode::Folder(folder) => {
                law_one_entry_per_node(folder.children@, folder.id.0);
            },
            PlaylistNode::Playlist(_) => {},
        }
    }
}

/// Every entry of the flattened list hangs below the given parent or below an entry that
/// stands before it.
pub proof fn law_parents_come_first(nodes: Seq<PlaylistNode>, parent_id: u32, j: int)
    requires
        0 <= j < flattened(nodes, parent_id).len(),
    ensures
        flattened(nodes, parent_id)[j].parent_id == parent_id || exists|k: int|
            0 <= k < j && (#[trigger] flattened(nodes, parent_id)[k]).id == flattened(
                nodes,
                parent_id,
            )[j].parent_id,
    decreases nodes,
{
    let all = flattened(nodes, parent_id);
    if nodes.len() > 0 {
        lemma_flattened_last(nodes, parent_id);
        let front = flattened(nodes.drop_last(), parent_id);
        if j < front.len() {
            law_parents_come_first(nodes.drop_last(), parent_id, j);
            if front[j].parent_id != parent_id {
                let k = choose|k: int| 0 <= k < j && (#[trigger] front[k]).id == front[j].parent_id;
                assert(all[k].id == all[j].parent_id);
            }
        } else if j > front.len() {
            match nodes.last() {
                PlaylistNode::Folder(folder) => {
                    let below = flattened(folder.children@, folder.id.0);
                    let i = j - front.len() - 1;
                    assert(all[j] == below[i]);
                    law_parents_come_first(folder.children@, folder.id.0, i);
                    if below[i].parent_id == folder.id.0 {
                        assert(all[front.len() as int].id == folder.id.0);
                    } else {
                        let k = choose|k: int|
                            0 <= k < i && (#[trigger] below[k]).id == below[i].parent_id;
                        assert(all[front.len() + 1 + k] == below[k]);
                    }
                },
                PlaylistNode::Playlist(_) => {},
            }
        }
    }
}

/// An identifier that is neither the parent nor listed has no children in the list.
proof fn lemma_unlisted_has_no_children(nodes: Seq<PlaylistNode>, parent_id: u32, id: u32)
    requires
        id != parent_id,
        !lists_id(flattened(nodes, parent_id), id),
    ensures
        children_of(flattened(nodes, parent_id), id) == Seq::<PlaylistInfo>::empty(),
{
    let all = flattened(nodes, parent_id);
    assert forall|j: int| 0 <= j < all.len() implies (#[trigger] all[j]).parent_id != id by {
        law_parents_come_first(nodes, parent_id, j);
    }
    lemma_no_children(all, id);
}

/// The children of the root can be read off the list: they are the entries that name the root
/// as their parent, provided that no node carries the root's identifier.
pub proof fn law_root_children(nodes: Seq<PlaylistNode>, parent_id: u32)
    requires
        !lists_id(flattened(nodes, parent_id), parent_id),
    ensures
        children_of(flattened(nodes, parent_id), parent_id) == own_infos(nodes, parent_id),
    decreases nodes,
{
    if nodes.len() > 0 {
        lemma_flattened_last(nodes, parent_id);
        let all = flattened(nodes, parent_id);
        let front = flattened(nodes.drop_last(), parent_id);
        let own = seq![own_info(nodes.last(), parent_id)];
        assert forall|k: int| 0 <= k < front.len() implies (#[trigger] front[k]).id != parent_id by {
            assert(all[k] == front[k]);
        }
        law_root_children(nodes.drop_last(), parent_id);
        lemma_children_of_append(front, node_infos(nodes.last(), parent_id), parent_id);
        reveal_with_fuel(children_of, 2);
        assert(own.drop_last() =~= Seq::empty());
        assert(children_of(own, parent_id) =~= own);
        match nodes.last() {
            PlaylistNode::Folder(folder) => {
                let below = flattened(folder.children@, folder.id.0);
                assert(all[front.len() as int].id == folder.id.0);
                assert forall|k: int| 0 <= k < below.len() implies (#[trigger] below[k]).id
                    != parent_id by {
                    assert(all[front.len() + 1 + k] == below[k]);
                }
                lemma_unlisted_has_no_children(folder.children@, folder.id.0, parent_id);
                lemma_children_of_append(own, below, parent_id);
            },
            PlaylistNode::Playlist(_) => {},
        }
        assert(own_infos(nodes, parent_id) =~= own_infos(nodes.drop_last(), parent_id) + own);
    }
    assert(children_of(flattened(nodes, parent_id), parent_id) =~= own_infos(nodes, parent_id));
}

/// A folder of the tree has its entry in the list.
proof fn lemma_folder_is_listed(
    nodes: Seq<PlaylistNode>,
    parent_id: u32,
    folder: device::PlaylistFolder,
)
    requires
        has_folder(nodes, folder),
    ensures
        lists_id(flattened(nodes, parent_id), folder.id.0),
    decreases nodes,
{
    lemma_flattened_last(nodes, parent_id);
    let all = flattened(nodes, parent_id);
    let front = flattened(nodes.drop_last(), parent_id);
    if has_folder(nodes.drop_last(), folder) {
        lemma_folder_is_listed(nodes.drop_last(), parent_id, folder);
        let k = choose|k: int| 0 <= k < front.len() && (#[trigger] front[k]).id == folder.id.0;
        assert(all[k].id == folder.id.0);
    } else {
        match nodes.last() {
            PlaylistNode::Folder(last) => {
                let below = flattened(last.children@, last.id.0);
                if last == folder {
                    assert(all[front.len() as int].id == folder.id.0);
                } else {
                    lemma_folder_is_listed(last.children@, last.id.0, folder);
                    let k = choose|k: int|
                        0 <= k < below.len() && (#[trigger] below[k]).id == folder.id.0;
                    assert(all[front.len() + 1 + k] == below[k]);
                }
            },
            PlaylistNode::Playlist(_) => {},
        }
    }
}

/// The children of every folder can be read off the list: they are the entries that name the
/// folder as their parent, in order, provided that all identifiers differ.
pub proof fn law_folder_children(
    nodes: Seq<PlaylistNode>,
    parent_id: u32,
    folder: device::PlaylistFolder,
)
    requires
        has_folder(nodes, folder),
        distinct_ids(flattened(nodes, parent_id)),
        folder.id.0 != parent_id,
    ensures
        children_of(flattened(nodes, parent_id), folder.id.0) == own_infos(
            folder.children@,
            folder.id.0,
        ),
    decreases nodes,
{
    lemma_flattened_last(nodes, parent_id);
    let all = flattened(nodes, parent_id);
    let front = flattened(nodes.drop_last(), parent_id);
    let back = node_infos(nodes.last(), parent_id);
    let own = seq![own_info(nodes.last(), parent_id)];
    let id = folder.id.0;
    lemma_children_of_append(front, back, id);
    assert(own.drop_last() =~= Seq::empty());
    lemma_no_children(own, id);
    assert forall|i: int, j: int| 0 <= i < j < front.len() implies (#[trigger] front[i]).id != (
    #[trigger] front[j]).id by {
        assert(all[i] == front[i] && all[j] == front[j]);
    }
    if has_folder(nodes.drop_last(), folder) {
        law_folder_children(nodes.drop_last(), parent_id, folder);
        lemma_folder_is_listed(nodes.drop_last(), parent_id, folder);
        let at = choose|k: int| 0 <= k < front.len() && (#[trigger] front[k]).id == id;
        assert(all[at] == front[at]);
        match nodes.last() {
            PlaylistNode::Folder(last) => {
                let below = flattened(last.children@, last.id.0);
                assert(all[front.len() as int] == own[0]);
                assert forall|k: int| 0 <= k < below.len() implies (#[trigger] below[k]).id
                    != id by {
                    assert(all[front.len() + 1 + k] == below[k]);
                }
                lemma_unlisted_has_no_children(last.children@, last.id.0, id);
                lemma_children_of_append(own, below, id);
            },
            PlaylistNode::Playlist(_) => {},
        }
    } else {
        match nodes.last() {
            PlaylistNode::Folder(last) => {
                let below = flattened(last.children@, last.id.0);
                lemma_children_of_append(own, below, id);
                assert(all[front.len() as int] == own[0]);
                assert forall|k: int| 0 <= k < below.len() implies (#[trigger] below[k]).id
                    != last.id.0 by {
                    assert(all[front.len() + 1 + k] == below[k]);
                }
                assert forall|i: int, j: int| 0 <= i < j < below.len() implies (
                #[trigger] below[i]).id != (#[trigger] below[j]).id by {
                    assert(all[front.len() + 1 + i] == below[i]);
                    assert(all[front.len() + 1 + j] == below[j]);
                }
                if last == folder {
                    law_root_children(last.children@, id);
                } else {
                    lemma_folder_is_listed(last.children@, last.id.0, folder);
                    law_folder_children(last.children@, last.id.0, folder);
                }
                let at: int = if last == folder {
                    front.len() as int
                } else {
                    front.len() + 1 + choose|k: int|
                        0 <= k < below.len() && (#[trigger] below[k]).id == id
                };
                assert(all[at].id == id);
                assert forall|k: int| 0 <= k < front.len() implies (#[trigger] front[k]).id
                    != id by {
                    assert(all[k] == front[k]);
                }
                lemma_unlisted_has_no_children(nodes.drop_last(), parent_id, id);
            },
            PlaylistNode::Playlist(_) => {},
        }
    }
    assert(children_of(all, id) =~= own_infos(folder.children@, id));
}

/// An entry has the identifier and the name of its node, and names the parent that the node hangs
/// below. The flattened siblings follow each other, and behind the entry of a folder come the
/// entries of its children, which name it as their parent.
pub proof fn law_flattened_siblings(nodes: Seq<PlaylistNode>, node: PlaylistNode, parent_id: u32)
    ensures
        flattened(Seq::empty(), parent_id) == Seq::<PlaylistInfo>::empty(),
        ({
            let earlier = flattened(nodes, parent_id);
            let all = flattened(nodes.push(node), parent_id);
            let own = all[earlier.len() as int];
            &&& all.len() > earlier.len()
            &&& earlier == all.take(earlier.len() as int)
            &&& own.parent_id == parent_id
            &&& node matches PlaylistNode::Playlist(playlist) ==> {
                &&& all.len() == earlier.len() + 1
                &&& own.id == playlist.id.0
                &&& own.name@ == playlist.name@
            }
            &&& node matches PlaylistNode::Folder(folder) ==> {
                &&& own.id == folder.id.0
                &&& own.name@ == folder.name@
                &&& all.skip(earlier.len() as int + 1) == flattened(folder.children@, folder.id.0)
            }
        }),
{
    let all = flattened(nodes.push(node), parent_id);
    let earlier = flattened(nodes, parent_id);
    lemma_flattened_last(nodes.push(node), parent_id);
    assert(nodes.push(node).drop_last() =~= nodes);
    assert(earlier =~= all.take(earlier.len() as int));
    match node {
        PlaylistNode::Folder(folder) => {
            assert(all.skip(earlier.len() as int + 1) =~= flattened(folder.children@, folder.id.0));
        },
        PlaylistNode::Playlist(_) => {},
    }
}

} // verus!
