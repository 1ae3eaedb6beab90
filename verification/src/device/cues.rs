//! Cue points and loops on their way into the analysis files.

use vstd::prelude::*;
use vstd::string::*;

use crate::anlz::{Cue, CueListType, CueType, ExtendedCue};
use crate::util::ColorIndex;

verus! {

/// A cue, point or loop, with its places given in milliseconds.
#[derive(Debug, Clone, Copy)]
pub struct CueInput<'a> {
    /// Hot-cue slot, counted from one; zero for a memory cue.
    pub hot_cue: u32,
    /// Position in milliseconds.
    pub time: u32,
    /// End of the loop in milliseconds; ignored for a point.
    pub loop_end: Option<u32>,
    /// Whether this cue is a loop or a point.
    pub is_loop: bool,
    /// Label, which only the extended cue stores.
    pub label: &'a str,
    /// Red component of the cue color.
    pub r: u8,
    /// Green component of the cue color.
    pub g: u8,
    /// Blue component of the cue color.
    pub b: u8,
}

/// The end of a loop as stored; all bits set for a point and for a loop without an end.
pub open spec fn loop_time_of(cue: CueInput<'_>) -> u32 {
    if cue.is_loop && cue.loop_end is Some {
        cue.loop_end->0
    } else {
        u32::MAX
    }
}

/// Whether a cue is stored as a point or as a loop.
pub open spec fn cue_type_of(cue: CueInput<'_>) -> CueType {
    if cue.is_loop {
        CueType::Loop
    } else {
        CueType::Point
    }
}

/// The entry of a cue in the plain list.
pub open spec fn plain_cue(cue: CueInput<'_>) -> Cue {
    Cue {
        hot_cue: cue.hot_cue,
        cue_type: cue_type_of(cue),
        time: cue.time,
        loop_time: loop_time_of(cue),
    }
}

/// Whether `e` is the entry of a cue in the extended list.
pub open spec fn is_extended_cue(e: ExtendedCue, cue: CueInput<'_>) -> bool {
    &&& e.hot_cue == cue.hot_cue
    &&& e.cue_type == cue_type_of(cue)
    &&& e.time == cue.time
    &&& e.loop_time == loop_time_of(cue)
    &&& e.color == ColorIndex::NoColor
    &&& e.comment@ == cue.label@
    &&& e.hot_cue_color_index == 0
    &&& e.hot_cue_color_rgb == (cue.r, cue.g, cue.b)
}

/// Whether some cue has a hot-cue slot.
pub open spec fn has_hot_cue(cues: Seq<CueInput<'_>>) -> bool {
    exists|i: int| 0 <= i < cues.len() && (#[trigger] cues[i]).hot_cue != 0
}

/// Whether the three results are the lists and the list type of `cues`.
pub open spec fn is_cue_lists(
    cues: Seq<CueInput<'_>>,
    plain: Seq<Cue>,
    extended: Seq<ExtendedCue>,
    kind: CueListType,
) -> bool {
    &&& plain == Seq::new(cues.len(), |i: int| plain_cue(cues[i]))
    &&& extended.len() == cues.len()
    &&& forall|i: int| 0 <= i < cues.len() ==> is_extended_cue(#[trigger] extended[i], cues[i])
    &&& kind == if has_hot_cue(cues) {
        CueListType::HotCues
    } else {
        CueListType::MemoryCues
    }
}

/// Builds the plain and the extended cue list. Both share one list type: hot cues where any hot cue
/// is present, memory cues otherwise.
pub fn build_cues(cues: &[CueInput<'_>]) -> (r: (Vec<Cue>, Vec<ExtendedCue>, CueListType))
    ensures
        is_cue_lists(cues@, r.0@, r.1@, r.2),
{
    let mut plain: Vec<Cue> = Vec::with_capacity(cues.len());
    let mut extended: Vec<ExtendedCue> = Vec::with_capacity(cues.len());
    let mut hot: bool = false;
    let mut i: usize = 0;
    while i < cues.len()
        invariant
            i <= cues.len(),
            plain@.len() == i,
            extended@.len() == i,
            forall|k: int| 0 <= k < i ==> #[trigger] plain@[k] == plain_cue(cues@[k]),
            forall|k: int| 0 <= k < i ==> is_extended_cue(#[trigger] extended@[k], cues@[k]),
            hot == exists|k: int| 0 <= k < i && (#[trigger] cues@[k]).hot_cue != 0,
        decreases cues.len() - i,
    {
        let c = &cues[i];
        let cue_type: CueType = if c.is_loop {
            CueType::Loop
        } else {
            CueType::Point
        };
        let loop_time: u32 = match c.loop_end {
            Some(end) => if c.is_loop {
                end
            } else {
                u32::MAX
            },
            None => u32::MAX,
        };
        plain.push(Cue { hot_cue: c.hot_cue, cue_type, time: c.time, loop_time });
        extended.push(
            ExtendedCue {
                hot_cue: c.hot_cue,
                cue_type,
                time: c.time,
                loop_time,
                color: ColorIndex::NoColor,
                comment: String::from_str(c.label),
                hot_cue_color_index: 0,
                hot_cue_color_rgb: (c.r, c.g, c.b),
            },
        );
        hot = hot || c.hot_cue != 0;
        i = i + 1;
    }
    let kind: CueListType = if hot {
        CueListType::HotCues
    } else {
        CueListType::MemoryCues
    };
    assert(plain@ =~= Seq::new(cues@.len(), |k: int| plain_cue(cues@[k])));
    (plain, extended, kind)
}

/// The main cue of a track as a cue of its own: an unlabelled memory cue.
pub open spec fn is_main_cue(cue: CueInput<'_>, time: u32) -> bool {
    &&& cue.hot_cue == 0
    &&& cue.time == time
    &&& cue.loop_end is None
    &&& !cue.is_loop
    &&& cue.label@ == Seq::<char>::empty()
    &&& cue.r == 0
    &&& cue.g == 0
    &&& cue.b == 0
}

/// Whether `all` are the cues of a track: the main cue, if there is one, and then the others.
pub open spec fn is_combined(
    all: Seq<CueInput<'_>>,
    main_cue: Option<u32>,
    cues: Seq<CueInput<'_>>,
) -> bool {
    match main_cue {
        Some(time) => {
            &&& all.len() == cues.len() + 1
            &&& is_main_cue(all[0], time)
            &&& all.drop_first() == cues
        },
        None => all == cues,
    }
}

/// Puts the main cue, if there is one, before the other cues.
pub fn combine_cues<'a>(main_cue: Option<u32>, cues: &[CueInput<'a>]) -> (r: Vec<CueInput<'a>>)
    ensures
        is_combined(r@, main_cue, cues@),
{
    let mut all: Vec<CueInput<'a>> = Vec::new();
    match main_cue {
        Some(time) => {
            proof {
                reveal_strlit("");
                assert(""@ =~= Seq::<char>::empty());
            }
            all.push(
                CueInput {
                    hot_cue: 0,
                    time,
                    loop_end: None,
                    is_loop: false,
                    label: "",
                    r: 0,
                    g: 0,
                    b: 0,
                },
            );
        },
        None => {},
    }
    let ghost head = all@;
    let mut i: usize = 0;
    while i < cues.len()
        invariant
            i <= cues.len(),
            all@ =~= head + cues@.take(i as int),
        decreases cues.len() - i,
    {
        all.push(cues[i]);
        i = i + 1;
    }
    assert(cues@.take(i as int) =~= cues@);
    assert(head.len() == 1 ==> all@.drop_first() =~= cues@);
    assert(head.len() == 0 ==> all@ =~= cues@);
    all
}

/// The main cue makes no list of hot cues: only a real hot cue does.
pub proof fn law_main_cue_is_no_hot_cue(
    all: Seq<CueInput<'_>>,
    main_cue: Option<u32>,
    cues: Seq<CueInput<'_>>,
)
    requires
        is_combined(all, main_cue, cues),
    ensures
        has_hot_cue(all) == has_hot_cue(cues),
{
    if main_cue is Some {
        if has_hot_cue(all) {
            let i = choose|i: int| 0 <= i < all.len() && (#[trigger] all[i]).hot_cue != 0;
            assert(all.drop_first()[i - 1] == all[i]);
        }
        if has_hot_cue(cues) {
            let i = choose|i: int| 0 <= i < cues.len() && (#[trigger] cues[i]).hot_cue != 0;
            assert(all[i + 1] == all.drop_first()[i]);
        }
    }
}

/// Each cue becomes one entry of each list, at the same place: with its slot and time, as a loop or
/// a point, with its end only where it is a loop that has one. The label and the three color
/// components go to the extended entry, each component to its own place.
pub proof fn law_cue_entries(
    cues: Seq<CueInput<'_>>,
    plain: Seq<Cue>,
    extended: Seq<ExtendedCue>,
    kind: CueListType,
    i: int,
)
    requires
        is_cue_lists(cues, plain, extended, kind),
        0 <= i < cues.len(),
    ensures
        plain.len() == cues.len(),
        extended.len() == cues.len(),
        plain[i].hot_cue == cues[i].hot_cue,
        plain[i].time == cues[i].time,
        plain[i].cue_type is Loop <==> cues[i].is_loop,
        cues[i].is_loop && cues[i].loop_end is Some ==> plain[i].loop_time == cues[i].loop_end->0,
        !cues[i].is_loop || cues[i].loop_end is None ==> plain[i].loop_time == 0xFFFF_FFFF,
        extended[i].hot_cue == plain[i].hot_cue,
        extended[i].time == plain[i].time,
        extended[i].cue_type == plain[i].cue_type,
        extended[i].loop_time == plain[i].loop_time,
        extended[i].comment@ == cues[i].label@,
        extended[i].hot_cue_color_rgb.0 == cues[i].r,
        extended[i].hot_cue_color_rgb.1 == cues[i].g,
        extended[i].hot_cue_color_rgb.2 == cues[i].b,
        extended[i].hot_cue_color_index == 0,
        extended[i].color == ColorIndex::NoColor,
        cues[i].hot_cue != 0 ==> kind is HotCues,
        (forall|k: int| 0 <= k < cues.len() ==> (#[trigger] cues[k]).hot_cue == 0) ==> kind
            is MemoryCues,
{
    assert(is_extended_cue(extended[i], cues[i]));
    assert(plain[i] == plain_cue(cues[i]));
}

/// The main cue comes first, unlabelled, uncolored and without a slot or a loop; the other cues
/// follow it unchanged and in their order.
pub proof fn law_main_cue_comes_first(
    all: Seq<CueInput<'_>>,
    main_cue: Option<u32>,
    cues: Seq<CueInput<'_>>,
    i: int,
)
    requires
        is_combined(all, main_cue, cues),
    ensures
        main_cue is Some ==> all.len() == cues.len() + 1 && all[0].time == main_cue->0
            && all[0].hot_cue == 0 && !all[0].is_loop && all[0].loop_end is None
            && all[0].label@.len() == 0 && (all[0].r, all[0].g, all[0].b) == (0u8, 0u8, 0u8),
        main_cue is Some && 0 <= i < cues.len() ==> all[i + 1] == cues[i],
        main_cue is None ==> all == cues,
{
    if main_cue is Some && 0 <= i < cues.len() {
        assert(all.drop_first()[i] == all[i + 1]);
    }
}

} // verus!
