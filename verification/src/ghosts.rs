//! Thumbnail stand-ins: which placements of an animation frame move the live
//! window and which move its stand-in, and when a transition must not animate.
use vstd::prelude::*;
use vstd::std_specs::hash::*;
use std::collections::{HashMap, HashSet};
use crate::geometry::{MonitorId, Rect, WindowId};
use crate::state::{GhostEntry, LayoutTransition, WindowPlacement};

verus! {

broadcast use group_hash_axioms;

/// The part of the screen that a window may be drawn in.
#[derive(Clone, Copy, Debug, PartialEq, Eq, Structural)]
pub struct WindowRegionClip {
    pub window_id: WindowId,
    pub clip_bounds: Rect,
}

/// The part of a thumbnail's source to draw, and the size of the whole source.
#[derive(Clone, Copy, Debug, PartialEq, Eq, Structural)]
pub struct SourceCrop {
    pub rect: Rect,
    pub source_width: i32,
    pub source_height: i32,
}

/// What a stand-in shows in one animation frame. The destination is in screen
/// coordinates.
#[derive(Clone, Copy, Debug, PartialEq, Eq, Structural)]
pub struct GhostFrame {
    pub window_id: WindowId,
    pub registration: u64,
    pub source_crop: Option<SourceCrop>,
    pub destination: Rect,
    pub opacity: u8,
    pub visible: bool,
}

/// A window's place at the end of a transition, and the monitor it is on.
#[derive(Clone, Copy, Debug, PartialEq, Eq, Structural)]
pub struct TransitionTarget {
    pub rect: Rect,
    pub monitor: MonitorId,
}

/// What becomes of one placement.
pub enum Route {
    /// The live window is placed.
    Live,
    /// The stand-in is placed.
    StandIn(GhostFrame),
    /// Nothing is placed; the window lands when the animation is over.
    Dropped,
}

pub open spec fn larger(a: int, b: int) -> int {
    if a >= b {
        a
    } else {
        b
    }
}

pub open spec fn smaller(a: int, b: int) -> int {
    if a <= b {
        a
    } else {
        b
    }
}

/// The rectangles share at least one pixel.
pub open spec fn overlap(a: Rect, b: Rect) -> bool {
    &&& smaller(a.right_edge(), b.right_edge()) > larger(a.x as int, b.x as int)
    &&& smaller(a.bottom_edge(), b.bottom_edge()) > larger(a.y as int, b.y as int)
}

/// The pixels that the rectangles share.
pub open spec fn shared_area(a: Rect, b: Rect) -> Rect {
    Rect {
        x: larger(a.x as int, b.x as int) as i32,
        y: larger(a.y as int, b.y as int) as i32,
        width: (smaller(a.right_edge(), b.right_edge()) - larger(a.x as int, b.x as int)) as i32,
        height: (smaller(a.bottom_edge(), b.bottom_edge()) - larger(
            a.y as int,
            b.y as int,
        )) as i32,
    }
}

/// The first clip of a window.
pub open spec fn clip_of(clips: Seq<WindowRegionClip>, window_id: WindowId) -> Option<
    WindowRegionClip,
>
    decreases clips.len(),
{
    if clips.len() == 0 {
        None
    } else if clips[0].window_id == window_id {
        Some(clips[0])
    } else {
        clip_of(clips.drop_first(), window_id)
    }
}

/// What the stand-in of a window placed at `rect` shows: the whole window, the
/// part of it that its clip leaves, or nothing where the clip leaves nothing.
pub open spec fn frame_of(
    p: WindowPlacement,
    entry: GhostEntry,
    clip: Option<WindowRegionClip>,
) -> GhostFrame {
    match clip {
        None => GhostFrame {
            window_id: p.window_id,
            registration: entry.registration,
            source_crop: None,
            destination: p.rect,
            opacity: 255,
            visible: true,
        },
        Some(clip) => if overlap(p.rect, clip.clip_bounds) {
            let area = shared_area(p.rect, clip.clip_bounds);
            GhostFrame {
                window_id: p.window_id,
                registration: entry.registration,
                source_crop: Some(
                    SourceCrop {
                        rect: Rect {
                            x: (area.x - p.rect.x) as i32,
                            y: (area.y - p.rect.y) as i32,
                            width: area.width,
                            height: area.height,
                        },
                        source_width: larger(p.rect.width as int, 1) as i32,
                        source_height: larger(p.rect.height as int, 1) as i32,
                    },
                ),
                destination: area,
                opacity: 255,
                visible: true,
            }
        } else {
            GhostFrame {
                window_id: p.window_id,
                registration: entry.registration,
                source_crop: None,
                destination: p.rect,
                opacity: 0,
                visible: false,
            }
        },
    }
}

/// What becomes of a placement: a window without a stand-in is placed itself,
/// one whose stand-in could not be made is left for the landing.
pub open spec fn route(
    p: WindowPlacement,
    ghosted: Set<u64>,
    handles: Map<u64, GhostEntry>,
    clips: Seq<WindowRegionClip>,
) -> Route {
    if !ghosted.contains(p.window_id) {
        Route::Live
    } else if handles.contains_key(p.window_id) {
        Route::StandIn(frame_of(p, handles[p.window_id], clip_of(clips, p.window_id)))
    } else {
        Route::Dropped
    }
}

/// The placements of live windows, in order.
pub open spec fn live_placements(
    placements: Seq<WindowPlacement>,
    ghosted: Set<u64>,
) -> Seq<WindowPlacement>
    decreases placements.len(),
{
    if placements.len() == 0 {
        Seq::empty()
    } else {
        let before = live_placements(placements.drop_last(), ghosted);
        if ghosted.contains(placements.last().window_id) {
            before
        } else {
            before.push(placements.last())
        }
    }
}

/// The frames of the stand-ins, in order.
pub open spec fn ghost_frames(
    placements: Seq<WindowPlacement>,
    ghosted: Set<u64>,
    handles: Map<u64, GhostEntry>,
    clips: Seq<WindowRegionClip>,
) -> Seq<GhostFrame>
    decreases placements.len(),
{
    if placements.len() == 0 {
        Seq::empty()
    } else {
        let before = ghost_frames(placements.drop_last(), ghosted, handles, clips);
        match route(placements.last(), ghosted, handles, clips) {
            Route::StandIn(frame) => before.push(frame),
            _ => before,
        }
    }
}

/// The windows that a transition moves by stand-in.
pub open spec fn ghosted_of(transition: Option<&LayoutTransition>) -> Set<u64> {
    match transition {
        Some(transition) => transition.ghosted_wids@,
        None => Set::empty(),
    }
}

fn first_clip(clips: &Vec<WindowRegionClip>, window_id: WindowId) -> (r: Option<WindowRegionClip>)
    ensures
        r == clip_of(clips@, window_id),
{
    let mut i: usize = 0;
    assert(clips@.subrange(0, clips@.len() as int) =~= clips@);
    while i < clips.len()
        invariant
            i <= clips.len(),
            clip_of(clips@, window_id) == clip_of(
                clips@.subrange(i as int, clips@.len() as int),
                window_id,
            ),
        decreases clips.len() - i,
    {
        assert(clips@.subrange(i as int, clips@.len() as int).drop_first() =~= clips@.subrange(
            i + 1,
            clips@.len() as int,
        ));
        if clips[i].window_id == window_id {
            return Some(clips[i]);
        }
        i = i + 1;
    }
    None
}

fn ghost_frame(p: &WindowPlacement, entry: &GhostEntry, clip: Option<WindowRegionClip>) -> (r:
    GhostFrame)
    requires
        p.rect.edges_fit(),
        clip matches Some(clip) ==> clip.clip_bounds.edges_fit(),
    ensures
        r == frame_of(*p, *entry, clip),
{
    let whole = GhostFrame {
        window_id: p.window_id,
        registration: entry.registration,
        source_crop: None,
        destination: p.rect,
        opacity: 255,
        visible: true,
    };
    let bounds = match clip {
        None => {
            return whole;
        },
        Some(clip) => clip.clip_bounds,
    };
    let left: i32 = if p.rect.x >= bounds.x {
        p.rect.x
    } else {
        bounds.x
    };
    let top: i32 = if p.rect.y >= bounds.y {
        p.rect.y
    } else {
        bounds.y
    };
    let right: i32 = if p.rect.right() <= bounds.right() {
        p.rect.right()
    } else {
        bounds.right()
    };
    let bottom: i32 = if p.rect.bottom() <= bounds.bottom() {
        p.rect.bottom()
    } else {
        bounds.bottom()
    };
    if right > left && bottom > top {
        let width: i32 = right - left;
        let height: i32 = bottom - top;
        GhostFrame {
            source_crop: Some(
                SourceCrop {
                    rect: Rect::new(left - p.rect.x, top - p.rect.y, width, height),
                    source_width: if p.rect.width >= 1 {
                        p.rect.width
                    } else {
                        1
                    },
                    source_height: if p.rect.height >= 1 {
                        p.rect.height
                    } else {
                        1
                    },
                },
            ),
            destination: Rect::new(left, top, width, height),
            ..whole
        }
    } else {
        GhostFrame { opacity: 0, visible: false, ..whole }
    }
}

/// Splits the placements of an animation frame into those of live windows and
/// the frames of stand-ins.
pub fn partition_for_animation(
    placements: &Vec<WindowPlacement>,
    transition: Option<&LayoutTransition>,
    ghost_handles: &HashMap<u64, GhostEntry>,
    region_clips: &Vec<WindowRegionClip>,
) -> (r: (Vec<WindowPlacement>, Vec<GhostFrame>))
    requires
        forall|i: int| 0 <= i < placements@.len() ==> (#[trigger] placements@[i]).rect.edges_fit(),
        forall|i: int|
            0 <= i < region_clips@.len() ==> (#[trigger] region_clips@[i]).clip_bounds.edges_fit(),
    ensures
        r.0@ == live_placements(placements@, ghosted_of(transition)),
        r.1@ == ghost_frames(placements@, ghosted_of(transition), ghost_handles@, region_clips@),
{
    let mut live: Vec<WindowPlacement> = Vec::new();
    let mut ghosts: Vec<GhostFrame> = Vec::new();
    let mut i: usize = 0;
    while i < placements.len()
        invariant
            i <= placements.len(),
            forall|k: int|
                0 <= k < placements@.len() ==> (#[trigger] placements@[k]).rect.edges_fit(),
            forall|k: int|
                0 <= k < region_clips@.len() ==> (
                #[trigger] region_clips@[k]).clip_bounds.edges_fit(),
            live@ == live_placements(placements@.take(i as int), ghosted_of(transition)),
            ghosts@ == ghost_frames(
                placements@.take(i as int),
                ghosted_of(transition),
                ghost_handles@,
                region_clips@,
            ),
        decreases placements.len() - i,
    {
        let p = placements[i];
        proof {
            assert(placements@.take(i + 1).drop_last() =~= placements@.take(i as int));
            assert(placements@.take(i + 1).last() == p);
            lemma_clip_is_listed(region_clips@, p.window_id);
        }
        let is_ghost = match transition {
            Some(transition) => transition.ghosted_wids.contains(&p.window_id),
            None => false,
        };
        if is_ghost {
            if let Some(entry) = ghost_handles.get(&p.window_id) {
                ghosts.push(ghost_frame(&p, entry, first_clip(region_clips, p.window_id)));
            }
        } else {
            live.push(p);
        }
        i = i + 1;
    }
    assert(placements@.take(i as int) =~= placements@);
    (live, ghosts)
}

proof fn lemma_clip_is_listed(clips: Seq<WindowRegionClip>, window_id: WindowId)
    ensures
        clip_of(clips, window_id) matches Some(clip) ==> clips.contains(clip) && clip.window_id
            == window_id,
    decreases clips.len(),
{
    if clips.len() > 0 {
        if clips[0].window_id == window_id {
            assert(clips.contains(clips[0]));
        } else {
            lemma_clip_is_listed(clips.drop_first(), window_id);
            if let Some(clip) = clip_of(clips, window_id) {
                let k = choose|k: int|
                    0 <= k < clips.drop_first().len() && clips.drop_first()[k] == clip;
                assert(clips[k + 1] == clip);
            }
        }
    }
}

/// Without a transition every placement moves its live window.
pub proof fn law_no_transition_keeps_everything_live(
    placements: Seq<WindowPlacement>,
    handles: Map<u64, GhostEntry>,
    clips: Seq<WindowRegionClip>,
)
    ensures
        live_placements(placements, ghosted_of(None)) == placements,
        ghost_frames(placements, ghosted_of(None), handles, clips).len() == 0,
    decreases placements.len(),
{
    if placements.len() > 0 {
        law_no_transition_keeps_everything_live(placements.drop_last(), handles, clips);
        assert(placements.drop_last().push(placements.last()) =~= placements);
    } else {
        assert(placements =~= Seq::empty());
    }
}

/// A window is never placed both by itself and by its stand-in: live placements
/// are of windows outside the ghosted set, frames of windows inside it that
/// have a stand-in.
pub proof fn law_streams_are_disjoint(
    placements: Seq<WindowPlacement>,
    ghosted: Set<u64>,
    handles: Map<u64, GhostEntry>,
    clips: Seq<WindowRegionClip>,
)
    ensures
        forall|i: int|
            0 <= i < live_placements(placements, ghosted).len() ==> !ghosted.contains(
                (#[trigger] live_placements(placements, ghosted)[i]).window_id,
            ),
        forall|i: int|
            0 <= i < ghost_frames(placements, ghosted, handles, clips).len() ==> {
                let frame = #[trigger] ghost_frames(placements, ghosted, handles, clips)[i];
                ghosted.contains(frame.window_id) && handles.contains_key(frame.window_id)
            },
    decreases placements.len(),
{
    if placements.len() > 0 {
        law_streams_are_disjoint(placements.drop_last(), ghosted, handles, clips);
    }
}

/// No placement is invented or moved: every live placement is one of the given
/// ones, and no stream is longer than the placements.
pub proof fn law_streams_come_from_the_placements(
    placements: Seq<WindowPlacement>,
    ghosted: Set<u64>,
    handles: Map<u64, GhostEntry>,
    clips: Seq<WindowRegionClip>,
)
    ensures
        live_placements(placements, ghosted).len() + ghost_frames(
            placements,
            ghosted,
            handles,
            clips,
        ).len() <= placements.len(),
        forall|i: int|
            0 <= i < live_placements(placements, ghosted).len() ==> placements.contains(
                #[trigger] live_placements(placements, ghosted)[i],
            ),
    decreases placements.len(),
{
    if placements.len() > 0 {
        law_streams_come_from_the_placements(placements.drop_last(), ghosted, handles, clips);
        let before = live_placements(placements.drop_last(), ghosted);
        let live = live_placements(placements, ghosted);
        assert forall|i: int| 0 <= i < live.len() implies placements.contains(
            #[trigger] live[i],
        ) by {
            if i < before.len() {
                assert(live[i] == before[i]);
                let k = choose|k: int|
                    0 <= k < placements.drop_last().len() && placements.drop_last()[k] == live[i];
                assert(placements[k] == live[i]);
            } else {
                assert(live[i] == placements[placements.len() - 1]);
            }
        }
    }
}

/// A clipped stand-in is drawn inside both its window's place and the clip, and
/// shows exactly the part of the window that lies there.
pub proof fn law_clipped_frame_stays_inside(
    p: WindowPlacement,
    entry: GhostEntry,
    clip: WindowRegionClip,
)
    requires
        p.rect.edges_fit(),
        clip.clip_bounds.edges_fit(),
        frame_of(p, entry, Some(clip)).visible,
    ensures
        ({
            let frame = frame_of(p, entry, Some(clip));
            let area = frame.destination;
            &&& frame.source_crop matches Some(crop)
            &&& area.x >= p.rect.x && area.right_edge() <= p.rect.right_edge()
            &&& area.y >= p.rect.y && area.bottom_edge() <= p.rect.bottom_edge()
            &&& area.x >= clip.clip_bounds.x && area.right_edge()
                <= clip.clip_bounds.right_edge()
            &&& area.y >= clip.clip_bounds.y && area.bottom_edge()
                <= clip.clip_bounds.bottom_edge()
            &&& area.width > 0 && area.height > 0
            &&& crop.rect.width == area.width && crop.rect.height == area.height
            &&& p.rect.x + crop.rect.x == area.x && p.rect.y + crop.rect.y == area.y
            &&& crop.rect.right_edge() <= crop.source_width && crop.rect.bottom_edge()
                <= crop.source_height
        }),
{
}

/// The place of a window changes its size, or the window must not move at all
/// while it is composed, and nothing protects it.
pub open spec fn unsafe_to_animate(
    window_id: u64,
    start: Rect,
    targets: Map<u64, TransitionTarget>,
    ghosted: Set<u64>,
    sensitive: Set<u64>,
) -> bool {
    &&& targets.contains_key(window_id)
    &&& !ghosted.contains(window_id)
    &&& start.width != targets[window_id].rect.width || start.height
        != targets[window_id].rect.height || sensitive.contains(window_id)
}

/// A transition must land at once: in compositor-safe mode, some window of it
/// is unsafe to animate.
pub open spec fn must_snap(
    compositor_safe_mode: bool,
    start_rects: Map<u64, Rect>,
    targets: Map<u64, TransitionTarget>,
    ghosted: Set<u64>,
    sensitive: Set<u64>,
) -> bool {
    compositor_safe_mode && exists|id: u64| #[trigger]
        start_rects.contains_key(id) && unsafe_to_animate(
            id,
            start_rects[id],
            targets,
            ghosted,
            sensitive,
        )
}

/// Whether a transition must land at once.
pub fn transition_requires_compositor_safe_snap(
    compositor_safe_mode: bool,
    start_rects: &HashMap<u64, Rect>,
    targets: &HashMap<u64, TransitionTarget>,
    ghosted_wids: &HashSet<u64>,
    compositor_sensitive_wids: &HashSet<u64>,
) -> (r: bool)
    ensures
        r == must_snap(
            compositor_safe_mode,
            start_rects@,
            targets@,
            ghosted_wids@,
            compositor_sensitive_wids@,
        ),
{
    if !compositor_safe_mode {
        return false;
    }
    for (id, start) in it: start_rects.iter()
        invariant
            compositor_safe_mode,
            it.seq() == vstd::std_specs::iter::IteratorSpec::remaining(&start_rects.iter()),
            forall|k: int|
                0 <= k < it.index() ==> !unsafe_to_animate(
                    *(#[trigger] it.seq()[k]).0,
                    *it.seq()[k].1,
                    targets@,
                    ghosted_wids@,
                    compositor_sensitive_wids@,
                ),
    {
        proof {
            let v = it.seq();
            assert(start_rects@.contains_key(*v[it.index()].0));
        }
        if let Some(target) = targets.get(id) {
            if !ghosted_wids.contains(id) && (start.width != target.rect.width || start.height
                != target.rect.height || compositor_sensitive_wids.contains(id)) {
                return true;
            }
        }
    }
    false
}

/// A stand-in is about its window: it has that window's registration, shows the whole
/// window at its place where nothing clips it, and a pixel of the screen is drawn just
/// where it lies in the window's place and in the clip.
pub proof fn law_stand_ins_show_what_the_clip_leaves(
    p: WindowPlacement,
    entry: GhostEntry,
    clip: Option<WindowRegionClip>,
    x: int,
    y: int,
)
    requires
        p.rect.edges_fit(),
        clip matches Some(clip) ==> clip.clip_bounds.edges_fit(),
    ensures
        ({
            let frame = frame_of(p, entry, clip);
            let drawn = frame.destination;
            let in_window = p.rect.x <= x < p.rect.x + p.rect.width && p.rect.y <= y < p.rect.y
                + p.rect.height;
            &&& frame.window_id == p.window_id
            &&& frame.registration == entry.registration
            &&& frame.opacity == (if frame.visible {
                255u8
            } else {
                0u8
            })
            &&& clip is None ==> frame.visible && frame.source_crop is None && drawn == p.rect
            &&& clip matches Some(clip) ==> {
                let in_clip = clip.clip_bounds.x <= x < clip.clip_bounds.x + clip.clip_bounds.width
                    && clip.clip_bounds.y <= y < clip.clip_bounds.y + clip.clip_bounds.height;
                in_window && in_clip <==> frame.visible && drawn.x <= x < drawn.x + drawn.width
                    && drawn.y <= y < drawn.y + drawn.height
            }
            &&& clip is Some && frame.visible ==> (frame.source_crop matches Some(crop)
                && crop.source_width == p.rect.width && crop.source_height == p.rect.height
                && p.rect.x + crop.rect.x == drawn.x && p.rect.y + crop.rect.y == drawn.y
                && crop.rect.width == drawn.width && crop.rect.height == drawn.height)
        }),
{
}

/// The clip of a window is the first one that names it.
pub proof fn law_first_clip_counts(clips: Seq<WindowRegionClip>, window_id: WindowId)
    ensures
        match clip_of(clips, window_id) {
            Some(clip) => exists|k: int|
                0 <= k < clips.len() && #[trigger] clips[k] == clip && clip.window_id == window_id
                    && forall|l: int| 0 <= l < k ==> (#[trigger] clips[l]).window_id != window_id,
            None => forall|k: int|
                0 <= k < clips.len() ==> (#[trigger] clips[k]).window_id != window_id,
        },
    decreases clips.len(),
{
    if clips.len() > 0 && clips[0].window_id != window_id {
        let rest = clips.drop_first();
        law_first_clip_counts(rest, window_id);
        if let Some(clip) = clip_of(clips, window_id) {
            let k = choose|k: int|
                0 <= k < rest.len() && #[trigger] rest[k] == clip && clip.window_id == window_id
                    && forall|l: int| 0 <= l < k ==> (#[trigger] rest[l]).window_id != window_id;
            assert(clips[k + 1] == clip);
            assert forall|l: int| 0 <= l < k + 1 implies (#[trigger] clips[l]).window_id
                != window_id by {
                if l > 0 {
                    assert(rest[l - 1] == clips[l]);
                }
            }
        } else {
            assert forall|k: int| 0 <= k < clips.len() implies (#[trigger] clips[k]).window_id
                != window_id by {
                if k > 0 {
                    assert(rest[k - 1] == clips[k]);
                }
            }
        }
    } else if clips.len() > 0 {
        assert(clips[0].window_id == window_id);
    }
}

/// The placements that are placed themselves are those of the windows without a stand-in,
/// in their order.
pub proof fn law_live_placements_are_those_without_stand_in(
    placements: Seq<WindowPlacement>,
    ghosted: Set<u64>,
)
    ensures
        live_placements(placements, ghosted) == placements.filter(
            |p: WindowPlacement| !ghosted.contains(p.window_id),
        ),
    decreases placements.len(),
{
    reveal(Seq::filter);
    if placements.len() > 0 {
        law_live_placements_are_those_without_stand_in(placements.drop_last(), ghosted);
    }
}

/// Every placement of a window with a stand-in is drawn by it, in their order, and no other
/// is; one whose stand-in has no handle is not drawn at all.
pub proof fn law_every_stand_in_is_drawn(
    placements: Seq<WindowPlacement>,
    ghosted: Set<u64>,
    handles: Map<u64, GhostEntry>,
    clips: Seq<WindowRegionClip>,
)
    ensures
        ghost_frames(placements, ghosted, handles, clips) == placements.filter(
            |p: WindowPlacement|
                ghosted.contains(p.window_id) && handles.contains_key(p.window_id),
        ).map_values(
            |p: WindowPlacement|
                frame_of(p, handles[p.window_id], clip_of(clips, p.window_id)),
        ),
    decreases placements.len(),
{
    reveal(Seq::filter);
    let drawn = |p: WindowPlacement|
        ghosted.contains(p.window_id) && handles.contains_key(p.window_id);
    let shown = |p: WindowPlacement|
        frame_of(p, handles[p.window_id], clip_of(clips, p.window_id));
    if placements.len() > 0 {
        let rest = placements.drop_last();
        law_every_stand_in_is_drawn(rest, ghosted, handles, clips);
        if drawn(placements.last()) {
            assert(rest.filter(drawn).push(placements.last()).map_values(shown) =~= rest.filter(
                drawn,
            ).map_values(shown).push(shown(placements.last())));
        }
    }
    assert(ghost_frames(placements, ghosted, handles, clips) =~= placements.filter(
        drawn,
    ).map_values(shown));
}

/// A placement goes one way: the window is placed itself where it has no stand-in, its
/// stand-in is drawn where that has a handle, and else nothing is done.
pub proof fn law_placements_go_one_way(
    p: WindowPlacement,
    ghosted: Set<u64>,
    handles: Map<u64, GhostEntry>,
    clips: Seq<WindowRegionClip>,
)
    ensures
        match route(p, ghosted, handles, clips) {
            Route::Live => !ghosted.contains(p.window_id),
            Route::StandIn(frame) => ghosted.contains(p.window_id) && handles.contains_key(
                p.window_id,
            ) && frame == frame_of(p, handles[p.window_id], clip_of(clips, p.window_id)),
            Route::Dropped => ghosted.contains(p.window_id) && !handles.contains_key(p.window_id),
        },
{
}

/// Stand-ins are those of the transition that runs; without one there are none.
pub proof fn law_stand_ins_are_of_the_transition(transition: &LayoutTransition, id: WindowId)
    ensures
        ghosted_of(Some(transition)).contains(id) <==> transition.ghosted_wids@.contains(id),
        !ghosted_of(None).contains(id),
{
}

/// A transition lands at once just in compositor-safe mode, and there just where some
/// window that it moves without a stand-in changes its size or must not be moved.
pub proof fn law_unsafe_transitions_land_at_once(
    start_rects: Map<u64, Rect>,
    targets: Map<u64, TransitionTarget>,
    ghosted: Set<u64>,
    sensitive: Set<u64>,
    id: u64,
)
    requires
        start_rects.contains_key(id),
        targets.contains_key(id),
        !ghosted.contains(id),
        start_rects[id].width != targets[id].rect.width || start_rects[id].height
            != targets[id].rect.height || sensitive.contains(id),
    ensures
        must_snap(true, start_rects, targets, ghosted, sensitive),
        !must_snap(false, start_rects, targets, ghosted, sensitive),
{
}

/// A transition in which every window that has both a start and an end has a stand-in, or
/// keeps its size and may be moved, is animated.
pub proof fn law_safe_transitions_are_animated(
    compositor_safe_mode: bool,
    start_rects: Map<u64, Rect>,
    targets: Map<u64, TransitionTarget>,
    ghosted: Set<u64>,
    sensitive: Set<u64>,
)
    requires
        forall|id: u64| #[trigger]
            start_rects.contains_key(id) && targets.contains_key(id) && !ghosted.contains(id)
                ==> start_rects[id].width == targets[id].rect.width && start_rects[id].height
                == targets[id].rect.height && !sensitive.contains(id),
    ensures
        !must_snap(compositor_safe_mode, start_rects, targets, ghosted, sensitive),
{
}

} // verus!
