//! The event router: window-edge resize detection, the resize
//! arithmetic that drives live drag-resizing, topmost-element hover and
//! click resolution, and the two-state interaction state machine.

use vstd::prelude::*;

use crate::definitions::AtlasView;
use crate::definitions::GeometryType;
use crate::definitions::UiAtlas;
use crate::elements::Element;
use crate::elements::ElementType;
use crate::elements::InteractionResult;
use crate::elements::MAX_TEXT_LEN;
use crate::elements::UiEvent;
use crate::elements::POS_LIMIT;
use crate::elements::spec_scaled;
use crate::components::header_componenet;
use crate::components::spec_header_reserved;
use crate::interface::AllocState;
use crate::interface::Interface;
use crate::interface::InterfaceError;
use crate::interface::spec_atlas_placed;
use crate::interface::spec_batch;
use crate::interface::spec_next_free;
use crate::interface::spec_text_elements_consistent;
use crate::interface::spec_texture_key;
use crate::user_interface::UserInterface;
use crate::user_interface::spec_applied;
use crate::user_interface::spec_reserved;

verus! {

/// The window boundary zone (or none) under the cursor. Top-edge
/// variants are intentionally absent: the title bar owns that region
/// for window dragging.
#[derive(PartialEq, Eq, Structural, Clone, Copy, Debug)]
pub enum Edge {
    NoEdge,
    Left,
    Right,
    Bottom,
    BottomLeft,
    BottomRight,
}

/// The cursor icon that corresponds to a resize edge.
#[derive(PartialEq, Eq, Structural, Clone, Copy, Debug)]
pub enum CursorKind {
    Default,
    WResize,
    EResize,
    SResize,
    SwResize,
    SeResize,
}

/// The truth table from the three zone flags to an edge. A cursor that
/// would be on the left and the right edge at once (a window narrower
/// than twice the zone width) maps to `Edge::NoEdge`.
pub open spec fn edge_from_flags(on_left: bool, on_right: bool, on_bottom: bool) -> Edge {
    match (on_left, on_right, on_bottom) {
        (true, false, false) => Edge::Left,
        (false, true, false) => Edge::Right,
        (false, false, true) => Edge::Bottom,
        (true, false, true) => Edge::BottomLeft,
        (false, true, true) => Edge::BottomRight,
        _ => Edge::NoEdge,
    }
}

pub open spec fn spec_on_left(cursor_x: int, zone_width: int) -> bool {
    cursor_x <= zone_width
}

pub open spec fn spec_on_right(cursor_x: int, window_width: int, zone_width: int) -> bool {
    cursor_x >= window_width - zone_width
}

pub open spec fn spec_on_bottom(cursor_y: int, window_height: int, zone_width: int) -> bool {
    cursor_y >= window_height - zone_width
}

pub open spec fn spec_classify_edge(
    cursor: [i64; 2],
    window_size: [u32; 2],
    zone_width: u32,
) -> Edge {
    edge_from_flags(
        spec_on_left(cursor[0] as int, zone_width as int),
        spec_on_right(cursor[0] as int, window_size[0] as int, zone_width as int),
        spec_on_bottom(cursor[1] as int, window_size[1] as int, zone_width as int),
    )
}

/// Classifies the cursor position against the window's resize zones:
/// within `zone_width` pixels of the left, right or bottom boundary
/// (boundaries inclusive).
pub fn classify_edge(cursor: [i64; 2], window_size: [u32; 2], zone_width: u32) -> (edge: Edge)
    ensures
        edge == spec_classify_edge(cursor, window_size, zone_width),
{
    let on_left = cursor[0] <= zone_width as i64;
    let on_right = cursor[0] >= window_size[0] as i64 - zone_width as i64;
    let on_bottom = cursor[1] >= window_size[1] as i64 - zone_width as i64;

    match (on_left, on_right, on_bottom) {
        (true, false, false) => Edge::Left,
        (false, true, false) => Edge::Right,
        (false, false, true) => Edge::Bottom,
        (true, false, true) => Edge::BottomLeft,
        (false, true, true) => Edge::BottomRight,
        _ => Edge::NoEdge,
    }
}

/// Edge classification is total: whatever the cursor, window size and
/// zone width, the classification is exactly the value of the
/// three-flag truth table, which yields one of the six `Edge` variants.
pub proof fn lemma_edge_classification_totality(
    cursor: [i64; 2],
    window_size: [u32; 2],
    zone_width: u32,
)
    ensures
        exists|l: bool, r: bool, b: bool|
            spec_classify_edge(cursor, window_size, zone_width) == edge_from_flags(l, r, b),
        spec_classify_edge(cursor, window_size, zone_width) matches (Edge::NoEdge | Edge::Left
            | Edge::Right | Edge::Bottom | Edge::BottomLeft | Edge::BottomRight),
{
    let l = spec_on_left(cursor[0] as int, zone_width as int);
    let r = spec_on_right(cursor[0] as int, window_size[0] as int, zone_width as int);
    let b = spec_on_bottom(cursor[1] as int, window_size[1] as int, zone_width as int);
    assert(spec_classify_edge(cursor, window_size, zone_width) == edge_from_flags(l, r, b));
}

pub open spec fn spec_cursor_for_edge(edge: Edge) -> CursorKind {
    match edge {
        Edge::Left => CursorKind::WResize,
        Edge::Right => CursorKind::EResize,
        Edge::Bottom => CursorKind::SResize,
        Edge::BottomLeft => CursorKind::SwResize,
        Edge::BottomRight => CursorKind::SeResize,
        Edge::NoEdge => CursorKind::Default,
    }
}

/// The cursor icon shown while the cursor sits over a resize zone.
pub fn cursor_for_edge(edge: Edge) -> (kind: CursorKind)
    ensures
        kind == spec_cursor_for_edge(edge),
{
    match edge {
        Edge::Left => CursorKind::WResize,
        Edge::Right => CursorKind::EResize,
        Edge::Bottom => CursorKind::SResize,
        Edge::BottomLeft => CursorKind::SwResize,
        Edge::BottomRight => CursorKind::SeResize,
        Edge::NoEdge => CursorKind::Default,
    }
}

/// The two interaction states: `Default` routes hover, click and text
/// input; `Resizing` suppresses those in favor of geometry dragging.
#[derive(PartialEq, Eq, Structural, Clone, Copy, Debug)]
pub enum AppState {
    Default,
    Resizing,
}

impl AppState {
    /// A readable name for the state, for diagnostics.
    pub fn label(&self) -> (r: &'static str)
        ensures
            *self == AppState::Default ==> r@ == "Default"@,
            *self == AppState::Resizing ==> r@ == "Resizing"@,
    {
        match self {
            AppState::Default => "Default",
            AppState::Resizing => "Resizing",
        }
    }
}

/// The resize zone is narrow in the default state (avoids accidental
/// triggering) and wide once a drag is under way (a hysteresis band
/// that prevents flicker at the boundary).
pub open spec fn spec_edge_zone_width(state: AppState) -> u32 {
    match state {
        AppState::Default => 2u32,
        AppState::Resizing => 100u32,
    }
}

pub fn edge_zone_width(state: AppState) -> (w: u32)
    ensures
        w == spec_edge_zone_width(state),
{
    match state {
        AppState::Default => 2,
        AppState::Resizing => 100,
    }
}

/// The smallest width or height a drag-resize may produce, in pixels.
pub const MIN_WINDOW_DIMENSION: u32 = 100;

/// A bound on cursor coordinates the router accepts; far larger than
/// any physical screen, it only keeps delta arithmetic within `i64`.
pub const CURSOR_COORD_LIMIT: i64 = 0x1_0000_0000;

/// The window geometry changes one drag step asks for.
#[derive(PartialEq, Eq, Structural, Clone, Copy, Debug)]
pub struct ResizePlan {
    pub new_width: u32,
    pub new_height: u32,
    pub new_position_x: i32,
}

/// A requested dimension, clamped to the minimum window dimension
/// below and to what fits in `u32` above.
pub open spec fn spec_clamp_dim(v: int) -> u32 {
    if v < MIN_WINDOW_DIMENSION as int {
        MIN_WINDOW_DIMENSION
    } else if v > u32::MAX as int {
        u32::MAX
    } else {
        v as u32
    }
}

fn clamp_dim(v: i64) -> (r: u32)
    ensures
        r == spec_clamp_dim(v as int),
{
    if v < MIN_WINDOW_DIMENSION as i64 {
        MIN_WINDOW_DIMENSION
    } else if v > u32::MAX as i64 {
        u32::MAX
    } else {
        v as u32
    }
}

/// An outer x-position, clamped to what fits in `i32`.
pub open spec fn spec_clamp_position(v: int) -> i32 {
    if v < i32::MIN as int {
        i32::MIN
    } else if v > i32::MAX as int {
        i32::MAX
    } else {
        v as i32
    }
}

fn clamp_position(v: i64) -> (r: i32)
    ensures
        r == spec_clamp_position(v as int),
{
    if v < i32::MIN as i64 {
        i32::MIN
    } else if v > i32::MAX as i64 {
        i32::MAX
    } else {
        v as i32
    }
}

/// What a drag step does to the window geometry, per edge: the `Right`
/// edge applies the width delta only; `Left` edges also shift the outer
/// x-position so the right boundary stays anchored; `Bottom` edges
/// apply the height delta.
pub open spec fn spec_resize_plan(
    edge: Edge,
    window_size: [u32; 2],
    outer_x: i32,
    delta: [i64; 2],
) -> ResizePlan {
    let w = window_size[0] as int;
    let h = window_size[1] as int;
    let dx = delta[0] as int;
    let dy = delta[1] as int;
    match edge {
        Edge::NoEdge => ResizePlan {
            new_width: window_size[0],
            new_height: window_size[1],
            new_position_x: outer_x,
        },
        Edge::Left => ResizePlan {
            new_width: spec_clamp_dim(w - dx),
            new_height: window_size[1],
            new_position_x: spec_clamp_position(outer_x as int + dx),
        },
        Edge::Right => ResizePlan {
            new_width: spec_clamp_dim(w + dx),
            new_height: window_size[1],
            new_position_x: outer_x,
        },
        Edge::Bottom => ResizePlan {
            new_width: window_size[0],
            new_height: spec_clamp_dim(h + dy),
            new_position_x: outer_x,
        },
        Edge::BottomLeft => ResizePlan {
            new_width: spec_clamp_dim(w - dx),
            new_height: spec_clamp_dim(h + dy),
            new_position_x: spec_clamp_position(outer_x as int + dx),
        },
        Edge::BottomRight => ResizePlan {
            new_width: spec_clamp_dim(w + dx),
            new_height: spec_clamp_dim(h + dy),
            new_position_x: outer_x,
        },
    }
}

/// Applies one drag step's cursor delta to the window geometry.
pub fn compute_resize(
    edge: Edge,
    window_size: [u32; 2],
    outer_x: i32,
    delta: [i64; 2],
) -> (plan: ResizePlan)
    requires
        -CURSOR_COORD_LIMIT * 2 <= delta[0] <= CURSOR_COORD_LIMIT * 2,
        -CURSOR_COORD_LIMIT * 2 <= delta[1] <= CURSOR_COORD_LIMIT * 2,
    ensures
        plan == spec_resize_plan(edge, window_size, outer_x, delta),
{
    let width = window_size[0];
    let height = window_size[1];
    match edge {
        Edge::NoEdge => ResizePlan {
            new_width: width,
            new_height: height,
            new_position_x: outer_x,
        },
        Edge::Left => ResizePlan {
            new_width: clamp_dim(width as i64 - delta[0]),
            new_height: height,
            new_position_x: clamp_position(outer_x as i64 + delta[0]),
        },
        Edge::Right => ResizePlan {
            new_width: clamp_dim(width as i64 + delta[0]),
            new_height: height,
            new_position_x: outer_x,
        },
        Edge::Bottom => ResizePlan {
            new_width: width,
            new_height: clamp_dim(height as i64 + delta[1]),
            new_position_x: outer_x,
        },
        Edge::BottomLeft => ResizePlan {
            new_width: clamp_dim(width as i64 - delta[0]),
            new_height: clamp_dim(height as i64 + delta[1]),
            new_position_x: clamp_position(outer_x as i64 + delta[0]),
        },
        Edge::BottomRight => ResizePlan {
            new_width: clamp_dim(width as i64 + delta[0]),
            new_height: clamp_dim(height as i64 + delta[1]),
            new_position_x: outer_x,
        },
    }
}

/// The state the hover/click scan folds over the element list: the
/// element chosen so far and its bounding box (pixel-space center
/// position and scale), seeded with the whole window's box.
pub ghost struct HoverState {
    pub chosen: Option<Element>,
    pub candidate: [i64; 4],
}

/// The whole window as a bounding box: centered, full size.
pub open spec fn spec_initial_candidate(window_size: [u32; 2]) -> [i64; 4] {
    [
        spec_scaled(500, window_size[0]) as i64,
        spec_scaled(500, window_size[1]) as i64,
        spec_scaled(1000, window_size[0]) as i64,
        spec_scaled(1000, window_size[1]) as i64,
    ]
}

pub open spec fn spec_element_pos(e: Element, window_size: [u32; 2]) -> [i64; 2] {
    [e.spec_position_x(window_size) as i64, e.spec_position_y(window_size) as i64]
}

pub open spec fn spec_element_scale(e: Element, window_size: [u32; 2]) -> [i64; 2] {
    [e.spec_scale_x(window_size) as i64, e.spec_scale_y(window_size) as i64]
}

/// One scan step: an element that contains the cursor and whose box
/// sits within the running candidate box becomes the new choice —
/// smaller elements are treated as "on top", and on ties the element
/// evaluated later wins.
pub open spec fn spec_hover_step(
    e: Element,
    cursor: [i64; 2],
    window_size: [u32; 2],
    st: HoverState,
) -> HoverState {
    let pos = spec_element_pos(e, window_size);
    let scale = spec_element_scale(e, window_size);
    if e.spec_hit(cursor, pos, scale) && e.spec_layer(st.candidate, window_size) {
        HoverState { chosen: Some(e), candidate: [pos[0], pos[1], scale[0], scale[1]] }
    } else {
        st
    }
}

pub open spec fn spec_hover_fold(
    elems: Seq<Element>,
    cursor: [i64; 2],
    window_size: [u32; 2],
    st: HoverState,
) -> HoverState
    decreases elems.len(),
{
    if elems.len() == 0 {
        st
    } else {
        spec_hover_step(
            elems.last(),
            cursor,
            window_size,
            spec_hover_fold(elems.drop_last(), cursor, window_size, st),
        )
    }
}

/// The element the scan chooses under the cursor, if any.
pub open spec fn spec_hover_chosen(
    elems: Seq<Element>,
    cursor: [i64; 2],
    window_size: [u32; 2],
) -> Option<Element> {
    spec_hover_fold(
        elems,
        cursor,
        window_size,
        HoverState { chosen: Option::None, candidate: spec_initial_candidate(window_size) },
    ).chosen
}

/// The id hover resolution reports.
pub open spec fn spec_hover_target(
    elems: Seq<Element>,
    cursor: [i64; 2],
    window_size: [u32; 2],
) -> Option<u32> {
    match spec_hover_chosen(elems, cursor, window_size) {
        Some(e) => Some(e.spec_id()),
        Option::None => Option::None,
    }
}

/// The interaction click resolution reports: what clicking the chosen
/// element produces.
pub open spec fn spec_click_result(
    elems: Seq<Element>,
    cursor: [i64; 2],
    window_size: [u32; 2],
) -> InteractionResult {
    match spec_hover_chosen(elems, cursor, window_size) {
        Some(e) => e.spec_handle_click(),
        Option::None => InteractionResult::NoInteraction,
    }
}

/// Whether the element is under the cursor (and interactive).
pub open spec fn spec_hits(e: Element, cursor: [i64; 2], window_size: [u32; 2]) -> bool {
    e.spec_hit(cursor, spec_element_pos(e, window_size), spec_element_scale(e, window_size))
}

/// An element's bounding box as a pixel-space center and scale.
pub open spec fn spec_box_of(e: Element, window_size: [u32; 2]) -> [i64; 4] {
    [
        e.spec_position_x(window_size) as i64,
        e.spec_position_y(window_size) as i64,
        e.spec_scale_x(window_size) as i64,
        e.spec_scale_y(window_size) as i64,
    ]
}

/// Box containment, inclusive, on doubled coordinates: `a` is smaller
/// or equal in extent than `b` on all four half-extents.
pub open spec fn spec_box_within(a: [i64; 4], b: [i64; 4]) -> bool {
    &&& 2 * a[0] - a[2] >= 2 * b[0] - b[2]
    &&& 2 * a[0] + a[2] <= 2 * b[0] + b[2]
    &&& 2 * a[1] - a[3] >= 2 * b[1] - b[3]
    &&& 2 * a[1] + a[3] <= 2 * b[1] + b[3]
}

proof fn lemma_scaled_bounds(rel: u32, dim: u32)
    requires
        rel <= crate::elements::REL_LIMIT,
    ensures
        0 <= spec_scaled(rel, dim) < POS_LIMIT as int / 2,
{
    assert(rel as int * dim as int <= crate::elements::REL_LIMIT as int * u32::MAX as int)
        by (nonlinear_arith)
        requires
            rel <= crate::elements::REL_LIMIT,
            dim <= u32::MAX,
    ;
    vstd::arithmetic::div_mod::lemma_div_is_ordered(
        rel as int * dim as int,
        crate::elements::REL_LIMIT as int * u32::MAX as int,
        crate::definitions::MILLI as int,
    );
    vstd::arithmetic::div_mod::lemma_div_pos_is_pos(
        rel as int * dim as int,
        crate::definitions::MILLI as int,
    );
}

/// An element's pixel geometry stays within `POS_LIMIT`, so the `i64`
/// casts in `spec_box_of` are exact.
proof fn lemma_position_bounds(e: Element, window_size: [u32; 2])
    requires
        e.inv(),
    ensures
        -POS_LIMIT < e.spec_position_x(window_size) < POS_LIMIT,
        -POS_LIMIT < e.spec_position_y(window_size) < POS_LIMIT,
        0 <= e.spec_scale_x(window_size) < POS_LIMIT,
        0 <= e.spec_scale_y(window_size) < POS_LIMIT,
{
    lemma_scaled_bounds(e.spec_relative_position()[0], window_size[0]);
    lemma_scaled_bounds(e.spec_relative_position()[1], window_size[1]);
    lemma_scaled_bounds(e.spec_relative_scale()[0], window_size[0]);
    lemma_scaled_bounds(e.spec_relative_scale()[1], window_size[1]);
}

/// For an element under the cursor, the layering test is exactly box
/// containment of its bounding box in the candidate box.
proof fn lemma_layer_is_box_within(e: Element, input: [i64; 4], window_size: [u32; 2])
    requires
        e.inv(),
        !(e is Label),
    ensures
        e.spec_layer(input, window_size) == spec_box_within(spec_box_of(e, window_size), input),
{
    lemma_position_bounds(e, window_size);
}

/// The inductive heart of topmost resolution: what the scan's fold
/// yields, provided every element under the cursor has its box inside
/// the seed box and those boxes are pairwise comparable by containment.
proof fn lemma_hover_fold_topmost(elems: Seq<Element>, cursor: [i64; 2], window_size: [u32; 2])
    requires
        forall|i: int| 0 <= i < elems.len() ==> (#[trigger] elems[i]).inv(),
        forall|i: int|
            0 <= i < elems.len() && spec_hits(#[trigger] elems[i], cursor, window_size)
                ==> spec_box_within(
                spec_box_of(elems[i], window_size),
                spec_initial_candidate(window_size),
            ),
        forall|i: int, j: int|
            0 <= i < elems.len() && 0 <= j < elems.len() && spec_hits(
                #[trigger] elems[i],
                cursor,
                window_size,
            ) && spec_hits(#[trigger] elems[j], cursor, window_size) ==> spec_box_within(
                spec_box_of(elems[i], window_size),
                spec_box_of(elems[j], window_size),
            ) || spec_box_within(spec_box_of(elems[j], window_size), spec_box_of(elems[i], window_size)),
    ensures
        ({
            let st = spec_hover_fold(
                elems,
                cursor,
                window_size,
                HoverState {
                    chosen: Option::None,
                    candidate: spec_initial_candidate(window_size),
                },
            );
            &&& (st.chosen is None ==> st.candidate == spec_initial_candidate(window_size)
                && (forall|i: int|
                0 <= i < elems.len() ==> !spec_hits(#[trigger] elems[i], cursor, window_size)))
            &&& (st.chosen matches Some(e) ==> st.candidate == spec_box_of(e, window_size)
                && exists|k: int|
                {
                    &&& 0 <= k < elems.len()
                    &&& #[trigger] elems[k] == e
                    &&& spec_hits(e, cursor, window_size)
                    &&& forall|j: int|
                        0 <= j < elems.len() && spec_hits(#[trigger] elems[j], cursor, window_size)
                            ==> spec_box_within(
                            spec_box_of(e, window_size),
                            spec_box_of(elems[j], window_size),
                        )
                    &&& forall|j: int|
                        k < j < elems.len() && spec_hits(#[trigger] elems[j], cursor, window_size)
                            ==> spec_box_of(elems[j], window_size) != spec_box_of(e, window_size)
                })
        }),
    decreases elems.len(),
{
    let init = HoverState { chosen: Option::None, candidate: spec_initial_candidate(window_size) };
    if elems.len() == 0 {
    } else {
        let prefix = elems.drop_last();
        let last = elems.last();
        assert(forall|j: int| 0 <= j < prefix.len() ==> prefix[j] == elems[j]);
        lemma_hover_fold_topmost(prefix, cursor, window_size);
        let st0 = spec_hover_fold(prefix, cursor, window_size, init);
        let st = spec_hover_fold(elems, cursor, window_size, init);
        assert(st == spec_hover_step(last, cursor, window_size, st0));
        if spec_hits(last, cursor, window_size) {
            lemma_layer_is_box_within(last, st0.candidate, window_size);
            let last_box = spec_box_of(last, window_size);
            match st0.chosen {
                Option::None => {
                    // Nothing in the prefix hits, and the seed box
                    // contains the last element's box, so it is chosen.
                    assert(last.spec_layer(st0.candidate, window_size));
                    assert(st.chosen == Some(last));
                    assert(st.candidate =~= last_box);
                    let k = elems.len() - 1;
                    assert(elems[k] == last && spec_hits(last, cursor, window_size));
                },
                Some(chosen0) => {
                    let k0 = choose|k0: int|
                        {
                            &&& 0 <= k0 < prefix.len()
                            &&& #[trigger] prefix[k0] == chosen0
                            &&& spec_hits(chosen0, cursor, window_size)
                            &&& forall|j: int|
                                0 <= j < prefix.len() && spec_hits(
                                    #[trigger] prefix[j],
                                    cursor,
                                    window_size,
                                ) ==> spec_box_within(
                                    spec_box_of(chosen0, window_size),
                                    spec_box_of(prefix[j], window_size),
                                )
                            &&& forall|j: int|
                                k0 < j < prefix.len() && spec_hits(
                                    #[trigger] prefix[j],
                                    cursor,
                                    window_size,
                                ) ==> spec_box_of(prefix[j], window_size) != spec_box_of(
                                    chosen0,
                                    window_size,
                                )
                        };
                    if last.spec_layer(st0.candidate, window_size) {
                        // The last element's box sits within the smallest
                        // box so far, so it becomes the choice; by
                        // transitivity it is smallest overall.
                        assert(st.chosen == Some(last));
                        assert(st.candidate =~= last_box);
                        let k = elems.len() - 1;
                        assert(spec_box_within(last_box, spec_box_of(chosen0, window_size)));
                        assert forall|j: int|
                            0 <= j < elems.len() && spec_hits(
                                #[trigger] elems[j],
                                cursor,
                                window_size,
                            ) implies spec_box_within(
                            last_box,
                            spec_box_of(elems[j], window_size),
                        ) by {
                            if j < elems.len() - 1 {
                                assert(prefix[j] == elems[j]);
                            }
                        }
                        assert(elems[k] == last);
                    } else {
                        // The last element's box does not fit in the
                        // smallest box so far; by comparability the
                        // choice stays smallest, and the boxes differ.
                        assert(st.chosen == Some(chosen0));
                        assert(elems[k0] == chosen0);
                        assert(spec_box_within(
                            spec_box_of(chosen0, window_size),
                            last_box,
                        ) || spec_box_within(last_box, spec_box_of(chosen0, window_size)));
                        assert(spec_box_within(spec_box_of(chosen0, window_size), last_box));
                        assert forall|j: int|
                            0 <= j < elems.len() && spec_hits(
                                #[trigger] elems[j],
                                cursor,
                                window_size,
                            ) implies spec_box_within(
                            spec_box_of(chosen0, window_size),
                            spec_box_of(elems[j], window_size),
                        ) by {
                            if j < elems.len() - 1 {
                                assert(prefix[j] == elems[j]);
                            }
                        }
                        assert forall|j: int|
                            k0 < j < elems.len() && spec_hits(
                                #[trigger] elems[j],
                                cursor,
                                window_size,
                            ) implies spec_box_of(elems[j], window_size) != spec_box_of(
                            chosen0,
                            window_size,
                        ) by {
                            if j == elems.len() - 1 {
                                assert(!spec_box_within(
                                    last_box,
                                    spec_box_of(chosen0, window_size),
                                ));
                            } else {
                                assert(prefix[j] == elems[j]);
                            }
                        }
                    }
                },
            }
        } else {
            assert(st == st0);
            match st0.chosen {
                Option::None => {},
                Some(chosen0) => {
                    let k0 = choose|k0: int|
                        {
                            &&& 0 <= k0 < prefix.len()
                            &&& #[trigger] prefix[k0] == chosen0
                            &&& spec_hits(chosen0, cursor, window_size)
                            &&& forall|j: int|
                                0 <= j < prefix.len() && spec_hits(
                                    #[trigger] prefix[j],
                                    cursor,
                                    window_size,
                                ) ==> spec_box_within(
                                    spec_box_of(chosen0, window_size),
                                    spec_box_of(prefix[j], window_size),
                                )
                            &&& forall|j: int|
                                k0 < j < prefix.len() && spec_hits(
                                    #[trigger] prefix[j],
                                    cursor,
                                    window_size,
                                ) ==> spec_box_of(prefix[j], window_size) != spec_box_of(
                                    chosen0,
                                    window_size,
                                )
                        };
                    assert(elems[k0] == chosen0);
                    assert forall|j: int|
                        0 <= j < elems.len() && spec_hits(
                            #[trigger] elems[j],
                            cursor,
                            window_size,
                        ) implies spec_box_within(
                        spec_box_of(chosen0, window_size),
                        spec_box_of(elems[j], window_size),
                    ) by {
                        if j < elems.len() - 1 {
                            assert(prefix[j] == elems[j]);
                        }
                    }
                },
            }
        }
    }
}

/// Hit-test topmost resolution: when the bounding boxes of the
/// elements under the cursor all lie within the window box and are
/// pairwise comparable by containment (nested UI), hover resolution
/// reports an element under the cursor whose box is smallest, and among
/// equal smallest boxes the element evaluated last. It reports nothing
/// exactly when no interactive element is under the cursor.
pub proof fn lemma_hover_topmost(elems: Seq<Element>, cursor: [i64; 2], window_size: [u32; 2])
    requires
        forall|i: int| 0 <= i < elems.len() ==> (#[trigger] elems[i]).inv(),
        forall|i: int|
            0 <= i < elems.len() && spec_hits(#[trigger] elems[i], cursor, window_size)
                ==> spec_box_within(
                spec_box_of(elems[i], window_size),
                spec_initial_candidate(window_size),
            ),
        forall|i: int, j: int|
            0 <= i < elems.len() && 0 <= j < elems.len() && spec_hits(
                #[trigger] elems[i],
                cursor,
                window_size,
            ) && spec_hits(#[trigger] elems[j], cursor, window_size) ==> spec_box_within(
                spec_box_of(elems[i], window_size),
                spec_box_of(elems[j], window_size),
            ) || spec_box_within(spec_box_of(elems[j], window_size), spec_box_of(elems[i], window_size)),
    ensures
        (spec_hover_chosen(elems, cursor, window_size) is Some) <==> exists|i: int|
            0 <= i < elems.len() && spec_hits(#[trigger] elems[i], cursor, window_size),
        spec_hover_chosen(elems, cursor, window_size) matches Some(e) ==> exists|k: int|
            {
                &&& 0 <= k < elems.len()
                &&& #[trigger] elems[k] == e
                &&& spec_hits(e, cursor, window_size)
                &&& forall|j: int|
                    0 <= j < elems.len() && spec_hits(#[trigger] elems[j], cursor, window_size)
                        ==> spec_box_within(
                        spec_box_of(e, window_size),
                        spec_box_of(elems[j], window_size),
                    )
                &&& forall|j: int|
                    k < j < elems.len() && spec_hits(#[trigger] elems[j], cursor, window_size)
                        ==> spec_box_of(elems[j], window_size) != spec_box_of(e, window_size)
            },
{
    lemma_hover_fold_topmost(elems, cursor, window_size);
    let st = spec_hover_fold(
        elems,
        cursor,
        window_size,
        HoverState { chosen: Option::None, candidate: spec_initial_candidate(window_size) },
    );
    match st.chosen {
        Option::None => {},
        Some(e) => {
            let k = choose|k: int|
                {
                    &&& 0 <= k < elems.len()
                    &&& #[trigger] elems[k] == e
                    &&& spec_hits(e, cursor, window_size)
                    &&& forall|j: int|
                        0 <= j < elems.len() && spec_hits(#[trigger] elems[j], cursor, window_size)
                            ==> spec_box_within(
                            spec_box_of(e, window_size),
                            spec_box_of(elems[j], window_size),
                        )
                    &&& forall|j: int|
                        k < j < elems.len() && spec_hits(#[trigger] elems[j], cursor, window_size)
                            ==> spec_box_of(elems[j], window_size) != spec_box_of(e, window_size)
                };
            assert(spec_hits(elems[k], cursor, window_size));
        },
    }
}

/// The minimum-size floor: every drag step yields a width and height of
/// at least `MIN_WINDOW_DIMENSION`, and a requested dimension below the
/// floor is clamped to exactly the floor.
pub proof fn lemma_min_window_floor(
    edge: Edge,
    window_size: [u32; 2],
    outer_x: i32,
    delta: [i64; 2],
)
    requires
        window_size[0] >= MIN_WINDOW_DIMENSION,
        window_size[1] >= MIN_WINDOW_DIMENSION,
    ensures
        spec_resize_plan(edge, window_size, outer_x, delta).new_width >= MIN_WINDOW_DIMENSION,
        spec_resize_plan(edge, window_size, outer_x, delta).new_height >= MIN_WINDOW_DIMENSION,
        forall|v: int| v < MIN_WINDOW_DIMENSION ==> #[trigger] spec_clamp_dim(v)
            == MIN_WINDOW_DIMENSION,
{
}

/// The interaction bookkeeping the router carries between events.
#[derive(Debug)]
pub struct AppData {
    pub last_logged_cursor_position: [i64; 2],
    pub curr_hover: Option<u32>,
    pub prev_hover: u32,
    pub state: AppState,
    pub selected: bool,
}

impl AppData {
    /// Cursor coordinates stay within the router's bound.
    pub open spec fn inv(self) -> bool {
        &&& -CURSOR_COORD_LIMIT <= self.last_logged_cursor_position[0] <= CURSOR_COORD_LIMIT
        &&& -CURSOR_COORD_LIMIT <= self.last_logged_cursor_position[1] <= CURSOR_COORD_LIMIT
    }

    pub fn new() -> (r: AppData)
        ensures
            r.last_logged_cursor_position@ == seq![0i64, 0i64],
            r.curr_hover is None,
            r.prev_hover == 0,
            r.state == AppState::Default,
            r.selected == false,
            r.inv(),
    {
        let r = AppData {
            last_logged_cursor_position: [0, 0],
            curr_hover: Option::None,
            prev_hover: 0,
            state: AppState::Default,
            selected: false,
        };
        proof {
            assert(r.last_logged_cursor_position@ =~= seq![0i64, 0i64]);
        }
        r
    }
}

/// The event router's whole state: the element collection, the
/// interaction bookkeeping, and the atlas new interfaces are built
/// over.
#[derive(Debug)]
pub struct AppLogic {
    pub interface: Interface,
    pub app_data: AppData,
    pub atlas: UiAtlas,
}

fn initial_candidate(window_size: [u32; 2]) -> (r: [i64; 4])
    ensures
        r == spec_initial_candidate(window_size),
        forall|k: int| 0 <= k < 4 ==> 0 <= #[trigger] r[k] <= POS_LIMIT,
{
    let r = [
        ((500u64 * window_size[0] as u64) / 1000) as i64,
        ((500u64 * window_size[1] as u64) / 1000) as i64,
        ((1000u64 * window_size[0] as u64) / 1000) as i64,
        ((1000u64 * window_size[1] as u64) / 1000) as i64,
    ];
    proof {
        assert(r =~= spec_initial_candidate(window_size));
    }
    r
}

impl AppLogic {
    pub open spec fn wf(self) -> bool {
        &&& self.interface.wf()
        &&& self.app_data.inv()
    }

    pub fn new(interface: Interface, atlas: UiAtlas) -> (r: Self)
        requires
            interface.wf(),
        ensures
            r.wf(),
            r.interface == interface,
            r.atlas == atlas,
            r.app_data.state == AppState::Default,
            r.app_data.selected == false,
            r.app_data.curr_hover is None,
            r.app_data.prev_hover == 0,
    {
        Self { interface, app_data: AppData::new(), atlas }
    }

    /// Classifies the cursor against the resize zones, whose width
    /// depends on the interaction state (the hysteresis band).
    pub fn handle_resizing(&self, cursor_position: [i64; 2], window_size: [u32; 2]) -> (edge:
        Edge)
        ensures
            edge == spec_classify_edge(
                cursor_position,
                window_size,
                spec_edge_zone_width(self.app_data.state),
            ),
    {
        let zone = edge_zone_width(self.app_data.state);
        classify_edge(cursor_position, window_size, zone)
    }

    /// Hover resolution: the id of the topmost element under the
    /// cursor — the element with the smallest bounding box among those
    /// whose box contains the cursor, ties resolved toward the element
    /// evaluated last.
    pub fn handle_hover(&self, cursor_position: [i64; 2], window_size: [u32; 2]) -> (r: Option<
        u32,
    >)
        requires
            self.wf(),
            -CURSOR_COORD_LIMIT <= cursor_position[0] <= CURSOR_COORD_LIMIT,
            -CURSOR_COORD_LIMIT <= cursor_position[1] <= CURSOR_COORD_LIMIT,
        ensures
            r == spec_hover_target(self.interface.elements@, cursor_position, window_size),
    {
        let ghost elems = self.interface.elements@;
        let ghost init = HoverState {
            chosen: Option::None,
            candidate: spec_initial_candidate(window_size),
        };
        let mut result: Option<u32> = Option::None;
        let mut smallest_element: [i64; 4] = initial_candidate(window_size);
        let mut i: usize = 0;
        while i < self.interface.elements.len()
            invariant
                self.wf(),
                elems == self.interface.elements@,
                init == (HoverState {
                    chosen: Option::<Element>::None,
                    candidate: spec_initial_candidate(window_size),
                }),
                -CURSOR_COORD_LIMIT <= cursor_position[0] <= CURSOR_COORD_LIMIT,
                -CURSOR_COORD_LIMIT <= cursor_position[1] <= CURSOR_COORD_LIMIT,
                i <= elems.len(),
                smallest_element == spec_hover_fold(
                    elems.take(i as int),
                    cursor_position,
                    window_size,
                    init,
                ).candidate,
                result == (match spec_hover_fold(
                    elems.take(i as int),
                    cursor_position,
                    window_size,
                    init,
                ).chosen {
                    Some(e) => Some(e.spec_id()),
                    Option::None => Option::<u32>::None,
                }),
                forall|k: int| 0 <= k < 4 ==> -POS_LIMIT <= #[trigger] smallest_element[k]
                    <= POS_LIMIT,
            decreases elems.len() - i as int,
        {
            proof {
                assert(elems.take(i as int + 1).drop_last() =~= elems.take(i as int));
                assert(elems.take(i as int + 1).last() == elems[i as int]);
            }
            let element = &self.interface.elements[i];
            let element_position = element.get_position(window_size);
            let element_scale = element.get_scale(window_size);
            if element.is_cursor_within_bounds(cursor_position, element_position, element_scale) {
                if element.get_layer(smallest_element, window_size) {
                    smallest_element = [
                        element_position[0],
                        element_position[1],
                        element_scale[0],
                        element_scale[1],
                    ];
                    result = Some(element.get_id());
                    proof {
                        assert(smallest_element =~= spec_hover_fold(
                            elems.take(i as int + 1),
                            cursor_position,
                            window_size,
                            init,
                        ).candidate);
                    }
                }
            }
            i = i + 1;
        }
        proof {
            assert(elems.take(elems.len() as int) =~= elems);
        }
        result
    }

    /// Click resolution: what clicking the topmost element under the
    /// cursor produces, by the same smallest-box rule as hover.
    pub fn handle_click(&self, cursor_position: [i64; 2], window_size: [u32; 2]) -> (r:
        InteractionResult)
        requires
            self.wf(),
            -CURSOR_COORD_LIMIT <= cursor_position[0] <= CURSOR_COORD_LIMIT,
            -CURSOR_COORD_LIMIT <= cursor_position[1] <= CURSOR_COORD_LIMIT,
        ensures
            r == spec_click_result(self.interface.elements@, cursor_position, window_size),
    {
        let ghost elems = self.interface.elements@;
        let ghost init = HoverState {
            chosen: Option::None,
            candidate: spec_initial_candidate(window_size),
        };
        let mut result: InteractionResult = InteractionResult::NoInteraction;
        let mut smallest_element: [i64; 4] = initial_candidate(window_size);
        let mut i: usize = 0;
        while i < self.interface.elements.len()
            invariant
                self.wf(),
                elems == self.interface.elements@,
                init == (HoverState {
                    chosen: Option::<Element>::None,
                    candidate: spec_initial_candidate(window_size),
                }),
                -CURSOR_COORD_LIMIT <= cursor_position[0] <= CURSOR_COORD_LIMIT,
                -CURSOR_COORD_LIMIT <= cursor_position[1] <= CURSOR_COORD_LIMIT,
                i <= elems.len(),
                smallest_element == spec_hover_fold(
                    elems.take(i as int),
                    cursor_position,
                    window_size,
                    init,
                ).candidate,
                result == (match spec_hover_fold(
                    elems.take(i as int),
                    cursor_position,
                    window_size,
                    init,
                ).chosen {
                    Some(e) => e.spec_handle_click(),
                    Option::None => InteractionResult::NoInteraction,
                }),
                forall|k: int| 0 <= k < 4 ==> -POS_LIMIT <= #[trigger] smallest_element[k]
                    <= POS_LIMIT,
            decreases elems.len() - i as int,
        {
            proof {
                assert(elems.take(i as int + 1).drop_last() =~= elems.take(i as int));
                assert(elems.take(i as int + 1).last() == elems[i as int]);
            }
            let element = &self.interface.elements[i];
            let element_position = element.get_position(window_size);
            let element_scale = element.get_scale(window_size);
            if element.is_cursor_within_bounds(cursor_position, element_position, element_scale) {
                if element.get_layer(smallest_element, window_size) {
                    smallest_element = [
                        element_position[0],
                        element_position[1],
                        element_scale[0],
                        element_scale[1],
                    ];
                    result = element.handle_click();
                    proof {
                        assert(smallest_element =~= spec_hover_fold(
                            elems.take(i as int + 1),
                            cursor_position,
                            window_size,
                            init,
                        ).candidate);
                    }
                }
            }
            i = i + 1;
        }
        proof {
            assert(elems.take(elems.len() as int) =~= elems);
        }
        result
    }
}

/// The texture names the project view declares.
pub open spec fn spec_project_texture(name: Seq<char>) -> bool {
    ||| name == "solid"@
    ||| name == "close"@
    ||| name == "maximize"@
    ||| name == "minimize"@
}

/// Whether the atlas carries every texture the project view declares.
pub open spec fn spec_atlas_covers_project(atlas: AtlasView) -> bool {
    &&& atlas.has_entry("solid"@)
    &&& atlas.has_entry("close"@)
    &&& atlas.has_entry("maximize"@)
    &&& atlas.has_entry("minimize"@)
}

/// Re-assigning an element's id leaves its texture key, geometry type
/// and variant untouched; a button's click behavior does not depend on
/// its id.
proof fn lemma_with_id_texture(e: Element, id: u32)
    ensures
        spec_texture_key(e.spec_with_id(id)) == spec_texture_key(e),
        e.spec_with_id(id).spec_geometry_type() == e.spec_geometry_type(),
        (e.spec_with_id(id) is Label) == (e is Label),
        (e.spec_with_id(id) is TextBox) == (e is TextBox),
        e is Button ==> e.spec_with_id(id).spec_handle_click() == e.spec_handle_click(),
{
}

/// Re-assigning an element's id yields that id.
proof fn lemma_with_id_inv_public(e: Element, id: u32)
    ensures
        e.spec_with_id(id).spec_id() == id,
{
}

/// Whether `a` is `b` under some re-assigned id.
pub open spec fn spec_is_reid(a: Element, b: Element) -> bool {
    exists|id: u32| a == #[trigger] b.spec_with_id(id)
}

/// A pending batch's applied elements, pointwise: each is the batch's
/// element under some id.
proof fn lemma_applied_pointwise(st: AllocState, pending: Seq<(Element, Option<u32>)>)
    ensures
        spec_applied(st, pending).len() == pending.len(),
        forall|k: int|
            0 <= k < pending.len() ==> #[trigger] spec_is_reid(
                spec_applied(st, pending)[k],
                pending[k].0,
            ),
    decreases pending.len(),
{
    if pending.len() == 0 {
    } else {
        let rest = pending.drop_first();
        let st1 = st.step(pending[0].1);
        lemma_applied_pointwise(st1, rest);
        assert forall|k: int| 0 <= k < pending.len() implies #[trigger] spec_is_reid(
            spec_applied(st, pending)[k],
            pending[k].0,
        ) by {
            if k == 0 {
                let id0 = st.assigned(pending[0].1);
                assert(spec_applied(st, pending)[0] == pending[0].0.spec_with_id(id0));
            } else {
                assert(spec_applied(st, pending)[k] == spec_applied(st1, rest)[k - 1]);
                assert(rest[k - 1] == pending[k]);
                assert(spec_is_reid(spec_applied(st1, rest)[k - 1], rest[k - 1].0));
            }
        }
    }
}

/// The header's insertions are accepted by a fresh allocator: the
/// reserved id 0 is fresh, and the six automatic assignments walk past
/// it (ids 1 through 6).
proof fn lemma_header_alloc_ok(st: AllocState)
    requires
        st.ids == Seq::<u32>::empty(),
        st.iter == 0,
        st.illegal == Seq::<u32>::empty(),
    ensures
        st.all_ok(spec_header_reserved()),
{
    let res = spec_header_reserved();
    assert(!st.ids.contains(0u32));
    let s1 = st.step(Some(0u32));
    assert(s1.illegal =~= seq![0u32]);
    assert(s1.iter == 0);
    assert forall|k: int| 1 <= k < 7 implies !(#[trigger] s1.illegal.contains(k as u32)) by {
        assert(forall|j: int| 0 <= j < 1 ==> s1.illegal[j] == 0u32);
    }
    assert(s1.illegal.contains(0u32)) by {
        assert(s1.illegal[0] == 0u32);
    }
    assert(spec_next_free(0u32, s1.illegal) == 1) by {
        assert(spec_next_free(1u32, s1.illegal) == 1);
    }
    let s2 = s1.step(Option::None);
    assert(s2.iter == 2 && s2.illegal == s1.illegal);
    assert(spec_next_free(2u32, s2.illegal) == 2);
    let s3 = s2.step(Option::None);
    assert(s3.iter == 3 && s3.illegal == s1.illegal);
    assert(spec_next_free(3u32, s3.illegal) == 3);
    let s4 = s3.step(Option::None);
    assert(s4.iter == 4 && s4.illegal == s1.illegal);
    assert(spec_next_free(4u32, s4.illegal) == 4);
    let s5 = s4.step(Option::None);
    assert(s5.iter == 5 && s5.illegal == s1.illegal);
    assert(spec_next_free(5u32, s5.illegal) == 5);
    let s6 = s5.step(Option::None);
    assert(s6.iter == 6 && s6.illegal == s1.illegal);
    assert(spec_next_free(6u32, s6.illegal) == 6);
    let s7 = s6.step(Option::None);
    let r1 = res.drop_first();
    let r2 = r1.drop_first();
    let r3 = r2.drop_first();
    let r4 = r3.drop_first();
    let r5 = r4.drop_first();
    let r6 = r5.drop_first();
    let r7 = r6.drop_first();
    assert(r7.len() == 0);
    assert(s7.all_ok(r7));
    assert(r6[0] is None && s6.all_ok(r6));
    assert(r5[0] is None && s5.all_ok(r5));
    assert(r4[0] is None && s4.all_ok(r4));
    assert(r3[0] is None && s3.all_ok(r3));
    assert(r2[0] is None && s2.all_ok(r2));
    assert(r1[0] is None && s1.all_ok(r1));
    assert(res[0] == Some(0u32) && st.all_ok(res));
}

impl AppLogic {
    /// Builds the project view over the given atlas: a fresh interface
    /// holding the window header. Every element's texture key is one
    /// the project declares.
    pub fn build_project_view(atlas: UiAtlas) -> (r: Interface)
        ensures
            r.wf(),
            r.elements@.len() == 7,
            r.atlas@ == atlas@,
            r.quad_instances@.len() == 0,
            r.label_instances@.len() == 0,
            forall|i: int|
                0 <= i < r.elements@.len() ==> spec_project_texture(
                    spec_texture_key(#[trigger] r.elements@[i]),
                ),
            spec_text_elements_consistent(r.elements@),
            // The header's interactive surface: the title-bar panel
            // under the reserved id 0, and the three window controls.
            r.elements@[0].spec_id() == 0,
            r.elements@[0].spec_handle_click() == InteractionResult::Propogate(UiEvent::TitleBar),
            r.elements@[1].spec_handle_click() == InteractionResult::Propogate(
                UiEvent::CloseRequested,
            ),
            r.elements@[3].spec_handle_click() == InteractionResult::Propogate(
                UiEvent::ResizeRequested,
            ),
            r.elements@[5].spec_handle_click() == InteractionResult::Propogate(
                UiEvent::SetMinimized,
            ),
    {
        let mut interface = Interface::new(atlas);
        let mut ui = UserInterface::new();
        let ghost fresh = interface.alloc_state();
        header_componenet(&mut ui);
        proof {
            assert(fresh.ids =~= Seq::<u32>::empty());
            assert(fresh.illegal =~= Seq::<u32>::empty());
            assert(spec_reserved(ui.pending@) =~= spec_header_reserved()) by {
                assert(spec_reserved(ui.pending@.take(0)) =~= Seq::<Option<u32>>::empty());
                assert(spec_reserved(ui.pending@) =~= spec_reserved(ui.pending@.take(0))
                    + spec_header_reserved());
            }
            lemma_header_alloc_ok(fresh);
        }
        let ghost pending = ui.pending@;
        interface.show(ui);
        proof {
            lemma_applied_pointwise(fresh, pending);
            assert(interface.elements@ =~= spec_applied(fresh, pending));
            assert forall|i: int| 0 <= i < interface.elements@.len() implies spec_project_texture(
                spec_texture_key(#[trigger] interface.elements@[i]),
            ) && !((interface.elements@[i]).spec_geometry_type() == GeometryType::Label
                && !(interface.elements@[i] is Label || interface.elements@[i] is TextBox)) by {
                assert(spec_is_reid(spec_applied(fresh, pending)[i], pending[i].0));
                let id = choose|id: u32|
                    interface.elements@[i] == #[trigger] pending[i].0.spec_with_id(id);
                lemma_with_id_texture(pending[i].0, id);
                assert(pending[i].0.spec_geometry_type() == GeometryType::Quad);
            }
            // The title-bar panel sits first under the reserved id 0;
            // the control buttons keep their registered events.
            assert(spec_reserved(pending)[0] == Some(0u32));
            assert(interface.elements@[0] == pending[0].0.spec_with_id(
                fresh.assigned(pending[0].1),
            ));
            assert(interface.elements@[0].spec_id() == 0) by {
                lemma_with_id_inv_public(pending[0].0, 0);
            }
            assert forall|k: int| k == 1 || k == 3 || k == 5 implies #[trigger] interface.elements@[k].spec_handle_click()
                == pending[k].0.spec_handle_click() by {
                assert(spec_is_reid(spec_applied(fresh, pending)[k], pending[k].0));
                let id = choose|id: u32|
                    interface.elements@[k] == #[trigger] pending[k].0.spec_with_id(id);
                lemma_with_id_texture(pending[k].0, id);
            }
        }
        interface
    }

    /// Rebuilds the interface from scratch: a fresh project view over
    /// the router's atlas, with its instance batches assembled for the
    /// given window size. Succeeds whenever the atlas covers the
    /// project's texture names.
    pub fn rebuild_interface(&mut self, window_size: [u32; 2]) -> (r: Result<
        (),
        InterfaceError,
    >)
        requires
            old(self).wf(),
            spec_atlas_placed(old(self).atlas@),
            spec_atlas_covers_project(old(self).atlas@),
        ensures
            r is Ok,
            final(self).wf(),
            final(self).interface.elements@.len() == 7,
            final(self).interface.atlas@ == old(self).atlas@,
            final(self).interface.quad_instances@ == spec_batch(
                final(self).interface.elements@,
                window_size,
                old(self).atlas@,
                GeometryType::Quad,
            ),
            final(self).interface.label_instances@ == spec_batch(
                final(self).interface.elements@,
                window_size,
                old(self).atlas@,
                GeometryType::Label,
            ),
            spec_text_elements_consistent(final(self).interface.elements@),
            final(self).interface.elements@[0].spec_id() == 0,
            final(self).interface.elements@[0].spec_handle_click()
                == InteractionResult::Propogate(UiEvent::TitleBar),
            final(self).app_data == old(self).app_data,
            final(self).atlas == old(self).atlas,
    {
        let new_interface = Self::build_project_view(self.atlas.clone());
        self.interface = new_interface;
        let r = self.interface.rebuild_instances(window_size);
        proof {
            if r is Err {
                assert(exists|i: int|
                    0 <= i < self.interface.elements@.len() && !self.interface.atlas@.has_entry(
                        spec_texture_key(#[trigger] self.interface.elements@[i]),
                    ));
                let i = choose|i: int|
                    0 <= i < self.interface.elements@.len() && !self.interface.atlas@.has_entry(
                        spec_texture_key(#[trigger] self.interface.elements@[i]),
                    );
                assert(spec_project_texture(spec_texture_key(self.interface.elements@[i])));
                assert(false);
            }
        }
        r
    }
}

/// The element list after a highlight pass aimed at the given id.
pub open spec fn spec_highlighted(elems: Seq<Element>, id: u32, a_value: u8) -> Seq<Element> {
    elems.map_values(
        |e: Element|
            if e.spec_id() == id {
                e.spec_set_highlight(a_value)
            } else {
                e
            },
    )
}

fn set_highlight_at(elements: &mut Vec<Element>, i: usize, alpha: u8) -> (r: bool)
    requires
        i < old(elements)@.len(),
    ensures
        final(elements)@ == old(elements)@.update(
            i as int,
            old(elements)@[i as int].spec_set_highlight(alpha),
        ),
        r == old(elements)@[i as int].spec_is_highlightable(),
{
    let element = &mut elements[i];
    element.set_highlight(alpha)
}

/// Highlighting leaves identity, geometry and bounds untouched.
proof fn lemma_highlight_preserves(e: Element, a_value: u8)
    ensures
        e.spec_set_highlight(a_value).spec_id() == e.spec_id(),
        e.spec_set_highlight(a_value).inv() == e.inv(),
        e.spec_set_highlight(a_value).spec_geometry_type() == e.spec_geometry_type(),
        (e.spec_set_highlight(a_value) is TextBox) == (e is TextBox),
        (e.spec_set_highlight(a_value) is Button) == (e is Button),
        e.spec_set_highlight(a_value).spec_stored_text() == e.spec_stored_text(),
{
}

impl AppLogic {
    /// Sets the hover-highlight alpha of the element last hovered
    /// (`prev_hover`). Returns whether a mutation occurred — only
    /// buttons are highlightable — so the caller knows whether the
    /// GPU-resident instances need a refresh.
    pub fn highlight(&mut self, alpha: u8) -> (r: bool)
        requires
            old(self).wf(),
        ensures
            final(self).wf(),
            final(self).interface.elements@ == spec_highlighted(
                old(self).interface.elements@,
                old(self).app_data.prev_hover,
                alpha,
            ),
            r == (exists|i: int|
                0 <= i < old(self).interface.elements@.len() && (
                #[trigger] old(self).interface.elements@[i]).spec_id() == old(
                    self,
                ).app_data.prev_hover && old(self).interface.elements@[i] is Button),
            final(self).app_data == old(self).app_data,
            final(self).atlas == old(self).atlas,
            final(self).interface.quad_instances == old(self).interface.quad_instances,
            final(self).interface.label_instances == old(self).interface.label_instances,
            final(self).interface.id_iterator == old(self).interface.id_iterator,
            final(self).interface.illegal_ids == old(self).interface.illegal_ids,
            final(self).interface.atlas == old(self).interface.atlas,
    {
        let ghost pre = *old(self);
        let id = self.app_data.prev_hover;
        let mut i: usize = 0;
        while i < self.interface.elements.len()
            invariant
                pre == *old(self),
                *self == pre,
                pre.wf(),
                id == pre.app_data.prev_hover,
                i <= pre.interface.elements@.len(),
                forall|j: int|
                    0 <= j < i as int ==> (#[trigger] pre.interface.elements@[j]).spec_id() != id,
            decreases pre.interface.elements@.len() - i as int,
        {
            if self.interface.elements[i].get_id() == id {
                let r = set_highlight_at(&mut self.interface.elements, i, alpha);
                proof {
                    assert forall|j: int|
                        0 <= j < pre.interface.elements@.len() implies self.interface.elements@[j]
                        == spec_highlighted(pre.interface.elements@, id, alpha)[j] by {
                        lemma_highlight_preserves(pre.interface.elements@[j], alpha);
                        if j != i as int && pre.interface.elements@[j].spec_id() == id {
                            assert(pre.interface.elements@[i as int].spec_id() == id);
                            assert(false);
                        }
                    }
                    assert(self.interface.elements@ =~= spec_highlighted(
                        pre.interface.elements@,
                        id,
                        alpha,
                    ));
                    assert forall|j: int|
                        0 <= j < self.interface.elements@.len() implies (
                    #[trigger] self.interface.elements@[j]).spec_id()
                        == pre.interface.elements@[j].spec_id() && self.interface.elements@[j].inv()
                        by {
                        lemma_highlight_preserves(pre.interface.elements@[j], alpha);
                    }
                    assert forall|k: int|
                        0 <= k < self.interface.illegal_ids@.len() implies self.interface.has_element_id(
                        #[trigger] self.interface.illegal_ids@[k],
                    ) by {
                        assert(pre.interface.has_element_id(pre.interface.illegal_ids@[k]));
                        let w = choose|w: int|
                            0 <= w < pre.interface.elements@.len() && (
                            #[trigger] pre.interface.elements@[w]).spec_id()
                                == pre.interface.illegal_ids@[k];
                        assert(self.interface.elements@[w].spec_id()
                            == self.interface.illegal_ids@[k]);
                    }
                }
                return r;
            }
            i = i + 1;
        }
        proof {
            assert(self.interface.elements@ =~= spec_highlighted(
                pre.interface.elements@,
                id,
                alpha,
            ));
        }
        false
    }
}

/// A window event, reduced to the plain values the router decides on.
/// The shell maps OS events into these: only left-button mouse input is
/// routed, and key presses arrive as the literal text they insert.
#[derive(Debug)]
pub enum InputEvent {
    CloseRequested,
    Resized { width: u32, height: u32 },
    RedrawRequested,
    MouseLeftPressed,
    MouseLeftReleased,
    CursorMoved { x: i64, y: i64 },
    TextKey { fragment: String },
    UnknownKey,
}

/// An outside effect the router asks the shell to perform, in order.
#[derive(PartialEq, Eq, Structural, Clone, Copy, Debug)]
pub enum AppAction {
    Exit,
    ResizeRenderer { width: u32, height: u32 },
    Render,
    RebuildInterface,
    RefreshInstanceBuffers,
    RefreshText,
    SetCursorIcon(CursorKind),
    SetOuterPosition { x: i32, y: i32 },
    RequestInnerSize { width: u32, height: u32 },
    RequestRedraw,
    Minimize,
    ToggleMaximize,
    DragWindow,
    RunButtonCallback { id: u32 },
}

/// Whether some element with the given id is a text box.
pub open spec fn spec_is_textbox_at(elems: Seq<Element>, id: u32) -> bool {
    exists|j: int|
        0 <= j < elems.len() && (#[trigger] elems[j]).spec_id() == id && elems[j] is TextBox
}

/// Whether some element with the given id is a button.
pub open spec fn spec_is_button_at(elems: Seq<Element>, id: u32) -> bool {
    exists|j: int|
        0 <= j < elems.len() && (#[trigger] elems[j]).spec_id() == id && elems[j] is Button
}

fn is_textbox_target(interface: &Interface, id: u32) -> (r: bool)
    ensures
        r == spec_is_textbox_at(interface.elements@, id),
{
    let mut i: usize = 0;
    while i < interface.elements.len()
        invariant
            i <= interface.elements@.len(),
            forall|j: int|
                0 <= j < i as int ==> !((#[trigger] interface.elements@[j]).spec_id() == id
                    && interface.elements@[j] is TextBox),
        decreases interface.elements@.len() - i as int,
    {
        let element = &interface.elements[i];
        if element.get_id() == id && matches!(element.get_element_type(), ElementType::TextBox) {
            return true;
        }
        i = i + 1;
    }
    false
}

/// Whether a text-input pass aimed at `id` changes some element: a text
/// box with that id whose text has room for the fragment.
pub open spec fn spec_text_pass_hits(elems: Seq<Element>, id: u32, fragment: Seq<char>) -> bool {
    exists|j: int|
        0 <= j < elems.len() && (#[trigger] elems[j]).spec_id() == id && elems[j] is TextBox
            && elems[j].spec_stored_text()->0.len() + fragment.len() <= MAX_TEXT_LEN
}

/// What a text-input pass does, pointwise: the fragment is appended to
/// each text box with the given id that has room for it (at most one,
/// since ids are unique); everything else is untouched.
pub open spec fn spec_text_pass_rel(
    before: Seq<Element>,
    after: Seq<Element>,
    id: u32,
    fragment: Seq<char>,
) -> bool {
    &&& after.len() == before.len()
    &&& forall|j: int|
        0 <= j < before.len() ==> if ((#[trigger] before[j]).spec_id() == id && before[j] is TextBox
            && before[j].spec_stored_text()->0.len() + fragment.len() <= MAX_TEXT_LEN) {
            Element::spec_text_appended(before[j], #[trigger] after[j], fragment)
        } else {
            after[j] == before[j]
        }
}

/// Appending text leaves identity, variant, geometry and the
/// structural bounds intact.
proof fn lemma_text_append_preserves(a: Element, b: Element, fragment: Seq<char>)
    requires
        Element::spec_text_appended(a, b, fragment),
        a.inv(),
        a.spec_stored_text()->0.len() + fragment.len() <= MAX_TEXT_LEN,
    ensures
        b.spec_id() == a.spec_id(),
        b.inv(),
        (b is TextBox) == (a is TextBox),
        (b is Button) == (a is Button),
        b.spec_geometry_type() == a.spec_geometry_type(),
{
}

fn append_text_at(elements: &mut Vec<Element>, i: usize, fragment: &str)
    requires
        i < old(elements)@.len(),
        old(elements)@[i as int] is TextBox,
        old(elements)@[i as int].spec_stored_text()->0.len() + fragment@.len() <= MAX_TEXT_LEN,
    ensures
        final(elements)@.len() == old(elements)@.len(),
        Element::spec_text_appended(
            old(elements)@[i as int],
            final(elements)@[i as int],
            fragment@,
        ),
        forall|j: int|
            0 <= j < old(elements)@.len() && j != i as int ==> final(elements)@[j] == old(
                elements,
            )@[j],
{
    let element = &mut elements[i];
    element.set_text(fragment);
}

impl AppLogic {
    /// Routes a text fragment to the selected text box: the element
    /// whose id is `prev_hover`, if it is a text box with room left.
    /// Returns whether any text changed.
    pub fn apply_text_input(&mut self, fragment: &str) -> (mutated: bool)
        requires
            old(self).wf(),
            fragment@.len() <= MAX_TEXT_LEN,
        ensures
            final(self).wf(),
            spec_text_pass_rel(
                old(self).interface.elements@,
                final(self).interface.elements@,
                old(self).app_data.prev_hover,
                fragment@,
            ),
            mutated == spec_text_pass_hits(
                old(self).interface.elements@,
                old(self).app_data.prev_hover,
                fragment@,
            ),
            final(self).app_data == old(self).app_data,
            final(self).atlas == old(self).atlas,
            final(self).interface.quad_instances == old(self).interface.quad_instances,
            final(self).interface.label_instances == old(self).interface.label_instances,
            final(self).interface.id_iterator == old(self).interface.id_iterator,
            final(self).interface.illegal_ids == old(self).interface.illegal_ids,
            final(self).interface.atlas == old(self).interface.atlas,
    {
        let ghost pre = *old(self);
        let id = self.app_data.prev_hover;
        let frag_len = fragment.unicode_len();
        let mut mutated = false;
        let mut i: usize = 0;
        while i < self.interface.elements.len()
            invariant
                pre == *old(self),
                pre.wf(),
                id == pre.app_data.prev_hover,
                fragment@.len() <= MAX_TEXT_LEN,
                frag_len == fragment@.len(),
                i <= pre.interface.elements@.len(),
                self.interface.elements@.len() == pre.interface.elements@.len(),
                self.app_data == pre.app_data,
                self.atlas == pre.atlas,
                self.interface.quad_instances == pre.interface.quad_instances,
                self.interface.label_instances == pre.interface.label_instances,
                self.interface.id_iterator == pre.interface.id_iterator,
                self.interface.illegal_ids == pre.interface.illegal_ids,
                self.interface.atlas == pre.interface.atlas,
                forall|j: int|
                    0 <= j < i as int ==> if ((#[trigger] pre.interface.elements@[j]).spec_id()
                        == id && pre.interface.elements@[j] is TextBox
                        && pre.interface.elements@[j].spec_stored_text()->0.len() + fragment@.len()
                        <= MAX_TEXT_LEN) {
                        Element::spec_text_appended(
                            pre.interface.elements@[j],
                            #[trigger] self.interface.elements@[j],
                            fragment@,
                        )
                    } else {
                        self.interface.elements@[j] == pre.interface.elements@[j]
                    },
                forall|j: int|
                    i as int <= j < pre.interface.elements@.len() ==> self.interface.elements@[j]
                        == #[trigger] pre.interface.elements@[j],
                mutated == exists|j: int|
                    0 <= j < i as int && (#[trigger] pre.interface.elements@[j]).spec_id() == id
                        && pre.interface.elements@[j] is TextBox
                        && pre.interface.elements@[j].spec_stored_text()->0.len() + fragment@.len()
                        <= MAX_TEXT_LEN,
            decreases pre.interface.elements@.len() - i as int,
        {
            let element = &self.interface.elements[i];
            if element.get_id() == id && matches!(
                element.get_element_type(),
                ElementType::TextBox,
            ) {
                let room = element.stored_text_len();
                proof {
                    assert(pre.interface.elements@[i as int].inv());
                    assert(room <= MAX_TEXT_LEN);
                }
                if room + frag_len <= MAX_TEXT_LEN {
                    append_text_at(&mut self.interface.elements, i, fragment);
                    mutated = true;
                    proof {
                        assert(exists|j: int|
                            0 <= j < i as int + 1 && (
                            #[trigger] pre.interface.elements@[j]).spec_id() == id
                                && pre.interface.elements@[j] is TextBox
                                && pre.interface.elements@[j].spec_stored_text()->0.len()
                                + fragment@.len() <= MAX_TEXT_LEN) by {
                            assert(pre.interface.elements@[i as int].spec_id() == id);
                        }
                    }
                }
            }
            i = i + 1;
        }
        proof {
            assert forall|j: int| 0 <= j < self.interface.elements@.len() implies (
            #[trigger] self.interface.elements@[j]).spec_id()
                == pre.interface.elements@[j].spec_id() && self.interface.elements@[j].inv() by {
                if pre.interface.elements@[j].spec_id() == id && pre.interface.elements@[j]
                    is TextBox && pre.interface.elements@[j].spec_stored_text()->0.len()
                    + fragment@.len() <= MAX_TEXT_LEN {
                    lemma_text_append_preserves(
                        pre.interface.elements@[j],
                        self.interface.elements@[j],
                        fragment@,
                    );
                }
            }
            assert forall|k: int|
                0 <= k < self.interface.illegal_ids@.len() implies self.interface.has_element_id(
                #[trigger] self.interface.illegal_ids@[k],
            ) by {
                assert(pre.interface.has_element_id(pre.interface.illegal_ids@[k]));
                let w = choose|w: int|
                    0 <= w < pre.interface.elements@.len() && (
                    #[trigger] pre.interface.elements@[w]).spec_id()
                        == pre.interface.illegal_ids@[k];
                assert(self.interface.elements@[w].spec_id() == self.interface.illegal_ids@[k]);
            }
        }
        mutated
    }
}

/// Appends the trailing text-refresh action: while a text box is
/// selected (the selection target is `prev_hover`), its rendered text
/// is re-queued after every event.
pub open spec fn spec_with_text_refresh(
    base: Seq<AppAction>,
    elems: Seq<Element>,
    prev_hover: u32,
    selected: bool,
) -> Seq<AppAction> {
    if selected && spec_is_textbox_at(elems, prev_hover) {
        base.push(AppAction::RefreshText)
    } else {
        base
    }
}

/// The window-level action a propagated click event asks for.
pub open spec fn spec_propagate_action(base: Seq<AppAction>, e: UiEvent) -> Seq<AppAction> {
    match e {
        UiEvent::CloseRequested => base.push(AppAction::Exit),
        UiEvent::SetMinimized => base.push(AppAction::Minimize),
        UiEvent::ResizeRequested => base.push(AppAction::ToggleMaximize),
        UiEvent::TitleBar => base.push(AppAction::DragWindow),
        UiEvent::SetSelected(_, _) => base,
    }
}

/// The actions the default-state handler emits, per event.
pub open spec fn spec_default_actions(
    pre: AppLogic,
    event: InputEvent,
    window_size: [u32; 2],
) -> Seq<AppAction> {
    let elems = pre.interface.elements@;
    let prev = pre.app_data.prev_hover;
    let selected = pre.app_data.selected;
    let last = pre.app_data.last_logged_cursor_position;
    match event {
        InputEvent::CloseRequested => spec_with_text_refresh(
            seq![AppAction::Exit, AppAction::RequestRedraw],
            elems,
            prev,
            selected,
        ),
        InputEvent::Resized { width, height } => spec_with_text_refresh(
            seq![AppAction::ResizeRenderer { width, height }, AppAction::RequestRedraw],
            elems,
            prev,
            selected,
        ).push(AppAction::RebuildInterface),
        InputEvent::RedrawRequested => spec_with_text_refresh(
            seq![AppAction::Render, AppAction::RequestRedraw],
            elems,
            prev,
            selected,
        ),
        InputEvent::MouseLeftPressed => {
            let edge = spec_classify_edge(last, window_size, spec_edge_zone_width(AppState::Default));
            let click = spec_click_result(elems, last, window_size);
            let selected_after = click matches InteractionResult::Propogate(UiEvent::SetSelected(
                _,
                _,
            ));
            let base = seq![AppAction::SetCursorIcon(spec_cursor_for_edge(edge))];
            let dispatched = match click {
                InteractionResult::Success => match spec_hover_target(elems, last, window_size) {
                    Some(id) => base.push(AppAction::RunButtonCallback { id }),
                    Option::None => base,
                },
                InteractionResult::Propogate(e) => spec_propagate_action(base, e),
                InteractionResult::NoInteraction => base,
            };
            spec_with_text_refresh(
                dispatched.push(AppAction::RequestRedraw),
                elems,
                prev,
                selected_after,
            )
        },
        InputEvent::MouseLeftReleased => spec_with_text_refresh(
            seq![AppAction::RequestRedraw],
            elems,
            prev,
            selected,
        ),
        InputEvent::CursorMoved { x, y } => {
            let edge = spec_classify_edge(
                [x, y],
                window_size,
                spec_edge_zone_width(AppState::Default),
            );
            let hover = spec_hover_target(elems, [x, y], window_size);
            let prev_after = match hover {
                Some(c) => if c != prev {
                    c
                } else {
                    prev
                },
                Option::None => prev,
            };
            let base = seq![
                AppAction::SetCursorIcon(spec_cursor_for_edge(edge)),
                AppAction::RequestRedraw,
            ];
            let refreshed = if spec_is_button_at(elems, prev) {
                base.push(AppAction::RefreshInstanceBuffers)
            } else {
                base
            };
            spec_with_text_refresh(refreshed, elems, prev_after, selected)
        },
        InputEvent::TextKey { fragment } => spec_with_text_refresh(
            seq![AppAction::RequestRedraw],
            elems,
            prev,
            selected,
        ),
        InputEvent::UnknownKey => spec_with_text_refresh(
            seq![AppAction::RequestRedraw],
            elems,
            prev,
            selected,
        ),
    }
}

/// A highlight pass keeps every element's identity and variant, so the
/// "is some text box selected" question is unchanged by it.
proof fn lemma_highlighted_same_kinds(elems: Seq<Element>, hid: u32, alpha: u8, id: u32)
    ensures
        spec_is_textbox_at(spec_highlighted(elems, hid, alpha), id) == spec_is_textbox_at(
            elems,
            id,
        ),
{
    let after = spec_highlighted(elems, hid, alpha);
    assert forall|j: int| 0 <= j < elems.len() implies (#[trigger] after[j]).spec_id()
        == elems[j].spec_id() && ((after[j] is TextBox) == (elems[j] is TextBox)) by {
        lemma_highlight_preserves(elems[j], alpha);
    }
    if spec_is_textbox_at(elems, id) {
        let j = choose|j: int|
            0 <= j < elems.len() && (#[trigger] elems[j]).spec_id() == id && elems[j] is TextBox;
        assert(after[j].spec_id() == id && after[j] is TextBox);
    }
    if spec_is_textbox_at(after, id) {
        let j = choose|j: int|
            0 <= j < after.len() && (#[trigger] after[j]).spec_id() == id && after[j] is TextBox;
        assert(elems[j].spec_id() == id && elems[j] is TextBox);
    }
}

/// A text-input pass keeps every element's identity and variant, so it
/// does not change which ids name text boxes.
proof fn lemma_text_pass_same_kinds(
    before: Seq<Element>,
    after: Seq<Element>,
    hid: u32,
    fragment: Seq<char>,
    id: u32,
)
    requires
        spec_text_pass_rel(before, after, hid, fragment),
        forall|j: int| 0 <= j < before.len() ==> (#[trigger] before[j]).inv(),
    ensures
        spec_is_textbox_at(after, id) == spec_is_textbox_at(before, id),
{
    assert forall|j: int| 0 <= j < before.len() implies (#[trigger] after[j]).spec_id()
        == before[j].spec_id() && ((after[j] is TextBox) == (before[j] is TextBox)) by {
        if before[j].spec_id() == hid && before[j] is TextBox
            && before[j].spec_stored_text()->0.len() + fragment.len() <= MAX_TEXT_LEN {
            lemma_text_append_preserves(before[j], after[j], fragment);
        }
    }
    if spec_is_textbox_at(before, id) {
        let j = choose|j: int|
            0 <= j < before.len() && (#[trigger] before[j]).spec_id() == id && before[j] is TextBox;
        assert(after[j].spec_id() == id && after[j] is TextBox);
    }
    if spec_is_textbox_at(after, id) {
        let j = choose|j: int|
            0 <= j < after.len() && (#[trigger] after[j]).spec_id() == id && after[j] is TextBox;
        assert(before[j].spec_id() == id && before[j] is TextBox);
    }
}

impl AppLogic {
    /// Routes one event while no drag-resize is under way. Hover moves
    /// update the highlight bookkeeping; a left press clears the
    /// selection, may start a resize (the state machine's
    /// default-to-resizing transition), and dispatches the click on the
    /// topmost element; text is routed to the selected text box.
    pub fn default_state_event_handler(&mut self, event: &InputEvent, window_size: [u32; 2]) -> (r:
        Vec<AppAction>)
        requires
            old(self).wf(),
            old(self).app_data.state == AppState::Default,
            *event matches InputEvent::CursorMoved { x, y } ==> -CURSOR_COORD_LIMIT <= x
                <= CURSOR_COORD_LIMIT && -CURSOR_COORD_LIMIT <= y <= CURSOR_COORD_LIMIT,
            *event matches InputEvent::TextKey { fragment } ==> fragment@.len() <= MAX_TEXT_LEN,
        ensures
            final(self).wf(),
            r@ == spec_default_actions(*old(self), *event, window_size),
            // The state machine: a left press in a resize zone starts a
            // drag; nothing else leaves the default state.
            *event matches InputEvent::MouseLeftPressed ==> final(self).app_data.state == (
            if spec_classify_edge(
                old(self).app_data.last_logged_cursor_position,
                window_size,
                spec_edge_zone_width(AppState::Default),
            ) != Edge::NoEdge {
                AppState::Resizing
            } else {
                AppState::Default
            }),
            !(*event matches InputEvent::MouseLeftPressed) ==> final(self).app_data.state
                == AppState::Default,
            // Cursor bookkeeping.
            *event matches InputEvent::CursorMoved { x, y } ==> {
                let hover = spec_hover_target(old(self).interface.elements@, [x, y], window_size);
                &&& final(self).app_data.last_logged_cursor_position@ == seq![x, y]
                &&& final(self).app_data.curr_hover == hover
                &&& final(self).app_data.prev_hover == (match hover {
                    Some(c) => if c != old(self).app_data.prev_hover {
                        c
                    } else {
                        old(self).app_data.prev_hover
                    },
                    Option::None => old(self).app_data.prev_hover,
                })
                &&& final(self).interface.elements@ == spec_highlighted(
                    old(self).interface.elements@,
                    old(self).app_data.prev_hover,
                    if hover == Some(old(self).app_data.prev_hover) {
                        255u8
                    } else {
                        0u8
                    },
                )
            },
            !(*event matches InputEvent::CursorMoved { x, y }) ==> {
                &&& final(self).app_data.last_logged_cursor_position == old(self).app_data.last_logged_cursor_position
                &&& final(self).app_data.curr_hover == old(self).app_data.curr_hover
                &&& final(self).app_data.prev_hover == old(self).app_data.prev_hover
            },
            // Selection: a left press clears it, then a propagated
            // selection request sets it; nothing else touches it.
            *event matches InputEvent::MouseLeftPressed ==> final(self).app_data.selected == (
            spec_click_result(
                old(self).interface.elements@,
                old(self).app_data.last_logged_cursor_position,
                window_size,
            ) matches InteractionResult::Propogate(UiEvent::SetSelected(_, _))),
            !(*event matches InputEvent::MouseLeftPressed) ==> final(self).app_data.selected
                == old(self).app_data.selected,
            // Element mutation: only hover highlighting and routed text.
            *event matches InputEvent::TextKey { fragment } ==> if old(self).app_data.selected {
                spec_text_pass_rel(
                    old(self).interface.elements@,
                    final(self).interface.elements@,
                    old(self).app_data.prev_hover,
                    fragment@,
                )
            } else {
                final(self).interface.elements@ == old(self).interface.elements@
            },
            !(*event matches InputEvent::CursorMoved { x, y }) && !(*event
                matches InputEvent::TextKey { fragment }) ==> final(self).interface.elements@
                == old(self).interface.elements@,
            final(self).atlas == old(self).atlas,
            final(self).interface.quad_instances == old(self).interface.quad_instances,
            final(self).interface.label_instances == old(self).interface.label_instances,
            final(self).interface.id_iterator == old(self).interface.id_iterator,
            final(self).interface.illegal_ids == old(self).interface.illegal_ids,
            final(self).interface.atlas == old(self).interface.atlas,
    {
        let ghost pre = *old(self);
        let mut actions: Vec<AppAction> = Vec::new();
        match event {
            InputEvent::CloseRequested => {
                actions.push(AppAction::Exit);
                actions.push(AppAction::RequestRedraw);
            },
            InputEvent::Resized { width, height } => {
                actions.push(AppAction::ResizeRenderer { width: *width, height: *height });
                actions.push(AppAction::RequestRedraw);
            },
            InputEvent::RedrawRequested => {
                actions.push(AppAction::Render);
                actions.push(AppAction::RequestRedraw);
            },
            InputEvent::MouseLeftPressed => {
                self.app_data.selected = false;
                let last = self.app_data.last_logged_cursor_position;
                let edge = self.handle_resizing(last, window_size);
                actions.push(AppAction::SetCursorIcon(cursor_for_edge(edge)));
                if !matches!(edge, Edge::NoEdge) {
                    self.app_data.state = AppState::Resizing;
                }
                match self.handle_click(last, window_size) {
                    InteractionResult::Success => {
                        match self.handle_hover(last, window_size) {
                            Some(id) => actions.push(AppAction::RunButtonCallback { id }),
                            Option::None => {},
                        }
                    },
                    InteractionResult::Propogate(ui_event) => {
                        match ui_event {
                            UiEvent::CloseRequested => actions.push(AppAction::Exit),
                            UiEvent::SetMinimized => actions.push(AppAction::Minimize),
                            UiEvent::ResizeRequested => actions.push(AppAction::ToggleMaximize),
                            UiEvent::TitleBar => actions.push(AppAction::DragWindow),
                            UiEvent::SetSelected(_, _) => {
                                self.app_data.selected = true;
                            },
                        }
                    },
                    InteractionResult::NoInteraction => {},
                }
                actions.push(AppAction::RequestRedraw);
            },
            InputEvent::MouseLeftReleased => {
                actions.push(AppAction::RequestRedraw);
            },
            InputEvent::CursorMoved { x, y } => {
                let position = [*x, *y];
                let edge = self.handle_resizing(position, window_size);
                actions.push(AppAction::SetCursorIcon(cursor_for_edge(edge)));
                actions.push(AppAction::RequestRedraw);
                self.app_data.last_logged_cursor_position = position;
                let hover = self.handle_hover(position, window_size);
                self.app_data.curr_hover = hover;
                let needs_update: bool;
                match hover {
                    Some(curr_hover) => {
                        if curr_hover != self.app_data.prev_hover {
                            needs_update = self.highlight(0);
                            self.app_data.prev_hover = curr_hover;
                        } else {
                            needs_update = self.highlight(255);
                        }
                    },
                    Option::None => {
                        needs_update = self.highlight(0);
                    },
                }
                if needs_update {
                    actions.push(AppAction::RefreshInstanceBuffers);
                }
                proof {
                    lemma_highlighted_same_kinds(
                        pre.interface.elements@,
                        pre.app_data.prev_hover,
                        if spec_hover_target(pre.interface.elements@, position, window_size)
                            == Some(pre.app_data.prev_hover) {
                            255u8
                        } else {
                            0u8
                        },
                        self.app_data.prev_hover,
                    );
                    assert(self.app_data.last_logged_cursor_position@ =~= seq![*x, *y]);
                }
            },
            InputEvent::TextKey { fragment } => {
                actions.push(AppAction::RequestRedraw);
                if self.app_data.selected {
                    let _mutated = self.apply_text_input(fragment.as_str());
                    proof {
                        lemma_text_pass_same_kinds(
                            pre.interface.elements@,
                            self.interface.elements@,
                            pre.app_data.prev_hover,
                            fragment@,
                            self.app_data.prev_hover,
                        );
                    }
                }
            },
            InputEvent::UnknownKey => {
                actions.push(AppAction::RequestRedraw);
            },
        }
        if self.app_data.selected && is_textbox_target(&self.interface, self.app_data.prev_hover) {
            actions.push(AppAction::RefreshText);
        }
        match event {
            InputEvent::Resized { .. } => actions.push(AppAction::RebuildInterface),
            _ => {},
        }
        proof {
            match event {
                InputEvent::CloseRequested => {
                    assert(actions@ =~= spec_default_actions(pre, *event, window_size));
                },
                InputEvent::Resized { .. } => {
                    assert(actions@ =~= spec_default_actions(pre, *event, window_size));
                },
                InputEvent::RedrawRequested => {
                    assert(actions@ =~= spec_default_actions(pre, *event, window_size));
                },
                InputEvent::MouseLeftPressed => {
                    assert(actions@ =~= spec_default_actions(pre, *event, window_size));
                },
                InputEvent::MouseLeftReleased => {
                    assert(actions@ =~= spec_default_actions(pre, *event, window_size));
                },
                InputEvent::CursorMoved { .. } => {
                    assert(actions@ =~= spec_default_actions(pre, *event, window_size));
                },
                InputEvent::TextKey { .. } => {
                    assert(actions@ =~= spec_default_actions(pre, *event, window_size));
                },
                InputEvent::UnknownKey => {
                    assert(actions@ =~= spec_default_actions(pre, *event, window_size));
                },
            }
        }
        actions
    }

    /// The actions the resizing-state handler emits, per event.
    pub open spec fn spec_resizing_actions(
        pre: AppLogic,
        event: InputEvent,
        window_size: [u32; 2],
        outer_position: [i32; 2],
    ) -> Seq<AppAction> {
        match event {
            InputEvent::Resized { width, height } => seq![
                AppAction::ResizeRenderer { width, height },
                AppAction::RequestRedraw,
            ],
            InputEvent::RedrawRequested => seq![AppAction::RebuildInterface, AppAction::Render],
            InputEvent::CursorMoved { x, y } => {
                let edge = spec_classify_edge(
                    [x, y],
                    window_size,
                    spec_edge_zone_width(AppState::Resizing),
                );
                let base = seq![AppAction::SetCursorIcon(spec_cursor_for_edge(edge))];
                if edge == Edge::NoEdge {
                    base.push(AppAction::RequestRedraw)
                } else {
                    let delta = [
                        (x - pre.app_data.last_logged_cursor_position[0]) as i64,
                        (y - pre.app_data.last_logged_cursor_position[1]) as i64,
                    ];
                    let plan = spec_resize_plan(edge, window_size, outer_position[0], delta);
                    base.push(
                        AppAction::SetOuterPosition {
                            x: plan.new_position_x,
                            y: outer_position[1],
                        },
                    ).push(
                        AppAction::RequestInnerSize {
                            width: plan.new_width,
                            height: plan.new_height,
                        },
                    ).push(AppAction::RequestRedraw)
                }
            },
            _ => Seq::empty(),
        }
    }

    /// Routes one event while a drag-resize is under way: hover, click
    /// and text input are suppressed; cursor motion drives the window
    /// geometry live, releasing the button ends the drag, and losing
    /// every resize zone aborts it.
    pub fn resizing_state_event_handler(
        &mut self,
        event: &InputEvent,
        window_size: [u32; 2],
        outer_position: [i32; 2],
    ) -> (r: Vec<AppAction>)
        requires
            old(self).wf(),
            old(self).app_data.state == AppState::Resizing,
            *event matches InputEvent::CursorMoved { x, y } ==> -CURSOR_COORD_LIMIT <= x
                <= CURSOR_COORD_LIMIT && -CURSOR_COORD_LIMIT <= y <= CURSOR_COORD_LIMIT,
        ensures
            final(self).wf(),
            r@ == Self::spec_resizing_actions(*old(self), *event, window_size, outer_position),
            // The state machine: release ends the drag; so does cursor
            // motion that leaves every resize zone.
            *event matches InputEvent::MouseLeftReleased ==> final(self).app_data.state
                == AppState::Default,
            *event matches InputEvent::CursorMoved { x, y } ==> final(self).app_data.state == (
            if spec_classify_edge([x, y], window_size, spec_edge_zone_width(AppState::Resizing))
                == Edge::NoEdge {
                AppState::Default
            } else {
                AppState::Resizing
            }),
            !(*event matches InputEvent::MouseLeftReleased) && !(*event
                matches InputEvent::CursorMoved { x, y }) ==> final(self).app_data.state
                == AppState::Resizing,
            *event matches InputEvent::CursorMoved { x, y } ==> final(self).app_data.last_logged_cursor_position@
                == seq![x, y],
            !(*event matches InputEvent::CursorMoved { x, y }) ==> final(self).app_data.last_logged_cursor_position
                == old(self).app_data.last_logged_cursor_position,
            final(self).app_data.curr_hover == old(self).app_data.curr_hover,
            final(self).app_data.prev_hover == old(self).app_data.prev_hover,
            final(self).app_data.selected == old(self).app_data.selected,
            final(self).interface == old(self).interface,
            final(self).atlas == old(self).atlas,
    {
        let ghost pre = *old(self);
        let mut actions: Vec<AppAction> = Vec::new();
        match event {
            InputEvent::Resized { width, height } => {
                actions.push(AppAction::ResizeRenderer { width: *width, height: *height });
                actions.push(AppAction::RequestRedraw);
            },
            InputEvent::RedrawRequested => {
                actions.push(AppAction::RebuildInterface);
                actions.push(AppAction::Render);
            },
            InputEvent::MouseLeftReleased => {
                self.app_data.state = AppState::Default;
            },
            InputEvent::CursorMoved { x, y } => {
                let position = [*x, *y];
                let edge = self.handle_resizing(position, window_size);
                actions.push(AppAction::SetCursorIcon(cursor_for_edge(edge)));
                if matches!(edge, Edge::NoEdge) {
                    self.app_data.state = AppState::Default;
                    actions.push(AppAction::RequestRedraw);
                } else {
                    let last = self.app_data.last_logged_cursor_position;
                    let delta = [*x - last[0], *y - last[1]];
                    let plan = compute_resize(edge, window_size, outer_position[0], delta);
                    actions.push(
                        AppAction::SetOuterPosition {
                            x: plan.new_position_x,
                            y: outer_position[1],
                        },
                    );
                    actions.push(
                        AppAction::RequestInnerSize {
                            width: plan.new_width,
                            height: plan.new_height,
                        },
                    );
                    actions.push(AppAction::RequestRedraw);
                }
                self.app_data.last_logged_cursor_position = position;
                proof {
                    assert(self.app_data.last_logged_cursor_position@ =~= seq![*x, *y]);
                }
            },
            _ => {},
        }
        proof {
            assert(actions@ =~= Self::spec_resizing_actions(
                pre,
                *event,
                window_size,
                outer_position,
            ));
        }
        actions
    }
}

} // verus!
