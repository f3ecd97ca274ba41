//! The UI element model: five element variants behind one uniform
//! capability surface (geometry, color, text, hit-testing, layering,
//! click handling, highlighting).
//!
//! Relative positions and scales are thousandths of the window size,
//! center-anchored; absolute positions are pixels. Half-extent tests
//! are carried out on doubled coordinates so no halving ever rounds.

use vstd::prelude::*;

use crate::definitions::Color;
use crate::definitions::GeometryType;
use crate::definitions::MILLI;

verus! {

/// A bound on relative coordinates (a thousand times the window size);
/// it keeps all pixel arithmetic inside `i64`.
pub const REL_LIMIT: u32 = 1_000_000;

/// A bound on stored text length, in characters.
pub const MAX_TEXT_LEN: usize = 100_000_000;

/// A bound on the absolute pixel coordinates an element can reach
/// under `REL_LIMIT` and `MAX_TEXT_LEN`.
pub const POS_LIMIT: i64 = 0x20_0000_0000_0000;

/// How long the text cursor stays lit or dark, in milliseconds.
pub const BLINK_RATE_MS: u64 = 500;

/// A window-level action requested by an element's click handler,
/// propagated upward for the windowing shell to execute.
#[derive(PartialEq, Eq, Structural, Clone, Copy, Debug)]
pub enum UiEvent {
    CloseRequested,
    SetMinimized,
    ResizeRequested,
    TitleBar,
    SetSelected(u32, ElementType),
}

/// What a click on an element produced: consumed locally (`Success`),
/// bubbled to the window level (`Propogate`), or nothing.
#[derive(PartialEq, Eq, Structural, Clone, Copy, Debug)]
pub enum InteractionResult {
    Success,
    Propogate(UiEvent),
    NoInteraction,
}

/// The element variant tag.
#[derive(PartialEq, Eq, Structural, Clone, Copy, Debug)]
pub enum ElementType {
    Panel,
    Button,
    Label,
    Icon,
    TextBox,
}

/// What a button does when clicked: run the callback its owner
/// registered with its id, or emit a window-level event.
#[derive(PartialEq, Eq, Structural, Clone, Copy, Debug)]
pub enum ButtonAction {
    RunCallback,
    Emit(UiEvent),
}

/// A decorative or structural rectangle. The panel with id 0 is the
/// title bar and propagates window dragging when clicked.
#[derive(Debug)]
pub struct Panel {
    pub id: u32,
    pub geometry_type: GeometryType,
    pub relative_position: [u32; 2],
    pub color: Color,
    pub relative_scale: [u32; 2],
    pub texture_name: String,
}

/// A clickable rectangle with an optional action and hover highlight.
#[derive(Debug)]
pub struct Button {
    pub id: u32,
    pub geometry_type: GeometryType,
    pub relative_position: [u32; 2],
    pub color: Color,
    pub relative_scale: [u32; 2],
    pub action: Option<ButtonAction>,
    pub texture_name: String,
}

/// Non-interactive text.
#[derive(Debug)]
pub struct Label {
    pub id: u32,
    pub geometry_type: GeometryType,
    pub text: String,
    pub color: Color,
    pub relative_position: [u32; 2],
    pub relative_scale: [u32; 2],
    pub relative_bounds: Option<[u32; 2]>,
}

/// A small decoration whose scale is given directly in pixels.
#[derive(Debug)]
pub struct Icon {
    pub id: u32,
    pub geometry_type: GeometryType,
    pub relative_position: [u32; 2],
    pub color: Color,
    pub relative_scale: [u32; 2],
    pub texture_name: String,
}

/// Editable text with a placeholder and a blinking cursor glyph.
#[derive(Debug)]
pub struct TextBox {
    pub id: u32,
    pub geometry_type: GeometryType,
    pub text: String,
    pub placeholder: String,
    pub color: Color,
    pub relative_position: [u32; 2],
    pub relative_scale: [u32; 2],
    pub relative_bounds: Option<[u32; 2]>,
    pub is_cursor_visible: bool,
}

impl Panel {
    pub fn new(
        relative_position: [u32; 2],
        color: Color,
        relative_scale: [u32; 2],
        texture_name: &str,
    ) -> (r: Self)
        requires
            relative_position[0] <= REL_LIMIT,
            relative_position[1] <= REL_LIMIT,
            relative_scale[0] <= REL_LIMIT,
            relative_scale[1] <= REL_LIMIT,
        ensures
            r.id == 0,
            r.geometry_type == GeometryType::Quad,
            r.relative_position == relative_position,
            r.color == color,
            r.relative_scale == relative_scale,
            r.texture_name@ == texture_name@,
    {
        Self {
            id: 0,
            geometry_type: GeometryType::Quad,
            relative_position,
            color,
            relative_scale,
            texture_name: texture_name.to_owned(),
        }
    }
}

impl Button {
    pub fn new(
        relative_position: [u32; 2],
        color: Color,
        relative_scale: [u32; 2],
        texture_name: &str,
    ) -> (r: Self)
        requires
            relative_position[0] <= REL_LIMIT,
            relative_position[1] <= REL_LIMIT,
            relative_scale[0] <= REL_LIMIT,
            relative_scale[1] <= REL_LIMIT,
        ensures
            r.id == 0,
            r.geometry_type == GeometryType::Quad,
            r.relative_position == relative_position,
            r.color == color,
            r.relative_scale == relative_scale,
            r.action is None,
            r.texture_name@ == texture_name@,
    {
        Self {
            id: 0,
            geometry_type: GeometryType::Quad,
            relative_position,
            color,
            relative_scale,
            action: Option::None,
            texture_name: texture_name.to_owned(),
        }
    }

    /// Registers a window-level event to propagate on click.
    pub fn with_prop_fn(self, event: UiEvent) -> (r: Self)
        ensures
            r == (Button { action: Some(ButtonAction::Emit(event)), ..self }),
    {
        Button { action: Some(ButtonAction::Emit(event)), ..self }
    }

    /// Marks the button as running a locally registered callback on
    /// click; the shell dispatches the callback by element id.
    pub fn with_fn(self) -> (r: Self)
        ensures
            r == (Button { action: Some(ButtonAction::RunCallback), ..self }),
    {
        Button { action: Some(ButtonAction::RunCallback), ..self }
    }
}

impl Label {
    pub fn new(
        text: &str,
        relative_position: [u32; 2],
        relative_scale: [u32; 2],
        color: Color,
    ) -> (r: Self)
        requires
            relative_position[0] <= REL_LIMIT,
            relative_position[1] <= REL_LIMIT,
            relative_scale[0] <= REL_LIMIT,
            relative_scale[1] <= REL_LIMIT,
            text@.len() <= MAX_TEXT_LEN,
        ensures
            r.id == 0,
            r.geometry_type == GeometryType::Label,
            r.text@ == text@,
            r.color == color,
            r.relative_position == relative_position,
            r.relative_scale == relative_scale,
            r.relative_bounds is None,
    {
        Self {
            id: 0,
            geometry_type: GeometryType::Label,
            text: text.to_owned(),
            color,
            relative_position,
            relative_scale,
            relative_bounds: Option::None,
        }
    }

    /// Sets a wrap box of the given width and a 30-pixel line height.
    pub fn with_bounds(self, relative_bounds: u32) -> (r: Self)
        ensures
            r == (Label { relative_bounds: Some([relative_bounds, 30u32]), ..self }),
    {
        Label { relative_bounds: Some([relative_bounds, 30]), ..self }
    }
}

impl Icon {
    pub fn new(
        relative_position: [u32; 2],
        color: Color,
        relative_scale: [u32; 2],
        texture_name: &str,
    ) -> (r: Self)
        requires
            relative_position[0] <= REL_LIMIT,
            relative_position[1] <= REL_LIMIT,
            relative_scale[0] <= REL_LIMIT,
            relative_scale[1] <= REL_LIMIT,
        ensures
            r.id == 0,
            r.geometry_type == GeometryType::Quad,
            r.relative_position == relative_position,
            r.color == color,
            r.relative_scale == relative_scale,
            r.texture_name@ == texture_name@,
    {
        Self {
            id: 0,
            geometry_type: GeometryType::Quad,
            relative_position,
            color,
            relative_scale,
            texture_name: texture_name.to_owned(),
        }
    }
}

impl TextBox {
    pub fn new(
        text: &str,
        relative_position: [u32; 2],
        relative_scale: [u32; 2],
        color: Color,
    ) -> (r: Self)
        requires
            relative_position[0] <= REL_LIMIT,
            relative_position[1] <= REL_LIMIT,
            relative_scale[0] <= REL_LIMIT,
            relative_scale[1] <= REL_LIMIT,
            text@.len() <= MAX_TEXT_LEN,
        ensures
            r.id == 0,
            r.geometry_type == GeometryType::Label,
            r.text@ == text@,
            r.placeholder@ == "Enter Text..."@,
            r.color == color,
            r.relative_position == relative_position,
            r.relative_scale == relative_scale,
            r.relative_bounds is None,
            r.is_cursor_visible == false,
    {
        Self {
            id: 0,
            geometry_type: GeometryType::Label,
            text: text.to_owned(),
            placeholder: "Enter Text...".to_owned(),
            color,
            relative_position,
            relative_scale,
            relative_bounds: Option::None,
            is_cursor_visible: false,
        }
    }

    /// Sets a wrap box of the given width and a 30-pixel line height.
    pub fn with_bounds(self, relative_bounds: u32) -> (r: Self)
        ensures
            r == (TextBox { relative_bounds: Some([relative_bounds, 30u32]), ..self }),
    {
        TextBox { relative_bounds: Some([relative_bounds, 30]), ..self }
    }

    /// The string one render pass shows: the placeholder when the text
    /// is empty, otherwise the text, with the cursor glyph appended
    /// while the cursor is lit or a blink interval has elapsed.
    pub open spec fn spec_rendered_text(self, elapsed_ms: u64) -> Seq<char> {
        if self.text@.len() == 0 {
            self.placeholder@
        } else if self.is_cursor_visible || elapsed_ms >= BLINK_RATE_MS {
            self.text@.push('|')
        } else {
            self.text@
        }
    }

    /// The cursor flag toggles when a blink interval has elapsed and
    /// there is text to blink against; nothing else changes.
    pub open spec fn spec_after_render(self, elapsed_ms: u64) -> TextBox {
        if self.text@.len() > 0 && elapsed_ms >= BLINK_RATE_MS {
            TextBox { is_cursor_visible: !self.is_cursor_visible, ..self }
        } else {
            self
        }
    }

    /// Produces the text one render pass shows, advancing the blink
    /// state when `elapsed_ms` (milliseconds since the last toggle)
    /// has reached the blink interval. Does not change the stored text.
    pub fn render_text(&mut self, elapsed_ms: u64) -> (r: String)
        requires
            old(self).text@.len() <= MAX_TEXT_LEN,
        ensures
            r@ == old(self).spec_rendered_text(elapsed_ms),
            *final(self) == old(self).spec_after_render(elapsed_ms),
    {
        proof {
            reveal_strlit("|");
        }
        let mut final_text = self.text.clone();
        if self.is_cursor_visible {
            final_text.append("|");
        }
        if elapsed_ms >= BLINK_RATE_MS && self.text.unicode_len() != 0 {
            self.is_cursor_visible = !self.is_cursor_visible;
            if self.is_cursor_visible {
                final_text = self.text.clone();
                final_text.append("|");
            }
        }
        proof {
            assert(self.text@.push('|') =~= self.text@ + "|"@);
        }
        if self.text.unicode_len() == 0 {
            self.placeholder.clone()
        } else {
            final_text
        }
    }
}

/// A UI primitive: one of the five variants behind the uniform
/// capability surface.
#[derive(Debug)]
pub enum Element {
    Panel(Panel),
    Button(Button),
    Label(Label),
    Icon(Icon),
    TextBox(TextBox),
}

/// The relative-to-absolute position conversion: thousandths of the
/// window dimension, rounded down.
pub open spec fn spec_scaled(rel: u32, dim: u32) -> int {
    (rel * dim) / (MILLI as int)
}

fn scaled_px(rel: u32, dim: u32) -> (r: i64)
    requires
        rel <= REL_LIMIT,
    ensures
        r == spec_scaled(rel, dim),
        0 <= r <= REL_LIMIT as int * u32::MAX as int / MILLI as int,
{
    proof {
        assert(rel as int * dim as int <= REL_LIMIT as int * u32::MAX as int) by (nonlinear_arith)
            requires
                rel <= REL_LIMIT,
                dim <= u32::MAX,
        ;
        vstd::arithmetic::div_mod::lemma_div_is_ordered(
            rel as int * dim as int,
            REL_LIMIT as int * u32::MAX as int,
            MILLI as int,
        );
        vstd::arithmetic::div_mod::lemma_div_pos_is_pos(rel as int * dim as int, MILLI as int);
    }
    ((rel as u64 * dim as u64) / MILLI as u64) as i64
}

/// Text variants are anchored at the visual center of their rendered
/// text: half the measured extent (15 pixels per character, 30 pixels
/// high) is subtracted from the scaled position.
pub open spec fn spec_text_offset(text: Seq<char>) -> int {
    (text.len() as int * 15) / 2
}

impl Element {
    /// Structural bounds every element the library handles satisfies;
    /// they keep pixel arithmetic inside `i64`.
    pub open spec fn inv(self) -> bool {
        match self {
            Element::Panel(p) => p.relative_position[0] <= REL_LIMIT && p.relative_position[1]
                <= REL_LIMIT && p.relative_scale[0] <= REL_LIMIT && p.relative_scale[1]
                <= REL_LIMIT,
            Element::Button(b) => b.relative_position[0] <= REL_LIMIT && b.relative_position[1]
                <= REL_LIMIT && b.relative_scale[0] <= REL_LIMIT && b.relative_scale[1]
                <= REL_LIMIT,
            Element::Label(l) => l.relative_position[0] <= REL_LIMIT && l.relative_position[1]
                <= REL_LIMIT && l.relative_scale[0] <= REL_LIMIT && l.relative_scale[1]
                <= REL_LIMIT && l.text@.len() <= MAX_TEXT_LEN,
            Element::Icon(i) => i.relative_position[0] <= REL_LIMIT && i.relative_position[1]
                <= REL_LIMIT && i.relative_scale[0] <= REL_LIMIT && i.relative_scale[1]
                <= REL_LIMIT,
            Element::TextBox(t) => t.relative_position[0] <= REL_LIMIT && t.relative_position[1]
                <= REL_LIMIT && t.relative_scale[0] <= REL_LIMIT && t.relative_scale[1]
                <= REL_LIMIT && t.text@.len() <= MAX_TEXT_LEN && t.placeholder@.len()
                <= MAX_TEXT_LEN,
        }
    }

    pub open spec fn spec_id(self) -> u32 {
        match self {
            Element::Panel(p) => p.id,
            Element::Button(b) => b.id,
            Element::Label(l) => l.id,
            Element::Icon(i) => i.id,
            Element::TextBox(t) => t.id,
        }
    }

    /// The same element under a different id.
    pub open spec fn spec_with_id(self, id: u32) -> Element {
        match self {
            Element::Panel(p) => Element::Panel(Panel { id, ..p }),
            Element::Button(b) => Element::Button(Button { id, ..b }),
            Element::Label(l) => Element::Label(Label { id, ..l }),
            Element::Icon(i) => Element::Icon(Icon { id, ..i }),
            Element::TextBox(t) => Element::TextBox(TextBox { id, ..t }),
        }
    }

    pub open spec fn spec_geometry_type(self) -> GeometryType {
        match self {
            Element::Panel(p) => p.geometry_type,
            Element::Button(b) => b.geometry_type,
            Element::Label(l) => l.geometry_type,
            Element::Icon(i) => i.geometry_type,
            Element::TextBox(t) => t.geometry_type,
        }
    }

    pub open spec fn spec_element_type(self) -> ElementType {
        match self {
            Element::Panel(_) => ElementType::Panel,
            Element::Button(_) => ElementType::Button,
            Element::Label(_) => ElementType::Label,
            Element::Icon(_) => ElementType::Icon,
            Element::TextBox(_) => ElementType::TextBox,
        }
    }

    pub open spec fn spec_color(self) -> Color {
        match self {
            Element::Panel(p) => p.color,
            Element::Button(b) => b.color,
            Element::Label(l) => l.color,
            Element::Icon(i) => i.color,
            Element::TextBox(t) => t.color,
        }
    }

    /// The atlas key: the element's texture name, for textured
    /// variants.
    pub open spec fn spec_texture_name(self) -> Option<Seq<char>> {
        match self {
            Element::Panel(p) => Some(p.texture_name@),
            Element::Button(b) => Some(b.texture_name@),
            Element::Label(_) => Option::None,
            Element::Icon(i) => Some(i.texture_name@),
            Element::TextBox(_) => Option::None,
        }
    }

    /// The stored (un-rendered) text of text-bearing variants.
    pub open spec fn spec_stored_text(self) -> Option<Seq<char>> {
        match self {
            Element::Label(l) => Some(l.text@),
            Element::TextBox(t) => Some(t.text@),
            _ => Option::None,
        }
    }

    pub open spec fn spec_bounds(self) -> Option<[u32; 2]> {
        match self {
            Element::Label(l) => l.relative_bounds,
            Element::TextBox(t) => t.relative_bounds,
            _ => Option::None,
        }
    }

    pub open spec fn spec_relative_position(self) -> [u32; 2] {
        match self {
            Element::Panel(p) => p.relative_position,
            Element::Button(b) => b.relative_position,
            Element::Label(l) => l.relative_position,
            Element::Icon(i) => i.relative_position,
            Element::TextBox(t) => t.relative_position,
        }
    }

    pub open spec fn spec_relative_scale(self) -> [u32; 2] {
        match self {
            Element::Panel(p) => p.relative_scale,
            Element::Button(b) => b.relative_scale,
            Element::Label(l) => l.relative_scale,
            Element::Icon(i) => i.relative_scale,
            Element::TextBox(t) => t.relative_scale,
        }
    }

    /// The absolute pixel x of the element's anchor.
    pub open spec fn spec_position_x(self, window_size: [u32; 2]) -> int {
        match self {
            Element::Label(l) => spec_scaled(l.relative_position[0], window_size[0])
                - spec_text_offset(l.text@),
            Element::TextBox(t) => spec_scaled(t.relative_position[0], window_size[0])
                - spec_text_offset(t.text@),
            _ => spec_scaled(self.spec_relative_position()[0], window_size[0]),
        }
    }

    /// The absolute pixel y of the element's anchor.
    pub open spec fn spec_position_y(self, window_size: [u32; 2]) -> int {
        match self {
            Element::Label(_) => spec_scaled(self.spec_relative_position()[1], window_size[1])
                - 15,
            Element::TextBox(_) => spec_scaled(self.spec_relative_position()[1], window_size[1])
                - 15,
            _ => spec_scaled(self.spec_relative_position()[1], window_size[1]),
        }
    }

    /// The absolute pixel scale; an icon's scale is already in pixels.
    pub open spec fn spec_scale_x(self, window_size: [u32; 2]) -> int {
        match self {
            Element::Icon(i) => i.relative_scale[0] as int,
            _ => spec_scaled(self.spec_relative_scale()[0], window_size[0]),
        }
    }

    pub open spec fn spec_scale_y(self, window_size: [u32; 2]) -> int {
        match self {
            Element::Icon(i) => i.relative_scale[1] as int,
            _ => spec_scaled(self.spec_relative_scale()[1], window_size[1]),
        }
    }

    pub fn get_id(&self) -> (r: u32)
        ensures
            r == self.spec_id(),
    {
        match self {
            Element::Panel(p) => p.id,
            Element::Button(b) => b.id,
            Element::Label(l) => l.id,
            Element::Icon(i) => i.id,
            Element::TextBox(t) => t.id,
        }
    }

    pub fn set_id(&mut self, id: u32)
        ensures
            *final(self) == old(self).spec_with_id(id),
    {
        match self {
            Element::Panel(p) => p.id = id,
            Element::Button(b) => b.id = id,
            Element::Label(l) => l.id = id,
            Element::Icon(i) => i.id = id,
            Element::TextBox(t) => t.id = id,
        }
    }

    pub fn get_geometry_type(&self) -> (r: GeometryType)
        ensures
            r == self.spec_geometry_type(),
    {
        match self {
            Element::Panel(p) => p.geometry_type,
            Element::Button(b) => b.geometry_type,
            Element::Label(l) => l.geometry_type,
            Element::Icon(i) => i.geometry_type,
            Element::TextBox(t) => t.geometry_type,
        }
    }

    pub fn get_element_type(&self) -> (r: ElementType)
        ensures
            r == self.spec_element_type(),
    {
        match self {
            Element::Panel(_) => ElementType::Panel,
            Element::Button(_) => ElementType::Button,
            Element::Label(_) => ElementType::Label,
            Element::Icon(_) => ElementType::Icon,
            Element::TextBox(_) => ElementType::TextBox,
        }
    }

    pub fn get_color(&self) -> (r: Color)
        ensures
            r == self.spec_color(),
    {
        match self {
            Element::Panel(p) => p.color,
            Element::Button(b) => b.color,
            Element::Label(l) => l.color,
            Element::Icon(i) => i.color,
            Element::TextBox(t) => t.color,
        }
    }

    pub fn get_texture_name(&self) -> (r: Option<String>)
        ensures
            r is Some <==> self.spec_texture_name() is Some,
            r is Some ==> r->0@ == self.spec_texture_name()->0,
    {
        match self {
            Element::Panel(p) => Some(p.texture_name.clone()),
            Element::Button(b) => Some(b.texture_name.clone()),
            Element::Label(_) => Option::None,
            Element::Icon(i) => Some(i.texture_name.clone()),
            Element::TextBox(_) => Option::None,
        }
    }

    pub fn get_bounds(&self) -> (r: Option<[u32; 2]>)
        ensures
            r == self.spec_bounds(),
    {
        match self {
            Element::Label(l) => l.relative_bounds,
            Element::TextBox(t) => t.relative_bounds,
            _ => Option::None,
        }
    }

    /// The absolute pixel position of the element's anchor under the
    /// given window size.
    pub fn get_position(&self, window_size: [u32; 2]) -> (r: [i64; 2])
        requires
            self.inv(),
        ensures
            r[0] == self.spec_position_x(window_size),
            r[1] == self.spec_position_y(window_size),
            -POS_LIMIT <= r[0] <= POS_LIMIT,
            -POS_LIMIT <= r[1] <= POS_LIMIT,
    {
        match self {
            Element::Label(l) => {
                let text_length = (l.text.as_str().unicode_len() as i64 * 15) / 2;
                [
                    scaled_px(l.relative_position[0], window_size[0]) - text_length,
                    scaled_px(l.relative_position[1], window_size[1]) - 15,
                ]
            },
            Element::TextBox(t) => {
                let text_length = (t.text.as_str().unicode_len() as i64 * 15) / 2;
                [
                    scaled_px(t.relative_position[0], window_size[0]) - text_length,
                    scaled_px(t.relative_position[1], window_size[1]) - 15,
                ]
            },
            _ => {
                let rel = match self {
                    Element::Panel(p) => p.relative_position,
                    Element::Button(b) => b.relative_position,
                    Element::Icon(i) => i.relative_position,
                    _ => [0, 0],
                };
                [scaled_px(rel[0], window_size[0]), scaled_px(rel[1], window_size[1])]
            },
        }
    }

    /// The absolute pixel scale of the element under the given window
    /// size.
    pub fn get_scale(&self, window_size: [u32; 2]) -> (r: [i64; 2])
        requires
            self.inv(),
        ensures
            r[0] == self.spec_scale_x(window_size),
            r[1] == self.spec_scale_y(window_size),
            0 <= r[0] <= POS_LIMIT,
            0 <= r[1] <= POS_LIMIT,
    {
        match self {
            Element::Icon(i) => [i.relative_scale[0] as i64, i.relative_scale[1] as i64],
            _ => {
                let rel = self.get_relative_scale();
                [scaled_px(rel[0], window_size[0]), scaled_px(rel[1], window_size[1])]
            },
        }
    }

    fn get_relative_scale(&self) -> (r: [u32; 2])
        ensures
            r == self.spec_relative_scale(),
    {
        match self {
            Element::Panel(p) => p.relative_scale,
            Element::Button(b) => b.relative_scale,
            Element::Label(l) => l.relative_scale,
            Element::Icon(i) => i.relative_scale,
            Element::TextBox(t) => t.relative_scale,
        }
    }

    /// Only buttons carry a hover highlight.
    pub open spec fn spec_is_highlightable(self) -> bool {
        self is Button
    }

    /// The element after a highlight request: a button's color alpha is
    /// set, everything else is untouched.
    pub open spec fn spec_set_highlight(self, a_value: u8) -> Element {
        match self {
            Element::Button(b) => Element::Button(
                Button { color: Color { a: a_value, ..b.color }, ..b },
            ),
            _ => self,
        }
    }

    /// Sets the color alpha used as hover feedback. Returns whether a
    /// mutation occurred, so the caller knows whether the GPU-resident
    /// instances need a refresh.
    pub fn set_highlight(&mut self, a_value: u8) -> (r: bool)
        ensures
            *final(self) == old(self).spec_set_highlight(a_value),
            r == old(self).spec_is_highlightable(),
    {
        match self {
            Element::Button(b) => {
                b.color.a = a_value;
                true
            },
            _ => false,
        }
    }

    /// Holds when `after` is `before` with `fragment` appended to its
    /// stored text and every other field unchanged.
    pub open spec fn spec_text_appended(before: Element, after: Element, fragment: Seq<char>) -> bool {
        match (before, after) {
            (Element::Label(a), Element::Label(b)) => {
                &&& b.text@ == a.text@ + fragment
                &&& b.id == a.id
                &&& b.geometry_type == a.geometry_type
                &&& b.color == a.color
                &&& b.relative_position == a.relative_position
                &&& b.relative_scale == a.relative_scale
                &&& b.relative_bounds == a.relative_bounds
            },
            (Element::TextBox(a), Element::TextBox(b)) => {
                &&& b.text@ == a.text@ + fragment
                &&& b.id == a.id
                &&& b.geometry_type == a.geometry_type
                &&& b.placeholder == a.placeholder
                &&& b.color == a.color
                &&& b.relative_position == a.relative_position
                &&& b.relative_scale == a.relative_scale
                &&& b.relative_bounds == a.relative_bounds
                &&& b.is_cursor_visible == a.is_cursor_visible
            },
            _ => false,
        }
    }

    /// Appends a text fragment to a text-bearing variant. Only labels
    /// and text boxes can hold text; dispatch must never reach another
    /// variant.
    pub fn set_text(&mut self, text: &str)
        requires
            *old(self) is Label || *old(self) is TextBox,
            old(self).spec_stored_text()->0.len() + text@.len() <= MAX_TEXT_LEN,
        ensures
            Element::spec_text_appended(*old(self), *final(self), text@),
    {
        match self {
            Element::Label(l) => l.text.append(text),
            Element::TextBox(t) => t.text.append(text),
            _ => {},
        }
    }

    /// What a click on the element produces: the title-bar panel (id 0)
    /// propagates window dragging, a button runs or propagates its
    /// registered action, a text box requests selection, and anything
    /// else is not interactive.
    pub open spec fn spec_handle_click(self) -> InteractionResult {
        match self {
            Element::Panel(p) => if p.id == 0 {
                InteractionResult::Propogate(UiEvent::TitleBar)
            } else {
                InteractionResult::NoInteraction
            },
            Element::Button(b) => match b.action {
                Some(ButtonAction::RunCallback) => InteractionResult::Success,
                Some(ButtonAction::Emit(e)) => InteractionResult::Propogate(e),
                Option::None => InteractionResult::NoInteraction,
            },
            Element::Label(_) => InteractionResult::NoInteraction,
            Element::Icon(_) => InteractionResult::NoInteraction,
            Element::TextBox(t) => InteractionResult::Propogate(
                UiEvent::SetSelected(t.id, ElementType::TextBox),
            ),
        }
    }

    pub fn handle_click(&self) -> (r: InteractionResult)
        ensures
            r == self.spec_handle_click(),
    {
        match self {
            Element::Panel(p) => if p.id == 0 {
                InteractionResult::Propogate(UiEvent::TitleBar)
            } else {
                InteractionResult::NoInteraction
            },
            Element::Button(b) => match b.action {
                Some(ButtonAction::RunCallback) => InteractionResult::Success,
                Some(ButtonAction::Emit(e)) => InteractionResult::Propogate(e),
                Option::None => InteractionResult::NoInteraction,
            },
            Element::Label(_) => InteractionResult::NoInteraction,
            Element::Icon(_) => InteractionResult::NoInteraction,
            Element::TextBox(t) => InteractionResult::Propogate(
                UiEvent::SetSelected(t.id, ElementType::TextBox),
            ),
        }
    }
}

/// A bound on the pixel coordinates fed into doubled-coordinate tests.
pub const COORD_SAFE: i64 = 0x1000_0000_0000_0000;

/// The axis-aligned box test, inclusive on all four edges, carried out
/// on doubled coordinates: the box spans `pos - scale/2` to
/// `pos + scale/2` on each axis.
pub open spec fn spec_cursor_within(cursor: [i64; 2], pos: [i64; 2], scale: [i64; 2]) -> bool {
    &&& 2 * cursor[0] <= 2 * pos[0] + scale[0]
    &&& 2 * cursor[0] >= 2 * pos[0] - scale[0]
    &&& 2 * cursor[1] <= 2 * pos[1] + scale[1]
    &&& 2 * cursor[1] >= 2 * pos[1] - scale[1]
}

impl Element {
    /// Labels and icons are never hover or click targets.
    pub open spec fn spec_hit(self, cursor: [i64; 2], pos: [i64; 2], scale: [i64; 2]) -> bool {
        match self {
            Element::Label(_) => false,
            Element::Icon(_) => false,
            _ => spec_cursor_within(cursor, pos, scale),
        }
    }

    /// Whether the cursor position falls within the given bounding box
    /// of this element (non-interactive variants always miss).
    pub fn is_cursor_within_bounds(
        &self,
        cursor_position: [i64; 2],
        element_pos: [i64; 2],
        element_scale: [i64; 2],
    ) -> (r: bool)
        requires
            -COORD_SAFE <= cursor_position[0] <= COORD_SAFE,
            -COORD_SAFE <= cursor_position[1] <= COORD_SAFE,
            -COORD_SAFE <= element_pos[0] <= COORD_SAFE,
            -COORD_SAFE <= element_pos[1] <= COORD_SAFE,
            -COORD_SAFE <= element_scale[0] <= COORD_SAFE,
            -COORD_SAFE <= element_scale[1] <= COORD_SAFE,
        ensures
            r == self.spec_hit(cursor_position, element_pos, element_scale),
    {
        match self {
            Element::Label(_) => false,
            Element::Icon(_) => false,
            _ => {
                2 * cursor_position[0] <= 2 * element_pos[0] + element_scale[0] && 2
                    * cursor_position[0] >= 2 * element_pos[0] - element_scale[0] && 2
                    * cursor_position[1] <= 2 * element_pos[1] + element_scale[1] && 2
                    * cursor_position[1] >= 2 * element_pos[1] - element_scale[1]
            },
        }
    }

    /// Whether this element's box sits within the candidate box
    /// (`input` is a pixel-space center position and scale): smaller or
    /// equal in extent on all four half-extents.
    pub open spec fn spec_layer_within(self, input: [i64; 4], window_size: [u32; 2]) -> bool {
        let px = self.spec_position_x(window_size);
        let py = self.spec_position_y(window_size);
        let sx = self.spec_scale_x(window_size);
        let sy = self.spec_scale_y(window_size);
        &&& 2 * px - sx >= 2 * input[0] - input[2]
        &&& 2 * px + sx <= 2 * input[0] + input[2]
        &&& 2 * py - sy >= 2 * input[1] - input[3]
        &&& 2 * py + sy <= 2 * input[1] + input[3]
    }

    /// The layering comparison; labels never take part.
    pub open spec fn spec_layer(self, input: [i64; 4], window_size: [u32; 2]) -> bool {
        match self {
            Element::Label(_) => false,
            _ => self.spec_layer_within(input, window_size),
        }
    }

    /// Whether this element lies on top of the candidate box: its box
    /// is smaller or equal in extent on all four half-extents. With no
    /// explicit z-index, geometric nesting decides what is "on top".
    pub fn get_layer(&self, input: [i64; 4], window_size: [u32; 2]) -> (r: bool)
        requires
            self.inv(),
            -COORD_SAFE <= input[0] <= COORD_SAFE,
            -COORD_SAFE <= input[1] <= COORD_SAFE,
            -COORD_SAFE <= input[2] <= COORD_SAFE,
            -COORD_SAFE <= input[3] <= COORD_SAFE,
        ensures
            r == self.spec_layer(input, window_size),
    {
        match self {
            Element::Label(_) => false,
            _ => {
                let pos = self.get_position(window_size);
                let scale = self.get_scale(window_size);
                2 * pos[0] - scale[0] >= 2 * input[0] - input[2] && 2 * pos[0] + scale[0] <= 2
                    * input[0] + input[2] && 2 * pos[1] - scale[1] >= 2 * input[1] - input[3] && 2
                    * pos[1] + scale[1] <= 2 * input[1] + input[3]
            },
        }
    }

    /// The number of characters of stored text (zero for variants that
    /// hold none).
    pub fn stored_text_len(&self) -> (n: usize)
        ensures
            self.spec_stored_text() matches Some(t) ==> n == t.len(),
            self.spec_stored_text() is None ==> n == 0,
    {
        match self {
            Element::Label(l) => l.text.as_str().unicode_len(),
            Element::TextBox(t) => t.text.as_str().unicode_len(),
            _ => 0,
        }
    }

    /// The text one render pass shows: a label's literal text, a text
    /// box's blinking render text (advancing its blink state), nothing
    /// for other variants.
    pub fn get_text(&mut self, elapsed_ms: u64) -> (r: Option<String>)
        requires
            old(self).inv(),
        ensures
            r is Some <==> (*old(self) is Label || *old(self) is TextBox),
            *old(self) is Label ==> *final(self) == *old(self) && r->0@ == old(
                self,
            ).spec_stored_text()->0,
            *old(self) matches Element::TextBox(t) ==> *final(self) == Element::TextBox(
                t.spec_after_render(elapsed_ms),
            ) && r->0@ == t.spec_rendered_text(elapsed_ms),
            !(*old(self) is Label || *old(self) is TextBox) ==> *final(self) == *old(self),
    {
        match self {
            Element::Label(l) => Some(l.text.clone()),
            Element::TextBox(t) => Some(t.render_text(elapsed_ms)),
            _ => Option::None,
        }
    }
}

} // verus!
