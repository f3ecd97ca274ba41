//! Shared data definitions: geometry classification, per-vertex and
//! per-instance records destined for instanced drawing, the texture
//! atlas lookup table, and RGBA colors parsed from hex strings.
//!
//! Geometry lives in integer units: vertex positions and texture
//! coordinates are thousandths ("milli" units), instance positions and
//! scales are pixels, and atlas coordinates are half-texels (an entry
//! starting at texel `x` of an atlas `w` texels wide spans from
//! `2*x + 1` to `2*(x + width) - 1` out of `2*w`, which insets the
//! rectangle by half a texel on each side to avoid edge bleed).

use vstd::prelude::*;

verus! {

/// One thousandth steps: the denominator of relative coordinates.
pub const MILLI: u32 = 1000;

/// Classification of an element's base mesh, used to batch instanced
/// draws of like geometry together.
#[derive(PartialEq, Eq, Structural, Hash, Clone, Copy, Debug)]
pub enum GeometryType {
    Quad,
    Label,
}

/// A mesh vertex: position and quad-local texture coordinate, both in
/// milli units (a quad corner at (-500, -500) sits half a unit left and
/// above the instance center).
#[derive(PartialEq, Eq, Clone, Copy, Debug)]
pub struct Vertex {
    pub position: [i32; 2],
    pub quad_uv: [u32; 2],
}

/// An RGBA color with 8-bit channels. The alpha channel doubles as the
/// highlight/selection signal for interactive elements.
#[derive(PartialEq, Eq, Structural, Clone, Copy, Debug)]
pub struct Color {
    pub r: u8,
    pub g: u8,
    pub b: u8,
    pub a: u8,
}

/// The value of a hex digit, or 16 for a character that is none.
pub open spec fn spec_hex_value(c: char) -> int {
    let v = c as u32;
    if 48 <= v <= 57 {
        v - 48
    } else if 97 <= v <= 102 {
        v - 87
    } else if 65 <= v <= 70 {
        v - 55
    } else {
        16
    }
}

pub open spec fn spec_is_hex_digit(c: char) -> bool {
    spec_hex_value(c) < 16
}

/// The channel value written by two hex digits at positions `i` and
/// `i + 1` of `s`.
pub open spec fn spec_channel(s: Seq<char>, i: int) -> int {
    spec_hex_value(s[i]) * 16 + spec_hex_value(s[i + 1])
}

/// The color denoted by a `#rrggbbaa` string, if well-formed.
pub open spec fn spec_from_hex(s: Seq<char>) -> Option<Color> {
    if s.len() == 9 && s[0] == '#' && (forall|i: int| 1 <= i < 9 ==> spec_is_hex_digit(#[trigger] s[i])) {
        Some(
            Color {
                r: spec_channel(s, 1) as u8,
                g: spec_channel(s, 3) as u8,
                b: spec_channel(s, 5) as u8,
                a: spec_channel(s, 7) as u8,
            },
        )
    } else {
        None
    }
}

fn hex_digit(c: char) -> (r: Option<u8>)
    ensures
        r is Some <==> spec_is_hex_digit(c),
        r is Some ==> r->0 == spec_hex_value(c),
{
    let v = c as u32;
    if 48 <= v && v <= 57 {
        Some((v - 48) as u8)
    } else if 97 <= v && v <= 102 {
        Some((v - 87) as u8)
    } else if 65 <= v && v <= 70 {
        Some((v - 55) as u8)
    } else {
        None
    }
}

fn hex_pair(s: &str, i: usize) -> (r: Option<u8>)
    requires
        i < 8,
        i + 1 < s@.len(),
    ensures
        r is Some <==> spec_is_hex_digit(s@[i as int]) && spec_is_hex_digit(s@[i + 1]),
        r is Some ==> r->0 == spec_channel(s@, i as int),
{
    let hi = match hex_digit(s.get_char(i)) {
        Some(v) => v,
        Option::None => {
            return Option::None;
        },
    };
    let lo = match hex_digit(s.get_char(i + 1)) {
        Some(v) => v,
        Option::None => {
            return Option::None;
        },
    };
    Some(hi * 16 + lo)
}

impl Color {
    /// Parses a `#rrggbbaa` hex color string (case-insensitive digits).
    /// Returns the color exactly when the string is nine characters,
    /// starts with `#`, and the remaining eight are hex digits.
    pub fn from_hex(hex_color: &str) -> (color: Option<Color>)
        ensures
            color == spec_from_hex(hex_color@),
    {
        if hex_color.unicode_len() != 9 {
            return Option::None;
        }
        if hex_color.get_char(0) != '#' {
            return Option::None;
        }
        let r = match hex_pair(hex_color, 1) {
            Some(v) => v,
            Option::None => {
                return Option::None;
            },
        };
        let g = match hex_pair(hex_color, 3) {
            Some(v) => v,
            Option::None => {
                return Option::None;
            },
        };
        let b = match hex_pair(hex_color, 5) {
            Some(v) => v,
            Option::None => {
                return Option::None;
            },
        };
        let a = match hex_pair(hex_color, 7) {
            Some(v) => v,
            Option::None => {
                return Option::None;
            },
        };
        assert forall|i: int| 1 <= i < 9 implies spec_is_hex_digit(#[trigger] hex_color@[i]) by {
            assert(spec_is_hex_digit(hex_color@[1]) && spec_is_hex_digit(hex_color@[2]));
            assert(spec_is_hex_digit(hex_color@[3]) && spec_is_hex_digit(hex_color@[4]));
            assert(spec_is_hex_digit(hex_color@[5]) && spec_is_hex_digit(hex_color@[6]));
            assert(spec_is_hex_digit(hex_color@[7]) && spec_is_hex_digit(hex_color@[8]));
        }
        Some(Color { r, g, b, a })
    }
}

/// A per-element instance record: identity, geometry class, absolute
/// pixel position and scale, and color.
#[derive(PartialEq, Eq, Clone, Copy, Debug)]
pub struct Instance {
    pub id: u32,
    pub geometry_type: GeometryType,
    pub position: [i64; 2],
    pub color: Color,
    pub scale: [i64; 2],
}

/// The flat record uploaded once per instance: as `Instance`, plus the
/// atlas rectangle in half-texel units.
#[derive(PartialEq, Eq, Clone, Copy, Debug)]
pub struct InstanceRaw {
    pub id: u32,
    pub position: [i64; 2],
    pub color: Color,
    pub scale: [i64; 2],
    pub tex_coords: [u32; 4],
}

impl Instance {
    pub fn new(
        id: u32,
        geometry_type: GeometryType,
        position: [i64; 2],
        color: Color,
        scale: [i64; 2],
    ) -> (r: Instance)
        ensures
            r == (Instance { id, geometry_type, position, color, scale }),
    {
        Instance { id, geometry_type, position, color, scale }
    }

    /// Flattens to the uploaded record, with an empty atlas rectangle.
    pub fn to_raw(&self) -> (r: InstanceRaw)
        ensures
            r == (InstanceRaw {
                id: self.id,
                position: self.position,
                color: self.color,
                scale: self.scale,
                tex_coords: [0u32, 0u32, 0u32, 0u32],
            }),
    {
        InstanceRaw {
            id: self.id,
            position: self.position,
            color: self.color,
            scale: self.scale,
            tex_coords: [0, 0, 0, 0],
        }
    }
}

/// The abstract value of an atlas entry.
pub ghost struct AtlasEntryView {
    pub name: Seq<char>,
    pub x_start: u32,
    pub y_start: u32,
    pub image_width: u32,
    pub image_height: u32,
    pub start_coord: Option<(u32, u32)>,
    pub end_coord: Option<(u32, u32)>,
}

/// One named rectangle of the texture atlas. Until placed by
/// `UiAtlas::add_entry` the half-texel coordinates are absent.
#[derive(Debug)]
pub struct UiAtlasTexture {
    pub name: String,
    pub x_start: u32,
    pub y_start: u32,
    pub image_width: u32,
    pub image_height: u32,
    pub start_coord: Option<(u32, u32)>,
    pub end_coord: Option<(u32, u32)>,
}

impl View for UiAtlasTexture {
    type V = AtlasEntryView;

    open spec fn view(&self) -> AtlasEntryView {
        AtlasEntryView {
            name: self.name@,
            x_start: self.x_start,
            y_start: self.y_start,
            image_width: self.image_width,
            image_height: self.image_height,
            start_coord: self.start_coord,
            end_coord: self.end_coord,
        }
    }
}

impl Clone for UiAtlasTexture {
    fn clone(&self) -> (r: Self)
        ensures
            r@ == self@,
    {
        UiAtlasTexture {
            name: self.name.clone(),
            x_start: self.x_start,
            y_start: self.y_start,
            image_width: self.image_width,
            image_height: self.image_height,
            start_coord: self.start_coord,
            end_coord: self.end_coord,
        }
    }
}

impl UiAtlasTexture {
    pub fn new(name: String, x_0: u32, y_0: u32, image_width: u32, image_height: u32) -> (r: Self)
        ensures
            r@ == (AtlasEntryView {
                name: name@,
                x_start: x_0,
                y_start: y_0,
                image_width,
                image_height,
                start_coord: Option::None,
                end_coord: Option::None,
            }),
    {
        Self {
            name,
            x_start: x_0,
            y_start: y_0,
            image_width,
            image_height,
            start_coord: Option::None,
            end_coord: Option::None,
        }
    }

    /// Whether this entry sits inside an atlas of the given texel size,
    /// with a rectangle of at least one texel each way.
    pub open spec fn fits(self, width: u32, height: u32) -> bool {
        &&& 1 <= self@.image_width
        &&& 1 <= self@.image_height
        &&& self@.x_start + self@.image_width <= width
        &&& self@.y_start + self@.image_height <= height
    }

    /// Computes the half-texel atlas rectangle, inset half a texel from
    /// the entry's texel bounds on each side.
    fn generate_tex_coords(self, width: u32, height: u32) -> (r: Self)
        requires
            self.fits(width, height),
            width <= 0x7FFF_FFFF,
            height <= 0x7FFF_FFFF,
        ensures
            r@ == (AtlasEntryView {
                start_coord: Some(
                    ((2 * self@.x_start + 1) as u32, (2 * self@.y_start + 1) as u32),
                ),
                end_coord: Some(
                    (
                        (2 * (self@.x_start + self@.image_width) - 1) as u32,
                        (2 * (self@.y_start + self@.image_height) - 1) as u32,
                    ),
                ),
                ..self@
            }),
    {
        let start = (2 * self.x_start + 1, 2 * self.y_start + 1);
        let end = (
            2 * (self.x_start + self.image_width) - 1,
            2 * (self.y_start + self.image_height) - 1,
        );
        Self { start_coord: Some(start), end_coord: Some(end), ..self }
    }
}

/// The abstract value of the atlas: placed entries plus texel size.
pub ghost struct AtlasView {
    pub entries: Seq<AtlasEntryView>,
    pub width: u32,
    pub height: u32,
}

impl AtlasView {
    /// The index of the first entry with the given name, or -1.
    pub open spec fn entry_index(self, name: Seq<char>) -> int
        decreases self.entries.len(),
    {
        if self.entries.len() == 0 {
            -1
        } else if self.entries[0].name == name {
            0
        } else {
            let rest = (AtlasView { entries: self.entries.drop_first(), ..self }).entry_index(name);
            if rest == -1 {
                -1
            } else {
                rest + 1
            }
        }
    }

    pub open spec fn has_entry(self, name: Seq<char>) -> bool {
        self.entry_index(name) >= 0
    }

    pub open spec fn entry_named(self, name: Seq<char>) -> AtlasEntryView {
        self.entries[self.entry_index(name)]
    }
}

/// The packed texture sheet's lookup table: a name to half-texel
/// rectangle map.
#[derive(Debug)]
pub struct UiAtlas {
    pub entries: Vec<UiAtlasTexture>,
    pub width: u32,
    pub height: u32,
}

impl View for UiAtlas {
    type V = AtlasView;

    open spec fn view(&self) -> AtlasView {
        AtlasView {
            entries: Seq::new(self.entries@.len(), |i: int| self.entries@[i]@),
            width: self.width,
            height: self.height,
        }
    }
}

impl Clone for UiAtlas {
    fn clone(&self) -> (r: Self)
        ensures
            r@ == self@,
    {
        let mut entries: Vec<UiAtlasTexture> = Vec::new();
        let mut i: usize = 0;
        while i < self.entries.len()
            invariant
                i <= self.entries@.len(),
                entries@.len() == i as int,
                forall|j: int| 0 <= j < i as int ==> entries@[j]@ == self.entries@[j]@,
            decreases self.entries@.len() - i as int,
        {
            entries.push(self.entries[i].clone());
            i = i + 1;
        }
        let r = UiAtlas { entries, width: self.width, height: self.height };
        proof {
            assert(r@.entries =~= self@.entries);
        }
        r
    }
}

impl UiAtlas {
    pub fn new(width: u32, height: u32) -> (r: Self)
        ensures
            r@ == (AtlasView { entries: Seq::<AtlasEntryView>::empty(), width, height }),
    {
        let r = Self { entries: Vec::new(), width, height };
        proof {
            assert(r@.entries =~= Seq::<AtlasEntryView>::empty());
        }
        r
    }

    /// Places an entry in the atlas, computing its half-texel
    /// rectangle.
    pub fn add_entry(&mut self, entry: UiAtlasTexture)
        requires
            entry.fits(old(self)@.width, old(self)@.height),
            old(self)@.width <= 0x7FFF_FFFF,
            old(self)@.height <= 0x7FFF_FFFF,
        ensures
            final(self)@ == (AtlasView {
                entries: old(self)@.entries.push(
                    AtlasEntryView {
                        start_coord: Some(
                            ((2 * entry@.x_start + 1) as u32, (2 * entry@.y_start + 1) as u32),
                        ),
                        end_coord: Some(
                            (
                                (2 * (entry@.x_start + entry@.image_width) - 1) as u32,
                                (2 * (entry@.y_start + entry@.image_height) - 1) as u32,
                            ),
                        ),
                        ..entry@
                    },
                ),
                ..old(self)@
            }),
    {
        let placed = entry.generate_tex_coords(self.width, self.height);
        self.entries.push(placed);
        proof {
            assert(self@.entries =~= old(self)@.entries.push(placed@));
        }
    }

    /// Looks up the first entry with the given name.
    pub fn get_entry_by_name(&self, name: String) -> (r: Option<UiAtlasTexture>)
        ensures
            r is Some <==> self@.has_entry(name@),
            r is Some ==> r->0@ == self@.entry_named(name@),
    {
        let mut i: usize = 0;
        while i < self.entries.len()
            invariant
                i <= self.entries@.len(),
                forall|j: int| 0 <= j < i as int ==> self@.entries[j].name != name@,
            decreases self.entries@.len() - i as int,
        {
            if self.entries[i].name == name {
                proof {
                    lemma_entry_index_found(self@, name@, i as int);
                }
                return Some(self.entries[i].clone());
            }
            i = i + 1;
        }
        proof {
            lemma_entry_index_missing(self@, name@);
        }
        Option::None
    }
}

/// A found entry's index is in bounds and names the entry searched
/// for.
pub proof fn lemma_entry_index_bounds(atlas: AtlasView, name: Seq<char>)
    requires
        atlas.has_entry(name),
    ensures
        0 <= atlas.entry_index(name) < atlas.entries.len(),
        atlas.entries[atlas.entry_index(name)].name == name,
    decreases atlas.entries.len(),
{
    if atlas.entries.len() == 0 {
    } else if atlas.entries[0].name == name {
    } else {
        let rest = AtlasView { entries: atlas.entries.drop_first(), ..atlas };
        lemma_entry_index_bounds(rest, name);
        assert(rest.entries[rest.entry_index(name)] == atlas.entries[atlas.entry_index(name)]);
    }
}

/// If entry `i` is the first whose name matches, `entry_index` is `i`.
proof fn lemma_entry_index_found(atlas: AtlasView, name: Seq<char>, i: int)
    requires
        0 <= i < atlas.entries.len(),
        atlas.entries[i].name == name,
        forall|j: int| 0 <= j < i ==> atlas.entries[j].name != name,
    ensures
        atlas.entry_index(name) == i,
        atlas.has_entry(name),
        atlas.entry_named(name) == atlas.entries[i],
    decreases i,
{
    if i == 0 {
    } else {
        let rest = AtlasView { entries: atlas.entries.drop_first(), ..atlas };
        assert(atlas.entries[0].name != name);
        assert forall|j: int| 0 <= j < i - 1 implies rest.entries[j].name != name by {
            assert(rest.entries[j] == atlas.entries[j + 1]);
        }
        assert(rest.entries[i - 1] == atlas.entries[i]);
        lemma_entry_index_found(rest, name, i - 1);
    }
}

/// If no entry's name matches, `entry_index` is -1.
proof fn lemma_entry_index_missing(atlas: AtlasView, name: Seq<char>)
    requires
        forall|j: int| 0 <= j < atlas.entries.len() ==> atlas.entries[j].name != name,
    ensures
        atlas.entry_index(name) == -1,
        !atlas.has_entry(name),
    decreases atlas.entries.len(),
{
    if atlas.entries.len() == 0 {
    } else {
        let rest = AtlasView { entries: atlas.entries.drop_first(), ..atlas };
        assert forall|j: int| 0 <= j < rest.entries.len() implies rest.entries[j].name != name by {
            assert(rest.entries[j] == atlas.entries[j + 1]);
        }
        lemma_entry_index_missing(rest, name);
    }
}

} // verus!
