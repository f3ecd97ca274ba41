//! The element collection: stable identity assignment, geometry
//! batching into per-type instance lists, and the per-frame text
//! section data handed to the text-shaping collaborator.

use vstd::prelude::*;
use vstd::set_lib::lemma_int_range;
use vstd::set_lib::lemma_len_subset;
use vstd::set_lib::set_int_range;

use crate::definitions::AtlasView;
use crate::definitions::Color;
use crate::definitions::GeometryType;
use crate::definitions::Instance;
use crate::definitions::InstanceRaw;
use crate::definitions::UiAtlas;
use crate::definitions::Vertex;
use crate::elements::Element;

verus! {

/// The smallest id at or past `iter` that is not reserved.
pub open spec fn spec_next_free(iter: u32, illegal: Seq<u32>) -> u32
    decreases u32::MAX - iter,
{
    if !illegal.contains(iter) {
        iter
    } else if iter == u32::MAX {
        iter
    } else {
        spec_next_free((iter + 1) as u32, illegal)
    }
}

/// The id allocator's abstract state: the ids already in use, the
/// low-water mark for automatic assignment, and the reserved ids.
pub ghost struct AllocState {
    pub ids: Seq<u32>,
    pub iter: u32,
    pub illegal: Seq<u32>,
}

impl AllocState {
    /// When one more insertion is accepted: a reserved id must be
    /// fresh, and an automatic assignment must have headroom left
    /// before the id space is exhausted.
    pub open spec fn ok(self, id: Option<u32>) -> bool {
        match id {
            Some(r) => !self.ids.contains(r),
            Option::None => self.iter as int + self.illegal.len() < u32::MAX as int,
        }
    }

    /// The id the insertion assigns: the reserved id itself, or the
    /// lowest non-reserved id not yet reached by the allocator.
    pub open spec fn assigned(self, id: Option<u32>) -> u32 {
        match id {
            Some(r) => r,
            Option::None => spec_next_free(self.iter, self.illegal),
        }
    }

    /// The allocator state after the insertion.
    pub open spec fn step(self, id: Option<u32>) -> AllocState {
        match id {
            Some(r) => AllocState { ids: self.ids.push(r), illegal: self.illegal.push(r), ..self },
            Option::None => AllocState {
                ids: self.ids.push(self.assigned(id)),
                iter: (self.assigned(id) + 1) as u32,
                ..self
            },
        }
    }

    /// Whether a whole sequence of insertions is accepted in order.
    pub open spec fn all_ok(self, pending: Seq<Option<u32>>) -> bool
        decreases pending.len(),
    {
        pending.len() == 0 || (self.ok(pending[0]) && self.step(pending[0]).all_ok(
            pending.drop_first(),
        ))
    }
}

/// Owns the element list (insertion order is the instance order),
/// assigns stable identities, and batches elements by geometry type.
#[derive(Debug)]
pub struct Interface {
    pub elements: Vec<Element>,
    pub quad_instances: Vec<InstanceRaw>,
    pub label_instances: Vec<InstanceRaw>,
    pub id_iterator: u32,
    pub illegal_ids: Vec<u32>,
    pub atlas: UiAtlas,
}

impl Interface {
    /// Whether some element carries the given id.
    pub open spec fn has_element_id(self, id: u32) -> bool {
        exists|i: int|
            0 <= i < self.elements@.len() && (#[trigger] self.elements@[i]).spec_id() == id
    }

    pub open spec fn alloc_state(self) -> AllocState {
        AllocState {
            ids: self.elements@.map_values(|e: Element| e.spec_id()),
            iter: self.id_iterator,
            illegal: self.illegal_ids@,
        }
    }

    /// The identity invariant: element ids are pairwise distinct; every
    /// id is either below the allocator's low-water mark or reserved;
    /// every reserved id belongs to an element; reserved ids are
    /// pairwise distinct; and every element satisfies its structural
    /// bounds.
    pub open spec fn wf(self) -> bool {
        &&& forall|i: int, j: int|
            0 <= i < j < self.elements@.len() ==> (#[trigger] self.elements@[i]).spec_id() != (
            #[trigger] self.elements@[j]).spec_id()
        &&& forall|i: int|
            0 <= i < self.elements@.len() ==> ((#[trigger] self.elements@[i]).spec_id()
                < self.id_iterator || self.illegal_ids@.contains(self.elements@[i].spec_id()))
        &&& forall|k: int|
            0 <= k < self.illegal_ids@.len() ==> self.has_element_id(
                #[trigger] self.illegal_ids@[k],
            )
        &&& forall|k1: int, k2: int|
            0 <= k1 < k2 < self.illegal_ids@.len() ==> self.illegal_ids@[k1]
                != self.illegal_ids@[k2]
        &&& forall|i: int| 0 <= i < self.elements@.len() ==> (#[trigger] self.elements@[i]).inv()
    }

    pub fn new(atlas: UiAtlas) -> (r: Self)
        ensures
            r.wf(),
            r.elements@.len() == 0,
            r.quad_instances@.len() == 0,
            r.label_instances@.len() == 0,
            r.id_iterator == 0,
            r.illegal_ids@.len() == 0,
            r.atlas@ == atlas@,
    {
        Self {
            elements: Vec::new(),
            quad_instances: Vec::new(),
            label_instances: Vec::new(),
            id_iterator: 0,
            illegal_ids: Vec::new(),
            atlas,
        }
    }

    /// Inserts an element, assigning it a stable id: the reserved id
    /// when one is given, otherwise the lowest non-reserved id the
    /// allocator has not yet reached. Returns the assigned id, which is
    /// distinct from every id already in use.
    pub fn add_elements(&mut self, element: Element, id: Option<u32>) -> (assigned: u32)
        requires
            old(self).wf(),
            element.inv(),
            old(self).alloc_state().ok(id),
        ensures
            final(self).wf(),
            assigned == old(self).alloc_state().assigned(id),
            final(self).alloc_state() == old(self).alloc_state().step(id),
            final(self).elements@ == old(self).elements@.push(element.spec_with_id(assigned)),
            !old(self).has_element_id(assigned),
            id is None ==> !old(self).illegal_ids@.contains(assigned) && assigned >= old(
                self,
            ).id_iterator,
            final(self).quad_instances == old(self).quad_instances,
            final(self).label_instances == old(self).label_instances,
            final(self).atlas == old(self).atlas,
    {
        let ghost pre = *old(self);
        let mut element = element;
        proof {
            lemma_with_id_inv(element, 0);
        }
        let assigned: u32;
        match id {
            Some(id_number) => {
                proof {
                    // A reserved id is fresh among element ids, and every
                    // reserved id belongs to an element, so it is fresh
                    // among the reserved ids too.
                    assert forall|k: int| 0 <= k < pre.illegal_ids@.len() implies pre.illegal_ids@[k]
                        != id_number by {
                        assert(pre.has_element_id(pre.illegal_ids@[k]));
                        let i = choose|i: int|
                            0 <= i < pre.elements@.len() && (#[trigger] pre.elements@[i]).spec_id()
                                == pre.illegal_ids@[k];
                        assert(pre.alloc_state().ids[i] == pre.illegal_ids@[k]);
                    }
                }
                element.set_id(id_number);
                self.illegal_ids.push(id_number);
                assigned = id_number;
            },
            Option::None => {
                let ghost start = self.id_iterator;
                while vec_contains(&self.illegal_ids, self.id_iterator)
                    invariant
                        self.elements == pre.elements,
                        self.quad_instances == pre.quad_instances,
                        self.label_instances == pre.label_instances,
                        self.illegal_ids == pre.illegal_ids,
                        self.atlas == pre.atlas,
                        pre.wf(),
                        start == pre.id_iterator,
                        start as int + pre.illegal_ids@.len() < u32::MAX as int,
                        start <= self.id_iterator,
                        forall|v: u32|
                            start <= v < self.id_iterator ==> pre.illegal_ids@.contains(v),
                        self.id_iterator as int - start as int <= pre.illegal_ids@.len(),
                    decreases start as int + pre.illegal_ids@.len() - self.id_iterator as int,
                {
                    proof {
                        assert(forall|v: u32|
                            start <= v < self.id_iterator + 1 ==> pre.illegal_ids@.contains(v));
                        lemma_scan_bound(
                            pre.illegal_ids@,
                            start as int,
                            self.id_iterator as int + 1,
                        );
                    }
                    self.id_iterator = self.id_iterator + 1;
                }
                assigned = self.id_iterator;
                proof {
                    lemma_next_free_characterization(
                        pre.illegal_ids@,
                        start,
                        assigned,
                    );
                }
                element.set_id(assigned);
                self.id_iterator = self.id_iterator + 1;
            },
        }
        self.elements.push(element);
        proof {
            lemma_with_id_inv(element, assigned);
            assert(self.elements@.map_values(|e: Element| e.spec_id()) =~= pre.elements@.map_values(
                |e: Element| e.spec_id(),
            ).push(assigned));
            // The assigned id is fresh: a reserved one by the freshness
            // precondition, an automatic one because every existing id
            // is either below the scan's start or reserved, and the
            // scan stopped at a non-reserved value past the start.
            assert forall|i: int| 0 <= i < pre.elements@.len() implies (
            #[trigger] pre.elements@[i]).spec_id() != assigned by {
                match id {
                    Some(r) => {
                        assert(pre.alloc_state().ids[i] == pre.elements@[i].spec_id());
                    },
                    Option::None => {},
                }
            }
            assert(!pre.has_element_id(assigned));
            assert forall|k: int| 0 <= k < self.illegal_ids@.len() implies self.has_element_id(
                #[trigger] self.illegal_ids@[k],
            ) by {
                if k < pre.illegal_ids@.len() {
                    assert(pre.has_element_id(pre.illegal_ids@[k]));
                    let i = choose|i: int|
                        0 <= i < pre.elements@.len() && (#[trigger] pre.elements@[i]).spec_id()
                            == pre.illegal_ids@[k];
                    assert(self.elements@[i].spec_id() == self.illegal_ids@[k]);
                } else {
                    assert(self.elements@[self.elements@.len() - 1].spec_id()
                        == self.illegal_ids@[k]);
                }
            }
            assert forall|i: int, j: int|
                0 <= i < j < self.elements@.len() implies (
            #[trigger] self.elements@[i]).spec_id() != (#[trigger] self.elements@[j]).spec_id() by {
                if j == self.elements@.len() - 1 {
                    assert(self.elements@[i] == pre.elements@[i]);
                    assert(self.elements@[j].spec_id() == assigned);
                }
            }
            // Every element id stays below the low-water mark or reserved.
            match id {
                Some(r) => {
                    assert(self.illegal_ids@ == pre.illegal_ids@.push(r));
                    assert(self.illegal_ids@[self.illegal_ids@.len() - 1] == r);
                    assert(self.illegal_ids@.contains(assigned));
                    assert forall|i: int| 0 <= i < self.elements@.len() implies ((
                    #[trigger] self.elements@[i]).spec_id() < self.id_iterator
                        || self.illegal_ids@.contains(self.elements@[i].spec_id())) by {
                        if i < pre.elements@.len() {
                            if pre.illegal_ids@.contains(pre.elements@[i].spec_id()) {
                                let k = choose|k: int|
                                    0 <= k < pre.illegal_ids@.len() && pre.illegal_ids@[k]
                                        == pre.elements@[i].spec_id();
                                assert(self.illegal_ids@[k] == pre.elements@[i].spec_id());
                            }
                        }
                    }
                },
                Option::None => {},
            }
        }
        assigned
    }
}

/// Id uniqueness: in a well-formed interface — and `new` builds one,
/// `add_elements` preserves it — no two elements share an id. Together
/// with `add_elements`' contract (an automatic assignment is never a
/// reserved id, and a reserved insertion demands a fresh id), ids are
/// unique across any sequence of insertions.
pub proof fn lemma_id_uniqueness(interface: Interface)
    requires
        interface.wf(),
    ensures
        forall|i: int, j: int|
            0 <= i < j < interface.elements@.len() ==> (
            #[trigger] interface.elements@[i]).spec_id() != (
            #[trigger] interface.elements@[j]).spec_id(),
        forall|k: int|
            0 <= k < interface.illegal_ids@.len() ==> interface.has_element_id(
                #[trigger] interface.illegal_ids@[k],
            ),
{
}

/// The constant mesh of a quad batch: a unit square around the
/// instance center, in milli units.
pub open spec fn spec_quad_vertices() -> Seq<Vertex> {
    seq![
        Vertex { position: [-500int as i32, -500int as i32], quad_uv: [0u32, 0u32] },
        Vertex { position: [500int as i32, -500int as i32], quad_uv: [1000u32, 0u32] },
        Vertex { position: [500int as i32, 500int as i32], quad_uv: [1000u32, 1000u32] },
        Vertex { position: [-500int as i32, 500int as i32], quad_uv: [0u32, 1000u32] },
    ]
}

/// The constant mesh of a label batch: degenerate positions (the text
/// brush supplies real geometry), with flipped texture coordinates.
pub open spec fn spec_label_vertices() -> Seq<Vertex> {
    seq![
        Vertex { position: [0int as i32, 0int as i32], quad_uv: [0u32, 1000u32] },
        Vertex { position: [0int as i32, 0int as i32], quad_uv: [1000u32, 1000u32] },
        Vertex { position: [0int as i32, 0int as i32], quad_uv: [1000u32, 0u32] },
        Vertex { position: [0int as i32, 0int as i32], quad_uv: [0u32, 0u32] },
    ]
}

/// Two triangles over the four corners.
pub open spec fn spec_quad_indices() -> Seq<u16> {
    seq![0u16, 1u16, 2u16, 2u16, 3u16, 0u16]
}

/// Changing an element's id leaves its structural bounds untouched.
proof fn lemma_with_id_inv(e: Element, id: u32)
    ensures
        e.spec_with_id(id).inv() == e.inv(),
        e.spec_with_id(id).spec_id() == id,
{
}

fn vec_contains(v: &Vec<u32>, x: u32) -> (r: bool)
    ensures
        r == v@.contains(x),
{
    let mut i: usize = 0;
    while i < v.len()
        invariant
            i <= v@.len(),
            forall|j: int| 0 <= j < i as int ==> v@[j] != x,
        decreases v@.len() - i as int,
    {
        if v[i] == x {
            return true;
        }
        i = i + 1;
    }
    false
}

/// A scan that found only reserved values in `[start, upper)` cannot be
/// longer than the reserved list, because reserved ids are pairwise
/// distinct.
proof fn lemma_scan_bound(illegal: Seq<u32>, start: int, upper: int)
    requires
        0 <= start <= upper <= u32::MAX as int + 1,
        forall|v: u32| start <= v as int && (v as int) < upper ==> illegal.contains(v),
        forall|k1: int, k2: int| 0 <= k1 < k2 < illegal.len() ==> illegal[k1] != illegal[k2],
    ensures
        upper - start <= illegal.len(),
{
    let ints = illegal.map_values(|x: u32| x as int);
    let range = set_int_range(start, upper);
    assert forall|v: int| range.contains(v) implies ints.to_set().contains(v) by {
        assert(illegal.contains(v as u32));
        let k = choose|k: int| 0 <= k < illegal.len() && illegal[k] == v as u32;
        assert(ints[k] == v);
        assert(ints.contains(v));
    }
    lemma_int_range(start, upper);
    ints.lemma_cardinality_of_set();
    lemma_len_subset(range, ints.to_set());
}

/// The value where a forward scan stops is exactly `spec_next_free`.
proof fn lemma_next_free_characterization(illegal: Seq<u32>, start: u32, found: u32)
    requires
        start <= found,
        forall|v: u32| start <= v < found ==> illegal.contains(v),
        !illegal.contains(found),
    ensures
        spec_next_free(start, illegal) == found,
    decreases found - start,
{
    if start == found {
    } else {
        assert(illegal.contains(start));
        lemma_next_free_characterization(illegal, (start + 1) as u32, found);
    }
}

/// One queued text draw: literal text, color, optional wrap box, and
/// absolute screen position, handed to the text-shaping collaborator.
#[derive(Debug)]
pub struct TextSection {
    pub text: String,
    pub color: Color,
    pub bounds: Option<[u32; 2]>,
    pub position: [i64; 2],
}

/// The abstract value of a queued text draw.
pub ghost struct TextSectionView {
    pub text: Seq<char>,
    pub color: Color,
    pub bounds: Option<[u32; 2]>,
    pub position: [i64; 2],
}

impl View for TextSection {
    type V = TextSectionView;

    open spec fn view(&self) -> TextSectionView {
        TextSectionView {
            text: self.text@,
            color: self.color,
            bounds: self.bounds,
            position: self.position,
        }
    }
}

pub open spec fn spec_section_views(sections: Seq<TextSection>) -> Seq<TextSectionView> {
    Seq::new(sections.len(), |i: int| sections[i]@)
}

/// The section a text-bearing element queues: its rendered text (a
/// text box's blinking render text), color, wrap box and position.
pub open spec fn spec_section_of(e: Element, window_size: [u32; 2], elapsed_ms: u64) -> TextSectionView {
    TextSectionView {
        text: match e {
            Element::Label(l) => l.text@,
            Element::TextBox(t) => t.spec_rendered_text(elapsed_ms),
            _ => Seq::empty(),
        },
        color: e.spec_color(),
        bounds: e.spec_bounds(),
        position: [
            e.spec_position_x(window_size) as i64,
            e.spec_position_y(window_size) as i64,
        ],
    }
}

/// The sections of all label-geometry elements, in insertion order.
pub open spec fn spec_sections(
    elems: Seq<Element>,
    window_size: [u32; 2],
    elapsed_ms: u64,
) -> Seq<TextSectionView>
    decreases elems.len(),
{
    if elems.len() == 0 {
        Seq::empty()
    } else {
        let rest = spec_sections(elems.drop_last(), window_size, elapsed_ms);
        if elems.last().spec_geometry_type() == GeometryType::Label {
            rest.push(spec_section_of(elems.last(), window_size, elapsed_ms))
        } else {
            rest
        }
    }
}

/// What the text pass does to an element: a label-geometry text box
/// advances its blink state, everything else is untouched.
pub open spec fn spec_after_text_pass(e: Element, elapsed_ms: u64) -> Element {
    match e {
        Element::TextBox(t) => if t.geometry_type == GeometryType::Label {
            Element::TextBox(t.spec_after_render(elapsed_ms))
        } else {
            e
        },
        _ => e,
    }
}

/// Every label-geometry element can hold text: it is a label or a text
/// box. The constructors only hand label geometry to those variants.
pub open spec fn spec_text_elements_consistent(elems: Seq<Element>) -> bool {
    forall|i: int|
        0 <= i < elems.len() && (#[trigger] elems[i]).spec_geometry_type() == GeometryType::Label
            ==> (elems[i] is Label || elems[i] is TextBox)
}

/// The text pass leaves an element's identity, bounds-invariant and
/// geometry untouched.
proof fn lemma_text_pass_preserves(e: Element, elapsed_ms: u64)
    ensures
        spec_after_text_pass(e, elapsed_ms).spec_id() == e.spec_id(),
        spec_after_text_pass(e, elapsed_ms).inv() == e.inv(),
        spec_after_text_pass(e, elapsed_ms).spec_geometry_type() == e.spec_geometry_type(),
{
}

/// A failure to assemble the instance batches: an element declared a
/// texture name with no atlas entry, a configuration error.
#[derive(Debug)]
pub enum InterfaceError {
    MissingTexture(String),
}

/// The atlas key an element resolves its rectangle by: its texture
/// name, or the flat-fill entry.
pub open spec fn spec_texture_key(e: Element) -> Seq<char> {
    match e.spec_texture_name() {
        Some(n) => n,
        Option::None => "solid"@,
    }
}

/// Whether every entry of the atlas has been placed (has half-texel
/// coordinates); `UiAtlas::add_entry` only inserts placed entries.
pub open spec fn spec_atlas_placed(atlas: AtlasView) -> bool {
    forall|i: int|
        0 <= i < atlas.entries.len() ==> (#[trigger] atlas.entries[i]).start_coord is Some
            && atlas.entries[i].end_coord is Some
}

/// The instance record an element contributes: its identity, absolute
/// geometry, color, and its atlas rectangle.
pub open spec fn spec_instance_record(e: Element, window_size: [u32; 2], atlas: AtlasView) -> InstanceRaw {
    let entry = atlas.entry_named(spec_texture_key(e));
    InstanceRaw {
        id: e.spec_id(),
        position: [
            e.spec_position_x(window_size) as i64,
            e.spec_position_y(window_size) as i64,
        ],
        color: e.spec_color(),
        scale: [e.spec_scale_x(window_size) as i64, e.spec_scale_y(window_size) as i64],
        tex_coords: [
            (entry.start_coord->0).0,
            (entry.start_coord->0).1,
            (entry.end_coord->0).0,
            (entry.end_coord->0).1,
        ],
    }
}

/// The instance batch of one geometry type: the records of its
/// elements, in insertion order.
pub open spec fn spec_batch(
    elems: Seq<Element>,
    window_size: [u32; 2],
    atlas: AtlasView,
    g: GeometryType,
) -> Seq<InstanceRaw>
    decreases elems.len(),
{
    if elems.len() == 0 {
        Seq::empty()
    } else {
        let rest = spec_batch(elems.drop_last(), window_size, atlas, g);
        if elems.last().spec_geometry_type() == g {
            rest.push(spec_instance_record(elems.last(), window_size, atlas))
        } else {
            rest
        }
    }
}

impl Interface {
    /// The base mesh of a geometry type: vertices and triangle indices.
    pub fn geometry_vertices(geometry_type: &GeometryType) -> (r: (Vec<Vertex>, Vec<u16>))
        ensures
            r.1@ == spec_quad_indices(),
            *geometry_type == GeometryType::Quad ==> r.0@ == spec_quad_vertices(),
            *geometry_type == GeometryType::Label ==> r.0@ == spec_label_vertices(),
    {
        let mut indices: Vec<u16> = Vec::new();
        indices.push(0);
        indices.push(1);
        indices.push(2);
        indices.push(2);
        indices.push(3);
        indices.push(0);
        proof {
            assert(indices@ =~= spec_quad_indices());
        }
        let mut vertices: Vec<Vertex> = Vec::new();
        match geometry_type {
            GeometryType::Quad => {
                vertices.push(Vertex { position: [-500, -500], quad_uv: [0, 0] });
                vertices.push(Vertex { position: [500, -500], quad_uv: [1000, 0] });
                vertices.push(Vertex { position: [500, 500], quad_uv: [1000, 1000] });
                vertices.push(Vertex { position: [-500, 500], quad_uv: [0, 1000] });
                proof {
                    assert(vertices@ =~= spec_quad_vertices());
                }
            },
            GeometryType::Label => {
                vertices.push(Vertex { position: [0, 0], quad_uv: [0, 1000] });
                vertices.push(Vertex { position: [0, 0], quad_uv: [1000, 1000] });
                vertices.push(Vertex { position: [0, 0], quad_uv: [1000, 0] });
                vertices.push(Vertex { position: [0, 0], quad_uv: [0, 0] });
                proof {
                    assert(vertices@ =~= spec_label_vertices());
                }
            },
        }
        (vertices, indices)
    }

    /// Rebuilds the per-type instance batches from the current element
    /// list: one record per element, grouped by geometry type, in
    /// insertion order. Fails — leaving the batches untouched — exactly
    /// when some element's texture key has no atlas entry, naming the
    /// first such key.
    pub fn rebuild_instances(&mut self, window_size: [u32; 2]) -> (r: Result<(), InterfaceError>)
        requires
            old(self).wf(),
            spec_atlas_placed(old(self).atlas@),
        ensures
            final(self).wf(),
            final(self).elements == old(self).elements,
            final(self).id_iterator == old(self).id_iterator,
            final(self).illegal_ids == old(self).illegal_ids,
            final(self).atlas == old(self).atlas,
            r is Ok <==> (forall|i: int|
                0 <= i < old(self).elements@.len() ==> old(self).atlas@.has_entry(
                    spec_texture_key(#[trigger] old(self).elements@[i]),
                )),
            r is Ok ==> final(self).quad_instances@ == spec_batch(
                old(self).elements@,
                window_size,
                old(self).atlas@,
                GeometryType::Quad,
            ) && final(self).label_instances@ == spec_batch(
                old(self).elements@,
                window_size,
                old(self).atlas@,
                GeometryType::Label,
            ),
            r matches Err(InterfaceError::MissingTexture(n)) ==> exists|i: int|
                {
                    &&& 0 <= i < old(self).elements@.len()
                    &&& !old(self).atlas@.has_entry(spec_texture_key(
                        #[trigger] old(self).elements@[i],
                    ))
                    &&& n@ == spec_texture_key(old(self).elements@[i])
                    &&& forall|j: int|
                        0 <= j < i ==> old(self).atlas@.has_entry(spec_texture_key(
                            #[trigger] old(self).elements@[j],
                        ))
                },
            r is Err ==> final(self).quad_instances == old(self).quad_instances,
            r is Err ==> final(self).label_instances == old(self).label_instances,
    {
        let ghost pre = *old(self);
        let mut quad: Vec<InstanceRaw> = Vec::new();
        let mut label: Vec<InstanceRaw> = Vec::new();
        let mut i: usize = 0;
        while i < self.elements.len()
            invariant
                *self == pre,
                pre.wf(),
                spec_atlas_placed(pre.atlas@),
                i <= pre.elements@.len(),
                forall|j: int|
                    0 <= j < i as int ==> pre.atlas@.has_entry(spec_texture_key(
                        #[trigger] pre.elements@[j],
                    )),
                quad@ == spec_batch(
                    pre.elements@.take(i as int),
                    window_size,
                    pre.atlas@,
                    GeometryType::Quad,
                ),
                label@ == spec_batch(
                    pre.elements@.take(i as int),
                    window_size,
                    pre.atlas@,
                    GeometryType::Label,
                ),
            decreases pre.elements@.len() - i as int,
        {
            let element = &self.elements[i];
            let key: String = match element.get_texture_name() {
                Some(name) => name,
                Option::None => "solid".to_owned(),
            };
            let entry = match self.atlas.get_entry_by_name(key) {
                Some(entry) => {
                    proof {
                        crate::definitions::lemma_entry_index_bounds(
                            pre.atlas@,
                            spec_texture_key(pre.elements@[i as int]),
                        );
                    }
                    entry
                },
                Option::None => {
                    let key_again: String = match element.get_texture_name() {
                        Some(name) => name,
                        Option::None => "solid".to_owned(),
                    };
                    return Result::Err(InterfaceError::MissingTexture(key_again));
                },
            };
            let (start0, start1) = match entry.start_coord {
                Some(c) => c,
                Option::None => {
                    proof {
                        let idx = pre.atlas@.entry_index(spec_texture_key(pre.elements@[i as int]));
                        assert(pre.atlas@.entries[idx].start_coord is Some);
                        assert(false);
                    }
                    (0, 0)
                },
            };
            let (end0, end1) = match entry.end_coord {
                Some(c) => c,
                Option::None => {
                    proof {
                        let idx = pre.atlas@.entry_index(spec_texture_key(pre.elements@[i as int]));
                        assert(pre.atlas@.entries[idx].end_coord is Some);
                        assert(false);
                    }
                    (0, 0)
                },
            };
            let position = element.get_position(window_size);
            let scale = element.get_scale(window_size);
            let instance = Instance::new(
                element.get_id(),
                element.get_geometry_type(),
                position,
                element.get_color(),
                scale,
            );
            let mut raw = instance.to_raw();
            raw.tex_coords = [start0, start1, end0, end1];
            proof {
                let spec_rec = spec_instance_record(pre.elements@[i as int], window_size, pre.atlas@);
                assert(raw.position =~= spec_rec.position);
                assert(raw.scale =~= spec_rec.scale);
                assert(raw.tex_coords =~= spec_rec.tex_coords);
                assert(raw == spec_rec);
                assert(pre.elements@.take(i as int + 1).drop_last() =~= pre.elements@.take(
                    i as int,
                ));
                assert(pre.elements@.take(i as int + 1).last() == pre.elements@[i as int]);
            }
            match element.get_geometry_type() {
                GeometryType::Quad => quad.push(raw),
                GeometryType::Label => label.push(raw),
            }
            i = i + 1;
        }
        proof {
            assert(pre.elements@.take(pre.elements@.len() as int) =~= pre.elements@);
        }
        self.quad_instances = quad;
        self.label_instances = label;
        Result::Ok(())
    }

    /// Collects the per-frame text sections of every label-geometry
    /// element, in insertion order, advancing each text box's blink
    /// state by `elapsed_ms` milliseconds. Nothing else — in particular
    /// no stored text and no instance batch — changes.
    pub fn update_vertices(&mut self, window_size: [u32; 2], elapsed_ms: u64) -> (sections: Vec<
        TextSection,
    >)
        requires
            old(self).wf(),
            spec_text_elements_consistent(old(self).elements@),
        ensures
            final(self).wf(),
            final(self).elements@ == old(self).elements@.map_values(
                |e: Element| spec_after_text_pass(e, elapsed_ms),
            ),
            spec_section_views(sections@) == spec_sections(
                old(self).elements@,
                window_size,
                elapsed_ms,
            ),
            final(self).quad_instances == old(self).quad_instances,
            final(self).label_instances == old(self).label_instances,
            final(self).id_iterator == old(self).id_iterator,
            final(self).illegal_ids == old(self).illegal_ids,
            final(self).atlas == old(self).atlas,
    {
        let ghost pre = *old(self);
        let mut sections: Vec<TextSection> = Vec::new();
        let mut i: usize = 0;
        while i < self.elements.len()
            invariant
                pre.wf(),
                spec_text_elements_consistent(pre.elements@),
                i <= pre.elements@.len(),
                self.elements@.len() == pre.elements@.len(),
                forall|j: int|
                    0 <= j < i as int ==> self.elements@[j] == spec_after_text_pass(
                        #[trigger] pre.elements@[j],
                        elapsed_ms,
                    ),
                forall|j: int|
                    i as int <= j < pre.elements@.len() ==> self.elements@[j] == #[trigger] pre.elements@[j],
                spec_section_views(sections@) == spec_sections(
                    pre.elements@.take(i as int),
                    window_size,
                    elapsed_ms,
                ),
                self.quad_instances == pre.quad_instances,
                self.label_instances == pre.label_instances,
                self.id_iterator == pre.id_iterator,
                self.illegal_ids == pre.illegal_ids,
                self.atlas == pre.atlas,
            decreases pre.elements@.len() - i as int,
        {
            proof {
                assert(pre.elements@.take(i as int + 1).drop_last() =~= pre.elements@.take(
                    i as int,
                ));
                assert(pre.elements@.take(i as int + 1).last() == pre.elements@[i as int]);
            }
            let element = &mut self.elements[i];
            if element.get_geometry_type() == GeometryType::Label {
                let position = element.get_position(window_size);
                let color = element.get_color();
                let bounds = element.get_bounds();
                let text = match element.get_text(elapsed_ms) {
                    Some(text) => text,
                    Option::None => {
                        proof {
                            assert(false);
                        }
                        "".to_owned()
                    },
                };
                sections.push(TextSection { text, color, bounds, position });
                proof {
                    let sv = spec_section_of(pre.elements@[i as int], window_size, elapsed_ms);
                    let last = sections@.len() - 1;
                    assert(sections@[last]@.position =~= sv.position);
                    assert(sections@[last]@ == sv);
                    assert(spec_section_views(sections@) =~= spec_sections(
                        pre.elements@.take(i as int + 1),
                        window_size,
                        elapsed_ms,
                    ));
                }
            } else {
                proof {
                    assert(spec_section_views(sections@) =~= spec_sections(
                        pre.elements@.take(i as int + 1),
                        window_size,
                        elapsed_ms,
                    ));
                }
            }
            i = i + 1;
        }
        proof {
            assert(pre.elements@.take(pre.elements@.len() as int) =~= pre.elements@);
            assert forall|j: int| 0 <= j < pre.elements@.len() implies (
            #[trigger] pre.elements@[j]).inv() && spec_after_text_pass(
                pre.elements@[j],
                elapsed_ms,
            ).inv() by {
                lemma_text_pass_preserves(pre.elements@[j], elapsed_ms);
            }
            assert(self.elements@ =~= pre.elements@.map_values(
                |e: Element| spec_after_text_pass(e, elapsed_ms),
            ));
            assert forall|j: int| 0 <= j < self.elements@.len() implies (
            #[trigger] self.elements@[j]).spec_id() == pre.elements@[j].spec_id() && (
            self.elements@[j]).inv() by {
                lemma_text_pass_preserves(pre.elements@[j], elapsed_ms);
            }
            assert forall|k: int| 0 <= k < self.illegal_ids@.len() implies self.has_element_id(
                #[trigger] self.illegal_ids@[k],
            ) by {
                assert(pre.has_element_id(pre.illegal_ids@[k]));
                let w = choose|w: int|
                    0 <= w < pre.elements@.len() && (#[trigger] pre.elements@[w]).spec_id()
                        == pre.illegal_ids@[k];
                assert(self.elements@[w].spec_id() == self.illegal_ids@[k]);
            }
        }
        sections
    }
}

} // verus!
