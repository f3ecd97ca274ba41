//! A scoped declarative-construction facade: a builder that collects
//! elements and hands them to an `Interface` in one pass.

use vstd::prelude::*;

use crate::definitions::Color;
use crate::definitions::GeometryType;
use crate::definitions::spec_from_hex;
use crate::elements::Button;
use crate::elements::ButtonAction;
use crate::elements::Element;
use crate::elements::Icon;
use crate::elements::Label;
use crate::elements::MAX_TEXT_LEN;
use crate::elements::Panel;
use crate::elements::REL_LIMIT;
use crate::elements::UiEvent;
use crate::interface::AllocState;
use crate::interface::Interface;

verus! {

/// The reserved-id column of a pending batch.
pub open spec fn spec_reserved(pending: Seq<(Element, Option<u32>)>) -> Seq<Option<u32>> {
    pending.map_values(|p: (Element, Option<u32>)| p.1)
}

/// The elements a pending batch adds, each under the id the allocator
/// assigns it, in order.
pub open spec fn spec_applied(st: AllocState, pending: Seq<(Element, Option<u32>)>) -> Seq<Element>
    decreases pending.len(),
{
    if pending.len() == 0 {
        Seq::empty()
    } else {
        seq![pending[0].0.spec_with_id(st.assigned(pending[0].1))] + spec_applied(
            st.step(pending[0].1),
            pending.drop_first(),
        )
    }
}

/// Collects elements (with optional reserved ids) to be added to an
/// `Interface` in one `show` pass.
pub struct UserInterface {
    pub pending: Vec<(Element, Option<u32>)>,
}

impl UserInterface {
    pub open spec fn all_inv(self) -> bool {
        forall|i: int| 0 <= i < self.pending@.len() ==> (#[trigger] self.pending@[i]).0.inv()
    }

    pub fn new() -> (r: Self)
        ensures
            r.pending@.len() == 0,
    {
        UserInterface { pending: Vec::new() }
    }

    /// Appends a manually constructed element to the batch.
    pub fn add_element(&mut self, element: Element, id: Option<u32>)
        requires
            element.inv(),
        ensures
            final(self).pending@ == old(self).pending@.push((element, id)),
    {
        self.pending.push((element, id));
    }

    /// Appends a panel. The id is usually absent; `Some(0)` marks the
    /// title-bar panel, which propagates window dragging when clicked.
    pub fn add_panel(
        &mut self,
        relative_position: [u32; 2],
        color: &str,
        relative_scale: [u32; 2],
        texture_name: &str,
        id: Option<u32>,
    )
        requires
            relative_position[0] <= REL_LIMIT,
            relative_position[1] <= REL_LIMIT,
            relative_scale[0] <= REL_LIMIT,
            relative_scale[1] <= REL_LIMIT,
            spec_from_hex(color@) is Some,
        ensures
            final(self).pending@.len() == old(self).pending@.len() + 1,
            final(self).pending@.take(old(self).pending@.len() as int) == old(self).pending@,
            final(self).pending@.last().1 == id,
            final(self).pending@.last().0 matches Element::Panel(p) && p.id == 0
                && p.geometry_type == GeometryType::Quad && p.relative_position
                == relative_position && p.relative_scale == relative_scale && p.color
                == spec_from_hex(color@)->0 && p.texture_name@ == texture_name@,
            final(self).pending@.last().0.inv(),
            old(self).all_inv() ==> final(self).all_inv(),
    {
        let parsed = match Color::from_hex(color) {
            Some(c) => c,
            Option::None => {
                proof {
                    assert(false);
                }
                Color { r: 0, g: 0, b: 0, a: 0 }
            },
        };
        let element = Element::Panel(Panel::new(relative_position, parsed, relative_scale, texture_name));
        self.pending.push((element, id));
        proof {
            assert(final(self).pending@.take(old(self).pending@.len() as int) =~= old(
                self,
            ).pending@);
        }
    }

    /// Appends a button that runs a locally registered callback on
    /// click; the shell dispatches the callback by the assigned id.
    pub fn add_button(
        &mut self,
        relative_position: [u32; 2],
        color: &str,
        relative_scale: [u32; 2],
        texture_name: &str,
    )
        requires
            relative_position[0] <= REL_LIMIT,
            relative_position[1] <= REL_LIMIT,
            relative_scale[0] <= REL_LIMIT,
            relative_scale[1] <= REL_LIMIT,
            spec_from_hex(color@) is Some,
        ensures
            final(self).pending@.len() == old(self).pending@.len() + 1,
            final(self).pending@.take(old(self).pending@.len() as int) == old(self).pending@,
            final(self).pending@.last().1 is None,
            final(self).pending@.last().0 matches Element::Button(b) && b.id == 0
                && b.geometry_type == GeometryType::Quad && b.relative_position
                == relative_position && b.relative_scale == relative_scale && b.color
                == spec_from_hex(color@)->0 && b.texture_name@ == texture_name@ && b.action
                == Some(ButtonAction::RunCallback),
            final(self).pending@.last().0.inv(),
            old(self).all_inv() ==> final(self).all_inv(),
    {
        let parsed = match Color::from_hex(color) {
            Some(c) => c,
            Option::None => {
                proof {
                    assert(false);
                }
                Color { r: 0, g: 0, b: 0, a: 0 }
            },
        };
        let element = Element::Button(
            Button::new(relative_position, parsed, relative_scale, texture_name).with_fn(),
        );
        self.pending.push((element, Option::None));
        proof {
            assert(final(self).pending@.take(old(self).pending@.len() as int) =~= old(
                self,
            ).pending@);
        }
    }

    /// Appends a button that propagates the given window-level event on
    /// click.
    pub fn add_prop_button(
        &mut self,
        relative_position: [u32; 2],
        color: &str,
        relative_scale: [u32; 2],
        on_click: UiEvent,
        texture_name: &str,
    )
        requires
            relative_position[0] <= REL_LIMIT,
            relative_position[1] <= REL_LIMIT,
            relative_scale[0] <= REL_LIMIT,
            relative_scale[1] <= REL_LIMIT,
            spec_from_hex(color@) is Some,
        ensures
            final(self).pending@.len() == old(self).pending@.len() + 1,
            final(self).pending@.take(old(self).pending@.len() as int) == old(self).pending@,
            final(self).pending@.last().1 is None,
            final(self).pending@.last().0 matches Element::Button(b) && b.id == 0
                && b.geometry_type == GeometryType::Quad && b.relative_position
                == relative_position && b.relative_scale == relative_scale && b.color
                == spec_from_hex(color@)->0 && b.texture_name@ == texture_name@ && b.action
                == Some(ButtonAction::Emit(on_click)),
            final(self).pending@.last().0.inv(),
            old(self).all_inv() ==> final(self).all_inv(),
    {
        let parsed = match Color::from_hex(color) {
            Some(c) => c,
            Option::None => {
                proof {
                    assert(false);
                }
                Color { r: 0, g: 0, b: 0, a: 0 }
            },
        };
        let element = Element::Button(
            Button::new(relative_position, parsed, relative_scale, texture_name).with_prop_fn(
                on_click,
            ),
        );
        self.pending.push((element, Option::None));
        proof {
            assert(final(self).pending@.take(old(self).pending@.len() as int) =~= old(
                self,
            ).pending@);
        }
    }

    /// Appends a label containing text.
    pub fn add_label(
        &mut self,
        text: &str,
        relative_position: [u32; 2],
        text_scale: [u32; 2],
        color: &str,
    )
        requires
            relative_position[0] <= REL_LIMIT,
            relative_position[1] <= REL_LIMIT,
            text_scale[0] <= REL_LIMIT,
            text_scale[1] <= REL_LIMIT,
            text@.len() <= MAX_TEXT_LEN,
            spec_from_hex(color@) is Some,
        ensures
            final(self).pending@.len() == old(self).pending@.len() + 1,
            final(self).pending@.take(old(self).pending@.len() as int) == old(self).pending@,
            final(self).pending@.last().1 is None,
            final(self).pending@.last().0 matches Element::Label(l) && l.id == 0 && l.text@
                == text@ && l.relative_position == relative_position && l.relative_scale
                == text_scale && l.color == spec_from_hex(color@)->0,
            final(self).pending@.last().0.inv(),
            old(self).all_inv() ==> final(self).all_inv(),
    {
        let parsed = match Color::from_hex(color) {
            Some(c) => c,
            Option::None => {
                proof {
                    assert(false);
                }
                Color { r: 0, g: 0, b: 0, a: 0 }
            },
        };
        let element = Element::Label(Label::new(text, relative_position, text_scale, parsed));
        self.pending.push((element, Option::None));
        proof {
            assert(final(self).pending@.take(old(self).pending@.len() as int) =~= old(
                self,
            ).pending@);
        }
    }

    /// Appends an icon: a panel-like decoration whose scale is given
    /// directly in pixels.
    pub fn add_icon(
        &mut self,
        relative_position: [u32; 2],
        color: &str,
        relative_scale: [u32; 2],
        texture_name: &str,
    )
        requires
            relative_position[0] <= REL_LIMIT,
            relative_position[1] <= REL_LIMIT,
            relative_scale[0] <= REL_LIMIT,
            relative_scale[1] <= REL_LIMIT,
            spec_from_hex(color@) is Some,
        ensures
            final(self).pending@.len() == old(self).pending@.len() + 1,
            final(self).pending@.take(old(self).pending@.len() as int) == old(self).pending@,
            final(self).pending@.last().1 is None,
            final(self).pending@.last().0 matches Element::Icon(i) && i.id == 0
                && i.geometry_type == GeometryType::Quad && i.relative_position
                == relative_position && i.relative_scale == relative_scale && i.color
                == spec_from_hex(color@)->0 && i.texture_name@ == texture_name@,
            final(self).pending@.last().0.inv(),
            old(self).all_inv() ==> final(self).all_inv(),
    {
        let parsed = match Color::from_hex(color) {
            Some(c) => c,
            Option::None => {
                proof {
                    assert(false);
                }
                Color { r: 0, g: 0, b: 0, a: 0 }
            },
        };
        let element = Element::Icon(Icon::new(relative_position, parsed, relative_scale, texture_name));
        self.pending.push((element, Option::None));
        proof {
            assert(final(self).pending@.take(old(self).pending@.len() as int) =~= old(
                self,
            ).pending@);
        }
    }
}

impl Interface {
    /// Applies a builder's pending additions in order, assigning each
    /// element its stable id.
    pub fn show(&mut self, ui: UserInterface)
        requires
            old(self).wf(),
            ui.all_inv(),
            old(self).alloc_state().all_ok(spec_reserved(ui.pending@)),
        ensures
            final(self).wf(),
            final(self).elements@ == old(self).elements@ + spec_applied(
                old(self).alloc_state(),
                ui.pending@,
            ),
            final(self).quad_instances == old(self).quad_instances,
            final(self).label_instances == old(self).label_instances,
            final(self).atlas == old(self).atlas,
    {
        let ghost pre = *old(self);
        let ghost pre_pending = ui.pending@;
        let mut ui = ui;
        while ui.pending.len() > 0
            invariant
                self.wf(),
                ui.all_inv(),
                self.alloc_state().all_ok(spec_reserved(ui.pending@)),
                pre.elements@ + spec_applied(pre.alloc_state(), pre_pending) == self.elements@
                    + spec_applied(self.alloc_state(), ui.pending@),
                self.quad_instances == pre.quad_instances,
                self.label_instances == pre.label_instances,
                self.atlas == pre.atlas,
            decreases ui.pending@.len(),
        {
            let ghost st = self.alloc_state();
            let ghost remaining = ui.pending@;
            let (element, id) = ui.pending.remove(0);
            proof {
                assert(spec_reserved(remaining)[0] == id);
                assert(spec_reserved(remaining).drop_first() =~= spec_reserved(ui.pending@));
                assert(st.ok(id));
            }
            let ghost elems_before = self.elements@;
            let assigned = self.add_elements(element, id);
            proof {
                assert(spec_applied(st, remaining) == seq![element.spec_with_id(st.assigned(id))]
                    + spec_applied(st.step(id), remaining.drop_first()));
                assert(elems_before + spec_applied(st, remaining) =~= self.elements@
                    + spec_applied(self.alloc_state(), ui.pending@));
            }
        }
        proof {
            assert(spec_applied(self.alloc_state(), ui.pending@) =~= Seq::<Element>::empty());
            assert(pre.elements@ + spec_applied(pre.alloc_state(), pre_pending) =~= self.elements@);
        }
    }
}

} // verus!
