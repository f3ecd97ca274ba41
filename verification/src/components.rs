//! Reusable UI components: the window header with its title bar,
//! close, maximize and minimize controls.

use vstd::prelude::*;

use crate::definitions::spec_from_hex;
use crate::elements::ButtonAction;
use crate::elements::Element;
use crate::elements::UiEvent;
use crate::user_interface::UserInterface;
use crate::user_interface::spec_reserved;

verus! {

/// The reserved-id column the header contributes: the title-bar panel
/// under the reserved id 0, everything else auto-assigned.
pub open spec fn spec_header_reserved() -> Seq<Option<u32>> {
    seq![
        Some(0u32),
        Option::<u32>::None,
        Option::<u32>::None,
        Option::<u32>::None,
        Option::<u32>::None,
        Option::<u32>::None,
        Option::<u32>::None,
    ]
}

/// Builds the window header: the full-width title-bar panel (reserved
/// id 0, so clicks on it drag the window), and the close, maximize and
/// minimize buttons, each with its icon.
pub fn header_componenet(ui: &mut UserInterface)
    ensures
        final(ui).pending@.len() == old(ui).pending@.len() + 7,
        final(ui).pending@.take(old(ui).pending@.len() as int) == old(ui).pending@,
        spec_reserved(final(ui).pending@) == spec_reserved(old(ui).pending@)
            + spec_header_reserved(),
        old(ui).all_inv() ==> final(ui).all_inv(),
        forall|k: int|
            old(ui).pending@.len() <= k < final(ui).pending@.len() ==> (
            #[trigger] final(ui).pending@[k]).0.spec_geometry_type()
                == crate::definitions::GeometryType::Quad,
        ({
            let base = old(ui).pending@.len() as int;
            &&& final(ui).pending@[base].0 matches Element::Panel(p) && p.texture_name@
                == "solid"@
            &&& final(ui).pending@[base + 1].0 matches Element::Button(b) && b.action == Some(
                ButtonAction::Emit(UiEvent::CloseRequested),
            ) && b.texture_name@ == "solid"@
            &&& final(ui).pending@[base + 2].0 matches Element::Icon(i) && i.texture_name@
                == "close"@
            &&& final(ui).pending@[base + 3].0 matches Element::Button(b) && b.action == Some(
                ButtonAction::Emit(UiEvent::ResizeRequested),
            ) && b.texture_name@ == "solid"@
            &&& final(ui).pending@[base + 4].0 matches Element::Icon(i) && i.texture_name@
                == "maximize"@
            &&& final(ui).pending@[base + 5].0 matches Element::Button(b) && b.action == Some(
                ButtonAction::Emit(UiEvent::SetMinimized),
            ) && b.texture_name@ == "solid"@
            &&& final(ui).pending@[base + 6].0 matches Element::Icon(i) && i.texture_name@
                == "minimize"@
        }),
{
    proof {
        reveal_strlit("#0d1117ff");
        reveal_strlit("#5c030300");
        reveal_strlit("#ffffffff");
        reveal_strlit("#30363d00");
        assert(spec_from_hex("#0d1117ff"@) is Some) by {
            assert forall|i: int| 1 <= i < 9 implies crate::definitions::spec_is_hex_digit(
                #[trigger] "#0d1117ff"@[i],
            ) by {}
        }
        assert(spec_from_hex("#5c030300"@) is Some) by {
            assert forall|i: int| 1 <= i < 9 implies crate::definitions::spec_is_hex_digit(
                #[trigger] "#5c030300"@[i],
            ) by {}
        }
        assert(spec_from_hex("#ffffffff"@) is Some) by {
            assert forall|i: int| 1 <= i < 9 implies crate::definitions::spec_is_hex_digit(
                #[trigger] "#ffffffff"@[i],
            ) by {}
        }
        assert(spec_from_hex("#30363d00"@) is Some) by {
            assert forall|i: int| 1 <= i < 9 implies crate::definitions::spec_is_hex_digit(
                #[trigger] "#30363d00"@[i],
            ) by {}
        }
    }
    let header_y: u32 = 10;

    ui.add_panel([500, header_y], "#0d1117ff", [1000, header_y * 2], "solid", Some(0));

    // Close control.
    ui.add_prop_button(
        [990, header_y],
        "#5c030300",
        [20, header_y * 2],
        UiEvent::CloseRequested,
        "solid",
    );
    ui.add_icon([990, header_y], "#ffffffff", [10, 10], "close");

    // Maximize control.
    ui.add_prop_button(
        [970, header_y],
        "#30363d00",
        [20, header_y * 2],
        UiEvent::ResizeRequested,
        "solid",
    );
    ui.add_icon([970, header_y], "#ffffffff", [12, 12], "maximize");

    // Minimize control.
    ui.add_prop_button(
        [950, header_y],
        "#30363d00",
        [20, header_y * 2],
        UiEvent::SetMinimized,
        "solid",
    );
    ui.add_icon([950, header_y], "#ffffffff", [12, 12], "minimize");

    proof {
        assert(final(ui).pending@.take(old(ui).pending@.len() as int) =~= old(ui).pending@);
        assert(spec_reserved(final(ui).pending@) =~= spec_reserved(old(ui).pending@)
            + spec_header_reserved());
    }
}

} // verus!
