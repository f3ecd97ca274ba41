use rendering::definitions::Color;
use rendering::definitions::GeometryType;
use rendering::definitions::UiAtlas;
use rendering::definitions::UiAtlasTexture;
use rendering::elements::Element;
use rendering::elements::InteractionResult;
use rendering::elements::Panel;
use rendering::elements::UiEvent;
use rendering::interface::Interface;
use rendering::interface::InterfaceError;
use rendering::router::AppAction;
use rendering::router::AppState;
use rendering::router::AppLogic;
use rendering::router::InputEvent;
use rendering::user_interface::UserInterface;

fn white() -> Color {
    Color { r: 255, g: 255, b: 255, a: 255 }
}

fn plain_panel() -> Element {
    Element::Panel(Panel::new([500, 500], white(), [100, 100], "solid"))
}

fn project_atlas() -> UiAtlas {
    let mut atlas = UiAtlas::new(64, 64);
    atlas.add_entry(UiAtlasTexture::new("solid".to_string(), 0, 0, 16, 16));
    atlas.add_entry(UiAtlasTexture::new("close".to_string(), 16, 0, 16, 16));
    atlas.add_entry(UiAtlasTexture::new("maximize".to_string(), 32, 0, 16, 16));
    atlas.add_entry(UiAtlasTexture::new("minimize".to_string(), 48, 0, 16, 16));
    atlas
}

#[test]
fn reserved_ids_are_skipped_by_the_allocator() {
    // Reserving 5 before the counter reaches it leaves the automatic
    // assignments at 0 and 1: the reserved value is skipped only when
    // the counter reaches it.
    let mut interface = Interface::new(UiAtlas::new(0, 0));
    let first = interface.add_elements(plain_panel(), None);
    let second = interface.add_elements(plain_panel(), Some(5));
    let third = interface.add_elements(plain_panel(), None);
    assert_eq!([first, second, third], [0, 5, 1]);

    let ids: Vec<u32> = interface.elements.iter().map(|e| e.get_id()).collect();
    assert_eq!(ids, vec![0, 5, 1]);
}

#[test]
fn allocator_walks_past_a_reached_reservation() {
    let mut interface = Interface::new(UiAtlas::new(0, 0));
    assert_eq!(interface.add_elements(plain_panel(), Some(0)), 0);
    assert_eq!(interface.add_elements(plain_panel(), Some(1)), 1);
    // The counter sits at 0; both 0 and 1 are reserved, so the first
    // automatic id is 2.
    assert_eq!(interface.add_elements(plain_panel(), None), 2);
    assert_eq!(interface.add_elements(plain_panel(), None), 3);
}

#[test]
fn ids_stay_unique_across_insertions() {
    let mut interface = Interface::new(UiAtlas::new(0, 0));
    let reserved = [None, Some(7), None, Some(2), None, None];
    let mut ids: Vec<u32> = Vec::new();
    for r in reserved {
        ids.push(interface.add_elements(plain_panel(), r));
    }
    let mut sorted = ids.clone();
    sorted.sort();
    sorted.dedup();
    assert_eq!(sorted.len(), ids.len(), "ids collided: {:?}", ids);
}

#[test]
fn atlas_entries_get_half_texel_insets() {
    let mut atlas = UiAtlas::new(256, 128);
    atlas.add_entry(UiAtlasTexture::new("close".to_string(), 8, 4, 16, 32));
    let entry = atlas.get_entry_by_name("close".to_string()).unwrap();
    // Half-texel units: start at 2*8+1 of 512 and 2*4+1 of 256; end at
    // 2*24-1 and 2*36-1.
    assert_eq!(entry.start_coord, Some((17, 9)));
    assert_eq!(entry.end_coord, Some((47, 71)));
    assert!(atlas.get_entry_by_name("open".to_string()).is_none());
}

#[test]
fn geometry_vertices_are_the_unit_quad() {
    let (vertices, indices) = Interface::geometry_vertices(&GeometryType::Quad);
    assert_eq!(indices, vec![0, 1, 2, 2, 3, 0]);
    assert_eq!(vertices.len(), 4);
    assert_eq!(vertices[0].position, [-500, -500]);
    assert_eq!(vertices[0].quad_uv, [0, 0]);
    assert_eq!(vertices[2].position, [500, 500]);
    assert_eq!(vertices[2].quad_uv, [1000, 1000]);

    let (label_vertices, label_indices) = Interface::geometry_vertices(&GeometryType::Label);
    assert_eq!(label_indices, vec![0, 1, 2, 2, 3, 0]);
    assert_eq!(label_vertices[0].position, [0, 0]);
    assert_eq!(label_vertices[0].quad_uv, [0, 1000]);
}

#[test]
fn missing_texture_is_a_configuration_error() {
    let mut interface = Interface::new(UiAtlas::new(64, 64));
    interface.add_elements(plain_panel(), None);
    match interface.rebuild_instances([800, 600]) {
        Err(InterfaceError::MissingTexture(name)) => assert_eq!(name, "solid"),
        Ok(()) => panic!("an empty atlas cannot satisfy a textured panel"),
    }
}

#[test]
fn instances_batch_by_geometry_type_in_order() {
    let mut interface = Interface::new(project_atlas());
    interface.add_elements(plain_panel(), None);
    interface.add_elements(
        Element::Label(rendering::elements::Label::new("hi", [500, 500], [100, 100], white())),
        None,
    );
    interface.add_elements(plain_panel(), None);
    interface.rebuild_instances([800, 600]).unwrap();

    assert_eq!(interface.quad_instances.len(), 2);
    assert_eq!(interface.label_instances.len(), 1);
    assert_eq!(interface.quad_instances[0].id, 0);
    assert_eq!(interface.quad_instances[1].id, 2);
    assert_eq!(interface.quad_instances[0].position, [400, 300]);
    assert_eq!(interface.quad_instances[0].scale, [80, 60]);
    // The "solid" entry spans texels (0,0)..(16,16) of a 64x64 atlas:
    // half-texel coordinates 1..31 of 128.
    assert_eq!(interface.quad_instances[0].tex_coords, [1, 1, 31, 31]);
}

#[test]
fn text_sections_carry_rendered_text() {
    let mut interface = Interface::new(project_atlas());
    interface.add_elements(
        Element::Label(rendering::elements::Label::new("hi", [500, 500], [100, 100], white())),
        None,
    );
    interface.add_elements(plain_panel(), None);
    let sections = interface.update_vertices([800, 600], 0);
    assert_eq!(sections.len(), 1);
    assert_eq!(sections[0].text, "hi");
    // Anchored at the text's visual center: two characters offset the
    // scaled position by (15, 15).
    assert_eq!(sections[0].position, [400 - 15, 300 - 15]);
}

#[test]
fn builder_applies_in_order() {
    let mut interface = Interface::new(UiAtlas::new(0, 0));
    let mut ui = UserInterface::new();
    ui.add_panel([500, 10], "#0d1117ff", [1000, 20], "solid", Some(0));
    ui.add_label("title", [500, 10], [100, 20], "#ffffffff");
    ui.add_icon([990, 10], "#ffffffff", [10, 10], "close");
    interface.show(ui);

    assert_eq!(interface.elements.len(), 3);
    assert_eq!(interface.elements[0].get_id(), 0);
    assert_eq!(interface.elements[1].get_id(), 1);
    assert_eq!(interface.elements[2].get_id(), 2);
}

#[test]
fn project_view_holds_the_header() {
    let interface = AppLogic::build_project_view(project_atlas());
    assert_eq!(interface.elements.len(), 7);
    let ids: Vec<u32> = interface.elements.iter().map(|e| e.get_id()).collect();
    assert_eq!(ids, vec![0, 1, 2, 3, 4, 5, 6]);
    assert!(matches!(
        interface.elements[0].handle_click(),
        InteractionResult::Propogate(UiEvent::TitleBar)
    ));
}

#[test]
fn hover_resolves_to_the_smallest_box() {
    // The header: a full-width strip with small buttons nested in it.
    // Over a button, the button wins; over the bare strip, the title
    // bar wins; in the window body nothing is hovered.
    let interface = AppLogic::build_project_view(project_atlas());
    let logic = AppLogic::new(interface, project_atlas());
    let window: [u32; 2] = [800, 800];

    // The close button is centered at (792, 8) with a 16x16 box.
    assert_eq!(logic.handle_hover([792, 8], window), Some(1));
    // The minimize button is centered at (760, 8).
    assert_eq!(logic.handle_hover([760, 8], window), Some(5));
    // The bare strip away from the controls.
    assert_eq!(logic.handle_hover([200, 8], window), Some(0));
    // The window body.
    assert_eq!(logic.handle_hover([400, 400], window), None);
}

#[test]
fn click_dispatches_topmost_action() {
    let interface = AppLogic::build_project_view(project_atlas());
    let logic = AppLogic::new(interface, project_atlas());
    let window: [u32; 2] = [800, 800];

    assert!(matches!(
        logic.handle_click([792, 8], window),
        InteractionResult::Propogate(UiEvent::CloseRequested)
    ));
    assert!(matches!(
        logic.handle_click([776, 8], window),
        InteractionResult::Propogate(UiEvent::ResizeRequested)
    ));
    assert!(matches!(
        logic.handle_click([200, 8], window),
        InteractionResult::Propogate(UiEvent::TitleBar)
    ));
    assert!(matches!(
        logic.handle_click([400, 400], window),
        InteractionResult::NoInteraction
    ));
}

#[test]
fn hover_move_updates_bookkeeping() {
    let interface = AppLogic::build_project_view(project_atlas());
    let mut logic = AppLogic::new(interface, project_atlas());
    let actions =
        logic.default_state_event_handler(&InputEvent::CursorMoved { x: 792, y: 8 }, [800, 800]);
    assert_eq!(logic.app_data.curr_hover, Some(1));
    assert_eq!(logic.app_data.prev_hover, 1);
    assert_eq!(logic.app_data.last_logged_cursor_position, [792, 8]);
    assert!(actions.contains(&AppAction::RequestRedraw));
}

#[test]
fn selected_textbox_receives_typed_text() {
    let mut interface = Interface::new(project_atlas());
    let id = interface.add_elements(
        Element::TextBox(rendering::elements::TextBox::new(
            "",
            [500, 500],
            [100, 100],
            white(),
        )),
        None,
    );
    let mut logic = AppLogic::new(interface, project_atlas());
    logic.app_data.prev_hover = id;
    logic.app_data.selected = true;

    let actions = logic.default_state_event_handler(
        &InputEvent::TextKey { fragment: "a".to_string() },
        [800, 800],
    );
    assert!(actions.contains(&AppAction::RefreshText));
    assert_eq!(logic.interface.elements[0].get_text(0), Some("a".to_string()));

    // Without a selection, typing reaches nothing.
    logic.app_data.selected = false;
    let actions = logic.default_state_event_handler(
        &InputEvent::TextKey { fragment: "b".to_string() },
        [800, 800],
    );
    assert!(!actions.contains(&AppAction::RefreshText));
    assert_eq!(logic.interface.elements[0].get_text(0), Some("a".to_string()));
}

#[test]
fn close_click_propagates_exit() {
    let interface = AppLogic::build_project_view(project_atlas());
    let mut logic = AppLogic::new(interface, project_atlas());
    logic.app_data.last_logged_cursor_position = [792, 8];
    let actions = logic.default_state_event_handler(&InputEvent::MouseLeftPressed, [800, 800]);
    assert!(actions.contains(&AppAction::Exit));
}

#[test]
fn resize_event_asks_for_a_rebuild() {
    let interface = AppLogic::build_project_view(project_atlas());
    let mut logic = AppLogic::new(interface, project_atlas());
    let actions = logic.default_state_event_handler(
        &InputEvent::Resized { width: 640, height: 480 },
        [800, 800],
    );
    assert_eq!(actions[0], AppAction::ResizeRenderer { width: 640, height: 480 });
    assert_eq!(*actions.last().unwrap(), AppAction::RebuildInterface);
}

#[test]
fn rebuild_interface_recomputes_batches() {
    let interface = AppLogic::build_project_view(project_atlas());
    let mut logic = AppLogic::new(interface, project_atlas());
    logic.rebuild_interface([800, 800]).unwrap();
    // The header is seven quad elements; none draws text.
    assert_eq!(logic.interface.quad_instances.len(), 7);
    assert_eq!(logic.interface.label_instances.len(), 0);
}

#[test]
fn reservation_before_allocation_keeps_low_ids() {
    let mut interface = Interface::new(UiAtlas::new(0, 0));
    let first = interface.add_elements(plain_panel(), Some(5));
    let second = interface.add_elements(plain_panel(), None);
    let third = interface.add_elements(plain_panel(), None);
    assert_eq!([first, second, third], [5, 0, 1]);
}

#[test]
fn builder_buttons_carry_their_actions() {
    let mut interface = Interface::new(UiAtlas::new(0, 0));
    let mut ui = UserInterface::new();
    ui.add_prop_button([990, 10], "#5c030300", [20, 20], UiEvent::CloseRequested, "solid");
    ui.add_button([970, 10], "#30363d00", [20, 20], "solid");
    interface.show(ui);

    assert!(matches!(
        interface.elements[0].handle_click(),
        InteractionResult::Propogate(UiEvent::CloseRequested)
    ));
    assert!(matches!(interface.elements[1].handle_click(), InteractionResult::Success));
}

#[test]
fn state_labels_read_back() {
    assert_eq!(AppState::Default.label(), "Default");
    assert_eq!(AppState::Resizing.label(), "Resizing");
}
