use bezier_editor::application_event::ApplicationEvent;
use bezier_editor::editor_config::EditorConfig;
use bezier_editor::editor_layer::EditorLayer;
use bezier_editor::geometry::from_normalized_control_point;
use bezier_editor::geometry::SCALE;
use bezier_editor::renderer::Renderer;
use bezier_editor::renderer::RenderCommand;
use bezier_editor::renderer::ShaderProgram;

const WINDOW: (u32, u32) = (1024, 1024);

fn new_editor() -> EditorLayer {
    // Zero panel ratio: the working area spans (5,5)..(1019,1019).
    EditorLayer::new(WINDOW, 0)
}

fn right_click(editor: &mut EditorLayer, at: (u32, u32)) {
    editor.handle_event(ApplicationEvent::MouseRightButtonPressed, Some(at));
}

fn pixel_of(editor: &EditorLayer, idx: usize) -> (u32, u32) {
    from_normalized_control_point(editor.control_points_normalized[idx], editor.window_size)
}

#[test]
fn new_editor_has_empty_model() {
    let editor = new_editor();
    assert_eq!(editor.control_points_normalized.len(), 0);
    assert!(editor.control_point_dragged.is_none());
    assert_eq!(editor.window_size, WINDOW);
    assert_eq!(editor.working_area_top_left, (5, 5));
    assert_eq!(editor.working_area_bottom_right, (1019, 1019));
}

#[test]
fn side_panel_shrinks_working_area() {
    // A quarter-width panel moves the left edge of the working area.
    let editor = EditorLayer::new((1024, 768), SCALE / 4);
    assert_eq!(editor.working_area_top_left, (261, 5));
    assert_eq!(editor.working_area_bottom_right, (1019, 763));
    assert!(editor.is_in_working_area((300, 300)));
    assert!(!editor.is_in_working_area((200, 300)));
}

#[test]
fn right_click_on_empty_space_appends_one_point() {
    let mut editor = new_editor();
    right_click(&mut editor, (300, 300));
    assert_eq!(editor.control_points_normalized.len(), 1);
    // The stored point sits one radius up and left of the click, so the
    // click lands on the marker's visual center.
    assert_eq!(pixel_of(&editor, 0), (295, 295));
    right_click(&mut editor, (600, 700));
    assert_eq!(editor.control_points_normalized.len(), 2);
    assert_eq!(pixel_of(&editor, 1), (595, 695));
}

#[test]
fn right_click_on_a_point_removes_only_it_and_keeps_order() {
    let mut editor = new_editor();
    right_click(&mut editor, (300, 300));
    right_click(&mut editor, (500, 500));
    right_click(&mut editor, (700, 700));
    assert_eq!(editor.control_points_normalized.len(), 3);
    // Remove the middle point: one click removes exactly one point and
    // the relative order of the rest is preserved.
    right_click(&mut editor, (500, 500));
    assert_eq!(editor.control_points_normalized.len(), 2);
    assert_eq!(pixel_of(&editor, 0), (295, 295));
    assert_eq!(pixel_of(&editor, 1), (695, 695));
}

#[test]
fn clicks_outside_the_working_area_are_ignored() {
    let mut editor = new_editor();
    right_click(&mut editor, (3, 3));
    right_click(&mut editor, (1020, 500));
    right_click(&mut editor, (500, 1023));
    editor.handle_event(ApplicationEvent::MouseRightButtonPressed, None);
    assert_eq!(editor.control_points_normalized.len(), 0);
}

#[test]
fn left_press_selects_first_hit_point_for_dragging() {
    let mut editor = new_editor();
    right_click(&mut editor, (300, 300));
    right_click(&mut editor, (600, 600));
    editor.handle_event(ApplicationEvent::MouseLeftButtonPressed, Some((600, 600)));
    assert_eq!(editor.control_point_dragged, Some(1));
    // A press that hits nothing leaves the drag state unchanged.
    editor.handle_event(ApplicationEvent::MouseLeftButtonPressed, Some((100, 100)));
    assert_eq!(editor.control_point_dragged, Some(1));
}

#[test]
fn dragging_moves_the_point_to_the_cursor() {
    let mut editor = new_editor();
    right_click(&mut editor, (300, 300));
    editor.handle_event(ApplicationEvent::MouseLeftButtonPressed, Some((300, 300)));
    assert_eq!(editor.control_point_dragged, Some(0));
    editor.handle_event(ApplicationEvent::MouseMoved { x: 400, y: 500 }, None);
    // The dragged point follows the cursor, offset by the radius.
    assert_eq!(pixel_of(&editor, 0), (395, 495));
    assert_eq!(editor.last_mouse_pos, (400, 500));
    // Release clears the drag state unconditionally.
    editor.handle_event(ApplicationEvent::MouseLeftButtonReleased, None);
    assert!(editor.control_point_dragged.is_none());
}

#[test]
fn leaving_the_working_area_cancels_the_drag() {
    let mut editor = new_editor();
    right_click(&mut editor, (300, 300));
    editor.handle_event(ApplicationEvent::MouseLeftButtonPressed, Some((300, 300)));
    editor.handle_event(ApplicationEvent::MouseMoved { x: 400, y: 400 }, None);
    editor.handle_event(ApplicationEvent::MouseMoved { x: 2, y: 2 }, None);
    assert!(editor.control_point_dragged.is_none());
    // The point stays at its last valid position.
    assert_eq!(pixel_of(&editor, 0), (395, 395));
    // Further movement no longer drags it.
    editor.handle_event(ApplicationEvent::MouseMoved { x: 700, y: 700 }, None);
    assert_eq!(pixel_of(&editor, 0), (395, 395));
}

#[test]
fn right_click_during_a_drag_changes_nothing() {
    let mut editor = new_editor();
    right_click(&mut editor, (300, 300));
    editor.handle_event(ApplicationEvent::MouseLeftButtonPressed, Some((300, 300)));
    right_click(&mut editor, (600, 600));
    right_click(&mut editor, (300, 300));
    assert_eq!(editor.control_points_normalized.len(), 1);
    assert_eq!(editor.control_point_dragged, Some(0));
}

#[test]
fn resize_recomputes_working_area_and_keeps_points() {
    let mut editor = EditorLayer::new((1024, 1024), SCALE / 4);
    editor.handle_event(ApplicationEvent::MouseRightButtonPressed, Some((517, 517)));
    let stored = editor.control_points_normalized[0];
    editor.handle_event(ApplicationEvent::WindowResized { width: 2048, height: 512 }, None);
    assert_eq!(editor.window_size, (2048, 512));
    assert_eq!(editor.working_area_top_left, (517, 5));
    assert_eq!(editor.working_area_bottom_right, (2043, 507));
    // Stored points are normalized: a resize never rescales them, only
    // their pixel rendering.
    assert_eq!(editor.control_points_normalized[0], stored);
    assert_eq!(pixel_of(&editor, 0), (1024, 256));
}

fn strip_lens_and_depths(cmds: &[RenderCommand]) -> Vec<(&'static str, usize, u8)> {
    cmds.iter()
        .map(|c| match c {
            RenderCommand::SetViewport { .. } => ("viewport", 0, 0),
            RenderCommand::DrawTriangles { vertices, depth_tenths, .. } => {
                ("triangles", vertices.len(), *depth_tenths)
            }
            RenderCommand::DrawLineStrip { vertices, depth_tenths, .. } => {
                ("strip", vertices.len(), *depth_tenths)
            }
        })
        .collect()
}

#[test]
fn two_points_draw_only_strip_and_markers() {
    // List length two: no sampled curve and no evaluated marker, only the
    // raw connecting strip and the two point markers.
    let mut editor = new_editor();
    right_click(&mut editor, (300, 300));
    right_click(&mut editor, (600, 600));
    let mut renderer = Renderer::new(WINDOW, 256, 5000, ShaderProgram::new(1));
    let config = EditorConfig::default();
    editor.render(&mut renderer, &config);
    let cmds = renderer.take_commands();
    let shape = strip_lens_and_depths(&cmds);
    assert_eq!(shape, vec![("strip", 2, 0), ("triangles", 8, 4)]);
    match &cmds[0] {
        RenderCommand::DrawLineStrip { vertices, color, .. } => {
            // The strip runs through the marker centers.
            assert_eq!(vertices.as_slice(), &[(300, 300), (600, 600)]);
            assert_eq!(*color, config.control_points_strip_color);
        }
        _ => unreachable!(),
    }
    match &cmds[1] {
        RenderCommand::DrawTriangles { vertices, color, .. } => {
            // Each marker is an 11 by 11 quad cornered at the stored
            // point's pixel position.
            assert_eq!(vertices[0], (295, 295));
            assert_eq!(vertices[2], (306, 306));
            assert_eq!(*color, config.control_points_color);
        }
        _ => unreachable!(),
    }
}

#[test]
fn three_points_draw_all_four_layers() {
    let mut editor = new_editor();
    right_click(&mut editor, (305, 305));
    right_click(&mut editor, (505, 205));
    right_click(&mut editor, (705, 305));
    let mut renderer = Renderer::new(WINDOW, 256, 5000, ShaderProgram::new(1));
    let config = EditorConfig::default();
    editor.render(&mut renderer, &config);
    let cmds = renderer.take_commands();
    let shape = strip_lens_and_depths(&cmds);
    // Default sampling: one hundred samples give a step of 655 ticks and
    // ninety-nine interior sweep points, plus the two true endpoints.
    assert_eq!(
        shape,
        vec![("strip", 3, 0), ("strip", 101, 1), ("triangles", 12, 4), ("triangles", 4, 3)]
    );
}

#[test]
fn evaluated_marker_sits_at_the_exact_quadratic_midpoint() {
    // Control points at pixels (100,100), (200,50), (300,100) and ratio
    // one half: the evaluated marker is exactly at (200, 75).
    let mut editor = new_editor();
    right_click(&mut editor, (105, 105));
    right_click(&mut editor, (205, 55));
    right_click(&mut editor, (305, 105));
    assert_eq!(pixel_of(&editor, 0), (100, 100));
    assert_eq!(pixel_of(&editor, 1), (200, 50));
    assert_eq!(pixel_of(&editor, 2), (300, 100));
    let mut renderer = Renderer::new(WINDOW, 256, 5000, ShaderProgram::new(1));
    let config = EditorConfig::default();
    editor.render(&mut renderer, &config);
    let cmds = renderer.take_commands();
    match cmds.last().unwrap() {
        RenderCommand::DrawTriangles { vertices, color, depth_tenths, .. } => {
            assert_eq!(vertices[0], (200, 75));
            assert_eq!(*color, config.larp_point_color);
            assert_eq!(*depth_tenths, 3);
        }
        _ => panic!("expected the evaluated-point marker last"),
    }
}

#[test]
fn default_config_values() {
    let config = EditorConfig::default();
    assert_eq!(config.larp_ratio, SCALE / 2);
    assert_eq!(config.samples, 100);
}

#[test]
fn many_markers_split_into_bounded_quad_batches() {
    // Far more points than one quad submission holds: the marker batch
    // flushes at the configured capacity and continues.
    let mut editor = new_editor();
    let mut count = 0u32;
    'outer: for row in 0..30u32 {
        for col in 0..10u32 {
            right_click(&mut editor, (16 + 13 * col, 16 + 13 * row));
            count += 1;
            if count == 300 {
                break 'outer;
            }
        }
    }
    assert_eq!(editor.control_points_normalized.len(), 300);
    let mut renderer = Renderer::new(WINDOW, 256, 5000, ShaderProgram::new(1));
    let config = EditorConfig::default();
    editor.render(&mut renderer, &config);
    let cmds = renderer.take_commands();
    let shape = strip_lens_and_depths(&cmds);
    // Connecting strip, sampled curve, markers in two submissions of at
    // most 256 quads, and the evaluated-point marker.
    assert_eq!(
        shape,
        vec![
            ("strip", 300, 0),
            ("strip", 101, 1),
            ("triangles", 4 * 256, 4),
            ("triangles", 4 * 44, 4),
            ("triangles", 4, 3),
        ]
    );
}
