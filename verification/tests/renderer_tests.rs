use bezier_editor::renderer::Renderer;
use bezier_editor::renderer::RenderCommand;
use bezier_editor::renderer::Rgb;
use bezier_editor::renderer::ShaderProgram;

const RED: Rgb = Rgb { r: 255, g: 0, b: 0 };

fn new_renderer(max_quads: usize, max_lines: usize) -> Renderer {
    Renderer::new((800, 600), max_quads, max_lines, ShaderProgram::new(7))
}

#[test]
fn shader_program_keeps_its_id() {
    let program = ShaderProgram::new(42);
    assert_eq!(program.get_program_gl_id(), 42);
}

#[test]
fn one_quad_makes_four_vertices_and_six_indices() {
    let mut r = new_renderer(16, 16);
    r.begin_quad_batch(RED, 4);
    r.push_quad((10, 20), (11, 11));
    r.end_quad_batch();
    let cmds = r.take_commands();
    assert_eq!(cmds.len(), 1);
    match &cmds[0] {
        RenderCommand::DrawTriangles { vertices, indices, color, depth_tenths } => {
            // Corner order: top-left, bottom-left, bottom-right, top-right.
            assert_eq!(vertices.as_slice(), &[(10, 20), (10, 31), (21, 31), (21, 20)]);
            assert_eq!(indices.as_slice(), &[0, 1, 2, 0, 3, 2]);
            assert_eq!(*color, RED);
            assert_eq!(*depth_tenths, 4);
        }
        other => panic!("expected triangles, got {:?}", kind_of(other)),
    }
}

#[test]
fn empty_quad_batch_emits_nothing() {
    let mut r = new_renderer(16, 16);
    r.begin_quad_batch(RED, 0);
    r.end_quad_batch();
    assert_eq!(r.take_commands().len(), 0);
}

#[test]
fn quad_batch_flushes_at_capacity() {
    // Capacity two quads: five quads make two full submissions and one
    // remainder.
    let mut r = new_renderer(2, 16);
    r.begin_quad_batch(RED, 0);
    for i in 0..5u32 {
        r.push_quad((i, i), (1, 1));
    }
    r.end_quad_batch();
    let cmds = r.take_commands();
    assert_eq!(cmds.len(), 3);
    let sizes: Vec<usize> = cmds
        .iter()
        .map(|c| match c {
            RenderCommand::DrawTriangles { vertices, .. } => vertices.len() / 4,
            _ => panic!("expected triangles"),
        })
        .collect();
    assert_eq!(sizes, vec![2, 2, 1]);
    // Indices restart at zero in every submission.
    for c in &cmds {
        if let RenderCommand::DrawTriangles { vertices, indices, .. } = c {
            assert_eq!(indices.len(), 6 * (vertices.len() / 4));
            assert_eq!(indices[0], 0);
            assert!(indices.iter().all(|&i| (i as usize) < vertices.len()));
        }
    }
}

#[test]
fn short_line_strip_is_one_submission() {
    let mut r = new_renderer(16, 16);
    r.begin_line_strip((1, 2), RED, 1);
    r.push_point((3, 4));
    r.push_point((5, 6));
    r.end_line_strip();
    let cmds = r.take_commands();
    assert_eq!(cmds.len(), 1);
    match &cmds[0] {
        RenderCommand::DrawLineStrip { vertices, color, depth_tenths } => {
            assert_eq!(vertices.as_slice(), &[(1, 2), (3, 4), (5, 6)]);
            assert_eq!(*color, RED);
            assert_eq!(*depth_tenths, 1);
        }
        other => panic!("expected line strip, got {:?}", kind_of(other)),
    }
}

#[test]
fn long_line_strip_stays_connected_across_flushes() {
    // Buffer of four vertices (three segments); many more points than the
    // capacity still yield a connected polyline: each flushed strip's
    // last vertex is carried over as the next strip's first vertex.
    let mut r = new_renderer(16, 3);
    let pushed: Vec<(u32, u32)> = (0u32..25).map(|i| (i, 2 * i)).collect();
    r.begin_line_strip(pushed[0], RED, 0);
    for &p in &pushed[1..] {
        r.push_point(p);
    }
    r.end_line_strip();
    let cmds = r.take_commands();
    let strips: Vec<&Vec<(u32, u32)>> = cmds
        .iter()
        .map(|c| match c {
            RenderCommand::DrawLineStrip { vertices, .. } => vertices,
            _ => panic!("expected line strips only"),
        })
        .collect();
    assert!(strips.len() > 1, "expected more than one flush");
    for w in strips.windows(2) {
        assert_eq!(w[0].last(), w[1].first(), "strips disconnected at a flush boundary");
    }
    // No segment dropped: joining the strips (counting each carried
    // vertex once) reconstructs the pushed polyline exactly.
    let mut joined: Vec<(u32, u32)> = strips[0].clone();
    for s in &strips[1..] {
        joined.extend_from_slice(&s[1..]);
    }
    assert_eq!(joined, pushed);
}

#[test]
fn set_viewport_is_recorded_in_order() {
    let mut r = new_renderer(4, 4);
    r.set_viewport((1920, 1080));
    assert_eq!(r.viewport_size, (1920, 1080));
    r.begin_quad_batch(RED, 0);
    r.push_quad((0, 0), (1, 1));
    r.end_quad_batch();
    let cmds = r.take_commands();
    assert_eq!(cmds.len(), 2);
    match &cmds[0] {
        RenderCommand::SetViewport { width, height } => {
            assert_eq!((*width, *height), (1920, 1080));
        }
        other => panic!("expected viewport change first, got {:?}", kind_of(other)),
    }
    assert!(matches!(cmds[1], RenderCommand::DrawTriangles { .. }));
}

#[test]
fn take_commands_drains_the_list() {
    let mut r = new_renderer(4, 4);
    r.set_viewport((10, 10));
    assert_eq!(r.take_commands().len(), 1);
    assert_eq!(r.take_commands().len(), 0);
}

fn kind_of(c: &RenderCommand) -> &'static str {
    match c {
        RenderCommand::SetViewport { .. } => "SetViewport",
        RenderCommand::DrawTriangles { .. } => "DrawTriangles",
        RenderCommand::DrawLineStrip { .. } => "DrawLineStrip",
    }
}
