//! Batched 2D renderer: draw requests accumulate in growable CPU buffers
//! and are flushed in bounded-size submissions.
//!
//! The renderer itself performs no graphics calls. Every flush appends a
//! [`RenderCommand`] to a command list; the platform layer executes the
//! list against the actual graphics API under an orthographic projection
//! matching the current viewport. Quad batches flush whenever another
//! rectangle would exceed the configured capacity. Line strips flush a
//! full buffer immediately and carry the last vertex over as the first
//! vertex of the next submission, so an arbitrarily long strip stays
//! visually connected across flush boundaries.

use vstd::prelude::*;

verus! {

/// Stage of the draw-program build that a failure belongs to.
#[derive(Debug, Clone, Copy)]
pub enum ShaderType {
    Vertex,
    Fragment,
    Program,
}

/// Fatal failure to build the draw program, carrying the failing stage and
/// the raw compiler or linker diagnostic text.
#[derive(Debug)]
pub enum ShaderError {
    FailedToCompile { shader_type: ShaderType, error: String },
}

/// Handle of a compiled and linked draw program. Compiling and linking is
/// graphics-API work of the platform layer; the renderer only owns the
/// resulting id.
pub struct ShaderProgram {
    pub shader: u32,
}

impl ShaderProgram {
    /// Wraps the id of a program that the platform layer has compiled,
    /// linked and validated.
    pub fn new(shader: u32) -> (r: Self)
        ensures
            r.shader == shader,
    {
        Self { shader }
    }

    /// The graphics-API id of the owned program.
    pub fn get_program_gl_id(&self) -> (r: u32)
        ensures
            r == self.shader,
    {
        self.shader
    }
}

/// An RGB color, one byte per channel.
#[derive(Clone, Copy, Debug, PartialEq, Eq, Structural)]
pub struct Rgb {
    pub r: u8,
    pub g: u8,
    pub b: u8,
}

/// The mathematical content of one render command. Vertex positions are
/// pixel pairs; one color and one depth layer (in tenths of a depth unit)
/// apply to a whole submission.
#[verifier::ext_equal]
pub enum CmdView {
    SetViewport { width: int, height: int },
    Triangles { vertices: Seq<(u32, u32)>, indices: Seq<u32>, color: Rgb, depth_tenths: u8 },
    LineStrip { vertices: Seq<(u32, u32)>, color: Rgb, depth_tenths: u8 },
}

/// One submission to the platform graphics layer.
pub enum RenderCommand {
    /// Resize the rendering viewport and the orthographic projection so
    /// that (0, 0) maps to the top-left pixel and (width, height) to the
    /// bottom-right one.
    SetViewport { width: u32, height: u32 },
    /// Draw indexed triangles: every index triple is one filled triangle
    /// over the vertex list, all with the same color and depth.
    DrawTriangles { vertices: Vec<(u32, u32)>, indices: Vec<u32>, color: Rgb, depth_tenths: u8 },
    /// Draw a connected polyline through the vertices in order, with one
    /// color and depth.
    DrawLineStrip { vertices: Vec<(u32, u32)>, color: Rgb, depth_tenths: u8 },
}

impl View for RenderCommand {
    type V = CmdView;

    open spec fn view(&self) -> CmdView {
        match self {
            RenderCommand::SetViewport { width, height } => CmdView::SetViewport {
                width: *width as int,
                height: *height as int,
            },
            RenderCommand::DrawTriangles { vertices, indices, color, depth_tenths } => CmdView::Triangles {
                vertices: vertices@,
                indices: indices@,
                color: *color,
                depth_tenths: *depth_tenths,
            },
            RenderCommand::DrawLineStrip { vertices, color, depth_tenths } => CmdView::LineStrip {
                vertices: vertices@,
                color: *color,
                depth_tenths: *depth_tenths,
            },
        }
    }
}

/// The views of a command list.
pub open spec fn cmd_views(s: Seq<RenderCommand>) -> Seq<CmdView> {
    s.map_values(|c: RenderCommand| c@)
}

/// An axis-aligned rectangle request: position of the top-left corner and
/// size, both in pixels.
pub type Quad = ((u32, u32), (u32, u32));

/// The corners of a quad fit in pixel coordinates.
pub open spec fn quad_in_bounds(q: Quad) -> bool {
    q.0.0 + q.1.0 <= u32::MAX && q.0.1 + q.1.1 <= u32::MAX
}

/// The four corner vertices of a quad, in the order top-left, bottom-left,
/// bottom-right, top-right.
pub open spec fn quad_corners(q: Quad) -> Seq<(u32, u32)> {
    let (pos, size) = q;
    seq![
        pos,
        (pos.0, (pos.1 + size.1) as u32),
        ((pos.0 + size.0) as u32, (pos.1 + size.1) as u32),
        ((pos.0 + size.0) as u32, pos.1),
    ]
}

/// The vertices of a run of quads, four corners each.
pub open spec fn quads_vertices(qs: Seq<Quad>) -> Seq<(u32, u32)>
    decreases qs.len(),
{
    if qs.len() == 0 {
        Seq::empty()
    } else {
        quads_vertices(qs.drop_last()) + quad_corners(qs.last())
    }
}

/// The two triangles of the quad whose corners start at vertex `4 * k`:
/// (top-left, bottom-left, bottom-right) and (top-left, top-right,
/// bottom-right).
pub open spec fn quad_index_pattern(k: int) -> Seq<u32> {
    seq![
        (4 * k) as u32,
        (4 * k + 1) as u32,
        (4 * k + 2) as u32,
        (4 * k) as u32,
        (4 * k + 3) as u32,
        (4 * k + 2) as u32,
    ]
}

/// The indices of a run of `n` quads, six per quad.
pub open spec fn quads_indices(n: int) -> Seq<u32>
    decreases n,
{
    if n <= 0 {
        Seq::empty()
    } else {
        quads_indices(n - 1) + quad_index_pattern(n - 1)
    }
}

/// A run of quads contributes four vertices each.
pub proof fn lemma_quads_vertices_len(qs: Seq<Quad>)
    ensures
        quads_vertices(qs).len() == 4 * qs.len(),
    decreases qs.len(),
{
    if qs.len() > 0 {
        lemma_quads_vertices_len(qs.drop_last());
    }
}

/// A run of `n` quads contributes six indices each.
pub proof fn lemma_quads_indices_len(n: int)
    requires
        n >= 0,
    ensures
        quads_indices(n).len() == 6 * n,
    decreases n,
{
    if n > 0 {
        lemma_quads_indices_len(n - 1);
    }
}

/// A run of a single quad holds its four corners and one index pattern.
pub proof fn lemma_quads_one(q: Quad)
    ensures
        quads_vertices(seq![q]) == quad_corners(q),
        quads_indices(1) == quad_index_pattern(0),
{
    let s = seq![q];
    assert(s.drop_last() =~= Seq::<Quad>::empty());
    assert(quads_vertices(s) == quads_vertices(s.drop_last()) + quad_corners(s.last()));
    assert(quads_vertices(Seq::<Quad>::empty()) == Seq::<(u32, u32)>::empty());
    assert(quads_vertices(s) =~= quad_corners(q));
    assert(quads_indices(1) == quads_indices(0) + quad_index_pattern(0));
    assert(quads_indices(0) == Seq::<u32>::empty());
    assert(quads_indices(1) =~= quad_index_pattern(0));
}

/// The triangle submission that flushing `qs` produces.
pub open spec fn triangles_view(qs: Seq<Quad>, color: Rgb, depth_tenths: u8) -> CmdView {
    CmdView::Triangles {
        vertices: quads_vertices(qs),
        indices: quads_indices(qs.len() as int),
        color,
        depth_tenths,
    }
}

/// State of an open quad batch after `quads` were pushed with capacity
/// `max_quads`: the submissions flushed so far and the quads still
/// buffered. A push flushes the buffer first whenever it is full, so no
/// submission ever exceeds `max_quads` quads.
pub open spec fn quad_run(quads: Seq<Quad>, max_quads: nat, color: Rgb, depth_tenths: u8) -> (
    Seq<CmdView>,
    Seq<Quad>,
)
    decreases quads.len(),
{
    if quads.len() == 0 {
        (Seq::<CmdView>::empty(), Seq::<Quad>::empty())
    } else {
        let (flushed, buf) = quad_run(quads.drop_last(), max_quads, color, depth_tenths);
        if buf.len() >= max_quads {
            (flushed.push(triangles_view(buf, color, depth_tenths)), seq![quads.last()])
        } else {
            (flushed, buf.push(quads.last()))
        }
    }
}

/// All submissions of a complete quad batch over `quads`: the flushed runs
/// plus the non-empty remainder that the closing call flushes.
pub open spec fn quad_batch_views(
    quads: Seq<Quad>,
    max_quads: nat,
    color: Rgb,
    depth_tenths: u8,
) -> Seq<CmdView> {
    let (flushed, buf) = quad_run(quads, max_quads, color, depth_tenths);
    if buf.len() > 0 {
        flushed.push(triangles_view(buf, color, depth_tenths))
    } else {
        flushed
    }
}

/// Accumulates axis-aligned rectangles between a `begin_batch` and an
/// `end_batch` call and flushes them as bounded indexed-triangle
/// submissions.
pub struct QuadRenderer {
    pub vertices: Vec<(u32, u32)>,
    pub indices: Vec<u32>,
    pub max_quads: usize,
    pub active: bool,
    pub color: Rgb,
    pub depth_tenths: u8,
    /// All quads pushed since the batch was opened.
    pub pushed: Ghost<Seq<Quad>>,
    /// The command list as it stood when the batch was opened.
    pub cmds_at_begin: Ghost<Seq<RenderCommand>>,
}

impl QuadRenderer {
    /// The buffers hold exactly the corners and indices of the quads still
    /// pending per [`quad_run`], and the buffer never exceeds the
    /// capacity.
    pub open spec fn wf(self) -> bool {
        &&& 1 <= self.max_quads <= 0x0FFF_FFFFusize
        &&& self.active ==> {
            let (flushed, buf) = quad_run(
                self.pushed@,
                self.max_quads as nat,
                self.color,
                self.depth_tenths,
            );
            &&& self.vertices@ == quads_vertices(buf)
            &&& self.indices@ == quads_indices(buf.len() as int)
            &&& buf.len() <= self.max_quads
            &&& forall|i: int| 0 <= i < self.pushed@.len() ==> quad_in_bounds(#[trigger] self.pushed@[i])
        }
        &&& !self.active ==> self.vertices@.len() == 0 && self.indices@.len() == 0
    }

    /// While the batch is open, `cmds` is the command list seen at
    /// `begin_batch` extended by exactly the flushed runs.
    pub open spec fn flushed_into(self, cmds: Seq<RenderCommand>) -> bool {
        self.active ==> cmd_views(cmds) == cmd_views(self.cmds_at_begin@) + quad_run(
            self.pushed@,
            self.max_quads as nat,
            self.color,
            self.depth_tenths,
        ).0
    }

    /// A fresh quad batcher for submissions of at most `max_quads` quads.
    pub fn new(max_quads: usize) -> (r: Self)
        requires
            1 <= max_quads <= 0x0FFF_FFFFusize,
        ensures
            r.wf(),
            !r.active,
            r.max_quads == max_quads,
    {
        Self {
            vertices: Vec::new(),
            indices: Vec::new(),
            max_quads,
            active: false,
            color: Rgb { r: 0, g: 0, b: 0 },
            depth_tenths: 0,
            pushed: Ghost(Seq::empty()),
            cmds_at_begin: Ghost(Seq::empty()),
        }
    }

    /// Uploads the buffered quads as one triangle submission and resets
    /// the buffers; with nothing buffered it does nothing.
    fn flush(&mut self, out: &mut Vec<RenderCommand>)
        requires
            old(self).vertices@.len() == 0 ==> old(self).indices@.len() == 0,
        ensures
            final(self).vertices@.len() == 0,
            final(self).indices@.len() == 0,
            old(self).vertices@.len() == 0 ==> final(out)@ == old(out)@,
            old(self).vertices@.len() > 0 ==> cmd_views(final(out)@) == cmd_views(old(out)@).push(
                CmdView::Triangles {
                    vertices: old(self).vertices@,
                    indices: old(self).indices@,
                    color: old(self).color,
                    depth_tenths: old(self).depth_tenths,
                },
            ),
            final(self).max_quads == old(self).max_quads,
            final(self).active == old(self).active,
            final(self).color == old(self).color,
            final(self).depth_tenths == old(self).depth_tenths,
            final(self).pushed == old(self).pushed,
            final(self).cmds_at_begin == old(self).cmds_at_begin,
    {
        if self.vertices.len() == 0 {
            return ;
        }
        let mut vertices: Vec<(u32, u32)> = Vec::new();
        let mut indices: Vec<u32> = Vec::new();
        std::mem::swap(&mut vertices, &mut self.vertices);
        std::mem::swap(&mut indices, &mut self.indices);
        out.push(
            RenderCommand::DrawTriangles {
                vertices,
                indices,
                color: self.color,
                depth_tenths: self.depth_tenths,
            },
        );
        proof {
            assert(cmd_views(out@) =~= cmd_views(old(out)@).push(
                CmdView::Triangles {
                    vertices: old(self).vertices@,
                    indices: old(self).indices@,
                    color: old(self).color,
                    depth_tenths: old(self).depth_tenths,
                },
            ));
        }
    }

    /// Opens a quad batch drawing with one interpolated color and depth;
    /// the buffers start empty.
    pub fn begin_batch(&mut self, out: &Vec<RenderCommand>, color: Rgb, depth_tenths: u8)
        requires
            old(self).wf(),
            !old(self).active,
        ensures
            final(self).wf(),
            final(self).flushed_into(out@),
            final(self).active,
            final(self).pushed@ == Seq::<Quad>::empty(),
            final(self).cmds_at_begin@ == out@,
            final(self).color == color,
            final(self).depth_tenths == depth_tenths,
            final(self).max_quads == old(self).max_quads,
    {
        self.vertices.clear();
        self.indices.clear();
        self.color = color;
        self.depth_tenths = depth_tenths;
        self.active = true;
        self.pushed = Ghost(Seq::empty());
        self.cmds_at_begin = Ghost(out@);
        proof {
            assert(cmd_views(out@) =~= cmd_views(out@) + quad_run(
                Seq::<Quad>::empty(),
                self.max_quads as nat,
                color,
                depth_tenths,
            ).0);
            assert(self.vertices@ =~= quads_vertices(Seq::<Quad>::empty()));
            assert(self.indices@ =~= quads_indices(0));
        }
    }

    /// Accumulates one rectangle: four corner vertices and the indices of
    /// its two triangles. When the buffer is already at capacity it is
    /// flushed first, so a submission never exceeds `max_quads` quads.
    pub fn push_quad(&mut self, out: &mut Vec<RenderCommand>, pos: (u32, u32), size: (u32, u32))
        requires
            old(self).wf(),
            old(self).active,
            old(self).flushed_into(old(out)@),
            pos.0 + size.0 <= u32::MAX,
            pos.1 + size.1 <= u32::MAX,
        ensures
            final(self).wf(),
            final(self).active,
            final(self).flushed_into(final(out)@),
            final(self).pushed@ == old(self).pushed@.push((pos, size)),
            final(self).max_quads == old(self).max_quads,
            final(self).color == old(self).color,
            final(self).depth_tenths == old(self).depth_tenths,
            final(self).cmds_at_begin == old(self).cmds_at_begin,
    {
        let ghost q: Quad = (pos, size);
        let ghost prev = quad_run(
            self.pushed@,
            self.max_quads as nat,
            self.color,
            self.depth_tenths,
        );
        proof {
            lemma_quads_vertices_len(prev.1);
            lemma_quads_indices_len(prev.1.len() as int);
        }
        if self.vertices.len() + 4 > self.max_quads * 4 {
            self.flush(out);
        }
        let base = self.vertices.len() as u32;
        self.vertices.push(pos);
        self.vertices.push((pos.0, pos.1 + size.1));
        self.vertices.push((pos.0 + size.0, pos.1 + size.1));
        self.vertices.push((pos.0 + size.0, pos.1));
        self.indices.push(base);
        self.indices.push(base + 1);
        self.indices.push(base + 2);
        self.indices.push(base);
        self.indices.push(base + 3);
        self.indices.push(base + 2);
        self.pushed = Ghost(self.pushed@.push(q));
        proof {
            assert(self.pushed@.drop_last() =~= old(self).pushed@);
            let (flushed, buf) = quad_run(
                self.pushed@,
                self.max_quads as nat,
                self.color,
                self.depth_tenths,
            );
            if prev.1.len() >= self.max_quads {
                assert(buf =~= seq![q]);
                lemma_quads_one(q);
                assert(self.vertices@ =~= quads_vertices(buf));
                assert(self.indices@ =~= quads_indices(1));
                assert(cmd_views(out@) =~= cmd_views(self.cmds_at_begin@) + flushed);
            } else {
                assert(buf =~= prev.1.push(q));
                assert(buf.drop_last() =~= prev.1);
                assert(self.vertices@ =~= quads_vertices(buf));
                assert(self.indices@ =~= quads_indices(buf.len() as int));
            }
        }
    }

    /// Closes the batch: flushes any buffered remainder and releases the
    /// batch state. The command list then extends the list seen at
    /// `begin_batch` by exactly the submissions of the whole batch.
    pub fn end_batch(&mut self, out: &mut Vec<RenderCommand>)
        requires
            old(self).wf(),
            old(self).active,
            old(self).flushed_into(old(out)@),
        ensures
            final(self).wf(),
            !final(self).active,
            cmd_views(final(out)@) == cmd_views(old(self).cmds_at_begin@) + quad_batch_views(
                old(self).pushed@,
                old(self).max_quads as nat,
                old(self).color,
                old(self).depth_tenths,
            ),
            final(self).max_quads == old(self).max_quads,
    {
        proof {
            let (flushed, buf) = quad_run(
                self.pushed@,
                self.max_quads as nat,
                self.color,
                self.depth_tenths,
            );
            lemma_quads_vertices_len(buf);
        }
        self.flush(out);
        self.active = false;
        proof {
            let (flushed, buf) = quad_run(
                old(self).pushed@,
                old(self).max_quads as nat,
                old(self).color,
                old(self).depth_tenths,
            );
            if buf.len() > 0 {
                assert(cmd_views(out@) =~= cmd_views(old(self).cmds_at_begin@)
                    + quad_batch_views(
                    old(self).pushed@,
                    old(self).max_quads as nat,
                    old(self).color,
                    old(self).depth_tenths,
                ));
            } else {
                assert(cmd_views(out@) =~= cmd_views(old(self).cmds_at_begin@)
                    + quad_batch_views(
                    old(self).pushed@,
                    old(self).max_quads as nat,
                    old(self).color,
                    old(self).depth_tenths,
                ));
            }
        }
    }
}

/// The polyline submission that flushing a vertex buffer produces.
pub open spec fn line_strip_view(pts: Seq<(u32, u32)>, color: Rgb, depth_tenths: u8) -> CmdView {
    CmdView::LineStrip { vertices: pts, color, depth_tenths }
}

/// State of an open line strip after `pts` were pushed (the starting
/// point included) with a buffer of `max_vertices`: the strips flushed so
/// far and the vertices still buffered. A full buffer is flushed whole
/// and its last vertex is carried over as the first vertex of the next
/// strip, so the polyline stays connected across the flush.
pub open spec fn strip_run(
    pts: Seq<(u32, u32)>,
    max_vertices: nat,
    color: Rgb,
    depth_tenths: u8,
) -> (Seq<CmdView>, Seq<(u32, u32)>)
    decreases pts.len(),
{
    if pts.len() == 0 {
        (Seq::<CmdView>::empty(), Seq::<(u32, u32)>::empty())
    } else {
        let (flushed, buf) = strip_run(pts.drop_last(), max_vertices, color, depth_tenths);
        if buf.len() >= max_vertices {
            (flushed.push(line_strip_view(buf, color, depth_tenths)), seq![buf.last(), pts.last()])
        } else {
            (flushed, buf.push(pts.last()))
        }
    }
}

/// All submissions of a complete line-strip batch over `pts`: the flushed
/// strips plus the buffered remainder that the closing call flushes.
pub open spec fn strip_batch_views(
    pts: Seq<(u32, u32)>,
    max_vertices: nat,
    color: Rgb,
    depth_tenths: u8,
) -> Seq<CmdView> {
    let (flushed, buf) = strip_run(pts, max_vertices, color, depth_tenths);
    flushed.push(line_strip_view(buf, color, depth_tenths))
}

/// The vertex sequence a polyline submission draws.
pub open spec fn strip_vertices_of(c: CmdView) -> Seq<(u32, u32)> {
    match c {
        CmdView::LineStrip { vertices, .. } => vertices,
        _ => Seq::empty(),
    }
}

/// The single polyline that a sequence of strips draws when each strip
/// begins with the vertex the previous one ends with: every carried joint
/// vertex is counted once.
pub open spec fn joined_strips(strips: Seq<Seq<(u32, u32)>>) -> Seq<(u32, u32)>
    decreases strips.len(),
{
    if strips.len() == 0 {
        Seq::<(u32, u32)>::empty()
    } else if strips.len() == 1 {
        strips[0]
    } else {
        joined_strips(strips.drop_last()) + strips.last().skip(1)
    }
}

/// Line-strip batching never drops a segment: however many points run
/// through a bounded buffer, every flushed strip is full, each one starts
/// with the vertex the previous one ends with (the carry at the flush
/// boundary), the buffered remainder continues from the last flushed
/// strip, and joining all of them reconstructs the pushed polyline
/// exactly.
pub proof fn lemma_strip_batching_connected(
    pts: Seq<(u32, u32)>,
    max_vertices: nat,
    color: Rgb,
    depth_tenths: u8,
)
    requires
        2 <= max_vertices,
        1 <= pts.len(),
    ensures
        ({
            let (flushed, buf) = strip_run(pts, max_vertices, color, depth_tenths);
            &&& 1 <= buf.len() <= max_vertices
            &&& forall|i: int|
                0 <= i < flushed.len() ==> strip_vertices_of(#[trigger] flushed[i]).len()
                    == max_vertices
            &&& forall|i: int|
                0 < i < flushed.len() ==> strip_vertices_of(#[trigger] flushed[i]).first()
                    == strip_vertices_of(flushed[i - 1]).last()
            &&& flushed.len() > 0 ==> buf.first() == strip_vertices_of(flushed.last()).last()
            &&& joined_strips(
                flushed.map_values(|c: CmdView| strip_vertices_of(c)).push(buf),
            ) == pts
        }),
    decreases pts.len(),
{
    let (flushed, buf) = strip_run(pts, max_vertices, color, depth_tenths);
    let strip_of = |c: CmdView| strip_vertices_of(c);
    if pts.len() == 1 {
        assert(pts.drop_last() =~= Seq::<(u32, u32)>::empty());
        assert(buf =~= seq![pts[0]]);
        assert(flushed =~= Seq::<CmdView>::empty());
        assert(flushed.map_values(strip_of).push(buf) =~= seq![buf]);
        assert(joined_strips(seq![buf]) == buf);
        assert(buf =~= pts);
    } else {
        let prev = pts.drop_last();
        let p = pts.last();
        lemma_strip_batching_connected(prev, max_vertices, color, depth_tenths);
        let (pf, pb) = strip_run(prev, max_vertices, color, depth_tenths);
        let pss = pf.map_values(strip_of).push(pb);
        if pb.len() >= max_vertices {
            assert(flushed == pf.push(line_strip_view(pb, color, depth_tenths)));
            assert(buf =~= seq![pb.last(), p]);
            assert forall|i: int| 0 <= i < flushed.len() implies strip_vertices_of(
                #[trigger] flushed[i],
            ).len() == max_vertices by {
                if i < pf.len() {
                    assert(flushed[i] == pf[i]);
                } else {
                    assert(flushed[i] == line_strip_view(pb, color, depth_tenths));
                }
            }
            assert forall|i: int| 0 < i < flushed.len() implies strip_vertices_of(
                #[trigger] flushed[i],
            ).first() == strip_vertices_of(flushed[i - 1]).last() by {
                if i < pf.len() {
                    assert(flushed[i] == pf[i] && flushed[i - 1] == pf[i - 1]);
                } else {
                    assert(flushed[i] == line_strip_view(pb, color, depth_tenths));
                    if i - 1 >= 0 && pf.len() > 0 {
                        assert(flushed[i - 1] == pf[pf.len() - 1]);
                    }
                }
            }
            let ss = flushed.map_values(strip_of).push(buf);
            assert(ss.drop_last() =~= pss);
            assert(ss.last() == buf);
            assert(joined_strips(ss) == joined_strips(pss) + buf.skip(1));
            assert(joined_strips(pss) + buf.skip(1) =~= prev + seq![p]);
            assert(prev + seq![p] =~= pts);
        } else {
            assert(flushed == pf);
            assert(buf =~= pb.push(p));
            let ss = flushed.map_values(strip_of).push(buf);
            if pf.len() == 0 {
                assert(ss =~= seq![buf]);
                assert(joined_strips(ss) == buf);
                assert(pss =~= seq![pb]);
                assert(joined_strips(pss) == pb);
                assert(buf =~= prev.push(p));
                assert(prev.push(p) =~= pts);
            } else {
                assert(ss.drop_last() =~= pf.map_values(strip_of));
                assert(joined_strips(ss) == joined_strips(pf.map_values(strip_of)) + buf.skip(
                    1,
                ));
                assert(pss.drop_last() =~= pf.map_values(strip_of));
                assert(joined_strips(pss) == joined_strips(pf.map_values(strip_of)) + pb.skip(
                    1,
                ));
                assert(buf.skip(1) =~= pb.skip(1).push(p));
                assert(joined_strips(pf.map_values(strip_of)) + buf.skip(1) =~= (joined_strips(
                    pf.map_values(strip_of),
                ) + pb.skip(1)).push(p));
                assert(joined_strips(pss).push(p) =~= prev.push(p));
                assert(prev.push(p) =~= pts);
            }
        }
    }
}

/// Accumulates a connected polyline between a `begin_line_strip` and an
/// `end_line_strip` call and flushes it as bounded polyline submissions,
/// carrying the last vertex across every flush boundary.
pub struct LineRenderer {
    pub vertices: Vec<(u32, u32)>,
    pub max_vertices: usize,
    pub active: bool,
    pub color: Rgb,
    pub depth_tenths: u8,
    /// All vertices pushed since the strip was opened, the starting point
    /// included.
    pub pushed: Ghost<Seq<(u32, u32)>>,
    /// The command list as it stood when the strip was opened.
    pub cmds_at_begin: Ghost<Seq<RenderCommand>>,
}

impl LineRenderer {
    /// The buffer holds exactly the pending vertices per [`strip_run`],
    /// is never empty while the strip is open, and never exceeds the
    /// capacity.
    pub open spec fn wf(self) -> bool {
        &&& 2 <= self.max_vertices <= 0x0FFF_FFFFusize
        &&& self.active ==> {
            let (flushed, buf) = strip_run(
                self.pushed@,
                self.max_vertices as nat,
                self.color,
                self.depth_tenths,
            );
            &&& self.pushed@.len() >= 1
            &&& self.vertices@ == buf
            &&& 1 <= buf.len() <= self.max_vertices
        }
        &&& !self.active ==> self.vertices@.len() == 0
    }

    /// While the strip is open, `cmds` is the command list seen at
    /// `begin_line_strip` extended by exactly the flushed strips.
    pub open spec fn flushed_into(self, cmds: Seq<RenderCommand>) -> bool {
        self.active ==> cmd_views(cmds) == cmd_views(self.cmds_at_begin@) + strip_run(
            self.pushed@,
            self.max_vertices as nat,
            self.color,
            self.depth_tenths,
        ).0
    }

    /// A fresh line batcher whose buffer holds the vertices of at most
    /// `max_lines` segments.
    pub fn new(max_lines: usize) -> (r: Self)
        requires
            1 <= max_lines <= 0x0FFF_FFFEusize,
        ensures
            r.wf(),
            !r.active,
            r.max_vertices == max_lines + 1,
    {
        Self {
            vertices: Vec::new(),
            max_vertices: max_lines + 1,
            active: false,
            color: Rgb { r: 0, g: 0, b: 0 },
            depth_tenths: 0,
            pushed: Ghost(Seq::empty()),
            cmds_at_begin: Ghost(Seq::empty()),
        }
    }

    /// Uploads the buffered vertices as one polyline submission and
    /// resets the buffer.
    fn flush(&mut self, out: &mut Vec<RenderCommand>)
        ensures
            final(self).vertices@.len() == 0,
            cmd_views(final(out)@) == cmd_views(old(out)@).push(
                line_strip_view(old(self).vertices@, old(self).color, old(self).depth_tenths),
            ),
            final(self).max_vertices == old(self).max_vertices,
            final(self).active == old(self).active,
            final(self).color == old(self).color,
            final(self).depth_tenths == old(self).depth_tenths,
            final(self).pushed == old(self).pushed,
            final(self).cmds_at_begin == old(self).cmds_at_begin,
    {
        let mut vertices: Vec<(u32, u32)> = Vec::new();
        std::mem::swap(&mut vertices, &mut self.vertices);
        out.push(
            RenderCommand::DrawLineStrip {
                vertices,
                color: self.color,
                depth_tenths: self.depth_tenths,
            },
        );
        proof {
            assert(cmd_views(out@) =~= cmd_views(old(out)@).push(
                line_strip_view(old(self).vertices@, old(self).color, old(self).depth_tenths),
            ));
        }
    }

    /// Opens a polyline at `starting_point`, drawing with one
    /// interpolated color and depth.
    pub fn begin_line_strip(
        &mut self,
        out: &Vec<RenderCommand>,
        starting_point: (u32, u32),
        color: Rgb,
        depth_tenths: u8,
    )
        requires
            old(self).wf(),
            !old(self).active,
        ensures
            final(self).wf(),
            final(self).flushed_into(out@),
            final(self).active,
            final(self).pushed@ == seq![starting_point],
            final(self).cmds_at_begin@ == out@,
            final(self).color == color,
            final(self).depth_tenths == depth_tenths,
            final(self).max_vertices == old(self).max_vertices,
    {
        self.vertices.clear();
        self.vertices.push(starting_point);
        self.color = color;
        self.depth_tenths = depth_tenths;
        self.active = true;
        let ghost start_pushed = seq![starting_point];
        self.pushed = Ghost(start_pushed);
        self.cmds_at_begin = Ghost(out@);
        proof {
            let (flushed, buf) = strip_run(
                seq![starting_point],
                self.max_vertices as nat,
                color,
                depth_tenths,
            );
            assert(seq![starting_point].drop_last() =~= Seq::<(u32, u32)>::empty());
            assert(strip_run(
                Seq::<(u32, u32)>::empty(),
                self.max_vertices as nat,
                color,
                depth_tenths,
            ) == (Seq::<CmdView>::empty(), Seq::<(u32, u32)>::empty()));
            assert(buf =~= seq![starting_point]);
            assert(flushed =~= Seq::<CmdView>::empty());
            assert(self.vertices@ =~= buf);
            assert(cmd_views(out@) =~= cmd_views(out@) + flushed);
        }
    }

    /// Extends the polyline to `point`. When the buffer is full it is
    /// flushed whole first and its last vertex is carried over, so the
    /// flushed strip ends with the vertex the new buffer starts with and
    /// no segment is lost.
    pub fn push_point(&mut self, out: &mut Vec<RenderCommand>, point: (u32, u32))
        requires
            old(self).wf(),
            old(self).active,
            old(self).flushed_into(old(out)@),
        ensures
            final(self).wf(),
            final(self).active,
            final(self).flushed_into(final(out)@),
            final(self).pushed@ == old(self).pushed@.push(point),
            final(self).max_vertices == old(self).max_vertices,
            final(self).color == old(self).color,
            final(self).depth_tenths == old(self).depth_tenths,
            final(self).cmds_at_begin == old(self).cmds_at_begin,
            old(self).vertices@.len() == old(self).max_vertices ==> {
                &&& cmd_views(final(out)@) == cmd_views(old(out)@).push(
                    line_strip_view(old(self).vertices@, old(self).color, old(self).depth_tenths),
                )
                &&& final(self).vertices@ == seq![old(self).vertices@.last(), point]
            },
            old(self).vertices@.len() < old(self).max_vertices ==> {
                &&& final(out)@ == old(out)@
                &&& final(self).vertices@ == old(self).vertices@.push(point)
            },
    {
        if self.vertices.len() == self.max_vertices {
            let carry = self.vertices[self.vertices.len() - 1];
            self.flush(out);
            self.vertices.push(carry);
            self.vertices.push(point);
        } else {
            self.vertices.push(point);
        }
        self.pushed = Ghost(self.pushed@.push(point));
        proof {
            assert(self.pushed@.drop_last() =~= old(self).pushed@);
            let (flushed, buf) = strip_run(
                self.pushed@,
                self.max_vertices as nat,
                self.color,
                self.depth_tenths,
            );
            let (pf, pb) = strip_run(
                old(self).pushed@,
                old(self).max_vertices as nat,
                old(self).color,
                old(self).depth_tenths,
            );
            if pb.len() >= old(self).max_vertices {
                assert(buf =~= seq![pb.last(), point]);
                assert(self.vertices@ =~= buf);
            } else {
                assert(buf =~= pb.push(point));
                assert(self.vertices@ =~= buf);
            }
        }
    }

    /// Closes the polyline: flushes the buffered remainder and releases
    /// the strip state. The command list then extends the list seen at
    /// `begin_line_strip` by exactly the submissions of the whole strip.
    pub fn end_line_strip(&mut self, out: &mut Vec<RenderCommand>)
        requires
            old(self).wf(),
            old(self).active,
            old(self).flushed_into(old(out)@),
        ensures
            final(self).wf(),
            !final(self).active,
            cmd_views(final(out)@) == cmd_views(old(self).cmds_at_begin@) + strip_batch_views(
                old(self).pushed@,
                old(self).max_vertices as nat,
                old(self).color,
                old(self).depth_tenths,
            ),
            final(self).max_vertices == old(self).max_vertices,
    {
        self.flush(out);
        self.active = false;
        proof {
            assert(cmd_views(out@) =~= cmd_views(old(self).cmds_at_begin@) + strip_batch_views(
                old(self).pushed@,
                old(self).max_vertices as nat,
                old(self).color,
                old(self).depth_tenths,
            ));
        }
    }
}

/// The batched renderer: owns the draw-program handle, a quad batcher, a
/// line batcher and the pixel viewport, and collects the submissions of a
/// frame in a command list that the platform layer executes in order.
pub struct Renderer {
    pub shader_program: ShaderProgram,
    pub quad_renderer: QuadRenderer,
    pub line_renderer: LineRenderer,
    pub viewport_size: (u32, u32),
    pub commands: Vec<RenderCommand>,
}

impl Renderer {
    /// Both batchers are consistent with the command list and at most one
    /// batch is open at a time.
    pub open spec fn wf(self) -> bool {
        &&& self.quad_renderer.wf()
        &&& self.line_renderer.wf()
        &&& self.quad_renderer.flushed_into(self.commands@)
        &&& self.line_renderer.flushed_into(self.commands@)
        &&& !(self.quad_renderer.active && self.line_renderer.active)
    }

    /// Some batch is currently open.
    pub open spec fn batch_open(self) -> bool {
        self.quad_renderer.active || self.line_renderer.active
    }

    /// The draw program, viewport and batch capacities agree between two
    /// renderer states.
    pub open spec fn same_config(self, other: Renderer) -> bool {
        &&& self.shader_program == other.shader_program
        &&& self.viewport_size == other.viewport_size
        &&& self.quad_renderer.max_quads == other.quad_renderer.max_quads
        &&& self.line_renderer.max_vertices == other.line_renderer.max_vertices
    }

    /// A renderer for a drawable surface of `viewport_size` pixels whose
    /// submissions hold at most `max_quads_per_batch` quads or
    /// `max_lines_per_batch` line segments. The compiled draw program
    /// comes from the platform layer.
    pub fn new(
        viewport_size: (u32, u32),
        max_quads_per_batch: usize,
        max_lines_per_batch: usize,
        shader_program: ShaderProgram,
    ) -> (r: Self)
        requires
            1 <= max_quads_per_batch <= 0x0FFF_FFFFusize,
            1 <= max_lines_per_batch <= 0x0FFF_FFFEusize,
        ensures
            r.wf(),
            !r.batch_open(),
            r.commands@.len() == 0,
            r.viewport_size == viewport_size,
            r.shader_program == shader_program,
            r.quad_renderer.max_quads == max_quads_per_batch,
            r.line_renderer.max_vertices == max_lines_per_batch + 1,
    {
        Self {
            shader_program,
            quad_renderer: QuadRenderer::new(max_quads_per_batch),
            line_renderer: LineRenderer::new(max_lines_per_batch),
            viewport_size,
            commands: Vec::new(),
        }
    }

    /// Records the new drawable surface size: the platform layer executes
    /// the submission by resizing the rendering viewport and recomputing
    /// the orthographic projection so that (0, 0) maps to the top-left
    /// pixel and `size` to the bottom-right one.
    pub fn set_viewport(&mut self, size: (u32, u32))
        requires
            old(self).wf(),
            !old(self).batch_open(),
        ensures
            final(self).wf(),
            !final(self).batch_open(),
            final(self).viewport_size == size,
            final(self).commands@ == old(self).commands@.push(
                RenderCommand::SetViewport { width: size.0, height: size.1 },
            ),
            final(self).shader_program == old(self).shader_program,
            final(self).quad_renderer == old(self).quad_renderer,
            final(self).line_renderer == old(self).line_renderer,
    {
        self.viewport_size = size;
        self.commands.push(RenderCommand::SetViewport { width: size.0, height: size.1 });
    }

    /// Opens a quad batch drawing with one interpolated color and depth.
    pub fn begin_quad_batch(&mut self, color: Rgb, depth_tenths: u8)
        requires
            old(self).wf(),
            !old(self).batch_open(),
        ensures
            final(self).wf(),
            final(self).quad_renderer.active,
            !final(self).line_renderer.active,
            final(self).quad_renderer.pushed@ == Seq::<Quad>::empty(),
            final(self).quad_renderer.cmds_at_begin@ == old(self).commands@,
            final(self).quad_renderer.color == color,
            final(self).quad_renderer.depth_tenths == depth_tenths,
            final(self).commands@ == old(self).commands@,
            final(self).same_config(*old(self)),
    {
        self.quad_renderer.begin_batch(&self.commands, color, depth_tenths);
    }

    /// Accumulates one axis-aligned rectangle at `position` of `size`
    /// pixels; flushes a full buffer first so no submission exceeds the
    /// configured capacity.
    pub fn push_quad(&mut self, position: (u32, u32), size: (u32, u32))
        requires
            old(self).wf(),
            old(self).quad_renderer.active,
            position.0 + size.0 <= u32::MAX,
            position.1 + size.1 <= u32::MAX,
        ensures
            final(self).wf(),
            final(self).quad_renderer.active,
            !final(self).line_renderer.active,
            final(self).quad_renderer.pushed@ == old(self).quad_renderer.pushed@.push(
                (position, size),
            ),
            final(self).quad_renderer.cmds_at_begin == old(self).quad_renderer.cmds_at_begin,
            final(self).quad_renderer.color == old(self).quad_renderer.color,
            final(self).quad_renderer.depth_tenths == old(self).quad_renderer.depth_tenths,
            final(self).same_config(*old(self)),
    {
        self.quad_renderer.push_quad(&mut self.commands, position, size);
    }

    /// Closes the quad batch: the command list then extends the list seen
    /// at `begin_quad_batch` by exactly the submissions of the batch.
    pub fn end_quad_batch(&mut self)
        requires
            old(self).wf(),
            old(self).quad_renderer.active,
        ensures
            final(self).wf(),
            !final(self).batch_open(),
            cmd_views(final(self).commands@) == cmd_views(old(self).quad_renderer.cmds_at_begin@)
                + quad_batch_views(
                old(self).quad_renderer.pushed@,
                old(self).quad_renderer.max_quads as nat,
                old(self).quad_renderer.color,
                old(self).quad_renderer.depth_tenths,
            ),
            final(self).same_config(*old(self)),
    {
        self.quad_renderer.end_batch(&mut self.commands);
    }

    /// Opens a line strip at `starting_point`, drawing with one
    /// interpolated color and depth.
    pub fn begin_line_strip(&mut self, starting_point: (u32, u32), color: Rgb, depth_tenths: u8)
        requires
            old(self).wf(),
            !old(self).batch_open(),
        ensures
            final(self).wf(),
            final(self).line_renderer.active,
            !final(self).quad_renderer.active,
            final(self).line_renderer.pushed@ == seq![starting_point],
            final(self).line_renderer.cmds_at_begin@ == old(self).commands@,
            final(self).line_renderer.color == color,
            final(self).line_renderer.depth_tenths == depth_tenths,
            final(self).commands@ == old(self).commands@,
            final(self).same_config(*old(self)),
    {
        self.line_renderer.begin_line_strip(&self.commands, starting_point, color, depth_tenths);
    }

    /// Extends the open line strip to `point`. A full buffer is flushed
    /// whole and its last vertex carried over as the first vertex of the
    /// next submission, so the strip stays connected across the flush.
    pub fn push_point(&mut self, point: (u32, u32))
        requires
            old(self).wf(),
            old(self).line_renderer.active,
        ensures
            final(self).wf(),
            final(self).line_renderer.active,
            !final(self).quad_renderer.active,
            final(self).line_renderer.pushed@ == old(self).line_renderer.pushed@.push(point),
            final(self).line_renderer.cmds_at_begin == old(self).line_renderer.cmds_at_begin,
            final(self).line_renderer.color == old(self).line_renderer.color,
            final(self).line_renderer.depth_tenths == old(self).line_renderer.depth_tenths,
            final(self).same_config(*old(self)),
            old(self).line_renderer.vertices@.len() == old(self).line_renderer.max_vertices ==> {
                &&& cmd_views(final(self).commands@) == cmd_views(old(self).commands@).push(
                    line_strip_view(
                        old(self).line_renderer.vertices@,
                        old(self).line_renderer.color,
                        old(self).line_renderer.depth_tenths,
                    ),
                )
                &&& final(self).line_renderer.vertices@ == seq![
                    old(self).line_renderer.vertices@.last(),
                    point,
                ]
            },
            old(self).line_renderer.vertices@.len() < old(self).line_renderer.max_vertices ==> {
                &&& final(self).commands@ == old(self).commands@
                &&& final(self).line_renderer.vertices@ == old(self).line_renderer.vertices@.push(
                    point,
                )
            },
    {
        self.line_renderer.push_point(&mut self.commands, point);
    }

    /// Closes the line strip: the command list then extends the list seen
    /// at `begin_line_strip` by exactly the submissions of the strip.
    pub fn end_line_strip(&mut self)
        requires
            old(self).wf(),
            old(self).line_renderer.active,
        ensures
            final(self).wf(),
            !final(self).batch_open(),
            cmd_views(final(self).commands@) == cmd_views(old(self).line_renderer.cmds_at_begin@)
                + strip_batch_views(
                old(self).line_renderer.pushed@,
                old(self).line_renderer.max_vertices as nat,
                old(self).line_renderer.color,
                old(self).line_renderer.depth_tenths,
            ),
            final(self).same_config(*old(self)),
    {
        self.line_renderer.end_line_strip(&mut self.commands);
    }

    /// Hands the collected submissions of the frame to the caller and
    /// starts a fresh command list.
    pub fn take_commands(&mut self) -> (r: Vec<RenderCommand>)
        requires
            old(self).wf(),
            !old(self).batch_open(),
        ensures
            final(self).wf(),
            !final(self).batch_open(),
            r@ == old(self).commands@,
            final(self).commands@.len() == 0,
            final(self).same_config(*old(self)),
    {
        let mut commands: Vec<RenderCommand> = Vec::new();
        std::mem::swap(&mut commands, &mut self.commands);
        commands
    }
}

} // verus!
