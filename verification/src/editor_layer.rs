//! The interactive curve editor: the control-point model, the
//! pointer-driven hit-testing and drag state machine, and the per-frame
//! render pass that turns the model into batched draw requests.

use crate::application_event::ApplicationEvent;
use crate::bezier::de_casteljau;
use crate::bezier::interpolated_point;
use crate::bezier::mags;
use crate::editor_config::EditorConfig;
use crate::renderer::cmd_views;
use crate::renderer::quad_batch_views;
use crate::renderer::strip_batch_views;
use crate::renderer::CmdView;
use crate::renderer::Quad;
use crate::renderer::Renderer;
use crate::renderer::Rgb;
use crate::geometry::from_normalized_control_point;
use crate::geometry::hit_box_contains;
use crate::geometry::hit_test;
use crate::geometry::norm_ticks;
use crate::geometry::pixel_of_ticks;
use crate::geometry::to_normalized_control_point;
use crate::geometry::ControlPoint;
use crate::geometry::SCALE;
use vstd::prelude::*;

verus! {

/// The pixel width of the side panel for a window `width` pixels wide and
/// a panel ratio in ticks of [`SCALE`]: the truncated fraction.
pub open spec fn side_panel_width(width: int, ratio: int) -> int {
    width * ratio / (SCALE as int)
}

/// For a ratio inside the unit range, the side panel is no wider than the
/// window.
pub proof fn lemma_side_panel_width_bound(width: int, ratio: int)
    requires
        0 <= width,
        0 <= ratio <= SCALE,
    ensures
        0 <= side_panel_width(width, ratio) <= width,
{
    let s = SCALE as int;
    vstd::arithmetic::mul::lemma_mul_inequality(ratio, s, width);
    assert(width * ratio == ratio * width && width * s == s * width) by (nonlinear_arith);
    vstd::arithmetic::div_mod::lemma_fundamental_div_mod_converse(width * s, s, width, 0);
    vstd::arithmetic::div_mod::lemma_div_is_ordered(0, width * ratio, s);
    vstd::arithmetic::div_mod::lemma_div_is_ordered(width * ratio, width * s, s);
}

/// The pixel position (the marker's top-left corner) that a stored point
/// denotes in a window.
pub open spec fn point_pixel(p: ControlPoint, window_size: (u32, u32)) -> (u32, u32) {
    (
        pixel_of_ticks(p.x as int, window_size.0 as int) as u32,
        pixel_of_ticks(-(p.y as int), window_size.1 as int) as u32,
    )
}

/// Whether pixel `m` falls inside the hit box of the stored point `p`.
pub open spec fn hits_point(
    p: ControlPoint,
    window_size: (u32, u32),
    radius: u32,
    m: (u32, u32),
) -> bool {
    hit_box_contains(point_pixel(p, window_size), radius, m)
}

/// Index of the first stored point whose hit box contains `m`.
pub open spec fn first_hit(
    points: Seq<ControlPoint>,
    window_size: (u32, u32),
    radius: u32,
    m: (u32, u32),
) -> Option<int>
    decreases points.len(),
{
    if points.len() == 0 {
        None
    } else if hits_point(points[0], window_size, radius, m) {
        Some(0int)
    } else {
        match first_hit(points.skip(1), window_size, radius, m) {
            Some(i) => Some(i + 1),
            None => None,
        }
    }
}

/// `first_hit` returns the least index whose hit box contains `m`, and
/// `None` exactly when no hit box does.
pub proof fn lemma_first_hit_characterization(
    points: Seq<ControlPoint>,
    window_size: (u32, u32),
    radius: u32,
    m: (u32, u32),
)
    ensures
        match first_hit(points, window_size, radius, m) {
            Some(i) => {
                &&& 0 <= i < points.len()
                &&& hits_point(points[i], window_size, radius, m)
                &&& forall|j: int|
                    0 <= j < i ==> !hits_point(#[trigger] points[j], window_size, radius, m)
            },
            None => forall|j: int|
                0 <= j < points.len() ==> !hits_point(
                    #[trigger] points[j],
                    window_size,
                    radius,
                    m,
                ),
        },
    decreases points.len(),
{
    if points.len() > 0 && !hits_point(points[0], window_size, radius, m) {
        let rest = points.skip(1);
        lemma_first_hit_characterization(rest, window_size, radius, m);
        match first_hit(rest, window_size, radius, m) {
            Some(i) => {
                assert(points[i + 1] == rest[i]);
                assert forall|j: int| 0 <= j < i + 1 implies !hits_point(
                    #[trigger] points[j],
                    window_size,
                    radius,
                    m,
                ) by {
                    if j > 0 {
                        assert(points[j] == rest[j - 1]);
                    }
                }
            },
            None => {
                assert forall|j: int| 0 <= j < points.len() implies !hits_point(
                    #[trigger] points[j],
                    window_size,
                    radius,
                    m,
                ) by {
                    if j > 0 {
                        assert(points[j] == rest[j - 1]);
                    }
                }
            },
        }
    }
}

/// With no hit among the points, `first_hit` returns `None`.
pub proof fn lemma_first_hit_none(
    points: Seq<ControlPoint>,
    window_size: (u32, u32),
    radius: u32,
    m: (u32, u32),
)
    requires
        forall|j: int|
            0 <= j < points.len() ==> !hits_point(#[trigger] points[j], window_size, radius, m),
    ensures
        first_hit(points, window_size, radius, m).is_none(),
    decreases points.len(),
{
    if points.len() > 0 {
        let rest = points.skip(1);
        assert(forall|j: int| 0 <= j < rest.len() ==> #[trigger] rest[j] == points[j + 1]);
        lemma_first_hit_none(rest, window_size, radius, m);
    }
}

/// With a hit at `i` and none before it, `first_hit` returns `i`.
pub proof fn lemma_first_hit_at(
    points: Seq<ControlPoint>,
    window_size: (u32, u32),
    radius: u32,
    m: (u32, u32),
    i: int,
)
    requires
        0 <= i < points.len(),
        hits_point(points[i], window_size, radius, m),
        forall|j: int| 0 <= j < i ==> !hits_point(#[trigger] points[j], window_size, radius, m),
    ensures
        first_hit(points, window_size, radius, m) == Some(i),
    decreases points.len(),
{
    if i > 0 {
        let rest = points.skip(1);
        assert(forall|j: int| 0 <= j < rest.len() ==> #[trigger] rest[j] == points[j + 1]);
        lemma_first_hit_at(rest, window_size, radius, m, i - 1);
    }
}

/// The normalized point that a click at pixel `m` stores: the click
/// position offset by the radius on each axis, so the click lands at the
/// visual center of the new marker.
pub open spec fn clicked_point(m: (u32, u32), radius: u32, window_size: (u32, u32)) -> ControlPoint {
    ControlPoint {
        x: norm_ticks(m.0 - radius, window_size.0 as int) as u32,
        y: (-norm_ticks(m.1 - radius, window_size.1 as int)) as i32,
    }
}

/// The interactive curve editor: the ordered control-point list in
/// normalized space, the drag state, and the working-area geometry
/// derived from the window size.
pub struct EditorLayer {
    /// Width of the reserved side panel as a fraction of the window
    /// width, in ticks of [`SCALE`].
    pub side_panel_width_ratio: u32,
    /// Half the side length of a control-point marker, in pixels.
    pub control_point_radius: u32,
    pub working_area_top_left: (u32, u32),
    pub working_area_bottom_right: (u32, u32),
    pub window_size: (u32, u32),
    pub control_points_normalized: Vec<ControlPoint>,
    /// Index of the point currently being dragged, if any.
    pub control_point_dragged: Option<usize>,
    pub last_mouse_pos: (u32, u32),
}

impl EditorLayer {
    /// Internal consistency: the working area keeps a radius-wide margin
    /// and lies inside the window, every stored point is normalized, a
    /// dragged index is a valid position, and pixel arithmetic with the
    /// radius cannot overflow.
    pub open spec fn wf(self) -> bool {
        &&& self.side_panel_width_ratio <= SCALE
        &&& 1 <= self.control_point_radius
        &&& 1 <= self.window_size.0 && 1 <= self.window_size.1
        &&& self.control_point_radius <= self.working_area_top_left.0
        &&& self.control_point_radius <= self.working_area_top_left.1
        &&& self.working_area_bottom_right.0 <= self.window_size.0
        &&& self.working_area_bottom_right.1 <= self.window_size.1
        &&& self.window_size.0 + 2 * self.control_point_radius + 1 <= u32::MAX
        &&& self.window_size.1 + 2 * self.control_point_radius + 1 <= u32::MAX
        &&& forall|i: int|
            0 <= i < self.control_points_normalized@.len() ==> (
            #[trigger] self.control_points_normalized@[i]).is_normalized()
        &&& match self.control_point_dragged {
            Some(i) => i < self.control_points_normalized@.len(),
            None => true,
        }
    }

    /// Pixel `p` lies strictly inside the working area.
    pub open spec fn in_working_area(self, p: (u32, u32)) -> bool {
        &&& self.working_area_top_left.0 < p.0 < self.working_area_bottom_right.0
        &&& self.working_area_top_left.1 < p.1 < self.working_area_bottom_right.1
    }

    /// A window of this size can carry the working area for the editor's
    /// radius.
    pub open spec fn resize_ok(self, width: u32, height: u32) -> bool {
        &&& self.control_point_radius <= width
        &&& self.control_point_radius <= height
        &&& width + 2 * self.control_point_radius + 1 <= u32::MAX
        &&& height + 2 * self.control_point_radius + 1 <= u32::MAX
    }

    /// The stored list, the drag state and the last pointer position of
    /// two states agree.
    pub open spec fn same_model(self, other: EditorLayer) -> bool {
        &&& self.control_points_normalized@ == other.control_points_normalized@
        &&& self.control_point_dragged == other.control_point_dragged
        &&& self.last_mouse_pos == other.last_mouse_pos
    }

    /// The window size and working-area geometry of two states agree.
    pub open spec fn same_canvas(self, other: EditorLayer) -> bool {
        &&& self.window_size == other.window_size
        &&& self.working_area_top_left == other.working_area_top_left
        &&& self.working_area_bottom_right == other.working_area_bottom_right
    }

    /// The fixed parameters of two states agree.
    pub open spec fn same_params(self, other: EditorLayer) -> bool {
        &&& self.side_panel_width_ratio == other.side_panel_width_ratio
        &&& self.control_point_radius == other.control_point_radius
    }

    /// A fresh editor for a window of `window_size` pixels, with an empty
    /// point list, no active drag, and a hit radius of five pixels. The
    /// working area leaves out the side panel and a radius-wide margin.
    pub fn new(window_size: (u32, u32), side_panel_width_ratio: u32) -> (r: Self)
        requires
            side_panel_width_ratio <= SCALE,
            5 <= window_size.0,
            5 <= window_size.1,
            window_size.0 + 11 <= u32::MAX,
            window_size.1 + 11 <= u32::MAX,
        ensures
            r.wf(),
            r.window_size == window_size,
            r.side_panel_width_ratio == side_panel_width_ratio,
            r.control_point_radius == 5,
            r.working_area_top_left == ((
                (side_panel_width(window_size.0 as int, side_panel_width_ratio as int) + 5) as u32,
                5u32,
            )),
            r.working_area_bottom_right == (((window_size.0 - 5) as u32, (window_size.1 - 5) as u32)),
            r.control_points_normalized@.len() == 0,
            r.control_point_dragged.is_none(),
            r.last_mouse_pos == (0u32, 0u32),
    {
        let control_point_radius: u32 = 5;
        proof {
            lemma_side_panel_width_bound(window_size.0 as int, side_panel_width_ratio as int);
        }
        let panel = ((window_size.0 as u64 * side_panel_width_ratio as u64) / SCALE as u64) as u32;
        let working_area_top_left = (panel + control_point_radius, control_point_radius);
        let working_area_bottom_right = (
            window_size.0 - control_point_radius,
            window_size.1 - control_point_radius,
        );
        Self {
            side_panel_width_ratio,
            control_point_radius,
            working_area_top_left,
            working_area_bottom_right,
            window_size,
            control_points_normalized: Vec::new(),
            control_point_dragged: None,
            last_mouse_pos: (0, 0),
        }
    }

    /// Recomputes the working area and the stored window size after a
    /// resize. Stored points are untouched: they are normalized, so only
    /// their pixel rendering changes.
    fn recalculate_canvas(&mut self, window_width: u32, window_height: u32)
        requires
            old(self).wf(),
            old(self).resize_ok(window_width, window_height),
        ensures
            final(self).wf(),
            final(self).window_size == (window_width, window_height),
            final(self).working_area_top_left == ((
                (side_panel_width(window_width as int, old(self).side_panel_width_ratio as int)
                    + old(self).control_point_radius) as u32,
                old(self).control_point_radius,
            )),
            final(self).working_area_bottom_right == ((
                (window_width - old(self).control_point_radius) as u32,
                (window_height - old(self).control_point_radius) as u32,
            )),
            final(self).same_model(*old(self)),
            final(self).same_params(*old(self)),
    {
        proof {
            lemma_side_panel_width_bound(window_width as int, self.side_panel_width_ratio as int);
        }
        let panel = ((window_width as u64 * self.side_panel_width_ratio as u64) / SCALE as u64)
            as u32;
        self.working_area_top_left = (
            panel + self.control_point_radius,
            self.control_point_radius,
        );
        self.working_area_bottom_right = (
            window_width - self.control_point_radius,
            window_height - self.control_point_radius,
        );
        self.window_size = (window_width, window_height);
    }

    /// Decides whether pixel `point` lies strictly inside the working
    /// area; gestures outside it are ignored entirely.
    pub fn is_in_working_area(&self, point: (u32, u32)) -> (b: bool)
        ensures
            b == self.in_working_area(point),
    {
        self.working_area_top_left.0 < point.0 && point.0 < self.working_area_bottom_right.0
            && self.working_area_top_left.1 < point.1
            && point.1 < self.working_area_bottom_right.1
    }

    /// Scans the stored points in order for the first one whose hit box
    /// contains the pixel position `m`.
    fn find_first_hit(&self, m: (u32, u32)) -> (r: Option<usize>)
        requires
            self.wf(),
        ensures
            ({
                let fh = first_hit(
                    self.control_points_normalized@,
                    self.window_size,
                    self.control_point_radius,
                    m,
                );
                match r {
                    Some(i) => fh == Some(i as int),
                    None => fh.is_none(),
                }
            }),
    {
        let ghost points = self.control_points_normalized@;
        let mut idx: usize = 0;
        while idx < self.control_points_normalized.len()
            invariant
                self.wf(),
                idx <= points.len(),
                points == self.control_points_normalized@,
                forall|j: int|
                    0 <= j < idx ==> !hits_point(
                        #[trigger] points[j],
                        self.window_size,
                        self.control_point_radius,
                        m,
                    ),
            decreases points.len() - idx,
        {
            let cp = from_normalized_control_point(
                self.control_points_normalized[idx],
                self.window_size,
            );
            if hit_test(cp, self.control_point_radius, m) {
                proof {
                    lemma_first_hit_at(
                        points,
                        self.window_size,
                        self.control_point_radius,
                        m,
                        idx as int,
                    );
                }
                return Some(idx);
            }
            idx += 1;
        }
        proof {
            lemma_first_hit_none(points, self.window_size, self.control_point_radius, m);
        }
        None
    }

    /// Handles a right-button press at `mouse_pos` inside the working
    /// area. During an active drag this is a no-op — a press must not
    /// change the curve topology mid-manipulation. Otherwise the first
    /// point whose hit box contains the click is removed and the scan
    /// stops; with no hit, a new point is appended at the click position
    /// offset by the radius on each axis.
    fn handle_right_mouse_click(&mut self, mouse_pos: (u32, u32))
        requires
            old(self).wf(),
            old(self).in_working_area(mouse_pos),
        ensures
            final(self).wf(),
            final(self).same_canvas(*old(self)),
            final(self).same_params(*old(self)),
            final(self).control_point_dragged == old(self).control_point_dragged,
            final(self).last_mouse_pos == old(self).last_mouse_pos,
            old(self).control_point_dragged.is_some() ==> final(self).control_points_normalized@
                == old(self).control_points_normalized@,
            old(self).control_point_dragged.is_none() ==> final(self).control_points_normalized@
                == (match first_hit(
                old(self).control_points_normalized@,
                old(self).window_size,
                old(self).control_point_radius,
                mouse_pos,
            ) {
                Some(i) => old(self).control_points_normalized@.remove(i),
                None => old(self).control_points_normalized@.push(
                    clicked_point(mouse_pos, old(self).control_point_radius, old(self).window_size),
                ),
            }),
    {
        if self.control_point_dragged.is_some() {
            return ;
        }
        let ghost points = self.control_points_normalized@;
        proof {
            lemma_first_hit_characterization(
                points,
                self.window_size,
                self.control_point_radius,
                mouse_pos,
            );
        }
        match self.find_first_hit(mouse_pos) {
            Some(i) => {
                self.control_points_normalized.remove(i);
                proof {
                    assert forall|j: int|
                        0 <= j < self.control_points_normalized@.len() implies (
                    #[trigger] self.control_points_normalized@[j]).is_normalized() by {
                        if j < i {
                            assert(self.control_points_normalized@[j] == points[j]);
                        } else {
                            assert(self.control_points_normalized@[j] == points[j + 1]);
                        }
                    }
                }
            },
            None => {
                let p = to_normalized_control_point(
                    (
                        mouse_pos.0 - self.control_point_radius,
                        mouse_pos.1 - self.control_point_radius,
                    ),
                    self.window_size,
                );
                proof {
                    assert(p == clicked_point(
                        mouse_pos,
                        self.control_point_radius,
                        self.window_size,
                    ));
                }
                self.control_points_normalized.push(p);
            },
        }
    }

    /// Handles a left-button press at `mouse_pos`: the first point whose
    /// hit box contains the click becomes the dragged point; with no hit,
    /// the drag state is unchanged.
    fn handle_left_mouse_click(&mut self, mouse_pos: (u32, u32))
        requires
            old(self).wf(),
        ensures
            final(self).wf(),
            final(self).same_canvas(*old(self)),
            final(self).same_params(*old(self)),
            final(self).control_points_normalized@ == old(self).control_points_normalized@,
            final(self).last_mouse_pos == old(self).last_mouse_pos,
            final(self).control_point_dragged == (match first_hit(
                old(self).control_points_normalized@,
                old(self).window_size,
                old(self).control_point_radius,
                mouse_pos,
            ) {
                Some(i) => Some(i as usize),
                None => old(self).control_point_dragged,
            }),
    {
        proof {
            lemma_first_hit_characterization(
                self.control_points_normalized@,
                self.window_size,
                self.control_point_radius,
                mouse_pos,
            );
        }
        match self.find_first_hit(mouse_pos) {
            Some(i) => {
                self.control_point_dragged = Some(i);
            },
            None => {},
        }
    }

    /// Applies one input event to the editor state. Button events carry
    /// the pointer position the platform queried at dispatch time, or
    /// `None` while the pointer was outside the window or the window
    /// lacked focus.
    ///
    /// Right press inside the working area (with no drag active) removes
    /// the first hit point or appends a new one; left press selects the
    /// first hit point for dragging; a pointer move drags the selected
    /// point, or cancels the drag when the pointer leaves the working
    /// area; left release always clears the drag state; a window resize
    /// recomputes the working area and leaves the stored points alone.
    pub fn handle_event(&mut self, event: ApplicationEvent, mouse_pos: Option<(u32, u32)>)
        requires
            old(self).wf(),
            match event {
                ApplicationEvent::WindowResized { width, height } => old(self).resize_ok(
                    width,
                    height,
                ),
                _ => true,
            },
        ensures
            final(self).wf(),
            final(self).same_params(*old(self)),
            ({
                let points = old(self).control_points_normalized@;
                let win = old(self).window_size;
                let radius = old(self).control_point_radius;
                match event {
                    ApplicationEvent::WindowResized { width, height } => {
                        &&& final(self).window_size == (width, height)
                        &&& final(self).working_area_top_left == ((
                            (side_panel_width(
                                width as int,
                                old(self).side_panel_width_ratio as int,
                            ) + radius) as u32,
                            radius,
                        ))
                        &&& final(self).working_area_bottom_right == ((
                            (width - radius) as u32,
                            (height - radius) as u32,
                        ))
                        &&& final(self).same_model(*old(self))
                    },
                    ApplicationEvent::MouseMoved { x, y } => {
                        &&& final(self).same_canvas(*old(self))
                        &&& final(self).last_mouse_pos == (x, y)
                        &&& if !old(self).in_working_area((x, y)) {
                            &&& final(self).control_point_dragged.is_none()
                            &&& final(self).control_points_normalized@ == points
                        } else {
                            match old(self).control_point_dragged {
                                Some(i) => {
                                    &&& final(self).control_points_normalized@ == points.update(
                                        i as int,
                                        clicked_point((x, y), radius, win),
                                    )
                                    &&& final(self).control_point_dragged == old(
                                        self,
                                    ).control_point_dragged
                                },
                                None => {
                                    &&& final(self).control_points_normalized@ == points
                                    &&& final(self).control_point_dragged.is_none()
                                },
                            }
                        }
                    },
                    ApplicationEvent::MouseLeftButtonPressed => {
                        &&& final(self).same_canvas(*old(self))
                        &&& final(self).last_mouse_pos == old(self).last_mouse_pos
                        &&& final(self).control_points_normalized@ == points
                        &&& match mouse_pos {
                            Some(m) => if old(self).in_working_area(m) {
                                final(self).control_point_dragged == (match first_hit(
                                    points,
                                    win,
                                    radius,
                                    m,
                                ) {
                                    Some(i) => Some(i as usize),
                                    None => old(self).control_point_dragged,
                                })
                            } else {
                                final(self).control_point_dragged == old(
                                    self,
                                ).control_point_dragged
                            },
                            None => final(self).control_point_dragged == old(
                                self,
                            ).control_point_dragged,
                        }
                    },
                    ApplicationEvent::MouseLeftButtonReleased => {
                        &&& final(self).same_canvas(*old(self))
                        &&& final(self).last_mouse_pos == old(self).last_mouse_pos
                        &&& final(self).control_points_normalized@ == points
                        &&& final(self).control_point_dragged.is_none()
                    },
                    ApplicationEvent::MouseRightButtonPressed => {
                        &&& final(self).same_canvas(*old(self))
                        &&& final(self).last_mouse_pos == old(self).last_mouse_pos
                        &&& final(self).control_point_dragged == old(self).control_point_dragged
                        &&& match mouse_pos {
                            Some(m) => if old(self).in_working_area(m) && old(
                                self,
                            ).control_point_dragged.is_none() {
                                final(self).control_points_normalized@ == (match first_hit(
                                    points,
                                    win,
                                    radius,
                                    m,
                                ) {
                                    Some(i) => points.remove(i),
                                    None => points.push(clicked_point(m, radius, win)),
                                })
                            } else {
                                final(self).control_points_normalized@ == points
                            },
                            None => final(self).control_points_normalized@ == points,
                        }
                    },
                    ApplicationEvent::MouseRightButtonReleased => {
                        &&& final(self).same_canvas(*old(self))
                        &&& final(self).same_model(*old(self))
                    },
                    ApplicationEvent::FramebufferResized { .. } => {
                        &&& final(self).same_canvas(*old(self))
                        &&& final(self).same_model(*old(self))
                    },
                }
            }),
    {
        match event {
            ApplicationEvent::MouseRightButtonPressed => {
                if let Some(m) = mouse_pos {
                    if self.is_in_working_area(m) {
                        self.handle_right_mouse_click(m);
                    }
                }
            },
            ApplicationEvent::MouseLeftButtonPressed => {
                if let Some(m) = mouse_pos {
                    if self.is_in_working_area(m) {
                        self.handle_left_mouse_click(m);
                    }
                }
            },
            ApplicationEvent::MouseLeftButtonReleased => {
                self.control_point_dragged = None;
            },
            ApplicationEvent::MouseMoved { x, y } => {
                if !self.is_in_working_area((x, y)) {
                    self.control_point_dragged = None;
                } else {
                    if let Some(idx) = self.control_point_dragged {
                        let p = to_normalized_control_point(
                            (x - self.control_point_radius, y - self.control_point_radius),
                            self.window_size,
                        );
                        proof {
                            assert(p == clicked_point(
                                (x, y),
                                self.control_point_radius,
                                self.window_size,
                            ));
                        }
                        self.control_points_normalized[idx] = p;
                    }
                }
                self.last_mouse_pos = (x, y);
            },
            ApplicationEvent::WindowResized { width, height } => {
                self.recalculate_canvas(width, height);
            },
            _ => {},
        }
    }

    /// Draws the raw connecting polyline through the marker centers of
    /// the stored points, on the farthest depth layer. With fewer than
    /// two points nothing is drawn.
    fn draw_larp_points_strip(&self, renderer: &mut Renderer, color: Rgb)
        requires
            self.wf(),
            old(renderer).wf(),
            !old(renderer).batch_open(),
        ensures
            final(renderer).wf(),
            !final(renderer).batch_open(),
            final(renderer).same_config(*old(renderer)),
            self.control_points_normalized@.len() <= 1 ==> final(renderer).commands@ == old(
                renderer,
            ).commands@,
            self.control_points_normalized@.len() >= 2 ==> cmd_views(final(renderer).commands@)
                == cmd_views(old(renderer).commands@) + strip_batch_views(
                strip_points(
                    self.control_points_normalized@,
                    self.window_size,
                    self.control_point_radius,
                ),
                old(renderer).line_renderer.max_vertices as nat,
                color,
                0,
            ),
    {
        if self.control_points_normalized.len() <= 1 {
            return ;
        }
        let ghost pts = strip_points(
            self.control_points_normalized@,
            self.window_size,
            self.control_point_radius,
        );
        let start = from_normalized_control_point(
            self.control_points_normalized[0],
            self.window_size,
        );
        renderer.begin_line_strip(
            (start.0 + self.control_point_radius, start.1 + self.control_point_radius),
            color,
            0,
        );
        proof {
            assert(renderer.line_renderer.pushed@ =~= pts.take(1));
        }
        let mut idx: usize = 1;
        while idx < self.control_points_normalized.len()
            invariant
                self.wf(),
                renderer.wf(),
                renderer.line_renderer.active,
                !renderer.quad_renderer.active,
                1 <= idx <= self.control_points_normalized@.len(),
                pts == strip_points(
                    self.control_points_normalized@,
                    self.window_size,
                    self.control_point_radius,
                ),
                renderer.line_renderer.pushed@ == pts.take(idx as int),
                renderer.line_renderer.cmds_at_begin@ == old(renderer).commands@,
                renderer.line_renderer.color == color,
                renderer.line_renderer.depth_tenths == 0,
                renderer.same_config(*old(renderer)),
            decreases self.control_points_normalized@.len() - idx,
        {
            let cp = from_normalized_control_point(
                self.control_points_normalized[idx],
                self.window_size,
            );
            renderer.push_point(
                (cp.0 + self.control_point_radius, cp.1 + self.control_point_radius),
            );
            proof {
                assert(renderer.line_renderer.pushed@ =~= pts.take(idx as int + 1));
            }
            idx += 1;
        }
        proof {
            assert(renderer.line_renderer.pushed@ =~= pts);
        }
        renderer.end_line_strip();
    }

    /// Draws the sampled Bezier curve: the parameter sweeps upward from
    /// one step above zero in `samples` equal increments to just below
    /// one, and the first and last control points are emitted as the
    /// strip's true endpoints. With two points or fewer nothing is drawn.
    fn draw_bezier_curve(&self, renderer: &mut Renderer, samples: u32, color: Rgb)
        requires
            self.wf(),
            old(renderer).wf(),
            !old(renderer).batch_open(),
            10 <= samples <= 1000,
        ensures
            final(renderer).wf(),
            !final(renderer).batch_open(),
            final(renderer).same_config(*old(renderer)),
            self.control_points_normalized@.len() <= 2 ==> final(renderer).commands@ == old(
                renderer,
            ).commands@,
            self.control_points_normalized@.len() > 2 ==> cmd_views(final(renderer).commands@)
                == cmd_views(old(renderer).commands@) + strip_batch_views(
                curve_strip_points(
                    self.control_points_normalized@,
                    self.window_size,
                    self.control_point_radius,
                    samples as int,
                ),
                old(renderer).line_renderer.max_vertices as nat,
                color,
                1,
            ),
    {
        if self.control_points_normalized.len() <= 2 {
            return ;
        }
        let ghost points = self.control_points_normalized@;
        let ghost pts = curve_strip_points(
            points,
            self.window_size,
            self.control_point_radius,
            samples as int,
        );
        let ghost step_g = sample_step(samples as int);
        let ghost kmax = sweep_count(step_g);
        proof {
            vstd::arithmetic::div_mod::lemma_div_is_ordered_by_denominator(
                SCALE as int,
                10,
                samples as int,
            );
            vstd::arithmetic::div_mod::lemma_div_is_ordered_by_denominator(
                SCALE as int,
                samples as int,
                1000,
            );
            assert(65 <= step_g <= 6553);
            vstd::arithmetic::div_mod::lemma_div_is_ordered(0, (T_LIMIT as int) - 1, step_g);
            assert(pts.len() == kmax + 2);
        }
        let start = from_normalized_control_point(
            self.control_points_normalized[0],
            self.window_size,
        );
        renderer.begin_line_strip(
            (start.0 + self.control_point_radius, start.1 + self.control_point_radius),
            color,
            1,
        );
        proof {
            assert(renderer.line_renderer.pushed@ =~= pts.take(1));
        }
        let step = SCALE / samples;
        let mut t = step;
        let ghost mut j: int = 0;
        while t < T_LIMIT
            invariant
                self.wf(),
                renderer.wf(),
                renderer.line_renderer.active,
                !renderer.quad_renderer.active,
                10 <= samples <= 1000,
                points == self.control_points_normalized@,
                points.len() > 2,
                pts == curve_strip_points(
                    points,
                    self.window_size,
                    self.control_point_radius,
                    samples as int,
                ),
                pts.len() == kmax + 2,
                step == step_g,
                step_g == sample_step(samples as int),
                kmax == sweep_count(step_g),
                65 <= step_g <= 6553,
                t == (j + 1) * step_g,
                0 <= j <= kmax,
                renderer.line_renderer.pushed@ == pts.take(1 + j),
                renderer.line_renderer.cmds_at_begin@ == old(renderer).commands@,
                renderer.line_renderer.color == color,
                renderer.line_renderer.depth_tenths == 1,
                renderer.same_config(*old(renderer)),
            decreases kmax - j,
        {
            proof {
                // `t < T_LIMIT` keeps the sweep inside the counted range:
                // `(j + 1) * step <= T_LIMIT - 1` gives `j + 1 <= kmax`.
                vstd::arithmetic::div_mod::lemma_div_is_ordered(
                    (j + 1) * step_g,
                    (T_LIMIT as int) - 1,
                    step_g,
                );
                assert((j + 1) * step_g == step_g * (j + 1) + 0) by (nonlinear_arith);
                vstd::arithmetic::div_mod::lemma_fundamental_div_mod_converse(
                    (j + 1) * step_g,
                    step_g,
                    j + 1,
                    0,
                );
            }
            let p = interpolated_point(&self.control_points_normalized, t);
            let d = from_normalized_control_point(p, self.window_size);
            renderer.push_point(
                (d.0 + self.control_point_radius, d.1 + self.control_point_radius),
            );
            proof {
                assert(pts[1 + j] == curve_vertex(
                    points,
                    self.window_size,
                    self.control_point_radius,
                    (j + 1) * step_g,
                ));
                j = j + 1;
                assert(renderer.line_renderer.pushed@ =~= pts.take(1 + j));
                assert((j + 1) * step_g == j * step_g + step_g) by (nonlinear_arith);
            }
            t = t + step;
        }
        proof {
            // At exit `(j + 1) * step >= T_LIMIT`, so `j` has reached the
            // sweep count: `kmax * step <= T_LIMIT - 1 < (j + 1) * step`.
            vstd::arithmetic::div_mod::lemma_fundamental_div_mod((T_LIMIT as int) - 1, step_g);
            vstd::arithmetic::div_mod::lemma_mod_bound((T_LIMIT as int) - 1, step_g);
            if j < kmax {
                vstd::arithmetic::mul::lemma_mul_inequality(j + 1, kmax, step_g);
                assert(kmax * step_g == step_g * kmax) by (nonlinear_arith);
                assert(false);
            }
            assert(j == kmax);
        }
        let endp = from_normalized_control_point(
            self.control_points_normalized[self.control_points_normalized.len() - 1],
            self.window_size,
        );
        renderer.push_point(
            (endp.0 + self.control_point_radius, endp.1 + self.control_point_radius),
        );
        proof {
            assert(points.last() == points[points.len() - 1]);
            assert(pts[kmax + 1] == marker_center(
                points.last(),
                self.window_size,
                self.control_point_radius,
            ));
            assert(renderer.line_renderer.pushed@ =~= pts);
        }
        renderer.end_line_strip();
    }

    /// Draws the square markers of all stored points as one quad batch.
    /// With no points nothing is drawn.
    fn draw_control_points(&self, renderer: &mut Renderer, color: Rgb)
        requires
            self.wf(),
            old(renderer).wf(),
            !old(renderer).batch_open(),
        ensures
            final(renderer).wf(),
            !final(renderer).batch_open(),
            final(renderer).same_config(*old(renderer)),
            self.control_points_normalized@.len() == 0 ==> final(renderer).commands@ == old(
                renderer,
            ).commands@,
            self.control_points_normalized@.len() >= 1 ==> cmd_views(final(renderer).commands@)
                == cmd_views(old(renderer).commands@) + quad_batch_views(
                marker_quads(
                    self.control_points_normalized@,
                    self.window_size,
                    self.control_point_radius,
                ),
                old(renderer).quad_renderer.max_quads as nat,
                color,
                4,
            ),
    {
        if self.control_points_normalized.len() == 0 {
            return ;
        }
        let ghost quads = marker_quads(
            self.control_points_normalized@,
            self.window_size,
            self.control_point_radius,
        );
        renderer.begin_quad_batch(color, 4);
        proof {
            assert(renderer.quad_renderer.pushed@ =~= quads.take(0));
        }
        let side = 2 * self.control_point_radius + 1;
        let mut idx: usize = 0;
        while idx < self.control_points_normalized.len()
            invariant
                self.wf(),
                renderer.wf(),
                renderer.quad_renderer.active,
                !renderer.line_renderer.active,
                idx <= self.control_points_normalized@.len(),
                side == 2 * self.control_point_radius + 1,
                quads == marker_quads(
                    self.control_points_normalized@,
                    self.window_size,
                    self.control_point_radius,
                ),
                renderer.quad_renderer.pushed@ == quads.take(idx as int),
                renderer.quad_renderer.cmds_at_begin@ == old(renderer).commands@,
                renderer.quad_renderer.color == color,
                renderer.quad_renderer.depth_tenths == 4,
                renderer.same_config(*old(renderer)),
            decreases self.control_points_normalized@.len() - idx,
        {
            let cp = from_normalized_control_point(
                self.control_points_normalized[idx],
                self.window_size,
            );
            renderer.push_quad(cp, (side, side));
            proof {
                assert(renderer.quad_renderer.pushed@ =~= quads.take(idx as int + 1));
            }
            idx += 1;
        }
        proof {
            assert(renderer.quad_renderer.pushed@ =~= quads);
        }
        renderer.end_quad_batch();
    }

    /// Draws the single marker of the curve point evaluated at ratio `t`
    /// ticks. With two points or fewer nothing is drawn.
    fn draw_larp_point(&self, renderer: &mut Renderer, t: u32, color: Rgb)
        requires
            self.wf(),
            old(renderer).wf(),
            !old(renderer).batch_open(),
            t <= SCALE,
        ensures
            final(renderer).wf(),
            !final(renderer).batch_open(),
            final(renderer).same_config(*old(renderer)),
            self.control_points_normalized@.len() <= 2 ==> final(renderer).commands@ == old(
                renderer,
            ).commands@,
            self.control_points_normalized@.len() > 2 ==> cmd_views(final(renderer).commands@)
                == cmd_views(old(renderer).commands@) + quad_batch_views(
                seq![
                    larp_marker_quad(
                        self.control_points_normalized@,
                        self.window_size,
                        self.control_point_radius,
                        t as int,
                    ),
                ],
                old(renderer).quad_renderer.max_quads as nat,
                color,
                3,
            ),
    {
        if self.control_points_normalized.len() <= 2 {
            return ;
        }
        let p = interpolated_point(&self.control_points_normalized, t);
        let d = from_normalized_control_point(p, self.window_size);
        renderer.begin_quad_batch(color, 3);
        let side = 2 * self.control_point_radius + 1;
        renderer.push_quad(d, (side, side));
        proof {
            assert(renderer.quad_renderer.pushed@ =~= seq![
                larp_marker_quad(
                    self.control_points_normalized@,
                    self.window_size,
                    self.control_point_radius,
                    t as int,
                ),
            ]);
        }
        renderer.end_quad_batch();
    }

    /// Runs the render pass for one frame, in fixed back-to-front order:
    /// the raw connecting polyline, the sampled Bezier curve, the
    /// control-point markers, and the evaluated-point marker, with the
    /// colors, sample count and evaluation ratio read fresh from the
    /// configuration.
    pub fn render(&self, renderer: &mut Renderer, config: &EditorConfig)
        requires
            self.wf(),
            config.wf(),
            old(renderer).wf(),
            !old(renderer).batch_open(),
        ensures
            final(renderer).wf(),
            !final(renderer).batch_open(),
            final(renderer).same_config(*old(renderer)),
            cmd_views(final(renderer).commands@) == cmd_views(old(renderer).commands@)
                + render_views(
                *self,
                *config,
                old(renderer).quad_renderer.max_quads as nat,
                old(renderer).line_renderer.max_vertices as nat,
            ),
    {
        let ghost v0 = renderer.commands@;
        self.draw_larp_points_strip(renderer, config.control_points_strip_color);
        let ghost v1 = renderer.commands@;
        self.draw_bezier_curve(renderer, config.samples as u32, config.bezier_curve_color);
        let ghost v2 = renderer.commands@;
        self.draw_control_points(renderer, config.control_points_color);
        let ghost v3 = renderer.commands@;
        self.draw_larp_point(renderer, config.larp_ratio, config.larp_point_color);
        proof {
            assert(cmd_views(renderer.commands@) =~= cmd_views(v0) + render_views(
                *self,
                *config,
                old(renderer).quad_renderer.max_quads as nat,
                old(renderer).line_renderer.max_vertices as nat,
            ));
        }
    }
}

/// The pixel center of a stored point's marker: the marker's top-left
/// corner offset by the radius on each axis.
pub open spec fn marker_center(p: ControlPoint, window_size: (u32, u32), radius: u32) -> (
    u32,
    u32,
) {
    let q = point_pixel(p, window_size);
    ((q.0 + radius) as u32, (q.1 + radius) as u32)
}

/// The vertices of the raw connecting polyline: the marker centers of the
/// stored points, in list order.
pub open spec fn strip_points(
    points: Seq<ControlPoint>,
    window_size: (u32, u32),
    radius: u32,
) -> Seq<(u32, u32)> {
    points.map_values(|p: ControlPoint| marker_center(p, window_size, radius))
}

/// The least tick count strictly above 999/1000 of the unit. The sampled
/// parameter sweep stops below it; the true curve endpoints are emitted
/// separately, so the stepped loop cannot overshoot the end of the curve.
pub const T_LIMIT: u32 = 65471;

/// The parameter step of the sampled sweep, in ticks.
pub open spec fn sample_step(samples: int) -> int {
    (SCALE as int) / samples
}

/// How many parameters the sampled sweep visits: the positive multiples
/// of `step` below [`T_LIMIT`].
pub open spec fn sweep_count(step: int) -> int
    recommends
        1 <= step,
{
    ((T_LIMIT as int) - 1) / step
}

/// The sampled curve vertex at parameter `t` ticks: the evaluated curve
/// point, denormalized and offset to the marker center.
pub open spec fn curve_vertex(
    points: Seq<ControlPoint>,
    window_size: (u32, u32),
    radius: u32,
    t: int,
) -> (u32, u32) {
    let e = de_casteljau(mags(points), t);
    (
        (pixel_of_ticks(e.0, window_size.0 as int) + radius) as u32,
        (pixel_of_ticks(e.1, window_size.1 as int) + radius) as u32,
    )
}

/// All vertices of the sampled curve strip: the first control point's
/// center, the swept samples in parameter order, and the last control
/// point's center as the strip's true endpoints.
pub open spec fn curve_strip_points(
    points: Seq<ControlPoint>,
    window_size: (u32, u32),
    radius: u32,
    samples: int,
) -> Seq<(u32, u32)> {
    let step = sample_step(samples);
    seq![marker_center(points[0], window_size, radius)] + Seq::new(
        sweep_count(step) as nat,
        |j: int| curve_vertex(points, window_size, radius, (j + 1) * step),
    ) + seq![marker_center(points.last(), window_size, radius)]
}

/// The marker quad of a stored point: cornered at the point's pixel
/// position, with side `2 * radius + 1`.
pub open spec fn marker_quad(p: ControlPoint, window_size: (u32, u32), radius: u32) -> Quad {
    (point_pixel(p, window_size), (((2 * radius + 1) as u32), ((2 * radius + 1) as u32)))
}

/// The marker quads of all stored points, in list order.
pub open spec fn marker_quads(
    points: Seq<ControlPoint>,
    window_size: (u32, u32),
    radius: u32,
) -> Seq<Quad> {
    points.map_values(|p: ControlPoint| marker_quad(p, window_size, radius))
}

/// The marker quad of the evaluated curve point at ratio `t` ticks,
/// cornered at the evaluated pixel position.
pub open spec fn larp_marker_quad(
    points: Seq<ControlPoint>,
    window_size: (u32, u32),
    radius: u32,
    t: int,
) -> Quad {
    let e = de_casteljau(mags(points), t);
    (
        (
            pixel_of_ticks(e.0, window_size.0 as int) as u32,
            pixel_of_ticks(e.1, window_size.1 as int) as u32,
        ),
        (((2 * radius + 1) as u32), ((2 * radius + 1) as u32)),
    )
}

/// Everything one frame draws, back to front: the raw connecting strip of
/// the control points (two or more points), the sampled Bezier curve
/// (strictly more than two points), the control-point markers (one or
/// more points), and the evaluated-point marker (strictly more than two
/// points).
pub open spec fn render_views(
    editor: EditorLayer,
    config: EditorConfig,
    max_quads: nat,
    max_vertices: nat,
) -> Seq<CmdView> {
    let points = editor.control_points_normalized@;
    let win = editor.window_size;
    let radius = editor.control_point_radius;
    let strip = if points.len() >= 2 {
        strip_batch_views(
            strip_points(points, win, radius),
            max_vertices,
            config.control_points_strip_color,
            0,
        )
    } else {
        Seq::<CmdView>::empty()
    };
    let curve = if points.len() > 2 {
        strip_batch_views(
            curve_strip_points(points, win, radius, config.samples as int),
            max_vertices,
            config.bezier_curve_color,
            1,
        )
    } else {
        Seq::<CmdView>::empty()
    };
    let markers = if points.len() >= 1 {
        quad_batch_views(
            marker_quads(points, win, radius),
            max_quads,
            config.control_points_color,
            4,
        )
    } else {
        Seq::<CmdView>::empty()
    };
    let larp = if points.len() > 2 {
        quad_batch_views(
            seq![larp_marker_quad(points, win, radius, config.larp_ratio as int)],
            max_quads,
            config.larp_point_color,
            3,
        )
    } else {
        Seq::<CmdView>::empty()
    };
    strip + curve + markers + larp
}

/// A click that placed a point afterwards hits that point: converting the
/// offset click position to normalized space and back moves each
/// coordinate at most one pixel toward the far corner, which keeps the
/// click strictly inside the new marker's open hit box. A pointer exactly
/// on the box's outer edge misses, by the strict-inequality rule.
pub proof fn lemma_clicked_point_hit(m: (u32, u32), radius: u32, window_size: (u32, u32))
    requires
        2 <= radius,
        radius < m.0,
        radius < m.1,
        m.0 <= window_size.0,
        m.1 <= window_size.1,
        window_size.0 <= SCALE,
        window_size.1 <= SCALE,
    ensures
        hits_point(clicked_point(m, radius, window_size), window_size, radius, m),
        !hit_box_contains(
            point_pixel(clicked_point(m, radius, window_size), window_size),
            radius,
            (
                (point_pixel(clicked_point(m, radius, window_size), window_size).0 + 2 * radius
                    + 1) as u32,
                (point_pixel(clicked_point(m, radius, window_size), window_size).1 + 2 * radius
                    + 1) as u32,
            ),
        ),
{
    let w = window_size.0 as int;
    let h = window_size.1 as int;
    let p = clicked_point(m, radius, window_size);
    crate::geometry::lemma_norm_ticks_bound(m.0 - radius, w);
    crate::geometry::lemma_norm_ticks_bound(m.1 - radius, h);
    crate::geometry::lemma_pixel_of_ticks_bound(norm_ticks(m.0 - radius, w), w);
    crate::geometry::lemma_pixel_of_ticks_bound(norm_ticks(m.1 - radius, h), h);
    crate::geometry::lemma_norm_round_trip(m.0 - radius, w);
    crate::geometry::lemma_norm_round_trip(m.1 - radius, h);
    assert(p.x as int == norm_ticks(m.0 - radius, w));
    assert(-(p.y as int) == norm_ticks(m.1 - radius, h));
}

} // verus!
