//! Externally supplied drawing configuration, read fresh every frame.

use crate::geometry::HALF_SCALE;
use crate::geometry::SCALE;
use crate::renderer::Rgb;
use vstd::prelude::*;

verus! {

/// Configuration of the editor's render pass: the evaluation ratio of the
/// marked curve point (in ticks of [`SCALE`]), the number of curve
/// samples, and the four layer colors.
#[derive(Clone, Copy, Debug)]
pub struct EditorConfig {
    pub larp_ratio: u32,
    pub samples: i32,
    pub bezier_curve_color: Rgb,
    pub control_points_color: Rgb,
    pub control_points_strip_color: Rgb,
    pub larp_point_color: Rgb,
}

impl EditorConfig {
    /// The values lie in their documented ranges: the ratio inside the
    /// unit interval and the sample count between 10 and 1000.
    pub open spec fn wf(self) -> bool {
        self.larp_ratio <= SCALE && 10 <= self.samples <= 1000
    }

    /// The stock configuration: ratio one half, one hundred samples, and
    /// the editor's default layer colors.
    pub fn default() -> (c: Self)
        ensures
            c.wf(),
            c.larp_ratio == HALF_SCALE,
            c.samples == 100,
            c.bezier_curve_color == (Rgb { r: 26, g: 51, b: 230 }),
            c.control_points_color == (Rgb { r: 179, g: 179, b: 26 }),
            c.control_points_strip_color == (Rgb { r: 204, g: 51, b: 51 }),
            c.larp_point_color == (Rgb { r: 77, g: 230, b: 77 }),
    {
        Self {
            larp_ratio: HALF_SCALE,
            samples: 100,
            bezier_curve_color: Rgb { r: 26, g: 51, b: 230 },
            control_points_color: Rgb { r: 179, g: 179, b: 26 },
            control_points_strip_color: Rgb { r: 204, g: 51, b: 51 },
            larp_point_color: Rgb { r: 77, g: 230, b: 77 },
        }
    }
}

} // verus!
