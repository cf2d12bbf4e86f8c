//! Ripples: shapes that spread from a point and fade.

use vstd::prelude::*;

use crate::geometry::Rect;

verus! {

/// The fragment shader of a ripple. Its square grows with the ripple, so that the
/// edge of the shape is always half a side away from the middle. What is drawn is
/// multiplied by its own alpha. The renderer puts the version in front.
pub const RIPPLE_FRAGMENT_SHADER: &'static str = r#"
precision highp float;

varying vec2 v_coords;
uniform vec2 size;
uniform float alpha;
uniform vec3 u_tint;
uniform float u_thickness_uv;
uniform float u_shape;

void main() {
    vec2 p = v_coords - vec2(0.5);
    float a;
    if (u_shape < 0.5) {
        // Ring: Euclidean distance from center, edge at 0.5.
        float d = length(p);
        a = smoothstep(u_thickness_uv, 0.0, abs(d - 0.5));
    } else if (u_shape < 1.5) {
        // Square outline: Chebyshev distance, edge at 0.5.
        float d = max(abs(p.x), abs(p.y));
        a = smoothstep(u_thickness_uv, 0.0, abs(d - 0.5));
    } else if (u_shape < 2.5) {
        // Droplet: ring at 0.5 plus a small filled disc at the center.
        // The disc's alpha is the *current* alpha already fading, so the
        // crater looks like it's already healing as the ring expands.
        float d = length(p);
        float ring = smoothstep(u_thickness_uv, 0.0, abs(d - 0.5));
        float crater = smoothstep(0.18, 0.0, d);
        a = max(ring, crater * 0.55);
    } else {
        // Cross: two perpendicular bars at the center, fading at the
        // bounding-square edge. Bar half-width is fixed in UV so the
        // bars keep their shape as the element grows.
        float arm = 0.07;
        float bar_x = smoothstep(arm, 0.0, abs(p.x));
        float bar_y = smoothstep(arm, 0.0, abs(p.y));
        float arm_alpha = max(bar_x, bar_y);
        float edge_d = max(abs(p.x), abs(p.y));
        float edge = smoothstep(u_thickness_uv, 0.0, abs(edge_d - 0.5));
        a = arm_alpha * edge;
    }
    a *= alpha;
    gl_FragColor = vec4(u_tint * a, a);
}
"#;

/// A shape that a ripple is drawn as.
#[derive(Clone, Copy, Debug, PartialEq, Eq, Structural)]
pub enum RippleShape {
    Ring,
    Square,
    Droplet,
    Cross,
}

/// What a ripple is drawn in front of.
#[derive(Clone, Copy, Debug, PartialEq, Eq, Structural)]
pub enum RippleLayer {
    BelowWindows,
    AboveWindows,
}

/// The number by which the shader knows a shape.
pub open spec fn code_of(shape: RippleShape) -> u8 {
    match shape {
        RippleShape::Ring => 0,
        RippleShape::Square => 1,
        RippleShape::Droplet => 2,
        RippleShape::Cross => 3,
    }
}

/// The number that tells the shader which shape to draw.
pub fn shape_code(shape: RippleShape) -> (r: u8)
    ensures
        r == code_of(shape),
{
    match shape {
        RippleShape::Ring => 0,
        RippleShape::Square => 1,
        RippleShape::Droplet => 2,
        RippleShape::Cross => 3,
    }
}

/// How a ripple looks, as far as it was set.
pub struct RippleConfig {
    pub shapes: Vec<RippleShape>,
    pub duration_ms: Option<u32>,
    pub layer: Option<RippleLayer>,
}

/// A ripple: the output it belongs to, the pixel it spreads from there, and how it
/// looks. Its number stays the same, and its commit counter grows with every frame.
pub struct Ripple {
    pub output: String,
    pub center: (i32, i32),
    pub cfg: RippleConfig,
    pub id: u64,
    pub commit: usize,
}

/// How long a ripple lasts, in milliseconds.
pub open spec fn duration_of(cfg: RippleConfig) -> int {
    match cfg.duration_ms {
        Some(ms) => ms as int,
        None => 650,
    }
}

/// The shapes of a ripple: a ring where none is set.
pub open spec fn shapes_of(cfg: RippleConfig) -> Seq<RippleShape> {
    if cfg.shapes@.len() == 0 {
        seq![RippleShape::Ring]
    } else {
        cfg.shapes@
    }
}

/// The square around a ripple of this radius.
pub open spec fn square_around(center: (i32, i32), radius: int) -> Rect {
    Rect {
        x: (center.0 - radius) as i32,
        y: (center.1 - radius) as i32,
        w: (2 * radius) as i32,
        h: (2 * radius) as i32,
    }
}

/// The square around a ripple can be told.
pub open spec fn radius_fits(center: (i32, i32), radius: int) -> bool {
    &&& 0 <= radius
    &&& 2 * radius <= i32::MAX
    &&& i32::MIN <= center.0 - radius
    &&& i32::MIN <= center.1 - radius
}

impl Ripple {
    /// A ripple that begins now.
    pub fn new(output: String, center: (i32, i32), cfg: RippleConfig, id: u64) -> (r: Self)
        ensures
            r.output == output,
            r.center == center,
            r.cfg == cfg,
            r.id == id,
            r.commit == 0,
    {
        Ripple { output, center, cfg, id, commit: 0 }
    }

    /// Whether the ripple is over, this many nanoseconds after it began.
    pub fn finished(&self, elapsed: u64) -> (r: bool)
        ensures
            r == (elapsed >= duration_of(self.cfg) * 1_000_000),
    {
        let duration: u64 = match self.cfg.duration_ms {
            Some(ms) => ms as u64,
            None => 650,
        };
        elapsed >= duration * 1_000_000
    }

    /// What the ripple is drawn in front of: the windows, unless set.
    pub fn layer(&self) -> (r: RippleLayer)
        ensures
            r == match self.cfg.layer {
                Some(layer) => layer,
                None => RippleLayer::AboveWindows,
            },
    {
        match self.cfg.layer {
            Some(layer) => layer,
            None => RippleLayer::AboveWindows,
        }
    }

    /// The shapes to draw.
    pub fn shapes(&self) -> (r: Vec<RippleShape>)
        ensures
            r@ == shapes_of(self.cfg),
    {
        let mut out: Vec<RippleShape> = Vec::new();
        if self.cfg.shapes.len() == 0 {
            out.push(RippleShape::Ring);
            return out;
        }
        let mut i: usize = 0;
        while i < self.cfg.shapes.len()
            invariant
                i <= self.cfg.shapes@.len(),
                out@ == self.cfg.shapes@.take(i as int),
            decreases self.cfg.shapes@.len() - i,
        {
            out.push(self.cfg.shapes[i]);
            assert(self.cfg.shapes@.take(i + 1) =~= self.cfg.shapes@.take(i as int).push(
                self.cfg.shapes@[i as int],
            ));
            i += 1;
        }
        assert(self.cfg.shapes@.take(i as int) =~= self.cfg.shapes@);
        out
    }

    /// The square around the ripple, whose radius is this now.
    pub fn element_rect(&self, radius: i32) -> (r: Rect)
        requires
            radius_fits(self.center, radius as int),
        ensures
            r == square_around(self.center, radius as int),
    {
        Rect {
            x: self.center.0 - radius,
            y: self.center.1 - radius,
            w: 2 * radius,
            h: 2 * radius,
        }
    }
}

/// What is drawn of one shape of a ripple in one frame.
#[derive(Clone, Copy, Debug, PartialEq, Eq, Structural)]
pub struct RippleElement {
    pub id: u64,
    pub commit: usize,
    pub area: Rect,
    pub shape: RippleShape,
}

/// The commit counter of the next frame.
pub open spec fn next_commit(commit: usize) -> usize {
    if commit == usize::MAX {
        0
    } else {
        (commit + 1) as usize
    }
}

impl RippleElement {
    /// What is drawn of a ripple that began this many nanoseconds ago and has this
    /// radius now: nothing where it is over; else every shape, in the same square.
    pub fn from_ripple(ripple: &mut Ripple, elapsed: u64, radius: i32) -> (r: Vec<Self>)
        requires
            radius_fits(old(ripple).center, radius as int),
        ensures
            final(ripple).output == old(ripple).output,
            final(ripple).center == old(ripple).center,
            final(ripple).cfg == old(ripple).cfg,
            final(ripple).id == old(ripple).id,
            elapsed >= duration_of(old(ripple).cfg) * 1_000_000 ==> r@.len() == 0
                && final(ripple).commit == old(ripple).commit,
            elapsed < duration_of(old(ripple).cfg) * 1_000_000 ==> {
                &&& final(ripple).commit == next_commit(old(ripple).commit)
                &&& r@.len() == shapes_of(old(ripple).cfg).len()
                &&& forall|i: int|
                    0 <= i < r@.len() ==> #[trigger] r@[i] == (RippleElement {
                        id: old(ripple).id,
                        commit: next_commit(old(ripple).commit),
                        area: square_around(old(ripple).center, radius as int),
                        shape: shapes_of(old(ripple).cfg)[i],
                    })
            },
    {
        let mut out: Vec<Self> = Vec::new();
        if ripple.finished(elapsed) {
            return out;
        }
        ripple.commit = ripple.commit.wrapping_add(1);
        let commit: usize = ripple.commit;
        let id: u64 = ripple.id;
        let area = ripple.element_rect(radius);
        let shapes: Vec<RippleShape> = ripple.shapes();
        let mut i: usize = 0;
        while i < shapes.len()
            invariant
                i <= shapes@.len(),
                out@.len() == i,
                forall|j: int|
                    0 <= j < i ==> #[trigger] out@[j] == (RippleElement {
                        id,
                        commit,
                        area,
                        shape: shapes@[j],
                    }),
            decreases shapes@.len() - i,
        {
            out.push(RippleElement { id, commit, area, shape: shapes[i] });
            i += 1;
        }
        out
    }

    /// The longer side of the square, at least one pixel.
    pub fn max_side(&self) -> (r: i32)
        ensures
            r >= self.area.w && r >= self.area.h && r >= 1,
            r == self.area.w || r == self.area.h || r == 1,
    {
        let longer: i32 = if self.area.w > self.area.h {
            self.area.w
        } else {
            self.area.h
        };
        if longer > 1 {
            longer
        } else {
            1
        }
    }
}

/// A ripple that is not over yet is always drawn, and no two frames in a row carry the
/// same commit counter.
pub proof fn law_every_frame_is_fresh(cfg: RippleConfig, commit: usize)
    ensures
        shapes_of(cfg).len() > 0,
        next_commit(commit) != commit,
{
}

/// The square around a ripple has the ripple's centre in its middle.
pub proof fn law_square_is_centred(center: (i32, i32), radius: int)
    requires
        radius_fits(center, radius),
    ensures
        ({
            let rect = square_around(center, radius);
            &&& rect.w == rect.h == 2 * radius
            &&& rect.x + rect.w / 2 == center.0
            &&& rect.y + rect.h / 2 == center.1
        }),
{
}

} // verus!
