//! The cursor on the ground, the highlighted cell, and the camera that is
//! dragged with the mouse.
use vstd::prelude::*;
use crate::fixed::clamp;
use crate::utils::{round_to_grid, round_to_grid_spec, with_height, Terrain};
use crate::vector::{Vec2, Vec3};

verus! {

/// What is shown of the cursor.
#[derive(Copy, Clone, PartialEq, Eq, Debug, Structural)]
pub struct CursorView {
    /// Where the marker of the cursor stands: under the mouse, on the ground.
    pub cursor: Vec3,
    /// Where the highlight of the cell under the mouse lies.
    pub highlight: Vec3,
    /// Whether the pointer of the window is shown.
    pub visible: bool,
}

/// The lowest coordinates that the camera may be dragged to.
pub open spec fn camera_min() -> Vec3 {
    Vec3 { x: -45_000i64, y: 10_000, z: -30_000i64 }
}

/// The highest coordinates that the camera may be dragged to.
pub open spec fn camera_max() -> Vec3 {
    Vec3 { x: -10_000i64, y: 10_000, z: 32_000 }
}

/// Where the highlight lies below the ground while no cell is highlighted.
pub open spec fn hidden_highlight() -> Vec3 {
    Vec3 { x: 0, y: -5000i64, z: 0 }
}

/// Whether the cell under the point `v` on the ground is highlighted: the
/// point lies on the board, and the ground there is high enough to build on.
pub open spec fn on_board(v: Vec3) -> bool {
    &&& -20_000 <= v.z < 20_000
    &&& -16_000 <= v.x < 16_000
    &&& v.y >= 110
}

/// Where the highlight lies for the point `v` on the ground.
pub open spec fn highlight_of(v: Vec3) -> Vec3 {
    if on_board(v) {
        round_to_grid_spec(v)
    } else {
        hidden_highlight()
    }
}

/// The camera at `camera`, dragged from the point `reference` of the ground
/// to the point `cursor`, as far as its limits let it go.
pub open spec fn dragged(camera: Vec3, reference: Vec3, cursor: Vec3) -> Vec3 {
    Vec3 {
        x: clamp(
            camera.x + reference.x - cursor.x,
            camera_min().x as int,
            camera_max().x as int,
        ) as i64,
        y: clamp(
            camera.y + reference.y - cursor.y,
            camera_min().y as int,
            camera_max().y as int,
        ) as i64,
        z: clamp(
            camera.z + reference.z - cursor.z,
            camera_min().z as int,
            camera_max().z as int,
        ) as i64,
    }
}

/// Whether the pointer of the window is shown with the mouse at `mouse`: it
/// is shown over the buttons of the shop.
pub open spec fn pointer_shown(mouse: Vec2) -> bool {
    mouse.y < 64_000 && mouse.x < 512_000
}

/// Puts the cursor on the ground under the mouse, highlights the cell there,
/// and drags the camera while the left button is held.
///
/// `mouse` is the place of the mouse on the screen and `raw_ray` the point of
/// the world under it. `reference` remembers the point of the ground where
/// the button went down.
pub fn move_cursor_and_camera(
    just_pressed: bool,
    pressed: bool,
    mouse: Vec2,
    raw_ray: Vec3,
    camera: &mut Vec3,
    reference: &mut Vec3,
    terrain: &Terrain,
) -> (view: CursorView)
    ensures
        view.cursor == terrain.with_height_spec(raw_ray),
        view.highlight == highlight_of(view.cursor),
        view.visible == pointer_shown(mouse),
        *final(reference) == if just_pressed {
            view.cursor
        } else {
            *old(reference)
        },
        *final(camera) == if pressed {
            dragged(*old(camera), *final(reference), view.cursor)
        } else {
            *old(camera)
        },
{
    let v: Vec3 = with_height(raw_ray, terrain);
    let highlight: Vec3 = if -20_000 <= v.z && v.z < 20_000 && -16_000 <= v.x && v.x < 16_000
        && v.y >= 110 {
        round_to_grid(v)
    } else {
        Vec3 { x: 0, y: -5000, z: 0 }
    };
    if just_pressed {
        *reference = v;
    }
    if pressed {
        *camera = Vec3 {
            x: drag(camera.x, reference.x, v.x, -45_000, -10_000),
            y: drag(camera.y, reference.y, v.y, 10_000, 10_000),
            z: drag(camera.z, reference.z, v.z, -30_000, 32_000),
        };
    }
    CursorView { cursor: v, highlight, visible: mouse.y < 64_000 && mouse.x < 512_000 }
}

/// One coordinate of the camera, moved by the way from `cursor` back to
/// `reference` and kept between `lo` and `hi`.
fn drag(camera: i64, reference: i64, cursor: i64, lo: i64, hi: i64) -> (r: i64)
    ensures
        r == clamp(camera + reference - cursor, lo as int, hi as int),
{
    let moved: i128 = camera as i128 + reference as i128 - cursor as i128;
    let raised: i128 = if moved < lo as i128 {
        lo as i128
    } else {
        moved
    };
    if raised > hi as i128 {
        hi
    } else {
        raised as i64
    }
}

} // verus!
