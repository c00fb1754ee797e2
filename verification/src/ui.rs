//! Clicks: where they fall, and what the shop makes of them.
use vstd::prelude::*;
use crate::towers::{Banking, Tower};
use crate::utils::{round_to_grid_spec, to_grid_with_height, Terrain};
use crate::vector::{Vec2, Vec3};

verus! {

/// Height of the band of buttons at the top of the screen, in thousandths
/// of a pixel. A click at this height still falls on the band.
pub const GUI_BAND: i64 = 64_000;

/// What a button of the shop stands for.
#[derive(Copy, Clone, PartialEq, Eq, Debug, Structural)]
pub enum ClickType {
    Buy(Tower),
    Volcano,
    Sell,
    Upgrade,
    Next,
}

/// A click of the left mouse button.
#[derive(Copy, Clone, PartialEq, Eq, Debug, Structural)]
pub enum Click {
    /// A click on the band of buttons, at a point of the screen.
    Gui(Vec2),
    /// A click on the world, at the centre of a cell and on its ground.
    World(Vec3),
}

impl Click {
    /// The point of the world that was clicked, if the click fell on the
    /// world.
    pub open spec fn world_spec(self) -> Option<Vec3> {
        match self {
            Click::World(at) => Some(at),
            Click::Gui(_) => None,
        }
    }

    /// The point of the screen that was clicked, if the click fell on the
    /// band of buttons.
    pub open spec fn gui_spec(self) -> Option<Vec2> {
        match self {
            Click::Gui(at) => Some(at),
            Click::World(_) => None,
        }
    }

    /// The point of the world that was clicked, if the click fell on the
    /// world.
    pub fn world(self) -> (at: Option<Vec3>)
        ensures
            at == self.world_spec(),
    {
        match self {
            Click::World(at) => Some(at),
            Click::Gui(_) => None,
        }
    }

    /// The point of the screen that was clicked, if the click fell on the
    /// band of buttons.
    pub fn gui(self) -> (at: Option<Vec2>)
        ensures
            at == self.gui_spec(),
    {
        match self {
            Click::Gui(at) => Some(at),
            Click::World(_) => None,
        }
    }
}

/// Makes each pressed button's tower the chosen one, in turn. Only the
/// buttons that sell towers do anything yet: no other may be among `pressed`.
pub fn run_shop(pressed: &Vec<ClickType>, banking: &mut Banking)
    requires
        forall|i: int| 0 <= i < pressed@.len() ==> #[trigger] pressed@[i] is Buy,
    ensures
        final(banking).balance == old(banking).balance,
        pressed@.len() == 0 ==> final(banking).selection == old(banking).selection,
        pressed@.len() > 0 ==> final(banking).selection == Some(pressed@.last()->Buy_0),
{
    let mut i: usize = 0;
    while i < pressed.len()
        invariant
            i <= pressed@.len(),
            forall|j: int| 0 <= j < pressed@.len() ==> #[trigger] pressed@[j] is Buy,
            banking.balance == old(banking).balance,
            i == 0 ==> banking.selection == old(banking).selection,
            i > 0 ==> banking.selection == Some(pressed@[i - 1]->Buy_0),
        decreases pressed@.len() - i,
    {
        assert(pressed@[i as int] is Buy);
        match pressed[i] {
            ClickType::Buy(tower) => {
                banking.selection = Some(tower);
            },
            _ => {},
        }
        i += 1;
    }
}

/// The click that the state of the mouse amounts to, if it amounts to one.
///
/// `cursor` is the place of the cursor on the screen, `pressed_at` the place
/// where the button last went down, and `raw_ray` the point of the world
/// under the cursor. A click is a release at the very place of the press,
/// anywhere but at the screen's origin. In the band of buttons it is a click
/// on the shop; below the band it is a click on the world, at the centre of
/// the cell under the cursor and on its ground, and is lost where no point
/// of the world is under the cursor.
pub open spec fn click_of(
    just_released: bool,
    cursor: Option<Vec2>,
    pressed_at: Vec2,
    raw_ray: Option<Vec3>,
    terrain: Terrain,
) -> Option<Click> {
    let p = cursor_or_origin(cursor);
    if just_released && p != Vec2::zero() && pressed_at == p {
        if p.y <= GUI_BAND {
            Some(Click::Gui(p))
        } else {
            match raw_ray {
                Some(point) => Some(
                    Click::World(terrain.with_height_spec(round_to_grid_spec(point))),
                ),
                None => None,
            }
        }
    } else {
        None
    }
}

/// The place of the cursor, or the origin of the screen where the cursor is
/// not over the window.
pub open spec fn cursor_or_origin(cursor: Option<Vec2>) -> Vec2 {
    match cursor {
        Some(p) => p,
        None => Vec2::zero(),
    }
}

/// Follows the left mouse button: remembers in `pressed_at` where it went
/// down, and tells which click its release makes.
pub fn generate_clicks(
    just_pressed: bool,
    just_released: bool,
    cursor: Option<Vec2>,
    raw_ray: Option<Vec3>,
    pressed_at: &mut Vec2,
    terrain: &Terrain,
) -> (click: Option<Click>)
    ensures
        *final(pressed_at) == if just_pressed {
            cursor_or_origin(cursor)
        } else {
            *old(pressed_at)
        },
        click == click_of(just_released, cursor, *final(pressed_at), raw_ray, *terrain),
{
    let p: Vec2 = match cursor {
        Some(p) => p,
        None => Vec2 { x: 0, y: 0 },
    };
    if just_pressed {
        *pressed_at = p;
    }
    if just_released && !(p.x == 0 && p.y == 0) && pressed_at.x == p.x && pressed_at.y == p.y {
        if p.y <= GUI_BAND {
            Some(Click::Gui(p))
        } else {
            match raw_ray {
                Some(point) => Some(Click::World(to_grid_with_height(point, terrain))),
                None => None,
            }
        }
    } else {
        None
    }
}

} // verus!
