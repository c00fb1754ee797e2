use tower_defense::towers::{spawn_tower, Banking, Tower, Turret};
use tower_defense::ui::{generate_clicks, run_shop, Click, ClickType, GUI_BAND};
use tower_defense::utils::{Terrain, COLS, ROWS};
use tower_defense::vector::{Vec2, Vec3};

fn terrain() -> Terrain {
    let mut heights = [[0i8; COLS]; ROWS];
    heights[9][12] = 4;
    Terrain::new(heights)
}

#[test]
fn click_variants() {
    let gui = Click::Gui(Vec2::new(1, 2));
    let world = Click::World(Vec3::new(1, 2, 3));
    assert_eq!(gui.gui(), Some(Vec2::new(1, 2)));
    assert_eq!(gui.world(), None);
    assert_eq!(world.world(), Some(Vec3::new(1, 2, 3)));
    assert_eq!(world.gui(), None);
}

#[test]
fn shop_selects_the_last_tower_pressed() {
    let mut banking = Banking { selection: None, balance: 77 };
    run_shop(&vec![], &mut banking);
    assert_eq!(banking, Banking { selection: None, balance: 77 });
    run_shop(&vec![ClickType::Buy(Tower::Water)], &mut banking);
    assert_eq!(banking, Banking { selection: Some(Tower::Water), balance: 77 });
    run_shop(&vec![ClickType::Buy(Tower::Air), ClickType::Buy(Tower::Laser)], &mut banking);
    assert_eq!(banking, Banking { selection: Some(Tower::Laser), balance: 77 });
    run_shop(&vec![], &mut banking);
    assert_eq!(banking, Banking { selection: Some(Tower::Laser), balance: 77 });
}

#[test]
fn press_is_remembered() {
    let mut pressed_at = Vec2::new(0, 0);
    let at = Vec2::new(100_000, 200_000);
    assert_eq!(generate_clicks(true, false, Some(at), None, &mut pressed_at, &terrain()), None);
    assert_eq!(pressed_at, at);
    let moved = Vec2::new(100_000, 200_001);
    assert_eq!(generate_clicks(false, false, Some(moved), None, &mut pressed_at, &terrain()), None);
    assert_eq!(pressed_at, at);
    assert_eq!(generate_clicks(true, false, None, None, &mut pressed_at, &terrain()), None);
    assert_eq!(pressed_at, Vec2::new(0, 0));
}

#[test]
fn release_in_the_band_is_a_click_on_the_shop() {
    let mut pressed_at = Vec2::new(0, 0);
    let at = Vec2::new(100_000, GUI_BAND);
    let ray = Some(Vec3::new(0, 0, 0));
    generate_clicks(true, false, Some(at), ray, &mut pressed_at, &terrain());
    assert_eq!(
        generate_clicks(false, true, Some(at), ray, &mut pressed_at, &terrain()),
        Some(Click::Gui(at))
    );
    let top = Vec2::new(5, 0);
    generate_clicks(true, false, Some(top), None, &mut pressed_at, &terrain());
    assert_eq!(
        generate_clicks(false, true, Some(top), None, &mut pressed_at, &terrain()),
        Some(Click::Gui(top))
    );
}

#[test]
fn release_below_the_band_is_a_click_on_the_world() {
    let mut pressed_at = Vec2::new(0, 0);
    let at = Vec2::new(100_000, GUI_BAND + 1);
    // (2.3, 1, 4.9) is snapped to (3, 5), the centre of row 9 and column 12
    let ray = Some(Vec3::new(2300, 1000, 4900));
    generate_clicks(true, false, Some(at), ray, &mut pressed_at, &terrain());
    assert_eq!(
        generate_clicks(false, true, Some(at), ray, &mut pressed_at, &terrain()),
        Some(Click::World(Vec3::new(3000, 600, 5000)))
    );
}

#[test]
fn press_and_release_at_once_is_a_click() {
    let mut pressed_at = Vec2::new(7, 7);
    let at = Vec2::new(100_000, 10_000);
    assert_eq!(
        generate_clicks(true, true, Some(at), None, &mut pressed_at, &terrain()),
        Some(Click::Gui(at))
    );
}

#[test]
fn drag_is_no_click() {
    let mut pressed_at = Vec2::new(0, 0);
    let down = Vec2::new(100_000, 200_000);
    let up = Vec2::new(100_001, 200_000);
    let ray = Some(Vec3::new(0, 0, 0));
    generate_clicks(true, false, Some(down), ray, &mut pressed_at, &terrain());
    assert_eq!(generate_clicks(false, true, Some(up), ray, &mut pressed_at, &terrain()), None);
    assert_eq!(pressed_at, down);
}

#[test]
fn release_without_a_cursor_is_no_click() {
    let mut pressed_at = Vec2::new(0, 0);
    assert_eq!(generate_clicks(true, true, None, None, &mut pressed_at, &terrain()), None);
    assert_eq!(
        generate_clicks(true, true, Some(Vec2::new(0, 0)), None, &mut pressed_at, &terrain()),
        None
    );
}

#[test]
fn click_on_the_world_without_a_point_under_it_is_lost() {
    let mut pressed_at = Vec2::new(0, 0);
    let at = Vec2::new(100_000, 200_000);
    assert_eq!(generate_clicks(true, true, Some(at), None, &mut pressed_at, &terrain()), None);
    assert_eq!(pressed_at, at);
}

#[test]
fn no_release_is_no_click() {
    let mut pressed_at = Vec2::new(5, 5);
    let at = Vec2::new(5, 5);
    assert_eq!(generate_clicks(false, false, Some(at), None, &mut pressed_at, &terrain()), None);
}

#[test]
fn click_buys_a_tower_at_the_centre_of_its_cell() {
    let mut pressed_at = Vec2::new(0, 0);
    let at = Vec2::new(400_000, 300_000);
    let ray = Some(Vec3::new(2300, 1000, 4900));
    let click = generate_clicks(true, true, Some(at), ray, &mut pressed_at, &terrain()).unwrap();
    let mut towers: Vec<Turret> = vec![];
    let mut poor = Banking { selection: Some(Tower::Land), balance: 20 };
    spawn_tower(&vec![click], &mut poor, &mut towers);
    assert_eq!(poor, Banking { selection: Some(Tower::Land), balance: 20 });
    assert!(towers.is_empty());
    let mut exact = Banking { selection: Some(Tower::Land), balance: 30 };
    spawn_tower(&vec![click], &mut exact, &mut towers);
    assert_eq!(exact, Banking { selection: None, balance: 0 });
    assert_eq!(towers.len(), 1);
    assert_eq!(towers[0].translation, Vec3::new(3000, 600, 5000));
}
