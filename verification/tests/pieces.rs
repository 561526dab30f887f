use triangles3bevy::config::GamePlugin;
use triangles3bevy::pieces::{random_triangle, TriangleColor};

#[test]
fn each_colour_has_its_file() {
    assert_eq!(TriangleColor::Red.asset_path(), "tRed.png");
    assert_eq!(TriangleColor::Green.asset_path(), "tGreen.png");
    assert_eq!(TriangleColor::Blue.asset_path(), "tBlue.png");
    assert_eq!(TriangleColor::Orange.asset_path(), "tOrange.png");
    assert_eq!(TriangleColor::Purple.asset_path(), "tPurple.png");
    assert_eq!(TriangleColor::Teal.asset_path(), "tTeal.png");
    assert_eq!(TriangleColor::Yellow.asset_path(), "tYellow.png");
}

#[test]
fn a_roll_stands_for_one_of_four_colours() {
    assert_eq!(TriangleColor::from_roll(0), TriangleColor::Red);
    assert_eq!(TriangleColor::from_roll(1), TriangleColor::Green);
    assert_eq!(TriangleColor::from_roll(2), TriangleColor::Blue);
    assert_eq!(TriangleColor::from_roll(3), TriangleColor::Teal);
    assert_eq!(TriangleColor::from_roll(4), TriangleColor::Teal);
    assert_eq!(TriangleColor::from_roll(u32::MAX), TriangleColor::Teal);
}

#[test]
fn random_triangles_take_the_colours_in_play() {
    let mut seen = [false; 4];
    for _ in 0..400 {
        match random_triangle().color {
            TriangleColor::Red => seen[0] = true,
            TriangleColor::Green => seen[1] = true,
            TriangleColor::Blue => seen[2] = true,
            TriangleColor::Teal => seen[3] = true,
            other => panic!("{:?} is not in play", other),
        }
    }
    // Four hundred draws that miss one of four colours would be a broken generator.
    assert_eq!(seen, [true; 4]);
}

#[test]
fn the_game_brings_its_settings_by_default() {
    let plugin = GamePlugin::default();
    assert!(plugin.default_resources);
    let config = plugin.resources().unwrap();
    assert_eq!(config.field_scale, 8);
    assert_eq!(config.square_bg, [0x91, 0x1C, 0x8B, 255]);
    assert_eq!(config.gradient.color1, [255, 255, 255, 255]);
    assert_eq!(config.gradient.color2, [145, 28, 139, 255]);
    assert_eq!((config.gradient.radius.num, config.gradient.radius.den), (1, 4));
}

#[test]
fn the_game_brings_nothing_when_told_so() {
    let plugin = GamePlugin { default_resources: false };
    assert!(plugin.resources().is_none());
}
