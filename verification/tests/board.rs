use triangles3bevy::field::{calculate_cells, inscribed_edge, CellPosition, Field};
use triangles3bevy::pieces::{Cell, Square, SquareOrientation};

fn is_corner(scale: u32, i: u32, j: u32) -> bool {
    (i == 0 || i == scale - 1) && (j == 0 || j == scale - 1)
}

#[test]
fn inscribed_edge_rounds_down() {
    assert_eq!(inscribed_edge(0), 0);
    assert_eq!(inscribed_edge(1), 0);
    assert_eq!(inscribed_edge(2), 1);
    assert_eq!(inscribed_edge(3), 2);
    assert_eq!(inscribed_edge(10), 7);
    assert_eq!(inscribed_edge(400_000), 282_842);
    assert_eq!(inscribed_edge(u32::MAX), 3_037_000_499);
}

#[test]
fn inscribed_edge_is_the_largest_that_fits() {
    for size in 0u64..2000 {
        let edge = inscribed_edge(size as u32) as u64;
        assert!(2 * edge * edge <= size * size);
        assert!(size * size < 2 * (edge + 1) * (edge + 1));
    }
}

#[test]
fn field_of_eight_in_four_hundred() {
    // Lengths in thousandths.
    let field = Field::calculate(8, (0, 0), 400_000);
    assert_eq!(field.scale(), 8);
    assert_eq!(field.center(), (0, 0));
    assert_eq!(field.size(), 400_000);
    assert_eq!(field.smaller(), 282_842);
    assert_eq!(field.cell_size(), 44_783);
    assert_eq!(field.cell_spacing(), 2_357);
    let smaller = field.smaller() as f64 / 1000.0;
    let unit = (field.smaller() / (field.scale() - 2)) as f64 / 1000.0;
    let cell_size = field.cell_size() as f64 / 1000.0;
    let cell_spacing = field.cell_spacing() as f64 / 1000.0;
    assert!((smaller - 282.84).abs() < 0.01);
    assert!((unit - 47.14).abs() < 0.01);
    assert!((cell_size - 44.78).abs() < 0.01);
    assert!((cell_spacing - 2.357).abs() < 0.001);
}

#[test]
fn field_keeps_its_center() {
    let field = Field::calculate(5, (-30, 12), 1000);
    assert_eq!(field.center(), (-30, 12));
    assert_eq!(field.smaller(), 707);
    assert_eq!(field.cell_size(), 223);
    assert_eq!(field.cell_spacing(), 11);
}

#[test]
fn field_of_no_size() {
    let field = Field::calculate(3, (0, 0), 0);
    assert_eq!(field.smaller(), 0);
    assert_eq!(field.cell_size(), 0);
    assert_eq!(field.cell_spacing(), 0);
    let cells = calculate_cells(&field);
    assert_eq!(cells.len(), 5);
    assert!(cells.iter().all(|c| c.x == 0 && c.y == 0));
}

#[test]
fn field_of_the_largest_size() {
    let field = Field::calculate(3, (i32::MIN, i32::MAX), u32::MAX);
    assert_eq!(field.smaller(), 3_037_000_499);
    assert_eq!(field.cell_size(), 2_885_150_474);
    assert_eq!(field.cell_spacing(), 151_850_024);
    let cells = calculate_cells(&field);
    assert_eq!(cells[0], CellPosition { i: 0, j: 1, x: -3_037_000_499, y: -1 });
}

#[test]
fn field_in_window_takes_half_the_smaller_side() {
    let field = Field::in_window(8, 1280, 720);
    assert_eq!(field.size(), 360);
    assert_eq!(field.center(), (0, 0));
    assert_eq!(field.scale(), 8);
    let tall = Field::in_window(8, 601, 900);
    assert_eq!(tall.size(), 300);
}

#[test]
fn calculating_twice_gives_the_same_field() {
    let a = Field::calculate(8, (3, -4), 400_000);
    let b = Field::calculate(8, (3, -4), 400_000);
    assert_eq!(a.scale(), b.scale());
    assert_eq!(a.center(), b.center());
    assert_eq!(a.size(), b.size());
    assert_eq!(a.smaller(), b.smaller());
    assert_eq!(a.cell_size(), b.cell_size());
    assert_eq!(a.cell_spacing(), b.cell_spacing());
    assert_eq!(calculate_cells(&a), calculate_cells(&b));
}

#[test]
fn cells_count_is_the_grid_less_four() {
    for scale in 3u32..=40 {
        let field = Field::calculate(scale, (0, 0), 400_000);
        let cells = calculate_cells(&field);
        assert_eq!(cells.len() as u32, scale * scale - 4);
        for c in &cells {
            assert!(c.i < scale && c.j < scale);
            assert!(!is_corner(scale, c.i, c.j));
        }
    }
}

#[test]
fn cells_of_the_smallest_board() {
    let field = Field::calculate(3, (0, 0), 3000);
    assert_eq!(field.smaller(), 2121);
    assert_eq!(field.cell_size(), 2014);
    assert_eq!(field.cell_spacing(), 106);
    let cells = calculate_cells(&field);
    let expected = vec![
        CellPosition { i: 0, j: 1, x: -2121, y: -1 },
        CellPosition { i: 1, j: 0, x: -1, y: -2121 },
        CellPosition { i: 1, j: 1, x: -1, y: -1 },
        CellPosition { i: 1, j: 2, x: -1, y: 2119 },
        CellPosition { i: 2, j: 1, x: 2119, y: -1 },
    ];
    assert_eq!(cells, expected);
}

#[test]
fn cells_come_row_by_row_and_none_twice() {
    let field = Field::calculate(8, (0, 0), 400_000);
    let cells = calculate_cells(&field);
    for pair in cells.windows(2) {
        assert!((pair[0].i, pair[0].j) < (pair[1].i, pair[1].j));
    }
    let mut listed = 0;
    for i in 0..8 {
        for j in 0..8 {
            let hits = cells.iter().filter(|c| c.i == i && c.j == j).count();
            assert_eq!(hits, if is_corner(8, i, j) { 0 } else { 1 });
            listed += hits;
        }
    }
    assert_eq!(listed, 60);
}

#[test]
fn cell_offsets_follow_the_formula() {
    let field = Field::calculate(8, (0, 0), 400_000);
    let cells = calculate_cells(&field);
    assert_eq!(cells[0], CellPosition { i: 0, j: 1, x: -164_991, y: -117_851 });
    assert_eq!(cells[59], CellPosition { i: 7, j: 6, x: 164_989, y: 117_849 });
    let pitch = (field.cell_size() + field.cell_spacing()) as i64;
    let origin = (pitch - field.smaller() as i64).div_euclid(2);
    for c in &cells {
        assert_eq!(c.x, origin + (c.i as i64 - 1) * pitch);
        assert_eq!(c.y, origin + (c.j as i64 - 1) * pitch);
    }
    // Against the lengths as real numbers, in thousandths.
    let smaller = 400_000.0 / 2.0f64.sqrt();
    let unit = smaller / 6.0;
    for c in &cells {
        let x = -smaller / 2.0 + unit * 0.95 / 2.0 + unit * 0.05 / 2.0 + (c.i as f64 - 1.0) * unit;
        assert!((c.x as f64 - x).abs() < 8.0);
    }
}

#[test]
fn cells_mirror_each_other_about_the_center() {
    for scale in 3u32..=12 {
        for size in [0u32, 1, 999, 400_000, 123_457] {
            let field = Field::calculate(scale, (0, 0), size);
            let cells = calculate_cells(&field);
            let pitch = (field.cell_size() + field.cell_spacing()) as i64;
            let origin = (pitch - field.smaller() as i64).div_euclid(2);
            let skew = 2 * origin + (scale as i64 - 3) * pitch;
            assert!(-2 * (scale as i64 - 2) <= skew && skew <= 0);
            let n = cells.len();
            for k in 0..n {
                let c = cells[k];
                let m = cells[n - 1 - k];
                assert_eq!((m.i, m.j), (scale - 1 - c.i, scale - 1 - c.j));
                assert_eq!((m.x, m.y), (skew - c.x, skew - c.y));
            }
            // Turning the board by half a turn gives the same offsets, up to the skew.
            let mut turned: Vec<(i64, i64)> = cells.iter().map(|c| (skew - c.x, skew - c.y)).collect();
            let mut plain: Vec<(i64, i64)> = cells.iter().map(|c| (c.x, c.y)).collect();
            turned.sort();
            plain.sort();
            assert_eq!(turned, plain);
        }
    }
}

#[test]
fn board_without_rounding_is_exactly_symmetric() {
    // The inscribed edge of 1698 is 1200: six units of 200, split 190 and 10.
    let field = Field::calculate(8, (0, 0), 1698);
    assert_eq!(field.smaller(), 1200);
    assert_eq!(field.cell_size(), 190);
    assert_eq!(field.cell_spacing(), 10);
    let cells = calculate_cells(&field);
    let n = cells.len();
    for k in 0..n {
        assert_eq!((cells[n - 1 - k].x, cells[n - 1 - k].y), (-cells[k].x, -cells[k].y));
    }
}

#[test]
fn a_cell_is_known_by_its_row_and_holds_a_horizontal_square() {
    let field = Field::calculate(4, (0, 0), 4000);
    for c in calculate_cells(&field) {
        assert_eq!(c.cell(), Cell { id: c.i });
        assert_eq!(c.square(), Square { orientation: SquareOrientation::Horizontal });
    }
}
