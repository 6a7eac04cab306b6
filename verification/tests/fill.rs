use disco_lcd::color::Rgb565;
use disco_lcd::fill::ClippedFill;
use disco_lcd::geometry::{Point, Rectangle, Size};
use disco_lcd::pixel::{Pixel, PixelWrite};

const RED: Rgb565 = Rgb565 { r: 31, g: 0, b: 0 };

fn rect(x: i32, y: i32, width: u32, height: u32) -> Rectangle {
    Rectangle::new(Point::new(x, y), Size::new(width, height))
}

fn points_of(area: &Rectangle, panel: Size) -> Vec<Point> {
    let mut fill = ClippedFill::new(area, panel);
    let mut points = Vec::new();
    while let Some(p) = fill.next_point() {
        points.push(p);
    }
    points
}

fn solid_writes(area: &Rectangle, panel: Size, color: Rgb565) -> Vec<PixelWrite> {
    let mut fill = ClippedFill::new(area, panel);
    let mut writes = Vec::new();
    while let Some(p) = fill.next_point() {
        if let Some(w) = fill.write_for(p, color) {
            writes.push(w);
        }
    }
    writes
}

#[test]
fn pixel_write_packs_the_color_and_keeps_the_coordinates() {
    let w = Pixel(Point::new(7, 9), Rgb565::new(1, 2, 3)).write();
    assert_eq!(w, PixelWrite { x: 7, y: 9, value: (1 << 11) | (2 << 5) | 3 });
    let w = Pixel(Point::new(0, 0), RED).write();
    assert_eq!(w, PixelWrite { x: 0, y: 0, value: 0xF800 });
}

#[test]
fn cursor_yields_the_points_in_row_major_order() {
    let points = points_of(&rect(10, 20, 2, 3), Size::new(480, 272));
    assert_eq!(
        points,
        vec![
            Point::new(10, 20),
            Point::new(11, 20),
            Point::new(10, 21),
            Point::new(11, 21),
            Point::new(10, 22),
            Point::new(11, 22),
        ]
    );
}

#[test]
fn cursor_yields_points_off_the_panel_too() {
    let points = points_of(&rect(-1, -1, 3, 2), Size::new(480, 272));
    assert_eq!(
        points,
        vec![
            Point::new(-1, -1),
            Point::new(0, -1),
            Point::new(1, -1),
            Point::new(-1, 0),
            Point::new(0, 0),
            Point::new(1, 0),
        ]
    );
}

#[test]
fn cursor_keeps_yielding_nothing_once_it_is_done() {
    let mut fill = ClippedFill::new(&rect(0, 0, 1, 1), Size::new(480, 272));
    assert_eq!(fill.next_point(), Some(Point::new(0, 0)));
    assert_eq!(fill.next_point(), None);
    assert_eq!(fill.next_point(), None);
}

#[test]
fn cursor_yields_nothing_for_an_area_off_the_panel() {
    assert!(points_of(&rect(480, 0, 10, 10), Size::new(480, 272)).is_empty());
    assert!(points_of(&rect(0, 272, 10, 10), Size::new(480, 272)).is_empty());
    assert!(points_of(&rect(-10, -10, 10, 10), Size::new(480, 272)).is_empty());
}

#[test]
fn cursor_yields_nothing_for_a_zero_sized_area() {
    assert!(points_of(&rect(5, 5, 0, 10), Size::new(480, 272)).is_empty());
    assert!(points_of(&rect(5, 5, 10, 0), Size::new(480, 272)).is_empty());
    assert!(points_of(&rect(0, 0, 0, 0), Size::new(480, 272)).is_empty());
}

#[test]
fn cursor_yields_nothing_on_a_panel_without_width_and_height() {
    assert!(points_of(&rect(0, 0, 4, 4), Size::new(0, 0)).is_empty());
    assert!(solid_writes(&rect(0, 0, 4, 4), Size::new(0, 0), RED).is_empty());
}

#[test]
fn nothing_is_written_on_a_panel_without_pixels() {
    assert!(solid_writes(&rect(0, 0, 4, 4), Size::new(0, 5), RED).is_empty());
    assert!(solid_writes(&rect(-1, -1, 4, 4), Size::new(0, 5), RED).is_empty());
    assert!(solid_writes(&rect(-1, -1, 4, 4), Size::new(5, 0), RED).is_empty());
}

#[test]
fn fill_with_colors_pairs_each_point_with_its_color() {
    // Three columns, two rows; the last column lies right of a panel that
    // is two pixels wide.
    let mut fill = ClippedFill::new(&rect(0, 0, 3, 2), Size::new(2, 2));
    let colors: Vec<Rgb565> = (1..=6u8).map(|k| Rgb565::new(0, 0, k)).collect();
    let mut colors = colors.into_iter();
    let mut writes = Vec::new();
    while let Some(p) = fill.next_point() {
        let Some(color) = colors.next() else { break };
        if let Some(w) = fill.write_for(p, color) {
            writes.push(w);
        }
    }
    assert_eq!(
        writes,
        vec![
            PixelWrite { x: 0, y: 0, value: 1 },
            PixelWrite { x: 1, y: 0, value: 2 },
            PixelWrite { x: 0, y: 1, value: 4 },
            PixelWrite { x: 1, y: 1, value: 5 },
        ]
    );
}

#[test]
fn write_for_draws_only_in_the_area_and_on_the_panel() {
    let fill = ClippedFill::new(&rect(470, 0, 20, 10), Size::new(480, 272));
    assert_eq!(
        fill.write_for(Point::new(470, 0), RED),
        Some(PixelWrite { x: 470, y: 0, value: 0xF800 })
    );
    assert_eq!(
        fill.write_for(Point::new(479, 9), RED),
        Some(PixelWrite { x: 479, y: 9, value: 0xF800 })
    );
    // In the area, off the panel.
    assert_eq!(fill.write_for(Point::new(480, 0), RED), None);
    assert_eq!(fill.write_for(Point::new(489, 9), RED), None);
    // On the panel, outside the area.
    assert_eq!(fill.write_for(Point::new(469, 0), RED), None);
    assert_eq!(fill.write_for(Point::new(470, 10), RED), None);
}

#[test]
fn solid_fill_across_the_right_edge_is_clipped() {
    let writes = solid_writes(&rect(470, 0, 20, 10), Size::new(480, 272), RED);
    assert_eq!(writes.len(), 100);
    for (k, w) in writes.iter().enumerate() {
        assert_eq!(*w, PixelWrite { x: 470 + k % 10, y: k / 10, value: 0xF800 });
        assert!(w.x < 480);
    }
}

#[test]
fn solid_fill_across_the_top_left_corner_is_clipped() {
    let writes = solid_writes(&rect(-2, -1, 4, 3), Size::new(480, 272), RED);
    assert_eq!(
        writes,
        vec![
            PixelWrite { x: 0, y: 0, value: 0xF800 },
            PixelWrite { x: 1, y: 0, value: 0xF800 },
            PixelWrite { x: 0, y: 1, value: 0xF800 },
            PixelWrite { x: 1, y: 1, value: 0xF800 },
        ]
    );
}

#[test]
fn solid_fill_of_a_whole_panel_writes_each_pixel_once() {
    let panel = Size::new(7, 5);
    let writes = solid_writes(&rect(0, 0, 7, 5), panel, RED);
    assert_eq!(writes.len(), 35);
    for (k, w) in writes.iter().enumerate() {
        assert_eq!(*w, PixelWrite { x: k % 7, y: k / 7, value: 0xF800 });
    }
}

#[test]
fn solid_fill_of_the_panel_writes_each_of_its_pixels_once() {
    let writes = solid_writes(&rect(0, 0, 480, 272), Size::new(480, 272), RED);
    assert_eq!(writes.len(), 480 * 272);
    let mut seen = vec![false; 480 * 272];
    for (k, w) in writes.iter().enumerate() {
        assert_eq!(*w, PixelWrite { x: k % 480, y: k / 480, value: 0xF800 });
        assert!(!seen[w.x + 480 * w.y]);
        seen[w.x + 480 * w.y] = true;
    }
    assert!(seen.iter().all(|s| *s));
}

#[test]
fn fill_on_other_panel_sizes_is_clipped_to_them() {
    let writes = solid_writes(&rect(1, 1, 5, 5), Size::new(3, 2), RED);
    assert_eq!(
        writes,
        vec![PixelWrite { x: 1, y: 1, value: 0xF800 }, PixelWrite { x: 2, y: 1, value: 0xF800 }]
    );
}
