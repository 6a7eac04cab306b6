use disco_lcd::controller::DisplayController;
use disco_lcd::lcd::rk043fn48h::Rk043fn48h;
use disco_lcd::lcd::Lcd;

fn live_controller() -> DisplayController {
    let mut controller = DisplayController::new(Rk043fn48h::get_config());
    controller.config_layer(vec![0u16; 480 * 272]);
    controller.enable_layer();
    controller.reload();
    controller
}

#[test]
fn controller_has_no_frame_buffer_at_first() {
    let controller = DisplayController::new(Rk043fn48h::get_config());
    assert_eq!(controller.pixel(0, 0), None);
}

#[test]
fn controller_shows_the_bound_frame_buffer() {
    let mut controller = DisplayController::new(Rk043fn48h::get_config());
    let mut buffer = vec![0u16; 480 * 272];
    buffer[0] = 1;
    buffer[479] = 2;
    buffer[480] = 3;
    buffer[480 * 272 - 1] = 4;
    controller.config_layer(buffer);
    assert_eq!(controller.pixel(0, 0), Some(1));
    assert_eq!(controller.pixel(479, 0), Some(2));
    assert_eq!(controller.pixel(0, 1), Some(3));
    assert_eq!(controller.pixel(479, 271), Some(4));
    assert_eq!(controller.pixel(480, 0), None);
    assert_eq!(controller.pixel(0, 272), None);
}

#[test]
fn controller_stores_a_pixel_in_row_major_order() {
    let mut controller = live_controller();
    controller.draw_pixel(3, 2, 0xABCD);
    assert_eq!(controller.pixel(3, 2), Some(0xABCD));
    assert_eq!(controller.pixel(2, 3), Some(0));
    controller.draw_pixel(479, 271, 0x1234);
    assert_eq!(controller.pixel(479, 271), Some(0x1234));
    controller.draw_pixel(3, 2, 0x0001);
    assert_eq!(controller.pixel(3, 2), Some(0x0001));
}

#[test]
fn controller_of_another_geometry_uses_its_own_width() {
    let config = disco_lcd::config::DisplayConfig {
        active_width: 4,
        active_height: 3,
        ..Rk043fn48h::get_config()
    };
    let mut controller = DisplayController::new(config);
    controller.config_layer(vec![0u16; 12]);
    controller.enable_layer();
    controller.reload();
    controller.draw_pixel(1, 2, 7);
    for y in 0..3 {
        for x in 0..4 {
            let want = if (x, y) == (1, 2) { 7 } else { 0 };
            assert_eq!(controller.pixel(x, y), Some(want));
        }
    }
    assert_eq!(controller.pixel(4, 0), None);
    assert_eq!(controller.pixel(0, 3), None);
}
