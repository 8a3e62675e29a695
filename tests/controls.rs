use lite_room::controls::{
    control_panel_left, control_panel_right, darken_color, field_name, fill_rect, lighten_color,
    preview_panel_right, set_pixel, slider_label, slider_left, slider_right, slider_specs,
    DebouncedAutosave, SliderField, WINDOW_WIDTH,
};

#[test]
fn debounce_flushes_after_threshold() {
    let mut debounce = DebouncedAutosave::new(300);
    debounce.mark_dirty(100);
    assert!(!debounce.should_flush(399));
    assert!(debounce.should_flush(400));
}

#[test]
fn debounce_is_idle_until_marked_and_after_clear() {
    let mut debounce = DebouncedAutosave::new(50);
    assert!(!debounce.is_dirty());
    assert!(!debounce.should_flush(10_000));
    debounce.mark_dirty(1_000);
    assert!(debounce.is_dirty());
    assert!(!debounce.should_flush(500));
    debounce.clear();
    assert!(!debounce.is_dirty());
    assert!(!debounce.should_flush(10_000));
}

#[test]
fn panel_geometry_for_default_window() {
    assert_eq!(preview_panel_right(WINDOW_WIDTH), 772);
    assert_eq!(control_panel_left(WINDOW_WIDTH), 796);
    assert_eq!(control_panel_right(WINDOW_WIDTH), 1096);
    assert_eq!(slider_left(WINDOW_WIDTH), 814);
    assert_eq!(slider_right(WINDOW_WIDTH), 1078);
    assert_eq!(preview_panel_right(100), 0);
    assert_eq!(slider_right(10), 0);
}

#[test]
fn slider_names_and_labels() {
    assert_eq!(field_name(SliderField::Highlights), "highlights");
    assert_eq!(slider_label(SliderField::Tint), "TINT");
}

#[test]
fn colors_saturate_per_channel() {
    assert_eq!(darken_color(0x00_10_80_FF, 0x20), 0x00_00_60_DF);
    assert_eq!(lighten_color(0x00_F0_10_00, 0x20), 0x00_FF_30_20);
}

#[test]
fn set_pixel_ignores_points_outside_the_canvas() {
    let mut buffer = vec![0_u32; 6];
    set_pixel(&mut buffer, 3, 2, 1, 7);
    set_pixel(&mut buffer, 3, 3, 0, 9);
    set_pixel(&mut buffer, 3, 0, 2, 9);
    assert_eq!(buffer, vec![0, 0, 0, 0, 0, 7]);
}

#[test]
fn sliders_stack_at_fixed_stride() {
    let specs = slider_specs();
    assert_eq!(specs[0].field, SliderField::Exposure);
    assert_eq!(specs[0].top, 220);
    assert_eq!(specs[1].top, 288);
    assert_eq!(specs[5].field, SliderField::Shadows);
    assert_eq!(specs[5].top, 560);
    assert_eq!(specs[3].color, 0x8A95D8);
}

#[test]
fn fill_rect_clips_to_whole_rows() {
    // Four columns, three whole rows, and one trailing pixel that is never drawn.
    let mut buffer = vec![0_u32; 13];
    fill_rect(&mut buffer, 4, 1, 1, 2, usize::MAX, 5);
    assert_eq!(
        buffer,
        vec![0, 0, 0, 0, 0, 5, 5, 0, 0, 5, 5, 0, 0]
    );
    let mut edge = vec![1_u32; 4];
    fill_rect(&mut edge, 2, 1, 0, usize::MAX, 1, 9);
    assert_eq!(edge, vec![1, 9, 1, 1]);
}
