use lockrs::state::worker::{rgba_from_bgra_rows, screenshot_layout, worker_continues, WorkerEvent};

#[test]
fn rows_are_padded_to_256_bytes() {
    let layout = screenshot_layout(100, 3);
    assert_eq!(layout.padded_bytes_per_row, 512);
    assert_eq!(layout.buffer_size, 1536);
    let layout = screenshot_layout(64, 2);
    assert_eq!(layout.padded_bytes_per_row, 256);
    assert_eq!(layout.buffer_size, 512);
    let layout = screenshot_layout(0, 5);
    assert_eq!(layout.padded_bytes_per_row, 0);
    assert_eq!(layout.buffer_size, 0);
    let layout = screenshot_layout(1920, 1080);
    assert_eq!(layout.padded_bytes_per_row, 7680);
    assert_eq!(layout.buffer_size, 7680 * 1080);
}

#[test]
fn bgra_becomes_rgba_and_padding_is_dropped() {
    // 2 pixels wide, 2 rows, rows padded to 12 bytes
    let data: Vec<u8> = vec![
        1, 2, 3, 4, 5, 6, 7, 8, 99, 99, 99, 99, //
        9, 10, 11, 12, 13, 14, 15, 16, 99, 99, 99, 99,
    ];
    let rgba = rgba_from_bgra_rows(&data, 2, 2, 12);
    assert_eq!(rgba, vec![3, 2, 1, 4, 7, 6, 5, 8, 11, 10, 9, 12, 15, 14, 13, 16]);
}

#[test]
fn last_row_needs_no_padding() {
    let data: Vec<u8> = vec![10, 20, 30, 40, 0, 0, 0, 0, 50, 60, 70, 80];
    let rgba = rgba_from_bgra_rows(&data, 1, 2, 8);
    assert_eq!(rgba, vec![30, 20, 10, 40, 70, 60, 50, 80]);
}

#[test]
fn empty_frame_gives_empty_image() {
    assert!(rgba_from_bgra_rows(&[], 0, 0, 0).is_empty());
    assert!(rgba_from_bgra_rows(&[1, 2, 3], 4, 0, 256).is_empty());
}

#[test]
fn layout_buffer_is_enough_for_the_conversion() {
    let layout = screenshot_layout(3, 2);
    let data = vec![7u8; layout.buffer_size as usize];
    let rgba = rgba_from_bgra_rows(&data, 3, 2, layout.padded_bytes_per_row);
    assert_eq!(rgba.len(), 3 * 2 * 4);
}

#[test]
fn worker_stops_when_told_or_unheard() {
    assert!(!worker_continues(&WorkerEvent::<()>::Stop, true));
    assert!(worker_continues(&WorkerEvent::SaveImage(()), false));
    assert!(worker_continues(&WorkerEvent::<()>::CheckPassword("pw".to_string()), true));
    assert!(!worker_continues(&WorkerEvent::<()>::CheckPassword("pw".to_string()), false));
}

#[test]
fn each_pixel_keeps_its_place_with_red_and_blue_traded() {
    let (w, h, padded) = (3u32, 4u32, 16u32);
    let data: Vec<u8> = (0..(padded * h) as usize).map(|i| (i * 7 % 251) as u8).collect();
    let rgba = rgba_from_bgra_rows(&data, w, h, padded);
    assert_eq!(rgba.len(), (4 * w * h) as usize);
    let source = [2usize, 1, 0, 3];
    for y in 0..h as usize {
        for x in 0..w as usize {
            for c in 0..4 {
                assert_eq!(rgba[4 * (y * w as usize + x) + c], data[y * padded as usize + 4 * x + source[c]]);
            }
        }
    }
}
