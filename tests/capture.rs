use ssbh_editor::{bgra_to_rgba, capture_size, image_from_bgra, screenshot_width, FrameSequence};

#[test]
fn width_100_rounds_to_128() {
    assert_eq!(128, screenshot_width(100));
}

#[test]
fn width_64_stays() {
    assert_eq!(64, screenshot_width(64));
}

#[test]
fn width_65_rounds_to_128() {
    assert_eq!(128, screenshot_width(65));
}

#[test]
fn width_zero_stays_zero() {
    assert_eq!(0, screenshot_width(0));
}

#[test]
fn largest_width_is_aligned() {
    assert_eq!(1073741760, screenshot_width(1073741760));
    assert_eq!(1073741760, screenshot_width(1073741700));
}

#[test]
fn capture_size_of_100_by_50() {
    let size = capture_size(100, 50);
    assert_eq!(128, size.texture_width);
    assert_eq!(50, size.texture_height);
    assert_eq!(512, size.bytes_per_row);
    assert_eq!(128 * 50 * 4, size.buffer_size);
}

#[test]
fn channel_swap_exchanges_red_and_blue() {
    let mut data = vec![1, 2, 3, 4, 5, 6, 7, 8, 9];
    bgra_to_rgba(&mut data, 8);
    assert_eq!(vec![3, 2, 1, 4, 7, 6, 5, 8, 9], data);
}

#[test]
fn captured_image_is_rgba() {
    // One blue pixel and one red pixel, as BGRA.
    let bgra = vec![255, 0, 0, 255, 0, 0, 255, 128];
    let img = image_from_bgra(2, 1, bgra).unwrap();
    assert_eq!(&vec![0, 0, 255, 255, 255, 0, 0, 128], img.image.as_raw());
    assert_eq!((2, 1), img.image.dimensions());
}

#[test]
fn captured_image_needs_enough_bytes() {
    assert!(image_from_bgra(2, 2, vec![0; 15]).is_none());
    assert!(image_from_bgra(2, 2, vec![0; 16]).is_some());
}

#[test]
fn final_frame_ten_gives_eleven_frames() {
    let mut frames = FrameSequence::new(Some(10));
    assert_eq!(11, frames.frame_count());
    let mut rendered = Vec::new();
    while let Some(f) = frames.advance() {
        rendered.push(f);
    }
    assert_eq!((0..=10).collect::<Vec<u32>>(), rendered);
    assert_eq!(None, frames.advance());
}

#[test]
fn final_frame_zero_gives_one_frame() {
    let mut frames = FrameSequence::new(Some(0));
    assert_eq!(Some(0), frames.advance());
    assert_eq!(None, frames.advance());
}

#[test]
fn no_final_frame_gives_no_frames() {
    let mut frames = FrameSequence::new(None);
    assert_eq!(0, frames.frame_count());
    assert_eq!(None, frames.advance());
}
