use glyphcast::color::Rgba;
use glyphcast::naming::{
    classify, frame_file_name, get_output_filename, output_directory, text_file_name,
    text_file_name_for, MediaKind,
};
use glyphcast::text::{decimal, digit, ends_with, joined, push_decimal};
use glyphcast::video::{
    frame_to_image, read_frame_pixel, FramePolicy, Playback, VideoAction, VideoEvent,
};

#[test]
fn videos_are_told_by_their_extension() {
    assert_eq!(classify("clip.mp4"), MediaKind::Video);
    assert_eq!(classify("dir/clip.avi"), MediaKind::Video);
    assert_eq!(classify("clip.mkv"), MediaKind::Video);
    assert_eq!(classify(".mp4"), MediaKind::Video);
    assert_eq!(classify("clip.MP4"), MediaKind::Image);
    assert_eq!(classify("clip.mp4 "), MediaKind::Image);
    assert_eq!(classify("photo.png"), MediaKind::Image);
    assert_eq!(classify("mp4"), MediaKind::Image);
    assert_eq!(classify(""), MediaKind::Image);
    assert_eq!(classify("caf\u{e9}.mkv"), MediaKind::Video);
}

#[test]
fn output_names() {
    assert_eq!(output_directory(), "ascii-results");
    assert_eq!(text_file_name("cat"), "cat.txt");
    assert_eq!(text_file_name(""), ".txt");
    assert_eq!(get_output_filename("photos/cat.png"), Some("cat.txt".to_string()));
    assert_eq!(get_output_filename("cat"), Some("cat.txt".to_string()));
    assert_eq!(get_output_filename("a.tar.gz"), Some("a.tar.txt".to_string()));
    assert_eq!(get_output_filename(".hidden"), Some(".hidden.txt".to_string()));
    assert_eq!(get_output_filename(""), None);
    assert_eq!(get_output_filename(".."), None);
    assert_eq!(get_output_filename("frame_12.txt"), Some("frame_12.txt".to_string()));
}

#[test]
fn frame_names() {
    assert_eq!(frame_file_name(2), "frame_2.txt");
    assert_eq!(frame_file_name(0), "frame_0.txt");
    assert_eq!(frame_file_name(1234), "frame_1234.txt");
    assert_eq!(frame_file_name(u64::MAX), "frame_18446744073709551615.txt");
    assert_eq!(get_output_filename(&frame_file_name(40)), Some("frame_40.txt".to_string()));
}

#[test]
fn decimal_numerals() {
    assert_eq!(decimal(0), "0");
    assert_eq!(decimal(7), "7");
    assert_eq!(decimal(10), "10");
    assert_eq!(decimal(909), "909");
    assert_eq!(decimal(u64::MAX), u64::MAX.to_string());
    let mut s = "n=".to_string();
    push_decimal(&mut s, 4096);
    assert_eq!(s, "n=4096");
    assert_eq!((digit(0), digit(5), digit(9)), ('0', '5', '9'));
}

#[test]
fn suffixes_and_joins() {
    assert!(ends_with("abc", "bc"));
    assert!(ends_with("abc", ""));
    assert!(ends_with("abc", "abc"));
    assert!(!ends_with("abc", "xabc"));
    assert!(!ends_with("abc", "ab"));
    assert!(ends_with("na\u{ef}ve\u{b7}", "e\u{b7}"));
    assert_eq!(joined("ab", "cd"), "abcd");
    assert_eq!(joined("", ""), "");
}

#[test]
fn frames_become_bitmaps() {
    // two rows of two pixels, rows eight bytes apart
    let data: Vec<u8> = vec![1, 2, 3, 4, 5, 6, 0, 0, 7, 8, 9, 10, 11, 12, 0, 0];
    let image = frame_to_image(2, 2, 8, &data).unwrap();
    assert_eq!((image.width(), image.height()), (2, 2));
    assert_eq!(image.pixel(0, 0), Rgba::new(1, 2, 3, 255));
    assert_eq!(image.pixel(1, 0), Rgba::new(4, 5, 6, 255));
    assert_eq!(image.pixel(0, 1), Rgba::new(7, 8, 9, 255));
    assert_eq!(image.pixel(1, 1), Rgba::new(10, 11, 12, 255));
}

#[test]
fn pixels_beyond_the_data_are_black() {
    let black = Rgba::new(0, 0, 0, 255);
    let data: Vec<u8> = vec![9, 9, 9, 8, 8, 8, 7, 7];
    let image = frame_to_image(3, 2, 6, &data).unwrap();
    assert_eq!(image.pixel(0, 0), Rgba::new(9, 9, 9, 255));
    assert_eq!(image.pixel(1, 0), Rgba::new(8, 8, 8, 255));
    assert_eq!(image.pixel(2, 0), black);
    assert_eq!(image.pixel(0, 1), black);
    assert_eq!(image.pixel(2, 1), black);
    assert_eq!(read_frame_pixel(&data, 6, 1, 0), Rgba::new(8, 8, 8, 255));
    assert_eq!(read_frame_pixel(&data, usize::MAX, 0, 2), black);
    assert_eq!(read_frame_pixel(&data, 1, usize::MAX, 0), black);
    assert_eq!(read_frame_pixel(&data, 1, 1, 1), Rgba::new(8, 8, 7, 255));
    assert_eq!(read_frame_pixel(&[], 0, 0, 0), black);
}

#[test]
fn frames_too_large_are_refused() {
    assert!(frame_to_image(65536, 65536, 0, &[]).is_none());
    assert!(frame_to_image(u32::MAX, 1, 0, &[]).is_none());
    assert!(frame_to_image(1_431_655_766, 1, 0, &[]).is_none());
    let empty = frame_to_image(0, 7, 3, &[1, 2, 3]).unwrap();
    assert_eq!((empty.width(), empty.height()), (0, 7));
}

#[test]
fn every_second_frame_is_shown() {
    let mut playback = Playback::new(1, FramePolicy::standard());
    assert_eq!(playback.step(VideoEvent::Packet { stream: 0 }), VideoAction::DropPacket);
    assert_eq!(playback.step(VideoEvent::Packet { stream: 1 }), VideoAction::DecodePacket);
    assert_eq!(playback.frames_decoded(), 0);
    assert_eq!(playback.step(VideoEvent::Frame), VideoAction::SkipFrame);
    assert_eq!(
        playback.step(VideoEvent::Frame),
        VideoAction::ShowFrame { index: 2, delay_ms: 33 }
    );
    assert_eq!(playback.step(VideoEvent::Frame), VideoAction::SkipFrame);
    assert_eq!(
        playback.step(VideoEvent::Frame),
        VideoAction::ShowFrame { index: 4, delay_ms: 33 }
    );
    assert_eq!(playback.frames_decoded(), 4);
}

#[test]
fn frame_policies() {
    assert!(FramePolicy::new(0, 10).is_none());
    let mut all = Playback::new(0, FramePolicy::new(1, 5).unwrap());
    assert_eq!(all.step(VideoEvent::Frame), VideoAction::ShowFrame { index: 1, delay_ms: 5 });
    assert_eq!(all.step(VideoEvent::Frame), VideoAction::ShowFrame { index: 2, delay_ms: 5 });
    let mut third = Playback::new(0, FramePolicy::new(3, 0).unwrap());
    let shown: Vec<VideoAction> = (0..7).map(|_| third.step(VideoEvent::Frame)).collect();
    let skip = VideoAction::SkipFrame;
    assert_eq!(
        shown,
        vec![
            skip,
            skip,
            VideoAction::ShowFrame { index: 3, delay_ms: 0 },
            skip,
            skip,
            VideoAction::ShowFrame { index: 6, delay_ms: 0 },
            skip,
        ]
    );
}

#[test]
fn a_stem_names_the_text_file() {
    assert_eq!(text_file_name_for(Some("cat".to_string())), Some("cat.txt".to_string()));
    assert_eq!(text_file_name_for(Some(String::new())), Some(".txt".to_string()));
    assert_eq!(text_file_name_for(Some("a.tar".to_string())), Some("a.tar.txt".to_string()));
    assert_eq!(text_file_name_for(None), None);
}

#[test]
fn paths_without_a_final_component_have_no_name() {
    assert_eq!(get_output_filename("/"), None);
    assert_eq!(get_output_filename("photos/.."), None);
    assert_eq!(get_output_filename("photos/cat.png/"), Some("cat.txt".to_string()));
    assert_eq!(get_output_filename("photos/cat.png/."), Some("cat.txt".to_string()));
    assert_eq!(get_output_filename("cat."), Some("cat.txt".to_string()));
}
