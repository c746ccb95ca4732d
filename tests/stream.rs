use obcoder::pixel::{checked_frame_size, format_for_upper, source_format, PixelFormat};
use obcoder::stream::{ObStream, StreamError};

#[test]
fn test_frame_size_calculation() {
    assert_eq!(
        ObStream::calculate_frame_size(PixelFormat::Yuv420p, 1920, 1080),
        1920 * 1080 * 3 / 2
    );
    assert_eq!(
        ObStream::calculate_frame_size(PixelFormat::Rgba, 1920, 1080),
        1920 * 1080 * 4
    );
}

#[test]
fn test_ob_stream_new() {
    let stream = ObStream::new(1920, 1080, 5, "bgra").unwrap();
    assert_eq!(stream.width(), 1920);
    assert_eq!(stream.height(), 1080);
    assert_eq!(stream.src_pixel(), PixelFormat::Bgra);
    assert_eq!(stream.dst_pixel(), PixelFormat::Nv12);
    assert_eq!(stream.buffer_info(), (0, 1920 * 1080 * 4 * 5, 1920 * 1080 * 4 * 5));
}

#[test]
fn frame_sizes_of_every_format() {
    let (w, h) = (10u32, 6u32);
    let px = 60usize;
    assert_eq!(ObStream::calculate_frame_size(PixelFormat::Nv12, w, h), px * 3 / 2);
    assert_eq!(ObStream::calculate_frame_size(PixelFormat::Yuv420p, w, h), px * 3 / 2);
    assert_eq!(ObStream::calculate_frame_size(PixelFormat::Bgra, w, h), px * 4);
    assert_eq!(ObStream::calculate_frame_size(PixelFormat::Rgba, w, h), px * 4);
    assert_eq!(ObStream::calculate_frame_size(PixelFormat::Rgb24, w, h), px * 3);
    assert_eq!(ObStream::calculate_frame_size(PixelFormat::Bgr24, w, h), px * 3);
    assert_eq!(ObStream::calculate_frame_size(PixelFormat::Yuv422p, w, h), px * 2);
    assert_eq!(ObStream::calculate_frame_size(PixelFormat::Yuv444p, w, h), px * 3);
    assert_eq!(ObStream::calculate_frame_size(PixelFormat::Unknown, w, h), px * 4);
    assert_eq!(ObStream::calculate_frame_size(PixelFormat::Nv12, 3, 3), 13);
}

#[test]
fn frame_size_too_large_for_usize_is_none() {
    let huge = checked_frame_size(PixelFormat::Bgra, u32::MAX, u32::MAX);
    if usize::BITS == 64 {
        assert_eq!(huge, None);
    }
    assert_eq!(checked_frame_size(PixelFormat::Nv12, 4, 4), Some(24));
}

#[test]
fn format_tags_are_case_insensitive() {
    assert_eq!(source_format("nv12"), PixelFormat::Nv12);
    assert_eq!(source_format("Nv12"), PixelFormat::Nv12);
    assert_eq!(source_format("NV12"), PixelFormat::Nv12);
    assert_eq!(source_format("bgra"), PixelFormat::Bgra);
    assert_eq!(source_format("yuv420p"), PixelFormat::Bgra);
    assert_eq!(source_format(""), PixelFormat::Bgra);
    assert_eq!(format_for_upper("NV12"), PixelFormat::Nv12);
    assert_eq!(format_for_upper("nv12"), PixelFormat::Bgra);
}

#[test]
fn lower_case_tag_builds_an_nv12_stream() {
    let stream = ObStream::new(4, 4, 2, "nv12").unwrap();
    assert_eq!(stream.src_pixel(), PixelFormat::Nv12);
    assert_eq!(stream.frame_size(), 24);
}

#[test]
fn two_full_hd_frames_fit_and_the_third_does_not() {
    let mut stream = ObStream::new(1920, 1080, 2, "NV12").unwrap();
    assert_eq!(stream.frame_size(), 3_110_400);
    let frame = vec![7u8; 3_110_400];
    assert_eq!(stream.write_frame(&frame), Ok(()));
    assert_eq!(stream.write_frame(&frame), Ok(()));
    assert_eq!(stream.write_frame(&frame), Err(StreamError::BufferFull));
    assert_eq!(stream.available_frames(), 2);
}

#[test]
fn written_frame_reads_back_unchanged() {
    for tag in ["nv12", "bgra"] {
        let mut stream = ObStream::new(4, 2, 3, tag).unwrap();
        let size = stream.frame_size();
        let frame: Vec<u8> = (0..size).map(|i| (i * 7 + 3) as u8).collect();
        stream.write_frame(&frame).unwrap();
        let read = stream.read_frame().unwrap().unwrap();
        assert_eq!(read.data, frame);
        assert_eq!(read.format, stream.src_pixel());
        assert_eq!(read.target, PixelFormat::Nv12);
        assert_eq!(stream.available_frames(), 0);
        assert!(stream.read_frame().unwrap().is_none());
    }
}

#[test]
fn frames_come_out_in_the_order_written() {
    let mut stream = ObStream::new(2, 2, 3, "NV12").unwrap();
    let a = vec![1u8; 6];
    let b = vec![2u8; 6];
    stream.write_frame(&a).unwrap();
    stream.write_frame(&b).unwrap();
    assert_eq!(stream.read_frame().unwrap().unwrap().data, a);
    assert_eq!(stream.read_frame().unwrap().unwrap().data, b);
}

#[test]
fn available_frames_counts_whole_frames_only() {
    let mut stream = ObStream::new(2, 2, 3, "NV12").unwrap();
    assert_eq!(stream.available_frames(), 0);
    assert_eq!(stream.write_slice(&[1, 2, 3, 4]), 4);
    assert_eq!(stream.available_frames(), 0);
    assert!(stream.read_frame().unwrap().is_none());
    assert_eq!(stream.write_slice(&[5, 6, 7, 8, 9, 10, 11, 12, 13]), 9);
    assert_eq!(stream.buffer_info(), (13, 5, 18));
    assert_eq!(stream.available_frames(), 2);
    let first = stream.read_frame().unwrap().unwrap();
    assert_eq!(first.data, vec![1, 2, 3, 4, 5, 6]);
    assert_eq!(stream.available_frames(), 1);
    assert_eq!(stream.buffer_info(), (7, 11, 18));
    assert_eq!(stream.write_slice(&[0u8; 20]), 11);
    assert_eq!(stream.available_frames(), 3);
    assert!(!stream.can_write_frame());
}

#[test]
fn wrong_length_frame_is_a_mismatch() {
    let mut stream = ObStream::new(2, 2, 2, "NV12").unwrap();
    assert_eq!(
        stream.write_frame(&[0u8; 5]),
        Err(StreamError::FrameSizeMismatch { expected: 6, actual: 5 })
    );
    assert_eq!(stream.buffer_info().0, 0);
}

#[test]
fn can_write_frame_tracks_vacant_space() {
    let mut stream = ObStream::new(2, 2, 1, "NV12").unwrap();
    assert!(stream.can_write_frame());
    stream.write_frame(&[0u8; 6]).unwrap();
    assert!(!stream.can_write_frame());
    stream.read_frame().unwrap();
    assert!(stream.can_write_frame());
}

#[test]
fn empty_or_frameless_configurations_are_refused() {
    assert!(matches!(ObStream::new(0, 1080, 2, "NV12"), Err(StreamError::ConfigurationError)));
    assert!(matches!(ObStream::new(1920, 0, 2, "bgra"), Err(StreamError::ConfigurationError)));
    assert!(matches!(ObStream::new(1920, 1080, 0, "bgra"), Err(StreamError::ConfigurationError)));
    assert!(matches!(
        ObStream::new(u32::MAX, u32::MAX, 4, "bgra"),
        Err(StreamError::ConfigurationError)
    ));
}

#[test]
fn unsupported_source_layout_is_reported_on_read() {
    let mut stream = ObStream::with_format(2, 2, 2, PixelFormat::Yuv420p).unwrap();
    stream.write_frame(&[1u8; 6]).unwrap();
    assert!(matches!(stream.read_frame(), Err(StreamError::ConversionUnsupported)));
    assert_eq!(stream.available_frames(), 0);
}
