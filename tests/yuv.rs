use obcoder::yuv::get_yuv_corrected;

#[test]
fn i420_rows_are_packed_without_padding() {
    // 4x2 luma with stride 6; chroma stride 3, U row then V row.
    let lu: Vec<u8> = vec![1, 2, 3, 4, 90, 90, 5, 6, 7, 8, 90, 90];
    let ch: Vec<u8> = vec![10, 11, 90, 20, 21, 90];
    let out = get_yuv_corrected(&lu, 6, &ch, 3, 4, 2);
    assert_eq!(out, vec![1, 2, 3, 4, 5, 6, 7, 8, 10, 11, 20, 21]);
}

#[test]
fn i420_short_luma_gives_nothing() {
    let lu: Vec<u8> = vec![1, 2, 3, 4, 90, 90, 5, 6, 7];
    let ch: Vec<u8> = vec![10, 11, 90, 20, 21, 90];
    assert!(get_yuv_corrected(&lu, 6, &ch, 3, 4, 2).is_empty());
}

#[test]
fn i420_missing_v_plane_gives_nothing() {
    let lu: Vec<u8> = vec![1, 2, 3, 4, 5, 6, 7, 8];
    let ch: Vec<u8> = vec![10, 11, 90];
    assert!(get_yuv_corrected(&lu, 4, &ch, 3, 4, 2).is_empty());
}

#[test]
fn i420_negative_dimension_gives_nothing() {
    let lu: Vec<u8> = vec![1, 2, 3, 4];
    let ch: Vec<u8> = vec![10, 20];
    assert!(get_yuv_corrected(&lu, 2, &ch, 1, -2, 2).is_empty());
    assert!(get_yuv_corrected(&lu, -2, &ch, 1, 2, 2).is_empty());
}
