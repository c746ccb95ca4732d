use obcoder::codec::{
    get_hw_accel_decoder, get_hw_accel_encoder, preference_list, resolve, CodecError, Direction,
    Platform,
};

fn registry(names: &[&str]) -> Vec<String> {
    names.iter().map(|n| n.to_string()).collect()
}

#[test]
fn encoder_lists_per_platform() {
    assert_eq!(get_hw_accel_encoder(Platform::MacOs), vec!["h264_videotoolbox", "libx264"]);
    assert_eq!(
        get_hw_accel_encoder(Platform::Windows),
        vec!["h264_nvenc", "h264_amf", "h264_qsv", "libx264"]
    );
    assert_eq!(
        get_hw_accel_encoder(Platform::Linux),
        vec!["h264_nvenc", "h264_qsv", "h264_vaapi", "libx264"]
    );
    assert_eq!(get_hw_accel_encoder(Platform::Other), vec!["libx264"]);
}

#[test]
fn decoder_lists_per_platform() {
    assert_eq!(get_hw_accel_decoder(Platform::MacOs), vec!["h264_videotoolbox", "h264"]);
    assert_eq!(
        get_hw_accel_decoder(Platform::Windows),
        vec!["h264_nvdec", "h264_cuvid", "h264_d3d11va", "h264_dxva2", "h264_qsv", "h264_amf", "h264"]
    );
    assert_eq!(
        get_hw_accel_decoder(Platform::Linux),
        vec!["h264_nvdec", "h264_cuvid", "h264_vaapi", "h264_vdpau", "h264"]
    );
    assert_eq!(get_hw_accel_decoder(Platform::Other), vec!["h264"]);
}

#[test]
fn preference_list_follows_direction() {
    assert_eq!(
        preference_list(Direction::Encode, Platform::Linux),
        get_hw_accel_encoder(Platform::Linux)
    );
    assert_eq!(
        preference_list(Direction::Decode, Platform::Windows),
        get_hw_accel_decoder(Platform::Windows)
    );
}

#[test]
fn resolve_takes_the_first_recognized_identifier() {
    let reg = registry(&["libx264", "h264_vaapi", "h264_qsv"]);
    assert_eq!(resolve(Direction::Encode, Platform::Linux, &reg), Ok("h264_qsv"));
}

#[test]
fn resolve_falls_back_to_software() {
    let reg = registry(&["libx264", "h264"]);
    assert_eq!(resolve(Direction::Encode, Platform::Windows, &reg), Ok("libx264"));
    assert_eq!(resolve(Direction::Decode, Platform::MacOs, &reg), Ok("h264"));
}

#[test]
fn resolve_fails_when_nothing_is_recognized() {
    let reg = registry(&[]);
    assert_eq!(
        resolve(Direction::Encode, Platform::Linux, &reg),
        Err(CodecError::CodecNotFound)
    );
    let other = registry(&["mpeg4", "h264_vdpau"]);
    assert_eq!(
        resolve(Direction::Decode, Platform::Windows, &other),
        Err(CodecError::CodecNotFound)
    );
}
