use vstd::prelude::*;

verus! {

/// Whether a codec is wanted for encoding or for decoding.
#[derive(Clone, Copy, Debug, PartialEq, Eq, Structural)]
pub enum Direction {
    Encode,
    Decode,
}

/// The operating-system family whose hardware codecs are preferred.
#[derive(Clone, Copy, Debug, PartialEq, Eq, Structural)]
pub enum Platform {
    MacOs,
    Windows,
    Linux,
    /// Any other system: only the software codec is listed.
    Other,
}

/// Errors of codec selection.
#[derive(Clone, Copy, Debug, PartialEq, Eq, Structural)]
pub enum CodecError {
    /// No listed codec, not even the software one, is known to the registry.
    CodecNotFound,
}

/// The H.264 encoders to try on a platform, hardware first, most preferred
/// first, ending with the software encoder.
pub open spec fn encoder_preferences(platform: Platform) -> Seq<Seq<char>> {
    match platform {
        Platform::MacOs => seq!["h264_videotoolbox"@, "libx264"@],
        Platform::Windows => seq!["h264_nvenc"@, "h264_amf"@, "h264_qsv"@, "libx264"@],
        Platform::Linux => seq!["h264_nvenc"@, "h264_qsv"@, "h264_vaapi"@, "libx264"@],
        Platform::Other => seq!["libx264"@],
    }
}

/// The H.264 decoders to try on a platform, in the same order of
/// preference, ending with the software decoder.
pub open spec fn decoder_preferences(platform: Platform) -> Seq<Seq<char>> {
    match platform {
        Platform::MacOs => seq!["h264_videotoolbox"@, "h264"@],
        Platform::Windows => seq![
            "h264_nvdec"@,
            "h264_cuvid"@,
            "h264_d3d11va"@,
            "h264_dxva2"@,
            "h264_qsv"@,
            "h264_amf"@,
            "h264"@,
        ],
        Platform::Linux => seq![
            "h264_nvdec"@,
            "h264_cuvid"@,
            "h264_vaapi"@,
            "h264_vdpau"@,
            "h264"@,
        ],
        Platform::Other => seq!["h264"@],
    }
}

pub open spec fn preferences(direction: Direction, platform: Platform) -> Seq<Seq<char>> {
    match direction {
        Direction::Encode => encoder_preferences(platform),
        Direction::Decode => decoder_preferences(platform),
    }
}

/// The text of each identifier of a list.
pub open spec fn names_of(list: Seq<&str>) -> Seq<Seq<char>> {
    list.map_values(|s: &str| s@)
}

/// Whether a registry, given as the identifiers it recognizes, knows `name`.
pub open spec fn recognizes(registry: Seq<String>, name: Seq<char>) -> bool {
    exists|j: int| 0 <= j < registry.len() && (#[trigger] registry[j])@ == name
}

/// `list[i]` is the first entry of `list` that the registry recognizes.
pub open spec fn first_recognized_at(
    list: Seq<Seq<char>>,
    registry: Seq<String>,
    i: int,
) -> bool {
    &&& 0 <= i < list.len()
    &&& recognizes(registry, list[i])
    &&& forall|j: int| 0 <= j < i ==> !recognizes(registry, #[trigger] list[j])
}

/// The hardware-accelerated H.264 encoders of `platform` in order of
/// preference, then the software encoder.
pub fn get_hw_accel_encoder(platform: Platform) -> (r: Vec<&'static str>)
    ensures
        names_of(r@) == encoder_preferences(platform),
{
    let mut hws: Vec<&'static str> = Vec::new();
    match platform {
        Platform::MacOs => {
            hws.push("h264_videotoolbox");
        },
        Platform::Windows => {
            hws.push("h264_nvenc");
            hws.push("h264_amf");
            hws.push("h264_qsv");
        },
        Platform::Linux => {
            hws.push("h264_nvenc");
            hws.push("h264_qsv");
            hws.push("h264_vaapi");
        },
        Platform::Other => {},
    }
    hws.push("libx264");
    assert(names_of(hws@) =~= encoder_preferences(platform));
    hws
}

/// The hardware-accelerated H.264 decoders of `platform` in order of
/// preference, then the software decoder.
pub fn get_hw_accel_decoder(platform: Platform) -> (r: Vec<&'static str>)
    ensures
        names_of(r@) == decoder_preferences(platform),
{
    let mut hws: Vec<&'static str> = Vec::new();
    match platform {
        Platform::MacOs => {
            hws.push("h264_videotoolbox");
        },
        Platform::Windows => {
            hws.push("h264_nvdec");
            hws.push("h264_cuvid");
            hws.push("h264_d3d11va");
            hws.push("h264_dxva2");
            hws.push("h264_qsv");
            hws.push("h264_amf");
        },
        Platform::Linux => {
            hws.push("h264_nvdec");
            hws.push("h264_cuvid");
            hws.push("h264_vaapi");
            hws.push("h264_vdpau");
        },
        Platform::Other => {},
    }
    hws.push("h264");
    assert(names_of(hws@) =~= decoder_preferences(platform));
    hws
}

/// The ordered codec identifiers for a direction and platform.
pub fn preference_list(direction: Direction, platform: Platform) -> (r: Vec<&'static str>)
    ensures
        names_of(r@) == preferences(direction, platform),
{
    match direction {
        Direction::Encode => get_hw_accel_encoder(platform),
        Direction::Decode => get_hw_accel_decoder(platform),
    }
}

/// Whether `registry` holds `name`.
fn registry_has(registry: &Vec<String>, name: &str) -> (r: bool)
    ensures
        r == recognizes(registry@, name@),
{
    let wanted = name.to_owned();
    let mut j: usize = 0;
    while j < registry.len()
        invariant
            j <= registry@.len(),
            wanted@ == name@,
            forall|k: int| 0 <= k < j ==> (#[trigger] registry@[k])@ != name@,
        decreases registry@.len() - j,
    {
        if registry[j] == wanted {
            return true;
        }
        j = j + 1;
    }
    false
}

/// The first identifier of `list` that `registry` recognizes.
pub fn first_recognized(list: &Vec<&'static str>, registry: &Vec<String>) -> (r: Result<
    &'static str,
    CodecError,
>)
    ensures
        match r {
            Ok(name) => exists|i: int|
                first_recognized_at(names_of(list@), registry@, i) && names_of(list@)[i]
                    == name@,
            Err(_) => forall|i: int|
                0 <= i < list@.len() ==> !recognizes(registry@, #[trigger] names_of(list@)[i]),
        },
{
    let mut i: usize = 0;
    while i < list.len()
        invariant
            i <= list@.len(),
            forall|j: int| 0 <= j < i ==> !recognizes(registry@, #[trigger] names_of(list@)[j]),
        decreases list@.len() - i,
    {
        let name = list[i];
        if registry_has(registry, name) {
            assert(first_recognized_at(names_of(list@), registry@, i as int));
            return Ok(name);
        }
        i = i + 1;
    }
    Err(CodecError::CodecNotFound)
}

/// The codec to use for `direction` on `platform`: the first identifier of
/// the preference list that the registry recognizes, tried in order.
pub fn resolve(direction: Direction, platform: Platform, registry: &Vec<String>) -> (r: Result<
    &'static str,
    CodecError,
>)
    ensures
        match r {
            Ok(name) => exists|i: int|
                first_recognized_at(preferences(direction, platform), registry@, i)
                    && preferences(direction, platform)[i] == name@,
            Err(e) => {
                &&& e == CodecError::CodecNotFound
                &&& forall|i: int|
                    0 <= i < preferences(direction, platform).len() ==> !recognizes(
                        registry@,
                        #[trigger] preferences(direction, platform)[i],
                    )
            },
        },
{
    let list = preference_list(direction, platform);
    first_recognized(&list, registry)
}

} // verus!
