//! Encoder names and options for NVIDIA's hardware encoders.
use vstd::prelude::*;
use vstd::string::*;
use crate::media::encoders::software::{EncoderInfo, option_string, strings_view};

verus! {

/// NVENC speed presets, `p1` (fastest) to `p7` (best quality).
#[derive(Debug, Clone, Copy, PartialEq, Eq, Structural)]
pub enum NvencPreset {
    P1,
    P2,
    P3,
    P4,
    P5,
    P6,
    P7,
}

impl NvencPreset {
    /// The preset's name.
    pub open spec fn name(self) -> Seq<char> {
        match self {
            NvencPreset::P1 => "p1"@,
            NvencPreset::P2 => "p2"@,
            NvencPreset::P3 => "p3"@,
            NvencPreset::P4 => "p4"@,
            NvencPreset::P5 => "p5"@,
            NvencPreset::P6 => "p6"@,
            NvencPreset::P7 => "p7"@,
        }
    }

    /// The preset's name.
    pub fn as_str(&self) -> (r: &'static str)
        ensures
            r@ == self.name(),
    {
        match self {
            NvencPreset::P1 => "p1",
            NvencPreset::P2 => "p2",
            NvencPreset::P3 => "p3",
            NvencPreset::P4 => "p4",
            NvencPreset::P5 => "p5",
            NvencPreset::P6 => "p6",
            NvencPreset::P7 => "p7",
        }
    }
}

impl Default for NvencPreset {
    fn default() -> (r: Self)
        ensures
            r == NvencPreset::P4,
    {
        NvencPreset::P4
    }
}

/// The character of a decimal digit.
pub open spec fn digit_char(d: nat) -> char {
    if d == 0 {
        '0'
    } else if d == 1 {
        '1'
    } else if d == 2 {
        '2'
    } else if d == 3 {
        '3'
    } else if d == 4 {
        '4'
    } else if d == 5 {
        '5'
    } else if d == 6 {
        '6'
    } else if d == 7 {
        '7'
    } else if d == 8 {
        '8'
    } else {
        '9'
    }
}

/// The decimal text of `n`, without leading zeros.
pub open spec fn decimal(n: nat) -> Seq<char>
    decreases n,
{
    if n < 10 {
        seq![digit_char(n)]
    } else {
        decimal(n / 10) + seq![digit_char(n % 10)]
    }
}

/// The text of one decimal digit.
fn digit_str(d: u32) -> (r: &'static str)
    requires
        d < 10,
    ensures
        r@ == seq![digit_char(d as nat)],
{
    proof {
        reveal_strlit("0");
        reveal_strlit("1");
        reveal_strlit("2");
        reveal_strlit("3");
        reveal_strlit("4");
        reveal_strlit("5");
        reveal_strlit("6");
        reveal_strlit("7");
        reveal_strlit("8");
        reveal_strlit("9");
    }
    if d == 0 {
        "0"
    } else if d == 1 {
        "1"
    } else if d == 2 {
        "2"
    } else if d == 3 {
        "3"
    } else if d == 4 {
        "4"
    } else if d == 5 {
        "5"
    } else if d == 6 {
        "6"
    } else if d == 7 {
        "7"
    } else if d == 8 {
        "8"
    } else {
        "9"
    }
}

/// The decimal text of `n`.
pub fn decimal_string(n: u32) -> (r: String)
    ensures
        r@ == decimal(n as nat),
    decreases n,
{
    if n < 10 {
        String::from_str(digit_str(n))
    } else {
        let mut s = decimal_string(n / 10);
        s.append(digit_str(n % 10));
        s
    }
}

/// NVENC settings.
#[derive(Debug, Clone, Copy)]
pub struct NvencSettings {
    pub preset: NvencPreset,
    pub spatial_aq: bool,
    pub temporal_aq: bool,
    /// GPU index to use, or `None` for the driver's default.
    pub gpu: Option<u32>,
}

impl Default for NvencSettings {
    fn default() -> (r: Self)
        ensures
            r.preset == NvencPreset::P4,
            !r.spatial_aq,
            !r.temporal_aq,
            r.gpu is None,
    {
        NvencSettings { preset: NvencPreset::P4, spatial_aq: false, temporal_aq: false, gpu: None }
    }
}

/// `"1"` for true, `"0"` for false.
pub open spec fn flag_text(b: bool) -> Seq<char> {
    if b {
        "1"@
    } else {
        "0"@
    }
}

/// The ffmpeg options that every NVENC encoder gets from `settings`.
pub open spec fn nvenc_options(settings: NvencSettings) -> Seq<Seq<char>> {
    seq![
        "-preset "@ + settings.preset.name(),
        "-spatial-aq "@ + flag_text(settings.spatial_aq),
        "-temporal-aq "@ + flag_text(settings.temporal_aq),
    ] + match settings.gpu {
        Some(g) => seq!["-gpu "@ + decimal(g as nat)],
        None => Seq::empty(),
    }
}

fn flag_str(b: bool) -> (r: &'static str)
    ensures
        r@ == flag_text(b),
{
    if b {
        "1"
    } else {
        "0"
    }
}

fn build_options(settings: &NvencSettings) -> (r: Vec<String>)
    ensures
        strings_view(r@) == nvenc_options(*settings),
{
    let mut opts: Vec<String> = Vec::new();
    opts.push(option_string("-preset ", settings.preset.as_str()));
    opts.push(option_string("-spatial-aq ", flag_str(settings.spatial_aq)));
    opts.push(option_string("-temporal-aq ", flag_str(settings.temporal_aq)));
    let ghost head = strings_view(opts@);
    if let Some(gpu) = settings.gpu {
        let g = decimal_string(gpu);
        opts.push(option_string("-gpu ", g.as_str()));
    }
    proof {
        assert(head =~= seq![
            "-preset "@ + settings.preset.name(),
            "-spatial-aq "@ + flag_text(settings.spatial_aq),
            "-temporal-aq "@ + flag_text(settings.temporal_aq),
        ]);
        assert(strings_view(opts@) =~= nvenc_options(*settings));
    }
    opts
}

/// The NVENC encoders.
#[derive(Debug, Clone)]
pub struct NvencEncoders {
    pub h264: EncoderInfo,
    pub h265: EncoderInfo,
    pub av1: EncoderInfo,
}

impl NvencEncoders {
    /// Builds the encoders; all three take the same options.
    pub fn build(settings: NvencSettings) -> (r: Self)
        ensures
            r.h264.name@ == "h264_nvenc"@,
            r.h265.name@ == "hevc_nvenc"@,
            r.av1.name@ == "av1_nvenc"@,
            strings_view(r.h264.options@) == nvenc_options(settings),
            strings_view(r.h265.options@) == nvenc_options(settings),
            strings_view(r.av1.options@) == nvenc_options(settings),
    {
        NvencEncoders {
            h264: EncoderInfo { name: "h264_nvenc", options: build_options(&settings) },
            h265: EncoderInfo { name: "hevc_nvenc", options: build_options(&settings) },
            av1: EncoderInfo { name: "av1_nvenc", options: build_options(&settings) },
        }
    }
}

impl Default for NvencEncoders {
    fn default() -> (r: Self)
        ensures
            r.h264.name@ == "h264_nvenc"@,
            strings_view(r.h264.options@) == seq![
                "-preset "@ + "p4"@,
                "-spatial-aq "@ + "0"@,
                "-temporal-aq "@ + "0"@,
            ],
    {
        let settings = NvencSettings::default();
        let r = Self::build(settings);
        proof {
            assert(nvenc_options(settings) =~= seq![
                "-preset "@ + "p4"@,
                "-spatial-aq "@ + "0"@,
                "-temporal-aq "@ + "0"@,
            ]);
        }
        r
    }
}

} // verus!
