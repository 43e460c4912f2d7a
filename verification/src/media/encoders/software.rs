//! Encoder names and options for the software (CPU) codecs.
use vstd::prelude::*;
use vstd::string::*;

verus! {

/// x264 / x265 speed presets.
#[derive(Debug, Clone, Copy, PartialEq, Eq, Structural)]
pub enum X26xPreset {
    Ultrafast,
    Superfast,
    /// The default, written `superfast` like `Superfast`.
    Superfast_,
    Veryfast,
    Faster,
    Fast,
    Medium,
    Slow,
    Slower,
    Veryslow,
    Placebo,
}

impl X26xPreset {
    /// The preset's name.
    pub open spec fn name(self) -> Seq<char> {
        match self {
            X26xPreset::Ultrafast => "ultrafast"@,
            X26xPreset::Superfast => "superfast"@,
            X26xPreset::Superfast_ => "superfast"@,
            X26xPreset::Veryfast => "veryfast"@,
            X26xPreset::Faster => "faster"@,
            X26xPreset::Fast => "fast"@,
            X26xPreset::Medium => "medium"@,
            X26xPreset::Slow => "slow"@,
            X26xPreset::Slower => "slower"@,
            X26xPreset::Veryslow => "veryslow"@,
            X26xPreset::Placebo => "placebo"@,
        }
    }

    /// The preset's name.
    pub fn as_str(&self) -> (r: &'static str)
        ensures
            r@ == self.name(),
    {
        match self {
            X26xPreset::Ultrafast => "ultrafast",
            X26xPreset::Superfast => "superfast",
            X26xPreset::Superfast_ => "superfast",
            X26xPreset::Veryfast => "veryfast",
            X26xPreset::Faster => "faster",
            X26xPreset::Fast => "fast",
            X26xPreset::Medium => "medium",
            X26xPreset::Slow => "slow",
            X26xPreset::Slower => "slower",
            X26xPreset::Veryslow => "veryslow",
            X26xPreset::Placebo => "placebo",
        }
    }
}

impl Default for X26xPreset {
    fn default() -> (r: Self)
        ensures
            r == X26xPreset::Superfast_,
    {
        X26xPreset::Superfast_
    }
}

/// x264 tunings.
#[derive(Debug, Clone, Copy, PartialEq, Eq, Structural)]
pub enum X264Tune {
    Film,
    Animation,
    Grain,
    Stillimage,
    Fastdecode,
    Zerolatency,
    Psnr,
    Ssim,
}

impl X264Tune {
    /// The tuning's name.
    pub open spec fn name(self) -> Seq<char> {
        match self {
            X264Tune::Film => "film"@,
            X264Tune::Animation => "animation"@,
            X264Tune::Grain => "grain"@,
            X264Tune::Stillimage => "stillimage"@,
            X264Tune::Fastdecode => "fastdecode"@,
            X264Tune::Zerolatency => "zerolatency"@,
            X264Tune::Psnr => "psnr"@,
            X264Tune::Ssim => "ssim"@,
        }
    }

    /// The tuning's name.
    pub fn as_str(&self) -> (r: &'static str)
        ensures
            r@ == self.name(),
    {
        match self {
            X264Tune::Film => "film",
            X264Tune::Animation => "animation",
            X264Tune::Grain => "grain",
            X264Tune::Stillimage => "stillimage",
            X264Tune::Fastdecode => "fastdecode",
            X264Tune::Zerolatency => "zerolatency",
            X264Tune::Psnr => "psnr",
            X264Tune::Ssim => "ssim",
        }
    }
}

/// x264 settings.
#[derive(Debug, Clone, Copy)]
pub struct X264Settings {
    pub preset: X26xPreset,
    pub tune: X264Tune,
}

impl Default for X264Settings {
    fn default() -> (r: Self)
        ensures
            r.preset == X26xPreset::Superfast_,
            r.tune == X264Tune::Film,
    {
        X264Settings { preset: X26xPreset::Superfast_, tune: X264Tune::Film }
    }
}

/// x265 tunings.
#[derive(Debug, Clone, Copy, PartialEq, Eq, Structural)]
pub enum X265Tune {
    Psnr,
    Ssim,
    Grain,
    Fastdecode,
    Zerolatency,
    Animation,
}

impl X265Tune {
    /// The tuning's name.
    pub open spec fn name(self) -> Seq<char> {
        match self {
            X265Tune::Psnr => "psnr"@,
            X265Tune::Ssim => "ssim"@,
            X265Tune::Grain => "grain"@,
            X265Tune::Fastdecode => "fastdecode"@,
            X265Tune::Zerolatency => "zerolatency"@,
            X265Tune::Animation => "animation"@,
        }
    }

    /// The tuning's name.
    pub fn as_str(&self) -> (r: &'static str)
        ensures
            r@ == self.name(),
    {
        match self {
            X265Tune::Psnr => "psnr",
            X265Tune::Ssim => "ssim",
            X265Tune::Grain => "grain",
            X265Tune::Fastdecode => "fastdecode",
            X265Tune::Zerolatency => "zerolatency",
            X265Tune::Animation => "animation",
        }
    }
}

/// x265 settings.
#[derive(Debug, Clone, Copy)]
pub struct X265Settings {
    pub preset: X26xPreset,
    pub tune: Option<X265Tune>,
}

impl Default for X265Settings {
    fn default() -> (r: Self)
        ensures
            r.preset == X26xPreset::Superfast_,
            r.tune is None,
    {
        X265Settings { preset: X26xPreset::Superfast_, tune: None }
    }
}

/// An encoder's ffmpeg name and options.
#[derive(Debug, Clone)]
pub struct EncoderInfo {
    pub name: &'static str,
    pub options: Vec<String>,
}

/// The text of a list of strings.
pub open spec fn strings_view(v: Seq<String>) -> Seq<Seq<char>> {
    v.map_values(|s: String| s@)
}

/// `prefix` followed by `value`.
pub fn option_string(prefix: &str, value: &str) -> (r: String)
    ensures
        r@ == prefix@ + value@,
{
    let mut s = String::from_str(prefix);
    s.append(value);
    s
}

/// The encoders of every codec.
#[derive(Debug, Clone)]
pub struct SoftwareEncoders {
    pub h264: EncoderInfo,
    pub h265: EncoderInfo,
    pub vp8: EncoderInfo,
    pub vp9: EncoderInfo,
    pub av1: EncoderInfo,
}

impl SoftwareEncoders {
    /// Builds the encoder list; absent settings take their defaults (preset
    /// `superfast`, x264 tuned for film, x265 untuned).
    pub fn build(x264: Option<X264Settings>, x265: Option<X265Settings>) -> (r: Self)
        ensures
            ({
                let p264 = match x264 {
                    Some(s) => s.preset,
                    None => X26xPreset::Superfast_,
                };
                let t264 = match x264 {
                    Some(s) => s.tune,
                    None => X264Tune::Film,
                };
                let p265 = match x265 {
                    Some(s) => s.preset,
                    None => X26xPreset::Superfast_,
                };
                let t265 = match x265 {
                    Some(s) => s.tune,
                    None => None,
                };
                &&& r.h264.name@ == "libx264"@
                &&& strings_view(r.h264.options@) == seq![
                    "-forced-idr 1"@,
                    "-tune "@ + t264.name(),
                    "-preset "@ + p264.name(),
                ]
                &&& r.h265.name@ == "libx265"@
                &&& strings_view(r.h265.options@) == seq!["-forced-idr 1"@, "-preset "@ + p265.name()]
                    + match t265 {
                    Some(t) => seq!["-tune "@ + t.name()],
                    None => Seq::empty(),
                }
                &&& r.vp8.name@ == "libvpx"@
                &&& strings_view(r.vp8.options@) == seq!["-deadline 20000"@]
                &&& r.vp9.name@ == "libvpx-vp9"@
                &&& strings_view(r.vp9.options@) == seq!["-deadline 20000"@]
                &&& r.av1.name@ == "libsvtav1"@
                &&& r.av1.options@.len() == 0
            }),
    {
        let x264 = match x264 {
            Some(s) => s,
            None => X264Settings::default(),
        };
        let x265 = match x265 {
            Some(s) => s,
            None => X265Settings::default(),
        };
        let mut x265_opts: Vec<String> = Vec::new();
        x265_opts.push(String::from_str("-forced-idr 1"));
        x265_opts.push(option_string("-preset ", x265.preset.as_str()));
        if let Some(tune) = &x265.tune {
            x265_opts.push(option_string("-tune ", tune.as_str()));
        }
        let mut h264_opts: Vec<String> = Vec::new();
        h264_opts.push(String::from_str("-forced-idr 1"));
        h264_opts.push(option_string("-tune ", x264.tune.as_str()));
        h264_opts.push(option_string("-preset ", x264.preset.as_str()));
        let mut vp8_opts: Vec<String> = Vec::new();
        vp8_opts.push(String::from_str("-deadline 20000"));
        let mut vp9_opts: Vec<String> = Vec::new();
        vp9_opts.push(String::from_str("-deadline 20000"));
        let r = SoftwareEncoders {
            h264: EncoderInfo { name: "libx264", options: h264_opts },
            h265: EncoderInfo { name: "libx265", options: x265_opts },
            vp8: EncoderInfo { name: "libvpx", options: vp8_opts },
            vp9: EncoderInfo { name: "libvpx-vp9", options: vp9_opts },
            av1: EncoderInfo { name: "libsvtav1", options: Vec::new() },
        };
        proof {
            assert(strings_view(r.h264.options@) =~= seq![
                "-forced-idr 1"@,
                "-tune "@ + x264.tune.name(),
                "-preset "@ + x264.preset.name(),
            ]);
            assert(strings_view(r.vp8.options@) =~= seq!["-deadline 20000"@]);
            assert(strings_view(r.vp9.options@) =~= seq!["-deadline 20000"@]);
            match x265.tune {
                Some(t) => {
                    assert(strings_view(r.h265.options@) =~= seq![
                        "-forced-idr 1"@,
                        "-preset "@ + x265.preset.name(),
                    ] + seq!["-tune "@ + t.name()]);
                },
                None => {
                    assert(strings_view(r.h265.options@) =~= seq![
                        "-forced-idr 1"@,
                        "-preset "@ + x265.preset.name(),
                    ] + Seq::<Seq<char>>::empty());
                },
            }
        }
        r
    }
}

impl Default for SoftwareEncoders {
    fn default() -> (r: Self)
        ensures
            r.h264.name@ == "libx264"@,
            strings_view(r.h264.options@) == seq![
                "-forced-idr 1"@,
                "-tune "@ + "film"@,
                "-preset "@ + "superfast"@,
            ],
    {
        Self::build(None, None)
    }
}

} // verus!
