//! Encoder names and options for VA-API hardware encoders.
use vstd::prelude::*;
use vstd::string::*;
use crate::media::encoders::software::strings_view;

verus! {

/// VA-API settings.
#[derive(Debug, Clone)]
pub struct VaapiSettings {
    /// DRM render node, e.g. `"/dev/dri/renderD128"`.
    pub device: String,
}

impl Default for VaapiSettings {
    fn default() -> (r: Self)
        ensures
            r.device@ == "/dev/dri/renderD128"@,
    {
        VaapiSettings { device: String::from_str("/dev/dri/renderD128") }
    }
}

/// A VA-API encoder: its name, options, the global ffmpeg options it needs
/// and the filters that upload frames to the device.
#[derive(Debug, Clone)]
pub struct VaapiEncoderInfo {
    pub name: &'static str,
    pub options: Vec<String>,
    /// Global ffmpeg options, `-vaapi_device` and the device.
    pub global_options: Vec<String>,
    /// Output filter chain.
    pub out_filters: Vec<&'static str>,
}

/// The text of a list of string slices.
pub open spec fn strs_view(v: Seq<&'static str>) -> Seq<Seq<char>> {
    v.map_values(|s: &'static str| s@)
}

impl VaapiEncoderInfo {
    /// What every VA-API encoder holds besides its name.
    pub open spec fn is_for_device(self, device: Seq<char>) -> bool {
        &&& self.options@.len() == 0
        &&& strings_view(self.global_options@) == seq!["-vaapi_device"@, device]
        &&& strs_view(self.out_filters@) == seq!["format=nv12|vaapi"@, "hwupload"@]
    }
}

fn make_encoder(name: &'static str, device: &String) -> (r: VaapiEncoderInfo)
    ensures
        r.name == name,
        r.is_for_device(device@),
{
    let mut global_options: Vec<String> = Vec::new();
    global_options.push(String::from_str("-vaapi_device"));
    global_options.push(device.clone());
    let mut out_filters: Vec<&'static str> = Vec::new();
    out_filters.push("format=nv12|vaapi");
    out_filters.push("hwupload");
    let r = VaapiEncoderInfo { name, options: Vec::new(), global_options, out_filters };
    proof {
        assert(strings_view(r.global_options@) =~= seq!["-vaapi_device"@, device@]);
        assert(strs_view(r.out_filters@) =~= seq!["format=nv12|vaapi"@, "hwupload"@]);
    }
    r
}

/// The VA-API encoders.
#[derive(Debug, Clone)]
pub struct VaapiEncoders {
    pub h264: VaapiEncoderInfo,
    pub h265: VaapiEncoderInfo,
    pub av1: VaapiEncoderInfo,
}

impl VaapiEncoders {
    /// Builds the encoders for the device that `settings` names.
    pub fn build(settings: VaapiSettings) -> (r: Self)
        ensures
            r.h264.name@ == "h264_vaapi"@,
            r.h265.name@ == "hevc_vaapi"@,
            r.av1.name@ == "av1_vaapi"@,
            r.h264.is_for_device(settings.device@),
            r.h265.is_for_device(settings.device@),
            r.av1.is_for_device(settings.device@),
    {
        VaapiEncoders {
            h264: make_encoder("h264_vaapi", &settings.device),
            h265: make_encoder("hevc_vaapi", &settings.device),
            av1: make_encoder("av1_vaapi", &settings.device),
        }
    }
}

impl Default for VaapiEncoders {
    fn default() -> (r: Self)
        ensures
            r.h264.name@ == "h264_vaapi"@,
            r.h264.is_for_device("/dev/dri/renderD128"@),
            r.h265.is_for_device("/dev/dri/renderD128"@),
            r.av1.is_for_device("/dev/dri/renderD128"@),
    {
        Self::build(VaapiSettings::default())
    }
}

} // verus!
