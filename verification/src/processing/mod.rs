pub mod annexb_rw;
pub mod bits;
pub mod escape;
pub mod sps_spec;
pub mod sps_reread;
pub mod sps_vui;
pub mod annexb;

pub use annexb::{
    split_nalu, AnnexBHelpers, H264Helpers, H264NalUnitType, H265Helpers, H265NalUnitType,
    START_CODE_3,
};
pub use annexb_rw::{AnnexBBitstreamReader, AnnexBBitstreamWriter};
pub use sps_vui::{rewrite_sps_vui, try_rewrite_sps_vui};
