pub mod nvenc;
pub mod software;
pub mod vaapi;

pub use nvenc::{NvencEncoders, NvencPreset, NvencSettings};
pub use software::{EncoderInfo, SoftwareEncoders, X264Settings, X265Settings};
pub use vaapi::{VaapiEncoderInfo, VaapiEncoders, VaapiSettings};
