pub mod base_stream;
pub mod decoder;
pub mod demuxer;
pub mod encoders;

pub use base_stream::MediaPacket;
pub use decoder::DecodedFrame;
pub use demuxer::{
    audio_packet_duration, parse_opus_duration, route_packet, select_streams, ContainerFormat,
    DemuxError, PacketRoute, StreamCodec, StreamMedium, StreamProbe, StreamSelection,
};
pub use encoders::{NvencEncoders, SoftwareEncoders, VaapiEncoders};
