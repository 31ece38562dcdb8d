//! Camera and screen streaming: data types, capture tuning, quality
//! scaling, encoder tuning, network settings and access records.

pub mod api;
pub mod capture;
pub mod encode;
pub mod error;
pub mod network;
pub mod recording;
pub mod security_integration;
pub mod types;
pub mod viewer;

use vstd::prelude::*;
use error::StreamResult;
use types::{EncodedFrame, EncoderCapabilities, EncoderConfig, EncodingQuality, VideoFrame};

verus! {

/// Peers of the streaming system are named by text.
pub type PeerId = String;

/// Viewers are named by the text of a random UUID.
pub type ViewerId = String;

/// Sessions are named by the text of a random UUID.
pub type SessionId = String;

/// Video encoding and decoding, as provided by a codec backend.
pub trait VideoCodec {
    /// Encode a video frame.
    fn encode_frame(&mut self, frame: VideoFrame, quality: EncodingQuality) -> StreamResult<EncodedFrame>;

    /// Decode an encoded frame.
    fn decode_frame(&mut self, data: &[u8]) -> StreamResult<VideoFrame>;

    /// Configure the encoder.
    fn configure_encoder(&mut self, config: EncoderConfig) -> StreamResult<()>;

    /// What the encoder supports.
    fn get_encoder_capabilities(&self) -> StreamResult<EncoderCapabilities>;

    /// Switch hardware acceleration on, if available; whether it is.
    fn enable_hardware_acceleration(&mut self) -> StreamResult<bool>;
}

} // verus!
