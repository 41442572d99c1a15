//! Verified core of a Minecraft Java/Bedrock proxy: the Bedrock wire codecs,
//! the Java-to-Bedrock chunk and block translation, the decisions taken by the
//! translation loop, packet routing tables and the plugin call protocol.

pub mod buffer;
pub mod varint;
pub mod packet_decoder;
pub mod packet_encoder;
pub mod block_mapping;
pub mod chunk_translator;
pub mod strings;
pub mod session;
pub mod login;
pub mod plugin;
pub mod translator;
pub mod packet_ids;
pub mod converter;
pub mod listener;
