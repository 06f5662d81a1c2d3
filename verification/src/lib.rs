//! The client's side of remote control over RFB and of the sessions that a Mac adds to it: the
//! handshake and the messages, the decoding of MVS rectangles, the capture of a session from its
//! first record on, and the negotiation and reception of its media.

pub mod error;
pub mod text;
pub mod message_laws;
pub mod mvs_bitstream;
pub mod mvs_stream;
pub mod mvs_pixels;
pub mod mvs_tables;
pub mod mvs_rice;
pub mod mvs_tiles;
pub mod mvs_wire;
pub mod mvs_cache;
pub mod mvs_huffman;
pub mod mvs_partial;
pub mod mvs_paint;
pub mod mvs_full;
pub mod mvs_full_laws;
pub mod mvs_partial_record;
pub mod mvs_history_laws;
pub mod mvs_code_laws;
pub mod mvs_refine_laws;
pub mod mvs_picture_laws;
pub mod mvs_tile_laws;
pub mod mvs_chroma_laws;
pub mod mvs_record_laws;
pub mod wire;
pub mod auth;
pub mod protocol;
pub mod framebuffer;
pub mod hpss;
pub mod client;
pub mod server_message;
pub mod handshake;
pub mod local_username;
pub mod cold_credentials;
pub mod cold_hpss;
pub mod cold_session_laws;
pub mod rtp;
pub mod audio_codec;
pub mod audio_encoder;
pub mod audio_io;
pub mod hpss_viewer;
pub mod viewer_laws;
pub mod capture_events;
pub mod mvs_capture_v2;
pub mod capture_totals;
pub mod capture_laws;
pub mod capture_step_laws;
pub mod capture_order_laws;
pub mod capture_reader;
pub mod capture_v1;
pub mod capture_writer_model;
pub mod mvs_capture_v2_writer;
pub mod capture_writer_laws;
pub mod capture_run_laws;
pub mod wire_cursor;
pub mod media_protocol;
pub mod protobuf;
pub mod binary_plist;
pub mod media_offer;
pub mod offer_list;
pub mod media_laws;
pub mod media_negotiation;
