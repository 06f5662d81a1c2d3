# frd_vnc

The client's side of remote control over RFB, and of the sessions that a Mac adds to it, with
contracts that Verus proves.

- `src/` is the library. Every function in it states what it returns or changes; the proof
  functions whose names begin with `law_` state what holds across functions.
- `tests/` runs the library on concrete values.
- `app/` is ordinary Rust around it: sockets, files, the standard input, the encoder of the
  microphone, sound devices and the window.

## The library

| Modules | What they hold |
| --- | --- |
| `protocol`, `client`, `handshake`, `server_message`, `auth` | RFB: banners, security types, the challenge, the opening of a session, messages in both directions |
| `hpss`, `framebuffer`, `hpss_viewer` | the frames of a Mac, surfaces and what is painted on them, the pointer |
| `mvs_*` | MVS records: their assembly from frames, the bit stream, the tables, tiles, the caches, full and partial rectangles, what earlier records are to later ones |
| `mvs_capture_v2*`, `capture_*` | captures: events, the writer with its model, the structural and the strict reader |
| `cold_credentials`, `local_username`, `cold_hpss`, `cold_session_laws` | cold captures: credentials, the session that records, what its file then holds |
| `media_protocol`, `protobuf`, `binary_plist`, `media_offer`, `offer_list`, `media_negotiation` | media: control messages, offers and answers |
| `rtp`, `audio_codec`, `audio_encoder`, `audio_io` | audio: packets, decoding, the set-up of the encoder, the queue of the microphone |
| `error`, `text`, `wire`, `wire_cursor` | failures and their texts, numbers on the wire |

What the library takes on trust stands behind small functions with their own comments: DES (`des`),
zlib (`flate2`), random bytes (`getrandom`), the AAC decoder (`fdk-aac`), and a few functions of the
standard library. Random draws and requests to the decoder are recorded beside the calls. The traits
that a user implements, for the sink and the clock of a capture and for the connection of a cold
session, say of each method what was asked and answered; the library proves that the requests that
its contracts speak of are the ones that it made, in their order. One thing is left open: that a
connection is said not to have been cancelled does not show that it was asked.
