//! Verified core of the `br41ndmg` audio resampler.
//!
//! The modules hold the parts of the resampler that are decided by integers
//! and bytes: RIFF `LIST INFO` tag reading and writing ([`tags`]), decoder
//! selection and header probing ([`io`]), interleaved buffer layout
//! ([`audio`]), the streaming resampler's history bookkeeping ([`stream`]),
//! the polyphase filter shape ([`polyphase`]), and the state and labels of
//! the command-line tools ([`args`], [`naming`], [`browser`], [`listing`],
//! [`selection`], [`tui`], [`viewer`], [`spectrogram`]), over small string and byte helpers
//! ([`text`], [`bytes`]) and the key type of the interactive screens
//! ([`keys`]).

pub mod args;
pub mod audio;
pub mod browser;
pub mod bytes;
pub mod error;
pub mod io;
pub mod keys;
pub mod listing;
pub mod naming;
pub mod polyphase;
pub mod selection;
pub mod spectrogram;
pub mod stream;
pub mod tags;
pub mod text;
pub mod tui;
pub mod viewer;

pub use audio::AudioBuffer;
pub use error::ResampleError;
pub use io::{probe_audio, FileInfo};
pub use naming::{auto_output_name, is_audio_extension, is_audio_file, BatchOutcome};
pub use stream::StreamHistory;
pub use tags::{read_tags, TagSource, Tags};
pub use viewer::{fmt_size, ViewAction};
