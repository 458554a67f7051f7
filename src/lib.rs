//! Split a file into content-addressed chunks plus an index, and put it back
//! together with every chunk and the whole checked against its digest.
pub mod checksum;
pub mod codec;
pub mod errors;
pub mod file;
pub mod index;
pub mod laws;
pub mod text;
pub mod yaml;

pub use checksum::{checksum, compare_digest, validate_checksum};
pub use codec::{parse_key, position_key};
pub use errors::{
    Corruption, Error, Exit, IndexFault, InputFault, Mismatch, OutputFault, ReadFault, Result,
};
pub use file::{
    check_fold_paths, check_index_file, check_unfold_paths, chunk_count, unfold_effects, Action,
    Assembly, Progress, UnfoldEffect, MAX_CHUNK_SIZE, MAX_FILE_SIZE,
};
pub use index::{
    index_document, parse_index, plain_name, split_index, validate_index, ChunkFile, ChunkList,
    FileState, IndexDocument,
};
