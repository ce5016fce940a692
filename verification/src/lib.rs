//! Sample-library logic of Le Resampler: metadata inference from file names,
//! export path templates, scan bookkeeping, the audio command protocol and the
//! construction of library queries.

pub mod audio;
pub mod db;
pub mod export;
pub mod metadata;
pub mod paths;
pub mod pitch;
pub mod scanner;
pub mod text;
