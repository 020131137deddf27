pub mod builder;
pub mod downloader;
pub mod uploader;

pub use builder::{ArdlStreamBuilder, ArdlStreamConfig, BuildError};
pub use downloader::{ArdlStreamDownloaderBuilder, ReadError};
pub use uploader::{ArdlStreamUploaderBuilder, WriteError};
