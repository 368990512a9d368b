//! The rules of a small server that plays a media file in a browser in real time.

pub mod args;
pub mod clock;
pub mod dry_run;
pub mod framing;
pub mod media;
pub mod pages;
pub mod peer;
pub mod pump;
pub mod request;
pub mod response;
pub mod settings;
pub mod signaling;
pub mod stream;
pub mod text;
pub mod transcode;
