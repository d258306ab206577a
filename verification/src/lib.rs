//! Album archive engine: the records of a user's channels and posts, and the
//! rules by which posts are added, merged, listed, rendered and packaged.

pub mod albums;
pub mod consolidate;
pub mod dates;
pub mod error;
pub mod ingest;
pub mod layout;
pub mod media;
pub mod message;
pub mod model;
pub mod package;
pub mod quota;
pub mod replies;
pub mod text;
