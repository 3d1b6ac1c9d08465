use vstd::prelude::*;
use vstd::string::*;

verus! {

/// A failure of the single-file metadata decoder.
#[derive(Clone, Debug)]
pub enum MediaMetadataError {
    /// The file holds no embedded metadata: an expected outcome, not a defect.
    NoExifDataOnPath(String),
    /// Any other decode failure, with its description.
    Other(String),
}

/// A failure while extracting media data.
#[derive(Clone, Debug)]
pub enum MediaDataError {
    /// The store refused a query or a write.
    Database(String),
    /// A file could not be read.
    FileIO(String),
    /// The decoder failed.
    MediaData(MediaMetadataError),
    /// The blocking task that ran the decoder could not be joined.
    TokioJoinHandle(String),
}

/// Whether the failure only says that the file holds no metadata.
pub open spec fn is_no_metadata(e: MediaDataError) -> bool {
    e matches MediaDataError::MediaData(MediaMetadataError::NoExifDataOnPath(_))
}

/// The human-readable description of a failure.
pub open spec fn message_of(e: MediaDataError) -> Seq<char> {
    match e {
        MediaDataError::Database(m) => "database error: "@ + m@,
        MediaDataError::FileIO(m) => m@,
        MediaDataError::MediaData(MediaMetadataError::NoExifDataOnPath(p)) => "no exif data on path: "@
            + p@,
        MediaDataError::MediaData(MediaMetadataError::Other(m)) => m@,
        MediaDataError::TokioJoinHandle(m) => "failed to join tokio task: "@ + m@,
    }
}

/// The line reported for a file that could not be processed.
pub open spec fn error_line_of(path: Seq<char>, e: MediaDataError) -> Seq<char> {
    "Couldn't process file: \""@ + path + "\"; Error: "@ + message_of(e)
}

impl MediaDataError {
    /// Whether the failure only says that the file holds no metadata.
    pub fn is_no_metadata(&self) -> (r: bool)
        ensures
            r == is_no_metadata(*self),
    {
        match self {
            MediaDataError::MediaData(MediaMetadataError::NoExifDataOnPath(_)) => true,
            _ => false,
        }
    }

    /// The human-readable description of the failure.
    pub fn message(&self) -> (r: String)
        ensures
            r@ == message_of(*self),
    {
        match self {
            MediaDataError::Database(m) => String::from_str("database error: ").concat(m.as_str()),
            MediaDataError::FileIO(m) => m.clone(),
            MediaDataError::MediaData(MediaMetadataError::NoExifDataOnPath(p)) => String::from_str(
                "no exif data on path: ",
            ).concat(p.as_str()),
            MediaDataError::MediaData(MediaMetadataError::Other(m)) => m.clone(),
            MediaDataError::TokioJoinHandle(m) => String::from_str(
                "failed to join tokio task: ",
            ).concat(m.as_str()),
        }
    }
}

/// The line reported for the file at `path` that failed with `e`.
pub fn error_line(path: &String, e: &MediaDataError) -> (r: String)
    ensures
        r@ == error_line_of(path@, *e),
{
    let msg = e.message();
    String::from_str("Couldn't process file: \"").concat(path.as_str()).concat(
        "\"; Error: ",
    ).concat(msg.as_str())
}

} // verus!
