use vstd::prelude::*;

verus! {

/// The kind of an object, as the indexer classifies files. The numbering given
/// by `code` is stable and never reordered.
#[derive(Clone, Copy, Debug, PartialEq, Eq, Structural)]
pub enum ObjectKind {
    /// A file that can not be identified by the indexer
    Unknown,
    /// A known filetype, but without specific support
    Document,
    /// A virtual filesystem directory
    Folder,
    /// A file that contains human-readable text
    Text,
    /// A virtual directory int
    Package,
    /// An image file
    Image,
    /// An audio file
    Audio,
    /// A video file
    Video,
    /// A compressed archive of data
    Archive,
    /// An executable, program or application
    Executable,
    /// A link to another object
    Alias,
    /// Raw bytes encrypted with self contained metadata
    Encrypted,
    /// A key or certificate file
    Key,
    /// A link can open web pages, apps or Spaces
    Link,
    /// A special filetype that represents a preserved webpage
    WebPageArchive,
    /// A mini app that can be placed in a Space at various sizes
    Widget,
    /// Albums can only have one level of children
    Album,
    /// Like a folder, but appears like a stack of files, for burst photos or groups of files
    Collection,
    /// A font file
    Font,
    /// 3D Object
    Mesh,
    /// Editable source code file
    Code,
    /// Database file
    Database,
    /// E-book file
    Book,
    /// Config file
    Config,
    /// Dotfile
    Dotfile,
    /// Screenshot
    Screenshot,
    /// Label
    Label,
}

/// The largest number that names a kind.
pub const MAX_KIND_CODE: i32 = 26;

/// The stable number of each kind.
pub open spec fn code(k: ObjectKind) -> i32 {
    match k {
        ObjectKind::Unknown => 0,
        ObjectKind::Document => 1,
        ObjectKind::Folder => 2,
        ObjectKind::Text => 3,
        ObjectKind::Package => 4,
        ObjectKind::Image => 5,
        ObjectKind::Audio => 6,
        ObjectKind::Video => 7,
        ObjectKind::Archive => 8,
        ObjectKind::Executable => 9,
        ObjectKind::Alias => 10,
        ObjectKind::Encrypted => 11,
        ObjectKind::Key => 12,
        ObjectKind::Link => 13,
        ObjectKind::WebPageArchive => 14,
        ObjectKind::Widget => 15,
        ObjectKind::Album => 16,
        ObjectKind::Collection => 17,
        ObjectKind::Font => 18,
        ObjectKind::Mesh => 19,
        ObjectKind::Code => 20,
        ObjectKind::Database => 21,
        ObjectKind::Book => 22,
        ObjectKind::Config => 23,
        ObjectKind::Dotfile => 24,
        ObjectKind::Screenshot => 25,
        ObjectKind::Label => 26,
    }
}

impl ObjectKind {
    /// The kind whose number is `value`; `Unknown` for a number that names no kind.
    pub fn from_i32(value: i32) -> (r: ObjectKind)
        ensures
            0 <= value <= MAX_KIND_CODE ==> code(r) == value,
            !(0 <= value <= MAX_KIND_CODE) ==> r == ObjectKind::Unknown,
    {
        match value {
            0 => ObjectKind::Unknown,
            1 => ObjectKind::Document,
            2 => ObjectKind::Folder,
            3 => ObjectKind::Text,
            4 => ObjectKind::Package,
            5 => ObjectKind::Image,
            6 => ObjectKind::Audio,
            7 => ObjectKind::Video,
            8 => ObjectKind::Archive,
            9 => ObjectKind::Executable,
            10 => ObjectKind::Alias,
            11 => ObjectKind::Encrypted,
            12 => ObjectKind::Key,
            13 => ObjectKind::Link,
            14 => ObjectKind::WebPageArchive,
            15 => ObjectKind::Widget,
            16 => ObjectKind::Album,
            17 => ObjectKind::Collection,
            18 => ObjectKind::Font,
            19 => ObjectKind::Mesh,
            20 => ObjectKind::Code,
            21 => ObjectKind::Database,
            22 => ObjectKind::Book,
            23 => ObjectKind::Config,
            24 => ObjectKind::Dotfile,
            25 => ObjectKind::Screenshot,
            26 => ObjectKind::Label,
            _ => ObjectKind::Unknown,
        }
    }

    /// The stable number of this kind.
    pub fn to_i32(&self) -> (r: i32)
        ensures
            r == code(*self),
    {
        match self {
            ObjectKind::Unknown => 0,
            ObjectKind::Document => 1,
            ObjectKind::Folder => 2,
            ObjectKind::Text => 3,
            ObjectKind::Package => 4,
            ObjectKind::Image => 5,
            ObjectKind::Audio => 6,
            ObjectKind::Video => 7,
            ObjectKind::Archive => 8,
            ObjectKind::Executable => 9,
            ObjectKind::Alias => 10,
            ObjectKind::Encrypted => 11,
            ObjectKind::Key => 12,
            ObjectKind::Link => 13,
            ObjectKind::WebPageArchive => 14,
            ObjectKind::Widget => 15,
            ObjectKind::Album => 16,
            ObjectKind::Collection => 17,
            ObjectKind::Font => 18,
            ObjectKind::Mesh => 19,
            ObjectKind::Code => 20,
            ObjectKind::Database => 21,
            ObjectKind::Book => 22,
            ObjectKind::Config => 23,
            ObjectKind::Dotfile => 24,
            ObjectKind::Screenshot => 25,
            ObjectKind::Label => 26,
        }
    }
}

} // verus!
