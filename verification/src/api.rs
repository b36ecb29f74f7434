//! The records exchanged with the GUI: file, folder, tag and database details,
//! loaded images, query pages and errors.
use vstd::prelude::*;
use vstd::string::*;

verus! {

pub type DatabaseID = usize;

pub type FileID = usize;

pub type TagID = usize;

/// The kinds of file that a database can hold.
#[derive(Debug, Clone, Copy, PartialEq, Eq, Structural)]
pub enum FileType {
    Image,
    Text,
    Video,
    Pdf,
}

/// What the GUI is told about one file.
#[derive(Debug)]
pub struct FileDetails {
    pub id: FileID,
    pub name: String,
    pub folder: FileID,
    pub tags: Vec<TagID>,
    pub file_type: FileType,
}

/// A watched folder and its location on disk.
#[derive(Debug)]
pub struct FolderDetails {
    pub id: FileID,
    pub path: String,
}

/// A tag as the GUI sees it: its id, its name and the ids of its parent tags.
#[derive(Debug)]
pub struct TagDetails {
    pub id: TagID,
    pub name: String,
    pub parents: Vec<TagID>,
}

/// A database that the GUI can select.
#[derive(Debug)]
pub struct DatabaseDetails {
    pub id: DatabaseID,
    pub name: String,
}

/// An image file's contents, base64-encoded, ready for the GUI.
#[derive(Debug)]
pub struct LoadedImage {
    pub id: FileID,
    pub b64_data: String,
    pub format: String,
}

impl LoadedImage {
    pub fn new(id: FileID, b64_data: String, format: String) -> (r: LoadedImage)
        ensures
            r.id == id,
            r.b64_data == b64_data,
            r.format == format,
    {
        LoadedImage { id: id, b64_data: b64_data, format: format }
    }
}

/// One page of the results of a file query.
#[derive(Debug)]
pub struct DBViewResponse {
    pub data: Vec<FileDetails>,
    /// Where the next page starts.
    pub new_start: FileID,
    /// How many results the query has when no limit applies.
    pub total_size: FileID,
}

/// The category of an error shown to the user.
#[derive(Debug, Clone, Copy, PartialEq, Eq, Structural)]
pub enum ErrorType {
    Basic,
    Arguments,
    Internal,
    Logical,
    Filesystem,
    Database,
    SysAPI,
}

/// An error with the message that the GUI shows.
#[derive(Debug)]
pub struct Error {
    pub gui_msg: String,
    pub err_type: ErrorType,
}

pub type GUIResult<T> = Result<T, Error>;

impl Error {
    /// An error of the basic kind carrying `gui_msg`.
    pub fn basic(gui_msg: &str) -> (r: Error)
        ensures
            r.gui_msg@ == gui_msg@,
            r.err_type == ErrorType::Basic,
    {
        Error { gui_msg: String::from_str(gui_msg), err_type: ErrorType::Basic }
    }

    /// An error of the filesystem kind carrying `gui_msg`.
    pub fn filesystem(gui_msg: &str) -> (r: Error)
        ensures
            r.gui_msg@ == gui_msg@,
            r.err_type == ErrorType::Filesystem,
    {
        Error { gui_msg: String::from_str(gui_msg), err_type: ErrorType::Filesystem }
    }
}

/// Per-platform settings of the program; there are none yet.
#[derive(Debug)]
pub struct BinaryConfig {}

/// The settings for the platform this program was built for.
pub fn get_binary_config() -> (r: BinaryConfig)
    ensures
        r == (BinaryConfig {}),
{
    BinaryConfig {}
}

} // verus!
