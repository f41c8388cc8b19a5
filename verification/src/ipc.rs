//! The messages exchanged with the shell.

use vstd::prelude::*;
use crate::models::{ConversationItem, FileMetadata, Folder, Settings, Suggestions};

verus! {

/// What to do with the trash.
#[derive(Clone, Debug)]
pub enum TrashCmd {
    Put { paths: Vec<String> },
    Restore { paths: Vec<String> },
    Clear { paths: Option<Vec<String>> },
}

/// What to do with the window.
#[derive(Clone, Copy, Debug, PartialEq, Eq, Structural)]
pub enum WindowCmd {
    Close,
    Drag,
    Maximize,
    Minimize,
}

/// Whether files are moved or copied.
#[derive(Clone, Copy, Debug, PartialEq, Eq, Structural)]
pub enum FileTransferKind {
    Cut,
    Copy,
}

impl Default for FileTransferKind {
    /// Files are copied unless asked otherwise.
    fn default() -> (kind: FileTransferKind)
        ensures
            kind == FileTransferKind::Copy,
    {
        FileTransferKind::Copy
    }
}

/// The start of a transfer: the files `names` of `parent` go to `to`.
#[derive(Clone, Debug)]
pub struct FileTransferCmdStart {
    pub parent: String,
    pub names: Vec<String>,
    pub to: String,
    pub kind: FileTransferKind,
}

/// The user's answer to a transfer that cannot go on by itself.
#[derive(Clone, Copy, Debug, PartialEq, Eq, Structural)]
pub enum FileTransferCmdResponse {
    Overwrite,
    OverwriteAll,
    Skip,
    SkipAll,
    Retry,
    Abort,
    ContinueOrAbort,
}

impl Default for FileTransferCmdResponse {
    /// Without an answer a transfer is aborted.
    fn default() -> (response: FileTransferCmdResponse)
        ensures
            response == FileTransferCmdResponse::Abort,
    {
        FileTransferCmdResponse::Abort
    }
}

/// What to do about a transfer.
#[derive(Clone, Debug)]
pub enum FileTransferCmd {
    Start(FileTransferCmdStart),
    Resume(FileTransferCmdResponse),
}

/// How far a transfer has come.
#[derive(Clone, Debug)]
pub struct FileTransferProgress {
    pub copied_bytes: u64,
    pub total_bytes: u64,
    pub file_bytes_copied: u64,
    pub file_total_bytes: u64,
    pub file_name: String,
    pub dir_name: String,
}

/// The state a transfer is in.
#[derive(Clone, Copy, Debug, PartialEq, Eq, Structural)]
pub enum FileTransferProgressState {
    Normal,
    Exists,
    NoAccess,
    Finished,
}

impl Default for FileTransferProgressState {
    /// A transfer starts in the normal state.
    fn default() -> (state: FileTransferProgressState)
        ensures
            state == FileTransferProgressState::Normal,
    {
        FileTransferProgressState::Normal
    }
}

/// A transfer as shown to the user.
#[derive(Clone, Debug)]
pub struct FileTransfer {
    pub progress: FileTransferProgress,
    pub from: String,
    pub to: String,
    pub state: FileTransferProgressState,
    pub kind: FileTransferKind,
}

/// Where the subscription server is reached.
#[derive(Clone, Debug)]
pub struct SubscriptionServer {
    pub url: String,
}

/// A thumbnail that has become available for the file `name`.
#[derive(Clone, Debug)]
pub struct ThumbnailUpdate {
    pub name: String,
    pub url: String,
}

/// What the shell is told.
#[derive(Debug)]
pub enum UserEvent {
    CloseWindow,
    DevTools,
    ExecEval(),
    FileTransferProgress(FileTransfer),
    SetSubscriptionsServer(SubscriptionServer),
    UpdateFileDeepLook { file: FileMetadata },
    UpdateFolder { folder: Folder, script_result: Option<ConversationItem> },
    UpdateSuggestions { description: Suggestions },
    UpdateThumbnail { thumbnail: ThumbnailUpdate },
    UpdateSettings { settings: Settings },
    NonexistentFolder { path: String },
    Ai(AiResponse),
}

/// The assistant's answer.
#[derive(Clone, Debug)]
pub enum AiResponse {
    Failure(String),
    Success(String),
}

} // verus!
