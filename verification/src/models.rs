//! The values shown by the shell: listings, suggestions, settings and the
//! items of a conversation.

use vstd::prelude::*;

verus! {

/// What an entry of a listing is.
#[derive(Clone, Copy, Debug, PartialEq, Eq, Structural)]
pub enum FolderListingType {
    File,
    Folder,
    Link,
}

/// What a file of a folder is.
#[derive(Clone, Copy, Debug, PartialEq, Eq, Structural)]
pub enum FileType {
    File,
    Folder,
    Link,
}

/// A file of a folder: its name, what it is, and the address of the picture
/// shown for it, if there is one.
#[derive(Clone, Debug)]
pub struct File {
    pub name: String,
    pub kind: FileType,
    pub graphic: Option<String>,
}

/// One entry of a listing: its name, what it is, and the address of the
/// picture shown for it, if there is one.
#[derive(Clone, Debug)]
pub struct FolderListing {
    pub name: String,
    pub kind: FolderListingType,
    pub graphic: Option<String>,
}

/// A folder as shown: where it is, the address it was asked for under, if
/// that was no path, and what is in it.
#[derive(Clone, Debug)]
pub struct Folder {
    pub path: String,
    pub url: Option<String>,
    pub files: Vec<FolderListing>,
}

/// A program that can open a file.
#[derive(Clone, Debug)]
pub struct FileOpener {
    pub name: String,
    pub graphic: Option<String>,
}

/// A file looked at closely.
#[derive(Clone, Debug)]
pub struct FileMetadata {
    pub path: String,
    pub name: String,
    pub graphic: Option<String>,
    pub openers: Vec<FileOpener>,
}

/// The order in which a listing is shown.
#[derive(Clone, Copy, Debug, PartialEq, Eq, Structural)]
pub enum Sort {
    AToZ,
    ZToA,
    Date,
}

impl Default for Sort {
    /// Listings are shown from A to Z unless asked otherwise.
    fn default() -> (sort: Sort)
        ensures
            sort == Sort::AToZ,
    {
        Sort::AToZ
    }
}

/// One thing the user may do with the selected files.
#[derive(Clone, Debug)]
pub struct Action {
    pub code: String,
    pub description: Option<String>,
    pub question: String,
}

/// What may be done with the selected files, and to what end.
#[derive(Clone, Debug)]
pub struct Suggestions {
    pub purpose: String,
    pub actions: Vec<Action>,
}

/// An account given by its key alone.
#[derive(Clone, Debug)]
pub struct AccountDirect(pub String);

/// An account with the service.
#[derive(Clone, Debug)]
pub struct AccountAerome {
    pub active: bool,
    pub email: String,
    pub key: String,
}

/// The account in use.
#[derive(Clone, Debug)]
pub enum Account {
    Direct(AccountDirect),
    Aerome(AccountAerome),
}

/// The user's settings.
#[derive(Clone, Debug)]
pub struct Settings {
    pub account: Option<Account>,
}

impl Default for Settings {
    /// Without settings there is no account.
    fn default() -> (settings: Settings)
        ensures
            settings.account is None,
    {
        Settings { account: None }
    }
}

/// Who said an item of a conversation.
#[derive(Clone, Copy, Debug, PartialEq, Eq, Structural)]
pub enum ConversationItemFrom {
    Ai,
    User,
}

/// One item of a conversation.
#[derive(Debug)]
pub struct ConversationItem {
    from: ConversationItemFrom,
    pub message: Option<String>,
    pub code: Option<String>,
}

/// The mathematical content of a [`ConversationItem`].
pub ghost struct ConversationItemView {
    pub from: ConversationItemFrom,
    pub message: Option<Seq<char>>,
    pub code: Option<Seq<char>>,
}

/// The content of an optional string.
pub open spec fn optional_text(s: Option<String>) -> Option<Seq<char>> {
    match s {
        Some(t) => Some(t@),
        None => None,
    }
}

impl View for ConversationItem {
    type V = ConversationItemView;

    closed spec fn view(&self) -> ConversationItemView {
        ConversationItemView {
            from: self.from,
            message: optional_text(self.message),
            code: optional_text(self.code),
        }
    }
}

impl ConversationItem {
    /// An item said by the assistant, with the given message and code.
    pub fn new(message: String, code: Option<String>) -> (item: ConversationItem)
        ensures
            item@ == (ConversationItemView {
                from: ConversationItemFrom::Ai,
                message: Some(message@),
                code: optional_text(code),
            }),
    {
        ConversationItem { code, from: ConversationItemFrom::Ai, message: Some(message) }
    }

    /// Who said the item.
    pub fn said_by(&self) -> (who: ConversationItemFrom)
        ensures
            who == self@.from,
    {
        self.from
    }
}

} // verus!
