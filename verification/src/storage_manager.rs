//! The storage and messaging store and its access rules.
//!
//! The store keeps its tables as rows in insertion order and answers every
//! query and command from them. It enforces the rules of the schema itself:
//! keys are unique, a row may only point at rows that exist, and deleting a
//! row deletes the rows that point at it. File contents and the durable
//! copy of the tables are the caller's business; what has to be done on
//! disk is said in each function's result.

use vstd::prelude::*;
use vstd::string::*;
use crate::clock::now_rfc3339;
use crate::ordering::{
    all_differ, all_pass,
    any, exists_where, first_index, first_match, lemma_first_index_is, lemma_first_index_none,
    newest_first, position, select, sort_newest_first, Dated, Record,
};
use crate::random::new_uuid;
use crate::store_invariants::{
    attachment_sound, attachments_differ, conversation_sound, conversations_differ, file_sound,
    files_differ, keys_unique, member_sound, members_differ, message_sound, messages_differ,
    references_hold, space_sound, spaces_differ, users_differ,
    consistent, lemma_add_member_keeps_consistent, lemma_create_dm_keeps_consistent,
    lemma_create_group_keeps_consistent, lemma_create_message_keeps_consistent,
    lemma_create_user_keeps_consistent, lemma_delete_file_keeps_consistent,
    lemma_delete_user_keeps_consistent, lemma_remove_member_keeps_consistent,
    lemma_rename_keeps_consistent, lemma_role_keeps_consistent, lemma_upload_keeps_consistent,
    lemma_visibility_keeps_consistent,
};
use crate::text::{after_last, after_last_chars, contains, contains_text, opt_str, str_before, str_eq, str_to_lowercase, string_views, text_before, to_chars, unicode_lowercase};

verus! {

// ---------------------------------------------------------------------------
// Errors
// ---------------------------------------------------------------------------

/// The kinds of failure of the store.
#[derive(Debug, Clone, Copy, PartialEq, Eq, Structural)]
pub enum StorageError {
    /// The entity does not exist.
    NotFound,
    /// The requester is neither owner, member nor administrator.
    PermissionDenied,
    /// A name or another input is malformed.
    Validation,
    /// A uniqueness or reference rule of the store would be broken, or a
    /// relocated copy failed its verification.
    Integrity,
    /// Reading or writing the disk failed.
    StorageIo,
}

// ---------------------------------------------------------------------------
// Records
// ---------------------------------------------------------------------------

/// The limits on what the node may use. Each is held in thousandths of its
/// unit.
#[derive(Debug, Clone, Copy, PartialEq, Eq, Structural)]
pub struct ResourceLimits {
    /// Thousandths of a gigabyte of disk.
    pub disk_quota_milli_gb: u64,
    /// Thousandths of a megabit per second.
    pub bandwidth_limit_milli_mbps: u64,
    /// Thousandths of a percent of the processor.
    pub cpu_limit_milli_percent: u64,
}

/// The node's identity and preferences.
#[derive(Debug)]
pub struct NodeConfig {
    pub node_id: String,
    pub node_type: String,
    pub node_name: String,
    pub install_path: String,
    pub disk_quota_milli_gb: u64,
    pub bandwidth_limit_milli_mbps: u64,
    pub cpu_limit_milli_percent: u64,
    pub auto_start: bool,
    pub background_mode: bool,
    pub created_at: String,
    pub updated_at: String,
}

/// How much of the quota is used.
#[derive(Debug)]
pub struct StorageStatus {
    pub used_bytes: u64,
    pub quota_milli_gb: u64,
    pub file_count: u64,
    pub data_path: String,
}

/// What the node reports about itself.
#[derive(Debug)]
pub struct NodeStatus {
    pub node_id: String,
    pub node_name: String,
    pub node_type: String,
    pub uptime_seconds: u64,
    pub storage: StorageStatus,
    pub online: bool,
}

/// One change to the node's configuration.
#[derive(Debug, Clone, Copy, PartialEq, Eq, Structural)]
pub enum ConfigChange {
    Limits(ResourceLimits),
    AutoStart(bool),
    BackgroundMode(bool),
}

impl NodeConfig {
    /// The limits of the configuration.
    pub open spec fn limits(self) -> ResourceLimits {
        ResourceLimits {
            disk_quota_milli_gb: self.disk_quota_milli_gb,
            bandwidth_limit_milli_mbps: self.bandwidth_limit_milli_mbps,
            cpu_limit_milli_percent: self.cpu_limit_milli_percent,
        }
    }
}

impl Clone for NodeConfig {
    fn clone(&self) -> (r: Self)
        ensures
            r == *self,
    {
        NodeConfig {
            node_id: self.node_id.clone(),
            node_type: self.node_type.clone(),
            node_name: self.node_name.clone(),
            install_path: self.install_path.clone(),
            disk_quota_milli_gb: self.disk_quota_milli_gb,
            bandwidth_limit_milli_mbps: self.bandwidth_limit_milli_mbps,
            cpu_limit_milli_percent: self.cpu_limit_milli_percent,
            auto_start: self.auto_start,
            background_mode: self.background_mode,
            created_at: self.created_at.clone(),
            updated_at: self.updated_at.clone(),
        }
    }
}

/// `after` is `was` with `change` applied and stamped with `now`.
pub open spec fn config_changed(after: NodeConfig, was: NodeConfig, change: ConfigChange, now: Seq<char>) -> bool {
    &&& after.updated_at@ == now
    &&& after == NodeConfig {
        disk_quota_milli_gb: match change {
            ConfigChange::Limits(l) => l.disk_quota_milli_gb,
            _ => was.disk_quota_milli_gb,
        },
        bandwidth_limit_milli_mbps: match change {
            ConfigChange::Limits(l) => l.bandwidth_limit_milli_mbps,
            _ => was.bandwidth_limit_milli_mbps,
        },
        cpu_limit_milli_percent: match change {
            ConfigChange::Limits(l) => l.cpu_limit_milli_percent,
            _ => was.cpu_limit_milli_percent,
        },
        auto_start: match change {
            ConfigChange::AutoStart(b) => b,
            _ => was.auto_start,
        },
        background_mode: match change {
            ConfigChange::BackgroundMode(b) => b,
            _ => was.background_mode,
        },
        updated_at: after.updated_at,
        ..was
    }
}

/// `after` is `was` moved to `new_path` and stamped with `now`.
pub open spec fn config_moved(after: NodeConfig, was: NodeConfig, new_path: Seq<char>, now: Seq<char>) -> bool {
    &&& after.updated_at@ == now
    &&& after.install_path@ == new_path
    &&& after == NodeConfig { install_path: after.install_path, updated_at: after.updated_at, ..was }
}

/// A user, as the store hands it out.
#[derive(Debug)]
pub struct User {
    pub user_id: String,
    pub username: String,
    pub email: String,
    pub is_admin: bool,
    pub created_at: String,
    pub updated_at: String,
}

/// A user as stored, with the password hash.
#[derive(Debug)]
pub struct UserRecord {
    pub user: User,
    pub password_hash: String,
}

/// The metadata of a stored file.
#[derive(Debug)]
pub struct File {
    pub file_id: String,
    pub user_id: String,
    pub file_name: String,
    pub size_bytes: u64,
    pub is_public: bool,
    pub created_at: String,
}

/// A named share of a user's storage. The quota is held in thousandths of
/// a gigabyte.
#[derive(Debug)]
pub struct Space {
    pub space_id: String,
    pub user_id: String,
    pub name: String,
    pub storage_quota_milli_gb: u64,
    pub is_public: bool,
    pub created_at: String,
    pub updated_at: String,
}

/// Name, size and age of a file on disk.
#[derive(Debug)]
pub struct FileInfo {
    pub name: String,
    pub size_bytes: u64,
    pub created_at: u64,
}

/// A conversation: `kind` is `"dm"` or `"group"`; only a group has a name.
#[derive(Debug)]
pub struct Conversation {
    pub conversation_id: String,
    pub kind: String,
    pub name: Option<String>,
    pub created_by: String,
    pub created_at: String,
    pub updated_at: String,
}

/// A member of a conversation, with the user's name.
#[derive(Debug)]
pub struct ConversationMember {
    pub user_id: String,
    pub username: String,
    pub joined_at: String,
}

/// A membership as stored.
#[derive(Debug)]
pub struct MemberRow {
    pub conversation_id: String,
    pub user_id: String,
    pub joined_at: String,
}

/// A file attached to a message, as the store hands it out.
#[derive(Debug)]
pub struct MessageAttachment {
    pub file_id: String,
    pub file_name: String,
    pub size_bytes: u64,
    pub mime_type: String,
}

/// An attachment as stored.
#[derive(Debug)]
pub struct AttachmentRow {
    pub message_id: String,
    pub file_id: String,
}

/// A message as stored.
#[derive(Debug)]
pub struct MessageRow {
    pub message_id: String,
    pub conversation_id: String,
    pub sender_id: String,
    pub body: String,
    pub created_at: String,
}

/// A message as the store hands it out, with the sender's name and the
/// attached files.
#[derive(Debug)]
pub struct Message {
    pub message_id: String,
    pub conversation_id: String,
    pub sender_id: String,
    pub sender_username: String,
    pub body: String,
    pub attachments: Vec<MessageAttachment>,
    pub created_at: String,
}

/// A conversation with its members and its most recent message.
#[derive(Debug)]
pub struct ConversationWithMembers {
    pub conversation: Conversation,
    pub members: Vec<ConversationMember>,
    pub last_message: Option<Message>,
}

impl Clone for User {
    fn clone(&self) -> (r: Self)
        ensures
            r == *self,
    {
        User {
            user_id: self.user_id.clone(),
            username: self.username.clone(),
            email: self.email.clone(),
            is_admin: self.is_admin,
            created_at: self.created_at.clone(),
            updated_at: self.updated_at.clone(),
        }
    }
}

impl Clone for File {
    fn clone(&self) -> (r: Self)
        ensures
            r == *self,
    {
        File {
            file_id: self.file_id.clone(),
            user_id: self.user_id.clone(),
            file_name: self.file_name.clone(),
            size_bytes: self.size_bytes,
            is_public: self.is_public,
            created_at: self.created_at.clone(),
        }
    }
}

impl Clone for Conversation {
    fn clone(&self) -> (r: Self)
        ensures
            r == *self,
    {
        Conversation {
            conversation_id: self.conversation_id.clone(),
            kind: self.kind.clone(),
            name: match &self.name {
                Some(n) => Some(n.clone()),
                None => None,
            },
            created_by: self.created_by.clone(),
            created_at: self.created_at.clone(),
            updated_at: self.updated_at.clone(),
        }
    }
}

impl Clone for MessageRow {
    fn clone(&self) -> (r: Self)
        ensures
            r == *self,
    {
        MessageRow {
            message_id: self.message_id.clone(),
            conversation_id: self.conversation_id.clone(),
            sender_id: self.sender_id.clone(),
            body: self.body.clone(),
            created_at: self.created_at.clone(),
        }
    }
}

impl Dated for UserRecord {
    open spec fn stamp(&self) -> Seq<char> {
        self.user.created_at@
    }

    fn stamp_str(&self) -> (r: &str) {
        self.user.created_at.as_str()
    }
}

impl Dated for User {
    open spec fn stamp(&self) -> Seq<char> {
        self.created_at@
    }

    fn stamp_str(&self) -> (r: &str) {
        self.created_at.as_str()
    }
}

impl Clone for Space {
    fn clone(&self) -> (r: Self)
        ensures
            r == *self,
    {
        Space {
            space_id: self.space_id.clone(),
            user_id: self.user_id.clone(),
            name: self.name.clone(),
            storage_quota_milli_gb: self.storage_quota_milli_gb,
            is_public: self.is_public,
            created_at: self.created_at.clone(),
            updated_at: self.updated_at.clone(),
        }
    }
}

impl Dated for Space {
    open spec fn stamp(&self) -> Seq<char> {
        self.created_at@
    }

    fn stamp_str(&self) -> (r: &str) {
        self.created_at.as_str()
    }
}

impl Dated for File {
    open spec fn stamp(&self) -> Seq<char> {
        self.created_at@
    }

    fn stamp_str(&self) -> (r: &str) {
        self.created_at.as_str()
    }
}

/// Conversations are listed by their last activity.
impl Dated for Conversation {
    open spec fn stamp(&self) -> Seq<char> {
        self.updated_at@
    }

    fn stamp_str(&self) -> (r: &str) {
        self.updated_at.as_str()
    }
}

impl Dated for MessageRow {
    open spec fn stamp(&self) -> Seq<char> {
        self.created_at@
    }

    fn stamp_str(&self) -> (r: &str) {
        self.created_at.as_str()
    }
}

// ---------------------------------------------------------------------------
// File names and media types
// ---------------------------------------------------------------------------

/// A file name is acceptable when it is not empty and holds neither `..`
/// nor a path separator.
pub open spec fn filename_ok(name: Seq<char>) -> bool {
    name.len() > 0 && !contains_text(name, ".."@) && !name.contains('/') && !name.contains('\\')
}

/// Whether `c` stands in `s`.
fn has_char(s: &Vec<char>, c: char) -> (r: bool)
    ensures
        r == s@.contains(c),
{
    let mut i: usize = 0;
    while i < s.len()
        invariant
            i <= s.len(),
            forall|j: int| 0 <= j < i ==> s@[j] != c,
        decreases s.len() - i,
    {
        if s[i] == c {
            return true;
        }
        i += 1;
    }
    false
}

/// Checks a file name: it must not be empty and must hold neither `..` nor
/// a path separator.
pub fn validate_filename(name: &str) -> (r: Result<(), StorageError>)
    ensures
        r == if filename_ok(name@) {
            Ok::<(), StorageError>(())
        } else {
            Err(StorageError::Validation)
        },
{
    let v = to_chars(name);
    let dots = to_chars("..");
    if v.len() == 0 || contains(&v, &dots) || has_char(&v, '/') || has_char(&v, '\\') {
        Err(StorageError::Validation)
    } else {
        Ok(())
    }
}

/// The media type for a lower-case file extension, as attachments show it.
pub open spec fn attachment_mime(ext: Seq<char>) -> Seq<char> {
    if ext == "jpg"@ || ext == "jpeg"@ {
        "image/jpeg"@
    } else if ext == "png"@ {
        "image/png"@
    } else if ext == "gif"@ {
        "image/gif"@
    } else if ext == "webp"@ {
        "image/webp"@
    } else if ext == "svg"@ {
        "image/svg+xml"@
    } else if ext == "bmp"@ {
        "image/bmp"@
    } else if ext == "ico"@ {
        "image/x-icon"@
    } else if ext == "mp4"@ || ext == "m4v"@ {
        "video/mp4"@
    } else if ext == "webm"@ {
        "video/webm"@
    } else if ext == "mov"@ {
        "video/quicktime"@
    } else if ext == "avi"@ {
        "video/x-msvideo"@
    } else if ext == "mkv"@ {
        "video/x-matroska"@
    } else if ext == "ogv"@ {
        "video/ogg"@
    } else if ext == "3gp"@ {
        "video/3gpp"@
    } else if ext == "pdf"@ {
        "application/pdf"@
    } else if ext == "txt"@ {
        "text/plain"@
    } else if ext == "json"@ {
        "application/json"@
    } else if ext == "zip"@ {
        "application/zip"@
    } else {
        "application/octet-stream"@
    }
}

/// The extension of a file name: what follows its last dot, or the whole
/// name where it has none.
pub open spec fn extension_of(name: Seq<char>) -> Seq<char> {
    after_last(name, '.')
}

/// The lower-case extension of a file name.
pub fn lowercase_extension(name: &str) -> (r: String)
    ensures
        r@ == unicode_lowercase(extension_of(name@)),
{
    let v = to_chars(name);
    let ext = after_last_chars(&v, '.');
    let s = crate::text::string_from_chars(&ext);
    str_to_lowercase(s.as_str())
}

/// The media type for a lower-case file extension, as attachments show it; any other text
/// is answered as an unknown extension.
pub fn mime_for_extension(ext: &str) -> (r: String)
    ensures
        r@ == attachment_mime(ext@),
{
    if str_eq(ext, "jpg") || str_eq(ext, "jpeg") {
        String::from_str("image/jpeg")
    } else if str_eq(ext, "png") {
        String::from_str("image/png")
    } else if str_eq(ext, "gif") {
        String::from_str("image/gif")
    } else if str_eq(ext, "webp") {
        String::from_str("image/webp")
    } else if str_eq(ext, "svg") {
        String::from_str("image/svg+xml")
    } else if str_eq(ext, "bmp") {
        String::from_str("image/bmp")
    } else if str_eq(ext, "ico") {
        String::from_str("image/x-icon")
    } else if str_eq(ext, "mp4") || str_eq(ext, "m4v") {
        String::from_str("video/mp4")
    } else if str_eq(ext, "webm") {
        String::from_str("video/webm")
    } else if str_eq(ext, "mov") {
        String::from_str("video/quicktime")
    } else if str_eq(ext, "avi") {
        String::from_str("video/x-msvideo")
    } else if str_eq(ext, "mkv") {
        String::from_str("video/x-matroska")
    } else if str_eq(ext, "ogv") {
        String::from_str("video/ogg")
    } else if str_eq(ext, "3gp") {
        String::from_str("video/3gpp")
    } else if str_eq(ext, "pdf") {
        String::from_str("application/pdf")
    } else if str_eq(ext, "txt") {
        String::from_str("text/plain")
    } else if str_eq(ext, "json") {
        String::from_str("application/json")
    } else if str_eq(ext, "zip") {
        String::from_str("application/zip")
    } else {
        String::from_str("application/octet-stream")
    }
}

/// The media type of a file, derived from its extension without regard to
/// case.
pub fn mime_from_ext(name: &str) -> (r: String)
    ensures
        r@ == attachment_mime(unicode_lowercase(extension_of(name@))),
{
    let e = lowercase_extension(name);
    mime_for_extension(e.as_str())
}

// ---------------------------------------------------------------------------
// The tables
// ---------------------------------------------------------------------------

/// The rows of the store, each table in insertion order.
pub struct Tables {
    pub users: Seq<UserRecord>,
    pub files: Seq<File>,
    pub conversations: Seq<Conversation>,
    pub members: Seq<MemberRow>,
    pub messages: Seq<MessageRow>,
    pub attachments: Seq<AttachmentRow>,
    pub spaces: Seq<Space>,
}

/// The store.
pub struct StorageManager {
    install_path: String,
    node: Option<NodeConfig>,
    users: Vec<UserRecord>,
    files: Vec<File>,
    conversations: Vec<Conversation>,
    members: Vec<MemberRow>,
    messages: Vec<MessageRow>,
    attachments: Vec<AttachmentRow>,
    spaces: Vec<Space>,
}

impl View for StorageManager {
    type V = Tables;

    closed spec fn view(&self) -> Tables {
        Tables {
            users: self.users@,
            files: self.files@,
            conversations: self.conversations@,
            members: self.members@,
            messages: self.messages@,
            attachments: self.attachments@,
            spaces: self.spaces@,
        }
    }
}

/// The test for the user called `name`.
pub open spec fn user_named(name: Seq<char>) -> spec_fn(UserRecord) -> bool {
    |u: UserRecord| u.user.username@ == name
}

/// The test for the user with the id `id`.
pub open spec fn user_with_id(id: Seq<char>) -> spec_fn(UserRecord) -> bool {
    |u: UserRecord| u.user.user_id@ == id
}

/// The test for a user with the address `email`.
pub open spec fn user_with_email(email: Seq<char>) -> spec_fn(UserRecord) -> bool {
    |u: UserRecord| u.user.email@ == email
}

/// The test for a user with the address `email` and another id than `id`.
pub open spec fn other_user_with_email(email: Seq<char>, id: Seq<char>) -> spec_fn(UserRecord) -> bool {
    |u: UserRecord| u.user.email@ == email && u.user.user_id@ != id
}

/// The test for an administrator.
pub open spec fn user_is_admin() -> spec_fn(UserRecord) -> bool {
    |u: UserRecord| u.user.is_admin
}

/// The users of the records.
pub open spec fn users_of(records: Seq<UserRecord>) -> Seq<User> {
    records.map_values(|u: UserRecord| u.user)
}

/// What the fields of a user hold.
pub open spec fn user_holds(
    u: User,
    user_id: Seq<char>,
    username: Seq<char>,
    email: Seq<char>,
    is_admin: bool,
    created_at: Seq<char>,
    updated_at: Seq<char>,
) -> bool {
    &&& u.user_id@ == user_id
    &&& u.username@ == username
    &&& u.email@ == email
    &&& u.is_admin == is_admin
    &&& u.created_at@ == created_at
    &&& u.updated_at@ == updated_at
}

impl Tables {
    /// The empty store.
    pub open spec fn empty() -> Tables {
        Tables {
            users: Seq::empty(),
            files: Seq::empty(),
            conversations: Seq::empty(),
            members: Seq::empty(),
            messages: Seq::empty(),
            attachments: Seq::empty(),
            spaces: Seq::empty(),
        }
    }

    /// Whether a user has the id `id`.
    pub open spec fn has_user(self, id: Seq<char>) -> bool {
        first_index(self.users, user_with_id(id)) is Some
    }

    /// Whether the user with the id `id` exists and is an administrator.
    pub open spec fn is_admin(self, id: Seq<char>) -> bool {
        match first_match(self.users, user_with_id(id)) {
            Some(u) => u.user.is_admin,
            None => false,
        }
    }

    /// The name of the user with the id `id`; empty where there is none.
    pub open spec fn username_of(self, id: Seq<char>) -> Seq<char> {
        match first_match(self.users, user_with_id(id)) {
            Some(u) => u.user.username@,
            None => Seq::empty(),
        }
    }

    /// The administrator who was created first; of several created at the
    /// same time, the one stored first.
    pub open spec fn first_admin(self) -> Option<User> {
        oldest_admin(self.users)
    }
}

/// The administrator among `users` with the oldest creation stamp; of
/// several with that stamp, the one stored first.
pub open spec fn oldest_admin(users: Seq<UserRecord>) -> Option<User>
    decreases users.len(),
{
    if users.len() == 0 {
        None
    } else {
        let last = users.last();
        match oldest_admin(users.drop_last()) {
            Some(best) => if last.user.is_admin && text_before(
                last.user.created_at@,
                best.created_at@,
            ) {
                Some(last.user)
            } else {
                Some(best)
            },
            None => if last.user.is_admin {
                Some(last.user)
            } else {
                None
            },
        }
    }
}

impl StorageManager {
    /// The installation that the store belongs to.
    pub closed spec fn install_path_view(&self) -> Seq<char> {
        self.install_path@
    }

    /// The node's configuration, once it has one.
    pub closed spec fn node(&self) -> Option<NodeConfig> {
        self.node
    }

    /// An empty store for the installation at `install_path`.
    pub fn initialize(install_path: &str) -> (s: Self)
        ensures
            s@ == Tables::empty(),
            consistent(s@),
            s.install_path_view() == install_path@,
            s.node() is None,
    {
        StorageManager {
            install_path: String::from_str(install_path),
            node: None,
            users: Vec::new(),
            files: Vec::new(),
            conversations: Vec::new(),
            members: Vec::new(),
            messages: Vec::new(),
            attachments: Vec::new(),
            spaces: Vec::new(),
        }
    }

    /// The installation path.
    pub fn install_path(&self) -> (r: &str)
        ensures
            r@ == self.install_path_view(),
    {
        self.install_path.as_str()
    }

    // -----------------------------------------------------------------------
    // Users
    // -----------------------------------------------------------------------

    fn user_index_by_name(&self, name: &str) -> (r: Option<usize>)
        ensures
            match r {
                Some(i) => first_index(self@.users, user_named(name@)) == Some(i as int) && i
                    < self@.users.len(),
                None => first_index(self@.users, user_named(name@)) is None,
            },
    {
        let mut i: usize = 0;
        while i < self.users.len()
            invariant
                i <= self.users.len(),
                forall|j: int| 0 <= j < i ==> !user_named(name@)(#[trigger] self.users@[j]),
            decreases self.users.len() - i,
        {
            if str_eq(self.users[i].user.username.as_str(), name) {
                proof {
                    lemma_first_index_is(self.users@, user_named(name@), i as int);
                }
                return Some(i);
            }
            i += 1;
        }
        proof {
            lemma_first_index_none(self.users@, user_named(name@));
        }
        None
    }

    fn user_index_by_id(&self, id: &str) -> (r: Option<usize>)
        ensures
            match r {
                Some(i) => first_index(self@.users, user_with_id(id@)) == Some(i as int) && i
                    < self@.users.len(),
                None => first_index(self@.users, user_with_id(id@)) is None,
            },
    {
        let mut i: usize = 0;
        while i < self.users.len()
            invariant
                i <= self.users.len(),
                forall|j: int| 0 <= j < i ==> !user_with_id(id@)(#[trigger] self.users@[j]),
            decreases self.users.len() - i,
        {
            if str_eq(self.users[i].user.user_id.as_str(), id) {
                proof {
                    lemma_first_index_is(self.users@, user_with_id(id@), i as int);
                }
                return Some(i);
            }
            i += 1;
        }
        proof {
            lemma_first_index_none(self.users@, user_with_id(id@));
        }
        None
    }

    fn email_taken_by_other(&self, email: &str, id: &str) -> (r: bool)
        ensures
            r == any(self@.users, other_user_with_email(email@, id@)),
    {
        let mut i: usize = 0;
        while i < self.users.len()
            invariant
                i <= self.users.len(),
                forall|j: int|
                    0 <= j < i ==> !other_user_with_email(email@, id@)(#[trigger] self.users@[j]),
            decreases self.users.len() - i,
        {
            if str_eq(self.users[i].user.email.as_str(), email) && !str_eq(
                self.users[i].user.user_id.as_str(),
                id,
            ) {
                return true;
            }
            i += 1;
        }
        false
    }

    /// Whether a user has the address `email`.
    pub fn email_taken(&self, email: &str) -> (r: bool)
        ensures
            r == any(self@.users, user_with_email(email@)),
    {
        let mut i: usize = 0;
        while i < self.users.len()
            invariant
                i <= self.users.len(),
                forall|j: int| 0 <= j < i ==> !user_with_email(email@)(#[trigger] self.users@[j]),
            decreases self.users.len() - i,
        {
            if str_eq(self.users[i].user.email.as_str(), email) {
                return true;
            }
            i += 1;
        }
        false
    }

    /// The user called `username`.
    pub fn get_user_by_username(&self, username: &str) -> (r: Option<User>)
        ensures
            r == match first_match(self@.users, user_named(username@)) {
                Some(u) => Some(u.user),
                None => None,
            },
    {
        match self.user_index_by_name(username) {
            Some(i) => Some(self.users[i].user.clone()),
            None => None,
        }
    }

    /// The user with the id `user_id`.
    pub fn get_user_by_id(&self, user_id: &str) -> (r: Option<User>)
        ensures
            r == match first_match(self@.users, user_with_id(user_id@)) {
                Some(u) => Some(u.user),
                None => None,
            },
    {
        match self.user_index_by_id(user_id) {
            Some(i) => Some(self.users[i].user.clone()),
            None => None,
        }
    }

    /// The password hash of the user called `username`.
    pub fn get_password_hash(&self, username: &str) -> (r: Option<String>)
        ensures
            r == match first_match(self@.users, user_named(username@)) {
                Some(u) => Some(u.password_hash),
                None => None,
            },
    {
        match self.user_index_by_name(username) {
            Some(i) => Some(self.users[i].password_hash.clone()),
            None => None,
        }
    }

    /// All users, newest first.
    pub fn list_users(&self) -> (r: Vec<User>)
        ensures
            r@ == newest_first(users_of(self@.users)),
    {
        let mut all: Vec<User> = Vec::new();
        let mut i: usize = 0;
        while i < self.users.len()
            invariant
                i <= self.users.len(),
                all@ == users_of(self.users@.take(i as int)),
            decreases self.users.len() - i,
        {
            all.push(self.users[i].user.clone());
            assert(self.users@.take(i + 1) =~= self.users@.take(i as int).push(self.users@[i as int]));
            assert(all@ =~= users_of(self.users@.take(i + 1)));
            i += 1;
        }
        assert(self.users@.take(self.users.len() as int) =~= self.users@);
        sort_newest_first(all)
    }

    /// The number of users.
    pub fn user_count(&self) -> (n: usize)
        ensures
            n == self@.users.len(),
    {
        self.users.len()
    }

    /// The administrator who was created first.
    pub fn get_first_admin(&self) -> (r: Option<User>)
        ensures
            r == self@.first_admin(),
    {
        let mut best: Option<usize> = None;
        let mut i: usize = 0;
        assert(self.users@.take(0) =~= Seq::<UserRecord>::empty());
        while i < self.users.len()
            invariant
                i <= self.users.len(),
                match best {
                    Some(b) => b < i && oldest_admin(self.users@.take(i as int)) == Some(
                        self.users@[b as int].user,
                    ),
                    None => oldest_admin(self.users@.take(i as int)) is None,
                },
            decreases self.users.len() - i,
        {
            proof {
                assert(self.users@.take(i + 1).drop_last() =~= self.users@.take(i as int));
                assert(self.users@.take(i + 1).last() == self.users@[i as int]);
            }
            if self.users[i].user.is_admin {
                match best {
                    Some(b) => {
                        if str_before(
                            self.users[i].user.created_at.as_str(),
                            self.users[b].user.created_at.as_str(),
                        ) {
                            best = Some(i);
                        }
                    },
                    None => {
                        best = Some(i);
                    },
                }
            }
            i += 1;
        }
        assert(self.users@.take(self.users.len() as int) =~= self.users@);
        match best {
            Some(b) => Some(self.users[b].user.clone()),
            None => None,
        }
    }
}

impl Record for UserRecord {
    fn duplicate(&self) -> (r: Self) {
        UserRecord { user: self.user.clone(), password_hash: self.password_hash.clone() }
    }
}

impl Record for File {
    fn duplicate(&self) -> (r: Self) {
        self.clone()
    }
}

impl Record for Conversation {
    fn duplicate(&self) -> (r: Self) {
        self.clone()
    }
}

impl Record for MemberRow {
    fn duplicate(&self) -> (r: Self) {
        MemberRow {
            conversation_id: self.conversation_id.clone(),
            user_id: self.user_id.clone(),
            joined_at: self.joined_at.clone(),
        }
    }
}

impl Record for MessageRow {
    fn duplicate(&self) -> (r: Self) {
        self.clone()
    }
}

impl Record for Space {
    fn duplicate(&self) -> (r: Self) {
        self.clone()
    }
}

impl Record for AttachmentRow {
    fn duplicate(&self) -> (r: Self) {
        AttachmentRow { message_id: self.message_id.clone(), file_id: self.file_id.clone() }
    }
}

// ---------------------------------------------------------------------------
// Commands on users
// ---------------------------------------------------------------------------

/// What creating a user does. Where a user of that name exists, that row
/// takes the new password hash, address and role, unless another user has
/// the address. Otherwise a new row is stored, unless the id or the address
/// is taken.
pub open spec fn create_user_outcome(
    before: Tables,
    after: Tables,
    r: Result<User, StorageError>,
    user_id: Seq<char>,
    now: Seq<char>,
    username: Seq<char>,
    email: Seq<char>,
    password_hash: Seq<char>,
    is_admin: bool,
) -> bool {
    match first_index(before.users, user_named(username)) {
        Some(i) => {
            let was = before.users[i].user;
            if any(before.users, other_user_with_email(email, was.user_id@)) {
                r == Err::<User, StorageError>(StorageError::Integrity) && after == before
            } else {
                &&& r is Ok
                &&& user_holds(
                    r->Ok_0,
                    was.user_id@,
                    was.username@,
                    email,
                    is_admin,
                    was.created_at@,
                    now,
                )
                &&& after.users.len() == before.users.len()
                &&& after.users[i].user == r->Ok_0
                &&& after.users[i].password_hash@ == password_hash
                &&& after == Tables { users: before.users.update(i, after.users[i]), ..before }
            }
        },
        None => {
            if before.has_user(user_id) || any(before.users, user_with_email(email)) {
                r == Err::<User, StorageError>(StorageError::Integrity) && after == before
            } else {
                &&& r is Ok
                &&& user_holds(r->Ok_0, user_id, username, email, is_admin, now, now)
                &&& after.users.len() == before.users.len() + 1
                &&& after.users.last().user == r->Ok_0
                &&& after.users.last().password_hash@ == password_hash
                &&& after == Tables { users: before.users.push(after.users.last()), ..before }
            }
        },
    }
}

/// The test for a file of the user `id`.
pub open spec fn file_owned_by(id: Seq<char>) -> spec_fn(File) -> bool {
    |f: File| f.user_id@ == id
}

/// The test for a space of another user than `id`.
pub open spec fn space_not_owned_by(id: Seq<char>) -> spec_fn(Space) -> bool {
    |x: Space| x.user_id@ != id
}

/// The test for a file of another user than `id`.
pub open spec fn file_not_owned_by(id: Seq<char>) -> spec_fn(File) -> bool {
    |f: File| f.user_id@ != id
}

/// The test for any user but `id`.
pub open spec fn user_other_than(id: Seq<char>) -> spec_fn(UserRecord) -> bool {
    |u: UserRecord| u.user.user_id@ != id
}

/// The test for a conversation that `id` did not create.
pub open spec fn conversation_not_created_by(id: Seq<char>) -> spec_fn(Conversation) -> bool {
    |c: Conversation| c.created_by@ != id
}

/// The test for the conversation with the id `id`.
pub open spec fn conversation_with_id(id: Seq<char>) -> spec_fn(Conversation) -> bool {
    |c: Conversation| c.conversation_id@ == id
}

/// The test for the message with the id `id`.
pub open spec fn message_with_id(id: Seq<char>) -> spec_fn(MessageRow) -> bool {
    |m: MessageRow| m.message_id@ == id
}

/// The test for the file with the id `id`.
pub open spec fn file_with_id(id: Seq<char>) -> spec_fn(File) -> bool {
    |f: File| f.file_id@ == id
}

/// The test for a membership of another user than `id` in a conversation
/// that is among `conversations`.
pub open spec fn membership_survives(id: Seq<char>, conversations: Seq<Conversation>) -> spec_fn(
    MemberRow,
) -> bool {
    |m: MemberRow| m.user_id@ != id && any(conversations, conversation_with_id(m.conversation_id@))
}

/// The test for a message of another sender than `id` in a conversation
/// that is among `conversations`.
pub open spec fn message_survives(id: Seq<char>, conversations: Seq<Conversation>) -> spec_fn(
    MessageRow,
) -> bool {
    |m: MessageRow| m.sender_id@ != id && any(conversations, conversation_with_id(m.conversation_id@))
}

/// The test for an attachment whose message is among `messages` and whose
/// file is among `files`.
pub open spec fn attachment_survives(messages: Seq<MessageRow>, files: Seq<File>) -> spec_fn(
    AttachmentRow,
) -> bool {
    |a: AttachmentRow|
        any(messages, message_with_id(a.message_id@)) && any(files, file_with_id(a.file_id@))
}

/// The names of the files.
pub open spec fn file_names(files: Seq<File>) -> Seq<String> {
    files.map_values(|f: File| f.file_name)
}

impl Tables {
    /// The store without the user `id` and without every row that belongs to
    /// that user: the user's files, the conversations the user created with
    /// their memberships and messages, the user's memberships, messages and
    /// spaces, and the attachments of deleted messages and of deleted files.
    pub open spec fn without_user(self, id: Seq<char>) -> Tables {
        let users = self.users.filter(user_other_than(id));
        let files = self.files.filter(file_not_owned_by(id));
        let conversations = self.conversations.filter(conversation_not_created_by(id));
        let members = self.members.filter(membership_survives(id, conversations));
        let messages = self.messages.filter(message_survives(id, conversations));
        let attachments = self.attachments.filter(attachment_survives(messages, files));
        let spaces = self.spaces.filter(space_not_owned_by(id));
        Tables { users, files, conversations, members, messages, attachments, spaces }
    }

    /// The store with the role of the user `id` set.
    pub open spec fn with_role(self, id: Seq<char>, is_admin: bool, after: Tables, now: Seq<char>) -> bool {
        match first_index(self.users, user_with_id(id)) {
            Some(i) => {
                let was = self.users[i];
                &&& after.users.len() == self.users.len()
                &&& after.users[i].password_hash == was.password_hash
                &&& after.users[i].user == User {
                    is_admin,
                    updated_at: after.users[i].user.updated_at,
                    ..was.user
                }
                &&& after.users[i].user.updated_at@ == now
                &&& after == Tables { users: self.users.update(i, after.users[i]), ..self }
            },
            None => after == self,
        }
    }
}

fn conversation_listed(conversations: &Vec<Conversation>, id: &str) -> (r: bool)
    ensures
        r == any(conversations@, conversation_with_id(id@)),
{
    exists_where(
        conversations,
        |c: &Conversation| -> (b: bool)
            ensures b == (c.conversation_id@ == id@)
            { str_eq(c.conversation_id.as_str(), id) },
        Ghost(conversation_with_id(id@)),
    )
}

fn message_listed(messages: &Vec<MessageRow>, id: &str) -> (r: bool)
    ensures
        r == any(messages@, message_with_id(id@)),
{
    exists_where(
        messages,
        |m: &MessageRow| -> (b: bool)
            ensures b == (m.message_id@ == id@)
            { str_eq(m.message_id.as_str(), id) },
        Ghost(message_with_id(id@)),
    )
}

fn file_listed(files: &Vec<File>, id: &str) -> (r: bool)
    ensures
        r == any(files@, file_with_id(id@)),
{
    exists_where(
        files,
        |f: &File| -> (b: bool)
            ensures b == (f.file_id@ == id@)
            { str_eq(f.file_id.as_str(), id) },
        Ghost(file_with_id(id@)),
    )
}

impl StorageManager {
    /// Creates the user `username`, or updates the user of that name, with
    /// the given id for a new row and the given time stamp.
    pub fn create_user_with(
        &mut self,
        user_id: &str,
        now: &str,
        username: &str,
        email: &str,
        password_hash: &str,
        is_admin: bool,
    ) -> (r: Result<User, StorageError>)
        ensures
            create_user_outcome(
                old(self)@,
                final(self)@,
                r,
                user_id@,
                now@,
                username@,
                email@,
                password_hash@,
                is_admin,
            ),
            final(self).install_path_view() == old(self).install_path_view(),
            final(self).node() == old(self).node(),
            consistent(old(self)@) ==> consistent(final(self)@),
    {
        match self.user_index_by_name(username) {
            Some(i) => {
                if self.email_taken_by_other(email, self.users[i].user.user_id.as_str()) {
                    return Err(StorageError::Integrity);
                }
                let user = User {
                    user_id: self.users[i].user.user_id.clone(),
                    username: self.users[i].user.username.clone(),
                    email: String::from_str(email),
                    is_admin,
                    created_at: self.users[i].user.created_at.clone(),
                    updated_at: String::from_str(now),
                };
                let out = user.clone();
                self.users[i] = UserRecord { user, password_hash: String::from_str(password_hash) };
                assert(self@.users =~= old(self)@.users.update(i as int, self@.users[i as int]));
                proof {
                    if consistent(old(self)@) {
                        lemma_create_user_keeps_consistent(
                            old(self)@,
                            self@,
                            Ok(out),
                            user_id@,
                            now@,
                            username@,
                            email@,
                            password_hash@,
                            is_admin,
                        );
                    }
                }
                Ok(out)
            },
            None => {
                if self.user_index_by_id(user_id).is_some() || self.email_taken(email) {
                    return Err(StorageError::Integrity);
                }
                let user = User {
                    user_id: String::from_str(user_id),
                    username: String::from_str(username),
                    email: String::from_str(email),
                    is_admin,
                    created_at: String::from_str(now),
                    updated_at: String::from_str(now),
                };
                let out = user.clone();
                self.users.push(UserRecord { user, password_hash: String::from_str(password_hash) });
                assert(self@.users =~= old(self)@.users.push(self@.users.last()));
                proof {
                    if consistent(old(self)@) {
                        lemma_create_user_keeps_consistent(
                            old(self)@,
                            self@,
                            Ok(out),
                            user_id@,
                            now@,
                            username@,
                            email@,
                            password_hash@,
                            is_admin,
                        );
                    }
                }
                Ok(out)
            },
        }
    }

    /// Creates the user `username`, or updates the user of that name (see
    /// [`create_user_outcome`]), with a fresh random id and the current time.
    pub fn create_user(&mut self, username: &str, email: &str, password_hash: &str, is_admin: bool) -> (r:
        Result<User, StorageError>)
        ensures
            exists|user_id: Seq<char>, now: Seq<char>|
                create_user_outcome(
                    old(self)@,
                    final(self)@,
                    r,
                    user_id,
                    now,
                    username@,
                    email@,
                    password_hash@,
                    is_admin,
                ),
            final(self).install_path_view() == old(self).install_path_view(),
            final(self).node() == old(self).node(),
            consistent(old(self)@) ==> consistent(final(self)@),
    {
        let id = new_uuid();
        let now = now_rfc3339();
        self.create_user_with(id.as_str(), now.as_str(), username, email, password_hash, is_admin)
    }

    /// Deletes the user `user_id` and every row that belongs to that user.
    /// Returns the names of the user's own files, whose contents the caller
    /// removes from disk. Deleting a user who does not exist changes
    /// nothing.
    pub fn delete_user(&mut self, user_id: &str) -> (blobs: Vec<String>)
        ensures
            final(self)@ == old(self)@.without_user(user_id@),
            blobs@ == file_names(old(self)@.files.filter(file_owned_by(user_id@))),
            final(self).install_path_view() == old(self).install_path_view(),
            final(self).node() == old(self).node(),
            consistent(old(self)@) ==> consistent(final(self)@),
    {
        let owned = select(
            &self.files,
            |f: &File| -> (b: bool)
                ensures b == (f.user_id@ == user_id@)
                { str_eq(f.user_id.as_str(), user_id) },
            Ghost(file_owned_by(user_id@)),
        );
        let mut blobs: Vec<String> = Vec::new();
        let mut i: usize = 0;
        while i < owned.len()
            invariant
                i <= owned.len(),
                blobs@ == file_names(owned@.take(i as int)),
            decreases owned.len() - i,
        {
            blobs.push(owned[i].file_name.clone());
            assert(owned@.take(i + 1) =~= owned@.take(i as int).push(owned@[i as int]));
            assert(blobs@ =~= file_names(owned@.take(i + 1)));
            i += 1;
        }
        assert(owned@.take(owned.len() as int) =~= owned@);

        let users = select(
            &self.users,
            |u: &UserRecord| -> (b: bool)
                ensures b == (u.user.user_id@ != user_id@)
                { !str_eq(u.user.user_id.as_str(), user_id) },
            Ghost(user_other_than(user_id@)),
        );
        let files = select(
            &self.files,
            |f: &File| -> (b: bool)
                ensures b == (f.user_id@ != user_id@)
                { !str_eq(f.user_id.as_str(), user_id) },
            Ghost(file_not_owned_by(user_id@)),
        );
        let conversations = select(
            &self.conversations,
            |c: &Conversation| -> (b: bool)
                ensures b == (c.created_by@ != user_id@)
                { !str_eq(c.created_by.as_str(), user_id) },
            Ghost(conversation_not_created_by(user_id@)),
        );
        let members = select(
            &self.members,
            |m: &MemberRow| -> (b: bool)
                ensures b == membership_survives(user_id@, conversations@)(*m)
                {
                    !str_eq(m.user_id.as_str(), user_id) && conversation_listed(
                        &conversations,
                        m.conversation_id.as_str(),
                    )
                },
            Ghost(membership_survives(user_id@, conversations@)),
        );
        let messages = select(
            &self.messages,
            |m: &MessageRow| -> (b: bool)
                ensures b == message_survives(user_id@, conversations@)(*m)
                {
                    !str_eq(m.sender_id.as_str(), user_id) && conversation_listed(
                        &conversations,
                        m.conversation_id.as_str(),
                    )
                },
            Ghost(message_survives(user_id@, conversations@)),
        );
        let attachments = select(
            &self.attachments,
            |a: &AttachmentRow| -> (b: bool)
                ensures b == attachment_survives(messages@, files@)(*a)
                {
                    message_listed(&messages, a.message_id.as_str()) && file_listed(
                        &files,
                        a.file_id.as_str(),
                    )
                },
            Ghost(attachment_survives(messages@, files@)),
        );
        self.users = users;
        self.files = files;
        self.conversations = conversations;
        self.members = members;
        let spaces = select(
            &self.spaces,
            |x: &Space| -> (b: bool)
                ensures b == (x.user_id@ != user_id@)
                { !str_eq(x.user_id.as_str(), user_id) },
            Ghost(space_not_owned_by(user_id@)),
        );
        self.messages = messages;
        self.attachments = attachments;
        self.spaces = spaces;
        proof {
            if consistent(old(self)@) {
                lemma_delete_user_keeps_consistent(old(self)@, user_id@);
            }
        }
        blobs
    }

    /// Sets the role of the user `user_id`, with the given time stamp. A
    /// user who does not exist changes nothing.
    pub fn update_user_role_at(&mut self, user_id: &str, is_admin: bool, now: &str)
        ensures
            old(self)@.with_role(user_id@, is_admin, final(self)@, now@),
            final(self).install_path_view() == old(self).install_path_view(),
            final(self).node() == old(self).node(),
            consistent(old(self)@) ==> consistent(final(self)@),
    {
        match self.user_index_by_id(user_id) {
            Some(i) => {
                let rec = UserRecord {
                    user: User {
                        user_id: self.users[i].user.user_id.clone(),
                        username: self.users[i].user.username.clone(),
                        email: self.users[i].user.email.clone(),
                        is_admin,
                        created_at: self.users[i].user.created_at.clone(),
                        updated_at: String::from_str(now),
                    },
                    password_hash: self.users[i].password_hash.clone(),
                };
                self.users[i] = rec;
                assert(self@.users =~= old(self)@.users.update(i as int, self@.users[i as int]));
            },
            None => {},
        }
        proof {
            if consistent(old(self)@) {
                lemma_role_keeps_consistent(old(self)@, self@, user_id@, is_admin, now@);
            }
        }
    }

    /// Sets the role of the user `user_id`, with the current time.
    pub fn update_user_role(&mut self, user_id: &str, is_admin: bool)
        ensures
            exists|now: Seq<char>| old(self)@.with_role(user_id@, is_admin, final(self)@, now),
            final(self).install_path_view() == old(self).install_path_view(),
            final(self).node() == old(self).node(),
            consistent(old(self)@) ==> consistent(final(self)@),
    {
        let now = now_rfc3339();
        self.update_user_role_at(user_id, is_admin, now.as_str());
    }
}

// ---------------------------------------------------------------------------
// Files
// ---------------------------------------------------------------------------

/// The test for a file called `name`.
pub open spec fn file_named(name: Seq<char>) -> spec_fn(File) -> bool {
    |f: File| f.file_name@ == name
}

/// The test for a file with another id than `id`.
pub open spec fn file_other_than(id: Seq<char>) -> spec_fn(File) -> bool {
    |f: File| f.file_id@ != id
}

/// The test for an attachment of another file than `id`.
pub open spec fn attachment_of_other_file(id: Seq<char>) -> spec_fn(AttachmentRow) -> bool {
    |a: AttachmentRow| a.file_id@ != id
}

/// The test for a file that a listing for `requester` shows: every public
/// file, and the requester's own files.
pub open spec fn file_visible_to(requester: Option<Seq<char>>) -> spec_fn(File) -> bool {
    |f: File| f.is_public || (requester is Some && f.user_id@ == requester->Some_0)
}

/// The test for every file.
pub open spec fn any_file() -> spec_fn(File) -> bool {
    |f: File| true
}

/// The test for the membership of `user` in `conversation`.
pub open spec fn member_of(conversation: Seq<char>, user: Seq<char>) -> spec_fn(MemberRow) -> bool {
    |m: MemberRow| m.conversation_id@ == conversation && m.user_id@ == user
}

/// The test for the message `id`, sent in a conversation of `user`.
pub open spec fn message_shared_with(id: Seq<char>, user: Seq<char>, members: Seq<MemberRow>) -> spec_fn(
    MessageRow,
) -> bool {
    |m: MessageRow| m.message_id@ == id && any(members, member_of(m.conversation_id@, user))
}

/// The test for an attachment of the file `file_id` to a message in a
/// conversation of `user`.
pub open spec fn attachment_shared_with(
    file_id: Seq<char>,
    user: Seq<char>,
    messages: Seq<MessageRow>,
    members: Seq<MemberRow>,
) -> spec_fn(AttachmentRow) -> bool {
    |a: AttachmentRow|
        a.file_id@ == file_id && any(messages, message_shared_with(a.message_id@, user, members))
}

/// The test for a file called `name` that is attached to a message in a
/// conversation of `user`.
pub open spec fn file_shared_with(name: Seq<char>, user: Seq<char>, t: Tables) -> spec_fn(File) -> bool {
    |f: File|
        f.file_name@ == name && any(
            t.attachments,
            attachment_shared_with(f.file_id@, user, t.messages, t.members),
        )
}

/// What the fields of a file hold.
pub open spec fn file_holds(
    f: File,
    file_id: Seq<char>,
    user_id: Seq<char>,
    file_name: Seq<char>,
    size_bytes: u64,
    is_public: bool,
    created_at: Seq<char>,
) -> bool {
    &&& f.file_id@ == file_id
    &&& f.user_id@ == user_id
    &&& f.file_name@ == file_name
    &&& f.size_bytes == size_bytes
    &&& f.is_public == is_public
    &&& f.created_at@ == created_at
}

impl Tables {
    /// Whether `user` may read the file called `name` because it is attached
    /// to a message in one of the user's conversations.
    pub open spec fn shared_with(self, user: Seq<char>, name: Seq<char>) -> bool {
        any(self.files, file_shared_with(name, user, self))
    }

    /// Whether `requester` may read `file`: the owner always; anyone else
    /// where the file is public or attached to a message in one of the
    /// requester's conversations.
    pub open spec fn may_read(self, requester: Seq<char>, file: File) -> bool {
        file.user_id@ == requester || file.is_public || self.shared_with(requester, file.file_name@)
    }

    /// Whether `requester` may delete `file` or change its visibility: the
    /// owner and every administrator.
    pub open spec fn may_change(self, requester: Seq<char>, file: File) -> bool {
        file.user_id@ == requester || self.is_admin(requester)
    }

    /// The outcome of asking to read the file called `name`.
    pub open spec fn read_outcome(self, requester: Seq<char>, name: Seq<char>) -> Result<
        File,
        StorageError,
    > {
        if !filename_ok(name) {
            Err(StorageError::Validation)
        } else {
            match first_match(self.files, file_named(name)) {
                None => Err(StorageError::NotFound),
                Some(f) => if self.may_read(requester, f) {
                    Ok(f)
                } else {
                    Err(StorageError::PermissionDenied)
                },
            }
        }
    }

    /// The file that a change by `requester` to the file called `name`
    /// applies to, or why it is refused.
    pub open spec fn change_target(self, requester: Seq<char>, name: Seq<char>) -> Result<
        int,
        StorageError,
    > {
        if !filename_ok(name) {
            Err(StorageError::Validation)
        } else {
            match first_index(self.files, file_named(name)) {
                None => Err(StorageError::NotFound),
                Some(i) => if self.may_change(requester, self.files[i]) {
                    Ok(i)
                } else {
                    Err(StorageError::PermissionDenied)
                },
            }
        }
    }

    /// The store without the file with the id `id` and without its
    /// attachments.
    pub open spec fn without_file(self, id: Seq<char>) -> Tables {
        Tables {
            files: self.files.filter(file_other_than(id)),
            attachments: self.attachments.filter(attachment_of_other_file(id)),
            ..self
        }
    }
}

/// What storing the metadata of an upload does.
pub open spec fn upload_outcome(
    before: Tables,
    after: Tables,
    r: Result<File, StorageError>,
    file_id: Seq<char>,
    now: Seq<char>,
    user_id: Seq<char>,
    file_name: Seq<char>,
    size_bytes: u64,
    is_public: bool,
) -> bool {
    if !filename_ok(file_name) {
        r == Err::<File, StorageError>(StorageError::Validation) && after == before
    } else if any(before.files, file_with_id(file_id)) || !before.has_user(user_id) {
        r == Err::<File, StorageError>(StorageError::Integrity) && after == before
    } else {
        &&& r is Ok
        &&& file_holds(r->Ok_0, file_id, user_id, file_name, size_bytes, is_public, now)
        &&& after == Tables { files: before.files.push(r->Ok_0), ..before }
    }
}

/// What deleting the file called `name` does.
pub open spec fn delete_file_outcome(
    before: Tables,
    after: Tables,
    r: Result<(), StorageError>,
    requester: Seq<char>,
    name: Seq<char>,
) -> bool {
    match before.change_target(requester, name) {
        Err(e) => r == Err::<(), StorageError>(e) && after == before,
        Ok(i) => r is Ok && after == before.without_file(before.files[i].file_id@),
    }
}

/// What changing the visibility of the file called `name` does.
pub open spec fn visibility_outcome(
    before: Tables,
    after: Tables,
    r: Result<(), StorageError>,
    requester: Seq<char>,
    name: Seq<char>,
    is_public: bool,
) -> bool {
    match before.change_target(requester, name) {
        Err(e) => r == Err::<(), StorageError>(e) && after == before,
        Ok(i) => r is Ok && after == Tables {
            files: before.files.update(i, File { is_public, ..before.files[i] }),
            ..before
        },
    }
}

impl StorageManager {
    fn file_index_by_name(&self, name: &str) -> (r: Option<usize>)
        ensures
            match r {
                Some(i) => first_index(self@.files, file_named(name@)) == Some(i as int) && i
                    < self@.files.len() && self@.files[i as int].file_name@ == name@,
                None => first_index(self@.files, file_named(name@)) is None,
            },
    {
        position(
            &self.files,
            |f: &File| -> (b: bool)
                ensures b == (f.file_name@ == name@)
                { str_eq(f.file_name.as_str(), name) },
            Ghost(file_named(name@)),
        )
    }

    fn user_is_admin(&self, id: &str) -> (r: bool)
        ensures
            r == self@.is_admin(id@),
    {
        match self.user_index_by_id(id) {
            Some(i) => self.users[i].user.is_admin,
            None => false,
        }
    }

    /// Stores the metadata of an upload, with the given id and time stamp.
    /// The name is checked first; the owner must exist and the id be new.
    pub fn upload_file_with(
        &mut self,
        file_id: &str,
        now: &str,
        user_id: &str,
        file_name: &str,
        size_bytes: u64,
        is_public: bool,
    ) -> (r: Result<File, StorageError>)
        ensures
            upload_outcome(
                old(self)@,
                final(self)@,
                r,
                file_id@,
                now@,
                user_id@,
                file_name@,
                size_bytes,
                is_public,
            ),
            final(self).install_path_view() == old(self).install_path_view(),
            final(self).node() == old(self).node(),
            consistent(old(self)@) ==> consistent(final(self)@),
    {
        if validate_filename(file_name).is_err() {
            return Err(StorageError::Validation);
        }
        if file_listed(&self.files, file_id) || self.user_index_by_id(user_id).is_none() {
            return Err(StorageError::Integrity);
        }
        let f = File {
            file_id: String::from_str(file_id),
            user_id: String::from_str(user_id),
            file_name: String::from_str(file_name),
            size_bytes,
            is_public,
            created_at: String::from_str(now),
        };
        let out = f.clone();
        self.files.push(f);
        proof {
            if consistent(old(self)@) {
                lemma_upload_keeps_consistent(
                    old(self)@,
                    self@,
                    Ok(out),
                    file_id@,
                    now@,
                    user_id@,
                    file_name@,
                    size_bytes,
                    is_public,
                );
            }
        }
        Ok(out)
    }

    /// Stores the metadata of an upload of `file_data` (see
    /// [`upload_outcome`]), with a fresh random id and the current time. The
    /// caller has written the contents to disk before.
    pub fn upload_file(&mut self, user_id: &str, file_name: &str, file_data: &[u8], is_public: bool) -> (r:
        Result<File, StorageError>)
        ensures
            exists|file_id: Seq<char>, now: Seq<char>|
                #[trigger] upload_outcome(
                    old(self)@,
                    final(self)@,
                    r,
                    file_id,
                    now,
                    user_id@,
                    file_name@,
                    file_data@.len() as u64,
                    is_public,
                ),
            final(self).install_path_view() == old(self).install_path_view(),
            final(self).node() == old(self).node(),
            consistent(old(self)@) ==> consistent(final(self)@),
    {
        let id = new_uuid();
        let now = now_rfc3339();
        self.upload_file_with(
            id.as_str(),
            now.as_str(),
            user_id,
            file_name,
            file_data.len() as u64,
            is_public,
        )
    }

    /// The files that `requesting_user_id` may see in a listing, newest
    /// first: with an identity, that user's own files and all public files;
    /// without, the public files.
    pub fn list_files(&self, requesting_user_id: Option<&str>) -> (r: Vec<File>)
        ensures
            r@ == newest_first(self@.files.filter(file_visible_to(opt_str(requesting_user_id)))),
    {
        let shown = select(
            &self.files,
            |f: &File| -> (b: bool)
                ensures b == file_visible_to(opt_str(requesting_user_id))(*f)
                {
                    f.is_public || match requesting_user_id {
                        Some(uid) => str_eq(f.user_id.as_str(), uid),
                        None => false,
                    }
                },
            Ghost(file_visible_to(opt_str(requesting_user_id))),
        );
        sort_newest_first(shown)
    }

    /// All files, newest first.
    pub fn list_all_files(&self) -> (r: Vec<File>)
        ensures
            r@ == newest_first(self@.files),
    {
        let all = select(
            &self.files,
            |f: &File| -> (b: bool)
                ensures b
                { true },
            Ghost(any_file()),
        );
        proof {
            lemma_filter_all(self@.files);
        }
        sort_newest_first(all)
    }

    /// Whether the file called `file_name` is attached to a message in a
    /// conversation that `user_id` belongs to.
    pub fn can_access_attached_file(&self, user_id: &str, file_name: &str) -> (r: bool)
        ensures
            r == self@.shared_with(user_id@, file_name@),
    {
        let ghost t = self@;
        exists_where(
            &self.files,
            |f: &File| -> (b: bool)
                ensures b == file_shared_with(file_name@, user_id@, t)(*f)
                {
                    str_eq(f.file_name.as_str(), file_name) && exists_where(
                        &self.attachments,
                        |a: &AttachmentRow| -> (b: bool)
                            ensures b == attachment_shared_with(f.file_id@, user_id@, t.messages, t.members)(*a)
                            {
                                str_eq(a.file_id.as_str(), f.file_id.as_str()) && exists_where(
                                    &self.messages,
                                    |m: &MessageRow| -> (b: bool)
                                        ensures b == message_shared_with(a.message_id@, user_id@, t.members)(*m)
                                        {
                                            str_eq(m.message_id.as_str(), a.message_id.as_str())
                                                && self.is_conversation_member(
                                                m.conversation_id.as_str(),
                                                user_id,
                                            )
                                        },
                                    Ghost(message_shared_with(a.message_id@, user_id@, t.members)),
                                )
                            },
                        Ghost(attachment_shared_with(f.file_id@, user_id@, t.messages, t.members)),
                    )
                },
            Ghost(file_shared_with(file_name@, user_id@, t)),
        )
    }

    /// Whether `user_id` is a member of `conversation_id`.
    pub fn is_conversation_member(&self, conversation_id: &str, user_id: &str) -> (r: bool)
        ensures
            r == any(self@.members, member_of(conversation_id@, user_id@)),
    {
        exists_where(
            &self.members,
            |m: &MemberRow| -> (b: bool)
                ensures b == (m.conversation_id@ == conversation_id@ && m.user_id@ == user_id@)
                {
                    str_eq(m.conversation_id.as_str(), conversation_id) && str_eq(
                        m.user_id.as_str(),
                        user_id,
                    )
                },
            Ghost(member_of(conversation_id@, user_id@)),
        )
    }

    /// Decides whether `requesting_user_id` may read the file called
    /// `file_name` and returns its metadata; the caller then reads the
    /// contents from disk. The owner may always read; anyone else may where
    /// the file is public or attached to a message in one of the requester's
    /// conversations.
    pub fn read_file(&self, requesting_user_id: &str, file_name: &str) -> (r: Result<File, StorageError>)
        ensures
            r == self@.read_outcome(requesting_user_id@, file_name@),
    {
        if validate_filename(file_name).is_err() {
            return Err(StorageError::Validation);
        }
        match self.file_index_by_name(file_name) {
            None => Err(StorageError::NotFound),
            Some(i) => {
                let f = &self.files[i];
                if str_eq(f.user_id.as_str(), requesting_user_id) || f.is_public
                    || self.can_access_attached_file(requesting_user_id, file_name) {
                    Ok(f.clone())
                } else {
                    Err(StorageError::PermissionDenied)
                }
            },
        }
    }

    fn change_target(&self, requester: &str, name: &str) -> (r: Result<usize, StorageError>)
        ensures
            match r {
                Ok(i) => self@.change_target(requester@, name@) == Ok::<int, StorageError>(i as int)
                    && i < self@.files.len(),
                Err(e) => self@.change_target(requester@, name@) == Err::<int, StorageError>(e),
            },
    {
        if validate_filename(name).is_err() {
            return Err(StorageError::Validation);
        }
        match self.file_index_by_name(name) {
            None => Err(StorageError::NotFound),
            Some(i) => {
                if str_eq(self.files[i].user_id.as_str(), requester) || self.user_is_admin(requester) {
                    Ok(i)
                } else {
                    Err(StorageError::PermissionDenied)
                }
            },
        }
    }

    /// Deletes the metadata of the file called `file_name` and its
    /// attachments, for its owner or an administrator. The caller then
    /// removes the contents from disk, and does not fail where they are
    /// already gone.
    pub fn delete_file(&mut self, requesting_user_id: &str, file_name: &str) -> (r: Result<(), StorageError>)
        ensures
            delete_file_outcome(old(self)@, final(self)@, r, requesting_user_id@, file_name@),
            final(self).install_path_view() == old(self).install_path_view(),
            final(self).node() == old(self).node(),
            consistent(old(self)@) ==> consistent(final(self)@),
    {
        match self.change_target(requesting_user_id, file_name) {
            Err(e) => Err(e),
            Ok(i) => {
                let id = self.files[i].file_id.clone();
                let files = select(
                    &self.files,
                    |f: &File| -> (b: bool)
                        ensures b == (f.file_id@ != id@)
                        { !str_eq(f.file_id.as_str(), id.as_str()) },
                    Ghost(file_other_than(id@)),
                );
                let attachments = select(
                    &self.attachments,
                    |a: &AttachmentRow| -> (b: bool)
                        ensures b == (a.file_id@ != id@)
                        { !str_eq(a.file_id.as_str(), id.as_str()) },
                    Ghost(attachment_of_other_file(id@)),
                );
                self.files = files;
                self.attachments = attachments;
                proof {
                    if consistent(old(self)@) {
                        lemma_delete_file_keeps_consistent(
                            old(self)@,
                            self@,
                            Ok(()),
                            requesting_user_id@,
                            file_name@,
                        );
                    }
                }
                Ok(())
            },
        }
    }

    /// Makes the file called `file_name` public or private, for its owner or
    /// an administrator.
    pub fn update_file_visibility(&mut self, requesting_user_id: &str, file_name: &str, is_public: bool) -> (r:
        Result<(), StorageError>)
        ensures
            visibility_outcome(
                old(self)@,
                final(self)@,
                r,
                requesting_user_id@,
                file_name@,
                is_public,
            ),
            final(self).install_path_view() == old(self).install_path_view(),
            final(self).node() == old(self).node(),
            consistent(old(self)@) ==> consistent(final(self)@),
    {
        match self.change_target(requesting_user_id, file_name) {
            Err(e) => Err(e),
            Ok(i) => {
                let f = File {
                    file_id: self.files[i].file_id.clone(),
                    user_id: self.files[i].user_id.clone(),
                    file_name: self.files[i].file_name.clone(),
                    size_bytes: self.files[i].size_bytes,
                    is_public,
                    created_at: self.files[i].created_at.clone(),
                };
                self.files[i] = f;
                assert(self@.files =~= old(self)@.files.update(
                    i as int,
                    File { is_public, ..old(self)@.files[i as int] },
                ));
                proof {
                    if consistent(old(self)@) {
                        lemma_visibility_keeps_consistent(
                            old(self)@,
                            self@,
                            Ok(()),
                            requesting_user_id@,
                            file_name@,
                            is_public,
                        );
                    }
                }
                Ok(())
            },
        }
    }
}

/// Selecting every row leaves the table as it is.
pub proof fn lemma_filter_all(files: Seq<File>)
    ensures
        files.filter(any_file()) == files,
    decreases files.len(),
{
    reveal(Seq::filter);
    if files.len() > 0 {
        lemma_filter_all(files.drop_last());
        assert(files.drop_last().push(files.last()) =~= files);
    }
}

// ---------------------------------------------------------------------------
// Conversations and their members
// ---------------------------------------------------------------------------

/// The test for a direct conversation to which both `a` and `b` belong.
pub open spec fn dm_between(a: Seq<char>, b: Seq<char>, members: Seq<MemberRow>) -> spec_fn(
    Conversation,
) -> bool {
    |c: Conversation|
        c.kind@ == "dm"@ && any(members, member_of(c.conversation_id@, a)) && any(
            members,
            member_of(c.conversation_id@, b),
        )
}

/// The test for a membership in the conversation `id`.
pub open spec fn membership_in(id: Seq<char>) -> spec_fn(MemberRow) -> bool {
    |m: MemberRow| m.conversation_id@ == id
}

/// The test for every membership but that of `user` in `conversation`.
pub open spec fn not_member_of(conversation: Seq<char>, user: Seq<char>) -> spec_fn(MemberRow) -> bool {
    |m: MemberRow| !(m.conversation_id@ == conversation && m.user_id@ == user)
}

/// What the fields of a conversation hold.
pub open spec fn conversation_holds(
    c: Conversation,
    conversation_id: Seq<char>,
    kind: Seq<char>,
    name: Option<Seq<char>>,
    created_by: Seq<char>,
    created_at: Seq<char>,
    updated_at: Seq<char>,
) -> bool {
    &&& c.conversation_id@ == conversation_id
    &&& c.kind@ == kind
    &&& match (c.name, name) {
        (Some(x), Some(y)) => x@ == y,
        (None, None) => true,
        _ => false,
    }
    &&& c.created_by@ == created_by
    &&& c.created_at@ == created_at
    &&& c.updated_at@ == updated_at
}

/// What the fields of a membership hold.
pub open spec fn member_holds(
    m: MemberRow,
    conversation_id: Seq<char>,
    user_id: Seq<char>,
    joined_at: Seq<char>,
) -> bool {
    &&& m.conversation_id@ == conversation_id
    &&& m.user_id@ == user_id
    &&& m.joined_at@ == joined_at
}

/// The texts of `ids` without repetitions, each at its first place.
pub open spec fn distinct(ids: Seq<Seq<char>>) -> Seq<Seq<char>>
    decreases ids.len(),
{
    if ids.len() == 0 {
        ids
    } else {
        let d = distinct(ids.drop_last());
        if d.contains(ids.last()) {
            d
        } else {
            d.push(ids.last())
        }
    }
}

/// The members of a new group: the creator first, then the others in the
/// order given, nobody twice.
pub open spec fn group_members(creator: Seq<char>, member_ids: Seq<Seq<char>>) -> Seq<Seq<char>> {
    distinct(seq![creator] + member_ids)
}

impl Tables {
    /// Whether a conversation has the id `id`.
    pub open spec fn has_conversation(self, id: Seq<char>) -> bool {
        any(self.conversations, conversation_with_id(id))
    }

    /// Whether the id `id` is free for a new conversation: no conversation
    /// and no membership uses it.
    pub open spec fn conversation_id_free(self, id: Seq<char>) -> bool {
        !self.has_conversation(id) && !any(self.members, membership_in(id))
    }

    /// Whether `user` belongs to `conversation`.
    pub open spec fn is_member(self, conversation: Seq<char>, user: Seq<char>) -> bool {
        any(self.members, member_of(conversation, user))
    }

    /// Whether every text of `ids` is the id of a user.
    pub open spec fn all_users(self, ids: Seq<Seq<char>>) -> bool {
        forall|k: int| 0 <= k < ids.len() ==> self.has_user(#[trigger] ids[k])
    }

    /// Whether `rows` are memberships of `users` in `conversation`, in that
    /// order, all joined at `now`.
    pub open spec fn memberships(rows: Seq<MemberRow>, conversation: Seq<char>, users: Seq<Seq<char>>, now: Seq<
        char,
    >) -> bool {
        &&& rows.len() == users.len()
        &&& forall|k: int|
            0 <= k < rows.len() ==> member_holds(#[trigger] rows[k], conversation, users[k], now)
    }
}

/// What creating a direct conversation between `a` and `b` does: an
/// existing one is returned as it is; otherwise the conversation and both
/// memberships are stored, or nothing where a rule of the store stands
/// against it.
pub open spec fn create_dm_outcome(
    before: Tables,
    after: Tables,
    r: Result<Conversation, StorageError>,
    conversation_id: Seq<char>,
    now: Seq<char>,
    a: Seq<char>,
    b: Seq<char>,
) -> bool {
    match first_match(before.conversations, dm_between(a, b, before.members)) {
        Some(c) => r == Ok::<Conversation, StorageError>(c) && after == before,
        None => if !before.conversation_id_free(conversation_id) || !before.has_user(a)
            || !before.has_user(b) || a == b {
            r == Err::<Conversation, StorageError>(StorageError::Integrity) && after == before
        } else {
            &&& r is Ok
            &&& conversation_holds(r->Ok_0, conversation_id, "dm"@, None, a, now, now)
            &&& after.members.len() == before.members.len() + 2
            &&& Tables::memberships(
                after.members.skip(before.members.len() as int),
                conversation_id,
                seq![a, b],
                now,
            )
            &&& after == Tables {
                conversations: before.conversations.push(r->Ok_0),
                members: before.members + after.members.skip(before.members.len() as int),
                ..before
            }
        },
    }
}

/// What creating a group does: the conversation and the memberships of the
/// creator and of the others are stored, or nothing where a rule of the
/// store stands against it.
pub open spec fn create_group_outcome(
    before: Tables,
    after: Tables,
    r: Result<Conversation, StorageError>,
    conversation_id: Seq<char>,
    now: Seq<char>,
    creator: Seq<char>,
    name: Seq<char>,
    member_ids: Seq<Seq<char>>,
) -> bool {
    if !before.conversation_id_free(conversation_id) || !before.has_user(creator)
        || !before.all_users(member_ids) {
        r == Err::<Conversation, StorageError>(StorageError::Integrity) && after == before
    } else {
        &&& r is Ok
        &&& conversation_holds(r->Ok_0, conversation_id, "group"@, Some(name), creator, now, now)
        &&& after.members.len() >= before.members.len()
        &&& Tables::memberships(
            after.members.skip(before.members.len() as int),
            conversation_id,
            group_members(creator, member_ids),
            now,
        )
        &&& after == Tables {
            conversations: before.conversations.push(r->Ok_0),
            members: before.members + after.members.skip(before.members.len() as int),
            ..before
        }
    }
}

/// What adding `user` to `conversation` does: nothing for a member;
/// otherwise the membership is stored, provided both exist.
pub open spec fn add_member_outcome(
    before: Tables,
    after: Tables,
    r: Result<(), StorageError>,
    conversation: Seq<char>,
    user: Seq<char>,
    now: Seq<char>,
) -> bool {
    if before.is_member(conversation, user) {
        r is Ok && after == before
    } else if !before.has_conversation(conversation) || !before.has_user(user) {
        r == Err::<(), StorageError>(StorageError::Integrity) && after == before
    } else {
        &&& r is Ok
        &&& after.members.len() == before.members.len() + 1
        &&& member_holds(after.members.last(), conversation, user, now)
        &&& after == Tables { members: before.members.push(after.members.last()), ..before }
    }
}

/// What renaming `conversation` does; nothing where it does not exist.
pub open spec fn rename_outcome(before: Tables, after: Tables, conversation: Seq<char>, name: Seq<char>, now: Seq<
    char,
>) -> bool {
    match first_index(before.conversations, conversation_with_id(conversation)) {
        None => after == before,
        Some(i) => {
            let was = before.conversations[i];
            &&& after.conversations.len() == before.conversations.len()
            &&& conversation_holds(
                after.conversations[i],
                was.conversation_id@,
                was.kind@,
                Some(name),
                was.created_by@,
                was.created_at@,
                now,
            )
            &&& after == Tables {
                conversations: before.conversations.update(i, after.conversations[i]),
                ..before
            }
        },
    }
}

/// The member of a conversation that a membership row and its user make.
pub open spec fn member_shown(t: Tables, m: MemberRow) -> Option<ConversationMember> {
    match first_match(t.users, user_with_id(m.user_id@)) {
        Some(u) => Some(
            ConversationMember { user_id: m.user_id, username: u.user.username, joined_at: m.joined_at },
        ),
        None => None,
    }
}

/// The members of `conversation` whose users exist, in the order in which
/// they joined the table.
pub open spec fn member_listing(t: Tables, conversation: Seq<char>) -> Seq<ConversationMember> {
    t.members.filter_map(
        |m: MemberRow|
            if m.conversation_id@ == conversation {
                member_shown(t, m)
            } else {
                None
            },
    )
}

/// Whether `id` is among `ids`.
pub fn text_listed(ids: &Vec<String>, id: &str) -> (r: bool)
    ensures
        r == string_views(ids@).contains(id@),
{
    let mut i: usize = 0;
    while i < ids.len()
        invariant
            i <= ids.len(),
            forall|j: int| 0 <= j < i ==> string_views(ids@)[j] != id@,
        decreases ids.len() - i,
    {
        if str_eq(ids[i].as_str(), id) {
            assert(string_views(ids@)[i as int] == id@);
            return true;
        }
        i += 1;
    }
    false
}

impl StorageManager {
    fn conversation_index(&self, id: &str) -> (r: Option<usize>)
        ensures
            match r {
                Some(i) => first_index(self@.conversations, conversation_with_id(id@)) == Some(
                    i as int,
                ) && i < self@.conversations.len() && self@.has_conversation(id@),
                None => first_index(self@.conversations, conversation_with_id(id@)) is None
                    && !self@.has_conversation(id@),
            },
    {
        let r = position(
            &self.conversations,
            |c: &Conversation| -> (b: bool)
                ensures b == (c.conversation_id@ == id@)
                { str_eq(c.conversation_id.as_str(), id) },
            Ghost(conversation_with_id(id@)),
        );
        proof {
            crate::ordering::lemma_first_index_props(self@.conversations, conversation_with_id(id@));
        }
        r
    }

    fn conversation_id_free(&self, id: &str) -> (r: bool)
        ensures
            r == self@.conversation_id_free(id@),
    {
        !conversation_listed(&self.conversations, id) && !exists_where(
            &self.members,
            |m: &MemberRow| -> (b: bool)
                ensures b == (m.conversation_id@ == id@)
                { str_eq(m.conversation_id.as_str(), id) },
            Ghost(membership_in(id@)),
        )
    }

    fn has_user(&self, id: &str) -> (r: bool)
        ensures
            r == self@.has_user(id@),
    {
        self.user_index_by_id(id).is_some()
    }

    /// Returns the direct conversation between the two users, creating it
    /// with the given id and time stamp where there is none.
    pub fn create_dm_conversation_with(&mut self, conversation_id: &str, now: &str, user_a_id: &str, user_b_id: &str) -> (r:
        Result<Conversation, StorageError>)
        ensures
            create_dm_outcome(
                old(self)@,
                final(self)@,
                r,
                conversation_id@,
                now@,
                user_a_id@,
                user_b_id@,
            ),
            final(self).install_path_view() == old(self).install_path_view(),
            final(self).node() == old(self).node(),
            consistent(old(self)@) ==> consistent(final(self)@),
    {
        let ghost t = self@;
        let found = position(
            &self.conversations,
            |c: &Conversation| -> (b: bool)
                ensures b == dm_between(user_a_id@, user_b_id@, t.members)(*c)
                {
                    str_eq(c.kind.as_str(), "dm") && self.is_conversation_member(
                        c.conversation_id.as_str(),
                        user_a_id,
                    ) && self.is_conversation_member(c.conversation_id.as_str(), user_b_id)
                },
            Ghost(dm_between(user_a_id@, user_b_id@, t.members)),
        );
        match found {
            Some(i) => Ok(self.conversations[i].clone()),
            None => {
                if !self.conversation_id_free(conversation_id) || !self.has_user(user_a_id)
                    || !self.has_user(user_b_id) || str_eq(user_a_id, user_b_id) {
                    return Err(StorageError::Integrity);
                }
                let c = Conversation {
                    conversation_id: String::from_str(conversation_id),
                    kind: String::from_str("dm"),
                    name: None,
                    created_by: String::from_str(user_a_id),
                    created_at: String::from_str(now),
                    updated_at: String::from_str(now),
                };
                let out = c.clone();
                self.conversations.push(c);
                self.members.push(
                    MemberRow {
                        conversation_id: String::from_str(conversation_id),
                        user_id: String::from_str(user_a_id),
                        joined_at: String::from_str(now),
                    },
                );
                self.members.push(
                    MemberRow {
                        conversation_id: String::from_str(conversation_id),
                        user_id: String::from_str(user_b_id),
                        joined_at: String::from_str(now),
                    },
                );
                proof {
                    let n = t.members.len() as int;
                    let added = self@.members.skip(n);
                    assert(added.len() == 2);
                    assert(added[0] == self@.members[n]);
                    assert(added[1] == self@.members[n + 1]);
                    assert(self@.members =~= t.members + added);
                }
                proof {
                    if consistent(old(self)@) {
                        lemma_create_dm_keeps_consistent(
                            old(self)@,
                            self@,
                            Ok(out),
                            conversation_id@,
                            now@,
                            user_a_id@,
                            user_b_id@,
                        );
                    }
                }
                Ok(out)
            },
        }
    }

    /// Returns the direct conversation between the two users (see
    /// [`create_dm_outcome`]); a new one gets a fresh random id and the
    /// current time.
    pub fn create_dm_conversation(&mut self, user_a_id: &str, user_b_id: &str) -> (r: Result<
        Conversation,
        StorageError,
    >)
        ensures
            exists|conversation_id: Seq<char>, now: Seq<char>|
                create_dm_outcome(
                    old(self)@,
                    final(self)@,
                    r,
                    conversation_id,
                    now,
                    user_a_id@,
                    user_b_id@,
                ),
            final(self).install_path_view() == old(self).install_path_view(),
            final(self).node() == old(self).node(),
            consistent(old(self)@) ==> consistent(final(self)@),
    {
        let id = new_uuid();
        let now = now_rfc3339();
        self.create_dm_conversation_with(id.as_str(), now.as_str(), user_a_id, user_b_id)
    }

    /// Adds `user_id` to `conversation_id`, with the given time stamp.
    pub fn add_group_member_at(&mut self, conversation_id: &str, user_id: &str, now: &str) -> (r: Result<
        (),
        StorageError,
    >)
        ensures
            add_member_outcome(old(self)@, final(self)@, r, conversation_id@, user_id@, now@),
            final(self).install_path_view() == old(self).install_path_view(),
            final(self).node() == old(self).node(),
            consistent(old(self)@) ==> consistent(final(self)@),
    {
        if self.is_conversation_member(conversation_id, user_id) {
            return Ok(());
        }
        if !conversation_listed(&self.conversations, conversation_id) || !self.has_user(user_id) {
            return Err(StorageError::Integrity);
        }
        self.members.push(
            MemberRow {
                conversation_id: String::from_str(conversation_id),
                user_id: String::from_str(user_id),
                joined_at: String::from_str(now),
            },
        );
        proof {
            if consistent(old(self)@) {
                lemma_add_member_keeps_consistent(
                    old(self)@,
                    self@,
                    Ok(()),
                    conversation_id@,
                    user_id@,
                    now@,
                );
            }
        }
        Ok(())
    }

    /// Adds `user_id` to `conversation_id` (see [`add_member_outcome`]),
    /// with the current time. Whether the actor is a member is for the
    /// caller to check.
    pub fn add_group_member(&mut self, conversation_id: &str, user_id: &str) -> (r: Result<(), StorageError>)
        ensures
            exists|now: Seq<char>|
                add_member_outcome(old(self)@, final(self)@, r, conversation_id@, user_id@, now),
            final(self).install_path_view() == old(self).install_path_view(),
            final(self).node() == old(self).node(),
            consistent(old(self)@) ==> consistent(final(self)@),
    {
        let now = now_rfc3339();
        self.add_group_member_at(conversation_id, user_id, now.as_str())
    }

    /// Removes `user_id` from `conversation_id`. Whether the actor is a
    /// member is for the caller to check.
    pub fn remove_group_member(&mut self, conversation_id: &str, user_id: &str)
        ensures
            final(self)@ == (Tables {
                members: old(self)@.members.filter(not_member_of(conversation_id@, user_id@)),
                ..old(self)@
            }),
            final(self).install_path_view() == old(self).install_path_view(),
            final(self).node() == old(self).node(),
            consistent(old(self)@) ==> consistent(final(self)@),
    {
        let members = select(
            &self.members,
            |m: &MemberRow| -> (b: bool)
                ensures b == !(m.conversation_id@ == conversation_id@ && m.user_id@ == user_id@)
                {
                    !(str_eq(m.conversation_id.as_str(), conversation_id) && str_eq(
                        m.user_id.as_str(),
                        user_id,
                    ))
                },
            Ghost(not_member_of(conversation_id@, user_id@)),
        );
        self.members = members;
        proof {
            if consistent(old(self)@) {
                lemma_remove_member_keeps_consistent(old(self)@, conversation_id@, user_id@);
            }
        }
    }

    /// Renames `conversation_id`, with the given time stamp.
    pub fn rename_conversation_at(&mut self, conversation_id: &str, name: &str, now: &str)
        ensures
            rename_outcome(old(self)@, final(self)@, conversation_id@, name@, now@),
            final(self).install_path_view() == old(self).install_path_view(),
            final(self).node() == old(self).node(),
            consistent(old(self)@) ==> consistent(final(self)@),
    {
        match self.conversation_index(conversation_id) {
            None => {},
            Some(i) => {
                let c = Conversation {
                    conversation_id: self.conversations[i].conversation_id.clone(),
                    kind: self.conversations[i].kind.clone(),
                    name: Some(String::from_str(name)),
                    created_by: self.conversations[i].created_by.clone(),
                    created_at: self.conversations[i].created_at.clone(),
                    updated_at: String::from_str(now),
                };
                self.conversations[i] = c;
                assert(self@.conversations =~= old(self)@.conversations.update(
                    i as int,
                    self@.conversations[i as int],
                ));
            },
        }
        proof {
            if consistent(old(self)@) {
                lemma_rename_keeps_consistent(old(self)@, self@, conversation_id@, name@, now@);
            }
        }
    }

    /// Renames `conversation_id` (see [`rename_outcome`]), with the current
    /// time. Whether the actor is a member is for the caller to check.
    pub fn rename_conversation(&mut self, conversation_id: &str, name: &str)
        ensures
            exists|now: Seq<char>|
                rename_outcome(old(self)@, final(self)@, conversation_id@, name@, now),
            final(self).install_path_view() == old(self).install_path_view(),
            final(self).node() == old(self).node(),
            consistent(old(self)@) ==> consistent(final(self)@),
    {
        let now = now_rfc3339();
        self.rename_conversation_at(conversation_id, name, now.as_str());
    }

    /// The members of `conversation_id`, with their user names.
    pub fn get_conversation_members(&self, conversation_id: &str) -> (r: Vec<ConversationMember>)
        ensures
            r@ == member_listing(self@, conversation_id@),
    {
        let ghost t = self@;
        let ghost pick = |m: MemberRow|
            if m.conversation_id@ == conversation_id@ {
                member_shown(t, m)
            } else {
                None
            };
        let mut r: Vec<ConversationMember> = Vec::new();
        let mut i: usize = 0;
        assert(self.members@.take(0) =~= Seq::<MemberRow>::empty());
        while i < self.members.len()
            invariant
                i <= self.members.len(),
                t == self@,
                pick == |m: MemberRow|
                    if m.conversation_id@ == conversation_id@ {
                        member_shown(t, m)
                    } else {
                        None
                    },
                r@ == self.members@.take(i as int).filter_map(pick),
            decreases self.members.len() - i,
        {
            proof {
                assert(self.members@.take(i + 1).drop_last() =~= self.members@.take(i as int));
                assert(self.members@.take(i + 1).last() == self.members@[i as int]);
            }
            let m = &self.members[i];
            if str_eq(m.conversation_id.as_str(), conversation_id) {
                match self.user_index_by_id(m.user_id.as_str()) {
                    Some(u) => {
                        r.push(
                            ConversationMember {
                                user_id: m.user_id.clone(),
                                username: self.users[u].user.username.clone(),
                                joined_at: m.joined_at.clone(),
                            },
                        );
                    },
                    None => {},
                }
            }
            i += 1;
        }
        assert(self.members@.take(self.members.len() as int) =~= self.members@);
        r
    }
}

impl StorageManager {
    fn all_users(&self, ids: &[String]) -> (r: bool)
        ensures
            r == self@.all_users(string_views(ids@)),
    {
        let mut i: usize = 0;
        while i < ids.len()
            invariant
                i <= ids.len(),
                forall|k: int| 0 <= k < i ==> self@.has_user(#[trigger] string_views(ids@)[k]),
            decreases ids.len() - i,
        {
            if !self.has_user(ids[i].as_str()) {
                assert(!self@.has_user(string_views(ids@)[i as int]));
                return false;
            }
            i += 1;
        }
        true
    }

    /// Creates a group with the given id and time stamp: the conversation,
    /// the creator's membership, and that of each other user, nobody twice.
    pub fn create_group_conversation_with(
        &mut self,
        conversation_id: &str,
        now: &str,
        creator_id: &str,
        name: &str,
        member_ids: &[String],
    ) -> (r: Result<Conversation, StorageError>)
        ensures
            create_group_outcome(
                old(self)@,
                final(self)@,
                r,
                conversation_id@,
                now@,
                creator_id@,
                name@,
                string_views(member_ids@),
            ),
            final(self).install_path_view() == old(self).install_path_view(),
            final(self).node() == old(self).node(),
            consistent(old(self)@) ==> consistent(final(self)@),
    {
        if !self.conversation_id_free(conversation_id) || !self.has_user(creator_id)
            || !self.all_users(member_ids) {
            return Err(StorageError::Integrity);
        }
        let ghost t = self@;
        let ghost n = t.members.len() as int;
        let ghost ids = string_views(member_ids@);
        let c = Conversation {
            conversation_id: String::from_str(conversation_id),
            kind: String::from_str("group"),
            name: Some(String::from_str(name)),
            created_by: String::from_str(creator_id),
            created_at: String::from_str(now),
            updated_at: String::from_str(now),
        };
        let out = c.clone();
        self.conversations.push(c);
        let mut added: Vec<String> = Vec::new();
        added.push(String::from_str(creator_id));
        self.members.push(
            MemberRow {
                conversation_id: String::from_str(conversation_id),
                user_id: String::from_str(creator_id),
                joined_at: String::from_str(now),
            },
        );
        proof {
            assert(ids.take(0) =~= Seq::<Seq<char>>::empty());
            assert(seq![creator_id@] + ids.take(0) =~= seq![creator_id@]);
            assert(seq![creator_id@].drop_last() =~= Seq::<Seq<char>>::empty());
            assert(distinct(Seq::<Seq<char>>::empty()) =~= Seq::<Seq<char>>::empty());
            assert(distinct(seq![creator_id@]) =~= seq![creator_id@]);
            assert(string_views(added@) =~= seq![creator_id@]);
            assert(self@.members.take(n) =~= t.members);
        }
        let mut i: usize = 0;
        while i < member_ids.len()
            invariant
                i <= member_ids.len(),
                ids == string_views(member_ids@),
                n == t.members.len(),
                string_views(added@) == distinct(seq![creator_id@] + ids.take(i as int)),
                self@.members.len() == n + added@.len(),
                self@.members.take(n) == t.members,
                forall|k: int|
                    0 <= k < added@.len() ==> member_holds(
                        #[trigger] self@.members[n + k],
                        conversation_id@,
                        string_views(added@)[k],
                        now@,
                    ),
                self@.users == t.users,
                self@.files == t.files,
                self@.spaces == t.spaces,
                self@.messages == t.messages,
                self@.attachments == t.attachments,
                self@.conversations == t.conversations.push(out),
                self.install_path_view() == old(self).install_path_view(),
                self.node() == old(self).node(),
            decreases member_ids.len() - i,
        {
            let ghost so_far = seq![creator_id@] + ids.take(i as int);
            proof {
                let next = seq![creator_id@] + ids.take(i + 1);
                assert(next.drop_last() =~= so_far);
                assert(next.last() == ids[i as int]);
            }
            if !text_listed(&added, member_ids[i].as_str()) {
                let ghost before_rows = self@.members;
                let ghost before_added = string_views(added@);
                added.push(member_ids[i].clone());
                self.members.push(
                    MemberRow {
                        conversation_id: String::from_str(conversation_id),
                        user_id: member_ids[i].clone(),
                        joined_at: String::from_str(now),
                    },
                );
                proof {
                    assert(string_views(added@) =~= before_added.push(ids[i as int]));
                    assert(self@.members.take(n) =~= before_rows.take(n));
                    assert forall|k: int| 0 <= k < added@.len() implies member_holds(
                        #[trigger] self@.members[n + k],
                        conversation_id@,
                        string_views(added@)[k],
                        now@,
                    ) by {
                        if k < added@.len() - 1 {
                            assert(self@.members[n + k] == before_rows[n + k]);
                        }
                    }
                }
            }
            i += 1;
        }
        proof {
            assert(ids.take(member_ids.len() as int) =~= ids);
            let rows = self@.members.skip(n);
            assert(rows.len() == added@.len());
            assert forall|k: int| 0 <= k < rows.len() implies member_holds(
                #[trigger] rows[k],
                conversation_id@,
                group_members(creator_id@, ids)[k],
                now@,
            ) by {
                assert(rows[k] == self@.members[n + k]);
            }
            assert(self@.members =~= t.members + rows);
        }
        proof {
            if consistent(old(self)@) {
                lemma_create_group_keeps_consistent(
                    old(self)@,
                    self@,
                    Ok(out),
                    conversation_id@,
                    now@,
                    creator_id@,
                    name@,
                    string_views(member_ids@),
                );
            }
        }
        Ok(out)
    }

    /// Creates a group (see [`create_group_outcome`]) with a fresh random id
    /// and the current time.
    pub fn create_group_conversation(&mut self, creator_id: &str, name: &str, member_ids: &[String]) -> (r:
        Result<Conversation, StorageError>)
        ensures
            exists|conversation_id: Seq<char>, now: Seq<char>|
                create_group_outcome(
                    old(self)@,
                    final(self)@,
                    r,
                    conversation_id,
                    now,
                    creator_id@,
                    name@,
                    string_views(member_ids@),
                ),
            final(self).install_path_view() == old(self).install_path_view(),
            final(self).node() == old(self).node(),
            consistent(old(self)@) ==> consistent(final(self)@),
    {
        let id = new_uuid();
        let now = now_rfc3339();
        self.create_group_conversation_with(id.as_str(), now.as_str(), creator_id, name, member_ids)
    }
}

// ---------------------------------------------------------------------------
// Messages
// ---------------------------------------------------------------------------

/// The most messages that one page of history holds.
pub const MAX_PAGE: u32 = 100;

/// The test for a message of `conversation` whose sender exists and which
/// is older than `before`, where that is given.
pub open spec fn listed_message(conversation: Seq<char>, before: Option<Seq<char>>, users: Seq<UserRecord>) -> spec_fn(
    MessageRow,
) -> bool {
    |m: MessageRow|
        m.conversation_id@ == conversation && first_index(users, user_with_id(m.sender_id@)) is Some
            && (before is None || text_before(m.created_at@, before->Some_0))
}

/// The test for an attachment to the message `id`.
pub open spec fn attachment_of_message(id: Seq<char>) -> spec_fn(AttachmentRow) -> bool {
    |a: AttachmentRow| a.message_id@ == id
}

/// The test for the file `id` of the user `owner`.
pub open spec fn owned_file_with_id(id: Seq<char>, owner: Seq<char>) -> spec_fn(File) -> bool {
    |f: File| f.file_id@ == id && f.user_id@ == owner
}

/// The number of messages on a page for which `limit` was asked.
pub open spec fn page_size(limit: u32) -> int {
    if limit > MAX_PAGE {
        MAX_PAGE as int
    } else {
        limit as int
    }
}

/// The first `n` records of `s`, or all of them where there are fewer.
pub open spec fn at_most<T>(s: Seq<T>, n: int) -> Seq<T> {
    if s.len() <= n {
        s
    } else {
        s.take(n)
    }
}

/// The history of `conversation` older than `before`, newest first.
pub open spec fn history(t: Tables, conversation: Seq<char>, before: Option<Seq<char>>) -> Seq<MessageRow> {
    newest_first(t.messages.filter(listed_message(conversation, before, t.users)))
}

/// The files attached to the message `message_id` that exist, in the order
/// in which they were attached.
pub open spec fn attached_files(t: Tables, message_id: Seq<char>) -> Seq<File> {
    t.attachments.filter_map(
        |a: AttachmentRow|
            if a.message_id@ == message_id {
                first_match(t.files, file_with_id(a.file_id@))
            } else {
                None
            },
    )
}

/// `a` shows the file `f`: its id, name and size, and the media type that
/// its name gives.
pub open spec fn attachment_shows(a: MessageAttachment, f: File) -> bool {
    &&& a.file_id == f.file_id
    &&& a.file_name == f.file_name
    &&& a.size_bytes == f.size_bytes
    &&& a.mime_type@ == attachment_mime(unicode_lowercase(extension_of(f.file_name@)))
}

/// `list` shows the files `files`, one by one.
pub open spec fn attachments_show(list: Seq<MessageAttachment>, files: Seq<File>) -> bool {
    &&& list.len() == files.len()
    &&& forall|k: int| 0 <= k < list.len() ==> attachment_shows(#[trigger] list[k], files[k])
}

/// `m` shows the stored message `row` with the sender's name and the
/// attached files.
pub open spec fn message_shows(m: Message, row: MessageRow, t: Tables) -> bool {
    &&& m.message_id == row.message_id
    &&& m.conversation_id == row.conversation_id
    &&& m.sender_id == row.sender_id
    &&& m.body == row.body
    &&& m.created_at == row.created_at
    &&& m.sender_username@ == t.username_of(row.sender_id@)
    &&& attachments_show(m.attachments@, attached_files(t, row.message_id@))
}

/// `list` shows the stored messages `rows`, one by one.
pub open spec fn messages_show(list: Seq<Message>, rows: Seq<MessageRow>, t: Tables) -> bool {
    &&& list.len() == rows.len()
    &&& forall|k: int| 0 <= k < list.len() ==> message_shows(#[trigger] list[k], rows[k], t)
}

/// The files of `sender` that the ids name, in the order of the ids; an id
/// that names no file of the sender is left out.
pub open spec fn resolved_files(t: Tables, sender: Seq<char>, ids: Seq<Seq<char>>) -> Seq<File> {
    ids.filter_map(|id: Seq<char>| first_match(t.files, owned_file_with_id(id, sender)))
}

/// The ids of the files.
pub open spec fn file_ids(files: Seq<File>) -> Seq<Seq<char>> {
    files.map_values(|f: File| f.file_id@)
}

/// Whether `rows` attach the files `links` to the message `message_id`, in
/// that order.
pub open spec fn attachment_rows(rows: Seq<AttachmentRow>, message_id: Seq<char>, links: Seq<Seq<char>>) -> bool {
    &&& rows.len() == links.len()
    &&& forall|k: int|
        0 <= k < rows.len() ==> (#[trigger] rows[k]).message_id@ == message_id && rows[k].file_id@
            == links[k]
}

impl Tables {
    /// Whether the id `id` is free for a new message: no message and no
    /// attachment uses it.
    pub open spec fn message_id_free(self, id: Seq<char>) -> bool {
        !any(self.messages, message_with_id(id)) && !any(self.attachments, attachment_of_message(id))
    }
}

/// What sending a message does. The sender must belong to the
/// conversation, and the message must have a body or name an attachment.
/// Attachment ids that name no file of the sender are passed over. The
/// message and its attachments are stored and the conversation's last
/// activity is set to `now`.
pub open spec fn create_message_outcome(
    before: Tables,
    after: Tables,
    r: Result<Message, StorageError>,
    message_id: Seq<char>,
    now: Seq<char>,
    conversation: Seq<char>,
    sender: Seq<char>,
    body: Seq<char>,
    attachment_ids: Seq<Seq<char>>,
) -> bool {
    if !before.is_member(conversation, sender) {
        r == Err::<Message, StorageError>(StorageError::PermissionDenied) && after == before
    } else if body.len() == 0 && attachment_ids.len() == 0 {
        r == Err::<Message, StorageError>(StorageError::Validation) && after == before
    } else if !before.message_id_free(message_id) || !before.has_conversation(conversation)
        || !before.has_user(sender) {
        r == Err::<Message, StorageError>(StorageError::Integrity) && after == before
    } else {
        let files = resolved_files(before, sender, attachment_ids);
        let i = first_index(before.conversations, conversation_with_id(conversation))->Some_0;
        let n = before.attachments.len() as int;
        &&& r is Ok
        &&& r->Ok_0.message_id@ == message_id
        &&& r->Ok_0.conversation_id@ == conversation
        &&& r->Ok_0.sender_id@ == sender
        &&& r->Ok_0.sender_username@ == before.username_of(sender)
        &&& r->Ok_0.body@ == body
        &&& r->Ok_0.created_at@ == now
        &&& attachments_show(r->Ok_0.attachments@, files)
        &&& after.users == before.users
        &&& after.files == before.files
        &&& after.spaces == before.spaces
        &&& after.members == before.members
        &&& after.messages.len() == before.messages.len() + 1
        &&& after.messages == before.messages.push(after.messages.last())
        &&& after.messages.last().message_id@ == message_id
        &&& after.messages.last().conversation_id@ == conversation
        &&& after.messages.last().sender_id@ == sender
        &&& after.messages.last().body@ == body
        &&& after.messages.last().created_at@ == now
        &&& after.attachments.len() >= n
        &&& after.attachments == before.attachments + after.attachments.skip(n)
        &&& attachment_rows(after.attachments.skip(n), message_id, distinct(file_ids(files)))
        &&& after.conversations.len() == before.conversations.len()
        &&& after.conversations == before.conversations.update(i, after.conversations[i])
        &&& after.conversations[i].updated_at@ == now
        &&& after.conversations[i] == Conversation {
            updated_at: after.conversations[i].updated_at,
            ..before.conversations[i]
        }
    }
}

fn attachment_of(f: &File) -> (a: MessageAttachment)
    ensures
        attachment_shows(a, *f),
{
    MessageAttachment {
        file_id: f.file_id.clone(),
        file_name: f.file_name.clone(),
        size_bytes: f.size_bytes,
        mime_type: mime_from_ext(f.file_name.as_str()),
    }
}

impl StorageManager {
    fn file_index_by_id(&self, id: &str) -> (r: Option<usize>)
        ensures
            match r {
                Some(i) => first_index(self@.files, file_with_id(id@)) == Some(i as int) && i
                    < self@.files.len(),
                None => first_index(self@.files, file_with_id(id@)) is None,
            },
    {
        position(
            &self.files,
            |f: &File| -> (b: bool)
                ensures b == (f.file_id@ == id@)
                { str_eq(f.file_id.as_str(), id) },
            Ghost(file_with_id(id@)),
        )
    }

    fn username_of(&self, id: &str) -> (r: String)
        ensures
            r@ == self@.username_of(id@),
    {
        match self.user_index_by_id(id) {
            Some(i) => self.users[i].user.username.clone(),
            None => String::new(),
        }
    }

    fn get_message_attachments(&self, message_id: &str) -> (r: Vec<MessageAttachment>)
        ensures
            attachments_show(r@, attached_files(self@, message_id@)),
    {
        let ghost t = self@;
        let ghost pick = |a: AttachmentRow|
            if a.message_id@ == message_id@ {
                first_match(t.files, file_with_id(a.file_id@))
            } else {
                None
            };
        let mut r: Vec<MessageAttachment> = Vec::new();
        let mut i: usize = 0;
        assert(self.attachments@.take(0) =~= Seq::<AttachmentRow>::empty());
        while i < self.attachments.len()
            invariant
                i <= self.attachments.len(),
                t == self@,
                pick == |a: AttachmentRow|
                    if a.message_id@ == message_id@ {
                        first_match(t.files, file_with_id(a.file_id@))
                    } else {
                        None
                    },
                attachments_show(r@, self.attachments@.take(i as int).filter_map(pick)),
            decreases self.attachments.len() - i,
        {
            proof {
                assert(self.attachments@.take(i + 1).drop_last() =~= self.attachments@.take(i as int));
                assert(self.attachments@.take(i + 1).last() == self.attachments@[i as int]);
            }
            let a = &self.attachments[i];
            if str_eq(a.message_id.as_str(), message_id) {
                match self.file_index_by_id(a.file_id.as_str()) {
                    Some(f) => {
                        r.push(attachment_of(&self.files[f]));
                    },
                    None => {},
                }
            }
            i += 1;
        }
        assert(self.attachments@.take(self.attachments.len() as int) =~= self.attachments@);
        r
    }

    fn show_message(&self, row: &MessageRow) -> (m: Message)
        ensures
            message_shows(m, *row, self@),
    {
        Message {
            message_id: row.message_id.clone(),
            conversation_id: row.conversation_id.clone(),
            sender_id: row.sender_id.clone(),
            sender_username: self.username_of(row.sender_id.as_str()),
            body: row.body.clone(),
            attachments: self.get_message_attachments(row.message_id.as_str()),
            created_at: row.created_at.clone(),
        }
    }

    /// One page of the history of `conversation_id`, newest first: at most
    /// `limit` messages, and never more than [`MAX_PAGE`], all older than
    /// `before` where that is given. Each message comes with its sender's
    /// name and its attachments.
    pub fn list_messages(&self, conversation_id: &str, limit: u32, before: Option<&str>) -> (r: Vec<Message>)
        ensures
            messages_show(
                r@,
                at_most(history(self@, conversation_id@, opt_str(before)), page_size(limit)),
                self@,
            ),
            r@.len() <= MAX_PAGE,
    {
        let ghost t = self@;
        let listed = select(
            &self.messages,
            |m: &MessageRow| -> (b: bool)
                ensures b == listed_message(conversation_id@, opt_str(before), t.users)(*m)
                {
                    str_eq(m.conversation_id.as_str(), conversation_id) && self.user_index_by_id(
                        m.sender_id.as_str(),
                    ).is_some() && match before {
                        Some(cursor) => str_before(m.created_at.as_str(), cursor),
                        None => true,
                    }
                },
            Ghost(listed_message(conversation_id@, opt_str(before), t.users)),
        );
        let mut rows = sort_newest_first(listed);
        let n: usize = if limit > MAX_PAGE {
            MAX_PAGE as usize
        } else {
            limit as usize
        };
        if rows.len() > n {
            rows.truncate(n);
        }
        let mut r: Vec<Message> = Vec::new();
        let mut i: usize = 0;
        while i < rows.len()
            invariant
                i <= rows.len(),
                rows.len() <= MAX_PAGE,
                messages_show(r@, rows@.take(i as int), self@),
            decreases rows.len() - i,
        {
            r.push(self.show_message(&rows[i]));
            i += 1;
        }
        assert(rows@.take(rows.len() as int) =~= rows@);
        r
    }

    /// The most recent message of `conversation_id`.
    pub fn get_last_message(&self, conversation_id: &str) -> (r: Option<Message>)
        ensures
            match r {
                Some(m) => history(self@, conversation_id@, None).len() > 0 && message_shows(
                    m,
                    history(self@, conversation_id@, None)[0],
                    self@,
                ),
                None => history(self@, conversation_id@, None).len() == 0,
            },
    {
        let mut page = self.list_messages(conversation_id, 1, None);
        page.pop()
    }
}

impl StorageManager {
    fn message_id_free(&self, id: &str) -> (r: bool)
        ensures
            r == self@.message_id_free(id@),
    {
        !message_listed(&self.messages, id) && !exists_where(
            &self.attachments,
            |a: &AttachmentRow| -> (b: bool)
                ensures b == (a.message_id@ == id@)
                { str_eq(a.message_id.as_str(), id) },
            Ghost(attachment_of_message(id@)),
        )
    }

    /// Stores a message with the given id and time stamp.
    pub fn create_message_with(
        &mut self,
        message_id: &str,
        now: &str,
        conversation_id: &str,
        sender_id: &str,
        body: &str,
        attachment_ids: &[String],
    ) -> (r: Result<Message, StorageError>)
        ensures
            create_message_outcome(
                old(self)@,
                final(self)@,
                r,
                message_id@,
                now@,
                conversation_id@,
                sender_id@,
                body@,
                string_views(attachment_ids@),
            ),
            final(self).install_path_view() == old(self).install_path_view(),
            final(self).node() == old(self).node(),
            consistent(old(self)@) ==> consistent(final(self)@),
    {
        if !self.is_conversation_member(conversation_id, sender_id) {
            return Err(StorageError::PermissionDenied);
        }
        if body.unicode_len() == 0 && attachment_ids.len() == 0 {
            return Err(StorageError::Validation);
        }
        let conv = self.conversation_index(conversation_id);
        if !self.message_id_free(message_id) || conv.is_none() || !self.has_user(sender_id) {
            return Err(StorageError::Integrity);
        }
        let ci = conv.unwrap();
        let ghost t = self@;
        let ghost ids = string_views(attachment_ids@);
        let ghost n = t.attachments.len() as int;
        let ghost pick = |id: Seq<char>| first_match(t.files, owned_file_with_id(id, sender_id@));

        self.messages.push(
            MessageRow {
                message_id: String::from_str(message_id),
                conversation_id: String::from_str(conversation_id),
                sender_id: String::from_str(sender_id),
                body: String::from_str(body),
                created_at: String::from_str(now),
            },
        );

        let mut shown: Vec<MessageAttachment> = Vec::new();
        let mut linked: Vec<String> = Vec::new();
        let ghost mut files: Seq<File> = Seq::empty();
        proof {
            assert(ids.take(0) =~= Seq::<Seq<char>>::empty());
            assert(file_ids(files) =~= Seq::<Seq<char>>::empty());
            assert(self@.attachments.take(n) =~= t.attachments);
        }
        let mut i: usize = 0;
        while i < attachment_ids.len()
            invariant
                i <= attachment_ids.len(),
                ids == string_views(attachment_ids@),
                n == t.attachments.len(),
                pick == |id: Seq<char>| first_match(t.files, owned_file_with_id(id, sender_id@)),
                files == ids.take(i as int).filter_map(pick),
                attachments_show(shown@, files),
                string_views(linked@) == distinct(file_ids(files)),
                self@.attachments.len() == n + linked@.len(),
                self@.attachments.take(n) == t.attachments,
                forall|k: int|
                    0 <= k < linked@.len() ==> (#[trigger] self@.attachments[n + k]).message_id@
                        == message_id@ && self@.attachments[n + k].file_id@ == string_views(linked@)[k],
                self@.users == t.users,
                self@.files == t.files,
                self@.spaces == t.spaces,
                self@.members == t.members,
                self@.conversations == t.conversations,
                self@.messages.len() == t.messages.len() + 1,
                self@.messages == t.messages.push(self@.messages.last()),
                self@.messages.last().message_id@ == message_id@,
                self@.messages.last().conversation_id@ == conversation_id@,
                self@.messages.last().sender_id@ == sender_id@,
                self@.messages.last().body@ == body@,
                self@.messages.last().created_at@ == now@,
                self.install_path_view() == old(self).install_path_view(),
                self.node() == old(self).node(),
            decreases attachment_ids.len() - i,
        {
            proof {
                assert(ids.take(i + 1).drop_last() =~= ids.take(i as int));
                assert(ids.take(i + 1).last() == ids[i as int]);
            }
            let fid = &attachment_ids[i];
            let found = position(
                &self.files,
                |f: &File| -> (b: bool)
                    ensures b == (f.file_id@ == fid@ && f.user_id@ == sender_id@)
                    { str_eq(f.file_id.as_str(), fid.as_str()) && str_eq(f.user_id.as_str(), sender_id) },
                Ghost(owned_file_with_id(fid@, sender_id@)),
            );
            match found {
                Some(fi) => {
                    let ghost f = self@.files[fi as int];
                    let ghost old_files = files;
                    proof {
                        files = files.push(f);
                        assert(file_ids(files) =~= file_ids(old_files).push(f.file_id@));
                        assert(file_ids(files).drop_last() =~= file_ids(old_files));
                    }
                    if !text_listed(&linked, fid.as_str()) {
                        let ghost before_rows = self@.attachments;
                        let ghost before_linked = string_views(linked@);
                        linked.push(fid.clone());
                        self.attachments.push(
                            AttachmentRow {
                                message_id: String::from_str(message_id),
                                file_id: fid.clone(),
                            },
                        );
                        proof {
                            assert(string_views(linked@) =~= before_linked.push(fid@));
                            assert(self@.attachments.take(n) =~= before_rows.take(n));
                            assert forall|k: int| 0 <= k < linked@.len() implies (
                            #[trigger] self@.attachments[n + k]).message_id@ == message_id@
                                && self@.attachments[n + k].file_id@ == string_views(linked@)[k] by {
                                if k < linked@.len() - 1 {
                                    assert(self@.attachments[n + k] == before_rows[n + k]);
                                }
                            }
                        }
                    }
                    shown.push(attachment_of(&self.files[fi]));
                },
                None => {},
            }
            i += 1;
        }
        proof {
            assert(ids.take(attachment_ids.len() as int) =~= ids);
        }

        let touched = Conversation {
            conversation_id: self.conversations[ci].conversation_id.clone(),
            kind: self.conversations[ci].kind.clone(),
            name: match &self.conversations[ci].name {
                Some(x) => Some(x.clone()),
                None => None,
            },
            created_by: self.conversations[ci].created_by.clone(),
            created_at: self.conversations[ci].created_at.clone(),
            updated_at: String::from_str(now),
        };
        self.conversations[ci] = touched;

        let m = Message {
            message_id: String::from_str(message_id),
            conversation_id: String::from_str(conversation_id),
            sender_id: String::from_str(sender_id),
            sender_username: self.username_of(sender_id),
            body: String::from_str(body),
            attachments: shown,
            created_at: String::from_str(now),
        };
        proof {
            let rows = self@.attachments.skip(n);
            assert(rows.len() == linked@.len());
            assert forall|k: int| 0 <= k < rows.len() implies (#[trigger] rows[k]).message_id@
                == message_id@ && rows[k].file_id@ == distinct(file_ids(files))[k] by {
                assert(rows[k] == self@.attachments[n + k]);
            }
            assert(self@.attachments =~= t.attachments + rows);
            assert(self@.conversations =~= t.conversations.update(
                ci as int,
                self@.conversations[ci as int],
            ));
        }
        proof {
            if consistent(old(self)@) {
                lemma_create_message_keeps_consistent(
                    old(self)@,
                    self@,
                    Ok(m),
                    message_id@,
                    now@,
                    conversation_id@,
                    sender_id@,
                    body@,
                    string_views(attachment_ids@),
                );
            }
        }
        Ok(m)
    }

    /// Stores a message (see [`create_message_outcome`]) with a fresh random
    /// id and the current time.
    pub fn create_message(&mut self, conversation_id: &str, sender_id: &str, body: &str, attachment_ids: &[String]) -> (r:
        Result<Message, StorageError>)
        ensures
            exists|message_id: Seq<char>, now: Seq<char>|
                create_message_outcome(
                    old(self)@,
                    final(self)@,
                    r,
                    message_id,
                    now,
                    conversation_id@,
                    sender_id@,
                    body@,
                    string_views(attachment_ids@),
                ),
            final(self).install_path_view() == old(self).install_path_view(),
            final(self).node() == old(self).node(),
            consistent(old(self)@) ==> consistent(final(self)@),
    {
        let id = new_uuid();
        let now = now_rfc3339();
        self.create_message_with(
            id.as_str(),
            now.as_str(),
            conversation_id,
            sender_id,
            body,
            attachment_ids,
        )
    }
}

// ---------------------------------------------------------------------------
// The conversations of a user
// ---------------------------------------------------------------------------

/// The test for a conversation to which `user` belongs.
pub open spec fn conversation_of(user: Seq<char>, members: Seq<MemberRow>) -> spec_fn(Conversation) -> bool {
    |c: Conversation| any(members, member_of(c.conversation_id@, user))
}

/// The conversations of `user`, the one with the latest activity first.
pub open spec fn conversations_of(t: Tables, user: Seq<char>) -> Seq<Conversation> {
    newest_first(t.conversations.filter(conversation_of(user, t.members)))
}

/// `shown` shows the conversation `c` with its members and its most recent
/// message.
pub open spec fn conversation_shows(shown: ConversationWithMembers, c: Conversation, t: Tables) -> bool {
    &&& shown.conversation == c
    &&& shown.members@ == member_listing(t, c.conversation_id@)
    &&& match shown.last_message {
        Some(m) => history(t, c.conversation_id@, None).len() > 0 && message_shows(
            m,
            history(t, c.conversation_id@, None)[0],
            t,
        ),
        None => history(t, c.conversation_id@, None).len() == 0,
    }
}

/// `list` shows the conversations `convs`, one by one.
pub open spec fn conversations_show(list: Seq<ConversationWithMembers>, convs: Seq<Conversation>, t: Tables) -> bool {
    &&& list.len() == convs.len()
    &&& forall|k: int| 0 <= k < list.len() ==> conversation_shows(#[trigger] list[k], convs[k], t)
}

/// The ids of the conversations.
pub open spec fn conversation_ids(convs: Seq<Conversation>) -> Seq<String> {
    convs.map_values(|c: Conversation| c.conversation_id)
}

impl StorageManager {
    fn conversations_of(&self, user_id: &str) -> (r: Vec<Conversation>)
        ensures
            r@ == conversations_of(self@, user_id@),
    {
        let ghost t = self@;
        let mine = select(
            &self.conversations,
            |c: &Conversation| -> (b: bool)
                ensures b == conversation_of(user_id@, t.members)(*c)
                { self.is_conversation_member(c.conversation_id.as_str(), user_id) },
            Ghost(conversation_of(user_id@, t.members)),
        );
        sort_newest_first(mine)
    }

    /// The conversations of `user_id`, the one with the latest activity
    /// first, each with its members and its most recent message.
    pub fn list_conversations(&self, user_id: &str) -> (r: Vec<ConversationWithMembers>)
        ensures
            conversations_show(r@, conversations_of(self@, user_id@), self@),
    {
        let convs = self.conversations_of(user_id);
        let mut r: Vec<ConversationWithMembers> = Vec::new();
        let mut i: usize = 0;
        while i < convs.len()
            invariant
                i <= convs.len(),
                conversations_show(r@, convs@.take(i as int), self@),
            decreases convs.len() - i,
        {
            let c = convs[i].clone();
            let members = self.get_conversation_members(c.conversation_id.as_str());
            let last_message = self.get_last_message(c.conversation_id.as_str());
            r.push(ConversationWithMembers { conversation: c, members, last_message });
            i += 1;
        }
        assert(convs@.take(convs.len() as int) =~= convs@);
        r
    }

    /// The ids of the conversations of `user_id`, the one with the latest
    /// activity first.
    pub fn conversation_ids_of(&self, user_id: &str) -> (r: Vec<String>)
        ensures
            r@ == conversation_ids(conversations_of(self@, user_id@)),
    {
        let convs = self.conversations_of(user_id);
        let mut r: Vec<String> = Vec::new();
        let mut i: usize = 0;
        while i < convs.len()
            invariant
                i <= convs.len(),
                r@ == conversation_ids(convs@.take(i as int)),
            decreases convs.len() - i,
        {
            r.push(convs[i].conversation_id.clone());
            assert(convs@.take(i + 1) =~= convs@.take(i as int).push(convs@[i as int]));
            assert(r@ =~= conversation_ids(convs@.take(i + 1)));
            i += 1;
        }
        assert(convs@.take(convs.len() as int) =~= convs@);
        r
    }
}

// ---------------------------------------------------------------------------
// Loading, saving and moving
// ---------------------------------------------------------------------------

impl StorageManager {
    /// The store of the installation at `install_path` with the rows that
    /// were read from its database.
    pub fn open(
        install_path: &str,
        node: Option<NodeConfig>,
        users: Vec<UserRecord>,
        files: Vec<File>,
        conversations: Vec<Conversation>,
        members: Vec<MemberRow>,
        messages: Vec<MessageRow>,
        attachments: Vec<AttachmentRow>,
        spaces: Vec<Space>,
    ) -> (s: Self)
        ensures
            s.install_path_view() == install_path@,
            s.node() == node,
            s@ == (Tables {
                users: users@,
                files: files@,
                conversations: conversations@,
                members: members@,
                messages: messages@,
                attachments: attachments@,
                spaces: spaces@,
            }),
    {
        StorageManager {
            install_path: String::from_str(install_path),
            node,
            users,
            files,
            conversations,
            members,
            messages,
            attachments,
            spaces,
        }
    }

    /// The users as stored.
    pub fn user_rows(&self) -> (r: &Vec<UserRecord>)
        ensures
            r@ == self@.users,
    {
        &self.users
    }

    /// The files as stored.
    pub fn file_rows(&self) -> (r: &Vec<File>)
        ensures
            r@ == self@.files,
    {
        &self.files
    }

    /// The conversations as stored.
    pub fn conversation_rows(&self) -> (r: &Vec<Conversation>)
        ensures
            r@ == self@.conversations,
    {
        &self.conversations
    }

    /// The memberships as stored.
    pub fn member_rows(&self) -> (r: &Vec<MemberRow>)
        ensures
            r@ == self@.members,
    {
        &self.members
    }

    /// The messages as stored.
    pub fn message_rows(&self) -> (r: &Vec<MessageRow>)
        ensures
            r@ == self@.messages,
    {
        &self.messages
    }

    /// The attachments as stored.
    pub fn attachment_rows(&self) -> (r: &Vec<AttachmentRow>)
        ensures
            r@ == self@.attachments,
    {
        &self.attachments
    }

    /// Completes a move of the installation: from now on the store belongs
    /// to `new_path`. The rows stay as they are.
    pub fn relocate_at(&mut self, new_path: &str, now: &str)
        ensures
            final(self).install_path_view() == new_path@,
            final(self)@ == old(self)@,
            match old(self).node() {
                None => final(self).node() is None,
                Some(was) => final(self).node() is Some && config_moved(
                    final(self).node()->Some_0,
                    was,
                    new_path@,
                    now@,
                ),
            },
    {
        self.install_path = String::from_str(new_path);
        let was = self.node.take();
        match was {
            None => {},
            Some(c) => {
                self.node = Some(
                    NodeConfig {
                        node_id: c.node_id,
                        node_type: c.node_type,
                        node_name: c.node_name,
                        install_path: String::from_str(new_path),
                        disk_quota_milli_gb: c.disk_quota_milli_gb,
                        bandwidth_limit_milli_mbps: c.bandwidth_limit_milli_mbps,
                        cpu_limit_milli_percent: c.cpu_limit_milli_percent,
                        auto_start: c.auto_start,
                        background_mode: c.background_mode,
                        created_at: c.created_at,
                        updated_at: String::from_str(now),
                    },
                );
            },
        }
    }

    /// Completes a move of the installation, now.
    pub fn relocate(&mut self, new_path: &str)
        ensures
            final(self).install_path_view() == new_path@,
            final(self)@ == old(self)@,
            (final(self).node() is Some) == (old(self).node() is Some),
            old(self).node() is Some ==> exists|now: Seq<char>|
                #[trigger] config_moved(
                    final(self).node()->Some_0,
                    old(self).node()->Some_0,
                    new_path@,
                    now,
                ),
    {
        let now = now_rfc3339();
        self.relocate_at(new_path, now.as_str());
        proof {
            if old(self).node() is Some {
                assert(config_moved(self.node()->Some_0, old(self).node()->Some_0, new_path@, now@));
            }
        }
    }

    // -----------------------------------------------------------------------
    // The node's configuration
    // -----------------------------------------------------------------------

    /// Stores the node's configuration, in place of any earlier one, with
    /// the given id and time stamp. The node starts in background mode.
    pub fn save_node_config_with(
        &mut self,
        node_id: &str,
        now: &str,
        node_type: &str,
        node_name: &str,
        limits: ResourceLimits,
        auto_start: bool,
    ) -> (c: NodeConfig)
        ensures
            final(self).node() == Some(c),
            final(self)@ == old(self)@,
            final(self).install_path_view() == old(self).install_path_view(),
            c.node_id@ == node_id@,
            c.node_type@ == node_type@,
            c.node_name@ == node_name@,
            c.install_path@ == old(self).install_path_view(),
            c.limits() == limits,
            c.auto_start == auto_start,
            c.background_mode,
            c.created_at@ == now@,
            c.updated_at@ == now@,
    {
        let c = NodeConfig {
            node_id: String::from_str(node_id),
            node_type: String::from_str(node_type),
            node_name: String::from_str(node_name),
            install_path: self.install_path.clone(),
            disk_quota_milli_gb: limits.disk_quota_milli_gb,
            bandwidth_limit_milli_mbps: limits.bandwidth_limit_milli_mbps,
            cpu_limit_milli_percent: limits.cpu_limit_milli_percent,
            auto_start,
            background_mode: true,
            created_at: String::from_str(now),
            updated_at: String::from_str(now),
        };
        let out = c.clone();
        self.node = Some(c);
        out
    }

    /// Stores the node's configuration, in place of any earlier one, with a
    /// fresh random id and the current time.
    pub fn save_node_config(&mut self, node_type: &str, node_name: &str, limits: ResourceLimits, auto_start: bool) -> (c:
        NodeConfig)
        ensures
            final(self).node() == Some(c),
            final(self)@ == old(self)@,
            final(self).install_path_view() == old(self).install_path_view(),
            c.node_type@ == node_type@,
            c.node_name@ == node_name@,
            c.install_path@ == old(self).install_path_view(),
            c.limits() == limits,
            c.auto_start == auto_start,
            c.background_mode,
            c.created_at@ == c.updated_at@,
    {
        let id = new_uuid();
        let now = now_rfc3339();
        self.save_node_config_with(id.as_str(), now.as_str(), node_type, node_name, limits, auto_start)
    }

    /// The node's configuration, once it has one.
    pub fn get_node_config(&self) -> (r: Option<NodeConfig>)
        ensures
            r == self.node(),
    {
        match &self.node {
            Some(c) => Some(c.clone()),
            None => None,
        }
    }

    /// Changes the configuration, where there is one, and stamps it.
    fn change_node_config(&mut self, change: ConfigChange, now: &str)
        ensures
            final(self)@ == old(self)@,
            final(self).install_path_view() == old(self).install_path_view(),
            match old(self).node() {
                None => final(self).node() is None,
                Some(was) => final(self).node() is Some && config_changed(
                    final(self).node()->Some_0,
                    was,
                    change,
                    now@,
                ),
            },
    {
        let was = self.node.take();
        match was {
            None => {},
            Some(c) => {
                let limits = match change {
                    ConfigChange::Limits(l) => l,
                    _ => ResourceLimits {
                        disk_quota_milli_gb: c.disk_quota_milli_gb,
                        bandwidth_limit_milli_mbps: c.bandwidth_limit_milli_mbps,
                        cpu_limit_milli_percent: c.cpu_limit_milli_percent,
                    },
                };
                let auto_start = match change {
                    ConfigChange::AutoStart(b) => b,
                    _ => c.auto_start,
                };
                let background_mode = match change {
                    ConfigChange::BackgroundMode(b) => b,
                    _ => c.background_mode,
                };
                self.node = Some(
                    NodeConfig {
                        node_id: c.node_id,
                        node_type: c.node_type,
                        node_name: c.node_name,
                        install_path: c.install_path,
                        disk_quota_milli_gb: limits.disk_quota_milli_gb,
                        bandwidth_limit_milli_mbps: limits.bandwidth_limit_milli_mbps,
                        cpu_limit_milli_percent: limits.cpu_limit_milli_percent,
                        auto_start,
                        background_mode,
                        created_at: c.created_at,
                        updated_at: String::from_str(now),
                    },
                );
            },
        }
    }

    /// Sets the resource limits and stamps the configuration with `now`;
    /// nothing changes without a configuration.
    pub fn update_resource_limits_at(&mut self, limits: ResourceLimits, now: &str)
        ensures
            final(self)@ == old(self)@,
            final(self).install_path_view() == old(self).install_path_view(),
            match old(self).node() {
                None => final(self).node() is None,
                Some(was) => final(self).node() is Some && config_changed(
                    final(self).node()->Some_0,
                    was,
                    ConfigChange::Limits(limits),
                    now@,
                ),
            },
    {
        self.change_node_config(ConfigChange::Limits(limits), now);
    }

    /// Sets the resource limits, now.
    pub fn update_resource_limits(&mut self, limits: ResourceLimits)
        ensures
            final(self)@ == old(self)@,
            final(self).install_path_view() == old(self).install_path_view(),
            (final(self).node() is Some) == (old(self).node() is Some),
            final(self).node() is Some ==> final(self).node()->Some_0.limits() == limits,
    {
        let now = now_rfc3339();
        self.change_node_config(ConfigChange::Limits(limits), now.as_str());
    }

    /// Sets whether the node starts with the system and stamps the
    /// configuration with `now`; nothing changes without a configuration.
    pub fn update_auto_start_at(&mut self, enabled: bool, now: &str)
        ensures
            final(self)@ == old(self)@,
            final(self).install_path_view() == old(self).install_path_view(),
            match old(self).node() {
                None => final(self).node() is None,
                Some(was) => final(self).node() is Some && config_changed(
                    final(self).node()->Some_0,
                    was,
                    ConfigChange::AutoStart(enabled),
                    now@,
                ),
            },
    {
        self.change_node_config(ConfigChange::AutoStart(enabled), now);
    }

    /// Sets whether the node starts with the system, now.
    pub fn update_auto_start(&mut self, enabled: bool)
        ensures
            final(self)@ == old(self)@,
            final(self).install_path_view() == old(self).install_path_view(),
            (final(self).node() is Some) == (old(self).node() is Some),
            final(self).node() is Some ==> final(self).node()->Some_0.auto_start == enabled,
    {
        let now = now_rfc3339();
        self.change_node_config(ConfigChange::AutoStart(enabled), now.as_str());
    }

    /// Sets whether the node keeps running in the background and stamps the
    /// configuration with `now`; nothing changes without a configuration.
    pub fn update_background_mode_at(&mut self, enabled: bool, now: &str)
        ensures
            final(self)@ == old(self)@,
            final(self).install_path_view() == old(self).install_path_view(),
            match old(self).node() {
                None => final(self).node() is None,
                Some(was) => final(self).node() is Some && config_changed(
                    final(self).node()->Some_0,
                    was,
                    ConfigChange::BackgroundMode(enabled),
                    now@,
                ),
            },
    {
        self.change_node_config(ConfigChange::BackgroundMode(enabled), now);
    }

    /// Sets whether the node keeps running in the background, now.
    pub fn update_background_mode(&mut self, enabled: bool)
        ensures
            final(self)@ == old(self)@,
            final(self).install_path_view() == old(self).install_path_view(),
            (final(self).node() is Some) == (old(self).node() is Some),
            final(self).node() is Some ==> final(self).node()->Some_0.background_mode == enabled,
    {
        let now = now_rfc3339();
        self.change_node_config(ConfigChange::BackgroundMode(enabled), now.as_str());
    }

    /// How much of the quota is used, from what the caller measured on
    /// disk. Without a configuration the quota is zero.
    pub fn get_storage_status(&self, used_bytes: u64, file_count: u64, data_path: &str) -> (s: StorageStatus)
        ensures
            s.used_bytes == used_bytes,
            s.file_count == file_count,
            s.data_path@ == data_path@,
            s.quota_milli_gb == match self.node() {
                Some(c) => c.disk_quota_milli_gb,
                None => 0,
            },
    {
        let quota_milli_gb = match &self.node {
            Some(c) => c.disk_quota_milli_gb,
            None => 0,
        };
        StorageStatus { used_bytes, quota_milli_gb, file_count, data_path: String::from_str(data_path) }
    }
}

// ---------------------------------------------------------------------------
// Spaces
// ---------------------------------------------------------------------------

/// The test for the space with the id `id`.
pub open spec fn space_with_id(id: Seq<char>) -> spec_fn(Space) -> bool {
    |x: Space| x.space_id@ == id
}

/// The test for a space of the user `id`.
pub open spec fn space_owned_by(id: Seq<char>) -> spec_fn(Space) -> bool {
    |x: Space| x.user_id@ == id
}

/// What creating a space does: the space is stored, provided its id is
/// new and its owner exists.
pub open spec fn create_space_outcome(
    before: Tables,
    after: Tables,
    r: Result<Space, StorageError>,
    space_id: Seq<char>,
    now: Seq<char>,
    user_id: Seq<char>,
    name: Seq<char>,
    storage_quota_milli_gb: u64,
    is_public: bool,
) -> bool {
    if any(before.spaces, space_with_id(space_id)) || !before.has_user(user_id) {
        r == Err::<Space, StorageError>(StorageError::Integrity) && after == before
    } else {
        &&& r is Ok
        &&& r->Ok_0.space_id@ == space_id
        &&& r->Ok_0.user_id@ == user_id
        &&& r->Ok_0.name@ == name
        &&& r->Ok_0.storage_quota_milli_gb == storage_quota_milli_gb
        &&& r->Ok_0.is_public == is_public
        &&& r->Ok_0.created_at@ == now
        &&& r->Ok_0.updated_at@ == now
        &&& after == Tables { spaces: before.spaces.push(r->Ok_0), ..before }
    }
}

impl StorageManager {
    /// Stores a space of `user_id`, with the given id and time stamp.
    pub fn create_space_with(
        &mut self,
        space_id: &str,
        now: &str,
        user_id: &str,
        name: &str,
        storage_quota_milli_gb: u64,
        is_public: bool,
    ) -> (r: Result<Space, StorageError>)
        ensures
            create_space_outcome(
                old(self)@,
                final(self)@,
                r,
                space_id@,
                now@,
                user_id@,
                name@,
                storage_quota_milli_gb,
                is_public,
            ),
            final(self).install_path_view() == old(self).install_path_view(),
            final(self).node() == old(self).node(),
            consistent(old(self)@) ==> consistent(final(self)@),
    {
        let taken = exists_where(
            &self.spaces,
            |x: &Space| -> (b: bool)
                ensures b == (x.space_id@ == space_id@)
                { str_eq(x.space_id.as_str(), space_id) },
            Ghost(space_with_id(space_id@)),
        );
        if taken || !self.has_user(user_id) {
            return Err(StorageError::Integrity);
        }
        let x = Space {
            space_id: String::from_str(space_id),
            user_id: String::from_str(user_id),
            name: String::from_str(name),
            storage_quota_milli_gb,
            is_public,
            created_at: String::from_str(now),
            updated_at: String::from_str(now),
        };
        let out = x.clone();
        self.spaces.push(x);
        proof {
            if consistent(old(self)@) {
                crate::store_invariants::lemma_create_space_keeps_consistent(
                    old(self)@,
                    self@,
                    Ok(out),
                    space_id@,
                    now@,
                    user_id@,
                    name@,
                    storage_quota_milli_gb,
                    is_public,
                );
            }
        }
        Ok(out)
    }

    /// Stores a space of `user_id` (see [`create_space_outcome`]) with a
    /// fresh random id and the current time.
    pub fn create_space(&mut self, user_id: &str, name: &str, storage_quota_milli_gb: u64, is_public: bool) -> (r:
        Result<Space, StorageError>)
        ensures
            exists|space_id: Seq<char>, now: Seq<char>|
                #[trigger] create_space_outcome(
                    old(self)@,
                    final(self)@,
                    r,
                    space_id,
                    now,
                    user_id@,
                    name@,
                    storage_quota_milli_gb,
                    is_public,
                ),
            final(self).install_path_view() == old(self).install_path_view(),
            final(self).node() == old(self).node(),
            consistent(old(self)@) ==> consistent(final(self)@),
    {
        let id = new_uuid();
        let now = now_rfc3339();
        self.create_space_with(id.as_str(), now.as_str(), user_id, name, storage_quota_milli_gb, is_public)
    }

    /// The spaces of `user_id`, newest first.
    pub fn list_user_spaces(&self, user_id: &str) -> (r: Vec<Space>)
        ensures
            r@ == newest_first(self@.spaces.filter(space_owned_by(user_id@))),
    {
        let mine = select(
            &self.spaces,
            |x: &Space| -> (b: bool)
                ensures b == (x.user_id@ == user_id@)
                { str_eq(x.user_id.as_str(), user_id) },
            Ghost(space_owned_by(user_id@)),
        );
        sort_newest_first(mine)
    }

    /// The spaces as stored.
    pub fn space_rows(&self) -> (r: &Vec<Space>)
        ensures
            r@ == self@.spaces,
    {
        &self.spaces
    }
}

// ---------------------------------------------------------------------------
// Checking what was read
// ---------------------------------------------------------------------------

fn user_listed(users: &Vec<UserRecord>, id: &str) -> (r: bool)
    ensures
        r == any(users@, user_with_id(id@)),
{
    exists_where(
        users,
        |u: &UserRecord| -> (b: bool)
            ensures b == (u.user.user_id@ == id@)
            { str_eq(u.user.user_id.as_str(), id) },
        Ghost(user_with_id(id@)),
    )
}

impl StorageManager {
    fn keys_unique(&self) -> (r: bool)
        ensures
            r == keys_unique(self@),
    {
        all_differ(
            &self.users,
            |a: &UserRecord, b: &UserRecord| -> (r: bool)
                ensures r == users_differ()(*a, *b)
                {
                    !str_eq(a.user.user_id.as_str(), b.user.user_id.as_str()) && !str_eq(
                        a.user.username.as_str(),
                        b.user.username.as_str(),
                    ) && !str_eq(a.user.email.as_str(), b.user.email.as_str())
                },
            Ghost(users_differ()),
        ) && all_differ(
            &self.files,
            |a: &File, b: &File| -> (r: bool)
                ensures r == files_differ()(*a, *b)
                { !str_eq(a.file_id.as_str(), b.file_id.as_str()) },
            Ghost(files_differ()),
        ) && all_differ(
            &self.conversations,
            |a: &Conversation, b: &Conversation| -> (r: bool)
                ensures r == conversations_differ()(*a, *b)
                { !str_eq(a.conversation_id.as_str(), b.conversation_id.as_str()) },
            Ghost(conversations_differ()),
        ) && all_differ(
            &self.members,
            |a: &MemberRow, b: &MemberRow| -> (r: bool)
                ensures r == members_differ()(*a, *b)
                {
                    !str_eq(a.conversation_id.as_str(), b.conversation_id.as_str()) || !str_eq(
                        a.user_id.as_str(),
                        b.user_id.as_str(),
                    )
                },
            Ghost(members_differ()),
        ) && all_differ(
            &self.messages,
            |a: &MessageRow, b: &MessageRow| -> (r: bool)
                ensures r == messages_differ()(*a, *b)
                { !str_eq(a.message_id.as_str(), b.message_id.as_str()) },
            Ghost(messages_differ()),
        ) && all_differ(
            &self.attachments,
            |a: &AttachmentRow, b: &AttachmentRow| -> (r: bool)
                ensures r == attachments_differ()(*a, *b)
                {
                    !str_eq(a.message_id.as_str(), b.message_id.as_str()) || !str_eq(
                        a.file_id.as_str(),
                        b.file_id.as_str(),
                    )
                },
            Ghost(attachments_differ()),
        ) && all_differ(
            &self.spaces,
            |a: &Space, b: &Space| -> (r: bool)
                ensures r == spaces_differ()(*a, *b)
                { !str_eq(a.space_id.as_str(), b.space_id.as_str()) },
            Ghost(spaces_differ()),
        )
    }

    fn references_hold(&self) -> (r: bool)
        ensures
            r == references_hold(self@),
    {
        let ghost t = self@;
        all_pass(
            &self.files,
            |f: &File| -> (r: bool)
                ensures r == file_sound(t.users)(*f)
                {
                    user_listed(&self.users, f.user_id.as_str()) && validate_filename(
                        f.file_name.as_str(),
                    ).is_ok()
                },
            Ghost(file_sound(t.users)),
        ) && all_pass(
            &self.conversations,
            |c: &Conversation| -> (r: bool)
                ensures r == conversation_sound(t.users)(*c)
                { user_listed(&self.users, c.created_by.as_str()) },
            Ghost(conversation_sound(t.users)),
        ) && all_pass(
            &self.members,
            |m: &MemberRow| -> (r: bool)
                ensures r == member_sound(t.users, t.conversations)(*m)
                {
                    user_listed(&self.users, m.user_id.as_str()) && conversation_listed(
                        &self.conversations,
                        m.conversation_id.as_str(),
                    )
                },
            Ghost(member_sound(t.users, t.conversations)),
        ) && all_pass(
            &self.messages,
            |m: &MessageRow| -> (r: bool)
                ensures r == message_sound(t.users, t.conversations)(*m)
                {
                    user_listed(&self.users, m.sender_id.as_str()) && conversation_listed(
                        &self.conversations,
                        m.conversation_id.as_str(),
                    )
                },
            Ghost(message_sound(t.users, t.conversations)),
        ) && all_pass(
            &self.attachments,
            |a: &AttachmentRow| -> (r: bool)
                ensures r == attachment_sound(t.messages, t.files)(*a)
                {
                    message_listed(&self.messages, a.message_id.as_str()) && file_listed(
                        &self.files,
                        a.file_id.as_str(),
                    )
                },
            Ghost(attachment_sound(t.messages, t.files)),
        ) && all_pass(
            &self.spaces,
            |x: &Space| -> (r: bool)
                ensures r == space_sound(t.users)(*x)
                { user_listed(&self.users, x.user_id.as_str()) },
            Ghost(space_sound(t.users)),
        )
    }

    /// Whether the tables are consistent: no key is used twice, every row
    /// points at rows that exist, and every file name is acceptable. The
    /// commands of the store keep consistent tables consistent; tables
    /// that were read from elsewhere are checked with this.
    pub fn is_consistent(&self) -> (r: bool)
        ensures
            r == consistent(self@),
    {
        self.keys_unique() && self.references_hold()
    }
}

} // verus!
