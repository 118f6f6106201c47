//! Error kinds of the agent.

use vstd::prelude::*;

verus! {

/// Everything that can go wrong in the agent, by stable name.
///
/// Failures that originate in the operating system, the resolver or the
/// manifest decoder carry the text of the underlying failure.
#[derive(Debug, Clone, PartialEq, Eq)]
pub enum Error {
    /// The controller endpoint is not of the form `host` or `host:port`.
    TmcdBadBossNode { host: String },
    /// No discovery step produced a controller endpoint.
    TmcdFailedToDiscoverBossNode,
    /// A reply that must be text is not UTF-8.
    TmcdInvalidUtf8,
    /// A reply line does not follow the line grammar; `position` is the
    /// byte offset of the token that could not be read.
    TmcdBadLine { line: String, position: usize },
    /// A reply line lacks a key that the command requires.
    TmcdMissingKey { key: String, line: String },
    /// Two `ADDUSER` lines name the same login.
    TmcdDuplicateUser { login: String },
    /// Two `ADDGROUP` lines name the same group.
    TmcdDuplicateGroup { name: String },
    /// An accounts line does not start with a directive.
    TmcdMissingDirective { line: String },
    /// An accounts line starts with a directive that is not known.
    TmcdUnknownDirective { directive: String, line: String },
    /// The value of a key cannot be read as the type that was asked for.
    TmcdBadValue { key: String, value: String },
    /// A line refers to a login that no earlier line introduced.
    TmcdNoSuchUser { login: String },
    /// The manifest reply held no payload.
    TmcdGeniBlankResponse,
    /// The manifest reply reported a failure.
    TmcdGeniError,
    /// The manifest payload is not a manifest.
    GeniParseError { error: String },
    /// The manifest does not list the node that the allocation names.
    GeniNoSuchNode,
    /// A new account asks for a UID that another login already holds.
    DuplicateUid { login: String, uid: u16, existing_login: String },
    /// The shells file holds a line without a file name.
    InvalidShellsFile,
    /// The tool that creates users failed.
    UserCreation,
    /// The tool that creates groups failed.
    GroupCreation,
    /// The tool that updates users failed.
    UserUpdate,
    /// A mount could not be activated.
    Mount,
    /// An existing user has another UID than the record asks for.
    UidChangeUnsupported,
    /// An existing group has another GID than the record asks for.
    GidChangeUnsupported,
    /// A tool that the agent needs is not on the search path.
    UnmetSystemRequirements,
    /// The SRV record says that there is no controller.
    EmulabBossSrvNotAvailable,
    /// The controller's name does not resolve to an address.
    EmulabBossUnresolvable { host: String, port: u16 },
    /// An I/O operation failed.
    IoError { error: String },
    /// A system call failed.
    NixError { error: String },
    /// A DNS lookup failed.
    DnsLookupError { error: String },
}

/// The mathematical value of an [`Error`]: the same kinds, with texts as
/// character sequences.
pub ghost enum ErrorView {
    TmcdBadBossNode { host: Seq<char> },
    TmcdFailedToDiscoverBossNode,
    TmcdInvalidUtf8,
    TmcdBadLine { line: Seq<char>, position: int },
    TmcdMissingKey { key: Seq<char>, line: Seq<char> },
    TmcdDuplicateUser { login: Seq<char> },
    TmcdDuplicateGroup { name: Seq<char> },
    TmcdMissingDirective { line: Seq<char> },
    TmcdUnknownDirective { directive: Seq<char>, line: Seq<char> },
    TmcdBadValue { key: Seq<char>, value: Seq<char> },
    TmcdNoSuchUser { login: Seq<char> },
    TmcdGeniBlankResponse,
    TmcdGeniError,
    GeniParseError { error: Seq<char> },
    GeniNoSuchNode,
    DuplicateUid { login: Seq<char>, uid: u16, existing_login: Seq<char> },
    InvalidShellsFile,
    UserCreation,
    GroupCreation,
    UserUpdate,
    Mount,
    UidChangeUnsupported,
    GidChangeUnsupported,
    UnmetSystemRequirements,
    EmulabBossSrvNotAvailable,
    EmulabBossUnresolvable { host: Seq<char>, port: u16 },
    IoError { error: Seq<char> },
    NixError { error: Seq<char> },
    DnsLookupError { error: Seq<char> },
}

impl View for Error {
    type V = ErrorView;

    open spec fn view(&self) -> ErrorView {
        match *self {
            Error::TmcdBadBossNode { host } => ErrorView::TmcdBadBossNode { host: host@ },
            Error::TmcdFailedToDiscoverBossNode => ErrorView::TmcdFailedToDiscoverBossNode,
            Error::TmcdInvalidUtf8 => ErrorView::TmcdInvalidUtf8,
            Error::TmcdBadLine { line, position } => ErrorView::TmcdBadLine {
                line: line@,
                position: position as int,
            },
            Error::TmcdMissingKey { key, line } => ErrorView::TmcdMissingKey {
                key: key@,
                line: line@,
            },
            Error::TmcdDuplicateUser { login } => ErrorView::TmcdDuplicateUser { login: login@ },
            Error::TmcdDuplicateGroup { name } => ErrorView::TmcdDuplicateGroup { name: name@ },
            Error::TmcdMissingDirective { line } => ErrorView::TmcdMissingDirective { line: line@ },
            Error::TmcdUnknownDirective { directive, line } => ErrorView::TmcdUnknownDirective {
                directive: directive@,
                line: line@,
            },
            Error::TmcdBadValue { key, value } => ErrorView::TmcdBadValue {
                key: key@,
                value: value@,
            },
            Error::TmcdNoSuchUser { login } => ErrorView::TmcdNoSuchUser { login: login@ },
            Error::TmcdGeniBlankResponse => ErrorView::TmcdGeniBlankResponse,
            Error::TmcdGeniError => ErrorView::TmcdGeniError,
            Error::GeniParseError { error } => ErrorView::GeniParseError { error: error@ },
            Error::GeniNoSuchNode => ErrorView::GeniNoSuchNode,
            Error::DuplicateUid { login, uid, existing_login } => ErrorView::DuplicateUid {
                login: login@,
                uid,
                existing_login: existing_login@,
            },
            Error::InvalidShellsFile => ErrorView::InvalidShellsFile,
            Error::UserCreation => ErrorView::UserCreation,
            Error::GroupCreation => ErrorView::GroupCreation,
            Error::UserUpdate => ErrorView::UserUpdate,
            Error::Mount => ErrorView::Mount,
            Error::UidChangeUnsupported => ErrorView::UidChangeUnsupported,
            Error::GidChangeUnsupported => ErrorView::GidChangeUnsupported,
            Error::UnmetSystemRequirements => ErrorView::UnmetSystemRequirements,
            Error::EmulabBossSrvNotAvailable => ErrorView::EmulabBossSrvNotAvailable,
            Error::EmulabBossUnresolvable { host, port } => ErrorView::EmulabBossUnresolvable {
                host: host@,
                port,
            },
            Error::IoError { error } => ErrorView::IoError { error: error@ },
            Error::NixError { error } => ErrorView::NixError { error: error@ },
            Error::DnsLookupError { error } => ErrorView::DnsLookupError { error: error@ },
        }
    }
}

} // verus!
