//! Client side of the controller protocol: one command per connection, a
//! line-oriented reply, and one reply in a binary frame.

pub mod discovery;
pub mod manifest;
pub mod parser;
pub mod reply;

use vstd::prelude::*;
use vstd::string::StringSliceAdditionalSpecFns;
use vstd::string::StrSliceExecFns;
use vstd::utf8::*;
use crate::error::{Error, ErrorView};
use crate::text::{bytes_of, lemma_ascii_byte_boundaries, parse_u16, read_u16, slice_str, text_of};

verus! {

/// The default controller port.
pub const TMCD_PORT: u16 = 7777;

/// The protocol version that every request announces.
pub const TMCD_VERSION: usize = 44;

/// A boss node: the controller's endpoint.
#[derive(Debug)]
pub enum BossNode {
    /// A host-port tuple.
    HostPort((String, u16)),
}

/// The mathematical value of a [`BossNode`].
pub ghost struct BossNodeView {
    pub host: Seq<char>,
    pub port: u16,
}

impl View for BossNode {
    type V = BossNodeView;

    open spec fn view(&self) -> BossNodeView {
        match *self {
            BossNode::HostPort(host_port) => BossNodeView { host: host_port.0@, port: host_port.1 },
        }
    }
}

/// The byte between a host and its port.
pub const COLON: u8 = 0x3a;

/// The position of the first colon at or after `from`, or the end of the
/// text where there is none.
pub open spec fn colon_from(text: Seq<u8>, from: int) -> int
    decreases text.len() - from,
{
    if 0 <= from < text.len() && text[from] != COLON {
        colon_from(text, from + 1)
    } else {
        from
    }
}

/// The endpoint that a text of the form `host` or `host:port` names.
///
/// Without a colon the text is the host, and the port is the default one.
/// With a colon, the host is what stands before the first one and must not
/// be empty, and what stands after it must be a port in decimal; any other
/// text with a colon is malformed.
pub open spec fn boss_of(spec: Seq<char>) -> Result<BossNodeView, ErrorView> {
    let bytes = bytes_of(spec);
    let colon = colon_from(bytes, 0);
    if colon >= bytes.len() {
        Ok(BossNodeView { host: spec, port: TMCD_PORT })
    } else {
        match read_u16(bytes.subrange(colon + 1, bytes.len() as int)) {
            Some(port) => if colon > 0 {
                Ok(BossNodeView { host: text_of(bytes.subrange(0, colon)), port })
            } else {
                Err(ErrorView::TmcdBadBossNode { host: spec })
            },
            None => Err(ErrorView::TmcdBadBossNode { host: spec }),
        }
    }
}

impl BossNode {
    /// The controller at `host`, on the default port.
    pub fn host(host: String) -> (r: Self)
        ensures
            r@ == (BossNodeView { host: host@, port: TMCD_PORT }),
    {
        Self::HostPort((host, TMCD_PORT))
    }

    /// The controller that a text of the form `host` or `host:port` names.
    /// Fails with `TmcdBadBossNode` on a text with a colon that is not of
    /// the second form.
    pub fn parse(spec: &str) -> (r: Result<Self, Error>)
        ensures
            match boss_of(spec@) {
                Ok(boss) => r matches Ok(b) && b@ == boss,
                Err(e) => r matches Err(error) && error@ == e,
            },
    {
        let bytes = spec.as_bytes();
        let n = bytes.len();
        let mut colon: usize = 0;
        while colon < n && bytes[colon] != COLON
            invariant
                colon <= n,
                n == bytes@.len(),
                colon_from(bytes@, 0) == colon_from(bytes@, colon as int),
            decreases n - colon,
        {
            colon += 1;
        }
        if colon >= n {
            return Ok(Self::host(spec.to_owned()));
        }
        proof {
            encode_utf8_valid_utf8(spec@);
            lemma_ascii_byte_boundaries(bytes@, colon as int);
            is_char_boundary_start_end_of_seq(bytes@);
        }
        let port_text = slice_str(spec, colon + 1, n);
        match parse_u16(port_text) {
            Some(port) => {
                if colon > 0 {
                    Ok(Self::HostPort((slice_str(spec, 0, colon).to_owned(), port)))
                } else {
                    Err(Error::TmcdBadBossNode { host: spec.to_owned() })
                }
            },
            None => Err(Error::TmcdBadBossNode { host: spec.to_owned() }),
        }
    }
}

/// The node allocation status.
#[derive(Debug, Clone)]
pub struct AllocationStatus {
    /// The experiment that the node is allocated to.
    pub experiment: String,
    /// The nickname of the node within the experiment.
    pub node_name: String,
}

/// The mathematical value of an [`AllocationStatus`].
pub ghost struct AllocationStatusView {
    pub experiment: Seq<char>,
    pub node_name: Seq<char>,
}

impl View for AllocationStatus {
    type V = AllocationStatusView;

    open spec fn view(&self) -> AllocationStatusView {
        AllocationStatusView { experiment: self.experiment@, node_name: self.node_name@ }
    }
}

/// Current state of the system.
#[derive(Debug, Clone, Copy, PartialEq, Eq, Structural)]
pub enum State {
    /// The system is up.
    Up,
    /// The system is being set up.
    Setup,
    /// The system is (being) shut down.
    Shutdown,
}

impl State {
    /// The word by which the controller knows the state.
    pub open spec fn word(self) -> Seq<char> {
        match self {
            State::Up => "ISUP"@,
            State::Setup => "MFSSETUP"@,
            State::Shutdown => "SHUTDOWN"@,
        }
    }

    /// The word by which the controller knows the state.
    pub fn as_ref(&self) -> (r: &'static str)
        ensures
            r@ == self.word(),
    {
        match self {
            State::Up => "ISUP",
            State::Setup => "MFSSETUP",
            State::Shutdown => "SHUTDOWN",
        }
    }
}

/// The bytes that every request starts with: the version and a space.
pub open spec fn request_prefix() -> Seq<u8> {
    bytes_of("VERSION=44 "@)
}

/// A command for the controller.
pub struct Command {
    bytes: Vec<u8>,
}

impl View for Command {
    type V = Seq<u8>;

    /// The bytes of the request so far.
    closed spec fn view(&self) -> Seq<u8> {
        self.bytes@
    }
}

impl Command {
    /// Create a new command: the version, a space and the command's name.
    pub fn new(command: &str) -> (r: Self)
        ensures
            r@ == request_prefix() + bytes_of(command@),
    {
        let mut bytes = "VERSION=44 ".as_bytes_vec();
        let mut name = command.as_bytes_vec();
        bytes.append(&mut name);
        Self { bytes }
    }

    /// Add an argument: a space and the argument.
    pub fn arg(self, arg: &str) -> (r: Self)
        ensures
            r@ == self@ + seq![0x20u8] + bytes_of(arg@),
    {
        let mut bytes = self.bytes;
        bytes.push(0x20);
        let mut more = arg.as_bytes_vec();
        bytes.append(&mut more);
        Self { bytes }
    }

    /// Finalize the command, returning the bytes to be sent: the request
    /// and the space that the controller expects after it.
    pub fn finalize(self) -> (r: Vec<u8>)
        ensures
            r@ == self@ + seq![0x20u8],
    {
        let mut bytes = self.bytes;
        bytes.push(0x20);
        bytes
    }
}

} // verus!
