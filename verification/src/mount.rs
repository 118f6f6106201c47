//! Remote file systems that the controller asks the node to mount.

use vstd::prelude::*;
use vstd::string::StringExecFns;
use vstd::string::StringSliceAdditionalSpecFns;
use vstd::utf8::*;
use crate::text::views;
use crate::applet::automount::BackendConfig;
use crate::error::{Error, ErrorView};
use crate::text::{bytes_of, lemma_ascii_byte_boundaries, slice_str, text_of};

verus! {

/// An NFS mount: what to mount, and where.
#[derive(Debug, Clone)]
pub struct NfsMount {
    /// The remote file system, as `host:/path`.
    remote: String,
    /// The local mount point, an absolute path.
    local: String,
}

/// The mathematical value of an [`NfsMount`].
pub ghost struct NfsMountView {
    pub remote: Seq<char>,
    pub local: Seq<char>,
}

impl View for NfsMount {
    type V = NfsMountView;

    closed spec fn view(&self) -> NfsMountView {
        NfsMountView { remote: self.remote@, local: self.local@ }
    }
}

/// The values of a list of mounts.
pub open spec fn mount_views(mounts: Seq<NfsMount>) -> Seq<NfsMountView> {
    Seq::new(mounts.len(), |i: int| mounts[i]@)
}

impl NfsMount {
    /// A mount of `remote` at `local`.
    pub fn new(remote: String, local: String) -> (r: Self)
        ensures
            r@ == (NfsMountView { remote: remote@, local: local@ }),
    {
        Self { remote, local }
    }

    /// The remote file system.
    pub fn remote(&self) -> (r: &str)
        ensures
            r@ == self@.remote,
    {
        self.remote.as_str()
    }

    /// The local mount point.
    pub fn local(&self) -> (r: &str)
        ensures
            r@ == self@.local,
    {
        self.local.as_str()
    }

    /// A copy of the mount.
    pub fn duplicate(&self) -> (r: NfsMount)
        ensures
            r@ == self@,
    {
        NfsMount { remote: self.remote.clone(), local: self.local.clone() }
    }
}

/// The byte that separates the parts of a path.
pub const SLASH: u8 = 0x2f;

/// Whether a byte stands for itself in the name of a unit: a letter, a
/// digit, a colon or an underscore.
pub open spec fn is_plain(b: u8) -> bool {
    (0x30 <= b <= 0x39) || (0x41 <= b <= 0x5a) || (0x61 <= b <= 0x7a) || b == 0x3a || b == 0x5f
}

/// The character of a hexadecimal digit, in lower case.
pub open spec fn hex_char(d: int) -> char {
    if d == 0 {
        '0'
    } else if d == 1 {
        '1'
    } else if d == 2 {
        '2'
    } else if d == 3 {
        '3'
    } else if d == 4 {
        '4'
    } else if d == 5 {
        '5'
    } else if d == 6 {
        '6'
    } else if d == 7 {
        '7'
    } else if d == 8 {
        '8'
    } else if d == 9 {
        '9'
    } else if d == 10 {
        'a'
    } else if d == 11 {
        'b'
    } else if d == 12 {
        'c'
    } else if d == 13 {
        'd'
    } else if d == 14 {
        'e'
    } else {
        'f'
    }
}

/// A byte written as `\x` and two hexadecimal digits.
pub open spec fn escaped(b: u8) -> Seq<char> {
    seq!['\\', 'x', hex_char(b as int / 16), hex_char(b as int % 16)]
}

/// Whether every byte of the path before `i` is a slash.
pub open spec fn only_slashes_before(path: Seq<u8>, i: int) -> bool {
    forall|j: int| 0 <= j < i ==> path[j] == SLASH
}

/// Whether some byte of the path after `i` is not a slash.
pub open spec fn name_after(path: Seq<u8>, i: int) -> bool {
    exists|j: int| i < j < path.len() && path[j] != SLASH
}

/// What the byte at `i` of a path becomes in the name of the unit of that
/// path. A slash between two parts of the path becomes a dash, and any other
/// slash nothing; a plain byte stands for itself, and so does a dot that is
/// not the first byte of the first part; every other byte is escaped.
pub open spec fn piece(path: Seq<u8>, i: int) -> Seq<char> {
    let b = path[i];
    if b == SLASH {
        if i > 0 && path[i - 1] != SLASH && name_after(path, i) {
            seq!['-']
        } else {
            Seq::empty()
        }
    } else if is_plain(b) || (b == 0x2e && !only_slashes_before(path, i)) {
        seq![b as char]
    } else {
        escaped(b)
    }
}

/// What the first `n` bytes of a path become in the name of its unit.
pub open spec fn pieces(path: Seq<u8>, n: int) -> Seq<char>
    decreases n,
{
    if n <= 0 {
        Seq::empty()
    } else {
        pieces(path, n - 1) + piece(path, n - 1)
    }
}

/// The name of the mount unit of a mount point, as the unit manager
/// derives it from the path: the parts of the path joined by dashes, with
/// every byte escaped that is not plain, or a single dash for the root; then
/// the suffix `.mount`.
pub open spec fn unit_name_of(local: Seq<char>) -> Seq<char> {
    let path = bytes_of(local);
    let stem = pieces(path, path.len() as int);
    if stem.len() == 0 {
        "-.mount"@
    } else {
        stem + ".mount"@
    }
}

/// The text of the mount unit of a mount: an NFS mount of the remote file
/// system at the local mount point.
pub open spec fn unit_text_of(mount: NfsMountView) -> Seq<char> {
    "[Unit]\nDescription=NFS mount of "@ + mount.remote + "\n\n[Mount]\nWhat="@ + mount.remote
        + "\nWhere="@ + mount.local
        + "\nType=nfs\n\n[Install]\nWantedBy=multi-user.target\n"@
}

/// The text of a hexadecimal digit.
fn hex_str(d: u8) -> (r: &'static str)
    requires
        d < 16,
    ensures
        r@ == seq![hex_char(d as int)],
{
    proof {
        reveal_strlit("0");
        reveal_strlit("1");
        reveal_strlit("2");
        reveal_strlit("3");
        reveal_strlit("4");
        reveal_strlit("5");
        reveal_strlit("6");
        reveal_strlit("7");
        reveal_strlit("8");
        reveal_strlit("9");
        reveal_strlit("a");
        reveal_strlit("b");
        reveal_strlit("c");
        reveal_strlit("d");
        reveal_strlit("e");
        reveal_strlit("f");
    }
    let r = if d == 0 {
        "0"
    } else if d == 1 {
        "1"
    } else if d == 2 {
        "2"
    } else if d == 3 {
        "3"
    } else if d == 4 {
        "4"
    } else if d == 5 {
        "5"
    } else if d == 6 {
        "6"
    } else if d == 7 {
        "7"
    } else if d == 8 {
        "8"
    } else if d == 9 {
        "9"
    } else if d == 10 {
        "a"
    } else if d == 11 {
        "b"
    } else if d == 12 {
        "c"
    } else if d == 13 {
        "d"
    } else if d == 14 {
        "e"
    } else {
        "f"
    };
    assert(r@ =~= seq![hex_char(d as int)]);
    r
}

/// A mount unit: the file that describes a mount to the unit manager.
#[derive(Debug)]
pub struct MountUnit {
    /// The name of the unit, which is also the name of its file within the
    /// unit directory.
    pub name: String,
    /// Everything that the file holds.
    pub text: String,
}

/// The runs of the unit manager's tool that activate a unit of the given
/// name: one that makes the manager read its units anew, and one that
/// starts the unit.
pub open spec fn activation_of(name: Seq<char>) -> Seq<Seq<Seq<char>>> {
    seq![seq!["daemon-reload"@], seq!["start"@, name]]
}

/// The backend that realizes mounts.
#[derive(Debug, Clone)]
pub enum Backend {
    /// The unit manager, with the directory in which its units are kept.
    Systemd(String),
}

impl Backend {
    /// The backend that the configuration chooses.
    pub fn new(backend: BackendConfig, unit_dir: &str) -> (r: Self)
        ensures
            r matches Backend::Systemd(dir) && dir@ == unit_dir@,
    {
        match backend {
            BackendConfig::Systemd => Backend::Systemd(unit_dir.to_owned()),
        }
    }

    /// The name of the tool by which the backend is asked to act.
    pub fn program(&self) -> (r: &'static str)
        ensures
            r@ == "systemctl"@,
    {
        match self {
            Backend::Systemd(_) => "systemctl",
        }
    }

    /// What the end of a run of the backend's tool means: success where it
    /// exited with status zero, else `Mount`.
    pub fn finished(&self, success: bool) -> (r: Result<(), Error>)
        ensures
            success ==> r is Ok,
            !success ==> (r matches Err(e) && e@ == ErrorView::Mount),
    {
        if success {
            Ok(())
        } else {
            Err(Error::Mount)
        }
    }
}

impl NfsMount {
    /// The name of the mount unit of the mount.
    pub fn unit_name(&self) -> (r: String)
        ensures
            r@ == unit_name_of(self@.local),
    {
        let local = self.local.as_str();
        let path = local.as_bytes();
        let n = path.len();
        // the position after the last byte that is not a slash
        let mut names_end: usize = 0;
        let mut i: usize = 0;
        while i < n
            invariant
                i <= n,
                n == path@.len(),
                names_end <= i,
                names_end > 0 ==> path@[names_end - 1] != SLASH,
                forall|j: int| names_end <= j < i ==> path@[j] == SLASH,
            decreases n - i,
        {
            if path[i] != SLASH {
                names_end = i + 1;
            }
            i += 1;
        }
        let mut name = String::new();
        let mut seen_name = false;
        let mut i: usize = 0;
        proof {
            encode_utf8_valid_utf8(local@);
        }
        while i < n
            invariant
                i <= n,
                n == path@.len(),
                path@ == bytes_of(local@),
                valid_utf8(path@),
                names_end <= n,
                names_end > 0 ==> path@[names_end - 1] != SLASH,
                forall|j: int| names_end <= j < n ==> path@[j] == SLASH,
                seen_name == !only_slashes_before(path@, i as int),
                name@ == pieces(path@, i as int),
            decreases n - i,
        {
            let b = path[i];
            proof {
                if i + 1 < names_end {
                    assert(path@[names_end - 1] != SLASH);
                }
                assert(name_after(path@, i as int) == (i + 1 < names_end)) by {
                    if i + 1 < names_end {
                        assert(i < names_end - 1 < path@.len() && path@[names_end - 1] != SLASH);
                    }
                }
                if only_slashes_before(path@, i as int) && b == SLASH {
                    assert(only_slashes_before(path@, i + 1));
                }
                if !only_slashes_before(path@, i as int) {
                    assert(!only_slashes_before(path@, i + 1));
                }
                if b != SLASH {
                    assert(!only_slashes_before(path@, i + 1));
                }
            }
            if b == SLASH {
                if i > 0 && path[i - 1] != SLASH && i + 1 < names_end {
                    proof {
                        reveal_strlit("-");
                        assert("-"@ =~= seq!['-']);
                    }
                    name.append("-");
                } else {
                    assert(name@ + Seq::<char>::empty() =~= name@);
                }
            } else if (0x30 <= b && b <= 0x39) || (0x41 <= b && b <= 0x5a) || (0x61 <= b && b
                <= 0x7a) || b == 0x3a || b == 0x5f || (b == 0x2e && seen_name) {
                proof {
                    lemma_ascii_byte_boundaries(path@, i as int);
                }
                let one = slice_str(local, i, i + 1);
                proof {
                    lemma_single_ascii(path@.subrange(i as int, i + 1));
                }
                name.append(one);
                seen_name = true;
            } else {
                proof {
                    reveal_strlit("\\x");
                    assert("\\x"@ =~= seq!['\\', 'x']);
                    assert(seq!['\\', 'x'] + seq![hex_char(b as int / 16)] + seq![
                        hex_char(b as int % 16),
                    ] =~= escaped(b));
                }
                let ghost before = name@;
                name.append("\\x");
                name.append(hex_str(b / 16));
                name.append(hex_str(b % 16));
                assert(name@ =~= before + escaped(b));
                seen_name = true;
            }
            i += 1;
        }
        if name.as_str().is_empty() {
            "-.mount".to_owned()
        } else {
            name.append(".mount");
            name
        }
    }

    /// The text of the mount unit of the mount.
    pub fn unit_text(&self) -> (r: String)
        ensures
            r@ == unit_text_of(self@),
    {
        let mut text = "[Unit]\nDescription=NFS mount of ".to_owned();
        text.append(self.remote.as_str());
        text.append("\n\n[Mount]\nWhat=");
        text.append(self.remote.as_str());
        text.append("\nWhere=");
        text.append(self.local.as_str());
        text.append("\nType=nfs\n\n[Install]\nWantedBy=multi-user.target\n");
        text
    }

    /// The mount unit that brings the mount about: the file to be written
    /// to the backend's unit directory.
    pub fn apply(&self, backend: &Backend) -> (r: MountUnit)
        ensures
            r.name@ == unit_name_of(self@.local),
            r.text@ == unit_text_of(self@),
    {
        match backend {
            Backend::Systemd(_) => MountUnit { name: self.unit_name(), text: self.unit_text() },
        }
    }
}

impl MountUnit {
    /// The arguments of the runs of the backend's tool that activate the
    /// unit once its file is written, in their order.
    pub fn activation(&self) -> (r: Vec<Vec<String>>)
        ensures
            r@.len() == 2,
            views(r@[0]@) == activation_of(self.name@)[0],
            views(r@[1]@) == activation_of(self.name@)[1],
    {
        let mut reload: Vec<String> = Vec::new();
        reload.push("daemon-reload".to_owned());
        let mut start: Vec<String> = Vec::new();
        start.push("start".to_owned());
        start.push(self.name.clone());
        let mut runs: Vec<Vec<String>> = Vec::new();
        proof {
            assert(views(reload@) =~= activation_of(self.name@)[0]);
            assert(views(start@) =~= activation_of(self.name@)[1]);
        }
        runs.push(reload);
        runs.push(start);
        runs
    }
}

/// A single byte below 0x80 is the text of one character, the one with the
/// number of the byte.
pub proof fn lemma_single_ascii(bytes: Seq<u8>)
    requires
        bytes.len() == 1,
        bytes[0] < 0x80,
    ensures
        text_of(bytes) == seq![bytes[0] as char],
{
    let b = bytes[0];
    let c = b as char;
    let chars = seq![c];
    assert(is_ascii_chars(chars));
    is_ascii_chars_encode_utf8(chars);
    assert(encode_utf8(chars) =~= bytes);
    encode_utf8_decode_utf8(chars);
}

} // verus!
