//! File system paths, as the bytes that the system sees.

use vstd::prelude::*;
use vstd::string::*;
use vstd::utf8::*;

verus! {

/// The path separator.
pub const SEPARATOR: u8 = 0x2f;

/// The byte of a component that stands for the directory itself.
pub const DOT: u8 = 0x2e;

/// A Unix path: a string of bytes in which a slash separates the components.
#[derive(Debug, PartialEq, Eq)]
pub struct FsPath {
    bytes: Vec<u8>,
}

impl View for FsPath {
    type V = Seq<u8>;

    closed spec fn view(&self) -> Seq<u8> {
        self.bytes@
    }
}

/// The view of an optional path.
pub open spec fn path_view(path: Option<FsPath>) -> Option<Seq<u8>> {
    match path {
        Some(p) => Some(p@),
        None => None,
    }
}

/// `name`, taken relative to `base`. An absolute name replaces the base.
pub open spec fn joined(base: Seq<u8>, name: Seq<u8>) -> Seq<u8> {
    if name.len() > 0 && name[0] == SEPARATOR {
        name
    } else if base.len() == 0 || base.last() == SEPARATOR {
        base + name
    } else {
        base + seq![SEPARATOR] + name
    }
}

/// Whether the first component of the path is a single dot.
pub open spec fn starts_at_dot(path: Seq<u8>) -> bool {
    path.len() > 0 && path[0] == DOT && (path.len() == 1 || path[1] == SEPARATOR)
}

/// The length of the root slash, or of the dot that a relative path starts at.
pub open spec fn lead_len(path: Seq<u8>) -> nat {
    if path.len() > 0 && (path[0] == SEPARATOR || starts_at_dot(path)) {
        1
    } else {
        0
    }
}

/// Where the last component begins, looking back no further than `lead`.
pub open spec fn last_start(path: Seq<u8>, lead: nat) -> nat
    decreases path.len(),
{
    if path.len() <= lead {
        lead
    } else if path.last() == SEPARATOR {
        path.len()
    } else {
        last_start(path.drop_last(), lead)
    }
}

/// `path` without its last component and the slash in front of that.
pub open spec fn without_last(path: Seq<u8>, lead: nat) -> Seq<u8> {
    let at = last_start(path, lead);
    path.take(if at > lead {
        at - 1
    } else {
        lead as int
    })
}

/// Whether the last component says nothing: it is empty, or a single dot.
pub open spec fn last_is_blank(path: Seq<u8>, lead: nat) -> bool {
    let at = last_start(path, lead);
    at == path.len() || (at + 1 == path.len() && path[at as int] == DOT)
}

/// `path` without the components at its end that say nothing.
pub open spec fn without_blanks(path: Seq<u8>, lead: nat) -> Seq<u8>
    decreases path.len(),
{
    proof {
        lemma_last_start_bounds(path, lead);
    }
    if path.len() > lead && last_is_blank(path, lead) {
        without_blanks(without_last(path, lead), lead)
    } else {
        path
    }
}

/// The last component of a path begins within it, behind a slash unless it is the first.
pub proof fn lemma_last_start_bounds(path: Seq<u8>, lead: nat)
    ensures
        lead <= last_start(path, lead),
        path.len() >= lead ==> last_start(path, lead) <= path.len(),
        path.len() >= lead && last_start(path, lead) > lead ==> path[last_start(path, lead) - 1]
            == SEPARATOR,
    decreases path.len(),
{
    if path.len() > lead && path.last() != SEPARATOR {
        lemma_last_start_bounds(path.drop_last(), lead);
    }
}

/// The directory that holds the last component of `path`: what is left without that
/// component, or nothing where the path is empty or the root.
pub open spec fn parent_of(path: Seq<u8>) -> Option<Seq<u8>> {
    let lead = lead_len(path);
    let named = without_blanks(path, lead);
    if named.len() > lead {
        Some(without_blanks(without_last(named, lead), lead))
    } else if starts_at_dot(path) {
        Some(Seq::empty())
    } else {
        None
    }
}

/// What `String::from_utf8_lossy` makes of a string of bytes.
pub uninterp spec fn lossy_text(bytes: Seq<u8>) -> Seq<char>;

/// Calls `String::from_utf8_lossy`. Its result depends on the bytes alone: it is named
/// `lossy_text`. Where the bytes are valid UTF-8 it is the text that they encode. Which
/// replacement characters stand for invalid bytes is left unsaid.
#[verifier::external_body]
pub(crate) fn text_of_bytes(bytes: &[u8]) -> (res: String)
    ensures
        res@ == lossy_text(bytes@),
        valid_utf8(bytes@) ==> res@ == decode_utf8(bytes@),
{
    String::from_utf8_lossy(bytes).into_owned()
}

impl FsPath {
    /// The path made of these bytes.
    pub fn from_bytes(bytes: Vec<u8>) -> (res: FsPath)
        ensures
            res@ == bytes@,
    {
        FsPath { bytes }
    }

    /// The path that this text writes down.
    pub fn from_text(text: &str) -> (res: FsPath)
        ensures
            res@ == encode_utf8(text@),
    {
        FsPath { bytes: text.as_bytes_vec() }
    }

    /// The bytes of the path.
    pub fn as_bytes(&self) -> (res: &[u8])
        ensures
            res@ == self@,
    {
        self.bytes.as_slice()
    }

    /// The path that `name` stands for when it is taken relative to this one.
    pub fn join(&self, name: &str) -> (res: FsPath)
        ensures
            res@ == joined(self@, encode_utf8(name@)),
    {
        let tail = name.as_bytes_vec();
        if tail.len() > 0 && tail[0] == SEPARATOR {
            return FsPath { bytes: tail };
        }
        let mut bytes = self.bytes.clone();
        assert(bytes@ =~= self.bytes@);
        if bytes.len() > 0 && bytes[bytes.len() - 1] != SEPARATOR {
            bytes.push(SEPARATOR);
        }
        let mut tail = tail;
        bytes.append(&mut tail);
        FsPath { bytes }
    }

    /// The directory that holds the last component, if the path has one.
    pub fn parent(&self) -> (res: Option<FsPath>)
        ensures
            path_view(res) == parent_of(self@),
    {
        let at_dot = self.bytes.len() > 0 && self.bytes[0] == DOT && (self.bytes.len() == 1
            || self.bytes[1] == SEPARATOR);
        let lead: usize = if self.bytes.len() > 0 && (self.bytes[0] == SEPARATOR || at_dot) {
            1
        } else {
            0
        };
        let ghost whole = self.bytes@;
        assert(whole.take(whole.len() as int) == whole);
        let named: usize = blanks_bound(&self.bytes, self.bytes.len(), lead);
        if named > lead {
            let at: usize = last_bound(&self.bytes, named, lead);
            let cut: usize = if at > lead {
                at - 1
            } else {
                lead
            };
            assert(whole.take(named as int).take(cut as int) == whole.take(cut as int));
            let end: usize = blanks_bound(&self.bytes, cut, lead);
            let mut bytes = self.bytes.clone();
            assert(bytes@ =~= whole);
            bytes.truncate(end);
            Some(FsPath { bytes })
        } else if at_dot {
            Some(FsPath { bytes: Vec::new() })
        } else {
            None
        }
    }

    /// The path as text, with replacement characters for what is not UTF-8.
    pub fn display(&self) -> (res: String)
        ensures
            res@ == lossy_text(self@),
            valid_utf8(self@) ==> res@ == decode_utf8(self@),
    {
        text_of_bytes(self.bytes.as_slice())
    }
}

impl Clone for FsPath {
    fn clone(&self) -> (res: FsPath)
        ensures
            res@ == self@,
    {
        let bytes = self.bytes.clone();
        assert(bytes@ =~= self.bytes@);
        FsPath { bytes }
    }
}

/// Where the last component of the first `len` bytes begins.
fn last_bound(bytes: &Vec<u8>, len: usize, lead: usize) -> (at: usize)
    requires
        lead <= len <= bytes@.len(),
    ensures
        at == last_start(bytes@.take(len as int), lead as nat),
        lead <= at <= len,
        at > lead ==> bytes@[at - 1] == SEPARATOR,
{
    let mut at: usize = len;
    while at > lead && bytes[at - 1] != SEPARATOR
        invariant
            lead <= at <= len <= bytes@.len(),
            last_start(bytes@.take(len as int), lead as nat) == last_start(
                bytes@.take(at as int),
                lead as nat,
            ),
        decreases at,
    {
        assert(bytes@.take(at as int).drop_last() == bytes@.take(at - 1));
        at = at - 1;
    }
    at
}

/// How much of the first `len` bytes is left without the components at the end that say
/// nothing.
fn blanks_bound(bytes: &Vec<u8>, len: usize, lead: usize) -> (end: usize)
    requires
        lead <= len <= bytes@.len(),
    ensures
        lead <= end <= len,
        bytes@.take(end as int) == without_blanks(bytes@.take(len as int), lead as nat),
{
    let mut end: usize = len;
    while end > lead
        invariant
            lead <= end <= len <= bytes@.len(),
            without_blanks(bytes@.take(len as int), lead as nat) == without_blanks(
                bytes@.take(end as int),
                lead as nat,
            ),
        ensures
            lead <= end <= len,
            bytes@.take(end as int) == without_blanks(bytes@.take(len as int), lead as nat),
        decreases end,
    {
        let at: usize = last_bound(bytes, end, lead);
        if at == end || (at + 1 == end && bytes[at] == DOT) {
            let cut: usize = if at > lead {
                at - 1
            } else {
                lead
            };
            assert(bytes@.take(end as int).take(cut as int) == bytes@.take(cut as int));
            end = cut;
        } else {
            break;
        }
    }
    end
}

} // verus!
