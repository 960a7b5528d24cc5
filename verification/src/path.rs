//! Unix file system paths, as the bytes that they are made of.
use crate::http::{text_in, text_of_bytes};
use vstd::prelude::*;
use vstd::utf8::encode_utf8;

verus! {

/// The byte between the components of a path: a slash.
pub const SEPARATOR: u8 = 47;

/// A path. Its bytes need not be valid UTF-8.
pub struct FsPath {
    pub bytes: Vec<u8>,
}

impl View for FsPath {
    type V = Seq<u8>;

    open spec fn view(&self) -> Seq<u8> {
        self.bytes@
    }
}

/// What an optional path holds.
pub open spec fn optional_path(p: Option<FsPath>) -> Option<Seq<u8>> {
    match p {
        Some(p) => Some(p@),
        None => None,
    }
}

/// The root directory.
pub open spec fn root() -> Seq<u8> {
    seq![SEPARATOR]
}

/// `part` taken relative to `base`: an absolute part stands for itself; any other follows the
/// base, with a separator between them unless the base is empty or ends with one.
pub open spec fn joined(base: Seq<u8>, part: Seq<u8>) -> Seq<u8> {
    if part.len() > 0 && part[0] == SEPARATOR {
        part
    } else if base.len() == 0 || base.last() == SEPARATOR {
        base + part
    } else {
        base + seq![SEPARATOR] + part
    }
}

impl Clone for FsPath {
    fn clone(&self) -> (p: Self)
        ensures
            p@ == self@,
    {
        let mut bytes: Vec<u8> = Vec::new();
        bytes.extend_from_slice(self.bytes.as_slice());
        assert(bytes@ =~= self.bytes@);
        FsPath { bytes }
    }
}

impl FsPath {
    /// The path that `text` spells.
    pub fn from_text(text: &str) -> (p: Self)
        ensures
            p@ == encode_utf8(text@),
    {
        let mut bytes: Vec<u8> = Vec::new();
        bytes.extend_from_slice(text.as_bytes());
        assert(bytes@ =~= encode_utf8(text@));
        FsPath { bytes }
    }

    /// The root directory.
    pub fn root() -> (p: Self)
        ensures
            p@ == root(),
    {
        let mut bytes: Vec<u8> = Vec::new();
        bytes.push(SEPARATOR);
        assert(bytes@ =~= root());
        FsPath { bytes }
    }

    /// `part` taken relative to this path.
    pub fn join(&self, part: &str) -> (p: Self)
        ensures
            p@ == joined(self@, encode_utf8(part@)),
    {
        let part_bytes = text_bytes(part);
        if part_bytes.len() > 0 && part_bytes[0] == SEPARATOR {
            return FsPath { bytes: part_bytes };
        }
        let mut p = self.clone();
        if p.bytes.len() > 0 && p.bytes[p.bytes.len() - 1] != SEPARATOR {
            p.bytes.push(SEPARATOR);
        }
        p.bytes.extend_from_slice(part_bytes.as_slice());
        assert(p.bytes@ =~= joined(self@, encode_utf8(part@)));
        p
    }

    /// The path as text to show. Bytes that are not valid UTF-8 are replaced.
    pub fn display(&self) -> (s: String)
        ensures
            s@ == text_in(self@),
    {
        text_of_bytes(self.bytes.as_slice())
    }
}

/// The UTF-8 bytes of `text`.
fn text_bytes(text: &str) -> (bytes: Vec<u8>)
    ensures
        bytes@ == encode_utf8(text@),
{
    FsPath::from_text(text).bytes
}

/// A part that starts with a slash stands for itself. Any other follows the base, whole and
/// unchanged, with exactly one slash between them; none is put after an empty base.
pub proof fn law_parts_are_joined_by_one_slash(base: Seq<u8>, part: Seq<u8>)
    ensures
        root() == seq![47u8],
        part.len() > 0 && part[0] == 47 ==> joined(base, part) == part,
        !(part.len() > 0 && part[0] == 47) ==> {
            &&& base.len() == 0 ==> joined(base, part) == part
            &&& base.len() > 0 && base.last() == 47 ==> joined(base, part) == base + part
            &&& base.len() > 0 && base.last() != 47 ==> joined(base, part) == base.push(47u8) + part
        },
{
    if base.len() == 0 {
        assert(base + part =~= part);
    }
    assert(base + seq![SEPARATOR] + part =~= base.push(47u8) + part);
}

/// What is seen of a path is its bytes.
pub proof fn law_paths_are_seen_as_their_bytes(p: FsPath)
    ensures
        p@ == p.bytes@,
        optional_path(Some(p)) == Some(p.bytes@),
        optional_path(None) is None,
{
}

} // verus!
