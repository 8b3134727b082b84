//! The frame reader's rules: how the name and path fields that follow the
//! header are checked and assembled into a `TransferRequest`.
//!
//! The byte-level reads happen at the socket; this module decides whether a
//! read satisfied the frame (`check_exact_read`), whether the transmitted
//! name and directory are safe to use as a destination (`valid_name`,
//! `valid_dir`), and what path the destination file gets (`destination_path`).

use crate::header::HeaderData;
use vstd::prelude::*;

verus! {

/// Why the fields after the header were rejected.
#[derive(Clone, Copy, PartialEq, Eq, Debug)]
pub enum FrameError {
    /// The stream ended before the byte count the header declared.
    TruncatedFrame,
    /// The file name is empty, contains a path separator, or is a `..` segment.
    UnsafeName,
    /// The destination directory is absolute or walks upward with a `..` segment.
    UnsafePath,
}

/// ASCII `/`.
pub const SEP: u8 = 47;

/// ASCII `\`, rejected as well so a name stays a single segment on every platform.
pub const BACKSLASH: u8 = 92;

/// ASCII `.`.
pub const DOT: u8 = 46;

/// A transmitted file name is acceptable when it is nonempty, contains no
/// path separator of either kind, and is not the upward segment `..`.
pub open spec fn spec_valid_name(s: Seq<u8>) -> bool {
    &&& s.len() > 0
    &&& forall|i: int| 0 <= i < s.len() ==> s[i] != SEP && s[i] != BACKSLASH
    &&& s != seq![DOT, DOT]
}

/// There is a `..` segment at position `i`: two dots delimited by the
/// string's ends or by separators.
pub open spec fn spec_dotdot_at(s: Seq<u8>, i: int) -> bool {
    &&& 0 <= i
    &&& i + 2 <= s.len()
    &&& s[i] == DOT
    &&& s[i + 1] == DOT
    &&& (i == 0 || s[i - 1] == SEP)
    &&& (i + 2 == s.len() || s[i + 2] == SEP)
}

/// A transmitted destination directory is acceptable when it is empty, or
/// relative (no leading separator), free of backslashes, and free of `..`
/// segments, so the resolved path cannot escape the receive root.
pub open spec fn spec_valid_dir(s: Seq<u8>) -> bool {
    s.len() == 0 || {
        &&& s[0] != SEP
        &&& forall|i: int| 0 <= i < s.len() ==> s[i] != BACKSLASH
        &&& forall|i: int| !spec_dotdot_at(s, i)
    }
}

/// Checks a transmitted file name against `spec_valid_name`.
pub fn valid_name(name: &Vec<u8>) -> (r: bool)
    ensures
        r == spec_valid_name(name@),
{
    if name.len() == 0 {
        return false;
    }
    let n = name.len();
    let mut i: usize = 0;
    while i < n
        invariant
            n == name@.len(),
            0 <= i <= n,
            forall|j: int| 0 <= j < i ==> name@[j] != SEP && name@[j] != BACKSLASH,
        decreases n - i,
    {
        if name[i] == SEP || name[i] == BACKSLASH {
            return false;
        }
        i += 1;
    }
    if name.len() == 2 && name[0] == DOT && name[1] == DOT {
        proof {
            assert(name@ =~= seq![DOT, DOT]);
        }
        return false;
    }
    proof {
        assert(name@ != seq![DOT, DOT]) by {
            if name@ == seq![DOT, DOT] {
                assert(name@.len() == 2 && name@[0] == DOT && name@[1] == DOT);
            }
        }
    }
    true
}

/// Checks a transmitted destination directory against `spec_valid_dir`.
pub fn valid_dir(dir: &Vec<u8>) -> (r: bool)
    ensures
        r == spec_valid_dir(dir@),
{
    let n = dir.len();
    if n == 0 {
        return true;
    }
    if dir[0] == SEP {
        return false;
    }
    let mut i: usize = 0;
    while i < n
        invariant
            n == dir@.len(),
            0 <= i <= n,
            forall|j: int| 0 <= j < i ==> dir@[j] != BACKSLASH,
            forall|j: int| j < i ==> !spec_dotdot_at(dir@, j),
        decreases n - i,
    {
        if dir[i] == BACKSLASH {
            return false;
        }
        if dir[i] == DOT && i + 1 < n && dir[i + 1] == DOT && (i == 0 || dir[i - 1] == SEP) && (i + 2
            == n || dir[i + 2] == SEP) {
            proof {
                assert(spec_dotdot_at(dir@, i as int));
            }
            return false;
        }
        proof {
            assert(!spec_dotdot_at(dir@, i as int));
        }
        i += 1;
    }
    proof {
        assert forall|j: int| !spec_dotdot_at(dir@, j) by {
            if j >= i {
                assert(j + 2 > dir@.len());
            }
        }
    }
    true
}

/// What the frame reader hands the transfer engine: the checked destination
/// and the size the header declared (advisory, for progress only).
pub struct TransferRequest {
    pub destination_name: Vec<u8>,
    pub destination_dir: Option<Vec<u8>>,
    pub declared_size: u64,
}

impl TransferRequest {
    /// A request only ever holds a checked name, and a directory only when
    /// one was transmitted and checked.
    pub open spec fn wf(self) -> bool {
        &&& spec_valid_name(self.destination_name@)
        &&& (self.destination_dir matches Some(d) ==> d@.len() > 0 && spec_valid_dir(d@))
    }
}

/// The frame rule for an exact read: a transfer's name, path and header
/// fields must arrive whole; anything less ends the connection as truncated.
pub fn check_exact_read(wanted: usize, got: usize) -> (r: Result<(), FrameError>)
    ensures
        r is Ok <==> got == wanted,
        r is Err ==> r == Err::<(), FrameError>(FrameError::TruncatedFrame),
{
    if got == wanted {
        Ok(())
    } else {
        Err(FrameError::TruncatedFrame)
    }
}

/// Assembles the decoded header and the transmitted name and path bytes into
/// a `TransferRequest`, rejecting an unsafe name or directory.
pub fn make_request(h: &HeaderData, name: Vec<u8>, path: Vec<u8>) -> (r: Result<
    TransferRequest,
    FrameError,
>)
    requires
        h.wf(),
        name@.len() == h.name_len,
        path@.len() == h.path_len,
    ensures
        !spec_valid_name(name@) ==> r == Err::<TransferRequest, FrameError>(FrameError::UnsafeName),
        spec_valid_name(name@) && !spec_valid_dir(path@) ==> r == Err::<
            TransferRequest,
            FrameError,
        >(FrameError::UnsafePath),
        spec_valid_name(name@) && spec_valid_dir(path@) ==> (r matches Ok(req) && req.wf()
            && req.destination_name@ == name@ && req.declared_size == h.file_size && (
        if path@.len() == 0 {
            req.destination_dir is None
        } else {
            req.destination_dir matches Some(d) && d@ == path@
        })),
{
    if !valid_name(&name) {
        return Err(FrameError::UnsafeName);
    }
    if !valid_dir(&path) {
        return Err(FrameError::UnsafePath);
    }
    let destination_dir = if path.len() == 0 {
        None
    } else {
        Some(path)
    };
    Ok(TransferRequest { destination_name: name, destination_dir, declared_size: h.file_size })
}

/// The path the destination file is created at: the directory joined to the
/// name with a separator, or the bare name when no directory was transmitted.
pub fn destination_path(req: &TransferRequest) -> (r: Vec<u8>)
    ensures
        req.destination_dir matches Some(d) ==> r@ == d@ + seq![SEP] + req.destination_name@,
        req.destination_dir is None ==> r@ == req.destination_name@,
{
    let mut r: Vec<u8> = Vec::new();
    match &req.destination_dir {
        Some(d) => {
            r.extend_from_slice(d.as_slice());
            r.push(SEP);
            r.extend_from_slice(req.destination_name.as_slice());
            proof {
                assert(r@ =~= req.destination_dir->Some_0@ + seq![SEP] + req.destination_name@);
            }
        },
        None => {
            r.extend_from_slice(req.destination_name.as_slice());
            proof {
                assert(r@ =~= req.destination_name@);
            }
        },
    }
    r
}

} // verus!
