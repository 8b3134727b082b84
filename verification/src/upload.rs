//! The uploader's frame builder: everything the client sends ahead of the
//! file body, as one byte buffer. Opening the file and the socket, and the
//! writes themselves, happen outside this crate; the bytes they send are
//! fixed here.

use crate::header::{
    spec_encode, spec_magic_arr, build_header, encode, HeaderData, HEADER_LEN_V2, MAX_FRAME_LEN,
};
use vstd::prelude::*;

verus! {

broadcast use vstd::array::axiom_array_ext_equal;

/// The header an upload of `file_size` body bytes announces: version 1 for a
/// bare name, version 2 when a destination directory goes along.
pub open spec fn spec_upload_header(name: Seq<u8>, dir: Seq<u8>, file_size: u64) -> HeaderData {
    HeaderData {
        magic: spec_magic_arr(),
        version: if dir.len() == 0 {
            1u8
        } else {
            2u8
        },
        flags: 0,
        name_len: name.len() as u16,
        path_len: dir.len() as u16,
        file_size,
    }
}

/// Wire compatibility: the header an upload announces for any bounded,
/// nonempty name is well formed, and a receiver decodes it back exactly.
pub proof fn lemma_upload_header_decodes(name: Seq<u8>, dir: Seq<u8>, file_size: u64)
    requires
        name.len() > 0,
        HEADER_LEN_V2 + name.len() + dir.len() <= MAX_FRAME_LEN,
    ensures
        spec_upload_header(name, dir, file_size).wf(),
        crate::header::spec_decode(spec_encode(spec_upload_header(name, dir, file_size)))
            == Ok::<HeaderData, crate::header::HeaderError>(spec_upload_header(
            name,
            dir,
            file_size,
        )),
{
    let h = spec_upload_header(name, dir, file_size);
    assert(h.magic@ =~= crate::header::spec_magic());
    crate::header::lemma_header_round_trip(h);
}

/// Builds the frame an upload opens with: the encoded header, then the name
/// bytes, then — only when one is given — the directory bytes. The file body
/// follows on the wire, streamed chunk by chunk.
pub fn build_upload_frame(name: &Vec<u8>, dir: &Vec<u8>, file_size: u64) -> (r: Vec<u8>)
    requires
        name@.len() > 0,
        HEADER_LEN_V2 + name@.len() + dir@.len() <= MAX_FRAME_LEN,
    ensures
        r@ == spec_encode(spec_upload_header(name@, dir@, file_size)) + name@ + dir@,
{
    let h = build_header(name, file_size, dir);
    proof {
        assert(h.magic =~= spec_magic_arr()) by {
            assert(forall|i: int| 0 <= i < 4 ==> h.magic@[i] == spec_magic_arr()@[i]);
            assert(forall|i: int| 0 <= i < 4 ==> h.magic[i] == spec_magic_arr()[i]);
        }
        assert(h == spec_upload_header(name@, dir@, file_size));
    }
    let mut r = encode(&h);
    r.extend_from_slice(name.as_slice());
    r.extend_from_slice(dir.as_slice());
    proof {
        assert(r@ =~= spec_encode(spec_upload_header(name@, dir@, file_size)) + name@ + dir@);
    }
    r
}

} // verus!
