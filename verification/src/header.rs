//! The wire header codec: the fixed-size, versioned binary header that
//! precedes every transfer, its validity invariants, and the big-endian
//! encoding and decoding of its fields.
//!
//! Layout on the wire (all multi-byte fields big-endian):
//! version 1 (16 bytes): `magic[0:4] | version[4] | flags[5] | name_len[6:8] | file_size[8:16]`
//! version 2 (18 bytes): `magic[0:4] | version[4] | flags[5] | name_len[6:8] | path_len[8:10] | file_size[10:18]`

use vstd::prelude::*;

verus! {

/// Byte length of a version-1 header.
pub const HEADER_LEN_V1: usize = 16;

/// Byte length of a version-2 header.
pub const HEADER_LEN_V2: usize = 18;

/// Upper bound on header plus name plus path, so that attacker-controlled
/// length fields can never force an unbounded allocation.
pub const MAX_FRAME_LEN: usize = 65536;

/// The four magic bytes, ASCII "FT01", that open every header.
pub open spec fn spec_magic() -> Seq<u8> {
    seq![70u8, 84u8, 48u8, 49u8]
}

/// The magic bytes as the array stored in a decoded header.
pub open spec fn spec_magic_arr() -> [u8; 4] {
    [70u8, 84u8, 48u8, 49u8]
}

/// A decoded protocol header. `path_len` is carried on the wire only by
/// version 2; a version-1 header always holds `path_len == 0`.
#[derive(Clone, Copy, PartialEq, Eq, Debug)]
pub struct HeaderData {
    pub magic: [u8; 4],
    pub version: u8,
    pub flags: u8,
    pub name_len: u16,
    pub path_len: u16,
    pub file_size: u64,
}

/// Why a byte buffer failed to decode as a header.
#[derive(Clone, Copy, PartialEq, Eq, Debug)]
pub enum HeaderError {
    /// The first four bytes are not the expected magic.
    UnsupportedMagic,
    /// The version byte names a revision this library does not know.
    UnsupportedVersion,
    /// The buffer is shorter than the declared version requires, the
    /// reserved flags byte is nonzero, or the length fields exceed the
    /// frame bound.
    MalformedHeader,
}

/// Header length demanded by a version byte; meaningful for versions 1 and 2.
pub open spec fn spec_header_len(version: u8) -> int {
    if version == 1 {
        HEADER_LEN_V1 as int
    } else {
        HEADER_LEN_V2 as int
    }
}

impl HeaderData {
    /// A header is well formed when its magic and reserved bytes are right,
    /// its version is a known revision, a version-1 header carries no path,
    /// and the frame the lengths describe stays under the frame bound.
    pub open spec fn wf(self) -> bool {
        &&& self.magic@ == spec_magic()
        &&& (self.version == 1 || self.version == 2)
        &&& self.flags == 0
        &&& (self.version == 1 ==> self.path_len == 0)
        &&& spec_header_len(self.version) + self.name_len + self.path_len <= MAX_FRAME_LEN
    }

    /// Encoded size of this header in bytes.
    pub open spec fn spec_len(self) -> int {
        spec_header_len(self.version)
    }
}

/// Big-endian bytes of a 16-bit value.
pub open spec fn spec_u16_be(x: u16) -> Seq<u8> {
    seq![(x >> 8) as u8, x as u8]
}

/// The 16-bit value read back from two big-endian bytes.
pub open spec fn spec_u16_of_be(s: Seq<u8>) -> u16
    recommends
        s.len() == 2,
{
    (((s[0] as u16) << 8) | (s[1] as u16)) as u16
}

/// Big-endian bytes of a 64-bit value.
pub open spec fn spec_u64_be(x: u64) -> Seq<u8> {
    seq![
        (x >> 56) as u8,
        (x >> 48) as u8,
        (x >> 40) as u8,
        (x >> 32) as u8,
        (x >> 24) as u8,
        (x >> 16) as u8,
        (x >> 8) as u8,
        x as u8,
    ]
}

/// The 64-bit value read back from eight big-endian bytes.
pub open spec fn spec_u64_of_be(s: Seq<u8>) -> u64
    recommends
        s.len() == 8,
{
    (((s[0] as u64) << 56) | ((s[1] as u64) << 48) | ((s[2] as u64) << 40) | ((s[3] as u64) << 32)
        | ((s[4] as u64) << 24) | ((s[5] as u64) << 16) | ((s[6] as u64) << 8) | (s[7]
        as u64)) as u64
}

/// Reading back the big-endian bytes of a 16-bit value yields the value.
pub proof fn lemma_u16_be_round_trip(x: u16)
    ensures
        spec_u16_of_be(spec_u16_be(x)) == x,
{
    assert((((((x >> 8) as u8) as u16) << 8) | ((x as u8) as u16)) == x) by (bit_vector);
}

/// Reading back the big-endian bytes of a 64-bit value yields the value.
pub proof fn lemma_u64_be_round_trip(x: u64)
    ensures
        spec_u64_of_be(spec_u64_be(x)) == x,
{
    assert(((((x >> 56) as u8) as u64) << 56 | (((x >> 48) as u8) as u64) << 48 | (((x >> 40) as u8)
        as u64) << 40 | (((x >> 32) as u8) as u64) << 32 | (((x >> 24) as u8) as u64) << 24 | (((x
        >> 16) as u8) as u64) << 16 | (((x >> 8) as u8) as u64) << 8 | ((x as u8) as u64)) == x)
        by (bit_vector);
}

/// The byte sequence a well-formed header encodes to.
pub open spec fn spec_encode(h: HeaderData) -> Seq<u8> {
    let prefix = h.magic@ + seq![h.version, h.flags] + spec_u16_be(h.name_len);
    if h.version == 1 {
        prefix + spec_u64_be(h.file_size)
    } else {
        prefix + spec_u16_be(h.path_len) + spec_u64_be(h.file_size)
    }
}

/// What decoding a byte buffer yields: the header, or the first failure in
/// the order the protocol checks its parts (magic before anything else, then
/// version, then sizes).
pub open spec fn spec_decode(s: Seq<u8>) -> Result<HeaderData, HeaderError> {
    if s.len() < 4 {
        Err(HeaderError::MalformedHeader)
    } else if s.subrange(0, 4) != spec_magic() {
        Err(HeaderError::UnsupportedMagic)
    } else if s.len() < 5 {
        Err(HeaderError::MalformedHeader)
    } else if s[4] != 1 && s[4] != 2 {
        Err(HeaderError::UnsupportedVersion)
    } else if s.len() < spec_header_len(s[4]) {
        Err(HeaderError::MalformedHeader)
    } else if s[5] != 0 {
        Err(HeaderError::MalformedHeader)
    } else {
        let version = s[4];
        let name_len = spec_u16_of_be(s.subrange(6, 8));
        let path_len = if version == 2 {
            spec_u16_of_be(s.subrange(8, 10))
        } else {
            0u16
        };
        let file_size = if version == 2 {
            spec_u64_of_be(s.subrange(10, 18))
        } else {
            spec_u64_of_be(s.subrange(8, 16))
        };
        if spec_header_len(version) + name_len + path_len > MAX_FRAME_LEN {
            Err(HeaderError::MalformedHeader)
        } else {
            Ok(
                HeaderData {
                    magic: spec_magic_arr(),
                    version,
                    flags: s[5],
                    name_len,
                    path_len,
                    file_size,
                },
            )
        }
    }
}

/// Serializes a well-formed header into its wire bytes.
pub fn encode(h: &HeaderData) -> (r: Vec<u8>)
    requires
        h.wf(),
    ensures
        r@ == spec_encode(*h),
        r@.len() == h.spec_len(),
{
    let mut r: Vec<u8> = Vec::new();
    r.push(h.magic[0]);
    r.push(h.magic[1]);
    r.push(h.magic[2]);
    r.push(h.magic[3]);
    r.push(h.version);
    r.push(h.flags);
    r.push((h.name_len >> 8) as u8);
    r.push(h.name_len as u8);
    if h.version == 2 {
        r.push((h.path_len >> 8) as u8);
        r.push(h.path_len as u8);
    }
    r.push((h.file_size >> 56) as u8);
    r.push((h.file_size >> 48) as u8);
    r.push((h.file_size >> 40) as u8);
    r.push((h.file_size >> 32) as u8);
    r.push((h.file_size >> 24) as u8);
    r.push((h.file_size >> 16) as u8);
    r.push((h.file_size >> 8) as u8);
    r.push(h.file_size as u8);
    proof {
        assert(r@ =~= spec_encode(*h));
    }
    r
}

/// Deserializes a byte buffer into a header, reporting the first protocol
/// violation it meets; never panics and never reads past the buffer.
pub fn decode(buf: &[u8]) -> (r: Result<HeaderData, HeaderError>)
    ensures
        r == spec_decode(buf@),
        r matches Ok(h) ==> h.wf(),
{
    if buf.len() < 4 {
        return Err(HeaderError::MalformedHeader);
    }
    if !(buf[0] == 70 && buf[1] == 84 && buf[2] == 48 && buf[3] == 49) {
        proof {
            assert(buf@.subrange(0, 4) != spec_magic()) by {
                if buf@.subrange(0, 4) == spec_magic() {
                    assert(buf@[0] == 70 && buf@[1] == 84 && buf@[2] == 48 && buf@[3] == 49);
                }
            }
        }
        return Err(HeaderError::UnsupportedMagic);
    }
    proof {
        assert(buf@.subrange(0, 4) =~= spec_magic());
    }
    if buf.len() < 5 {
        return Err(HeaderError::MalformedHeader);
    }
    let version = buf[4];
    if version != 1 && version != 2 {
        return Err(HeaderError::UnsupportedVersion);
    }
    let header_len: usize = if version == 1 {
        HEADER_LEN_V1
    } else {
        HEADER_LEN_V2
    };
    if buf.len() < header_len {
        return Err(HeaderError::MalformedHeader);
    }
    let flags = buf[5];
    if flags != 0 {
        return Err(HeaderError::MalformedHeader);
    }
    let name_len: u16 = ((buf[6] as u16) << 8) | (buf[7] as u16);
    let path_len: u16 = if version == 2 {
        ((buf[8] as u16) << 8) | (buf[9] as u16)
    } else {
        0
    };
    let fs: usize = if version == 2 {
        10
    } else {
        8
    };
    let file_size: u64 = ((buf[fs] as u64) << 56) | ((buf[fs + 1] as u64) << 48) | ((buf[fs + 2]
        as u64) << 40) | ((buf[fs + 3] as u64) << 32) | ((buf[fs + 4] as u64) << 24) | ((buf[fs + 5]
        as u64) << 16) | ((buf[fs + 6] as u64) << 8) | (buf[fs + 7] as u64);
    proof {
        assert(spec_u16_of_be(buf@.subrange(6, 8)) == name_len);
        if version == 2 {
            assert(spec_u16_of_be(buf@.subrange(8, 10)) == path_len);
            assert(spec_u64_of_be(buf@.subrange(10, 18)) == file_size);
        } else {
            assert(spec_u64_of_be(buf@.subrange(8, 16)) == file_size);
        }
    }
    if header_len + (name_len as usize) + (path_len as usize) > MAX_FRAME_LEN {
        return Err(HeaderError::MalformedHeader);
    }
    let magic: [u8; 4] = [buf[0], buf[1], buf[2], buf[3]];
    proof {
        assert(magic@ =~= spec_magic_arr()@);
        assert(magic == spec_magic_arr());
    }
    Ok(HeaderData { magic, version, flags, name_len, path_len, file_size })
}

/// Builds the header an uploader sends for a file: version 1 when no
/// destination directory accompanies the name, version 2 when one does.
pub fn build_header(file_name: &Vec<u8>, file_size: u64, path: &Vec<u8>) -> (h: HeaderData)
    requires
        HEADER_LEN_V2 + file_name@.len() + path@.len() <= MAX_FRAME_LEN,
    ensures
        h.wf(),
        h.version == (if path@.len() == 0 {
            1u8
        } else {
            2u8
        }),
        h.flags == 0,
        h.name_len == file_name@.len(),
        h.path_len == path@.len(),
        h.file_size == file_size,
{
    let version: u8 = if path.len() == 0 {
        1
    } else {
        2
    };
    let magic: [u8; 4] = [70, 84, 48, 49];
    proof {
        assert(magic@ =~= spec_magic());
    }
    HeaderData {
        magic,
        version,
        flags: 0,
        name_len: file_name.len() as u16,
        path_len: path.len() as u16,
        file_size,
    }
}

/// A buffer too short for the header it declares decodes to
/// `MalformedHeader`: too short to hold the magic at all, too short to name
/// a version, or shorter than the length its declared version requires.
/// (A buffer of four or more bytes that opens with the wrong magic is
/// `UnsupportedMagic` instead: the magic is checked before anything else.)
pub proof fn lemma_short_buffer_is_malformed(s: Seq<u8>)
    requires
        s.len() < 4 || (s.subrange(0, 4) == spec_magic() && (s.len() < 5 || ((s[4] == 1 || s[4]
            == 2) && s.len() < spec_header_len(s[4])))),
    ensures
        spec_decode(s) == Err::<HeaderData, HeaderError>(HeaderError::MalformedHeader),
{
}

/// A buffer whose first four bytes differ from the magic decodes to
/// `UnsupportedMagic`, whatever the remaining contents are.
pub proof fn lemma_wrong_magic_is_unsupported(s: Seq<u8>)
    requires
        s.len() >= 4,
        s.subrange(0, 4) != spec_magic(),
    ensures
        spec_decode(s) == Err::<HeaderData, HeaderError>(HeaderError::UnsupportedMagic),
{
}

/// Round trip: decoding the encoding of any well-formed header yields that
/// header again, in both wire versions.
pub proof fn lemma_header_round_trip(h: HeaderData)
    requires
        h.wf(),
    ensures
        spec_decode(spec_encode(h)) == Ok::<HeaderData, HeaderError>(h),
{
    let s = spec_encode(h);
    assert(s.len() == spec_header_len(h.version));
    assert(s.subrange(0, 4) =~= spec_magic());
    assert(s[4] == h.version);
    assert(s[5] == h.flags);
    assert(s.subrange(6, 8) =~= spec_u16_be(h.name_len));
    lemma_u16_be_round_trip(h.name_len);
    if h.version == 2 {
        assert(s.subrange(8, 10) =~= spec_u16_be(h.path_len));
        assert(s.subrange(10, 18) =~= spec_u64_be(h.file_size));
        lemma_u16_be_round_trip(h.path_len);
    } else {
        assert(s.subrange(8, 16) =~= spec_u64_be(h.file_size));
    }
    lemma_u64_be_round_trip(h.file_size);
    let d = spec_decode(s);
    assert(d matches Ok(g) && g.magic == h.magic) by {
        assert(spec_magic_arr()@ =~= h.magic@);
    }
}

} // verus!
