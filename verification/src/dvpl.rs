//! DVPL, the resource container of the game client: the payload followed by
//! a 20-byte footer `decompressed size (4) | stored size (4) | crc32 (4) |
//! compression type (4) | "DVPL"`, all little-endian. Compression 0 is
//! stored, 1 and 2 are LZ4 blocks, 3 is zlib.

use std::io::Read;

use vstd::prelude::*;

verus! {

/// Length of an LZ4 length extension: starting from `acc`, each byte at `s`
/// adds its value, and a byte other than 255 ends the run; the run also ends
/// at the end of the input. Returns the length and the position after it.
pub open spec fn lz4_ext(src: Seq<u8>, s: int, acc: int) -> (int, int)
    decreases src.len() - s,
{
    if s < 0 || s >= src.len() {
        (acc, s)
    } else if src[s] != 255u8 {
        (acc + src[s] as int, s + 1)
    } else {
        lz4_ext(src, s + 1, acc + 255)
    }
}

/// A length field: `nibble + base`, extended by further bytes when the
/// nibble is 15.
pub open spec fn lz4_len(src: Seq<u8>, s: int, nibble: int, base: int) -> (int, int) {
    if nibble == 15 {
        lz4_ext(src, s, nibble + base)
    } else {
        (nibble + base, s)
    }
}

/// The smaller of two numbers.
pub open spec fn min2(a: int, b: int) -> int {
    if a <= b {
        a
    } else {
        b
    }
}

/// Copies `m` bytes forward from `offset` bytes back, one byte at a time
/// (so a short offset repeats a pattern); positions before `offset` keep
/// their value.
pub open spec fn lz4_match_copy(dst: Seq<u8>, d: int, m: int, offset: int) -> Seq<u8>
    decreases m,
{
    if m <= 0 {
        dst
    } else {
        let dst2 = if d < offset {
            dst
        } else {
            dst.update(d, dst[d - offset])
        };
        lz4_match_copy(dst2, d + 1, m - 1, offset)
    }
}

/// The block decoder from input position `si` and output position `di`:
/// each sequence is a token, literals, a two-byte offset and a match. The
/// literal run is cut at the end of the input or of the output; a sequence
/// without a full offset ends the block; output beyond `out` is never written.
pub open spec fn lz4_run(src: Seq<u8>, out: int, si: int, di: int, dst: Seq<u8>) -> Seq<u8>
    decreases src.len() - si,
{
    if si < 0 || si >= src.len() || di >= out || di < 0 {
        dst
    } else {
        let token = src[si];
        let (lit, s2) = lz4_len(src, si + 1, (token >> 4u8) as int, 0);
        let n = min2(min2(lit, src.len() - s2), out - di);
        let dst2 = dst.subrange(0, di) + src.subrange(s2, s2 + n) + dst.subrange(
            di + n,
            dst.len() as int,
        );
        let s3 = s2 + n;
        let d3 = di + n;
        if s3 >= src.len() || d3 >= out || s3 + 2 > src.len() {
            dst2
        } else {
            let offset = src[s3] as int + 256 * (src[s3 + 1] as int);
            let (ml, s5) = lz4_len(src, s3 + 2, (token & 15u8) as int, 4);
            proof {
                lemma_lz4_len_bounds(src, si + 1, (token >> 4u8) as int, 0);
                lemma_lz4_len_bounds(src, s3 + 2, (token & 15u8) as int, 4);
            }
            let m = min2(ml, out - d3);
            lz4_run(src, out, s5, d3 + m, lz4_match_copy(dst2, d3, m, offset))
        }
    }
}

/// LZ4 block decoding of `src` into `out` bytes (zero-filled where nothing
/// is written).
pub open spec fn lz4_block(src: Seq<u8>, out: nat) -> Seq<u8> {
    lz4_run(src, out as int, 0, 0, Seq::new(out, |i: int| 0u8))
}

/// A length extension never moves backwards nor past the input.
pub proof fn lemma_lz4_ext_bounds(src: Seq<u8>, s: int, acc: int)
    requires
        0 <= s <= src.len(),
    ensures
        ({
            let (l, p) = lz4_ext(src, s, acc);
            s <= p <= src.len() && l >= acc
        }),
    decreases src.len() - s,
{
    if s < src.len() && src[s] == 255u8 {
        lemma_lz4_ext_bounds(src, s + 1, acc + 255);
    }
}

/// A length field never moves backwards nor past the input.
pub proof fn lemma_lz4_len_bounds(src: Seq<u8>, s: int, nibble: int, base: int)
    requires
        0 <= s <= src.len(),
        0 <= nibble,
        0 <= base,
    ensures
        ({
            let (l, p) = lz4_len(src, s, nibble, base);
            s <= p <= src.len() && l >= nibble + base
        }),
{
    if nibble == 15 {
        lemma_lz4_ext_bounds(src, s, nibble + base);
    }
}

/// Reads a length extension at `*si`, adding to `acc` (saturating: any
/// value beyond the input length behaves the same in the copy loops).
fn read_lz4_ext(src: &[u8], si: &mut usize, acc: usize) -> (res: usize)
    requires
        *old(si) <= src@.len(),
    ensures
        ({
            let (l, p) = lz4_ext(src@, *old(si) as int, acc as int);
            *final(si) == p && (res == l || (res == usize::MAX && l > usize::MAX))
        }),
{
    let ghost s0 = *si as int;
    let mut total: usize = acc;
    let ghost mut exact: int = acc as int;
    while *si < src.len()
        invariant
            *old(si) <= *si <= src@.len(),
            s0 == *old(si),
            lz4_ext(src@, *si as int, exact) == lz4_ext(src@, s0, acc as int),
            total == exact || (total == usize::MAX && exact > usize::MAX),
        decreases src@.len() - *si,
    {
        let b = src[*si];
        *si = *si + 1;
        total = total.saturating_add(b as usize);
        if b != 255u8 {
            proof {
                exact = exact + b as int;
            }
            return total;
        }
        proof {
            exact = exact + 255;
        }
    }
    total
}

/// Decodes an LZ4 block into exactly `output_size` bytes.
fn lz4_decompress(src: &[u8], output_size: usize) -> (dst: Vec<u8>)
    ensures
        dst@ == lz4_block(src@, output_size as nat),
{
    let mut dst: Vec<u8> = vec![0u8; output_size];
    let mut si: usize = 0;
    let mut di: usize = 0;
    assert(dst@ =~= Seq::new(output_size as nat, |i: int| 0u8));
    while si < src.len() && di < output_size
        invariant_except_break
            lz4_run(src@, output_size as int, si as int, di as int, dst@) == lz4_block(
                src@,
                output_size as nat,
            ),
        invariant
            si <= src@.len(),
            di <= output_size,
            dst@.len() == output_size,
        ensures
            dst@ == lz4_block(src@, output_size as nat),
        decreases src@.len() - si,
    {
        let ghost si0 = si as int;
        let ghost di0 = di as int;
        let ghost dst0 = dst@;
        let token = src[si];
        si = si + 1;
        let nib = token >> 4u8;
        let mut lit_len: usize = nib as usize;
        if nib == 15 {
            proof {
                lemma_lz4_ext_bounds(src@, si as int, 15);
            }
            lit_len = read_lz4_ext(src, &mut si, lit_len);
        }
        let ghost s2 = si as int;
        let ghost lit = lz4_len(src@, si0 + 1, (token >> 4u8) as int, 0).0;
        assert(s2 == lz4_len(src@, si0 + 1, (token >> 4u8) as int, 0).1);
        // literals: as many as the token asks, the input holds and the output has room for
        let mut n: usize = lit_len;
        if src.len() - si < n {
            n = src.len() - si;
        }
        if output_size - di < n {
            n = output_size - di;
        }
        assert(n == min2(min2(lit, src@.len() - s2), output_size - di0));
        let mut k: usize = 0;
        while k < n
            invariant
                s2 + n <= src@.len(),
                di0 + n <= output_size,
                si == s2 + k,
                di == di0 + k,
                dst@.len() == output_size,
                dst0.len() == output_size,
                k <= n,
                0 <= di0,
                forall|i: int| 0 <= i < di0 ==> dst@[i] == dst0[i],
                forall|i: int| di0 <= i < di0 + k ==> dst@[i] == src@[s2 + i - di0],
                forall|i: int| di0 + k <= i < output_size ==> dst@[i] == dst0[i],
            decreases n - k,
        {
            dst.set(di, src[si]);
            si = si + 1;
            di = di + 1;
            k = k + 1;
        }
        assert(dst@ =~= dst0.subrange(0, di0) + src@.subrange(s2, s2 + n as int) + dst0.subrange(
            di0 + n,
            dst0.len() as int,
        ));
        let ghost dst2 = dst@;
        if si >= src.len() || di >= output_size {
            break;
        }
        if src.len() - si < 2 {
            break;
        }
        let offset: usize = (src[si] as usize) + 256 * (src[si + 1] as usize);
        si = si + 2;
        let low = token & 15u8;
        let mut match_len: usize = (low as usize) + 4;
        if low == 15 {
            proof {
                lemma_lz4_ext_bounds(src@, si as int, 19);
            }
            match_len = read_lz4_ext(src, &mut si, match_len);
        }
        let ghost ml = lz4_len(src@, s2 + n + 2, (token & 15u8) as int, 4).0;
        assert(si == lz4_len(src@, s2 + n + 2, (token & 15u8) as int, 4).1);
        let ghost d3 = di as int;
        let mut m: usize = match_len;
        if output_size - di < m {
            m = output_size - di;
        }
        assert(m == min2(ml, output_size - d3));
        let mut j: usize = 0;
        while j < m
            invariant
                di == d3 + j,
                d3 + m <= output_size,
                j <= m,
                dst@.len() == output_size,
                lz4_match_copy(dst2, d3, m as int, offset as int) == lz4_match_copy(
                    dst@,
                    di as int,
                    m - j,
                    offset as int,
                ),
            decreases m - j,
        {
            if di >= offset {
                let b = dst[di - offset];
                dst.set(di, b);
            }
            di = di + 1;
            j = j + 1;
        }
    }
    dst
}

/// A decoded DVPL file: the payload after decompression and the
/// compression type that the footer gave.
pub struct DvplFile {
    pub data: Vec<u8>,
    pub compression_type: u32,
}

/// Why a DVPL file could not be decoded.
#[derive(Debug, Clone, Copy)]
pub enum DvplError {
    /// Fewer than the 20 bytes of the footer.
    TooSmall,
    /// The footer does not end with `DVPL`.
    BadMagic,
    /// The zlib payload did not inflate.
    Inflate,
    /// A compression type other than 0 to 3.
    UnknownCompression(u32),
}

/// The little-endian `u32` at `at`.
pub open spec fn le_u32(s: Seq<u8>, at: int) -> int {
    s[at] as int + 256 * (s[at + 1] as int) + 65536 * (s[at + 2] as int) + 16777216 * (
    s[at + 3] as int)
}

/// The buffer holds a footer with the `DVPL` magic.
pub open spec fn dvpl_has_footer(raw: Seq<u8>) -> bool {
    raw.len() >= 20 && raw[raw.len() - 4] == 0x44u8 && raw[raw.len() - 3] == 0x56u8 && raw[raw.len()
        - 2] == 0x50u8 && raw[raw.len() - 1] == 0x4cu8
}

/// Footer fields: decompressed size, stored size, compression type.
pub open spec fn dvpl_plain_size(raw: Seq<u8>) -> int {
    le_u32(raw, raw.len() - 20)
}

/// Footer field: stored (compressed) size.
pub open spec fn dvpl_stored_size(raw: Seq<u8>) -> int {
    le_u32(raw, raw.len() - 16)
}

/// Footer field: compression type.
pub open spec fn dvpl_compression(raw: Seq<u8>) -> int {
    le_u32(raw, raw.len() - 8)
}

/// What zlib inflation (flate2's `ZlibDecoder`, read to the end) yields
/// for these bytes; `None` when the stream is corrupt.
pub uninterp spec fn zlib_inflated(data: Seq<u8>) -> Option<Seq<u8>>;

/// flate2 `ZlibDecoder::read_to_end`: inflates a zlib stream. The result is
/// named `zlib_inflated`; an I/O error from the decoder (corrupt input)
/// comes back as `None`.
#[verifier::external_body]
fn zlib_inflate(data: &[u8]) -> (res: Option<Vec<u8>>)
    ensures
        match zlib_inflated(data@) {
            Some(d) => res matches Some(v) && v@ == d,
            None => res is None,
        },
{
    let mut buf = Vec::new();
    match flate2::read::ZlibDecoder::new(data).read_to_end(&mut buf) {
        Ok(_) => Some(buf),
        Err(_) => None,
    }
}

/// Decoding of a whole DVPL file: payload and compression type, or why not.
pub open spec fn dvpl_decode_spec(raw: Seq<u8>) -> Result<(Seq<u8>, u32), DvplError> {
    if raw.len() < 20 {
        Err(DvplError::TooSmall)
    } else if !dvpl_has_footer(raw) {
        Err(DvplError::BadMagic)
    } else {
        let stored = raw.subrange(0, dvpl_stored_size(raw));
        let t = dvpl_compression(raw);
        if t == 0 {
            Ok((stored, 0u32))
        } else if t == 1 || t == 2 {
            Ok((lz4_block(stored, dvpl_plain_size(raw) as nat), t as u32))
        } else if t == 3 {
            match zlib_inflated(stored) {
                Some(d) => Ok((d, 3u32)),
                None => Err(DvplError::Inflate),
            }
        } else {
            Err(DvplError::UnknownCompression(t as u32))
        }
    }
}

/// Law: a length extension that runs through bytes `s..k` of 255 and ends
/// with byte `k` (not 255) adds all of them: its length is
/// `acc + 255 * (k - s) + src[k]`, and it ends just after byte `k`.
pub proof fn law_lz4_extension_adds_its_bytes(src: Seq<u8>, s: int, k: int, acc: int)
    requires
        0 <= s <= k < src.len(),
        forall|j: int| s <= j < k ==> src[j] == 255u8,
        src[k] != 255u8,
    ensures
        lz4_ext(src, s, acc) == (acc + 255 * (k - s) + src[k] as int, k + 1),
    decreases k - s,
{
    if s < k {
        law_lz4_extension_adds_its_bytes(src, s + 1, k, acc + 255);
    }
}

/// Law: a block made of one token `0xF0` (fifteen literals or more, no
/// match), a length extension `ext` (bytes of 255, then one byte that is
/// not) and as many literal bytes as `15 + ext`'s bytes add up to decodes
/// to exactly those literal bytes.
pub proof fn law_lz4_literal_run(ext: Seq<u8>, lits: Seq<u8>)
    requires
        ext.len() >= 1,
        forall|j: int| 0 <= j < ext.len() - 1 ==> ext[j] == 255u8,
        ext.last() != 255u8,
        lits.len() == 15 + 255 * (ext.len() - 1) + ext.last() as int,
    ensures
        lz4_block(seq![0xF0u8] + ext + lits, lits.len()) == lits,
{
    let block = seq![0xF0u8] + ext + lits;
    let k = ext.len() as int;
    assert forall|j: int| 1 <= j < k implies block[j] == 255u8 by {
        assert(block[j] == ext[j - 1]);
    }
    assert(block[k] == ext.last());
    law_lz4_extension_adds_its_bytes(block, 1, k, 15);
    let t = block[0];
    assert(t == 0xF0u8);
    assert((0xF0u8 >> 4u8) == 15u8) by (bit_vector);
    let n = lits.len() as int;
    let out = n;
    let dst = Seq::new(lits.len(), |i: int| 0u8);
    let (lit, s2) = lz4_len(block, 1, (t >> 4u8) as int, 0);
    assert(lit == n && s2 == k + 1);
    assert(block.subrange(k + 1, k + 1 + n) =~= lits);
    assert(dst.subrange(0, 0) + block.subrange(k + 1, k + 1 + n) + dst.subrange(n, n) =~= lits);
    assert(block.len() == k + 1 + n);
}

/// The four little-endian bytes of `v`.
pub open spec fn le_bytes(v: nat) -> Seq<u8> {
    seq![(v % 256) as u8, ((v / 256) % 256) as u8, ((v / 65536) % 256) as u8, ((v / 16777216) % 256) as u8]
}

/// A DVPL file that stores `payload` uncompressed, with checksum `crc`.
pub open spec fn stored_dvpl(payload: Seq<u8>, crc: u32) -> Seq<u8> {
    payload + le_bytes(payload.len()) + le_bytes(payload.len()) + le_bytes(crc as nat) + le_bytes(0)
        + seq![0x44u8, 0x56u8, 0x50u8, 0x4cu8]
}

proof fn lemma_le_bytes(v: nat)
    requires
        v <= u32::MAX,
    ensures
        le_u32(le_bytes(v), 0) == v,
{
    let b = le_bytes(v);
    assert(b[0] as int == v % 256);
    assert(b[1] as int == (v / 256) % 256);
    assert(b[2] as int == (v / 65536) % 256);
    assert(b[3] as int == (v / 16777216) % 256);
    assert(v % 256 + 256 * ((v / 256) % 256) + 65536 * ((v / 65536) % 256) + 16777216 * ((v
        / 16777216) % 256) == v) by (nonlinear_arith)
        requires
            v <= 4294967295,
    ;
}

/// A file that stores a payload uncompressed reads back as that payload.
pub proof fn law_stored_dvpl_reads_back(payload: Seq<u8>, crc: u32)
    requires
        payload.len() <= u32::MAX,
    ensures
        dvpl_decode_spec(stored_dvpl(payload, crc)) == Ok::<(Seq<u8>, u32), DvplError>((payload, 0u32)),
{
    let n = payload.len() as int;
    let raw = stored_dvpl(payload, crc);
    assert(raw.len() == n + 20);
    lemma_le_bytes(payload.len());
    lemma_le_bytes(crc as nat);
    lemma_le_bytes(0);
    let f1 = le_bytes(payload.len());
    let f3 = le_bytes(0);
    assert(raw.subrange(n, n + 4) =~= f1);
    assert(raw.subrange(n + 4, n + 8) =~= f1);
    assert(raw.subrange(n + 12, n + 16) =~= f3);
    assert(dvpl_stored_size(raw) == le_u32(raw.subrange(n + 4, n + 8), 0));
    assert(dvpl_compression(raw) == le_u32(raw.subrange(n + 12, n + 16), 0));
    assert(raw.subrange(0, n) =~= payload);
}

/// The little-endian `u32` at `at` of `raw`.
pub fn read_le_u32(raw: &[u8], at: usize) -> (v: u32)
    requires
        at + 4 <= raw@.len(),
    ensures
        v as int == le_u32(raw@, at as int),
{
    (raw[at] as u32) + 256 * (raw[at + 1] as u32) + 65536 * (raw[at + 2] as u32) + 16777216 * (
    raw[at + 3] as u32)
}

impl DvplFile {
    /// Decodes the bytes of a DVPL file. The stored size in the footer must
    /// lie within the file.
    pub fn decode(raw: &[u8]) -> (res: Result<DvplFile, DvplError>)
        requires
            dvpl_has_footer(raw@) ==> dvpl_stored_size(raw@) <= raw@.len(),
        ensures
            match dvpl_decode_spec(raw@) {
                Ok((d, t)) => res matches Ok(f) && f.data@ == d && f.compression_type == t,
                Err(e) => res matches Err(x) && x == e,
            },
    {
        let len = raw.len();
        if len < 20 {
            return Err(DvplError::TooSmall);
        }
        if !(raw[len - 4] == 0x44u8 && raw[len - 3] == 0x56u8 && raw[len - 2] == 0x50u8 && raw[len
            - 1] == 0x4cu8) {
            return Err(DvplError::BadMagic);
        }
        let plain_size = read_le_u32(raw, len - 20);
        let comp_size = read_le_u32(raw, len - 16);
        let comp_type = read_le_u32(raw, len - 8);
        let compressed = &raw[0..comp_size as usize];
        if comp_type == 0 {
            Ok(DvplFile { data: vstd::slice::slice_to_vec(compressed), compression_type: comp_type })
        } else if comp_type == 1 || comp_type == 2 {
            Ok(
                DvplFile {
                    data: lz4_decompress(compressed, plain_size as usize),
                    compression_type: comp_type,
                },
            )
        } else if comp_type == 3 {
            match zlib_inflate(compressed) {
                Some(d) => Ok(DvplFile { data: d, compression_type: comp_type }),
                None => Err(DvplError::Inflate),
            }
        } else {
            Err(DvplError::UnknownCompression(comp_type))
        }
    }
}

} // verus!
