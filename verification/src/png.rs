//! A minimal PNG encoder for transient screenshots.
//!
//! Pixels are written as 8-bit RGBA scanlines (filter type 0) inside a zlib
//! stream made of uncompressed ("stored") deflate blocks, so the encoder needs
//! no compression library and its output is fully determined by the input.
use vstd::prelude::*;

verus! {

/// Largest payload of one stored deflate block.
pub const STORED_BLOCK_MAX: usize = 65535;

/// Modulus of the Adler-32 checksum.
pub const ADLER_MOD: u32 = 65521;

// ---------------------------------------------------------------------------
// Byte-level building blocks
// ---------------------------------------------------------------------------

/// Big-endian encoding of a 32-bit word.
pub open spec fn be32_bytes(x: u32) -> Seq<u8> {
    seq![(x >> 24u32) as u8, (x >> 16u32) as u8, (x >> 8u32) as u8, x as u8]
}

/// Little-endian encoding of a 16-bit word.
pub open spec fn le16_bytes(x: u16) -> Seq<u8> {
    seq![x as u8, (x >> 8u16) as u8]
}

/// Appends `src` to `out`.
pub fn extend_bytes(out: &mut Vec<u8>, src: &[u8])
    ensures
        final(out)@ == old(out)@ + src@,
{
    let mut i: usize = 0;
    while i < src.len()
        invariant
            i <= src@.len(),
            out@ == old(out)@ + src@.take(i as int),
        decreases src@.len() - i,
    {
        out.push(src[i]);
        assert(src@.take(i + 1) =~= src@.take(i as int).push(src@[i as int]));
        i = i + 1;
    }
    assert(src@.take(src@.len() as int) =~= src@);
}

fn push_be32(out: &mut Vec<u8>, x: u32)
    ensures
        final(out)@ == old(out)@ + be32_bytes(x),
{
    out.push((x >> 24u32) as u8);
    out.push((x >> 16u32) as u8);
    out.push((x >> 8u32) as u8);
    out.push(x as u8);
    assert(out@ =~= old(out)@ + be32_bytes(x));
}

fn push_le16(out: &mut Vec<u8>, x: u16)
    ensures
        final(out)@ == old(out)@ + le16_bytes(x),
{
    out.push(x as u8);
    out.push((x >> 8u16) as u8);
    assert(out@ =~= old(out)@ + le16_bytes(x));
}

// ---------------------------------------------------------------------------
// CRC-32 (IEEE 802.3, reflected polynomial 0xEDB88320)
// ---------------------------------------------------------------------------

/// One shift of the CRC register.
pub open spec fn crc_step(c: u32) -> u32 {
    if c & 1u32 != 0 {
        (c >> 1u32) ^ 0xedb8_8320u32
    } else {
        c >> 1u32
    }
}

/// `k` shifts of the CRC register.
pub open spec fn crc_rounds(c: u32, k: nat) -> u32
    decreases k,
{
    if k == 0 {
        c
    } else {
        crc_step(crc_rounds(c, (k - 1) as nat))
    }
}

/// The register after absorbing one byte.
pub open spec fn crc_update(c: u32, b: u8) -> u32 {
    crc_rounds(c ^ (b as u32), 8)
}

/// The register after absorbing `bytes`, starting from all ones.
pub open spec fn crc_register(bytes: Seq<u8>) -> u32
    decreases bytes.len(),
{
    if bytes.len() == 0 {
        0xffff_ffffu32
    } else {
        crc_update(crc_register(bytes.drop_last()), bytes.last())
    }
}

/// The CRC-32 checksum of `bytes`.
pub open spec fn crc32_of(bytes: Seq<u8>) -> u32 {
    !crc_register(bytes)
}

fn crc_update_exec(c: u32, b: u8) -> (r: u32)
    ensures
        r == crc_update(c, b),
{
    let start: u32 = c ^ (b as u32);
    let mut crc: u32 = start;
    let mut k: u32 = 0;
    while k < 8
        invariant
            k <= 8,
            crc == crc_rounds(start, k as nat),
        decreases 8 - k,
    {
        crc = if crc & 1 != 0 {
            (crc >> 1u32) ^ 0xedb8_8320u32
        } else {
            crc >> 1u32
        };
        k = k + 1;
    }
    crc
}

/// CRC-32 of `bytes`, as stored after every PNG chunk.
pub fn crc32(bytes: &[u8]) -> (r: u32)
    ensures
        r == crc32_of(bytes@),
{
    let mut crc: u32 = 0xffff_ffff;
    let mut i: usize = 0;
    while i < bytes.len()
        invariant
            i <= bytes@.len(),
            crc == crc_register(bytes@.take(i as int)),
        decreases bytes@.len() - i,
    {
        crc = crc_update_exec(crc, bytes[i]);
        assert(bytes@.take(i + 1).drop_last() =~= bytes@.take(i as int));
        i = i + 1;
    }
    assert(bytes@.take(bytes@.len() as int) =~= bytes@);
    !crc
}

// ---------------------------------------------------------------------------
// Adler-32
// ---------------------------------------------------------------------------

/// The pair of running sums `(a, b)` after absorbing `bytes`.
pub open spec fn adler_sums(bytes: Seq<u8>) -> (nat, nat)
    decreases bytes.len(),
{
    if bytes.len() == 0 {
        (1, 0)
    } else {
        let (a, b) = adler_sums(bytes.drop_last());
        let a2 = ((a + bytes.last()) % 65521) as nat;
        let b2 = ((b + a2) % 65521) as nat;
        (a2, b2)
    }
}

/// The Adler-32 checksum of `bytes`.
pub open spec fn adler32_of(bytes: Seq<u8>) -> u32 {
    let (a, b) = adler_sums(bytes);
    ((b as u32) << 16u32) | (a as u32)
}

proof fn lemma_adler_sums_bounded(bytes: Seq<u8>)
    ensures
        adler_sums(bytes).0 < 65521,
        adler_sums(bytes).1 < 65521,
    decreases bytes.len(),
{
    if bytes.len() > 0 {
        lemma_adler_sums_bounded(bytes.drop_last());
    }
}

/// Adler-32 checksum of `bytes`, as stored at the end of a zlib stream.
pub fn adler32(bytes: &[u8]) -> (r: u32)
    ensures
        r == adler32_of(bytes@),
{
    let mut a: u32 = 1;
    let mut b: u32 = 0;
    let mut i: usize = 0;
    while i < bytes.len()
        invariant
            i <= bytes@.len(),
            a < 65521,
            b < 65521,
            (a as nat, b as nat) == adler_sums(bytes@.take(i as int)),
        decreases bytes@.len() - i,
    {
        assert(bytes@.take(i + 1).drop_last() =~= bytes@.take(i as int));
        a = (a + bytes[i] as u32) % 65521;
        b = (b + a) % 65521;
        i = i + 1;
    }
    assert(bytes@.take(bytes@.len() as int) =~= bytes@);
    (b << 16u32) | a
}

// ---------------------------------------------------------------------------
// Stored deflate blocks and the zlib wrapper
// ---------------------------------------------------------------------------

/// One stored deflate block: header byte, LEN, NLEN, payload.
pub open spec fn stored_block(is_final: bool, payload: Seq<u8>) -> Seq<u8> {
    let n = payload.len() as u16;
    seq![if is_final { 1u8 } else { 0u8 }] + le16_bytes(n) + le16_bytes(!n) + payload
}

/// `data` cut into stored blocks of at most 65535 bytes; only the last one
/// is marked final.
pub open spec fn stored_blocks(data: Seq<u8>) -> Seq<u8>
    decreases data.len(),
{
    if data.len() == 0 {
        seq![]
    } else if data.len() <= 65535 {
        stored_block(true, data)
    } else {
        stored_block(false, data.take(65535)) + stored_blocks(data.skip(65535))
    }
}

/// A zlib stream (no compression, default window) holding `data`.
pub open spec fn zlib_stored(data: Seq<u8>) -> Seq<u8> {
    seq![0x78u8, 0x01u8] + stored_blocks(data) + be32_bytes(adler32_of(data))
}

fn zlib_stored_exec(data: &[u8]) -> (out: Vec<u8>)
    ensures
        out@ == zlib_stored(data@),
{
    let mut out: Vec<u8> = Vec::new();
    out.push(0x78u8);
    out.push(0x01u8);
    let len = data.len();
    let mut start: usize = 0;
    assert(data@.skip(0) =~= data@);
    assert(out@ =~= seq![0x78u8, 0x01u8]);
    while start < len
        invariant
            len == data@.len(),
            start <= len,
            seq![0x78u8, 0x01u8] + stored_blocks(data@) == out@ + stored_blocks(
                data@.skip(start as int),
            ),
        decreases len - start,
    {
        let rest = len - start;
        let is_final = rest <= STORED_BLOCK_MAX;
        let end = if is_final { len } else { start + STORED_BLOCK_MAX };
        let payload = &data[start..end];
        let n = (end - start) as u16;
        let ghost before = out@;
        let ghost tail = data@.skip(start as int);
        out.push(if is_final { 1u8 } else { 0u8 });
        push_le16(&mut out, n);
        push_le16(&mut out, !n);
        extend_bytes(&mut out, payload);
        assert(out@ =~= before + stored_block(is_final, payload@));
        if is_final {
            assert(payload@ =~= tail);
            assert(data@.skip(len as int) =~= Seq::<u8>::empty());
            assert(stored_blocks(tail) == stored_block(true, tail));
        } else {
            assert(payload@ =~= tail.take(65535));
            assert(tail.skip(65535) =~= data@.skip(end as int));
        }
        start = end;
    }
    assert(data@.skip(len as int) =~= Seq::<u8>::empty());
    assert(out@ =~= seq![0x78u8, 0x01u8] + stored_blocks(data@));
    push_be32(&mut out, adler32(data));
    out
}

// ---------------------------------------------------------------------------
// Scanlines, chunks and the file
// ---------------------------------------------------------------------------

/// The first `rows` rows of `rgba` (each `row_len` bytes), each preceded by
/// filter byte 0.
pub open spec fn scanlines(rgba: Seq<u8>, row_len: nat, rows: nat) -> Seq<u8>
    decreases rows,
{
    if rows == 0 {
        seq![]
    } else {
        scanlines(rgba, row_len, (rows - 1) as nat) + seq![0u8] + rgba.subrange(
            ((rows - 1) * row_len) as int,
            (rows * row_len) as int,
        )
    }
}

fn scanlines_exec(rgba: &[u8], row_len: usize, rows: usize) -> (out: Vec<u8>)
    requires
        rgba@.len() == row_len * rows,
    ensures
        out@ == scanlines(rgba@, row_len as nat, rows as nat),
{
    let mut out: Vec<u8> = Vec::new();
    let mut r: usize = 0;
    let mut offset: usize = 0;
    let total = rgba.len();
    while r < rows
        invariant
            total == rgba@.len(),
            rgba@.len() == row_len * rows,
            r <= rows,
            offset == r * row_len,
            out@ == scanlines(rgba@, row_len as nat, r as nat),
        decreases rows - r,
    {
        assert((r + 1) * row_len <= rows * row_len) by (nonlinear_arith)
            requires
                r < rows,
        ;
        assert((r + 1) * row_len == r * row_len + row_len) by (nonlinear_arith);
        out.push(0u8);
        extend_bytes(&mut out, &rgba[offset..offset + row_len]);
        r = r + 1;
        offset = offset + row_len;
    }
    out
}

/// A PNG chunk: length, type, data, CRC over type and data.
pub open spec fn png_chunk(kind: Seq<u8>, data: Seq<u8>) -> Seq<u8> {
    be32_bytes(data.len() as u32) + kind + data + be32_bytes(crc32_of(kind + data))
}

/// The eight-byte PNG file signature.
pub open spec fn png_signature() -> Seq<u8> {
    seq![137u8, 80u8, 78u8, 71u8, 13u8, 10u8, 26u8, 10u8]
}

pub open spec fn ihdr_kind() -> Seq<u8> {
    seq![73u8, 72u8, 68u8, 82u8]
}

pub open spec fn idat_kind() -> Seq<u8> {
    seq![73u8, 68u8, 65u8, 84u8]
}

pub open spec fn iend_kind() -> Seq<u8> {
    seq![73u8, 69u8, 78u8, 68u8]
}

/// Image header: width, height, bit depth 8, colour type 6 (RGBA), default
/// compression, filter and interlace methods.
pub open spec fn ihdr_data(width: u32, height: u32) -> Seq<u8> {
    be32_bytes(width) + be32_bytes(height) + seq![8u8, 6u8, 0u8, 0u8, 0u8]
}

/// The complete PNG file for a `width` x `height` RGBA image.
pub open spec fn png_file(width: u32, height: u32, rgba: Seq<u8>) -> Seq<u8> {
    png_signature() + png_chunk(ihdr_kind(), ihdr_data(width, height)) + png_chunk(
        idat_kind(),
        zlib_stored(scanlines(rgba, width as nat * 4, height as nat)),
    ) + png_chunk(iend_kind(), seq![])
}

// ---------------------------------------------------------------------------
// Reading the file back
// ---------------------------------------------------------------------------

/// The little-endian 16-bit word at `b[i]`, `b[i + 1]`.
pub open spec fn le16_at(b: Seq<u8>, i: int) -> int {
    b[i] as int + 256 * (b[i + 1] as int)
}

/// The data held by a run of stored deflate blocks that ends with its final
/// block: the payloads in order, or `None` when a block header is not that
/// of a stored block, LEN and NLEN are not complements, a payload runs past
/// the end, or bytes follow the final block.
pub open spec fn inflate_stored(s: Seq<u8>) -> Option<Seq<u8>>
    decreases s.len(),
{
    if s.len() < 5 {
        None
    } else {
        let n = le16_at(s, 1);
        if (s[0] != 0u8 && s[0] != 1u8) || n + le16_at(s, 3) != 65535 || s.len() < 5 + n {
            None
        } else {
            let payload = s.subrange(5, 5 + n);
            let rest = s.skip(5 + n);
            if s[0] == 1u8 {
                if rest.len() == 0 {
                    Some(payload)
                } else {
                    None
                }
            } else {
                match inflate_stored(rest) {
                    Some(more) => Some(payload + more),
                    None => None,
                }
            }
        }
    }
}

/// The pixel rows held by filtered scanlines of `row_len` bytes each: every
/// row must start with filter byte 0 (none), which is dropped. `None` when
/// the length is not a whole number of rows or a row has another filter.
pub open spec fn unfilter_rows(scan: Seq<u8>, row_len: nat) -> Option<Seq<u8>>
    decreases scan.len(),
{
    if scan.len() == 0 {
        Some(seq![])
    } else if scan.len() < row_len + 1 {
        None
    } else {
        let start = scan.len() - (row_len + 1);
        if scan[start] != 0u8 {
            None
        } else {
            match unfilter_rows(scan.take(start), row_len) {
                Some(rows) => Some(rows + scan.skip(start + 1)),
                None => None,
            }
        }
    }
}

proof fn lemma_le16_roundtrip(n: u16)
    ensures
        le16_at(le16_bytes(n), 0) == n as int,
        le16_at(le16_bytes(!n), 0) == 65535 - n as int,
{
    let m = !n;
    assert((n as u8) as int + 256 * ((n >> 8u16) as u8) as int == n as int) by (bit_vector);
    assert((m as u8) as int + 256 * ((m >> 8u16) as u8) as int == m as int) by (bit_vector);
    assert(m == !n ==> m as int == 65535 - n as int) by (bit_vector);
}

proof fn lemma_stored_blocks_inflate(data: Seq<u8>)
    requires
        data.len() > 0,
    ensures
        inflate_stored(stored_blocks(data)) == Some(data),
    decreases data.len(),
{
    let last = data.len() <= 65535;
    let payload = if last { data } else { data.take(65535) };
    let n = payload.len() as u16;
    lemma_le16_roundtrip(n);
    let block = stored_block(last, payload);
    let s = stored_blocks(data);
    let rest = if last { Seq::<u8>::empty() } else { stored_blocks(data.skip(65535)) };
    assert(s =~= block + rest);
    assert(le16_at(s, 1) == le16_at(le16_bytes(n), 0));
    assert(le16_at(s, 3) == le16_at(le16_bytes(!n), 0));
    assert(n as int == payload.len());
    assert(s.subrange(5, 5 + payload.len() as int) =~= payload);
    assert(s.skip(5 + payload.len() as int) =~= rest);
    if !last {
        lemma_stored_blocks_inflate(data.skip(65535));
        assert(payload + data.skip(65535) =~= data);
    }
}

proof fn lemma_scanlines_len(rgba: Seq<u8>, row_len: nat, rows: nat)
    requires
        rgba.len() >= rows * row_len,
    ensures
        scanlines(rgba, row_len, rows).len() == rows * (row_len + 1),
    decreases rows,
{
    if rows > 0 {
        let r = (rows - 1) as nat;
        assert(r * row_len <= rows * row_len) by (nonlinear_arith)
            requires
                r + 1 == rows,
        ;
        assert(rows * row_len == r * row_len + row_len) by (nonlinear_arith)
            requires
                r + 1 == rows,
        ;
        assert(rows * (row_len + 1) == r * (row_len + 1) + row_len + 1) by (nonlinear_arith)
            requires
                r + 1 == rows,
        ;
        assert((rows - 1) * row_len == r * row_len);
        lemma_scanlines_len(rgba, row_len, r);
        assert(scanlines(rgba, row_len, rows) == scanlines(rgba, row_len, r) + seq![0u8]
            + rgba.subrange((r * row_len) as int, (rows * row_len) as int));
    } else {
        assert(rows * (row_len + 1) == 0) by (nonlinear_arith)
            requires
                rows == 0,
        ;
    }
}

proof fn lemma_scanlines_unfilter(rgba: Seq<u8>, row_len: nat, rows: nat)
    requires
        rgba.len() >= rows * row_len,
    ensures
        unfilter_rows(scanlines(rgba, row_len, rows), row_len) == Some(rgba.take((rows * row_len) as int)),
    decreases rows,
{
    if rows > 0 {
        let r = (rows - 1) as nat;
        assert(r * row_len <= rows * row_len) by (nonlinear_arith)
            requires
                r + 1 == rows,
        ;
        assert(rows * row_len == r * row_len + row_len) by (nonlinear_arith)
            requires
                r + 1 == rows,
        ;
        assert((rows - 1) * row_len == r * row_len);
        lemma_scanlines_len(rgba, row_len, r);
        lemma_scanlines_unfilter(rgba, row_len, r);
        let prev = scanlines(rgba, row_len, r);
        let scan = scanlines(rgba, row_len, rows);
        let row = rgba.subrange((r * row_len) as int, (rows * row_len) as int);
        assert(scan == prev + seq![0u8] + row);
        assert(scan.take(prev.len() as int) =~= prev);
        assert(scan.skip(prev.len() as int + 1) =~= row);
        assert(scan[prev.len() as int] == 0u8);
        assert(rgba.take((r * row_len) as int) + row =~= rgba.take((rows * row_len) as int));
    } else {
        assert(rows * row_len == 0) by (nonlinear_arith)
            requires
                rows == 0,
        ;
        assert(rgba.take(0) =~= Seq::<u8>::empty());
    }
}

/// Where each of four concatenated pieces lies in the whole.
proof fn lemma_four_parts(a: Seq<u8>, b: Seq<u8>, c: Seq<u8>, d: Seq<u8>)
    ensures
        ({
            let w = a + b + c + d;
            &&& w.len() == a.len() + b.len() + c.len() + d.len()
            &&& w.take(a.len() as int) == a
            &&& w.subrange(a.len() as int, (a.len() + b.len()) as int) == b
            &&& w.subrange((a.len() + b.len()) as int, (a.len() + b.len() + c.len()) as int) == c
            &&& w.skip((a.len() + b.len() + c.len()) as int) == d
        }),
{
    let w = a + b + c + d;
    assert(w.take(a.len() as int) =~= a);
    assert(w.subrange(a.len() as int, (a.len() + b.len()) as int) =~= b);
    assert(w.subrange((a.len() + b.len()) as int, (a.len() + b.len() + c.len()) as int) =~= c);
    assert(w.skip((a.len() + b.len() + c.len()) as int) =~= d);
}

/// The zlib stream around `data`: header, stored blocks that inflate to
/// `data`, Adler-32 trailer.
proof fn lemma_zlib_parts(data: Seq<u8>)
    requires
        data.len() > 0,
    ensures
        ({
            let z = zlib_stored(data);
            &&& z.take(2) == seq![0x78u8, 0x01u8]
            &&& inflate_stored(z.subrange(2, z.len() as int - 4)) == Some(data)
            &&& z.skip(z.len() as int - 4) == be32_bytes(adler32_of(data))
        }),
{
    lemma_stored_blocks_inflate(data);
    let z = zlib_stored(data);
    assert(z.subrange(2, z.len() as int - 4) =~= stored_blocks(data));
    assert(z.take(2) =~= seq![0x78u8, 0x01u8]);
    assert(z.skip(z.len() as int - 4) =~= be32_bytes(adler32_of(data)));
}

/// A PNG file written for a `width` x `height` RGBA buffer (both at least
/// one) reads back as written: the signature; an IHDR chunk of 13 bytes
/// holding the width, the height, bit depth 8, colour type 6 (RGBA) and
/// methods 0; one IDAT chunk whose zlib stream has header `78 01`, stored
/// blocks that inflate to the scanlines and an Adler-32 trailer over them,
/// the scanlines giving back the buffer once each row's filter byte 0 is
/// dropped; and the IEND chunk last. Every chunk carries its length and the
/// CRC-32 of its type and data.
pub proof fn law_png_reads_back(width: u32, height: u32, rgba: Seq<u8>)
    requires
        width >= 1,
        height >= 1,
        rgba.len() == width * height * 4,
    ensures
        ({
            let png = png_file(width, height, rgba);
            let scan = scanlines(rgba, width as nat * 4, height as nat);
            let z = zlib_stored(scan);
            &&& png.take(8) == png_signature()
            &&& ihdr_data(width, height).len() == 13
            &&& png.subrange(8, 33) == png_chunk(ihdr_kind(), ihdr_data(width, height))
            &&& png.subrange(33, 45 + z.len() as int) == png_chunk(idat_kind(), z)
            &&& png.skip(45 + z.len() as int) == png_chunk(iend_kind(), seq![])
            &&& png.len() == 57 + z.len()
            &&& z.take(2) == seq![0x78u8, 0x01u8]
            &&& inflate_stored(z.subrange(2, z.len() as int - 4)) == Some(scan)
            &&& z.skip(z.len() as int - 4) == be32_bytes(adler32_of(scan))
            &&& unfilter_rows(scan, width as nat * 4) == Some(rgba)
        }),
{
    let row_len = width as nat * 4;
    let rows = height as nat;
    assert(rows * row_len == width * height * 4) by (nonlinear_arith)
        requires
            row_len == width * 4,
            rows == height,
    ;
    assert(rows * (row_len + 1) >= 1) by (nonlinear_arith)
        requires
            rows >= 1,
    ;
    let scan = scanlines(rgba, row_len, rows);
    lemma_scanlines_len(rgba, row_len, rows);
    lemma_scanlines_unfilter(rgba, row_len, rows);
    assert(rgba.take(rgba.len() as int) =~= rgba);
    lemma_zlib_parts(scan);
    let z = zlib_stored(scan);
    let ihdr = png_chunk(ihdr_kind(), ihdr_data(width, height));
    let idat = png_chunk(idat_kind(), z);
    let iend = png_chunk(iend_kind(), seq![]);
    assert(ihdr.len() == 25);
    assert(idat.len() == 12 + z.len());
    assert(iend.len() == 12);
    lemma_four_parts(png_signature(), ihdr, idat, iend);
}

proof fn lemma_chunk_layout(kind: Seq<u8>, data: Seq<u8>)
    requires
        kind.len() == 4,
    ensures
        ({
            let c = png_chunk(kind, data);
            let n = data.len() as int;
            &&& c.len() == n + 12
            &&& c.subrange(0, 4) == be32_bytes(data.len() as u32)
            &&& c.subrange(4, 8) == kind
            &&& c.subrange(4, n + 8) == kind + data
            &&& c.subrange(n + 8, n + 12) == be32_bytes(crc32_of(c.subrange(4, n + 8)))
        }),
{
    let c = png_chunk(kind, data);
    let n = data.len() as int;
    assert(c.subrange(0, 4) =~= be32_bytes(data.len() as u32));
    assert(c.subrange(4, 8) =~= kind);
    assert(c.subrange(4, n + 8) =~= kind + data);
    assert(c.subrange(n + 8, n + 12) =~= be32_bytes(crc32_of(kind + data)));
}

proof fn lemma_subrange_of_part(w: Seq<u8>, a: int, b: int, i: int, j: int)
    requires
        0 <= a <= b <= w.len(),
        0 <= i <= j <= b - a,
    ensures
        w.subrange(a + i, a + j) == w.subrange(a, b).subrange(i, j),
{
    assert(w.subrange(a + i, a + j) =~= w.subrange(a, b).subrange(i, j));
}

/// Every chunk of a written PNG file is checked by its own bytes: the four
/// bytes after a chunk's data are the big-endian CRC-32 of the chunk's type
/// and data as they stand in the file, and the four before its type give
/// the data's length. For the IHDR chunk that is bytes 29..33 over 12..29,
/// for IDAT the bytes after its data over 37 up to them, and for IEND the
/// last four bytes over the four before them.
pub proof fn law_png_chunks_carry_crc(width: u32, height: u32, rgba: Seq<u8>)
    requires
        width >= 1,
        height >= 1,
        rgba.len() == width * height * 4,
    ensures
        ({
            let png = png_file(width, height, rgba);
            let z = zlib_stored(scanlines(rgba, width as nat * 4, height as nat));
            let d = z.len() as int;
            let n = png.len() as int;
            &&& n == 57 + d
            &&& png.subrange(8, 12) == be32_bytes(13)
            &&& png.subrange(29, 33) == be32_bytes(crc32_of(png.subrange(12, 29)))
            &&& png.subrange(33, 37) == be32_bytes(z.len() as u32)
            &&& png.subrange(37, 41) == idat_kind()
            &&& png.subrange(41 + d, 45 + d) == be32_bytes(crc32_of(png.subrange(37, 41 + d)))
            &&& png.subrange(n - 12, n - 8) == be32_bytes(0)
            &&& png.subrange(n - 4, n) == be32_bytes(crc32_of(png.subrange(n - 8, n - 4)))
        }),
{
    law_png_reads_back(width, height, rgba);
    let png = png_file(width, height, rgba);
    let z = zlib_stored(scanlines(rgba, width as nat * 4, height as nat));
    let d = z.len() as int;
    let n = png.len() as int;
    lemma_chunk_layout(ihdr_kind(), ihdr_data(width, height));
    lemma_chunk_layout(idat_kind(), z);
    lemma_chunk_layout(iend_kind(), seq![]);
    lemma_subrange_of_part(png, 8, 33, 0, 4);
    lemma_subrange_of_part(png, 8, 33, 4, 21);
    lemma_subrange_of_part(png, 8, 33, 21, 25);
    lemma_subrange_of_part(png, 33, 45 + d, 0, 4);
    lemma_subrange_of_part(png, 33, 45 + d, 4, 8);
    lemma_subrange_of_part(png, 33, 45 + d, 4, d + 8);
    lemma_subrange_of_part(png, 33, 45 + d, d + 8, d + 12);
    assert(png.skip(45 + d) == png.subrange(45 + d, n));
    lemma_subrange_of_part(png, 45 + d, n, 0, 4);
    lemma_subrange_of_part(png, 45 + d, n, 4, 8);
    lemma_subrange_of_part(png, 45 + d, n, 8, 12);
}

/// Appends one PNG chunk of type `kind` holding `data` to `output`.
pub fn append_chunk(output: &mut Vec<u8>, kind: &[u8; 4], data: &[u8])
    ensures
        final(output)@ == old(output)@ + png_chunk(kind@, data@),
{
    push_be32(output, data.len() as u32);
    extend_bytes(output, kind.as_slice());
    extend_bytes(output, data);
    let mut crc_input: Vec<u8> = Vec::new();
    extend_bytes(&mut crc_input, kind.as_slice());
    extend_bytes(&mut crc_input, data);
    push_be32(output, crc32(crc_input.as_slice()));
    assert(output@ =~= old(output)@ + png_chunk(kind@, data@));
}

/// Encodes a `width` x `height` RGBA pixel buffer as a PNG file; fails when
/// the buffer does not hold exactly `width * height * 4` bytes.
pub fn encode_png_rgba(width: u32, height: u32, rgba: &[u8]) -> (r: Result<Vec<u8>, String>)
    requires
        width * height * 4 <= usize::MAX,
        width * 4 <= usize::MAX,
        width > 0 || rgba@.len() > 0,
    ensures
        r is Ok <==> rgba@.len() == width * height * 4,
        r matches Ok(png) ==> png@ == png_file(width, height, rgba@),
        r matches Err(e) ==> e@ == "pixel buffer dimensions do not match"@,
{
    assert(width as int * height as int <= width as int * height as int * 4) by (nonlinear_arith);
    let expected: usize = width as usize * height as usize * 4;
    if rgba.len() != expected {
        return Err(String::from_str("pixel buffer dimensions do not match"));
    }
    let row_len: usize = width as usize * 4;
    assert(row_len * height as usize == expected) by (nonlinear_arith)
        requires
            row_len == width * 4,
            expected == width * height * 4,
    ;
    let scan = scanlines_exec(rgba, row_len, height as usize);
    let compressed = zlib_stored_exec(scan.as_slice());
    let mut png: Vec<u8> = Vec::new();
    let signature: [u8; 8] = [137, 80, 78, 71, 13, 10, 26, 10];
    extend_bytes(&mut png, signature.as_slice());
    let mut header: Vec<u8> = Vec::new();
    push_be32(&mut header, width);
    push_be32(&mut header, height);
    let tail: [u8; 5] = [8, 6, 0, 0, 0];
    extend_bytes(&mut header, tail.as_slice());
    assert(header@ =~= ihdr_data(width, height));
    let ihdr: [u8; 4] = [73, 72, 68, 82];
    let idat: [u8; 4] = [73, 68, 65, 84];
    let iend: [u8; 4] = [73, 69, 78, 68];
    assert(signature@ =~= png_signature());
    assert(ihdr@ =~= ihdr_kind());
    assert(idat@ =~= idat_kind());
    assert(iend@ =~= iend_kind());
    append_chunk(&mut png, &ihdr, header.as_slice());
    append_chunk(&mut png, &idat, compressed.as_slice());
    let empty: [u8; 0] = [];
    append_chunk(&mut png, &iend, empty.as_slice());
    assert(empty@ =~= Seq::<u8>::empty());
    assert(png@ =~= png_file(width, height, rgba@));
    Ok(png)
}

} // verus!
