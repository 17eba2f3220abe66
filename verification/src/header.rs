//! Container header codec.
//!
//! The on-disk header region is exactly 4096 bytes: a 4-byte prefix
//! (two reserved zero bytes, then the big-endian 16-bit length of the
//! encoded record, always 4092), followed by the schema-encoded header
//! record, whose trailing padding field is sized so the record lands on
//! exactly 4092 bytes.  The audio payload begins at byte offset 4096;
//! a file whose declared record length disagrees is treated as corrupt.
//!
//! The record is a sequence of tagged fields: the 20-byte content
//! digest, the payload byte count, the content identifier, the ordered
//! chapter page indices (packed), and the opaque padding.  Integers are
//! base-128 varints, little-endian, with a continuation bit.

use vstd::prelude::*;

use crate::fault::Fault;

verus! {

// ---------------------------------------------------------------
// Varints
// ---------------------------------------------------------------

/// Number of bytes in the varint encoding of `x`.
pub open spec fn varint_len(x: nat) -> nat
    decreases x,
{
    if x < 128 {
        1
    } else {
        1 + varint_len(x / 128)
    }
}

/// The varint encoding of `x`: seven value bits per byte, least
/// significant group first, the high bit marking continuation.
pub open spec fn spec_varint(x: nat) -> Seq<u8>
    decreases x,
{
    if x < 128 {
        seq![x as u8]
    } else {
        seq![(128 + (x % 128)) as u8] + spec_varint(x / 128)
    }
}

pub proof fn lemma_varint_len(x: nat)
    ensures
        spec_varint(x).len() == varint_len(x),
        1 <= varint_len(x),
    decreases x,
{
    if x >= 128 {
        lemma_varint_len(x / 128);
    }
}

/// Varint encodings of small numbers are short: anything below 2^14
/// takes at most two bytes, anything below 2^7 exactly one.
pub proof fn lemma_varint_len_small(x: nat)
    ensures
        x < 128 ==> varint_len(x) == 1,
        128 <= x < 16384 ==> varint_len(x) == 2,
{
    if 128 <= x < 16384 {
        assert(x / 128 < 128);
        assert(varint_len(x / 128) == 1);
    }
}

/// Reads a varint at `pos`; `None` on truncation.  The result is the
/// decoded value and the position just past it.
pub open spec fn spec_parse_varint(data: Seq<u8>, pos: int) -> Option<(nat, int)>
    decreases data.len() - pos,
{
    if pos < 0 || pos >= data.len() {
        None
    } else {
        let b = data[pos];
        if b < 128 {
            Some((b as nat, pos + 1))
        } else {
            match spec_parse_varint(data, pos + 1) {
                None => None,
                Some((v, p)) => Some((((b - 128) as nat + 128 * v) as nat, p)),
            }
        }
    }
}

/// Parsing an encoded varint gives the value back and stops just past
/// its last byte.
pub proof fn lemma_varint_roundtrip(data: Seq<u8>, pos: int, x: nat)
    requires
        0 <= pos,
        pos + varint_len(x) <= data.len(),
        data.subrange(pos, pos + varint_len(x) as int) == spec_varint(x),
    ensures
        spec_parse_varint(data, pos) == Some((x, pos + varint_len(x))),
    decreases x,
{
    lemma_varint_len(x);
    if x < 128 {
        assert(data[pos] == spec_varint(x)[0]);
    } else {
        lemma_varint_len((x / 128) as nat);
        let n = varint_len(x) as int;
        let whole = data.subrange(pos, pos + n);
        let tail = spec_varint((x / 128) as nat);
        assert(whole == seq![(128 + (x % 128)) as u8] + tail);
        assert(data[pos] == whole[0]);
        assert(data.subrange(pos + 1, pos + 1 + varint_len((x / 128) as nat) as int) =~= tail) by {
            assert forall|i: int| 0 <= i < tail.len() implies data[pos + 1 + i] == tail[i] by {
                assert(data[pos + 1 + i] == whole[1 + i]);
            }
        };
        lemma_varint_roundtrip(data, pos + 1, (x / 128) as nat);
        assert(x % 128 + 128 * (x / 128) == x) by {
            vstd::arithmetic::div_mod::lemma_fundamental_div_mod(x as int, 128);
        };
        assert((data[pos] - 128) as nat + 128 * (x / 128) == x);
    }
}

/// A parsed varint always advances and never runs past the input.
pub proof fn lemma_parse_varint_bounds(data: Seq<u8>, pos: int)
    ensures
        spec_parse_varint(data, pos) matches Some(r) ==> pos < r.1 <= data.len(),
    decreases data.len() - pos,
{
    if 0 <= pos < data.len() && data[pos] >= 128 {
        lemma_parse_varint_bounds(data, pos + 1);
    }
}

/// Appends the varint encoding of `x`.
fn encode_varint(x: u64, out: &mut Vec<u8>)
    ensures
        final(out)@ == old(out)@ + spec_varint(x as nat),
    decreases x,
{
    if x < 128 {
        out.push(x as u8);
        proof {
            assert(final(out)@ =~= old(out)@ + spec_varint(x as nat));
        }
    } else {
        out.push((128 + (x % 128)) as u8);
        let ghost mid = out@;
        encode_varint(x / 128, out);
        proof {
            assert(final(out)@ =~= old(out)@ + spec_varint(x as nat));
        }
    }
}

// ---------------------------------------------------------------
// The header record
// ---------------------------------------------------------------

/// Mathematical model of a container header: the fields that matter,
/// without the padding, whose length is derived and whose content is
/// opaque.
pub ghost struct HeaderModel {
    /// 20-byte digest over the payload.
    pub sha1_hash: Seq<u8>,
    /// Byte count of the payload following the header region.
    pub num_bytes: u32,
    /// Content identifier, the catalog lookup key.
    pub audio_id: u32,
    /// Ordered chapter page indices.
    pub track_page_nums: Seq<u32>,
}

/// A container header held by executable code.
#[derive(Debug, Clone, PartialEq)]
pub struct ContainerHeader {
    /// 20-byte digest over the payload.
    pub sha1_hash: Vec<u8>,
    /// Byte count of the payload following the header region.
    pub num_bytes: u32,
    /// Content identifier, the catalog lookup key.
    pub audio_id: u32,
    /// Ordered chapter page indices.
    pub track_page_nums: Vec<u32>,
}

impl View for ContainerHeader {
    type V = HeaderModel;

    open spec fn view(&self) -> HeaderModel {
        HeaderModel {
            sha1_hash: self.sha1_hash@,
            num_bytes: self.num_bytes,
            audio_id: self.audio_id,
            track_page_nums: self.track_page_nums@,
        }
    }
}

/// A header within field-size limits: the digest is exactly 20 bytes.
pub open spec fn wf_header(m: HeaderModel) -> bool {
    m.sha1_hash.len() == 20
}

// ---------------------------------------------------------------
// Spec-level encoding
// ---------------------------------------------------------------

/// `n` zero bytes.
pub open spec fn spec_zeros(n: nat) -> Seq<u8> {
    Seq::new(n, |i: int| 0u8)
}

/// The packed payload of the chapter-page field: the varints of the
/// page indices, in order.
pub open spec fn spec_pages_payload(pages: Seq<u32>) -> Seq<u8>
    decreases pages.len(),
{
    if pages.len() == 0 {
        Seq::empty()
    } else {
        spec_varint(pages[0] as nat) + spec_pages_payload(pages.drop_first())
    }
}

/// The encoded chapter-page field; omitted entirely when the list is
/// empty.
pub open spec fn spec_field4(pages: Seq<u32>) -> Seq<u8> {
    if pages.len() == 0 {
        Seq::empty()
    } else {
        seq![0x22u8] + spec_varint(spec_pages_payload(pages).len()) + spec_pages_payload(pages)
    }
}

/// The encoded record up to but not including the padding field.
pub open spec fn spec_fields(m: HeaderModel) -> Seq<u8> {
    seq![0x0Au8] + spec_varint(m.sha1_hash.len()) + m.sha1_hash + seq![0x10u8] + spec_varint(
        m.num_bytes as nat,
    ) + seq![0x18u8] + spec_varint(m.audio_id as nat) + spec_field4(m.track_page_nums)
}

/// The encoded record with a padding field of `fill` zero bytes.
pub open spec fn spec_record(m: HeaderModel, fill: nat) -> Seq<u8> {
    spec_fields(m) + seq![0x2Au8] + spec_varint(fill) + spec_zeros(fill)
}

/// The full on-disk header region: two reserved zero bytes, the
/// big-endian 16-bit record length, then the record.
pub open spec fn spec_region(m: HeaderModel, fill: nat) -> Seq<u8> {
    let rl = spec_record(m, fill).len();
    seq![0u8, 0u8, (rl / 256) as u8, (rl % 256) as u8] + spec_record(m, fill)
}

// ---------------------------------------------------------------
// Spec-level parsing
// ---------------------------------------------------------------

/// Reads the packed chapter-page list between `pos` and `end`:
/// varints, each a 32-bit page index, ending exactly at `end`.
pub open spec fn spec_parse_pages(data: Seq<u8>, pos: int, end: int) -> Option<Seq<u32>>
    decreases end - pos,
    via spec_parse_pages_decreases
{
    if pos == end {
        Some(Seq::empty())
    } else if pos < 0 || pos > end || end > data.len() {
        None
    } else {
        match spec_parse_varint(data, pos) {
            None => None,
            Some((v, p)) => if v <= u32::MAX && p <= end {
                match spec_parse_pages(data, p, end) {
                    None => None,
                    Some(rest) => Some(seq![v as u32] + rest),
                }
            } else {
                None
            },
        }
    }
}

#[via_fn]
proof fn spec_parse_pages_decreases(data: Seq<u8>, pos: int, end: int) {
    lemma_parse_varint_bounds(data, pos);
}

/// Reads one record: the tagged fields in canonical order, the
/// chapter-page field optional, the padding field running exactly to
/// the end of the record.  `None` marks a corrupt record.
pub open spec fn spec_parse_record(rec: Seq<u8>) -> Option<HeaderModel> {
    if rec.len() == 0 || rec[0] != 0x0A {
        None
    } else {
        match spec_parse_varint(rec, 1) {
            None => None,
            Some((hlen, hp)) => if hlen != 20 || hp + 20 > rec.len() {
                None
            } else {
                let sha1_hash = rec.subrange(hp, hp + 20);
                let p2 = hp + 20;
                if p2 >= rec.len() || rec[p2] != 0x10 {
                    None
                } else {
                    match spec_parse_varint(rec, p2 + 1) {
                        None => None,
                        Some((nb, p3)) => if nb > u32::MAX || p3 >= rec.len() || rec[p3] != 0x18 {
                            None
                        } else {
                            match spec_parse_varint(rec, p3 + 1) {
                                None => None,
                                Some((aid, p4)) => if aid > u32::MAX {
                                    None
                                } else {
                                    spec_parse_tail(rec, p4, sha1_hash, nb as u32, aid as u32)
                                },
                            }
                        },
                    }
                }
            },
        }
    }
}

/// Reads the optional chapter-page field and the padding field, then
/// assembles the model.
pub open spec fn spec_parse_tail(
    rec: Seq<u8>,
    pos: int,
    sha1_hash: Seq<u8>,
    num_bytes: u32,
    audio_id: u32,
) -> Option<HeaderModel> {
    if pos >= rec.len() {
        None
    } else if rec[pos] == 0x22 {
        match spec_parse_varint(rec, pos + 1) {
            None => None,
            Some((plen, pp)) => if pp + plen > rec.len() {
                None
            } else {
                match spec_parse_pages(rec, pp, pp + plen) {
                    None => None,
                    Some(pages) => spec_parse_fill(rec, pp + plen, sha1_hash, num_bytes, audio_id, pages),
                }
            },
        }
    } else {
        spec_parse_fill(rec, pos, sha1_hash, num_bytes, audio_id, Seq::empty())
    }
}

/// Reads the padding field: its declared length must land exactly on
/// the end of the record; its content is opaque.
pub open spec fn spec_parse_fill(
    rec: Seq<u8>,
    pos: int,
    sha1_hash: Seq<u8>,
    num_bytes: u32,
    audio_id: u32,
    pages: Seq<u32>,
) -> Option<HeaderModel> {
    if pos >= rec.len() || rec[pos] != 0x2A {
        None
    } else {
        match spec_parse_varint(rec, pos + 1) {
            None => None,
            Some((flen, fp)) => if fp + flen == rec.len() {
                Some(
                    HeaderModel {
                        sha1_hash,
                        num_bytes,
                        audio_id,
                        track_page_nums: pages,
                    },
                )
            } else {
                None
            },
        }
    }
}

/// Reads a full header region prefix: the reserved bytes must be zero,
/// the declared record length must be exactly the canonical one, and
/// the record must decode.  The payload begins at byte offset 4096;
/// any file violating the convention is corrupt.
pub open spec fn spec_parse_header(data: Seq<u8>) -> Option<HeaderModel> {
    if data.len() < 4096 {
        None
    } else if data[0] != 0 || data[1] != 0 || data[2] != (4092int / 256) as u8 || data[3] != (
    4092int % 256) as u8 {
        None
    } else {
        spec_parse_record(data.subrange(4, 4096))
    }
}

/// Reads a varint from `data` at `pos`.  `None` where the input is
/// truncated or the value does not fit an unsigned 64-bit integer.
fn parse_varint(data: &Vec<u8>, pos: usize) -> (r: Option<(u64, usize)>)
    ensures
        match r {
            Some((v, p)) => spec_parse_varint(data@, pos as int) == Some(((v as nat), (p as int)))
                && pos < p <= data@.len(),
            None => spec_parse_varint(data@, pos as int) matches Some(x) ==> x.0 > u64::MAX,
        },
    decreases data@.len() - pos,
{
    if pos >= data.len() {
        return None;
    }
    let b = data[pos];
    if b < 128 {
        Some((b as u64, pos + 1))
    } else {
        match parse_varint(data, pos + 1) {
            None => None,
            Some((v, p)) => {
                if v <= (u64::MAX - 127) / 128 {
                    Some(((b - 128) as u64 + 128 * v, p))
                } else {
                    None
                }
            },
        }
    }
}

/// The bytes of `data` between `from` and `to`, as a fresh vector.
fn copy_range(data: &Vec<u8>, from: usize, to: usize) -> (r: Vec<u8>)
    requires
        from <= to <= data@.len(),
    ensures
        r@ == data@.subrange(from as int, to as int),
{
    let mut out: Vec<u8> = Vec::new();
    let mut i: usize = from;
    while i < to
        invariant
            from <= i <= to <= data@.len(),
            out@ == data@.subrange(from as int, i as int),
        decreases to - i,
    {
        out.push(data[i]);
        proof {
            assert(out@ =~= data@.subrange(from as int, i + 1 as int));
        }
        i += 1;
    }
    out
}

/// Reads the packed chapter-page list lying between `pos` and `end`,
/// appending the page indices to `out`.
fn parse_pages_into(rec: &Vec<u8>, pos: usize, end: usize, out: &mut Vec<u32>) -> (ok: bool)
    requires
        pos <= end <= rec@.len(),
    ensures
        match spec_parse_pages(rec@, pos as int, end as int) {
            None => !ok,
            Some(pages) => ok && final(out)@ == old(out)@ + pages,
        },
    decreases end - pos,
{
    if pos == end {
        proof {
            assert(old(out)@ + Seq::<u32>::empty() =~= old(out)@);
        }
        return true;
    }
    proof {
        lemma_parse_varint_bounds(rec@, pos as int);
    }
    match parse_varint(rec, pos) {
        None => false,
        Some((v, p)) => {
            if v > u32::MAX as u64 || p > end {
                return false;
            }
            out.push(v as u32);
            let ghost mid = out@;
            let ok = parse_pages_into(rec, p, end, out);
            proof {
                if ok {
                    match spec_parse_pages(rec@, p as int, end as int) {
                        Some(rest) => {
                            assert(out@ =~= old(out)@ + (seq![v as u32] + rest));
                        },
                        None => {},
                    }
                }
            }
            ok
        },
    }
}

/// Reads the packed chapter-page list lying between `pos` and `end`.
fn parse_pages(rec: &Vec<u8>, pos: usize, end: usize) -> (r: Option<Vec<u32>>)
    requires
        pos <= end <= rec@.len(),
    ensures
        match spec_parse_pages(rec@, pos as int, end as int) {
            None => r is None,
            Some(pages) => r matches Some(v) && v@ == pages,
        },
{
    let mut out: Vec<u32> = Vec::new();
    if parse_pages_into(rec, pos, end, &mut out) {
        Some(out)
    } else {
        None
    }
}

/// Decodes one canonical header record.  A corrupt record is a header
/// decode fault; a single corrupt file never aborts a scan.
pub fn parse_record(rec: &Vec<u8>) -> (r: Result<ContainerHeader, Fault>)
    ensures
        r is Ok <==> spec_parse_record(rec@) is Some,
        r matches Ok(h) ==> spec_parse_record(rec@) == Some(h@),
        r matches Err(e) ==> e == Fault::HeaderDecode,
{
    if rec.len() == 0 || rec[0] != 0x0A {
        return Err(Fault::HeaderDecode);
    }
    let (hlen, hp) = match parse_varint(rec, 1) {
        None => {
            return Err(Fault::HeaderDecode);
        },
        Some(x) => x,
    };
    proof {
        lemma_parse_varint_bounds(rec@, 1);
    }
    if hlen != 20 || rec.len() < 20 || hp > rec.len() - 20 {
        return Err(Fault::HeaderDecode);
    }
    let sha1_hash = copy_range(rec, hp, hp + 20);
    let p2 = hp + 20;
    if p2 >= rec.len() || rec[p2] != 0x10 {
        return Err(Fault::HeaderDecode);
    }
    let (nb, p3) = match parse_varint(rec, p2 + 1) {
        None => {
            return Err(Fault::HeaderDecode);
        },
        Some(x) => x,
    };
    proof {
        lemma_parse_varint_bounds(rec@, p2 + 1);
    }
    if nb > u32::MAX as u64 || p3 >= rec.len() || rec[p3] != 0x18 {
        return Err(Fault::HeaderDecode);
    }
    let (aid, p4) = match parse_varint(rec, p3 + 1) {
        None => {
            return Err(Fault::HeaderDecode);
        },
        Some(x) => x,
    };
    proof {
        lemma_parse_varint_bounds(rec@, p3 + 1);
    }
    if aid > u32::MAX as u64 {
        return Err(Fault::HeaderDecode);
    }
    let num_bytes = nb as u32;
    let audio_id = aid as u32;

    // Optional packed chapter-page field.
    let mut track_page_nums: Vec<u32> = Vec::new();
    let mut p5 = p4;
    if p4 < rec.len() && rec[p4] == 0x22 {
        proof {
            lemma_parse_varint_bounds(rec@, p4 + 1);
        }
        let (plen, pp) = match parse_varint(rec, p4 + 1) {
            None => {
                return Err(Fault::HeaderDecode);
            },
            Some(x) => x,
        };
        if plen > (rec.len() - pp) as u64 {
            return Err(Fault::HeaderDecode);
        }
        let pend = pp + plen as usize;
        track_page_nums = match parse_pages(rec, pp, pend) {
            None => {
                return Err(Fault::HeaderDecode);
            },
            Some(v) => v,
        };
        p5 = pend;
    }

    // Padding field: must land exactly on the end of the record.
    if p5 >= rec.len() || rec[p5] != 0x2A {
        return Err(Fault::HeaderDecode);
    }
    proof {
        lemma_parse_varint_bounds(rec@, p5 + 1);
    }
    let (flen, fp) = match parse_varint(rec, p5 + 1) {
        None => {
            return Err(Fault::HeaderDecode);
        },
        Some(x) => x,
    };
    if flen != (rec.len() - fp) as u64 {
        return Err(Fault::HeaderDecode);
    }
    Ok(ContainerHeader { sha1_hash, num_bytes, audio_id, track_page_nums })
}

/// Decodes the header region at the front of a file's bytes: the
/// reserved prefix, the canonical record length, then the record.
/// Truncated input, a record length violating the fixed 4096-byte
/// region, or a record that fails to decode are all header decode
/// faults.
pub fn parse_header(data: &Vec<u8>) -> (r: Result<ContainerHeader, Fault>)
    ensures
        r is Ok <==> spec_parse_header(data@) is Some,
        r matches Ok(h) ==> spec_parse_header(data@) == Some(h@),
        r matches Err(e) ==> e == Fault::HeaderDecode,
{
    if data.len() < 4096 {
        return Err(Fault::HeaderDecode);
    }
    if data[0] != 0 || data[1] != 0 || data[2] != 15 || data[3] != 252 {
        return Err(Fault::HeaderDecode);
    }
    let rec = copy_range(data, 4, 4096);
    parse_record(&rec)
}

// ---------------------------------------------------------------
// Encoding
// ---------------------------------------------------------------

/// Splitting a page list splits its packed payload.
pub proof fn lemma_pages_payload_concat(a: Seq<u32>, b: Seq<u32>)
    ensures
        spec_pages_payload(a + b) == spec_pages_payload(a) + spec_pages_payload(b),
    decreases a.len(),
{
    if a.len() == 0 {
        assert(a + b =~= b);
        assert(spec_pages_payload(a) + spec_pages_payload(b) =~= spec_pages_payload(b));
    } else {
        assert((a + b).drop_first() =~= a.drop_first() + b);
        lemma_pages_payload_concat(a.drop_first(), b);
        assert(spec_varint(a[0] as nat) + (spec_pages_payload(a.drop_first())
            + spec_pages_payload(b)) =~= (spec_varint(a[0] as nat) + spec_pages_payload(
            a.drop_first(),
        )) + spec_pages_payload(b));
    }
}

/// Appends the bytes of `src`.
fn append_bytes(dst: &mut Vec<u8>, src: &Vec<u8>)
    ensures
        final(dst)@ == old(dst)@ + src@,
{
    let mut i: usize = 0;
    while i < src.len()
        invariant
            i <= src@.len(),
            dst@ == old(dst)@ + src@.subrange(0, i as int),
        decreases src@.len() - i,
    {
        dst.push(src[i]);
        proof {
            assert(dst@ =~= old(dst)@ + src@.subrange(0, i + 1 as int));
        }
        i += 1;
    }
    proof {
        assert(old(dst)@ + src@.subrange(0, src@.len() as int) =~= old(dst)@ + src@);
    }
}

/// Appends the packed payload of the chapter-page field.
fn encode_pages_payload(pages: &Vec<u32>, out: &mut Vec<u8>)
    ensures
        final(out)@ == old(out)@ + spec_pages_payload(pages@),
{
    let mut i: usize = 0;
    while i < pages.len()
        invariant
            i <= pages@.len(),
            out@ == old(out)@ + spec_pages_payload(pages@.take(i as int)),
        decreases pages@.len() - i,
    {
        encode_varint(pages[i] as u64, out);
        proof {
            let x = pages@[i as int];
            let s1 = seq![x];
            assert(pages@.take(i + 1 as int) =~= pages@.take(i as int) + s1);
            lemma_pages_payload_concat(pages@.take(i as int), s1);
            assert(s1.drop_first() =~= Seq::<u32>::empty());
            assert(spec_pages_payload(s1) == spec_varint(s1[0] as nat) + spec_pages_payload(
                s1.drop_first(),
            ));
            assert(spec_pages_payload(Seq::<u32>::empty()) == Seq::<u8>::empty());
            assert(spec_pages_payload(s1) =~= spec_varint(x as nat));
            assert(out@ =~= old(out)@ + spec_pages_payload(pages@.take(i + 1 as int)));
        }
        i += 1;
    }
    proof {
        assert(pages@.take(pages@.len() as int) =~= pages@);
    }
}

/// Encodes the record fields up to but not including the padding.
fn encode_fields(h: &ContainerHeader) -> (out: Vec<u8>)
    ensures
        out@ == spec_fields(h@),
{
    let mut out: Vec<u8> = Vec::new();
    out.push(0x0A);
    encode_varint(h.sha1_hash.len() as u64, &mut out);
    append_bytes(&mut out, &h.sha1_hash);
    out.push(0x10);
    encode_varint(h.num_bytes as u64, &mut out);
    out.push(0x18);
    encode_varint(h.audio_id as u64, &mut out);
    if h.track_page_nums.len() > 0 {
        let mut payload: Vec<u8> = Vec::new();
        encode_pages_payload(&h.track_page_nums, &mut payload);
        out.push(0x22);
        encode_varint(payload.len() as u64, &mut out);
        append_bytes(&mut out, &payload);
    }
    proof {
        assert(out@ =~= spec_fields(h@));
    }
    out
}

/// The padding length that lands the record on exactly 4092 bytes, if
/// one exists: the padding field's own length prefix grows with the
/// padding, so no length may fit, in which case the header is rejected
/// rather than silently truncated.
pub open spec fn spec_fill_for(m: HeaderModel) -> Option<nat> {
    let t = 4091 - spec_fields(m).len();
    if t >= 130 {
        Some((t - 2) as nat)
    } else if 1 <= t <= 128 {
        Some((t - 1) as nat)
    } else {
        None
    }
}

/// The chosen padding length does land the record on 4092 bytes.
pub proof fn lemma_fill_for(m: HeaderModel)
    requires
        spec_fill_for(m) is Some,
        spec_fields(m).len() <= 4092,
    ensures
        spec_record(m, spec_fill_for(m).unwrap()).len() == 4092,
{
    let t = 4091 - spec_fields(m).len();
    let n = spec_fill_for(m).unwrap();
    lemma_varint_len_small(n);
    lemma_varint_len(n);
    if t >= 130 {
        assert(t <= 4091);
        assert(128 <= n < 16384);
    }
}

/// Serializes a header into its exact 4096-byte on-disk region: the
/// reserved prefix, the canonical record length, the encoded fields and
/// a padding field sized by the two-pass fixed point.  Fails on a
/// digest that is not exactly 20 bytes, or when no padding length can
/// land the record on its fixed size.  The result always parses back to
/// the same header.
pub fn serialize_header(h: &ContainerHeader) -> (r: Result<Vec<u8>, Fault>)
    ensures
        r is Ok <==> wf_header(h@) && spec_fill_for(h@) is Some,
        r matches Ok(b) ==> b@.len() == 4096 && b@ == spec_region(h@, spec_fill_for(h@).unwrap())
            && spec_parse_header(b@) == Some(h@),
        r matches Err(e) ==> e == Fault::HeaderDecode,
{
    if h.sha1_hash.len() != 20 {
        return Err(Fault::HeaderDecode);
    }
    let fields = encode_fields(h);
    let flen = fields.len();
    if flen > 4090 {
        // Even an empty padding field cannot fit.
        return Err(Fault::HeaderDecode);
    }
    let t = 4091 - flen;
    if t == 129 {
        // The padding length prefix cannot land on the fixed size.
        return Err(Fault::HeaderDecode);
    }
    let n: usize = if t >= 130 { t - 2 } else { t - 1 };
    let mut rec = fields;
    rec.push(0x2A);
    encode_varint(n as u64, &mut rec);
    let ghost before_zeros = rec@;
    let mut i: usize = 0;
    while i < n
        invariant
            i <= n,
            rec@ == before_zeros + spec_zeros(i as nat),
        decreases n - i,
    {
        rec.push(0);
        proof {
            assert(rec@ =~= before_zeros + spec_zeros((i + 1) as nat));
        }
        i += 1;
    }
    proof {
        assert(rec@ =~= spec_record(h@, n as nat));
        assert(spec_fill_for(h@) == Some(n as nat));
        lemma_fill_for(h@);
        assert(rec@.len() == 4092);
    }
    let mut out: Vec<u8> = Vec::new();
    out.push(0);
    out.push(0);
    out.push(15);
    out.push(252);
    append_bytes(&mut out, &rec);
    proof {
        assert(out@ =~= spec_region(h@, n as nat));
        lemma_header_roundtrip(h@, n as nat);
    }
    Ok(out)
}

// ---------------------------------------------------------------
// Building a header over a payload
// ---------------------------------------------------------------

/// The 20-byte SHA-1 digest of a byte string; a function of the bytes
/// alone.
pub uninterp spec fn digest_of(data: Seq<u8>) -> Seq<u8>;

/// Relies on sha1::Sha1 through its Digest trait: the SHA-1 digest of
/// the input, always 20 bytes, depending on the bytes alone.
#[verifier::external_body]
fn sha1_digest(data: &Vec<u8>) -> (r: Vec<u8>)
    ensures
        r@ == digest_of(data@),
        r@.len() == 20,
{
    <sha1::Sha1 as sha1::Digest>::digest(data.as_slice()).to_vec()
}

/// The header a build over `payload` carries: its digest, its byte
/// count, the content identifier and the chapter pages.
pub open spec fn spec_built_header(payload: Seq<u8>, audio_id: u32, pages: Seq<u32>) -> HeaderModel {
    HeaderModel {
        sha1_hash: digest_of(payload),
        num_bytes: payload.len() as u32,
        audio_id,
        track_page_nums: pages,
    }
}

/// Builds the 4096-byte header region for a payload: computes the
/// content digest and the payload byte count, then serializes with the
/// padding fixed point.  Fails on a payload too long for its 32-bit
/// byte count, or on a chapter list too long for the fixed region;
/// it never silently truncates.
pub fn build_header(payload: &Vec<u8>, audio_id: u32, track_page_nums: Vec<u32>) -> (r: Result<
    Vec<u8>,
    Fault,
>)
    ensures
        r is Ok <==> payload@.len() <= u32::MAX && spec_fill_for(
            spec_built_header(payload@, audio_id, track_page_nums@),
        ) is Some,
        r matches Ok(b) ==> b@.len() == 4096 && spec_parse_header(b@) == Some(
            spec_built_header(payload@, audio_id, track_page_nums@),
        ),
        r matches Err(e) ==> e == Fault::HeaderDecode,
{
    if payload.len() > u32::MAX as usize {
        return Err(Fault::HeaderDecode);
    }
    let sha1_hash = sha1_digest(payload);
    let h = ContainerHeader { sha1_hash, num_bytes: payload.len() as u32, audio_id, track_page_nums };
    serialize_header(&h)
}

// ---------------------------------------------------------------
// The payload behind the header region
// ---------------------------------------------------------------

/// Reads the declared record length out of the 4-byte prefix: its
/// third and fourth byte, big-endian.
pub fn read_header_len(buf: &Vec<u8>) -> (r: Result<usize, Fault>)
    ensures
        buf@.len() >= 4 ==> r == Ok::<usize, Fault>(
            ((buf@[2] as usize) * 256 + (buf@[3] as usize)) as usize,
        ),
        buf@.len() < 4 ==> r == Err::<usize, Fault>(Fault::HeaderDecode),
{
    if buf.len() < 4 {
        return Err(Fault::HeaderDecode);
    }
    Ok((buf[2] as usize) * 256 + (buf[3] as usize))
}

/// The audio payload of a container file's bytes: everything after the
/// fixed 4096-byte header region.  Available only where the header
/// parses; a file violating the canonical offset convention is corrupt.
pub fn audio_payload(data: &Vec<u8>) -> (r: Result<Vec<u8>, Fault>)
    ensures
        r is Ok <==> spec_parse_header(data@) is Some,
        r matches Ok(p) ==> p@ == data@.subrange(4096, data@.len() as int),
        r matches Err(e) ==> e == Fault::HeaderDecode,
{
    match parse_header(data) {
        Ok(_) => Ok(copy_range(data, 4096, data.len())),
        Err(e) => Err(e),
    }
}

// ---------------------------------------------------------------
// Round trip
// ---------------------------------------------------------------

/// Parsing an encoded packed page list gives the pages back.
pub proof fn lemma_pages_roundtrip(data: Seq<u8>, pos: int, pages: Seq<u32>)
    requires
        0 <= pos,
        pos + spec_pages_payload(pages).len() <= data.len(),
        data.subrange(pos, pos + spec_pages_payload(pages).len()) == spec_pages_payload(pages),
    ensures
        spec_parse_pages(data, pos, pos + spec_pages_payload(pages).len()) == Some(pages),
    decreases pages.len(),
{
    let payload = spec_pages_payload(pages);
    let end = pos + payload.len();
    if pages.len() == 0 {
        assert(payload.len() == 0);
    } else {
        let head = pages[0] as nat;
        let hv = spec_varint(head);
        let rest = spec_pages_payload(pages.drop_first());
        lemma_varint_len(head);
        assert(payload =~= hv + rest);
        assert(data.subrange(pos, pos + hv.len() as int) =~= hv) by {
            assert forall|i: int| 0 <= i < hv.len() implies data[pos + i] == hv[i] by {
                assert(data[pos + i] == data.subrange(pos, end)[i]);
                assert(payload[i] == hv[i]);
            }
        };
        lemma_varint_roundtrip(data, pos, head);
        let p = pos + varint_len(head);
        assert(data.subrange(p, p + rest.len() as int) =~= rest) by {
            assert forall|i: int| 0 <= i < rest.len() implies data[p + i] == rest[i] by {
                assert(data[p + i] == data.subrange(pos, end)[varint_len(head) + i]);
                assert(payload[varint_len(head) + i] == rest[i]);
            }
        };
        lemma_pages_roundtrip(data, p, pages.drop_first());
        assert(head <= u32::MAX);
        assert(seq![pages[0]] + pages.drop_first() =~= pages);
    }
}

/// Law: a record encoded with any padding length parses back to
/// exactly the header it encodes.
#[verifier::rlimit(60)]
pub proof fn lemma_record_roundtrip(m: HeaderModel, fill: nat)
    requires
        wf_header(m),
    ensures
        spec_parse_record(spec_record(m, fill)) == Some(m),
{
    let rec = spec_record(m, fill);
    assert(m.track_page_nums.len() == 0 ==> m.track_page_nums =~= Seq::<u32>::empty());
    let v20 = spec_varint(20);
    let vnb = spec_varint(m.num_bytes as nat);
    let vaid = spec_varint(m.audio_id as nat);
    let f4 = spec_field4(m.track_page_nums);
    let vf = spec_varint(fill);
    let zs = spec_zeros(fill);
    let ln = varint_len(m.num_bytes as nat) as int;
    let la = varint_len(m.audio_id as nat) as int;
    lemma_varint_len(m.num_bytes as nat);
    lemma_varint_len(m.audio_id as nat);
    lemma_varint_len(fill);

    assert(rec =~= seq![0x0Au8] + v20 + m.sha1_hash + seq![0x10u8] + vnb + seq![0x18u8] + vaid + f4
        + seq![0x2Au8] + vf + zs);

    // Field 1: the digest.
    assert(rec[0] == 0x0A);
    assert(rec.subrange(1, 2) =~= v20);
    lemma_varint_roundtrip(rec, 1, 20);
    assert(rec.subrange(2, 22) =~= m.sha1_hash);

    // Field 2: the payload byte count.
    assert(rec[22] == 0x10);
    assert(rec.subrange(23, 23 + ln) =~= vnb);
    lemma_varint_roundtrip(rec, 23, m.num_bytes as nat);
    let p3 = 23 + ln;

    // Field 3: the content identifier.
    assert(rec[p3] == 0x18);
    assert(rec.subrange(p3 + 1, p3 + 1 + la) =~= vaid);
    lemma_varint_roundtrip(rec, p3 + 1, m.audio_id as nat);
    let p4 = p3 + 1 + la;

    // Field 4 (optional) and the padding field.
    let pages = m.track_page_nums;
    if pages.len() == 0 {
        assert(f4.len() == 0);
        assert(rec[p4] == 0x2A);
        assert(rec.subrange(p4 + 1, p4 + 1 + varint_len(fill) as int) =~= vf);
        lemma_varint_roundtrip(rec, p4 + 1, fill);
        let fp = p4 + 1 + varint_len(fill);
        assert(fp + fill == rec.len());
        assert(spec_parse_fill(rec, p4, m.sha1_hash, m.num_bytes, m.audio_id, Seq::empty())
            == Some(m));
    } else {
        let payload = spec_pages_payload(pages);
        let lp = varint_len(payload.len()) as int;
        lemma_varint_len(payload.len());
        assert(f4 =~= seq![0x22u8] + spec_varint(payload.len()) + payload);
        assert(rec[p4] == 0x22);
        assert(rec.subrange(p4 + 1, p4 + 1 + lp) =~= spec_varint(payload.len()));
        lemma_varint_roundtrip(rec, p4 + 1, payload.len());
        let pp = p4 + 1 + lp;
        assert(rec.subrange(pp, pp + payload.len() as int) =~= payload);
        lemma_pages_roundtrip(rec, pp, pages);
        let p5 = pp + payload.len();
        assert(rec[p5] == 0x2A);
        assert(rec.subrange(p5 + 1, p5 + 1 + varint_len(fill) as int) =~= vf);
        lemma_varint_roundtrip(rec, p5 + 1, fill);
        let fp = p5 + 1 + varint_len(fill);
        assert(fp + fill == rec.len());
        assert(spec_parse_fill(rec, p5, m.sha1_hash, m.num_bytes, m.audio_id, pages) == Some(m));
    }
}

/// Law: serializing a well-formed header within field-size limits and
/// parsing the bytes back gives the same header, and the serialized
/// region is always exactly 4096 bytes.
pub proof fn lemma_header_roundtrip(m: HeaderModel, fill: nat)
    requires
        wf_header(m),
        spec_record(m, fill).len() == 4092,
    ensures
        spec_region(m, fill).len() == 4096,
        spec_parse_header(spec_region(m, fill)) == Some(m),
{
    let reg = spec_region(m, fill);
    assert(reg.subrange(4, 4096) =~= spec_record(m, fill));
    lemma_record_roundtrip(m, fill);
    assert(reg[0] == 0 && reg[1] == 0 && reg[2] == 15 && reg[3] == 252);
}

} // verus!
