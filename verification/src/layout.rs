use vstd::prelude::*;
use vstd::arithmetic::div_mod::lemma_div_denominator;
use crate::state::Milestone;
use crate::state::PlatformState;
use crate::state::Project;

verus! {

/// Little-endian bytes of a 32-bit length prefix.
pub open spec fn enc_u32(n: u32) -> Seq<u8> {
    seq![
        (n % 256) as u8,
        ((n / 256) % 256) as u8,
        ((n / 65536) % 256) as u8,
        ((n / 16777216) % 256) as u8,
    ]
}

/// Little-endian bytes of a 64-bit field.
pub open spec fn enc_u64(n: u64) -> Seq<u8> {
    seq![
        (n % 256) as u8,
        ((n / 256) % 256) as u8,
        ((n / 65536) % 256) as u8,
        ((n / 16777216) % 256) as u8,
        ((n / 4294967296) % 256) as u8,
        ((n / 1099511627776) % 256) as u8,
        ((n / 281474976710656) % 256) as u8,
        ((n / 72057594037927936) % 256) as u8,
    ]
}

/// The value four little-endian bytes carry.
pub open spec fn dec_u32(s: Seq<u8>) -> int {
    s[0] + 256 * s[1] + 65536 * s[2] + 16777216 * s[3]
}

/// The value eight little-endian bytes carry.
pub open spec fn dec_u64(s: Seq<u8>) -> int {
    s[0] + 256 * s[1] + 65536 * s[2] + 16777216 * s[3] + 4294967296 * s[4] + 1099511627776 * s[5]
        + 281474976710656 * s[6] + 72057594037927936 * s[7]
}

/// A signed 64-bit timestamp carried as its two's-complement 64-bit
/// value.
pub open spec fn i64_as_u64(t: i64) -> u64 {
    if t >= 0 {
        t as u64
    } else {
        ((t as int) + 0x10000000000000000) as u64
    }
}

/// A length-prefixed byte string: a 32-bit length, then the bytes.
pub open spec fn enc_bytes(s: Seq<u8>) -> Seq<u8> {
    enc_u32(s.len() as u32) + s
}

/// A boolean as one byte, zero or one.
pub open spec fn enc_bool(b: bool) -> Seq<u8> {
    seq![
        if b {
            1u8
        } else {
            0u8
        },
    ]
}

/// An optional timestamp: an absence byte, then the value when present.
pub open spec fn enc_opt_i64(o: Option<i64>) -> Seq<u8> {
    match o {
        None => seq![0u8],
        Some(t) => seq![1u8] + enc_u64(i64_as_u64(t)),
    }
}

/// Four little-endian bytes carry a 32-bit value, and they are exactly
/// that value's encoding.
proof fn lemma_enc_dec_u32(s: Seq<u8>)
    requires
        s.len() == 4,
    ensures
        0 <= dec_u32(s) < 0x100000000,
        enc_u32(dec_u32(s) as u32) =~= s,
{
    let n = dec_u32(s);
    let u1 = s[1] + 256 * (s[2] + 256 * s[3]);
    let u2 = s[2] + 256 * s[3];
    let u3 = s[3] as int;
    assert(n == s[0] + 256 * u1);
    assert(n % 256 == s[0] && n / 256 == u1) by (nonlinear_arith)
        requires
            n == s[0] + 256 * u1,
            0 <= s[0] < 256,
            0 <= u1,
    ;
    assert(u1 % 256 == s[1] && u1 / 256 == u2) by (nonlinear_arith)
        requires
            u1 == s[1] + 256 * u2,
            0 <= s[1] < 256,
            0 <= u2,
    ;
    assert(u2 % 256 == s[2] && u2 / 256 == u3) by (nonlinear_arith)
        requires
            u2 == s[2] + 256 * u3,
            0 <= s[2] < 256,
            0 <= u3,
    ;
    lemma_div_denominator(n, 256, 256);
    lemma_div_denominator(n, 65536, 256);
    assert(n / 65536 == u2);
    assert(n / 16777216 == u3);
    assert(u3 % 256 == u3);
}

/// Eight little-endian bytes carry a 64-bit value, and they are exactly
/// that value's encoding.
proof fn lemma_enc_dec_u64(s: Seq<u8>)
    requires
        s.len() == 8,
    ensures
        0 <= dec_u64(s) < 0x10000000000000000,
        enc_u64(dec_u64(s) as u64) =~= s,
{
    let n = dec_u64(s);
    let u7 = s[7] as int;
    let u6 = s[6] + 256 * u7;
    let u5 = s[5] + 256 * u6;
    let u4 = s[4] + 256 * u5;
    let u3 = s[3] + 256 * u4;
    let u2 = s[2] + 256 * u3;
    let u1 = s[1] + 256 * u2;
    assert(n == s[0] + 256 * u1);
    assert(n % 256 == s[0] && n / 256 == u1) by (nonlinear_arith)
        requires
            n == s[0] + 256 * u1,
            0 <= s[0] < 256,
            0 <= u1,
    ;
    assert(u1 % 256 == s[1] && u1 / 256 == u2) by (nonlinear_arith)
        requires
            u1 == s[1] + 256 * u2,
            0 <= s[1] < 256,
            0 <= u2,
    ;
    assert(u2 % 256 == s[2] && u2 / 256 == u3) by (nonlinear_arith)
        requires
            u2 == s[2] + 256 * u3,
            0 <= s[2] < 256,
            0 <= u3,
    ;
    assert(u3 % 256 == s[3] && u3 / 256 == u4) by (nonlinear_arith)
        requires
            u3 == s[3] + 256 * u4,
            0 <= s[3] < 256,
            0 <= u4,
    ;
    assert(u4 % 256 == s[4] && u4 / 256 == u5) by (nonlinear_arith)
        requires
            u4 == s[4] + 256 * u5,
            0 <= s[4] < 256,
            0 <= u5,
    ;
    assert(u5 % 256 == s[5] && u5 / 256 == u6) by (nonlinear_arith)
        requires
            u5 == s[5] + 256 * u6,
            0 <= s[5] < 256,
            0 <= u6,
    ;
    assert(u6 % 256 == s[6] && u6 / 256 == u7) by (nonlinear_arith)
        requires
            u6 == s[6] + 256 * u7,
            0 <= s[6] < 256,
            0 <= u7,
    ;
    lemma_div_denominator(n, 256, 256);
    lemma_div_denominator(n, 65536, 256);
    lemma_div_denominator(n, 16777216, 256);
    lemma_div_denominator(n, 4294967296, 256);
    lemma_div_denominator(n, 1099511627776, 256);
    lemma_div_denominator(n, 281474976710656, 256);
    assert(n / 65536 == u2);
    assert(n / 16777216 == u3);
    assert(n / 4294967296 == u4);
    assert(n / 1099511627776 == u5);
    assert(n / 281474976710656 == u6);
    assert(n / 72057594037927936 == u7);
    assert(u7 % 256 == u7);
}

/// A length prefix decodes back to the length it was made from.
proof fn lemma_dec_enc_u32(n: u32)
    ensures
        dec_u32(enc_u32(n)) == n,
{
    let q1 = (n as int) / 256;
    let q2 = (n as int) / 65536;
    let q3 = (n as int) / 16777216;
    vstd::arithmetic::div_mod::lemma_fundamental_div_mod(n as int, 256);
    vstd::arithmetic::div_mod::lemma_fundamental_div_mod(q1, 256);
    vstd::arithmetic::div_mod::lemma_fundamental_div_mod(q2, 256);
    lemma_div_denominator(n as int, 256, 256);
    lemma_div_denominator(n as int, 65536, 256);
    assert(q1 / 256 == q2);
    assert(q2 / 256 == q3);
    assert(q3 < 256 && q3 >= 0) by (nonlinear_arith)
        requires
            q3 == (n as int) / 16777216,
            0 <= n < 0x100000000,
    ;
    assert(q3 % 256 == q3);
}

/// Appends the four little-endian bytes of a length prefix.
fn write_u32(out: &mut Vec<u8>, n: u32)
    ensures
        final (out)@ == old(out)@ + enc_u32(n),
{
    out.push((n % 256) as u8);
    out.push(((n / 256) % 256) as u8);
    out.push(((n / 65536) % 256) as u8);
    out.push(((n / 16777216) % 256) as u8);
    proof {
        assert(out@ =~= old(out)@ + enc_u32(n));
    }
}

/// Appends the eight little-endian bytes of a 64-bit field.
fn write_u64(out: &mut Vec<u8>, n: u64)
    ensures
        final (out)@ == old(out)@ + enc_u64(n),
{
    out.push((n % 256) as u8);
    out.push(((n / 256) % 256) as u8);
    out.push(((n / 65536) % 256) as u8);
    out.push(((n / 16777216) % 256) as u8);
    out.push(((n / 4294967296) % 256) as u8);
    out.push(((n / 1099511627776) % 256) as u8);
    out.push(((n / 281474976710656) % 256) as u8);
    out.push(((n / 72057594037927936) % 256) as u8);
    proof {
        assert(out@ =~= old(out)@ + enc_u64(n));
    }
}

/// Appends a timestamp as its two's-complement 64-bit value.
fn write_i64(out: &mut Vec<u8>, t: i64)
    ensures
        final (out)@ == old(out)@ + enc_u64(i64_as_u64(t)),
{
    let u: u64 = if t >= 0 {
        t as u64
    } else {
        ((t as i128) + 0x10000000000000000i128) as u64
    };
    write_u64(out, u);
}

/// Appends a length-prefixed byte string.
fn write_bytes(out: &mut Vec<u8>, s: &Vec<u8>)
    requires
        s@.len() < 0x100000000,
    ensures
        final (out)@ == old(out)@ + enc_bytes(s@),
{
    write_u32(out, s.len() as u32);
    let mut i: usize = 0;
    while i < s.len()
        invariant
            i <= s@.len(),
            out@ =~= old(out)@ + enc_u32(s@.len() as u32) + s@.subrange(0, i as int),
        decreases s@.len() - i,
    {
        out.push(s[i]);
        i += 1;
    }
    proof {
        assert(out@ =~= old(out)@ + enc_bytes(s@));
    }
}

/// Reads one byte.
fn read_u8(buf: &Vec<u8>, pos: usize) -> (r: Option<(u8, usize)>)
    ensures
        r matches Some(v) ==> pos < buf@.len() && v.1 == pos + 1 && v.0 == buf@[pos as int],
        r is None ==> pos >= buf@.len(),
{
    if pos < buf.len() {
        Some((buf[pos], pos + 1))
    } else {
        None
    }
}

/// Reads a 32-bit length prefix; the four bytes read are exactly the
/// returned value's encoding.
fn read_u32(buf: &Vec<u8>, pos: usize) -> (r: Option<(u32, usize)>)
    ensures
        r matches Some(v) ==> {
            &&& pos + 4 <= buf@.len()
            &&& v.1 == pos + 4
            &&& v.0 == dec_u32(buf@.subrange(pos as int, pos as int + 4))
            &&& enc_u32(v.0) == buf@.subrange(pos as int, pos as int + 4)
        },
        r is None ==> pos + 4 > buf@.len(),
{
    if pos > buf.len() || buf.len() - pos < 4 {
        return None;
    }
    let b0 = buf[pos] as u32;
    let b1 = buf[pos + 1] as u32;
    let b2 = buf[pos + 2] as u32;
    let b3 = buf[pos + 3] as u32;
    let n = b0 + 256 * (b1 + 256 * (b2 + 256 * b3));
    proof {
        let piece = buf@.subrange(pos as int, pos as int + 4);
        lemma_enc_dec_u32(piece);
        assert(n == dec_u32(piece));
    }
    Some((n, pos + 4))
}

/// Reads a 64-bit field; the eight bytes read are exactly the returned
/// value's encoding.
fn read_u64(buf: &Vec<u8>, pos: usize) -> (r: Option<(u64, usize)>)
    ensures
        r matches Some(v) ==> {
            &&& pos + 8 <= buf@.len()
            &&& v.1 == pos + 8
            &&& v.0 == dec_u64(buf@.subrange(pos as int, pos as int + 8))
            &&& enc_u64(v.0) == buf@.subrange(pos as int, pos as int + 8)
        },
        r is None ==> pos + 8 > buf@.len(),
{
    if pos > buf.len() || buf.len() - pos < 8 {
        return None;
    }
    let b0 = buf[pos] as u64;
    let b1 = buf[pos + 1] as u64;
    let b2 = buf[pos + 2] as u64;
    let b3 = buf[pos + 3] as u64;
    let b4 = buf[pos + 4] as u64;
    let b5 = buf[pos + 5] as u64;
    let b6 = buf[pos + 6] as u64;
    let b7 = buf[pos + 7] as u64;
    let n = b0 + 256 * (b1 + 256 * (b2 + 256 * (b3 + 256 * (b4 + 256 * (b5 + 256 * (b6 + 256
        * b7))))));
    proof {
        let piece = buf@.subrange(pos as int, pos as int + 8);
        lemma_enc_dec_u64(piece);
        assert(n == dec_u64(piece));
    }
    Some((n, pos + 8))
}

/// Reads a timestamp carried as its two's-complement 64-bit value.
fn read_i64(buf: &Vec<u8>, pos: usize) -> (r: Option<(i64, usize)>)
    ensures
        r matches Some(v) ==> {
            &&& pos + 8 <= buf@.len()
            &&& v.1 == pos + 8
            &&& enc_u64(i64_as_u64(v.0)) == buf@.subrange(pos as int, pos as int + 8)
        },
        r is None ==> pos + 8 > buf@.len(),
{
    match read_u64(buf, pos) {
        None => None,
        Some((u, next)) => {
            let t: i64 = if u >= 0x8000000000000000 {
                ((u as i128) - 0x10000000000000000i128) as i64
            } else {
                u as i64
            };
            proof {
                assert(i64_as_u64(t) == u);
            }
            Some((t, next))
        },
    }
}

/// Reads a length-prefixed byte string; the bytes read are exactly the
/// returned string's encoding.
fn read_bytes(buf: &Vec<u8>, pos: usize) -> (r: Option<(Vec<u8>, usize)>)
    ensures
        r matches Some(v) ==> {
            &&& pos + 4 <= buf@.len()
            &&& v.0@.len() == dec_u32(buf@.subrange(pos as int, pos as int + 4))
            &&& v.1 == pos + 4 + v.0@.len()
            &&& v.1 <= buf@.len()
            &&& enc_bytes(v.0@) == buf@.subrange(pos as int, v.1 as int)
        },
        r is None ==> pos + 4 > buf@.len() || pos + 4 + dec_u32(
            buf@.subrange(pos as int, pos as int + 4),
        ) > buf@.len(),
{
    let (len32, start) = match read_u32(buf, pos) {
        None => {
            return None;
        },
        Some(v) => v,
    };
    let len = len32 as usize;
    if buf.len() - start < len {
        return None;
    }
    let mut s: Vec<u8> = Vec::new();
    let mut i: usize = 0;
    while i < len
        invariant
            i <= len,
            start + len <= buf@.len(),
            buf@.len() <= usize::MAX,
            s@ =~= buf@.subrange(start as int, start as int + i as int),
        decreases len - i,
    {
        s.push(buf[start + i]);
        i += 1;
    }
    proof {
        assert(s@ =~= buf@.subrange(start as int, start as int + len as int));
        assert(enc_bytes(s@) =~= buf@.subrange(pos as int, start as int + len as int));
    }
    Some((s, start + len))
}

/// The schema tag of a platform record.
pub open spec fn platform_record_tag() -> Seq<u8> {
    seq![80u8, 76u8, 65u8, 84u8, 70u8, 79u8, 82u8, 77u8]
}

/// The schema tag of a project record.
pub open spec fn project_record_tag() -> Seq<u8> {
    seq![80u8, 82u8, 79u8, 74u8, 69u8, 67u8, 84u8, 95u8]
}

/// The schema tag of a milestone record.
pub open spec fn milestone_record_tag() -> Seq<u8> {
    seq![77u8, 73u8, 76u8, 69u8, 83u8, 84u8, 79u8, 78u8]
}

fn platform_record_tag_bytes() -> (r: Vec<u8>)
    ensures
        r@ == platform_record_tag(),
{
    let mut v: Vec<u8> = Vec::new();
    v.push(80);
    v.push(76);
    v.push(65);
    v.push(84);
    v.push(70);
    v.push(79);
    v.push(82);
    v.push(77);
    proof {
        assert(v@ =~= platform_record_tag());
    }
    v
}

fn project_record_tag_bytes() -> (r: Vec<u8>)
    ensures
        r@ == project_record_tag(),
{
    let mut v: Vec<u8> = Vec::new();
    v.push(80);
    v.push(82);
    v.push(79);
    v.push(74);
    v.push(69);
    v.push(67);
    v.push(84);
    v.push(95);
    proof {
        assert(v@ =~= project_record_tag());
    }
    v
}

fn milestone_record_tag_bytes() -> (r: Vec<u8>)
    ensures
        r@ == milestone_record_tag(),
{
    let mut v: Vec<u8> = Vec::new();
    v.push(77);
    v.push(73);
    v.push(76);
    v.push(69);
    v.push(83);
    v.push(84);
    v.push(79);
    v.push(78);
    proof {
        assert(v@ =~= milestone_record_tag());
    }
    v
}

/// The byte representation of a platform record: the schema tag, the
/// length-prefixed admin identity, and the project counter.
pub open spec fn spec_platform_record(p: PlatformState) -> Seq<u8> {
    platform_record_tag() + enc_bytes(p.admin@) + enc_u64(p.project_count)
}

/// The byte representation of a project record: the schema tag, the three
/// length-prefixed strings, the three 64-bit totals, the one-byte
/// milestone counter, the creation time, and the length-prefixed
/// authority identity.
pub open spec fn spec_project_record(p: Project) -> Seq<u8> {
    project_record_tag() + enc_bytes(p.id@) + enc_bytes(p.title@) + enc_bytes(p.ministry@)
        + enc_u64(p.total_budget) + enc_u64(p.total_allocated) + enc_u64(p.total_released)
        + seq![p.milestone_count] + enc_u64(i64_as_u64(p.created_at)) + enc_bytes(p.authority@)
}

/// The byte representation of a milestone record: the schema tag, the
/// length-prefixed parent identifier, the one-byte index, the
/// length-prefixed description, the amount, the release flag, the
/// optional release time, and the length-prefixed proof reference.
pub open spec fn spec_milestone_record(m: Milestone) -> Seq<u8> {
    milestone_record_tag() + enc_bytes(m.project_id@) + seq![m.index] + enc_bytes(m.description@)
        + enc_u64(m.amount) + enc_bool(m.is_released) + enc_opt_i64(m.released_at) + enc_bytes(
        m.proof_url@,
    )
}

/// Whether the buffer starts with the given tag.
fn has_tag(buf: &Vec<u8>, tag: &Vec<u8>) -> (r: bool)
    ensures
        r == (buf@.len() >= tag@.len() && buf@.subrange(0, tag@.len() as int) == tag@),
{
    if buf.len() < tag.len() {
        return false;
    }
    let mut i: usize = 0;
    while i < tag.len()
        invariant
            i <= tag@.len(),
            tag@.len() <= buf@.len(),
            forall|j: int| 0 <= j < i ==> buf@[j] == tag@[j],
        decreases tag@.len() - i,
    {
        if buf[i] != tag[i] {
            proof {
                assert(buf@.subrange(0, tag@.len() as int)[i as int] == buf@[i as int]);
            }
            return false;
        }
        i += 1;
    }
    proof {
        assert(buf@.subrange(0, tag@.len() as int) =~= tag@);
    }
    true
}

/// Serializes a platform record.
pub fn encode_platform(p: &PlatformState) -> (r: Vec<u8>)
    requires
        p.admin@.len() < 0x100000000,
    ensures
        r@ == spec_platform_record(*p),
{
    let mut out = platform_record_tag_bytes();
    write_bytes(&mut out, &p.admin);
    write_u64(&mut out, p.project_count);
    proof {
        assert(out@ =~= spec_platform_record(*p));
    }
    out
}

/// Serializes a project record.
pub fn encode_project(p: &Project) -> (r: Vec<u8>)
    requires
        p.id@.len() < 0x100000000,
        p.title@.len() < 0x100000000,
        p.ministry@.len() < 0x100000000,
        p.authority@.len() < 0x100000000,
    ensures
        r@ == spec_project_record(*p),
{
    let mut out = project_record_tag_bytes();
    write_bytes(&mut out, &p.id);
    write_bytes(&mut out, &p.title);
    write_bytes(&mut out, &p.ministry);
    write_u64(&mut out, p.total_budget);
    write_u64(&mut out, p.total_allocated);
    write_u64(&mut out, p.total_released);
    out.push(p.milestone_count);
    write_i64(&mut out, p.created_at);
    write_bytes(&mut out, &p.authority);
    proof {
        assert(out@ =~= spec_project_record(*p));
    }
    out
}

/// Serializes a milestone record.
pub fn encode_milestone(m: &Milestone) -> (r: Vec<u8>)
    requires
        m.project_id@.len() < 0x100000000,
        m.description@.len() < 0x100000000,
        m.proof_url@.len() < 0x100000000,
    ensures
        r@ == spec_milestone_record(*m),
{
    let mut out = milestone_record_tag_bytes();
    write_bytes(&mut out, &m.project_id);
    out.push(m.index);
    write_bytes(&mut out, &m.description);
    write_u64(&mut out, m.amount);
    if m.is_released {
        out.push(1);
    } else {
        out.push(0);
    }
    match m.released_at {
        None => out.push(0),
        Some(t) => {
            out.push(1);
            write_i64(&mut out, t);
        },
    }
    write_bytes(&mut out, &m.proof_url);
    proof {
        reveal(spec_milestone_record);
        assert(out@ =~= spec_milestone_record(*m));
    }
    out
}

/// The positions and length prefixes a platform record's bytes carry.
proof fn platform_parse_facts(buf: Seq<u8>, p: PlatformState)
    requires
        p.admin@.len() < 0x100000000,
        buf == spec_platform_record(p),
    ensures
        buf.len() == 20 + p.admin@.len(),
        buf.subrange(0, 8) == platform_record_tag(),
        dec_u32(buf.subrange(8, 12)) == p.admin@.len(),
{
    assert(buf.subrange(0, 8) =~= platform_record_tag());
    assert(buf.subrange(8, 12) =~= enc_u32(p.admin@.len() as u32));
    lemma_dec_enc_u32(p.admin@.len() as u32);
}

/// Parses a platform record: the accepted buffers are exactly the
/// serialized records, and an accepted buffer re-serializes to itself.
pub fn decode_platform(buf: &Vec<u8>) -> (r: Option<PlatformState>)
    ensures
        r matches Some(q) ==> q.admin@.len() < 0x100000000 && spec_platform_record(q) == buf@,
        forall|p: PlatformState|
            p.admin@.len() < 0x100000000 && buf@ == spec_platform_record(p) ==> r is Some,
{
    let tag = platform_record_tag_bytes();
    if !has_tag(buf, &tag) {
        proof {
            assert forall|p: PlatformState|
                p.admin@.len() < 0x100000000 && buf@ == spec_platform_record(
                    p,
                ) implies false by {
                platform_parse_facts(buf@, p);
            }
        }
        return None;
    }
    let (admin, a_end) = match read_bytes(buf, 8) {
        None => {
            proof {
                assert forall|p: PlatformState|
                    p.admin@.len() < 0x100000000 && buf@ == spec_platform_record(
                        p,
                    ) implies false by {
                    platform_parse_facts(buf@, p);
                }
            }
            return None;
        },
        Some(v) => v,
    };
    let (count, end) = match read_u64(buf, a_end) {
        None => {
            proof {
                assert forall|p: PlatformState|
                    p.admin@.len() < 0x100000000 && buf@ == spec_platform_record(
                        p,
                    ) implies false by {
                    platform_parse_facts(buf@, p);
                }
            }
            return None;
        },
        Some(v) => v,
    };
    if end != buf.len() {
        proof {
            assert forall|p: PlatformState|
                p.admin@.len() < 0x100000000 && buf@ == spec_platform_record(
                    p,
                ) implies false by {
                platform_parse_facts(buf@, p);
            }
        }
        return None;
    }
    let q = PlatformState { admin, project_count: count };
    proof {
        assert(buf@ =~= buf@.subrange(0, 8) + buf@.subrange(8, a_end as int) + buf@.subrange(
            a_end as int,
            end as int,
        ));
        assert(spec_platform_record(q) == buf@);
    }
    Some(q)
}


/// The tag, the identifier length prefix, and the total length a project
/// record's bytes carry.
#[verifier::rlimit(100)]
proof fn lemma_project_head(buf: Seq<u8>, p: Project)
    requires
        p.id@.len() < 0x100000000,
        buf == spec_project_record(p),
    ensures
        buf.len() == 57 + p.id@.len() + p.title@.len() + p.ministry@.len() + p.authority@.len(),
        buf.subrange(0, 8) == project_record_tag(),
        dec_u32(buf.subrange(8, 12)) == p.id@.len(),
{
    assert(buf.subrange(0, 8) =~= project_record_tag());
    assert(buf.subrange(8, 12) =~= enc_u32(p.id@.len() as u32));
    lemma_dec_enc_u32(p.id@.len() as u32);
}

/// The title length prefix a project record's bytes carry.
#[verifier::rlimit(100)]
proof fn lemma_project_title_len(buf: Seq<u8>, p: Project)
    requires
        p.title@.len() < 0x100000000,
        buf == spec_project_record(p),
    ensures
        dec_u32(buf.subrange((12 + p.id@.len()) as int, (16 + p.id@.len()) as int)) == p.title@.len(),
{
    assert(buf.subrange((12 + p.id@.len()) as int, (16 + p.id@.len()) as int) =~= enc_u32(p.title@.len() as u32));
    lemma_dec_enc_u32(p.title@.len() as u32);
}

/// The ministry length prefix a project record's bytes carry.
#[verifier::rlimit(100)]
proof fn lemma_project_ministry_len(buf: Seq<u8>, p: Project)
    requires
        p.ministry@.len() < 0x100000000,
        buf == spec_project_record(p),
    ensures
        dec_u32(
            buf.subrange(
                (16 + p.id@.len() + p.title@.len()) as int,
                (20 + p.id@.len() + p.title@.len()) as int,
            ),
        ) == p.ministry@.len(),
{
    assert(buf.subrange((16 + p.id@.len() + p.title@.len()) as int, (20 + p.id@.len() + p.title@.len()) as int)
        =~= enc_u32(p.ministry@.len() as u32));
    lemma_dec_enc_u32(p.ministry@.len() as u32);
}

/// The authority length prefix a project record's bytes carry.
#[verifier::rlimit(100)]
proof fn lemma_project_authority_len(buf: Seq<u8>, p: Project)
    requires
        p.authority@.len() < 0x100000000,
        buf == spec_project_record(p),
    ensures
        dec_u32(
            buf.subrange(
                (53 + p.id@.len() + p.title@.len() + p.ministry@.len()) as int,
                (57 + p.id@.len() + p.title@.len() + p.ministry@.len()) as int,
            ),
        ) == p.authority@.len(),
{
    assert(buf.subrange(
        (53 + p.id@.len() + p.title@.len() + p.ministry@.len()) as int,
        (57 + p.id@.len() + p.title@.len() + p.ministry@.len()) as int,
    ) =~= enc_u32(p.authority@.len() as u32));
    lemma_dec_enc_u32(p.authority@.len() as u32);
}

/// Everything a milestone record's bytes determine: the tag, each length
/// prefix, the marker bytes, and the total length.
#[verifier::rlimit(100)]
proof fn lemma_milestone_facts(buf: Seq<u8>, m: Milestone)
    requires
        m.project_id@.len() < 0x100000000,
        m.description@.len() < 0x100000000,
        m.proof_url@.len() < 0x100000000,
        buf == spec_milestone_record(m),
    ensures
        buf.len() == (if m.released_at is Some {
            39int
        } else {
            31int
        }) + m.project_id@.len() + m.description@.len() + m.proof_url@.len(),
        buf.subrange(0, 8) == milestone_record_tag(),
        dec_u32(buf.subrange(8, 12)) == m.project_id@.len(),
        dec_u32(buf.subrange((13 + m.project_id@.len()) as int, (17 + m.project_id@.len()) as int))
            == m.description@.len(),
        buf[(25 + m.project_id@.len() + m.description@.len()) as int] == (if m.is_released {
            1u8
        } else {
            0u8
        }),
        buf[(26 + m.project_id@.len() + m.description@.len()) as int] == (if m.released_at
            is Some {
            1u8
        } else {
            0u8
        }),
        ({
            let h = (if m.released_at is Some {
                35int
            } else {
                27int
            }) + m.project_id@.len() + m.description@.len();
            dec_u32(buf.subrange(h as int, h as int + 4)) == m.proof_url@.len()
        }),
{
    lemma_milestone_head(buf, m);
    lemma_milestone_desc_len(buf, m);
    lemma_milestone_markers(buf, m);
    lemma_milestone_proof_len(buf, m);
}

/// A buffer cut into pieces that are exactly the fields' encodings is the
/// record's serialization.
#[verifier::rlimit(100)]
proof fn lemma_project_exact(
    buf: Seq<u8>,
    q: Project,
    e1: int,
    e2: int,
    e3: int,
    e4: int,
    e5: int,
    e6: int,
    e7: int,
    e8: int,
    e9: int,
)
    requires
        8 <= e1 <= e2 <= e3 <= e4 <= e5 <= e6 < e7 <= e8 <= e9,
        e9 == buf.len(),
        e7 == e6 + 1,
        buf.subrange(0, 8) == project_record_tag(),
        enc_bytes(q.id@) == buf.subrange(8, e1),
        enc_bytes(q.title@) == buf.subrange(e1, e2),
        enc_bytes(q.ministry@) == buf.subrange(e2, e3),
        enc_u64(q.total_budget) == buf.subrange(e3, e4),
        enc_u64(q.total_allocated) == buf.subrange(e4, e5),
        enc_u64(q.total_released) == buf.subrange(e5, e6),
        buf[e6] == q.milestone_count,
        enc_u64(i64_as_u64(q.created_at)) == buf.subrange(e7, e8),
        enc_bytes(q.authority@) == buf.subrange(e8, e9),
    ensures
        spec_project_record(q) == buf,
{
    assert(buf.subrange(0, e1) =~= buf.subrange(0, 8) + buf.subrange(8, e1));
    assert(buf.subrange(0, e2) =~= buf.subrange(0, e1) + buf.subrange(e1, e2));
    assert(buf.subrange(0, e3) =~= buf.subrange(0, e2) + buf.subrange(e2, e3));
    assert(buf.subrange(0, e4) =~= buf.subrange(0, e3) + buf.subrange(e3, e4));
    assert(buf.subrange(0, e5) =~= buf.subrange(0, e4) + buf.subrange(e4, e5));
    assert(buf.subrange(0, e6) =~= buf.subrange(0, e5) + buf.subrange(e5, e6));
    assert(buf.subrange(e6, e7) =~= seq![q.milestone_count]);
    assert(buf.subrange(0, e7) =~= buf.subrange(0, e6) + buf.subrange(e6, e7));
    assert(buf.subrange(0, e8) =~= buf.subrange(0, e7) + buf.subrange(e7, e8));
    assert(buf.subrange(0, e9) =~= buf.subrange(0, e8) + buf.subrange(e8, e9));
    assert(buf.subrange(0, e9) =~= buf);
}

/// Parses a project record: the accepted buffers are exactly the
/// serialized records, and an accepted buffer re-serializes to itself.
#[verifier::rlimit(100)]
pub fn decode_project(buf: &Vec<u8>) -> (r: Option<Project>)
    ensures
        r matches Some(q) ==> spec_project_record(q) == buf@,
        forall|p: Project|
            p.id@.len() < 0x100000000 && p.title@.len() < 0x100000000 && p.ministry@.len()
                < 0x100000000 && p.authority@.len() < 0x100000000 && buf@ == spec_project_record(p)
                ==> r is Some,
{
    let tag = project_record_tag_bytes();
    if !has_tag(buf, &tag) {
        proof {
            assert forall|p: Project|
                p.id@.len() < 0x100000000 && p.title@.len() < 0x100000000 && p.ministry@.len()
                    < 0x100000000 && p.authority@.len() < 0x100000000 && buf@
                    == spec_project_record(p) implies false by {
                lemma_project_head(buf@, p);
            }
        }
        return None;
    }
    let (id, e1) = match read_bytes(buf, 8) {
        Some(v) => v,
        None => {
            proof {
                assert forall|p: Project|
                    p.id@.len() < 0x100000000 && p.title@.len() < 0x100000000 && p.ministry@.len()
                        < 0x100000000 && p.authority@.len() < 0x100000000 && buf@
                        == spec_project_record(p) implies false by {
                    lemma_project_head(buf@, p);
                }
            }
            return None;
        },
    };
    let (title, e2) = match read_bytes(buf, e1) {
        Some(v) => v,
        None => {
            proof {
                assert forall|p: Project|
                    p.id@.len() < 0x100000000 && p.title@.len() < 0x100000000 && p.ministry@.len()
                        < 0x100000000 && p.authority@.len() < 0x100000000 && buf@
                        == spec_project_record(p) implies false by {
                    lemma_project_head(buf@, p);
                    lemma_project_title_len(buf@, p);
                }
            }
            return None;
        },
    };
    let (ministry, e3) = match read_bytes(buf, e2) {
        Some(v) => v,
        None => {
            proof {
                assert forall|p: Project|
                    p.id@.len() < 0x100000000 && p.title@.len() < 0x100000000 && p.ministry@.len()
                        < 0x100000000 && p.authority@.len() < 0x100000000 && buf@
                        == spec_project_record(p) implies false by {
                    lemma_project_head(buf@, p);
                    lemma_project_title_len(buf@, p);
                    lemma_project_ministry_len(buf@, p);
                }
            }
            return None;
        },
    };
    let rest = match read_u64(buf, e3) {
        Some((total_budget, e4)) => match read_u64(buf, e4) {
            Some((total_allocated, e5)) => match read_u64(buf, e5) {
                Some((total_released, e6)) => match read_u8(buf, e6) {
                    Some((milestone_count, e7)) => match read_i64(buf, e7) {
                        Some((created_at, e8)) => match read_bytes(buf, e8) {
                            Some((authority, e9)) => Some(
                                (
                                    total_budget,
                                    total_allocated,
                                    total_released,
                                    milestone_count,
                                    created_at,
                                    authority,
                                    e4,
                                    e5,
                                    e6,
                                    e7,
                                    e8,
                                    e9,
                                ),
                            ),
                            None => None,
                        },
                        None => None,
                    },
                    None => None,
                },
                None => None,
            },
            None => None,
        },
        None => None,
    };
    match rest {
        None => {
            proof {
                assert forall|p: Project|
                    p.id@.len() < 0x100000000 && p.title@.len() < 0x100000000 && p.ministry@.len()
                        < 0x100000000 && p.authority@.len() < 0x100000000 && buf@
                        == spec_project_record(p) implies false by {
                    lemma_project_head(buf@, p);
                    lemma_project_title_len(buf@, p);
                    lemma_project_ministry_len(buf@, p);
                    lemma_project_authority_len(buf@, p);
                }
            }
            None
        },
        Some(
            (
                total_budget,
                total_allocated,
                total_released,
                milestone_count,
                created_at,
                authority,
                e4,
                e5,
                e6,
                e7,
                e8,
                e9,
            ),
        ) => {
            if e9 != buf.len() {
                proof {
                    assert forall|p: Project|
                        p.id@.len() < 0x100000000 && p.title@.len() < 0x100000000
                            && p.ministry@.len() < 0x100000000 && p.authority@.len() < 0x100000000
                            && buf@ == spec_project_record(p) implies false by {
                        lemma_project_head(buf@, p);
                        lemma_project_title_len(buf@, p);
                        lemma_project_ministry_len(buf@, p);
                        lemma_project_authority_len(buf@, p);
                    }
                }
                return None;
            }
            let q = Project {
                id,
                title,
                ministry,
                total_budget,
                total_allocated,
                total_released,
                milestone_count,
                created_at,
                authority,
            };
            proof {
                lemma_project_exact(
                    buf@,
                    q,
                    e1 as int,
                    e2 as int,
                    e3 as int,
                    e4 as int,
                    e5 as int,
                    e6 as int,
                    e7 as int,
                    e8 as int,
                    e9 as int,
                );
            }
            Some(q)
        },
    }
}

/// The tag, the identifier length prefix, and the total length a
/// milestone record's bytes carry.
#[verifier::rlimit(100)]
proof fn lemma_milestone_head(buf: Seq<u8>, m: Milestone)
    requires
        m.project_id@.len() < 0x100000000,
        buf == spec_milestone_record(m),
    ensures
        buf.len() == (if m.released_at is Some {
            39int
        } else {
            31int
        }) + m.project_id@.len() + m.description@.len() + m.proof_url@.len(),
        buf.subrange(0, 8) == milestone_record_tag(),
        dec_u32(buf.subrange(8, 12)) == m.project_id@.len(),
{
    reveal(spec_milestone_record);
    assert(buf.subrange(0, 8) =~= milestone_record_tag());
    assert(buf.subrange(8, 12) =~= enc_u32(m.project_id@.len() as u32));
    lemma_dec_enc_u32(m.project_id@.len() as u32);
}

/// The description length prefix a milestone record's bytes carry.
#[verifier::rlimit(100)]
proof fn lemma_milestone_desc_len(buf: Seq<u8>, m: Milestone)
    requires
        m.description@.len() < 0x100000000,
        buf == spec_milestone_record(m),
    ensures
        dec_u32(buf.subrange((13 + m.project_id@.len()) as int, (17 + m.project_id@.len()) as int))
            == m.description@.len(),
{
    assert(buf.subrange((13 + m.project_id@.len()) as int, (17 + m.project_id@.len()) as int)
        =~= enc_u32(m.description@.len() as u32));
    lemma_dec_enc_u32(m.description@.len() as u32);
}

/// The release flag byte and the presence marker byte a milestone
/// record's bytes carry.
#[verifier::rlimit(100)]
proof fn lemma_milestone_markers(buf: Seq<u8>, m: Milestone)
    requires
        buf == spec_milestone_record(m),
    ensures
        buf[(25 + m.project_id@.len() + m.description@.len()) as int] == (if m.is_released {
            1u8
        } else {
            0u8
        }),
        buf[(26 + m.project_id@.len() + m.description@.len()) as int] == (if m.released_at
            is Some {
            1u8
        } else {
            0u8
        }),
{
}

/// The proof reference length prefix a milestone record's bytes carry.
#[verifier::rlimit(100)]
proof fn lemma_milestone_proof_len(buf: Seq<u8>, m: Milestone)
    requires
        m.proof_url@.len() < 0x100000000,
        buf == spec_milestone_record(m),
    ensures
        ({
            let h = (if m.released_at is Some {
                35int
            } else {
                27int
            }) + m.project_id@.len() + m.description@.len();
            dec_u32(buf.subrange(h as int, h as int + 4)) == m.proof_url@.len()
        }),
{
    reveal(spec_milestone_record);
    let h = (if m.released_at is Some {
        35int
    } else {
        27int
    }) + m.project_id@.len() + m.description@.len();
    assert(buf.subrange(h as int, h as int + 4) =~= enc_u32(m.proof_url@.len() as u32));
    lemma_dec_enc_u32(m.proof_url@.len() as u32);
}

/// A buffer cut into pieces that are exactly the fields' encodings is the
/// record's serialization.
#[verifier::rlimit(100)]
proof fn lemma_milestone_exact(
    buf: Seq<u8>,
    q: Milestone,
    e1: int,
    e2: int,
    e3: int,
    e4: int,
    e5: int,
    e6: int,
    e7: int,
    e8: int,
)
    requires
        8 <= e1 < e2 <= e3 <= e4 < e5 < e6 <= e7 <= e8,
        e8 == buf.len(),
        e2 == e1 + 1,
        e5 == e4 + 1,
        e6 == e5 + 1,
        buf.subrange(0, 8) == milestone_record_tag(),
        enc_bytes(q.project_id@) == buf.subrange(8, e1),
        buf[e1] == q.index,
        enc_bytes(q.description@) == buf.subrange(e2, e3),
        enc_u64(q.amount) == buf.subrange(e3, e4),
        buf[e4] == (if q.is_released {
            1u8
        } else {
            0u8
        }),
        enc_opt_i64(q.released_at) == buf.subrange(e5, e7),
        enc_bytes(q.proof_url@) == buf.subrange(e7, e8),
    ensures
        spec_milestone_record(q) == buf,
{
    reveal(spec_milestone_record);
    assert(buf.subrange(0, e1) =~= buf.subrange(0, 8) + buf.subrange(8, e1));
    assert(buf.subrange(e1, e2) =~= seq![q.index]);
    assert(buf.subrange(0, e2) =~= buf.subrange(0, e1) + buf.subrange(e1, e2));
    assert(buf.subrange(0, e3) =~= buf.subrange(0, e2) + buf.subrange(e2, e3));
    assert(buf.subrange(0, e4) =~= buf.subrange(0, e3) + buf.subrange(e3, e4));
    assert(buf.subrange(e4, e5) =~= enc_bool(q.is_released));
    assert(buf.subrange(0, e5) =~= buf.subrange(0, e4) + buf.subrange(e4, e5));
    assert(buf.subrange(0, e7) =~= buf.subrange(0, e5) + buf.subrange(e5, e7));
    assert(buf.subrange(0, e8) =~= buf.subrange(0, e7) + buf.subrange(e7, e8));
    assert(buf.subrange(0, e8) =~= buf);
}

/// Whether some well-sized milestone record serializes to the buffer.
pub open spec fn some_milestone(buf: Seq<u8>) -> bool {
    exists|m: Milestone|
        m.project_id@.len() < 0x100000000 && m.description@.len() < 0x100000000
            && m.proof_url@.len() < 0x100000000 && buf == spec_milestone_record(m)
}

/// Parses the head of a milestone record, through the release flag.
#[verifier::rlimit(100)]
fn read_milestone_head(buf: &Vec<u8>) -> (r: Option<(Vec<u8>, u8, Vec<u8>, u64, bool, usize)>)
    ensures
        r matches Some(v) ==> ({
            let e1 = 12 + v.0@.len() as int;
            let e2 = e1 + 1;
            let e3 = e2 + 4 + v.2@.len() as int;
            let e4 = e3 + 8;
            &&& v.5 == e4 + 1
            &&& v.5 <= buf@.len()
            &&& v.0@.len() == dec_u32(buf@.subrange(8, 12))
            &&& v.2@.len() == dec_u32(buf@.subrange(e2, e2 + 4))
            &&& buf@.subrange(0, 8) == milestone_record_tag()
            &&& enc_bytes(v.0@) == buf@.subrange(8, e1)
            &&& buf@[e1] == v.1
            &&& enc_bytes(v.2@) == buf@.subrange(e2, e3)
            &&& enc_u64(v.3) == buf@.subrange(e3, e4)
            &&& buf@[e4] == (if v.4 {
                1u8
            } else {
                0u8
            })
        }),
        r is None ==> !some_milestone(buf@),
{
    let tag = milestone_record_tag_bytes();
    if !has_tag(buf, &tag) {
        proof {
            assert forall|m: Milestone|
                m.project_id@.len() < 0x100000000 && m.description@.len() < 0x100000000
                    && m.proof_url@.len() < 0x100000000 && buf@ == spec_milestone_record(
                    m,
                ) implies false by {
                lemma_milestone_facts(buf@, m);
            }
        }
        return None;
    }
    let (project_id, e1) = match read_bytes(buf, 8) {
        Some(v) => v,
        None => {
            proof {
                assert forall|m: Milestone|
                    m.project_id@.len() < 0x100000000 && m.description@.len() < 0x100000000
                        && m.proof_url@.len() < 0x100000000 && buf@ == spec_milestone_record(
                        m,
                    ) implies false by {
                    lemma_milestone_facts(buf@, m);
                }
            }
            return None;
        },
    };
    let (index, e2) = match read_u8(buf, e1) {
        Some(v) => v,
        None => {
            proof {
                assert forall|m: Milestone|
                    m.project_id@.len() < 0x100000000 && m.description@.len() < 0x100000000
                        && m.proof_url@.len() < 0x100000000 && buf@ == spec_milestone_record(
                        m,
                    ) implies false by {
                    lemma_milestone_facts(buf@, m);
                }
            }
            return None;
        },
    };
    let (description, e3) = match read_bytes(buf, e2) {
        Some(v) => v,
        None => {
            proof {
                assert forall|m: Milestone|
                    m.project_id@.len() < 0x100000000 && m.description@.len() < 0x100000000
                        && m.proof_url@.len() < 0x100000000 && buf@ == spec_milestone_record(
                        m,
                    ) implies false by {
                    lemma_milestone_facts(buf@, m);
                }
            }
            return None;
        },
    };
    let (amount, e4) = match read_u64(buf, e3) {
        Some(v) => v,
        None => {
            proof {
                assert forall|m: Milestone|
                    m.project_id@.len() < 0x100000000 && m.description@.len() < 0x100000000
                        && m.proof_url@.len() < 0x100000000 && buf@ == spec_milestone_record(
                        m,
                    ) implies false by {
                    lemma_milestone_facts(buf@, m);
                }
            }
            return None;
        },
    };
    let (flag, e5) = match read_u8(buf, e4) {
        Some(v) => v,
        None => {
            proof {
                assert forall|m: Milestone|
                    m.project_id@.len() < 0x100000000 && m.description@.len() < 0x100000000
                        && m.proof_url@.len() < 0x100000000 && buf@ == spec_milestone_record(
                        m,
                    ) implies false by {
                    lemma_milestone_facts(buf@, m);
                }
            }
            return None;
        },
    };
    if flag > 1 {
        proof {
            assert forall|m: Milestone|
                m.project_id@.len() < 0x100000000 && m.description@.len() < 0x100000000
                    && m.proof_url@.len() < 0x100000000 && buf@ == spec_milestone_record(
                    m,
                ) implies false by {
                lemma_milestone_facts(buf@, m);
            }
        }
        return None;
    }
    Some((project_id, index, description, amount, flag == 1, e5))
}

/// Parses the tail of a milestone record: the release marker, the
/// optional timestamp, and the proof reference, given the head already
/// parsed.
#[verifier::rlimit(100)]
fn read_milestone_tail(
    buf: &Vec<u8>,
    project_id: &Vec<u8>,
    description: &Vec<u8>,
    e5: usize,
) -> (r: Option<(Option<i64>, Vec<u8>, usize, usize, usize)>)
    requires
        e5 == 26 + project_id@.len() + description@.len(),
        e5 <= buf@.len(),
        buf@.subrange(0, 8) == milestone_record_tag(),
        project_id@.len() == dec_u32(buf@.subrange(8, 12)),
        description@.len() == dec_u32(
            buf@.subrange((13 + project_id@.len()) as int, (17 + project_id@.len()) as int),
        ),
    ensures
        r is None ==> !some_milestone(buf@),
        r matches Some(v) ==> {
            &&& v.2 == e5 + 1
            &&& e5 < buf@.len()
            &&& buf@[e5 as int] == (if v.0 is Some {
                1u8
            } else {
                0u8
            })
            &&& (v.0 matches Some(t) ==> v.3 == v.2 + 8 && enc_u64(i64_as_u64(t))
                == buf@.subrange(v.2 as int, v.3 as int))
            &&& (v.0 is None ==> v.3 == v.2)
            &&& enc_bytes(v.1@) == buf@.subrange(v.3 as int, v.4 as int)
            &&& v.2 <= v.3 <= v.4
            &&& v.4 == buf@.len()
        },
{
    let (marker, e6) = match read_u8(buf, e5) {
        Some(v) => v,
        None => {
            proof {
                assert forall|m: Milestone|
                    m.project_id@.len() < 0x100000000 && m.description@.len() < 0x100000000
                        && m.proof_url@.len() < 0x100000000 && buf@ == spec_milestone_record(
                        m,
                    ) implies false by {
                    lemma_milestone_facts(buf@, m);
                }
            }
            return None;
        },
    };
    if marker > 1 {
        proof {
            assert forall|m: Milestone|
                m.project_id@.len() < 0x100000000 && m.description@.len() < 0x100000000
                    && m.proof_url@.len() < 0x100000000 && buf@ == spec_milestone_record(
                    m,
                ) implies false by {
                lemma_milestone_facts(buf@, m);
            }
        }
        return None;
    }
    let (released_at, e7) = if marker == 1 {
        match read_i64(buf, e6) {
            Some((t, e7)) => (Some(t), e7),
            None => {
                proof {
                    assert forall|m: Milestone|
                        m.project_id@.len() < 0x100000000 && m.description@.len() < 0x100000000
                            && m.proof_url@.len() < 0x100000000 && buf@ == spec_milestone_record(
                            m,
                        ) implies false by {
                        lemma_milestone_facts(buf@, m);
                    }
                }
                return None;
            },
        }
    } else {
        (None, e6)
    };
    let (proof_url, e8) = match read_bytes(buf, e7) {
        Some(v) => v,
        None => {
            proof {
                assert forall|m: Milestone|
                    m.project_id@.len() < 0x100000000 && m.description@.len() < 0x100000000
                        && m.proof_url@.len() < 0x100000000 && buf@ == spec_milestone_record(
                        m,
                    ) implies false by {
                    lemma_milestone_facts(buf@, m);
                }
            }
            return None;
        },
    };
    if e8 != buf.len() {
        proof {
            assert forall|m: Milestone|
                m.project_id@.len() < 0x100000000 && m.description@.len() < 0x100000000
                    && m.proof_url@.len() < 0x100000000 && buf@ == spec_milestone_record(
                    m,
                ) implies false by {
                lemma_milestone_facts(buf@, m);
            }
        }
        return None;
    }
    Some((released_at, proof_url, e6, e7, e8))
}

/// Parses a milestone record: the accepted buffers are exactly the
/// serialized records, and an accepted buffer re-serializes to itself.
#[verifier::rlimit(100)]
pub fn decode_milestone(buf: &Vec<u8>) -> (r: Option<Milestone>)
    ensures
        r matches Some(q) ==> spec_milestone_record(q) == buf@,
        forall|m: Milestone|
            m.project_id@.len() < 0x100000000 && m.description@.len() < 0x100000000
                && m.proof_url@.len() < 0x100000000 && buf@ == spec_milestone_record(m) ==> r
                is Some,
{
    let (project_id, index, description, amount, is_released, e5) = match read_milestone_head(
        buf,
    ) {
        Some(v) => v,
        None => {
            proof {
                assert forall|m: Milestone|
                    m.project_id@.len() < 0x100000000 && m.description@.len() < 0x100000000
                        && m.proof_url@.len() < 0x100000000 && buf@ == spec_milestone_record(
                        m,
                    ) implies false by {
                    assert(some_milestone(buf@));
                }
            }
            return None;
        },
    };
    let (released_at, proof_url, e6, e7, e8) = match read_milestone_tail(
        buf,
        &project_id,
        &description,
        e5,
    ) {
        Some(v) => v,
        None => {
            proof {
                assert forall|m: Milestone|
                    m.project_id@.len() < 0x100000000 && m.description@.len() < 0x100000000
                        && m.proof_url@.len() < 0x100000000 && buf@ == spec_milestone_record(
                        m,
                    ) implies false by {
                    assert(some_milestone(buf@));
                }
            }
            return None;
        },
    };
    let ghost e1: int = 12 + project_id@.len() as int;
    let ghost e2: int = e1 + 1;
    let ghost e3: int = e2 + 4 + description@.len() as int;
    let ghost e4: int = e3 + 8;
    let q = Milestone { project_id, index, description, amount, is_released, released_at, proof_url };
    proof {
        if q.released_at is Some {
            assert(buf@.subrange(e5 as int, e7 as int) =~= buf@.subrange(e5 as int, e6 as int)
                + buf@.subrange(e6 as int, e7 as int));
            assert(buf@.subrange(e5 as int, e6 as int) =~= seq![1u8]);
        } else {
            assert(buf@.subrange(e5 as int, e7 as int) =~= seq![0u8]);
        }
        assert(enc_opt_i64(q.released_at) == buf@.subrange(e5 as int, e7 as int));
        lemma_milestone_exact(
            buf@,
            q,
            e1,
            e2,
            e3,
            e4,
            e5 as int,
            e6 as int,
            e7 as int,
            e8 as int,
        );
    }
    Some(q)
}

} // verus!
