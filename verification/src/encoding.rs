//! BACnet tag encoding (ASHRAE 135 Clause 20.2): tag octets, context-tagged
//! primitives and application-tagged property values.
use vstd::prelude::*;
use crate::buffers::{bytes_mut_view, extend_from_slice, put_u8};
use vstd::string::StringSliceAdditionalSpecFns;
use vstd::string::StringExecFns;
use crate::types::{
    pv_model,
    lemma_values_view,
    values_view, PropertyValue,
    weekday_number, BacnetDate, BacnetTime, PValue, Weekday,
    lemma_object_type_code_injective, object_type_code, property_from_code, BacnetError, ObjectId,
    ObjectType, PropertyIdentifier,
};

verus! {

// ---------------------------------------------------------------------------
// Big-endian numbers
// ---------------------------------------------------------------------------

/// 256 to the power `n`.
pub open spec fn pow256(n: nat) -> nat
    decreases n,
{
    if n == 0 {
        1
    } else {
        256 * pow256((n - 1) as nat)
    }
}

/// The unsigned number whose big-endian bytes are `s`.
pub open spec fn be_value(s: Seq<u8>) -> nat
    decreases s.len(),
{
    if s.len() == 0 {
        0
    } else {
        be_value(s.drop_last()) * 256 + s.last() as nat
    }
}

/// The `n` least significant bytes of `x`, most significant first.
pub open spec fn be_bytes(x: nat, n: nat) -> Seq<u8>
    decreases n,
{
    if n == 0 {
        Seq::<u8>::empty()
    } else {
        be_bytes(x / 256, (n - 1) as nat).push((x % 256) as u8)
    }
}

pub proof fn lemma_pow256_pos(n: nat)
    ensures
        pow256(n) >= 1,
    decreases n,
{
    if n > 0 {
        lemma_pow256_pos((n - 1) as nat);
    }
}

pub proof fn lemma_pow256_values()
    ensures
        pow256(1) == 256,
        pow256(2) == 65536,
        pow256(3) == 16777216,
        pow256(4) == 4294967296,
        pow256(8) == 18446744073709551616,
{
    reveal_with_fuel(pow256, 9);
}

/// A number of `s.len()` bytes is below `256^len`.
pub proof fn lemma_be_value_bound(s: Seq<u8>)
    ensures
        be_value(s) < pow256(s.len()),
    decreases s.len(),
{
    if s.len() > 0 {
        lemma_be_value_bound(s.drop_last());
        let a = be_value(s.drop_last());
        let p = pow256(s.drop_last().len());
        let b = s.last() as nat;
        assert(a * 256 + b < 256 * p) by (nonlinear_arith)
            requires a < p, b < 256;
    }
}

pub proof fn lemma_be_bytes_len(x: nat, n: nat)
    ensures
        be_bytes(x, n).len() == n,
    decreases n,
{
    if n > 0 {
        lemma_be_bytes_len(x / 256, (n - 1) as nat);
    }
}

/// Reading back the `n` bytes of a number below `256^n` gives the number.
pub proof fn lemma_be_roundtrip(x: nat, n: nat)
    requires
        x < pow256(n),
    ensures
        be_value(be_bytes(x, n)) == x,
        be_bytes(x, n).len() == n,
    decreases n,
{
    lemma_be_bytes_len(x, n);
    if n > 0 {
        let p = pow256((n - 1) as nat);
        assert(x / 256 < p) by (nonlinear_arith)
            requires x < 256 * p;
        lemma_be_roundtrip(x / 256, (n - 1) as nat);
        assert(be_bytes(x, n).drop_last() == be_bytes(x / 256, (n - 1) as nat));
        assert(x == (x / 256) * 256 + x % 256) by (nonlinear_arith);
    }
}

/// Writing back the bytes of a read number gives the bytes.
pub proof fn lemma_be_bytes_of_value(s: Seq<u8>)
    ensures
        be_bytes(be_value(s), s.len()) == s,
    decreases s.len(),
{
    if s.len() > 0 {
        let a = be_value(s.drop_last());
        let b = s.last() as nat;
        assert((a * 256 + b) / 256 == a && (a * 256 + b) % 256 == b) by (nonlinear_arith)
            requires b < 256;
        lemma_be_bytes_of_value(s.drop_last());
        assert(be_bytes(be_value(s), s.len()) =~= s);
    }
}

/// Appends the `n` least significant bytes of `x`, most significant first.
pub fn put_be(buf: &mut bytes::BytesMut, x: u64, n: usize)
    requires
        n <= 8,
    ensures
        bytes_mut_view(*final(buf)) == bytes_mut_view(*old(buf)) + be_bytes(x as nat, n as nat),
{
    let mut tmp: [u8; 8] = [0u8; 8];
    let mut v: u64 = x;
    let mut i: usize = 0;
    proof { lemma_be_bytes_len(x as nat, n as nat); }
    while i < n
        invariant
            n <= 8,
            i <= n,
            be_bytes(x as nat, n as nat) == be_bytes(v as nat, (n - i) as nat) + tmp@.subrange((n - i) as int, n as int),
        decreases n - i,
    {
        proof { lemma_be_bytes_len(v as nat, (n - i) as nat); }
        let ghost old_tmp = tmp@;
        let ghost old_v = v;
        tmp[n - 1 - i] = (v % 256) as u8;
        v = v / 256;
        i = i + 1;
        assert(tmp@.subrange((n - i) as int, n as int) =~= seq![(old_v % 256) as u8] + old_tmp.subrange((n - i + 1) as int, n as int));
        assert(be_bytes(old_v as nat, (n - i + 1) as nat) == be_bytes(v as nat, (n - i) as nat).push((old_v % 256) as u8));
        assert(be_bytes(x as nat, n as nat) =~= be_bytes(v as nat, (n - i) as nat) + tmp@.subrange((n - i) as int, n as int));
    }
    assert(be_bytes(v as nat, 0) =~= Seq::<u8>::empty());
    extend_from_slice(buf, &tmp[0..n]);
    assert(be_bytes(x as nat, n as nat) =~= tmp@.subrange(0, n as int));
}

/// Reads the unsigned big-endian number held in `buf[start..start + n]`.
pub fn read_be(buf: &[u8], start: usize, n: usize) -> (r: u64)
    requires
        n <= 8,
        start + n <= buf@.len(),
    ensures
        r == be_value(buf@.subrange(start as int, start + n)),
{
    let mut acc: u64 = 0;
    let mut i: usize = 0;
    let blen = buf.len();
    while i < n
        invariant
            blen == buf@.len(),
            n <= 8,
            start + n <= buf@.len(),
            i <= n,
            acc == be_value(buf@.subrange(start as int, start + i)),
        decreases n - i,
    {
        let ghost s = buf@.subrange(start as int, start + i + 1);
        assert(s.drop_last() == buf@.subrange(start as int, start + i));
        proof {
            lemma_be_value_bound(buf@.subrange(start as int, start + i));
            lemma_pow256_values();
            pow256_monotone(i as nat, 7);
        }
        assert(start + i < buf@.len());
        let b = buf[start + i] as u64;
        assert(pow256(7) == 72057594037927936) by { reveal_with_fuel(pow256, 8); }
        assert(acc * 256 + b <= 18446744073709551615) by (nonlinear_arith)
            requires acc < pow256(i as nat), pow256(i as nat) <= 72057594037927936int, b < 256;
        acc = acc * 256 + b;
        i = i + 1;
    }
    acc
}

pub proof fn pow256_monotone(a: nat, b: nat)
    requires
        a <= b,
    ensures
        pow256(a) <= pow256(b),
    decreases b,
{
    if a < b {
        pow256_monotone(a, (b - 1) as nat);
        lemma_pow256_pos((b - 1) as nat);
    }
}

// ---------------------------------------------------------------------------
// Tag octets
// ---------------------------------------------------------------------------

/// A parsed tag: number, class, the low three bits of the first octet, the
/// content length and where the content starts.
pub struct TagHeader {
    pub number: u8,
    pub context: bool,
    pub lvt: u8,
    pub len: u32,
    pub start: usize,
}

/// The tag that starts at `pos`, if its octets are all in `buf`.  Tag
/// numbers 0..=14 are read; lengths of five and more use the extended length
/// octets.
pub open spec fn spec_tag_header(buf: Seq<u8>, pos: int) -> Option<(u8, bool, u8, nat, int)> {
    if !(0 <= pos < buf.len()) {
        None
    } else {
        let b = buf[pos];
        let number = b / 16;
        let context = (b / 8) % 2 == 1;
        let lvt = b % 8;
        if number == 15 {
            None
        } else if lvt < 5 || lvt > 5 {
            Some((number, context, lvt, if lvt < 5 { lvt as nat } else { 0 }, pos + 1))
        } else if pos + 1 >= buf.len() {
            None
        } else if buf[pos + 1] < 254 {
            Some((number, context, lvt, buf[pos + 1] as nat, pos + 2))
        } else if buf[pos + 1] == 254 {
            if pos + 4 > buf.len() {
                None
            } else {
                Some((number, context, lvt, be_value(buf.subrange(pos + 2, pos + 4)), pos + 4))
            }
        } else if pos + 6 > buf.len() {
            None
        } else {
            Some((number, context, lvt, be_value(buf.subrange(pos + 2, pos + 6)), pos + 6))
        }
    }
}

/// Reads the tag that starts at `pos`.
pub fn read_tag(buf: &[u8], pos: usize) -> (r: Option<TagHeader>)
    ensures
        match r {
            Some(h) => spec_tag_header(buf@, pos as int) == Some((h.number, h.context, h.lvt, h.len as nat, h.start as int)),
            None => spec_tag_header(buf@, pos as int) is None,
        },
{
    if pos >= buf.len() {
        return None;
    }
    let b = buf[pos];
    let number = b / 16;
    let context = (b / 8) % 2 == 1;
    let lvt = b % 8;
    if number == 15 {
        return None;
    }
    if lvt != 5 {
        let len: u32 = if lvt < 5 { lvt as u32 } else { 0 };
        return Some(TagHeader { number, context, lvt, len, start: pos + 1 });
    }
    if pos + 1 >= buf.len() {
        return None;
    }
    let e = buf[pos + 1];
    if e < 254 {
        Some(TagHeader { number, context, lvt, len: e as u32, start: pos + 2 })
    } else if e == 254 {
        if buf.len() < 4 || pos > buf.len() - 4 {
            return None;
        }
        proof {
            lemma_be_value_bound(buf@.subrange(pos + 2, pos + 4));
            lemma_pow256_values();
        }
        let len = read_be(buf, pos + 2, 2) as u32;
        Some(TagHeader { number, context, lvt, len, start: pos + 4 })
    } else {
        if buf.len() < 6 || pos > buf.len() - 6 {
            return None;
        }
        proof {
            lemma_be_value_bound(buf@.subrange(pos + 2, pos + 6));
            lemma_pow256_values();
        }
        let len = read_be(buf, pos + 2, 4) as u32;
        Some(TagHeader { number, context, lvt, len, start: pos + 6 })
    }
}

/// The octets of a tag with number `number` (at most 14), class `context`
/// and content length `len`.
pub open spec fn tag_octets(number: u8, context: bool, len: nat) -> Seq<u8> {
    let first = number * 16 + if context { 8int } else { 0int };
    if len < 5 {
        seq![(first + len) as u8]
    } else if len < 254 {
        seq![(first + 5) as u8, len as u8]
    } else if len < 65536 {
        seq![(first + 5) as u8, 254u8] + be_bytes(len, 2)
    } else {
        seq![(first + 5) as u8, 255u8] + be_bytes(len, 4)
    }
}

/// Appends a tag header.
pub fn encode_tag(buf: &mut bytes::BytesMut, number: u8, context: bool, len: u32)
    requires
        number <= 14,
    ensures
        bytes_mut_view(*final(buf)) == bytes_mut_view(*old(buf)) + tag_octets(number, context, len as nat),
{
    let first: u8 = number * 16 + if context { 8 } else { 0 };
    if len < 5 {
        put_u8(buf, first + len as u8);
    } else if len < 254 {
        put_u8(buf, first + 5);
        put_u8(buf, len as u8);
    } else if len < 65536 {
        put_u8(buf, first + 5);
        put_u8(buf, 254);
        put_be(buf, len as u64, 2);
    } else {
        put_u8(buf, first + 5);
        put_u8(buf, 255);
        put_be(buf, len as u64, 4);
    }
    assert(bytes_mut_view(*buf) =~= bytes_mut_view(*old(buf)) + tag_octets(number, context, len as nat));
}

/// The header read back from freshly written tag octets is the one written.
pub proof fn lemma_tag_roundtrip(number: u8, context: bool, len: nat, rest: Seq<u8>)
    requires
        number <= 14,
        len < pow256(4),
    ensures
        spec_tag_header(tag_octets(number, context, len) + rest, 0) == Some((
            number,
            context,
            if len < 5 { len as u8 } else { 5u8 },
            len,
            tag_octets(number, context, len).len() as int,
        )),
{
    let t = tag_octets(number, context, len);
    let buf = t + rest;
    lemma_pow256_values();
    let first: int = number * 16 + if context { 8int } else { 0int };
    assert(first + 7 < 256);
    assert((first + (if len < 5 { len as int } else { 5 })) / 16 == number as int);
    assert(((first + (if len < 5 { len as int } else { 5 })) / 8) % 2 == (if context { 1int } else { 0 }));
    assert((first + (if len < 5 { len as int } else { 5 })) % 8 == (if len < 5 { len as int } else { 5 }));
    if len >= 254 && len < 65536 {
        lemma_be_roundtrip(len, 2);
        assert(buf.subrange(2, 4) =~= be_bytes(len, 2));
    } else if len >= 65536 {
        lemma_be_roundtrip(len, 4);
        assert(buf.subrange(2, 6) =~= be_bytes(len, 4));
    }
}

/// The opening tag octet of context tag `tag`.
pub open spec fn opening_octet(tag: u8) -> u8 {
    (tag * 16 + 0x0E) as u8
}

/// The closing tag octet of context tag `tag`.
pub open spec fn closing_octet(tag: u8) -> u8 {
    (tag * 16 + 0x0F) as u8
}

/// Appends the opening tag of context tag `tag`.
pub fn encode_opening_tag(buf: &mut bytes::BytesMut, tag: u8)
    requires
        tag <= 14,
    ensures
        bytes_mut_view(*final(buf)) == bytes_mut_view(*old(buf)).push(opening_octet(tag)),
{
    put_u8(buf, tag * 16 + 0x0E);
}

/// Appends the closing tag of context tag `tag`.
pub fn encode_closing_tag(buf: &mut bytes::BytesMut, tag: u8)
    requires
        tag <= 14,
    ensures
        bytes_mut_view(*final(buf)) == bytes_mut_view(*old(buf)).push(closing_octet(tag)),
{
    put_u8(buf, tag * 16 + 0x0F);
}

/// Whether `buf[pos]` is the opening tag of context tag `tag`.
pub fn is_opening(buf: &[u8], pos: usize, tag: u8) -> (r: bool)
    requires
        tag <= 14,
    ensures
        r == (pos < buf@.len() && buf@[pos as int] == opening_octet(tag)),
{
    pos < buf.len() && buf[pos] == tag * 16 + 0x0E
}

/// Whether `buf[pos]` is the closing tag of context tag `tag`.
pub fn is_closing(buf: &[u8], pos: usize, tag: u8) -> (r: bool)
    requires
        tag <= 14,
    ensures
        r == (pos < buf@.len() && buf@[pos as int] == closing_octet(tag)),
{
    pos < buf.len() && buf[pos] == tag * 16 + 0x0F
}

/// Whether a context tag numbered `tag` holding a value (not an opening or
/// closing tag) starts at `pos`.
pub open spec fn spec_has_context_tag(buf: Seq<u8>, pos: int, tag: u8) -> bool {
    0 <= pos < buf.len() && buf[pos] / 16 == tag && (buf[pos] / 8) % 2 == 1 && buf[pos] % 8 <= 5
}

/// Whether a context tag numbered `tag` holding a value starts at `pos`.
pub fn has_context_tag(buf: &[u8], pos: usize, tag: u8) -> (r: bool)
    ensures
        r == spec_has_context_tag(buf@, pos as int, tag),
{
    pos < buf.len() && buf[pos] / 16 == tag && (buf[pos] / 8) % 2 == 1 && buf[pos] % 8 <= 5
}

// ---------------------------------------------------------------------------
// Context-tagged primitives
// ---------------------------------------------------------------------------

/// The number of octets of the shortest big-endian form of `v`.
pub open spec fn unsigned_len(v: nat) -> nat {
    if v < 0x100 {
        1
    } else if v < 0x10000 {
        2
    } else if v < 0x1000000 {
        3
    } else {
        4
    }
}

/// The content octets of an unsigned value.
pub open spec fn unsigned_octets(v: nat) -> Seq<u8> {
    be_bytes(v, unsigned_len(v))
}

/// The octets of context tag `tag` holding the unsigned value `v`.
pub open spec fn ctx_unsigned_octets(tag: u8, v: u32) -> Seq<u8> {
    tag_octets(tag, true, unsigned_len(v as nat)) + unsigned_octets(v as nat)
}

fn unsigned_len_exec(v: u32) -> (r: u32)
    ensures
        r == unsigned_len(v as nat),
{
    if v < 0x100 {
        1
    } else if v < 0x10000 {
        2
    } else if v < 0x1000000 {
        3
    } else {
        4
    }
}

/// Appends context tag `tag` holding the unsigned value `v` in its shortest
/// form.
pub fn encode_ctx_u32(buf: &mut bytes::BytesMut, tag: u8, v: u32)
    requires
        tag <= 14,
    ensures
        bytes_mut_view(*final(buf)) == bytes_mut_view(*old(buf)) + ctx_unsigned_octets(tag, v),
{
    let n = unsigned_len_exec(v);
    encode_tag(buf, tag, true, n);
    put_be(buf, v as u64, n as usize);
    assert(bytes_mut_view(*buf) =~= bytes_mut_view(*old(buf)) + ctx_unsigned_octets(tag, v));
}

/// The raw 32-bit form of an object identifier: type in the upper ten bits,
/// instance in the lower 22.
pub open spec fn object_id_raw(o: ObjectId) -> nat {
    object_type_code(o.object_type) as nat * 0x400000 + (o.instance as nat % 0x400000)
}

/// The object identifier held in raw form `raw`, if its type is known.
pub open spec fn object_id_from_raw(raw: nat) -> Option<ObjectId> {
    let t = raw / 0x400000;
    if t > 20 {
        None
    } else {
        Some(ObjectId {
            object_type: choose|ot: ObjectType| object_type_code(ot) == t,
            instance: (raw % 0x400000) as u32,
        })
    }
}

/// The octets of context tag `tag` holding an object identifier.
pub open spec fn ctx_object_id_octets(tag: u8, o: ObjectId) -> Seq<u8> {
    tag_octets(tag, true, 4) + be_bytes(object_id_raw(o), 4)
}

fn object_id_to_raw(o: ObjectId) -> (r: u32)
    ensures
        r == object_id_raw(o),
{
    o.object_type.to_u32() * 0x400000 + (o.instance % 0x400000)
}

fn object_id_from_raw_exec(raw: u32) -> (r: Option<ObjectId>)
    ensures
        r == object_id_from_raw(raw as nat),
{
    let t = raw / 0x400000;
    match ObjectType::from_u16(t as u16) {
        Some(ot) => {
            proof {
                lemma_object_type_code_injective(ot, choose|x: ObjectType| object_type_code(x) == t);
            }
            Some(ObjectId { object_type: ot, instance: raw % 0x400000 })
        },
        None => None,
    }
}

/// Appends context tag `tag` holding an object identifier.
pub fn encode_ctx_object_id(buf: &mut bytes::BytesMut, tag: u8, o: ObjectId)
    requires
        tag <= 14,
    ensures
        bytes_mut_view(*final(buf)) == bytes_mut_view(*old(buf)) + ctx_object_id_octets(tag, o),
{
    encode_tag(buf, tag, true, 4);
    put_be(buf, object_id_to_raw(o) as u64, 4);
    assert(bytes_mut_view(*buf) =~= bytes_mut_view(*old(buf)) + ctx_object_id_octets(tag, o));
}

/// An object identifier whose instance fits 22 bits is read back from its
/// raw form.
pub proof fn lemma_object_id_raw_roundtrip(o: ObjectId)
    requires
        o.instance < 0x400000,
    ensures
        object_id_raw(o) < pow256(4),
        object_id_from_raw(object_id_raw(o)) == Some(o),
{
    lemma_pow256_values();
    let t = object_type_code(o.object_type) as nat;
    let i = o.instance as nat;
    assert((t * 0x400000 + i) / 0x400000 == t && (t * 0x400000 + i) % 0x400000 == i) by (nonlinear_arith)
        requires i < 0x400000;
    lemma_object_type_code_injective(o.object_type, choose|ot: ObjectType| object_type_code(ot) == t);
}

/// The content of the context tag `tag` holding an unsigned value at `pos`:
/// the value and the position after it.
pub open spec fn spec_ctx_unsigned(buf: Seq<u8>, pos: int, tag: u8) -> Option<(nat, int)> {
    match spec_tag_header(buf, pos) {
        Some((number, context, lvt, len, start)) => {
            if number == tag && context && lvt < 5 && 1 <= len <= 4 && start + len <= buf.len() {
                Some((be_value(buf.subrange(start, start + len)), start + len))
            } else {
                None
            }
        },
        None => None,
    }
}

/// A context-tagged unsigned value reads the same after any prefix, its end
/// moved by the prefix's length.
pub proof fn lemma_ctx_unsigned_shift(a: Seq<u8>, c: Seq<u8>, tag: u8)
    ensures
        spec_has_context_tag(a + c, a.len() as int, tag) == spec_has_context_tag(c, 0, tag),
        spec_ctx_unsigned(a + c, a.len() as int, tag) == match spec_ctx_unsigned(c, 0, tag) {
            Some((v, next)) => Some((v, next + a.len())),
            None => None,
        },
{
    let buf = a + c;
    let k = a.len() as int;
    if c.len() > 0 {
        assert(buf[k] == c[0]);
    }
    if c.len() > 1 {
        assert(buf[k + 1] == c[1]);
    }
    if c.len() >= 4 {
        assert(buf.subrange(k + 2, k + 4) =~= c.subrange(2, 4));
    }
    if c.len() >= 6 {
        assert(buf.subrange(k + 2, k + 6) =~= c.subrange(2, 6));
    }
    match spec_tag_header(c, 0) {
        Some((number, context, lvt, len, start)) => {
            assert(spec_tag_header(buf, k) == Some((number, context, lvt, len, start + k)));
            if start + len <= c.len() {
                assert(buf.subrange(start + k, start + k + len) =~= c.subrange(start, start + len));
            }
        },
        None => {
            assert(spec_tag_header(buf, k) is None);
        },
    }
}

/// A context-tagged unsigned value reads back from its octets, whatever
/// follows them.
pub proof fn lemma_ctx_unsigned_roundtrip(tag: u8, v: u32, rest: Seq<u8>)
    requires
        tag <= 14,
    ensures
        spec_has_context_tag(ctx_unsigned_octets(tag, v) + rest, 0, tag),
        spec_ctx_unsigned(ctx_unsigned_octets(tag, v) + rest, 0, tag) == Some((v as nat, ctx_unsigned_octets(tag, v).len() as int)),
{
    let n = unsigned_len(v as nat);
    let t = tag_octets(tag, true, n);
    let u = unsigned_octets(v as nat);
    let buf = ctx_unsigned_octets(tag, v) + rest;
    lemma_pow256_values();
    assert((v as nat) < pow256(n));
    lemma_be_roundtrip(v as nat, n);
    assert(n < pow256(4));
    lemma_tag_roundtrip(tag, true, n, u + rest);
    assert(buf =~= t + (u + rest));
    assert(buf.subrange(t.len() as int, (t.len() + n) as int) =~= u);
    assert(buf[0] == t[0]);
    let first: int = tag * 16 + 8;
    assert(t[0] == (first + n) as u8);
    assert((first + n) / 16 == tag as int && ((first + n) / 8) % 2 == 1 && (first + n) % 8 == n);
}

/// A decode error carrying `msg`.
pub fn decode_error(msg: &str) -> (e: BacnetError)
    ensures
        e matches BacnetError::DecodeError(s) && s@ == msg@,
{
    BacnetError::DecodeError(String::from_str(msg))
}

/// Reads context tag `tag` holding an unsigned value of one to four octets
/// at `*pos`, and moves `*pos` past it.
pub fn decode_ctx_u32(buf: &[u8], pos: &mut usize, tag: u8) -> (r: Result<u32, BacnetError>)
    ensures
        match r {
            Ok(v) => spec_ctx_unsigned(buf@, *old(pos) as int, tag) == Some((v as nat, *final(pos) as int)),
            Err(e) => spec_ctx_unsigned(buf@, *old(pos) as int, tag) is None && e is DecodeError
                && *final(pos) == *old(pos),
        },
{
    let h = match read_tag(buf, *pos) {
        Some(h) => h,
        None => return Err(decode_error("context tag missing")),
    };
    if !(h.number == tag && h.context && h.lvt < 5 && 1 <= h.len && h.len <= 4 && h.start <= buf.len()
        && (h.len as usize) <= buf.len() - h.start) {
        return Err(decode_error("unexpected context tag"));
    }
    proof {
        lemma_be_value_bound(buf@.subrange(h.start as int, h.start + h.len));
        lemma_pow256_values();
        pow256_monotone(h.len as nat, 4);
    }
    let v = read_be(buf, h.start, h.len as usize) as u32;
    *pos = h.start + h.len as usize;
    Ok(v)
}

/// Reads context tag `tag` holding an object identifier at `*pos`.
pub open spec fn spec_ctx_object_id(buf: Seq<u8>, pos: int, tag: u8) -> Option<(ObjectId, int)> {
    match spec_tag_header(buf, pos) {
        Some((number, context, lvt, len, start)) => {
            if number == tag && context && len == 4 && lvt == 4 && start + 4 <= buf.len() {
                match object_id_from_raw(be_value(buf.subrange(start, start + 4))) {
                    Some(o) => Some((o, start + 4)),
                    None => None,
                }
            } else {
                None
            }
        },
        None => None,
    }
}

/// Reads context tag `tag` holding an object identifier at `*pos`, and
/// moves `*pos` past it.
pub fn decode_ctx_object_id(buf: &[u8], pos: &mut usize, tag: u8) -> (r: Result<ObjectId, BacnetError>)
    ensures
        match r {
            Ok(o) => spec_ctx_object_id(buf@, *old(pos) as int, tag) == Some((o, *final(pos) as int)),
            Err(e) => spec_ctx_object_id(buf@, *old(pos) as int, tag) is None && e is DecodeError
                && *final(pos) == *old(pos),
        },
{
    let h = match read_tag(buf, *pos) {
        Some(h) => h,
        None => return Err(decode_error("object identifier tag missing")),
    };
    if !(h.number == tag && h.context && h.len == 4 && h.lvt == 4 && h.start <= buf.len() && 4 <= buf.len() - h.start) {
        return Err(decode_error("unexpected object identifier tag"));
    }
    proof {
        lemma_be_value_bound(buf@.subrange(h.start as int, h.start + 4));
        lemma_pow256_values();
    }
    let raw = read_be(buf, h.start, 4) as u32;
    match object_id_from_raw_exec(raw) {
        Some(o) => {
            *pos = h.start + 4;
            Ok(o)
        },
        None => Err(decode_error("unknown object type")),
    }
}

/// Reads context tag `tag` holding a property identifier at `*pos`.
pub fn decode_ctx_property_id(buf: &[u8], pos: &mut usize, tag: u8) -> (r: Result<PropertyIdentifier, BacnetError>)
    ensures
        match r {
            Ok(p) => spec_ctx_unsigned(buf@, *old(pos) as int, tag) matches Some((v, next))
                && next == *final(pos) as int && p == property_from_code(v as u32),
            Err(e) => spec_ctx_unsigned(buf@, *old(pos) as int, tag) is None && e is DecodeError
                && *final(pos) == *old(pos),
        },
{
    let v = decode_ctx_u32(buf, pos, tag)?;
    proof { lemma_pow256_values(); }
    Ok(PropertyIdentifier::from_u32(v))
}

/// Reads context tag `tag` holding a boolean (one content octet) at `*pos`.
pub open spec fn spec_ctx_bool(buf: Seq<u8>, pos: int, tag: u8) -> Option<(bool, int)> {
    match spec_ctx_unsigned(buf, pos, tag) {
        Some((v, next)) => if next == pos + 2 { Some((v != 0, next)) } else { None },
        None => None,
    }
}

/// Reads context tag `tag` holding a boolean at `*pos`, and moves `*pos`
/// past it.
pub fn decode_ctx_bool(buf: &[u8], pos: &mut usize, tag: u8) -> (r: Result<bool, BacnetError>)
    ensures
        match r {
            Ok(b) => spec_ctx_bool(buf@, *old(pos) as int, tag) == Some((b, *final(pos) as int)),
            Err(e) => spec_ctx_bool(buf@, *old(pos) as int, tag) is None && e is DecodeError
                && *final(pos) == *old(pos),
        },
{
    let start = *pos;
    let v = decode_ctx_u32(buf, pos, tag)?;
    if *pos != start + 2 {
        *pos = start;
        return Err(decode_error("context boolean must hold one octet"));
    }
    Ok(v != 0)
}

// ---------------------------------------------------------------------------
// Application-tagged values
// ---------------------------------------------------------------------------

/// The number of octets of the shortest two's-complement form of `v`.
pub open spec fn signed_len(v: int) -> nat {
    if -0x80 <= v < 0x80 {
        1
    } else if -0x8000 <= v < 0x8000 {
        2
    } else if -0x800000 <= v < 0x800000 {
        3
    } else {
        4
    }
}

/// The two's-complement form of `v` in `n` octets, as an unsigned number.
pub open spec fn twos_complement(v: int, n: nat) -> nat {
    if v >= 0 {
        v as nat
    } else {
        (v + pow256(n)) as nat
    }
}

/// The signed number held in two's complement by the octets `c`.
pub open spec fn signed_value(c: Seq<u8>) -> int {
    let u = be_value(c);
    if 2 * u >= pow256(c.len()) {
        u - pow256(c.len())
    } else {
        u as int
    }
}

/// The date year octet: years since 1900, or 255 for a year that octet
/// cannot hold.
pub open spec fn year_octet(year: u16) -> u8 {
    if 1900 <= year <= 2155 {
        (year - 1900) as u8
    } else {
        255u8
    }
}

/// The octet of bits `8k .. 8k+8` of `bits`, first bit in the most
/// significant position; bits past the end are zero.
pub open spec fn bit_octet(bits: Seq<bool>, k: int) -> u8 {
    bit_octet_prefix(bits, k, 8)
}

pub open spec fn bit_octet_prefix(bits: Seq<bool>, k: int, j: nat) -> u8
    decreases j,
{
    if j == 0 {
        0u8
    } else {
        let i = 8 * k + (j - 1);
        let bit: u8 = if 0 <= i < bits.len() && bits[i] { (0x80u8 >> ((j - 1) as u8)) } else { 0u8 };
        bit_octet_prefix(bits, k, (j - 1) as nat) | bit
    }
}

/// The octets packing `bits`.
pub open spec fn pack_bits(bits: Seq<bool>) -> Seq<u8> {
    Seq::new(((bits.len() + 7) / 8) as nat, |k: int| bit_octet(bits, k))
}

/// The bits held by the octets `c` when the last `unused` bits are unused.
pub open spec fn unpack_bits(c: Seq<u8>, unused: u8) -> Seq<bool> {
    Seq::new((c.len() * 8 - unused) as nat, |i: int| ((c[i / 8] >> ((7 - i % 8) as u8)) & 1u8) == 1u8)
}

/// The application-tagged octets of a property value; an array or list is
/// the octets of its elements, one after another.
pub open spec fn app_octets(v: PValue) -> Seq<u8>
    decreases v,
{
    match v {
        PValue::Null => tag_octets(0, false, 0),
        PValue::Boolean(b) => tag_octets(1, false, if b { 1 } else { 0 }),
        PValue::Unsigned(n) => tag_octets(2, false, unsigned_len(n as nat)) + unsigned_octets(n as nat),
        PValue::Integer(n) => tag_octets(3, false, signed_len(n as int))
            + be_bytes(twos_complement(n as int, signed_len(n as int)), signed_len(n as int)),
        PValue::Real(bits) => tag_octets(4, false, 4) + be_bytes(bits as nat, 4),
        PValue::Double(bits) => tag_octets(5, false, 8) + be_bytes(bits as nat, 8),
        PValue::OctetString(s) => tag_octets(6, false, s.len()) + s,
        PValue::CharacterString(c) => tag_octets(7, false, vstd::utf8::encode_utf8(c).len() + 1)
            + seq![0u8] + vstd::utf8::encode_utf8(c),
        PValue::BitString(bits) => tag_octets(8, false, pack_bits(bits).len() + 1)
            + seq![(pack_bits(bits).len() * 8 - bits.len()) as u8] + pack_bits(bits),
        PValue::Enumerated(n) => tag_octets(9, false, unsigned_len(n as nat)) + unsigned_octets(n as nat),
        PValue::Date(d) => tag_octets(10, false, 4) + seq![
            year_octet(d.year),
            d.month,
            d.day,
            weekday_number(d.weekday),
        ],
        PValue::Time(t) => tag_octets(11, false, 4) + seq![t.hour, t.minute, t.second, t.hundredths],
        PValue::ObjectId(o) => tag_octets(12, false, 4) + be_bytes(object_id_raw(o), 4),
        PValue::Array(s) => seq_octets(s),
        PValue::List(s) => seq_octets(s),
    }
}

/// The application-tagged octets of each value of `s`, one after another.
pub open spec fn seq_octets(s: Seq<PValue>) -> Seq<u8>
    decreases s,
{
    if s.len() == 0 {
        Seq::<u8>::empty()
    } else {
        seq_octets(s.drop_last()) + app_octets(s.last())
    }
}

/// Whether every length of a value fits the four-octet length field.
pub open spec fn app_encodable(v: PValue) -> bool
    decreases v,
{
    match v {
        PValue::OctetString(s) => s.len() < 0xFFFF_FFFF,
        PValue::CharacterString(c) => vstd::utf8::encode_utf8(c).len() < 0xFFFF_FFFF,
        PValue::BitString(bits) => bits.len() < 0xFFFF_FFF0,
        PValue::Array(s) => seq_encodable(s),
        PValue::List(s) => seq_encodable(s),
        _ => true,
    }
}

pub open spec fn seq_encodable(s: Seq<PValue>) -> bool
    decreases s,
{
    if s.len() == 0 {
        true
    } else {
        seq_encodable(s.drop_last()) && app_encodable(s.last())
    }
}

/// The value decoded from the application tag at `pos`, with the position
/// after it.  Arrays and lists are never produced: a single tag holds one
/// primitive value.
pub open spec fn spec_decode_app(buf: Seq<u8>, pos: int) -> Option<(PValue, int)> {
    match spec_tag_header(buf, pos) {
        None => None,
        Some((number, context, lvt, len, start)) => {
            if context || lvt > 5 || (number != 1 && start + len > buf.len()) {
                None
            } else {
                let c = buf.subrange(start, start + len);
                let next = start + len;
                if number == 0 {
                    if len == 0 { Some((PValue::Null, next)) } else { None }
                } else if number == 1 {
                    if lvt <= 1 { Some((PValue::Boolean(lvt == 1), start)) } else { None }
                } else if number == 2 {
                    if 1 <= len <= 4 { Some((PValue::Unsigned(be_value(c) as u32), next)) } else { None }
                } else if number == 3 {
                    if 1 <= len <= 4 { Some((PValue::Integer(signed_value(c) as i32), next)) } else { None }
                } else if number == 4 {
                    if len == 4 { Some((PValue::Real(be_value(c) as u32), next)) } else { None }
                } else if number == 5 {
                    if len == 8 { Some((PValue::Double(be_value(c) as u64), next)) } else { None }
                } else if number == 6 {
                    Some((PValue::OctetString(c), next))
                } else if number == 7 {
                    if len >= 1 && c[0] == 0 && vstd::utf8::valid_utf8(c.drop_first()) {
                        Some((PValue::CharacterString(vstd::utf8::decode_utf8(c.drop_first())), next))
                    } else {
                        None
                    }
                } else if number == 8 {
                    if len >= 1 && len <= 0x2000_0000 && c[0] <= 7 && (len > 1 || c[0] == 0) {
                        Some((PValue::BitString(unpack_bits(c.drop_first(), c[0])), next))
                    } else {
                        None
                    }
                } else if number == 9 {
                    if 1 <= len <= 4 { Some((PValue::Enumerated(be_value(c) as u32), next)) } else { None }
                } else if number == 10 {
                    if len == 4 && 1 <= c[3] <= 7 {
                        Some((PValue::Date(BacnetDate {
                            year: (1900 + c[0]) as u16,
                            month: c[1],
                            day: c[2],
                            weekday: choose|w: Weekday| weekday_number(w) == c[3],
                        }), next))
                    } else {
                        None
                    }
                } else if number == 11 {
                    if len == 4 {
                        Some((PValue::Time(BacnetTime {
                            hour: c[0],
                            minute: c[1],
                            second: c[2],
                            hundredths: c[3],
                        }), next))
                    } else {
                        None
                    }
                } else if number == 12 {
                    if len == 4 {
                        match object_id_from_raw(be_value(c)) {
                            Some(o) => Some((PValue::ObjectId(o), next)),
                            None => None,
                        }
                    } else {
                        None
                    }
                } else {
                    None
                }
            }
        },
    }
}

fn signed_len_exec(v: i32) -> (r: u32)
    ensures
        r == signed_len(v as int),
{
    if -0x80 <= v && v < 0x80 {
        1
    } else if -0x8000 <= v && v < 0x8000 {
        2
    } else if -0x800000 <= v && v < 0x800000 {
        3
    } else {
        4
    }
}

fn pow256_exec(n: u32) -> (r: u64)
    requires
        n <= 4,
    ensures
        r == pow256(n as nat),
{
    proof { lemma_pow256_values(); reveal_with_fuel(pow256, 5); }
    if n == 0 {
        1
    } else if n == 1 {
        256
    } else if n == 2 {
        65536
    } else if n == 3 {
        16777216
    } else {
        4294967296
    }
}

fn year_octet_exec(year: u16) -> (r: u8)
    ensures
        r == year_octet(year),
{
    if 1900 <= year && year <= 2155 {
        (year - 1900) as u8
    } else {
        255
    }
}

fn weekday_number_exec(w: Weekday) -> (r: u8)
    ensures
        r == weekday_number(w),
{
    match w {
        Weekday::Monday => 1,
        Weekday::Tuesday => 2,
        Weekday::Wednesday => 3,
        Weekday::Thursday => 4,
        Weekday::Friday => 5,
        Weekday::Saturday => 6,
        Weekday::Sunday => 7,
    }
}

/// The octets packing `bits`, first bit in the most significant position of
/// the first octet.
pub fn pack_bits_exec(bits: &[bool]) -> (r: Vec<u8>)
    requires
        bits@.len() < 0xFFFF_FFF0,
    ensures
        r@ == pack_bits(bits@),
{
    let n = bits.len();
    let nbytes = (n + 7) / 8;
    let mut out: Vec<u8> = Vec::new();
    let mut k: usize = 0;
    while k < nbytes
        invariant
            n == bits@.len(),
            n < 0xFFFF_FFF0,
            nbytes == (n + 7) / 8,
            k <= nbytes,
            out@ == pack_bits(bits@).take(k as int),
        decreases nbytes - k,
    {
        let mut byte: u8 = 0;
        let mut j: usize = 0;
        while j < 8
            invariant
                n == bits@.len(),
                k < nbytes,
                nbytes == (n + 7) / 8,
                n < 0xFFFF_FFF0,
                j <= 8,
                byte == bit_octet_prefix(bits@, k as int, j as nat),
            decreases 8 - j,
        {
            let i = 8 * k + j;
            if i < n && bits[i] {
                byte = byte | (0x80u8 >> (j as u8));
            } else {
                byte = byte | 0u8;
            }
            proof {
                let ghost jj = (j + 1) as nat;
                assert(bit_octet_prefix(bits@, k as int, jj) == bit_octet_prefix(bits@, k as int, j as nat)
                    | (if 0 <= i < bits@.len() && bits@[i as int] { (0x80u8 >> (j as u8)) } else { 0u8 }));
            }
            j = j + 1;
        }
        out.push(byte);
        k = k + 1;
        assert(out@ =~= pack_bits(bits@).take(k as int));
    }
    assert(out@ =~= pack_bits(bits@));
    out
}

/// Appends the application-tagged encoding of `v`.
pub fn encode_property_value(buf: &mut bytes::BytesMut, v: &PropertyValue)
    requires
        app_encodable(v@),
    ensures
        bytes_mut_view(*final(buf)) == bytes_mut_view(*old(buf)) + app_octets(v@),
    decreases v,
{
    match v {
        PropertyValue::Null => {
            encode_tag(buf, 0, false, 0);
        },
        PropertyValue::Boolean(b) => {
            encode_tag(buf, 1, false, if *b { 1 } else { 0 });
        },
        PropertyValue::Unsigned(n) => {
            let len = unsigned_len_exec(*n);
            encode_tag(buf, 2, false, len);
            put_be(buf, *n as u64, len as usize);
        },
        PropertyValue::Integer(n) => {
            let len = signed_len_exec(*n);
            let p = pow256_exec(len);
            proof { lemma_pow256_values(); reveal_with_fuel(pow256, 5); }
            assert(p <= 4294967296);
            let tc: u64 = if *n >= 0 { *n as u64 } else { ((*n as i64) + (p as i64)) as u64 };
            assert(tc as nat == twos_complement(*n as int, len as nat));
            encode_tag(buf, 3, false, len);
            put_be(buf, tc, len as usize);
        },
        PropertyValue::Real(b) => {
            encode_tag(buf, 4, false, 4);
            put_be(buf, *b as u64, 4);
        },
        PropertyValue::Double(b) => {
            encode_tag(buf, 5, false, 8);
            put_be(buf, *b, 8);
        },
        PropertyValue::OctetString(s) => {
            encode_tag(buf, 6, false, s.len() as u32);
            extend_from_slice(buf, s.as_slice());
        },
        PropertyValue::CharacterString(s) => {
            let bytes = s.as_str().as_bytes();
            assert(bytes@ == vstd::utf8::encode_utf8(s@));
            encode_tag(buf, 7, false, (bytes.len() + 1) as u32);
            put_u8(buf, 0);
            extend_from_slice(buf, bytes);
        },
        PropertyValue::BitString(bs) => {
            let packed = pack_bits_exec(bs.bits.as_slice());
            assert(packed.len() * 8 >= bs.bits.len()) by (nonlinear_arith)
                requires packed.len() == (bs.bits.len() + 7) / 8;
            let unused = (packed.len() * 8 - bs.bits.len()) as u8;
            encode_tag(buf, 8, false, (packed.len() + 1) as u32);
            put_u8(buf, unused);
            extend_from_slice(buf, packed.as_slice());
        },
        PropertyValue::Enumerated(n) => {
            let len = unsigned_len_exec(*n);
            encode_tag(buf, 9, false, len);
            put_be(buf, *n as u64, len as usize);
        },
        PropertyValue::Date(d) => {
            encode_tag(buf, 10, false, 4);
            put_u8(buf, year_octet_exec(d.year));
            put_u8(buf, d.month);
            put_u8(buf, d.day);
            put_u8(buf, weekday_number_exec(d.weekday));
        },
        PropertyValue::Time(t) => {
            encode_tag(buf, 11, false, 4);
            put_u8(buf, t.hour);
            put_u8(buf, t.minute);
            put_u8(buf, t.second);
            put_u8(buf, t.hundredths);
        },
        PropertyValue::ObjectId(o) => {
            encode_tag(buf, 12, false, 4);
            put_be(buf, object_id_to_raw(*o) as u64, 4);
        },
        PropertyValue::Array(items) => {
            encode_values(buf, v, items);
        },
        PropertyValue::List(items) => {
            encode_values(buf, v, items);
        },
    }
    assert(bytes_mut_view(*buf) =~= bytes_mut_view(*old(buf)) + app_octets(v@));
}

/// Whether every length in `v` fits the four-octet length field, so that it
/// can be encoded.
pub fn value_encodable(v: &PropertyValue) -> (r: bool)
    ensures
        r == app_encodable(v@),
    decreases v, 1nat,
{
    match v {
        PropertyValue::OctetString(b) => b.len() < 0xFFFF_FFFF,
        PropertyValue::CharacterString(s) => {
            let bytes = s.as_str().as_bytes();
            assert(bytes@ == vstd::utf8::encode_utf8(s@));
            bytes.len() < 0xFFFF_FFFF
        },
        PropertyValue::BitString(b) => b.bits.len() < 0xFFFF_FFF0,
        PropertyValue::Array(items) => values_encodable(v, items),
        PropertyValue::List(items) => values_encodable(v, items),
        _ => true,
    }
}

fn values_encodable(outer: &PropertyValue, items: &Vec<PropertyValue>) -> (r: bool)
    requires
        (outer is Array && outer->Array_0 == *items) || (outer is List && outer->List_0 == *items),
    ensures
        r == seq_encodable(values_view(items@)),
    decreases outer, 0nat,
{
    let mut ok = true;
    let mut i: usize = 0;
    proof { lemma_values_view(items@); }
    while i < items.len()
        invariant
            (outer is Array && outer->Array_0 == *items) || (outer is List && outer->List_0 == *items),
            i <= items@.len(),
            ok == seq_encodable(values_view(items@.take(i as int))),
        decreases items.len() - i,
    {
        proof {
            if outer is Array {
                assert(decreases_to!(*outer => outer->Array_0));
            } else {
                assert(decreases_to!(*outer => outer->List_0));
            }
            assert(decreases_to!(*items => items@));
            assert(decreases_to!(items@ => items@[i as int]));
            assert(decreases_to!(*outer => items@[i as int]));
        }
        let e = value_encodable(&items[i]);
        proof {
            let t1 = items@.take(i + 1);
            assert(t1.drop_last() =~= items@.take(i as int));
            assert(t1.last() == items@[i as int]);
            assert(values_view(t1) == values_view(items@.take(i as int)).push(pv_model(items@[i as int])));
            assert(values_view(t1).drop_last() =~= values_view(items@.take(i as int)));
        }
        ok = ok && e;
        i = i + 1;
    }
    assert(items@.take(items@.len() as int) =~= items@);
    ok
}

fn encode_values(buf: &mut bytes::BytesMut, outer: &PropertyValue, items: &Vec<PropertyValue>)
    requires
        (outer is Array && outer->Array_0 == *items) || (outer is List && outer->List_0 == *items),
        app_encodable(outer@),
    ensures
        bytes_mut_view(*final(buf)) == bytes_mut_view(*old(buf)) + seq_octets(values_view(items@)),
    decreases outer, 0nat,
{
    let ghost s = values_view(items@);
    proof {
        lemma_values_view(items@);
        lemma_seq_encodable_each(s);
    }
    let mut i: usize = 0;
    while i < items.len()
        invariant
            (outer is Array && outer->Array_0 == *items) || (outer is List && outer->List_0 == *items),
            s == values_view(items@),
            s.len() == items@.len(),
            forall|j: int| 0 <= j < s.len() ==> #[trigger] s[j] == pv_model(items@[j]),
            forall|j: int| 0 <= j < s.len() ==> app_encodable(#[trigger] s[j]),
            i <= items@.len(),
            bytes_mut_view(*buf) == bytes_mut_view(*old(buf)) + seq_octets(s.take(i as int)),
        decreases items.len() - i,
    {
        proof {
            if outer is Array {
                assert(decreases_to!(*outer => outer->Array_0));
            } else {
                assert(decreases_to!(*outer => outer->List_0));
            }
            assert(decreases_to!(*items => items@));
            assert(decreases_to!(items@ => items@[i as int]));
            assert(decreases_to!(*outer => items@[i as int]));
            assert(app_encodable(s[i as int]));
        }
        encode_property_value(buf, &items[i]);
        proof {
            assert(s.take(i + 1).drop_last() =~= s.take(i as int));
        }
        i = i + 1;
    }
    assert(s.take(items@.len() as int) =~= s);
}

pub proof fn lemma_seq_encodable_each(s: Seq<PValue>)
    requires
        seq_encodable(s),
    ensures
        forall|j: int| 0 <= j < s.len() ==> app_encodable(#[trigger] s[j]),
    decreases s.len(),
{
    if s.len() > 0 {
        lemma_seq_encodable_each(s.drop_last());
        assert forall|j: int| 0 <= j < s.len() implies app_encodable(#[trigger] s[j]) by {
            if j < s.len() - 1 {
                assert(s[j] == s.drop_last()[j]);
            }
        }
    }
}

/// `std::str::from_utf8`: the string slice over `b`, when `b` is well-formed
/// UTF-8 (the error is dropped).
#[verifier::external_body]
fn str_from_utf8(b: &[u8]) -> (r: Option<&str>)
    ensures
        r is Some <==> vstd::utf8::valid_utf8(b@),
        r matches Some(s) ==> s.spec_bytes() == b@,
{
    std::str::from_utf8(b).ok()
}

fn weekday_from_number(n: u8) -> (r: Weekday)
    requires
        1 <= n <= 7,
    ensures
        weekday_number(r) == n,
{
    if n == 1 {
        Weekday::Monday
    } else if n == 2 {
        Weekday::Tuesday
    } else if n == 3 {
        Weekday::Wednesday
    } else if n == 4 {
        Weekday::Thursday
    } else if n == 5 {
        Weekday::Friday
    } else if n == 6 {
        Weekday::Saturday
    } else {
        Weekday::Sunday
    }
}

pub proof fn lemma_weekday_number_injective(a: Weekday, b: Weekday)
    ensures
        weekday_number(a) == weekday_number(b) ==> a == b,
{
}

/// Reads the application-tagged value at `*pos`, and moves `*pos` past it.
pub fn decode_application_value(buf: &[u8], pos: &mut usize) -> (r: Result<PropertyValue, BacnetError>)
    ensures
        match r {
            Ok(v) => spec_decode_app(buf@, *old(pos) as int) == Some((v@, *final(pos) as int)),
            Err(e) => spec_decode_app(buf@, *old(pos) as int) is None && e is DecodeError
                && *final(pos) == *old(pos),
        },
{
    let blen = buf.len();
    let h = match read_tag(buf, *pos) {
        Some(h) => h,
        None => return Err(decode_error("application tag missing")),
    };
    if h.context || h.lvt > 5 || h.start > blen || (h.number != 1 && (h.len as usize) > blen - h.start) {
        return Err(decode_error("not an application-tagged value"));
    }
    let start = h.start;
    if h.number == 1 {
        if h.lvt <= 1 {
            *pos = start;
            return Ok(PropertyValue::Boolean(h.lvt == 1));
        }
        return Err(decode_error("malformed application-tagged value"));
    }
    let len = h.len as usize;
    let next = start + len;
    let ghost c = buf@.subrange(start as int, next as int);
    proof {
        lemma_pow256_values();
        lemma_be_value_bound(c);
    }
    if h.number == 0 {
        if len == 0 {
            *pos = next;
            return Ok(PropertyValue::Null);
        }
    } else if h.number == 2 || h.number == 9 {
        if 1 <= len && len <= 4 {
            proof { pow256_monotone(len as nat, 4); }
            let u = read_be(buf, start, len) as u32;
            *pos = next;
            return Ok(if h.number == 2 { PropertyValue::Unsigned(u) } else { PropertyValue::Enumerated(u) });
        }
    } else if h.number == 3 {
        if 1 <= len && len <= 4 {
            proof { pow256_monotone(len as nat, 4); }
            let u = read_be(buf, start, len);
            let p = pow256_exec(len as u32);
            let v: i32 = if 2 * u >= p { (u as i64 - p as i64) as i32 } else { u as i32 };
            *pos = next;
            return Ok(PropertyValue::Integer(v));
        }
    } else if h.number == 4 {
        if len == 4 {
            let u = read_be(buf, start, 4) as u32;
            *pos = next;
            return Ok(PropertyValue::Real(u));
        }
    } else if h.number == 5 {
        if len == 8 {
            let u = read_be(buf, start, 8);
            *pos = next;
            return Ok(PropertyValue::Double(u));
        }
    } else if h.number == 6 {
        let v = vstd::slice::slice_to_vec(&buf[start..next]);
        *pos = next;
        return Ok(PropertyValue::OctetString(v));
    } else if h.number == 7 {
        if len >= 1 && buf[start] == 0 {
            assert(c.drop_first() == buf@.subrange(start + 1, next as int));
            match str_from_utf8(&buf[start + 1..next]) {
                Some(s) => {
                    proof {
                        vstd::utf8::encode_utf8_decode_utf8(s@);
                    }
                    let st = String::from_str(s);
                    *pos = next;
                    return Ok(PropertyValue::CharacterString(st));
                },
                None => {},
            }
        }
    } else if h.number == 8 {
        if len >= 1 && len <= 0x2000_0000 && buf[start] <= 7 && (len > 1 || buf[start] == 0) {
            let unused = buf[start];
            let nbits = (len - 1) * 8 - unused as usize;
            let ghost d = c.drop_first();
            let mut bits: Vec<bool> = Vec::new();
            let mut i: usize = 0;
            while i < nbits
                invariant
                    blen == buf@.len(),
                    start + len <= blen,
                    len >= 1,
                    len <= 0x2000_0000,
                    next == start + len,
                    d == buf@.subrange(start + 1, next as int),
                    nbits == d.len() * 8 - unused,
                    i <= nbits,
                    bits@ == unpack_bits(d, unused).take(i as int),
                decreases nbits - i,
            {
                let byte = buf[start + 1 + i / 8];
                let bit = ((byte >> ((7 - i % 8) as u8)) & 1u8) == 1u8;
                bits.push(bit);
                i = i + 1;
                assert(bits@ =~= unpack_bits(d, unused).take(i as int));
            }
            assert(bits@ =~= unpack_bits(d, unused));
            *pos = next;
            return Ok(PropertyValue::BitString(crate::types::BitString { bits }));
        }
    } else if h.number == 10 {
        if len == 4 && 1 <= buf[start + 3] && buf[start + 3] <= 7 {
            let w = weekday_from_number(buf[start + 3]);
            proof {
                lemma_weekday_number_injective(w, choose|x: Weekday| weekday_number(x) == c[3]);
            }
            let d = BacnetDate {
                year: 1900 + buf[start] as u16,
                month: buf[start + 1],
                day: buf[start + 2],
                weekday: w,
            };
            *pos = next;
            return Ok(PropertyValue::Date(d));
        }
    } else if h.number == 11 {
        if len == 4 {
            let t = BacnetTime {
                hour: buf[start],
                minute: buf[start + 1],
                second: buf[start + 2],
                hundredths: buf[start + 3],
            };
            *pos = next;
            return Ok(PropertyValue::Time(t));
        }
    } else if h.number == 12 {
        if len == 4 {
            let raw = read_be(buf, start, 4) as u32;
            match object_id_from_raw_exec(raw) {
                Some(o) => {
                    *pos = next;
                    return Ok(PropertyValue::ObjectId(o));
                },
                None => {},
            }
        }
    }
    Err(decode_error("malformed application-tagged value"))
}

/// The values that an application tag gives back exactly: primitive values
/// whose lengths fit the length field, dates whose year the year octet
/// holds, and object identifiers whose instance fits 22 bits.
pub open spec fn app_roundtrips(v: PValue) -> bool {
    &&& app_encodable(v)
    &&& !(v is Array) && !(v is List)
    &&& (v matches PValue::Date(d) ==> 1900 <= d.year <= 2155)
    &&& (v matches PValue::ObjectId(o) ==> o.instance < 0x400000)
}

proof fn lemma_bit_octet_unpack(bits: Seq<bool>, k: int, j: int)
    requires
        0 <= k,
        0 <= j < 8,
    ensures
        ((bit_octet(bits, k) >> ((7 - j) as u8)) & 1u8 == 1u8) == (0 <= 8 * k + j < bits.len() && bits[8 * k + j]),
{
    reveal_with_fuel(bit_octet_prefix, 9);
    let b0 = 0 <= 8 * k + 0 < bits.len() && bits[8 * k + 0];
    let b1 = 0 <= 8 * k + 1 < bits.len() && bits[8 * k + 1];
    let b2 = 0 <= 8 * k + 2 < bits.len() && bits[8 * k + 2];
    let b3 = 0 <= 8 * k + 3 < bits.len() && bits[8 * k + 3];
    let b4 = 0 <= 8 * k + 4 < bits.len() && bits[8 * k + 4];
    let b5 = 0 <= 8 * k + 5 < bits.len() && bits[8 * k + 5];
    let b6 = 0 <= 8 * k + 6 < bits.len() && bits[8 * k + 6];
    let b7 = 0 <= 8 * k + 7 < bits.len() && bits[8 * k + 7];
    let m0: u8 = if b0 { 0x80u8 } else { 0u8 };
    let m1: u8 = if b1 { 0x40u8 } else { 0u8 };
    let m2: u8 = if b2 { 0x20u8 } else { 0u8 };
    let m3: u8 = if b3 { 0x10u8 } else { 0u8 };
    let m4: u8 = if b4 { 0x08u8 } else { 0u8 };
    let m5: u8 = if b5 { 0x04u8 } else { 0u8 };
    let m6: u8 = if b6 { 0x02u8 } else { 0u8 };
    let m7: u8 = if b7 { 0x01u8 } else { 0u8 };
    assert(0x80u8 >> 0u8 == 0x80u8 && 0x80u8 >> 1u8 == 0x40u8 && 0x80u8 >> 2u8 == 0x20u8 && 0x80u8 >> 3u8 == 0x10u8
        && 0x80u8 >> 4u8 == 0x08u8 && 0x80u8 >> 5u8 == 0x04u8 && 0x80u8 >> 6u8 == 0x02u8 && 0x80u8 >> 7u8 == 0x01u8)
        by (bit_vector);
    let x: u8 = bit_octet(bits, k);
    assert(x == 0u8 | m0 | m1 | m2 | m3 | m4 | m5 | m6 | m7);
    let jj = j as u8;
    let bj = if jj == 0 { b0 } else if jj == 1 { b1 } else if jj == 2 { b2 } else if jj == 3 { b3 }
        else if jj == 4 { b4 } else if jj == 5 { b5 } else if jj == 6 { b6 } else { b7 };
    let sh: u8 = (7 - j) as u8;
    assert(((x >> sh) & 1u8 == 1u8) == bj) by (bit_vector)
        requires
            jj < 8,
            sh + jj == 7,
            m0 == (if b0 { 0x80u8 } else { 0u8 }),
            m1 == (if b1 { 0x40u8 } else { 0u8 }),
            m2 == (if b2 { 0x20u8 } else { 0u8 }),
            m3 == (if b3 { 0x10u8 } else { 0u8 }),
            m4 == (if b4 { 0x08u8 } else { 0u8 }),
            m5 == (if b5 { 0x04u8 } else { 0u8 }),
            m6 == (if b6 { 0x02u8 } else { 0u8 }),
            m7 == (if b7 { 0x01u8 } else { 0u8 }),
            bj == (if jj == 0 { b0 } else if jj == 1 { b1 } else if jj == 2 { b2 } else if jj == 3 { b3 }
                else if jj == 4 { b4 } else if jj == 5 { b5 } else if jj == 6 { b6 } else { b7 }),
            x == 0u8 | m0 | m1 | m2 | m3 | m4 | m5 | m6 | m7;
}

/// Unpacking packed bits gives the bits back.
pub proof fn lemma_bits_roundtrip(bits: Seq<bool>)
    requires
        bits.len() < 0xFFFF_FFF0,
    ensures
        pack_bits(bits).len() * 8 >= bits.len(),
        pack_bits(bits).len() * 8 - bits.len() < 8,
        unpack_bits(pack_bits(bits), (pack_bits(bits).len() * 8 - bits.len()) as u8) == bits,
{
    let p = pack_bits(bits);
    let n = bits.len() as int;
    assert(p.len() * 8 >= n && p.len() * 8 - n < 8) by (nonlinear_arith)
        requires p.len() == (n + 7) / 8, n >= 0;
    let u = (p.len() * 8 - n) as u8;
    let r = unpack_bits(p, u);
    assert(r.len() == n);
    assert forall|i: int| 0 <= i < n implies r[i] == bits[i] by {
        let k = i / 8;
        let j = i % 8;
        assert(8 * k + j == i && 0 <= k < p.len()) by (nonlinear_arith)
            requires 0 <= i < n, k == i / 8, j == i % 8, p.len() == (n + 7) / 8;
        lemma_bit_octet_unpack(bits, k, j);
    }
    assert(r =~= bits);
}

/// The frame of a tag followed by exactly its content: the header read back
/// and the content found in place.
proof fn lemma_app_frame(number: u8, len: nat, body: Seq<u8>, rest: Seq<u8>)
    requires
        number <= 14,
        len < pow256(4),
        len >= 5 ==> body.len() == len,
    ensures
        ({
            let t = tag_octets(number, false, len);
            let buf = t + body + rest;
            &&& spec_tag_header(buf, 0) == Some((number, false, if len < 5 { len as u8 } else { 5u8 }, len, t.len() as int))
            &&& (body.len() == len ==> buf.subrange(t.len() as int, (t.len() + len) as int) == body)
        }),
{
    let t = tag_octets(number, false, len);
    lemma_tag_roundtrip(number, false, len, body + rest);
    assert(t + body + rest == t + (body + rest));
    if body.len() == len {
        assert((t + body + rest).subrange(t.len() as int, (t.len() + len) as int) =~= body);
    }
}

#[verifier::spinoff_prover]
proof fn lemma_roundtrip_numbers(v: PValue, rest: Seq<u8>)
    requires
        app_roundtrips(v),
        v is Unsigned || v is Enumerated || v is Integer || v is Real || v is Double,
    ensures
        spec_decode_app(app_octets(v) + rest, 0) == Some((v, app_octets(v).len() as int)),
{
    lemma_pow256_values();
    reveal_with_fuel(pow256, 9);
    match v {
        PValue::Unsigned(n) => {
            let len = unsigned_len(n as nat);
            lemma_be_roundtrip(n as nat, len);
            lemma_app_frame(2, len, unsigned_octets(n as nat), rest);
        },
        PValue::Enumerated(n) => {
            let len = unsigned_len(n as nat);
            lemma_be_roundtrip(n as nat, len);
            lemma_app_frame(9, len, unsigned_octets(n as nat), rest);
        },
        PValue::Integer(n) => {
            let len = signed_len(n as int);
            let t = twos_complement(n as int, len);
            assert(t < pow256(len));
            lemma_be_roundtrip(t, len);
            lemma_app_frame(3, len, be_bytes(t, len), rest);
            assert(signed_value(be_bytes(t, len)) == n as int);
        },
        PValue::Real(b) => {
            lemma_be_roundtrip(b as nat, 4);
            lemma_app_frame(4, 4, be_bytes(b as nat, 4), rest);
        },
        PValue::Double(b) => {
            lemma_be_roundtrip(b as nat, 8);
            lemma_app_frame(5, 8, be_bytes(b as nat, 8), rest);
        },
        _ => {},
    }
}

#[verifier::spinoff_prover]
proof fn lemma_roundtrip_strings(v: PValue, rest: Seq<u8>)
    requires
        app_roundtrips(v),
        v is OctetString || v is CharacterString || v is BitString,
    ensures
        spec_decode_app(app_octets(v) + rest, 0) == Some((v, app_octets(v).len() as int)),
{
    lemma_pow256_values();
    match v {
        PValue::OctetString(s) => {
            lemma_app_frame(6, s.len(), s, rest);
        },
        PValue::CharacterString(ch) => {
            let e = vstd::utf8::encode_utf8(ch);
            let body = seq![0u8] + e;
            lemma_app_frame(7, e.len() + 1, body, rest);
            assert(app_octets(v) == tag_octets(7, false, e.len() + 1) + body);
            assert(body.drop_first() =~= e);
            vstd::utf8::encode_utf8_valid_utf8(ch);
            vstd::utf8::encode_utf8_decode_utf8(ch);
        },
        PValue::BitString(bits) => {
            let p = pack_bits(bits);
            lemma_bits_roundtrip(bits);
            let body = seq![(p.len() * 8 - bits.len()) as u8] + p;
            lemma_app_frame(8, p.len() + 1, body, rest);
            assert(app_octets(v) == tag_octets(8, false, p.len() + 1) + body);
            assert(body.drop_first() =~= p);
        },
        _ => {},
    }
}

#[verifier::spinoff_prover]
proof fn lemma_roundtrip_fixed(v: PValue, rest: Seq<u8>)
    requires
        app_roundtrips(v),
        v is Null || v is Boolean || v is Date || v is Time || v is ObjectId,
    ensures
        spec_decode_app(app_octets(v) + rest, 0) == Some((v, app_octets(v).len() as int)),
{
    lemma_pow256_values();
    match v {
        PValue::Null => {
            lemma_app_frame(0, 0, Seq::<u8>::empty(), rest);
            assert(app_octets(v) + rest == tag_octets(0, false, 0) + Seq::<u8>::empty() + rest);
            assert(spec_decode_app(app_octets(v) + rest, 0) == Some((v, app_octets(v).len() as int)));
        },
        PValue::Boolean(b) => {
            lemma_app_frame(1, if b { 1 } else { 0 }, Seq::<u8>::empty(), rest);
            assert(app_octets(v) + rest == tag_octets(1, false, if b { 1 } else { 0 }) + Seq::<u8>::empty() + rest);
            assert(spec_decode_app(app_octets(v) + rest, 0) == Some((v, app_octets(v).len() as int)));
        },
        PValue::Date(d) => {
            let body = seq![year_octet(d.year), d.month, d.day, weekday_number(d.weekday)];
            lemma_app_frame(10, 4, body, rest);
            assert((1900 + year_octet(d.year)) as u16 == d.year);
            assert(1 <= body[3] <= 7);
            lemma_weekday_number_injective(d.weekday, choose|x: Weekday| weekday_number(x) == body[3]);
            assert(spec_decode_app(app_octets(v) + rest, 0) == Some((v, app_octets(v).len() as int)));
        },
        PValue::Time(t) => {
            let body = seq![t.hour, t.minute, t.second, t.hundredths];
            lemma_app_frame(11, 4, body, rest);
            assert(spec_decode_app(app_octets(v) + rest, 0) == Some((v, app_octets(v).len() as int)));
        },
        PValue::ObjectId(oid) => {
            lemma_object_id_raw_roundtrip(oid);
            lemma_be_roundtrip(object_id_raw(oid), 4);
            lemma_app_frame(12, 4, be_bytes(object_id_raw(oid), 4), rest);
            assert(spec_decode_app(app_octets(v) + rest, 0) == Some((v, app_octets(v).len() as int)));
        },
        _ => {},
    }
}

/// Decoding the application-tagged octets of a primitive value gives the
/// value back and stops right after them, whatever follows.
pub proof fn lemma_app_roundtrip(v: PValue, rest: Seq<u8>)
    requires
        app_roundtrips(v),
    ensures
        spec_decode_app(app_octets(v) + rest, 0) == Some((v, app_octets(v).len() as int)),
{
    if v is Unsigned || v is Enumerated || v is Integer || v is Real || v is Double {
        lemma_roundtrip_numbers(v, rest);
    } else if v is OctetString || v is CharacterString || v is BitString {
        lemma_roundtrip_strings(v, rest);
    } else {
        lemma_roundtrip_fixed(v, rest);
    }
}

} // verus!
