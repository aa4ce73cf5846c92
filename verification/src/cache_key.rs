//! Stable cache keys for rendered math: a SHA 256 digest over an unambiguous,
//! length prefixed encoding of every rendering input.

use vstd::prelude::*;
use vstd::utf8::encode_utf8;

use crate::color::{Rgba, hex_byte};
use crate::limits::RENDER_CORE_VERSION;
use crate::request::RenderRequest;
use crate::text::{decimal, push_char, push_decimal};

verus! {

/// Version data that can invalidate renderer and rasterizer output.
#[derive(Clone, Copy, Debug, PartialEq, Eq)]
pub struct CacheKeyContext<'a> {
    /// Renderer protocol version.
    pub protocol_version: u32,
    /// Renderer implementation version.
    pub renderer_version: &'a str,
    /// Fixed extension and macro policy version.
    pub macro_policy_version: &'a str,
    /// Sanitized output policy version.
    pub sanitizer_version: &'a str,
    /// Rasterizer version or the literal value `none` for SVG only output.
    pub rasterizer_version: &'a str,
}

/// The SHA 256 digest of a byte sequence.
pub uninterp spec fn sha256(data: Seq<u8>) -> Seq<u8>;

/// SHA 256 digest of `data` (`sha2::Sha256::digest`), always 32 bytes.
#[verifier::external_body]
fn sha256_digest(data: &[u8]) -> (r: Vec<u8>)
    ensures
        r@ == sha256(data@),
        r@.len() == 32,
{
    <sha2::Sha256 as sha2::Digest>::digest(data).to_vec()
}

/// The `k` byte big endian encoding of `n` (its low `k` bytes).
pub open spec fn be_bytes(n: nat, k: nat) -> Seq<u8>
    decreases k,
{
    if k == 0 {
        Seq::empty()
    } else {
        be_bytes(n / 256, (k - 1) as nat).push((n % 256) as u8)
    }
}

/// A value preceded by its length as eight big endian bytes.
pub open spec fn field(value: Seq<u8>) -> Seq<u8> {
    be_bytes(value.len(), 8) + value
}

pub open spec fn channel_bytes(c: Rgba) -> Seq<u8> {
    seq![c.red, c.green, c.blue, c.alpha]
}

/// The fields after the background: scale and maximum width.
pub open spec fn size_fields(r: RenderRequest) -> Seq<u8> {
    field(be_bytes(r.scale as nat, 4)) + field(be_bytes(r.max_width_px as nat, 4))
}

/// The background field (a presence flag, then the channels) and the size fields.
pub open spec fn background_fields(r: RenderRequest) -> Seq<u8> {
    match r.background {
        Some(b) => field(seq![1u8]) + (field(channel_bytes(b)) + size_fields(r)),
        None => field(seq![0u8]) + size_fields(r),
    }
}

/// The request fields: source, display flag, foreground, background and sizes.
pub open spec fn request_fields(r: RenderRequest) -> Seq<u8> {
    field(encode_utf8(r.source@)) + (field(seq![if r.display_mode { 1u8 } else { 0u8 }]) + (
    field(channel_bytes(r.foreground)) + background_fields(r)))
}

/// The bytes digested for a request in a context: each input as a length prefixed field.
pub open spec fn preimage(r: RenderRequest, c: CacheKeyContext) -> Seq<u8> {
    field(encode_utf8("codex-latex-render"@)) + (field(be_bytes(RENDER_CORE_VERSION as nat, 4)) + (
    field(be_bytes(c.protocol_version as nat, 4)) + (field(encode_utf8(c.renderer_version@)) + (
    field(encode_utf8(c.macro_policy_version@)) + (field(encode_utf8(c.sanitizer_version@)) + (
    field(encode_utf8(c.rasterizer_version@)) + request_fields(r)))))))
}

/// Lowercase hexadecimal digits of every byte, in order.
pub open spec fn hex_all(bytes: Seq<u8>) -> Seq<char>
    decreases bytes.len(),
{
    if bytes.len() == 0 {
        Seq::empty()
    } else {
        hex_all(bytes.drop_last()) + hex_byte(bytes.last())
    }
}

/// The key of a request: the contract version, a colon, and the hexadecimal digest.
pub open spec fn cache_key(r: RenderRequest, c: CacheKeyContext) -> Seq<char> {
    seq!['v'] + decimal(RENDER_CORE_VERSION as nat) + seq![':'] + hex_all(sha256(preimage(r, c)))
}

/// Appends the `k` byte big endian encoding of `n`.
fn push_be(out: &mut Vec<u8>, n: u64, k: u32)
    requires
        k <= 8,
    ensures
        final(out)@ == old(out)@ + be_bytes(n as nat, k as nat),
    decreases k,
{
    if k > 0 {
        push_be(out, n / 256, k - 1);
        out.push((n % 256) as u8);
        assert(final(out)@ =~= old(out)@ + be_bytes(n as nat, k as nat));
    } else {
        assert(final(out)@ =~= old(out)@ + be_bytes(n as nat, k as nat));
    }
}

/// Appends a length prefixed field.
fn push_field(out: &mut Vec<u8>, value: &[u8])
    ensures
        final(out)@ == old(out)@ + field(value@),
{
    push_be(out, value.len() as u64, 8);
    let mut i: usize = 0;
    let ghost mid = out@;
    while i < value.len()
        invariant
            i <= value@.len(),
            out@ == mid + value@.take(i as int),
        decreases value@.len() - i,
    {
        out.push(value[i]);
        assert(value@.take(i + 1) =~= value@.take(i as int).push(value@[i as int]));
        i = i + 1;
    }
    assert(value@.take(value@.len() as int) =~= value@);
    assert(final(out)@ =~= old(out)@ + field(value@));
}

fn channels_vec(c: Rgba) -> (r: Vec<u8>)
    ensures
        r@ == channel_bytes(c),
{
    let r = vec![c.red, c.green, c.blue, c.alpha];
    assert(r@ =~= channel_bytes(c));
    r
}

/// A field followed by already encoded bytes.
fn prepend_field(value: &[u8], tail: Vec<u8>) -> (r: Vec<u8>)
    ensures
        r@ == field(value@) + tail@,
{
    let mut out: Vec<u8> = Vec::new();
    push_field(&mut out, value);
    let mut t = tail;
    out.append(&mut t);
    assert(out@ =~= field(value@) + tail@);
    out
}

fn be_vec(n: u64, k: u32) -> (r: Vec<u8>)
    requires
        k <= 8,
    ensures
        r@ == be_bytes(n as nat, k as nat),
{
    let mut v: Vec<u8> = Vec::new();
    push_be(&mut v, n, k);
    assert(v@ =~= be_bytes(n as nat, k as nat));
    v
}

fn request_fields_bytes(request: &RenderRequest) -> (r: Vec<u8>)
    ensures
        r@ == request_fields(*request),
{
    let scale = be_vec(request.scale as u64, 4);
    let width = be_vec(request.max_width_px as u64, 4);
    let sizes = prepend_field(scale.as_slice(), prepend_field(width.as_slice(), Vec::new()));
    assert(sizes@ =~= size_fields(*request));
    let background = match request.background {
        Some(b) => {
            let one = vec![1u8];
            let bg = channels_vec(b);
            prepend_field(one.as_slice(), prepend_field(bg.as_slice(), sizes))
        },
        None => {
            let zero = vec![0u8];
            prepend_field(zero.as_slice(), sizes)
        },
    };
    assert(background@ =~= background_fields(*request));
    let fg = channels_vec(request.foreground);
    let display = vec![if request.display_mode { 1u8 } else { 0u8 }];
    let r = prepend_field(
        request.source.as_str().as_bytes(),
        prepend_field(display.as_slice(), prepend_field(fg.as_slice(), background)),
    );
    assert(r@ =~= request_fields(*request));
    r
}

/// The bytes digested for a request in a context.
pub fn cache_key_preimage(request: &RenderRequest, context: CacheKeyContext) -> (r: Vec<u8>)
    ensures
        r@ == preimage(*request, context),
{
    let tail = request_fields_bytes(request);
    let t = prepend_field(context.rasterizer_version.as_bytes(), tail);
    let t = prepend_field(context.sanitizer_version.as_bytes(), t);
    let t = prepend_field(context.macro_policy_version.as_bytes(), t);
    let t = prepend_field(context.renderer_version.as_bytes(), t);
    let protocol = be_vec(context.protocol_version as u64, 4);
    let t = prepend_field(protocol.as_slice(), t);
    let version = be_vec(RENDER_CORE_VERSION as u64, 4);
    let t = prepend_field(version.as_slice(), t);
    let t = prepend_field("codex-latex-render".as_bytes(), t);
    t
}

/// Derives a stable SHA 256 key from every rendering input.
pub fn derive_cache_key(request: &RenderRequest, context: CacheKeyContext) -> (r: String)
    ensures
        r@ == cache_key(*request, context),
{
    let data = cache_key_preimage(request, context);
    let digest = sha256_digest(data.as_slice());
    let mut key = String::new();
    push_char(&mut key, 'v');
    push_decimal(&mut key, RENDER_CORE_VERSION as u64);
    push_char(&mut key, ':');
    let ghost head = key@;
    let mut i: usize = 0;
    while i < digest.len()
        invariant
            i <= digest@.len(),
            key@ == head + hex_all(digest@.take(i as int)),
        decreases digest@.len() - i,
    {
        let b = digest[i];
        push_char(&mut key, crate::color::hex_digit_char(b / 16));
        push_char(&mut key, crate::color::hex_digit_char(b % 16));
        assert(digest@.take(i + 1).drop_last() =~= digest@.take(i as int));
        assert(key@ =~= head + hex_all(digest@.take(i + 1)));
        i = i + 1;
    }
    assert(digest@.take(digest@.len() as int) =~= digest@);
    assert(key@ =~= cache_key(*request, context));
    key
}


/// `256` to the power `k`.
pub open spec fn pow256(k: nat) -> nat
    decreases k,
{
    if k == 0 {
        1
    } else {
        256 * pow256((k - 1) as nat)
    }
}

proof fn lemma_be_len(n: nat, k: nat)
    ensures
        be_bytes(n, k).len() == k,
    decreases k,
{
    if k > 0 {
        lemma_be_len(n / 256, (k - 1) as nat);
    }
}

proof fn lemma_be_injective(a: nat, b: nat, k: nat)
    requires
        a < pow256(k),
        b < pow256(k),
        be_bytes(a, k) == be_bytes(b, k),
    ensures
        a == b,
    decreases k,
{
    if k > 0 {
        let pa = be_bytes(a / 256, (k - 1) as nat);
        let pb = be_bytes(b / 256, (k - 1) as nat);
        assert(be_bytes(a, k).drop_last() =~= pa);
        assert(be_bytes(b, k).drop_last() =~= pb);
        assert(a % 256 == b % 256) by {
            assert(be_bytes(a, k).last() == be_bytes(b, k).last());
            assert(be_bytes(a, k).last() == (a % 256) as u8);
            assert(be_bytes(b, k).last() == (b % 256) as u8);
        }
        let p = pow256((k - 1) as nat);
        assert(a / 256 < p && b / 256 < p) by (nonlinear_arith)
            requires
                a < 256 * p,
                b < 256 * p,
        ;
        lemma_be_injective(a / 256, b / 256, (k - 1) as nat);
        assert(a == 256 * (a / 256) + a % 256) by (nonlinear_arith);
        assert(b == 256 * (b / 256) + b % 256) by (nonlinear_arith);
    }
}

proof fn lemma_pow256_8()
    ensures
        pow256(8) == 0x1_0000_0000_0000_0000,
        pow256(4) == 0x1_0000_0000,
{
    reveal_with_fuel(pow256, 9);
}

/// A length prefixed field is read back unambiguously from the front of a sequence.
proof fn lemma_field_prefix(a: Seq<u8>, x: Seq<u8>, b: Seq<u8>, y: Seq<u8>)
    requires
        a.len() < 0x1_0000_0000_0000_0000,
        b.len() < 0x1_0000_0000_0000_0000,
        field(a) + x == field(b) + y,
    ensures
        a == b,
        x == y,
{
    lemma_be_len(a.len(), 8);
    lemma_be_len(b.len(), 8);
    lemma_pow256_8();
    let s = field(a) + x;
    assert(s.take(8) =~= be_bytes(a.len(), 8));
    assert((field(b) + y).take(8) =~= be_bytes(b.len(), 8));
    lemma_be_injective(a.len(), b.len(), 8);
    assert(s.subrange(8, 8 + a.len() as int) =~= a);
    assert((field(b) + y).subrange(8, 8 + b.len() as int) =~= b);
    assert(s.skip(8 + a.len() as int) =~= x);
    assert((field(b) + y).skip(8 + b.len() as int) =~= y);
}

proof fn lemma_be4_value(n: nat, m: nat)
    requires
        n < 0x1_0000_0000,
        m < 0x1_0000_0000,
        be_bytes(n, 4) == be_bytes(m, 4),
    ensures
        n == m,
{
    lemma_pow256_8();
    lemma_be_injective(n, m, 4);
}

/// The fields of a request determine the request's rendering inputs.
proof fn lemma_request_fields_injective(r1: RenderRequest, r2: RenderRequest)
    requires
        encode_utf8(r1.source@).len() < 0x1_0000_0000_0000_0000,
        encode_utf8(r2.source@).len() < 0x1_0000_0000_0000_0000,
        request_fields(r1) == request_fields(r2),
    ensures
        r1.source@ == r2.source@,
        r1.display_mode == r2.display_mode,
        r1.foreground == r2.foreground,
        r1.background == r2.background,
        r1.scale == r2.scale,
        r1.max_width_px == r2.max_width_px,
{
    let d1 = seq![if r1.display_mode { 1u8 } else { 0u8 }];
    let d2 = seq![if r2.display_mode { 1u8 } else { 0u8 }];
    lemma_field_prefix(
        encode_utf8(r1.source@),
        field(d1) + (field(channel_bytes(r1.foreground)) + background_fields(r1)),
        encode_utf8(r2.source@),
        field(d2) + (field(channel_bytes(r2.foreground)) + background_fields(r2)),
    );
    vstd::utf8::encode_utf8_decode_utf8(r1.source@);
    vstd::utf8::encode_utf8_decode_utf8(r2.source@);
    lemma_field_prefix(
        d1,
        field(channel_bytes(r1.foreground)) + background_fields(r1),
        d2,
        field(channel_bytes(r2.foreground)) + background_fields(r2),
    );
    assert(d1[0] == d2[0]);
    lemma_field_prefix(
        channel_bytes(r1.foreground),
        background_fields(r1),
        channel_bytes(r2.foreground),
        background_fields(r2),
    );
    assert(channel_bytes(r1.foreground)[0] == channel_bytes(r2.foreground)[0]);
    assert(channel_bytes(r1.foreground)[1] == channel_bytes(r2.foreground)[1]);
    assert(channel_bytes(r1.foreground)[2] == channel_bytes(r2.foreground)[2]);
    assert(channel_bytes(r1.foreground)[3] == channel_bytes(r2.foreground)[3]);
    let (t1, rest1) = match r1.background {
        Some(b) => (seq![1u8], field(channel_bytes(b)) + size_fields(r1)),
        None => (seq![0u8], size_fields(r1)),
    };
    let (t2, rest2) = match r2.background {
        Some(b) => (seq![1u8], field(channel_bytes(b)) + size_fields(r2)),
        None => (seq![0u8], size_fields(r2)),
    };
    lemma_field_prefix(t1, rest1, t2, rest2);
    assert(t1[0] == t2[0]);
    match (r1.background, r2.background) {
        (Some(b1), Some(b2)) => {
            lemma_field_prefix(channel_bytes(b1), size_fields(r1), channel_bytes(b2), size_fields(r2));
            assert(channel_bytes(b1)[0] == channel_bytes(b2)[0]);
            assert(channel_bytes(b1)[1] == channel_bytes(b2)[1]);
            assert(channel_bytes(b1)[2] == channel_bytes(b2)[2]);
            assert(channel_bytes(b1)[3] == channel_bytes(b2)[3]);
        },
        _ => {},
    }
    lemma_be_len(r1.scale as nat, 4);
    lemma_be_len(r2.scale as nat, 4);
    lemma_be_len(r1.max_width_px as nat, 4);
    lemma_be_len(r2.max_width_px as nat, 4);
    lemma_field_prefix(
        be_bytes(r1.scale as nat, 4),
        field(be_bytes(r1.max_width_px as nat, 4)),
        be_bytes(r2.scale as nat, 4),
        field(be_bytes(r2.max_width_px as nat, 4)),
    );
    assert(field(be_bytes(r1.max_width_px as nat, 4)) + Seq::<u8>::empty() =~= field(be_bytes(r1.max_width_px as nat, 4)));
    assert(field(be_bytes(r2.max_width_px as nat, 4)) + Seq::<u8>::empty() =~= field(be_bytes(r2.max_width_px as nat, 4)));
    lemma_field_prefix(
        be_bytes(r1.max_width_px as nat, 4),
        Seq::<u8>::empty(),
        be_bytes(r2.max_width_px as nat, 4),
        Seq::<u8>::empty(),
    );
    lemma_be4_value(r1.scale as nat, r2.scale as nat);
    lemma_be4_value(r1.max_width_px as nat, r2.max_width_px as nat);
}

/// The digested bytes are unambiguous: two requests in two contexts give the same
/// bytes only when every rendering input and every version agree, so distinct inputs
/// can share a key only through a SHA 256 collision.
pub proof fn law_preimage_is_unambiguous(
    r1: RenderRequest,
    c1: CacheKeyContext,
    r2: RenderRequest,
    c2: CacheKeyContext,
)
    requires
        encode_utf8(r1.source@).len() < 0x1_0000_0000_0000_0000,
        encode_utf8(r2.source@).len() < 0x1_0000_0000_0000_0000,
        encode_utf8(c1.renderer_version@).len() < 0x1_0000_0000_0000_0000,
        encode_utf8(c2.renderer_version@).len() < 0x1_0000_0000_0000_0000,
        encode_utf8(c1.macro_policy_version@).len() < 0x1_0000_0000_0000_0000,
        encode_utf8(c2.macro_policy_version@).len() < 0x1_0000_0000_0000_0000,
        encode_utf8(c1.sanitizer_version@).len() < 0x1_0000_0000_0000_0000,
        encode_utf8(c2.sanitizer_version@).len() < 0x1_0000_0000_0000_0000,
        encode_utf8(c1.rasterizer_version@).len() < 0x1_0000_0000_0000_0000,
        encode_utf8(c2.rasterizer_version@).len() < 0x1_0000_0000_0000_0000,
        preimage(r1, c1) == preimage(r2, c2),
    ensures
        r1.source@ == r2.source@,
        r1.display_mode == r2.display_mode,
        r1.foreground == r2.foreground,
        r1.background == r2.background,
        r1.scale == r2.scale,
        r1.max_width_px == r2.max_width_px,
        c1.protocol_version == c2.protocol_version,
        c1.renderer_version@ == c2.renderer_version@,
        c1.macro_policy_version@ == c2.macro_policy_version@,
        c1.sanitizer_version@ == c2.sanitizer_version@,
        c1.rasterizer_version@ == c2.rasterizer_version@,
{
    let tag = encode_utf8("codex-latex-render"@);
    let ver = be_bytes(RENDER_CORE_VERSION as nat, 4);
    lemma_be_len(RENDER_CORE_VERSION as nat, 4);
    lemma_be_len(c1.protocol_version as nat, 4);
    lemma_be_len(c2.protocol_version as nat, 4);
    assert(tag.len() < 0x1_0000_0000_0000_0000) by {
        reveal_strlit("codex-latex-render");
        assert(tag.len() == 18) by {
            reveal_with_fuel(encode_utf8, 20);
        }
    }
    let x1 = request_fields(r1);
    let x2 = request_fields(r2);
    let p1 = field(encode_utf8(c1.rasterizer_version@)) + x1;
    let p2 = field(encode_utf8(c2.rasterizer_version@)) + x2;
    let q1 = field(encode_utf8(c1.sanitizer_version@)) + p1;
    let q2 = field(encode_utf8(c2.sanitizer_version@)) + p2;
    let m1 = field(encode_utf8(c1.macro_policy_version@)) + q1;
    let m2 = field(encode_utf8(c2.macro_policy_version@)) + q2;
    let n1 = field(encode_utf8(c1.renderer_version@)) + m1;
    let n2 = field(encode_utf8(c2.renderer_version@)) + m2;
    let o1 = field(be_bytes(c1.protocol_version as nat, 4)) + n1;
    let o2 = field(be_bytes(c2.protocol_version as nat, 4)) + n2;
    let v1 = field(ver) + o1;
    let v2 = field(ver) + o2;
    lemma_field_prefix(tag, v1, tag, v2);
    lemma_field_prefix(ver, o1, ver, o2);
    lemma_field_prefix(be_bytes(c1.protocol_version as nat, 4), n1, be_bytes(c2.protocol_version as nat, 4), n2);
    lemma_be4_value(c1.protocol_version as nat, c2.protocol_version as nat);
    lemma_field_prefix(encode_utf8(c1.renderer_version@), m1, encode_utf8(c2.renderer_version@), m2);
    lemma_field_prefix(encode_utf8(c1.macro_policy_version@), q1, encode_utf8(c2.macro_policy_version@), q2);
    lemma_field_prefix(encode_utf8(c1.sanitizer_version@), p1, encode_utf8(c2.sanitizer_version@), p2);
    lemma_field_prefix(encode_utf8(c1.rasterizer_version@), x1, encode_utf8(c2.rasterizer_version@), x2);
    vstd::utf8::encode_utf8_decode_utf8(c1.renderer_version@);
    vstd::utf8::encode_utf8_decode_utf8(c2.renderer_version@);
    vstd::utf8::encode_utf8_decode_utf8(c1.macro_policy_version@);
    vstd::utf8::encode_utf8_decode_utf8(c2.macro_policy_version@);
    vstd::utf8::encode_utf8_decode_utf8(c1.sanitizer_version@);
    vstd::utf8::encode_utf8_decode_utf8(c2.sanitizer_version@);
    vstd::utf8::encode_utf8_decode_utf8(c1.rasterizer_version@);
    vstd::utf8::encode_utf8_decode_utf8(c2.rasterizer_version@);
    lemma_request_fields_injective(r1, r2);
}

} // verus!
