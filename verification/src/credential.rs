//! Credential store: a deterministic salted digest of a password, and its
//! verification by recomputation.
//!
//! The digest prefixes a fixed salt to the password and renders every
//! character as a fixed-width hexadecimal block, so distinct passwords
//! always have distinct digests. It is a functional placeholder, not a
//! cryptographic password hash.

use vstd::prelude::*;
use crate::text::{push_char, str_eq};

verus! {

/// The fixed salt prefixed to every password before encoding.
pub open spec fn spec_salt() -> Seq<char> {
    "hrm_salt_"@
}

/// The character for a hexadecimal digit, lower case.
pub open spec fn spec_hex_char(d: nat) -> char
    recommends
        d < 16,
{
    if d < 10 {
        ((48 + d) as u8) as char
    } else {
        ((87 + d) as u8) as char
    }
}

/// The fixed-width hexadecimal rendering of a number, most significant
/// digit first.
pub open spec fn hex_fixed(v: nat, w: nat) -> Seq<char>
    decreases w,
{
    if w == 0 {
        Seq::empty()
    } else {
        hex_fixed(v / 16, (w - 1) as nat).push(spec_hex_char(v % 16))
    }
}

/// Each character as a six-digit hexadecimal block, in order.
pub open spec fn hex_blocks(s: Seq<char>) -> Seq<char>
    decreases s.len(),
{
    if s.len() == 0 {
        Seq::empty()
    } else {
        hex_fixed((s[0] as u32) as nat, 6) + hex_blocks(s.drop_first())
    }
}

/// The digest of a password: the salted text in hexadecimal blocks.
pub open spec fn spec_hash(password: Seq<char>) -> Seq<char> {
    hex_blocks(spec_salt() + password)
}

/// Whether a digest verifies against a password: exact equality with the
/// recomputed digest.
pub open spec fn spec_verify(password: Seq<char>, digest: Seq<char>) -> bool {
    spec_hash(password) == digest
}

pub(crate) fn hex_char(d: u8) -> (c: char)
    requires
        d < 16,
    ensures
        c == spec_hex_char(d as nat),
{
    if d < 10 {
        (48 + d) as char
    } else {
        (87 + d) as char
    }
}

fn push_hex_fixed(out: &mut String, v: u32, w: usize)
    ensures
        final(out)@ == old(out)@ + hex_fixed(v as nat, w as nat),
    decreases w,
{
    if w == 0 {
        assert(old(out)@ + hex_fixed(v as nat, 0) =~= old(out)@);
    } else {
        push_hex_fixed(out, v / 16, w - 1);
        push_char(out, hex_char((v % 16) as u8));
        assert((old(out)@ + hex_fixed((v / 16) as nat, (w - 1) as nat)).push(
            spec_hex_char((v % 16) as nat),
        ) =~= old(out)@ + hex_fixed(v as nat, w as nat));
    }
}

/// Encoding distributes over concatenation.
proof fn lemma_hex_blocks_concat(a: Seq<char>, b: Seq<char>)
    ensures
        hex_blocks(a + b) == hex_blocks(a) + hex_blocks(b),
    decreases a.len(),
{
    if a.len() == 0 {
        assert(a + b =~= b);
        assert(hex_blocks(a) + hex_blocks(b) =~= hex_blocks(b));
    } else {
        lemma_hex_blocks_concat(a.drop_first(), b);
        assert((a + b).drop_first() =~= a.drop_first() + b);
        assert(hex_fixed((a[0] as u32) as nat, 6) + (hex_blocks(a.drop_first()) + hex_blocks(b))
            =~= (hex_fixed((a[0] as u32) as nat, 6) + hex_blocks(a.drop_first())) + hex_blocks(b));
    }
}

fn append_hex_blocks(out: &mut String, s: &str)
    ensures
        final(out)@ == old(out)@ + hex_blocks(s@),
{
    let n = s.unicode_len();
    let mut i: usize = 0;
    proof {
        assert(old(out)@ + hex_blocks(s@.take(0)) =~= old(out)@);
    }
    while i < n
        invariant
            i <= n,
            n == s@.len(),
            out@ == old(out)@ + hex_blocks(s@.take(i as int)),
        decreases n - i,
    {
        let c = s.get_char(i);
        push_hex_fixed(out, c as u32, 6);
        proof {
            lemma_hex_blocks_concat(s@.take(i as int), seq![s@[i as int]]);
            assert(s@.take(i + 1) =~= s@.take(i as int) + seq![s@[i as int]]);
            assert(seq![s@[i as int]].drop_first() =~= Seq::<char>::empty());
            assert(hex_blocks(Seq::<char>::empty()) =~= Seq::<char>::empty());
            assert(hex_blocks(seq![s@[i as int]]) =~= hex_fixed((s@[i as int] as u32) as nat, 6));
            assert(old(out)@ + hex_blocks(s@.take(i as int)) + hex_fixed(
                (s@[i as int] as u32) as nat,
                6,
            ) =~= old(out)@ + hex_blocks(s@.take(i + 1)));
        }
        i += 1;
    }
    proof {
        assert(s@.take(n as int) =~= s@);
    }
}

/// Computes the salted digest of a password.
pub fn hash_password(password: &str) -> (r: String)
    ensures
        r@ == spec_hash(password@),
{
    let mut out = String::new();
    append_hex_blocks(&mut out, "hrm_salt_");
    append_hex_blocks(&mut out, password);
    proof {
        lemma_hex_blocks_concat(spec_salt(), password@);
    }
    out
}

/// Recomputes the digest of `password` and compares it with `hash`.
pub fn verify_password(password: &str, hash: &str) -> (r: bool)
    ensures
        r == spec_verify(password@, hash@),
{
    let digest = hash_password(password);
    str_eq(digest.as_str(), hash)
}

/// Hexadecimal digit characters are distinct.
proof fn lemma_hex_char_injective(d1: nat, d2: nat)
    requires
        d1 < 16,
        d2 < 16,
        spec_hex_char(d1) == spec_hex_char(d2),
    ensures
        d1 == d2,
{
    vstd::utf8::char_u32_cast(spec_hex_char(d1), spec_hex_char(d1) as u32);
    vstd::utf8::char_u32_cast(spec_hex_char(d2), spec_hex_char(d2) as u32);
}

/// Powers of sixteen, the value range of a fixed-width block.
pub open spec fn pow16(w: nat) -> nat
    decreases w,
{
    if w == 0 {
        1
    } else {
        16 * pow16((w - 1) as nat)
    }
}

proof fn lemma_pow16_positive(w: nat)
    ensures
        pow16(w) >= 1,
    decreases w,
{
    if w > 0 {
        lemma_pow16_positive((w - 1) as nat);
    }
}

/// A fixed-width hexadecimal block determines the number it renders.
proof fn lemma_hex_fixed_injective(v1: nat, v2: nat, w: nat, bound: nat)
    requires
        v1 < bound,
        v2 < bound,
        bound == pow16(w),
        hex_fixed(v1, w) == hex_fixed(v2, w),
    ensures
        v1 == v2,
    decreases w,
{
    lemma_pow16_positive(w);
    if w == 0 {
    } else {
        let p1 = hex_fixed(v1 / 16, (w - 1) as nat);
        let p2 = hex_fixed(v2 / 16, (w - 1) as nat);
        lemma_hex_fixed_len(v1, w);
        lemma_hex_fixed_len(v2, w);
        assert(p1.push(spec_hex_char(v1 % 16)).last() == spec_hex_char(v1 % 16));
        assert(p2.push(spec_hex_char(v2 % 16)).last() == spec_hex_char(v2 % 16));
        lemma_hex_char_injective(v1 % 16, v2 % 16);
        assert(p1 =~= p1.push(spec_hex_char(v1 % 16)).drop_last());
        assert(p2 =~= p2.push(spec_hex_char(v2 % 16)).drop_last());
        let sub_bound = pow16((w - 1) as nat);
        lemma_pow16_positive((w - 1) as nat);
        assert(v1 / 16 < sub_bound && v2 / 16 < sub_bound) by (nonlinear_arith)
            requires
                v1 < 16 * sub_bound,
                v2 < 16 * sub_bound,
                sub_bound > 0,
        ;
        lemma_hex_fixed_injective(v1 / 16, v2 / 16, (w - 1) as nat, sub_bound);
        assert(v1 == 16 * (v1 / 16) + v1 % 16) by (nonlinear_arith);
        assert(v2 == 16 * (v2 / 16) + v2 % 16) by (nonlinear_arith);
    }
}

proof fn lemma_hex_fixed_len(v: nat, w: nat)
    ensures
        hex_fixed(v, w).len() == w,
    decreases w,
{
    if w > 0 {
        lemma_hex_fixed_len(v / 16, (w - 1) as nat);
    }
}

proof fn lemma_hex_blocks_len(s: Seq<char>)
    ensures
        hex_blocks(s).len() == 6 * s.len(),
    decreases s.len(),
{
    if s.len() > 0 {
        lemma_hex_fixed_len((s[0] as u32) as nat, 6);
        lemma_hex_blocks_len(s.drop_first());
    }
}

/// The block encoding determines the text it renders: distinct texts have
/// distinct encodings.
proof fn lemma_hex_blocks_injective(s1: Seq<char>, s2: Seq<char>)
    requires
        hex_blocks(s1) == hex_blocks(s2),
    ensures
        s1 == s2,
    decreases s1.len(),
{
    lemma_hex_blocks_len(s1);
    lemma_hex_blocks_len(s2);
    if s1.len() == 0 {
        assert(s1 =~= s2);
    } else {
        let b1 = hex_fixed((s1[0] as u32) as nat, 6);
        let b2 = hex_fixed((s2[0] as u32) as nat, 6);
        lemma_hex_fixed_len((s1[0] as u32) as nat, 6);
        lemma_hex_fixed_len((s2[0] as u32) as nat, 6);
        assert(b1 =~= hex_blocks(s1).subrange(0, 6));
        assert(b2 =~= hex_blocks(s2).subrange(0, 6));
        vstd::utf8::char_is_scalar(s1[0]);
        vstd::utf8::char_is_scalar(s2[0]);
        assert(pow16(0) == 1);
        assert(pow16(1) == 16);
        assert(pow16(2) == 256);
        assert(pow16(3) == 0x1000);
        assert(pow16(4) == 0x10000);
        assert(pow16(5) == 0x100000);
        assert(pow16(6) == 0x1000000);
        lemma_hex_fixed_injective(
            (s1[0] as u32) as nat,
            (s2[0] as u32) as nat,
            6,
            0x1000000,
        );
        vstd::utf8::char_u32_cast(s1[0], s1[0] as u32);
        vstd::utf8::char_u32_cast(s2[0], s2[0] as u32);
        assert(hex_blocks(s1.drop_first()) =~= hex_blocks(s1).subrange(
            6,
            hex_blocks(s1).len() as int,
        ));
        assert(hex_blocks(s2.drop_first()) =~= hex_blocks(s2).subrange(
            6,
            hex_blocks(s2).len() as int,
        ));
        lemma_hex_blocks_injective(s1.drop_first(), s2.drop_first());
        assert forall|i: int| 0 <= i < s1.len() implies s1[i] == s2[i] by {
            if i > 0 {
                assert(s1[i] == s1.drop_first()[i - 1]);
                assert(s2[i] == s2.drop_first()[i - 1]);
            }
        }
        assert(s1 =~= s2);
    }
}

/// A digest verifies against exactly the password it was computed from:
/// `verify(p1, hash(p2))` holds if and only if `p1 == p2`. In particular
/// `verify(p, hash(p))` holds for every password.
pub proof fn lemma_verify_exact(p1: Seq<char>, p2: Seq<char>)
    ensures
        spec_verify(p1, spec_hash(p2)) <==> p1 == p2,
{
    if spec_verify(p1, spec_hash(p2)) {
        lemma_hex_blocks_injective(spec_salt() + p1, spec_salt() + p2);
        assert forall|i: int| 0 <= i < p1.len() implies p1[i] == p2[i] by {
            assert((spec_salt() + p1)[spec_salt().len() + i] == p1[i]);
            assert((spec_salt() + p2)[spec_salt().len() + i] == p2[i]);
        }
        assert(p1 =~= p2);
    }
}

} // verus!
