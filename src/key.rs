use vstd::prelude::*;
use vstd::wrapping::u64_specs::wrapping_mul;

use crate::text::{alnum_char, alnum_digit, push_char};
use vstd::string::*;

verus! {

/// Number of characters in a key.
pub const KEY_LEN: usize = 10;

/// Number of keys tried for one URL before giving up.
pub const MAX_ATTEMPTS: u64 = 5;

pub const FNV_OFFSET: u64 = 0xcbf2_9ce4_8422_2325;

pub const FNV_PRIME: u64 = 0x0000_0100_0000_01b3;

/// A value that no character code reaches, placed between the namespace and the URL.
pub const SEPARATOR: u64 = 0x11_0000;

/// One step of the FNV-1a hash.
pub open spec fn fnv_step(h: u64, x: u64) -> u64 {
    wrapping_mul(h ^ x, FNV_PRIME)
}

/// FNV-1a over the character codes of `s`, starting from `h`.
pub open spec fn fnv_chars(h: u64, s: Seq<char>) -> u64
    decreases s.len(),
{
    if s.len() == 0 {
        h
    } else {
        fnv_step(fnv_chars(h, s.drop_last()), s.last() as u64)
    }
}

/// The hash behind the key of `url` in `namespace` at a given attempt.
pub open spec fn key_hash(namespace: Seq<char>, url: Seq<char>, attempt: u64) -> u64 {
    fnv_step(fnv_chars(fnv_step(fnv_chars(FNV_OFFSET, namespace), SEPARATOR), url), attempt)
}

/// The lowest `width` base-32 digits of `v`, most significant first.
pub open spec fn base32_digits(v: nat, width: nat) -> Seq<char>
    decreases width,
{
    if width == 0 {
        Seq::empty()
    } else {
        base32_digits(v / 32, (width - 1) as nat).push(alnum_char(v % 32))
    }
}

/// The key that `derive_key` gives.
pub open spec fn derived_key(namespace: Seq<char>, url: Seq<char>, attempt: u64) -> Seq<char> {
    base32_digits(key_hash(namespace, url, attempt) as nat, KEY_LEN as nat)
}

fn fnv_str(h: u64, s: &str) -> (r: u64)
    ensures
        r == fnv_chars(h, s@),
{
    let n = s.unicode_len();
    let mut acc = h;
    let mut i: usize = 0;
    while i < n
        invariant
            n == s@.len(),
            i <= n,
            acc == fnv_chars(h, s@.subrange(0, i as int)),
        decreases n - i,
    {
        let c = s.get_char(i);
        assert(s@.subrange(0, i + 1).drop_last() == s@.subrange(0, i as int));
        acc = (acc ^ (c as u64)).wrapping_mul(FNV_PRIME);
        i = i + 1;
    }
    assert(s@.subrange(0, n as int) == s@);
    acc
}

fn push_base32(out: &mut String, v: u64, width: usize)
    ensures
        final(out)@ == old(out)@ + base32_digits(v as nat, width as nat),
    decreases width,
{
    if width == 0 {
        assert(old(out)@ + base32_digits(v as nat, 0) == old(out)@);
        return;
    }
    push_base32(out, v / 32, width - 1);
    push_char(out, alnum_digit((v % 32) as u32));
    assert(old(out)@ + base32_digits(v as nat, width as nat) == old(out)@ + base32_digits(
        (v / 32) as nat,
        (width - 1) as nat,
    ) + seq![alnum_char((v % 32) as nat)]);
}

/// The short key of `url` in `namespace` for a given collision attempt: the same
/// inputs always give the same key, of `KEY_LEN` characters from `0-9a-v`.
pub fn derive_key(namespace: &str, url: &str, attempt: u64) -> (r: String)
    ensures
        r@ == derived_key(namespace@, url@, attempt),
{
    let h = fnv_str(FNV_OFFSET, namespace);
    let h = (h ^ SEPARATOR).wrapping_mul(FNV_PRIME);
    let h = fnv_str(h, url);
    let h = (h ^ attempt).wrapping_mul(FNV_PRIME);
    let mut out = String::new();
    push_base32(&mut out, h, KEY_LEN);
    out
}

} // verus!
