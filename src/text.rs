use vstd::prelude::*;
use vstd::string::*;

verus! {

/// Relies on `String::push`: the character is appended at the end.
#[verifier::external_body]
pub(crate) fn push_char(s: &mut String, c: char)
    ensures
        final(s)@ == old(s)@.push(c),
{
    s.push(c)
}

/// Whether two strings hold the same characters.
pub fn same_text(a: &str, b: &str) -> (r: bool)
    ensures
        r == (a@ == b@),
{
    let n = a.unicode_len();
    if n != b.unicode_len() {
        return false;
    }
    let mut i: usize = 0;
    while i < n
        invariant
            n == a@.len(),
            n == b@.len(),
            i <= n,
            a@.subrange(0, i as int) == b@.subrange(0, i as int),
        decreases n - i,
    {
        if a.get_char(i) != b.get_char(i) {
            assert(a@[i as int] != b@[i as int]);
            return false;
        }
        assert(a@.subrange(0, i + 1) == a@.subrange(0, i as int).push(a@[i as int]));
        assert(b@.subrange(0, i + 1) == b@.subrange(0, i as int).push(b@[i as int]));
        i = i + 1;
    }
    assert(a@ == a@.subrange(0, n as int));
    assert(b@ == b@.subrange(0, n as int));
    true
}

/// The decimal digit character for `d < 10`.
pub open spec fn digit_char(d: nat) -> char {
    ((d + 48) as u8) as char
}

/// `v` written with exactly `width` decimal digits (the lowest ones), zero-padded.
pub open spec fn padded_decimal(v: nat, width: nat) -> Seq<char>
    decreases width,
{
    if width == 0 {
        Seq::empty()
    } else {
        padded_decimal(v / 10, (width - 1) as nat).push(digit_char(v % 10))
    }
}

fn digit(d: u64) -> (c: char)
    requires
        d < 10,
    ensures
        c == digit_char(d as nat),
{
    ((d as u8) + 48) as char
}

/// Appends `v` as `width` zero-padded decimal digits.
pub fn push_padded(s: &mut String, v: u64, width: usize)
    ensures
        final(s)@ == old(s)@ + padded_decimal(v as nat, width as nat),
    decreases width,
{
    if width == 0 {
        assert(old(s)@ + padded_decimal(v as nat, 0) == old(s)@);
        return;
    }
    push_padded(s, v / 10, width - 1);
    push_char(s, digit(v % 10));
    assert(old(s)@ + padded_decimal(v as nat, width as nat) == old(s)@ + padded_decimal(
        (v / 10) as nat,
        (width - 1) as nat,
    ) + seq![digit_char((v % 10) as nat)]);
}

/// The digit character for `d < 36` in bases up to 36: `0`-`9`, then `a`-`z`.
pub open spec fn alnum_char(d: nat) -> char {
    if d < 10 {
        digit_char(d)
    } else {
        ((d + 87) as u8) as char
    }
}

pub(crate) fn alnum_digit(d: u32) -> (c: char)
    requires
        d < 36,
    ensures
        c == alnum_char(d as nat),
{
    if d < 10 {
        ((d as u8) + 48) as char
    } else {
        ((d as u8) + 87) as char
    }
}

/// How one character stands inside a JSON string literal.
pub open spec fn json_char(c: char) -> Seq<char> {
    if c == '"' {
        seq!['\\', '"']
    } else if c == '\\' {
        seq!['\\', '\\']
    } else if (c as u32) < 32 {
        seq!['\\', 'u', '0', '0', alnum_char((c as u32 / 16) as nat), alnum_char((c as u32 % 16) as nat)]
    } else {
        seq![c]
    }
}

/// The body of a JSON string literal whose value is `s`.
pub open spec fn json_escape(s: Seq<char>) -> Seq<char>
    decreases s.len(),
{
    if s.len() == 0 {
        Seq::empty()
    } else {
        json_escape(s.drop_last()) + json_char(s.last())
    }
}

/// How one character stands in HTML or XML text and attribute values.
pub open spec fn markup_char(c: char) -> Seq<char> {
    if c == '&' {
        seq!['&', 'a', 'm', 'p', ';']
    } else if c == '<' {
        seq!['&', 'l', 't', ';']
    } else if c == '>' {
        seq!['&', 'g', 't', ';']
    } else if c == '"' {
        seq!['&', 'q', 'u', 'o', 't', ';']
    } else if c == '\'' {
        seq!['&', '#', '3', '9', ';']
    } else {
        seq![c]
    }
}

/// `s` with every markup-significant character replaced by its entity.
pub open spec fn markup_escape(s: Seq<char>) -> Seq<char>
    decreases s.len(),
{
    if s.len() == 0 {
        Seq::empty()
    } else {
        markup_escape(s.drop_last()) + markup_char(s.last())
    }
}

fn push_all(out: &mut String, cs: &[char])
    ensures
        final(out)@ == old(out)@ + cs@,
{
    let mut i: usize = 0;
    while i < cs.len()
        invariant
            i <= cs@.len(),
            out@ == old(out)@ + cs@.subrange(0, i as int),
        decreases cs.len() - i,
    {
        push_char(out, cs[i]);
        assert(cs@.subrange(0, i + 1) == cs@.subrange(0, i as int).push(cs@[i as int]));
        i = i + 1;
    }
    assert(cs@.subrange(0, cs@.len() as int) == cs@);
}

fn push_json_char(out: &mut String, c: char)
    ensures
        final(out)@ == old(out)@ + json_char(c),
{
    if c == '"' {
        push_all(out, &['\\', '"']);
    } else if c == '\\' {
        push_all(out, &['\\', '\\']);
    } else if (c as u32) < 32 {
        let hi = alnum_digit(c as u32 / 16);
        let lo = alnum_digit(c as u32 % 16);
        push_all(out, &['\\', 'u', '0', '0', hi, lo]);
    } else {
        push_char(out, c);
    }
}

fn push_markup_char(out: &mut String, c: char)
    ensures
        final(out)@ == old(out)@ + markup_char(c),
{
    if c == '&' {
        push_all(out, &['&', 'a', 'm', 'p', ';']);
    } else if c == '<' {
        push_all(out, &['&', 'l', 't', ';']);
    } else if c == '>' {
        push_all(out, &['&', 'g', 't', ';']);
    } else if c == '"' {
        push_all(out, &['&', 'q', 'u', 'o', 't', ';']);
    } else if c == '\'' {
        push_all(out, &['&', '#', '3', '9', ';']);
    } else {
        push_char(out, c);
    }
}

/// Appends the body of a JSON string literal holding `s`.
pub fn push_json_escaped(out: &mut String, s: &str)
    ensures
        final(out)@ == old(out)@ + json_escape(s@),
{
    let n = s.unicode_len();
    let mut i: usize = 0;
    while i < n
        invariant
            n == s@.len(),
            i <= n,
            out@ == old(out)@ + json_escape(s@.subrange(0, i as int)),
        decreases n - i,
    {
        let c = s.get_char(i);
        push_json_char(out, c);
        assert(s@.subrange(0, i + 1).drop_last() == s@.subrange(0, i as int));
        i = i + 1;
    }
    assert(s@.subrange(0, n as int) == s@);
}

/// Appends `s` with markup-significant characters replaced by entities.
pub fn push_markup_escaped(out: &mut String, s: &str)
    ensures
        final(out)@ == old(out)@ + markup_escape(s@),
{
    let n = s.unicode_len();
    let mut i: usize = 0;
    while i < n
        invariant
            n == s@.len(),
            i <= n,
            out@ == old(out)@ + markup_escape(s@.subrange(0, i as int)),
        decreases n - i,
    {
        let c = s.get_char(i);
        push_markup_char(out, c);
        assert(s@.subrange(0, i + 1).drop_last() == s@.subrange(0, i as int));
        i = i + 1;
    }
    assert(s@.subrange(0, n as int) == s@);
}

} // verus!
