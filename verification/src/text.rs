//! Building text: characters, decimal and hexadecimal numbers.

use vstd::prelude::*;
use vstd::string::StrSliceExecFns;

verus! {

/// Appends one character to a string (`String::push`).
#[verifier::external_body]
pub(crate) fn string_push(s: &mut String, c: char)
    ensures
        final(s)@ == old(s)@.push(c),
{
    s.push(c)
}

/// The lower-case digit character of `d` (below 16).
pub open spec fn digit_char(d: nat) -> char {
    if d < 10 {
        (('0' as nat) + d) as char
    } else {
        (('a' as nat) + d - 10) as char
    }
}

/// The digits of `n` written in base `base` (2 to 16), most significant
/// first, with no leading zeros ("0" for zero).
pub open spec fn digits(n: nat, base: nat) -> Seq<char>
    decreases n,
{
    if base < 2 || n < base {
        seq![digit_char(n % 16)]
    } else {
        proof {
            assert(n / base < n) by (nonlinear_arith)
                requires
                    base >= 2,
                    n >= base,
            ;
        }
        digits(n / base, base).push(digit_char(n % base))
    }
}

/// The value of a digit character (`0`-`9`, `a`-`f`), or -1 for any other.
pub open spec fn digit_value(c: char) -> int {
    if '0' <= c && c <= '9' {
        (c as int) - ('0' as int)
    } else if 'a' <= c && c <= 'f' {
        (c as int) - ('a' as int) + 10
    } else {
        -1
    }
}

/// The number a string of digits denotes in base `base`.
pub open spec fn digits_value(s: Seq<char>, base: nat) -> int
    decreases s.len(),
{
    if s.len() == 0 {
        0
    } else {
        digits_value(s.drop_last(), base) * base + digit_value(s.last())
    }
}

/// The digits of `n` in base `base` (2 to 16) are digits of that base that
/// denote `n`, with no leading zero.
pub proof fn lemma_digits_denote(n: nat, base: nat)
    requires
        2 <= base <= 16,
    ensures
        digits_value(digits(n, base), base) == n,
        digits(n, base).len() >= 1,
        forall|i: int|
            0 <= i < digits(n, base).len() ==> 0 <= #[trigger] digit_value(digits(n, base)[i])
                < base,
        n > 0 ==> digits(n, base)[0] != '0',
    decreases n,
{
    if n < base {
        vstd::arithmetic::div_mod::lemma_small_mod(n, 16);
        assert(digits(n, base) == seq![digit_char(n)]);
        assert(digits(n, base).drop_last() =~= Seq::<char>::empty());
        assert(digit_value(digit_char(n)) == n);
        assert(digits_value(digits(n, base), base) == digits_value(Seq::<char>::empty(), base)
            * base + digit_value(digit_char(n)));
    } else {
        assert(n / base < n) by (nonlinear_arith)
            requires
                base >= 2,
                n >= base,
        ;
        lemma_digits_denote(n / base, base);
        let d = n % base;
        let prev = digits(n / base, base);
        let all = digits(n, base);
        assert(all == prev.push(digit_char(d)));
        assert(all.drop_last() =~= prev);
        assert(digit_value(digit_char(d)) == d);
        assert(all.last() == digit_char(d));
        assert(digits_value(all, base) == digits_value(prev, base) * base + digit_value(
            all.last(),
        ));
        assert(n == (n / base) * base + d) by (nonlinear_arith)
            requires
                base > 0,
                d == n % base,
        ;
        assert forall|i: int| 0 <= i < all.len() implies 0 <= #[trigger] digit_value(all[i])
            < base by {
            if i < prev.len() {
                assert(all[i] == prev[i]);
            }
        }
        assert(n / base >= 1) by (nonlinear_arith)
            requires
                base >= 2,
                n >= base,
        ;
        assert(all[0] == prev[0]);
    }
}

/// The decimal text of `n`.
pub open spec fn decimal(n: nat) -> Seq<char> {
    digits(n, 10)
}

/// The hexadecimal text of `n` in lower case with a `0x` prefix, as `{:#x}`
/// writes it.
pub open spec fn hex_prefixed(n: nat) -> Seq<char> {
    seq!['0', 'x'] + digits(n, 16)
}

/// The character of digit `d`.
fn digit(d: u64) -> (c: char)
    requires
        d < 16,
    ensures
        c == digit_char(d as nat),
{
    let c: u32 = if d < 10 {
        48 + (d as u32)
    } else {
        97 + (d as u32) - 10
    };
    assert(c < 0xd800);
    let ch = char_from_ascii(c);
    ch
}

/// The character with an ASCII code.
fn char_from_ascii(code: u32) -> (c: char)
    requires
        code < 128,
    ensures
        c as nat == code as nat,
{
    let b: u8 = code as u8;
    b as char
}

/// Appends the digits of `n` in base `base` to `s`.
pub fn push_digits(s: &mut String, n: u64, base: u64)
    requires
        2 <= base <= 16,
    ensures
        final(s)@ == old(s)@ + digits(n as nat, base as nat),
    decreases n,
{
    let ghost s0 = s@;
    if n >= base {
        assert(n / base < n) by (nonlinear_arith)
            requires
                base >= 2,
                n >= base,
        ;
        push_digits(s, n / base, base);
    }
    let d = n % base;
    let c = digit(d);
    string_push(s, c);
    if n >= base {
        assert(s@ =~= s0 + digits(n as nat, base as nat));
    } else {
        assert(d == n) by {
            vstd::arithmetic::div_mod::lemma_small_mod(n as nat, base as nat);
        }
        assert(s@ =~= s0 + digits(n as nat, base as nat));
    }
}

/// Appends the decimal text of `n` to `s`.
pub fn push_decimal(s: &mut String, n: u64)
    ensures
        final(s)@ == old(s)@ + decimal(n as nat),
{
    push_digits(s, n, 10);
}

/// Appends the text of `n` as `{:#x}` writes it to `s`.
pub fn push_hex_prefixed(s: &mut String, n: u64)
    ensures
        final(s)@ == old(s)@ + hex_prefixed(n as nat),
{
    string_push(s, '0');
    string_push(s, 'x');
    push_digits(s, n, 16);
}

/// Appends the characters of a literal to `s`.
pub fn push_str(s: &mut String, t: &str)
    ensures
        final(s)@ == old(s)@ + t@,
{
    s.append(t);
}

/// The upper-case form of an ASCII lower-case letter; any other character is
/// kept.
pub open spec fn upper_char(c: char) -> char {
    if 'a' <= c && c <= 'z' {
        ((c as nat) - 32) as char
    } else {
        c
    }
}

/// The text with its ASCII letters in upper case.
pub open spec fn to_upper(s: Seq<char>) -> Seq<char> {
    s.map_values(|c: char| upper_char(c))
}

/// Appends `t` in upper case to `s`.
pub fn push_upper(s: &mut String, t: &String)
    ensures
        final(s)@ == old(s)@ + to_upper(t@),
{
    let n = t.as_str().unicode_len();
    let mut i: usize = 0;
    while i < n
        invariant
            n == t@.len(),
            i <= n,
            s@ == old(s)@ + to_upper(t@.take(i as int)),
        decreases n - i,
    {
        let c = t.as_str().get_char(i);
        let u = if 'a' <= c && c <= 'z' {
            let code: u32 = c as u32;
            char_from_ascii(code - 32)
        } else {
            c
        };
        string_push(s, u);
        assert(to_upper(t@.take(i + 1)) =~= to_upper(t@.take(i as int)).push(upper_char(c)));
        i = i + 1;
    }
    assert(t@.take(n as int) =~= t@);
}

} // verus!
