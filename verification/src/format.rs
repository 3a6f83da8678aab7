//! Numbers, sizes, dates and permission bits written out as text.

use vstd::prelude::*;
use crate::text::{push_char, append_str};
use crate::file_entry::LocalTime;

verus! {

/// The digit character for `d` in `0..10`.
pub open spec fn digit(d: int) -> char {
    ((48 + d) as u8) as char
}

/// `n` in decimal, without leading zeros.
pub open spec fn decimal(n: nat) -> Seq<char>
    decreases n,
{
    if n < 10 {
        seq![digit(n as int)]
    } else {
        decimal(n / 10).push(digit((n % 10) as int))
    }
}

fn digit_char(d: u128) -> (c: char)
    requires
        d < 10,
    ensures
        c == digit(d as int),
{
    let b: u8 = 48u8 + (d as u8);
    b as char
}

/// Appends `n` in decimal.
pub fn push_decimal(s: &mut String, n: u128)
    ensures
        final(s)@ == old(s)@ + decimal(n as nat),
    decreases n,
{
    if n >= 10 {
        push_decimal(s, n / 10);
    }
    push_char(s, digit_char(n % 10));
    proof {
        if n < 10 {
            assert(old(s)@.push(digit(n as int)) =~= old(s)@ + seq![digit(n as int)]);
        } else {
            assert(old(s)@ + decimal((n / 10) as nat) + seq![digit((n % 10) as int)] =~= old(s)@
                + decimal(n as nat));
        }
    }
}

/// `n` in decimal, padded with zeros on the left to `width` characters.
pub open spec fn zero_padded(n: nat, width: nat) -> Seq<char> {
    let d = decimal(n);
    if d.len() >= width {
        d
    } else {
        Seq::new((width - d.len()) as nat, |i: int| '0') + d
    }
}

/// Appends `n` in decimal, padded with zeros to `width` characters.
pub fn push_zero_padded(s: &mut String, n: u128, width: usize)
    ensures
        final(s)@ == old(s)@ + zero_padded(n as nat, width as nat),
{
    let mut digits = String::new();
    push_decimal(&mut digits, n);
    let len = crate::text::char_count(digits.as_str());
    proof {
        assert(digits@ =~= decimal(n as nat));
    }
    let mut i = len;
    let ghost pad_len: int = if len < width { width - len } else { 0 };
    while i < width
        invariant
            len == decimal(n as nat).len(),
            len <= i,
            i <= width || i == len,
            pad_len == (if len < width { width - len } else { 0int }),
            s@ == old(s)@ + Seq::new((i - len) as nat, |k: int| '0'),
        decreases width - i,
    {
        push_char(s, '0');
        proof {
            assert(Seq::new((i - len) as nat, |k: int| '0').push('0') =~= Seq::new(
                (i + 1 - len) as nat,
                |k: int| '0',
            ));
        }
        i = i + 1;
    }
    append_str(s, digits.as_str());
    proof {
        if len >= width {
            assert(Seq::new((i - len) as nat, |k: int| '0') =~= Seq::<char>::empty());
            assert(old(s)@ + Seq::<char>::empty() + decimal(n as nat) =~= old(s)@ + decimal(
                n as nat,
            ));
        } else {
            assert(i == width);
            assert(old(s)@ + Seq::new((i - len) as nat, |k: int| '0') + decimal(n as nat)
                =~= old(s)@ + zero_padded(n as nat, width as nat));
        }
    }
}

/// A year as `%Y` writes it: four digits with leading zeros for years 0 to
/// 9999, otherwise a sign and at least four digits.
pub open spec fn year_text(y: int) -> Seq<char> {
    if 0 <= y < 10000 {
        zero_padded(y as nat, 4)
    } else if y < 0 {
        seq!['-'] + zero_padded((-y) as nat, 4)
    } else {
        seq!['+'] + zero_padded(y as nat, 4)
    }
}

/// A date and time as `%Y-%m-%d %H:%M` writes it.
pub open spec fn date_text(t: LocalTime) -> Seq<char> {
    year_text(t.year as int) + seq!['-'] + zero_padded(t.month as nat, 2) + seq!['-']
        + zero_padded(t.day as nat, 2) + seq![' '] + zero_padded(t.hour as nat, 2) + seq![':']
        + zero_padded(t.minute as nat, 2)
}

/// Writes a date and time as `YYYY-MM-DD HH:MM`.
pub fn format_local_time(t: &LocalTime) -> (s: String)
    ensures
        s@ == date_text(*t),
{
    let mut s = String::new();
    let y = t.year;
    if 0 <= y && y < 10000 {
        push_zero_padded(&mut s, y as u128, 4);
    } else if y < 0 {
        push_char(&mut s, '-');
        let a: i64 = -(y as i64);
        push_zero_padded(&mut s, a as u128, 4);
    } else {
        push_char(&mut s, '+');
        push_zero_padded(&mut s, y as u128, 4);
    }
    let ghost ys = s@;
    push_char(&mut s, '-');
    push_zero_padded(&mut s, t.month as u128, 2);
    push_char(&mut s, '-');
    push_zero_padded(&mut s, t.day as u128, 2);
    push_char(&mut s, ' ');
    push_zero_padded(&mut s, t.hour as u128, 2);
    push_char(&mut s, ':');
    push_zero_padded(&mut s, t.minute as u128, 2);
    proof {
        assert(ys =~= year_text(t.year as int));
        assert(s@ =~= date_text(*t));
    }
    s
}

/// The permission bits of a Unix mode as `rwxrwxrwx`, a dash for each bit
/// that is clear; nine dashes when the mode is unknown.
pub open spec fn permissions_text(mode: Option<u32>) -> Seq<char> {
    match mode {
        Some(m) => Seq::new(
            9,
            |i: int|
                if (m >> ((8 - i) as u32)) & 1u32 == 1u32 {
                    if i % 3 == 0 {
                        'r'
                    } else if i % 3 == 1 {
                        'w'
                    } else {
                        'x'
                    }
                } else {
                    '-'
                },
        ),
        None => Seq::new(9, |i: int| '-'),
    }
}

/// Writes permission bits as `rwxrwxrwx`.
pub fn format_permissions(mode: Option<u32>) -> (s: String)
    ensures
        s@ == permissions_text(mode),
{
    let mut s = String::new();
    let mut i: u32 = 0;
    while i < 9
        invariant
            i <= 9,
            s@ == permissions_text(mode).take(i as int),
        decreases 9 - i,
    {
        let c = match mode {
            Some(m) => {
                if (m >> (8 - i)) & 1u32 == 1u32 {
                    if i % 3 == 0 {
                        'r'
                    } else if i % 3 == 1 {
                        'w'
                    } else {
                        'x'
                    }
                } else {
                    '-'
                }
            },
            None => '-',
        };
        push_char(&mut s, c);
        proof {
            assert(permissions_text(mode).take(i + 1) =~= permissions_text(mode).take(
                i as int,
            ).push(c));
        }
        i = i + 1;
    }
    proof {
        assert(permissions_text(mode).take(9) =~= permissions_text(mode));
    }
    s
}


/// `2^e`.
pub open spec fn two_pow(e: nat) -> nat
    decreases e,
{
    if e == 0 {
        1
    } else {
        2 * two_pow((e - 1) as nat)
    }
}

/// `num / den` rounded to the nearest whole number, a tie to the even one.
pub open spec fn round_even_div(num: nat, den: nat) -> nat {
    let q = num / den;
    let r = num % den;
    if 2 * r > den || (2 * r == den && q % 2 == 1) {
        q + 1
    } else {
        q
    }
}

/// The exponent of the spacing of 64-bit floats around `n`: the least `e`
/// (from `e` up) for which `n / 2^e` has fewer than 53 bits.
pub open spec fn spacing_exp(n: nat, e: nat) -> nat
    decreases 4096 - e,
{
    if e >= 4096 || n / two_pow(e) < 0x20_0000_0000_0000 {
        e
    } else {
        spacing_exp(n, e + 1)
    }
}

/// The value of `n as f64`: `n` rounded to the nearest multiple of the
/// float spacing there, a tie to the even multiple.
pub open spec fn f64_value(n: nat) -> nat {
    let d = two_pow(spacing_exp(n, 0));
    round_even_div(n, d) * d
}

/// `n as f64 / unit`, written with `{:.1}`: the value in tenths, rounded
/// half to even, as whole part, point and one decimal.
pub open spec fn one_decimal_text(n: nat, unit: nat) -> Seq<char> {
    let t = round_even_div(10 * f64_value(n), unit);
    decimal(t / 10) + seq!['.', digit((t % 10) as int)]
}

/// `n as f64 / unit`, written with `{:.0}`.
pub open spec fn no_decimal_text(n: nat, unit: nat) -> Seq<char> {
    decimal(round_even_div(f64_value(n), unit))
}

proof fn lemma_two_pow_grows(e: nat)
    ensures
        two_pow(e) > e,
        two_pow(e) >= 1,
    decreases e,
{
    if e > 0 {
        lemma_two_pow_grows((e - 1) as nat);
    }
}

fn round_even_div_exec(num: u128, den: u128) -> (r: u128)
    requires
        den > 0,
        den <= 0x1_0000_0000_0000_0000_0000,
        num < 0x1_0000_0000_0000_0000_0000,
    ensures
        r == round_even_div(num as nat, den as nat),
{
    let q = num / den;
    let r = num % den;
    if 2 * r > den || (2 * r == den && q % 2 == 1) {
        q + 1
    } else {
        q
    }
}

/// The value of `n as f64`, exactly, as an integer.
fn f64_value_exec(n: u64) -> (m: u128)
    ensures
        m == f64_value(n as nat),
        m <= 0x1_0000_0000_0000_1000,
{
    let ghost g = spacing_exp(n as nat, 0);
    let mut d: u128 = 1;
    let mut e: u32 = 0;
    proof {
        assert(two_pow(0) == 1);
    }
    while (n as u128) / d >= 0x20_0000_0000_0000
        invariant
            d == two_pow(e as nat),
            1 <= d <= 0x1000,
            e < 4096,
            spacing_exp(n as nat, e as nat) == g,
        decreases 0x1000 - d,
    {
        proof {
            assert(d * 0x20_0000_0000_0000 <= n as u128) by (nonlinear_arith)
                requires
                    (n as u128) / d >= 0x20_0000_0000_0000,
                    d >= 1,
            ;
            assert(d <= 0x800);
            lemma_two_pow_grows((e + 1) as nat);
        }
        d = d * 2;
        e = e + 1;
    }
    proof {
        assert(spacing_exp(n as nat, e as nat) == e);
        vstd::arithmetic::div_mod::lemma_fundamental_div_mod(n as int, d as int);
    }
    let q = (n as u128) / d;
    let r = (n as u128) % d;
    let up = 2 * r > d || (2 * r == d && q % 2 == 1);
    proof {
        assert(q * d == n - r) by (nonlinear_arith)
            requires
                n == d * q + r,
        ;
    }
    if up {
        proof {
            assert((q + 1) * d == q * d + d) by (nonlinear_arith);
        }
        (n as u128) - r + d
    } else {
        (n as u128) - r
    }
}

/// Appends `n as f64 / unit` written with one decimal.
fn push_one_decimal(s: &mut String, n: u64, unit: u128)
    requires
        0 < unit <= 0x1_0000_0000_0000_0000,
    ensures
        final(s)@ == old(s)@ + one_decimal_text(n as nat, unit as nat),
{
    let m = f64_value_exec(n);
    let t = round_even_div_exec(10 * m, unit);
    push_decimal(s, t / 10);
    push_char(s, '.');
    push_char(s, digit_char(t % 10));
    proof {
        assert(final(s)@ =~= old(s)@ + one_decimal_text(n as nat, unit as nat));
    }
}

/// Appends `n as f64 / unit` written with no decimals.
fn push_no_decimal(s: &mut String, n: u64, unit: u128)
    requires
        0 < unit <= 0x1_0000_0000_0000_0000,
    ensures
        final(s)@ == old(s)@ + no_decimal_text(n as nat, unit as nat),
{
    let m = f64_value_exec(n);
    push_decimal(s, round_even_div_exec(m, unit));
}

/// How the file list writes a size: `<DIR>` for directories, else `G` or
/// `M` with one decimal from a gibibyte or a mebibyte on, whole `K` from a
/// kibibyte on, plain bytes below.
pub open spec fn size_text(is_dir: bool, size: nat) -> Seq<char> {
    if is_dir {
        seq!['<', 'D', 'I', 'R', '>']
    } else if size >= 1073741824 {
        one_decimal_text(size, 1073741824) + seq!['G']
    } else if size >= 1048576 {
        one_decimal_text(size, 1048576) + seq!['M']
    } else if size >= 1024 {
        decimal(size / 1024) + seq!['K']
    } else {
        decimal(size)
    }
}

/// Writes a size as the file list shows it.
pub fn format_size(is_dir: bool, size: u64) -> (s: String)
    ensures
        s@ == size_text(is_dir, size as nat),
{
    let mut s = String::new();
    if is_dir {
        push_char(&mut s, '<');
        push_char(&mut s, 'D');
        push_char(&mut s, 'I');
        push_char(&mut s, 'R');
        push_char(&mut s, '>');
        proof {
            assert(s@ =~= seq!['<', 'D', 'I', 'R', '>']);
        }
    } else if size >= 1073741824 {
        push_one_decimal(&mut s, size, 1073741824);
        push_char(&mut s, 'G');
        proof {
            assert(s@ =~= size_text(is_dir, size as nat));
        }
    } else if size >= 1048576 {
        push_one_decimal(&mut s, size, 1048576);
        push_char(&mut s, 'M');
        proof {
            assert(s@ =~= size_text(is_dir, size as nat));
        }
    } else if size >= 1024 {
        push_decimal(&mut s, (size / 1024) as u128);
        push_char(&mut s, 'K');
        proof {
            assert(s@ =~= size_text(is_dir, size as nat));
        }
    } else {
        push_decimal(&mut s, size as u128);
        proof {
            assert(s@ =~= size_text(is_dir, size as nat));
        }
    }
    s
}

/// How the status line writes disk space: `T` and `G` with one decimal,
/// `M` with none, else whole `K`.
pub open spec fn bytes_text(bytes: nat) -> Seq<char> {
    if bytes >= 1099511627776 {
        one_decimal_text(bytes, 1099511627776) + seq!['T']
    } else if bytes >= 1073741824 {
        one_decimal_text(bytes, 1073741824) + seq!['G']
    } else if bytes >= 1048576 {
        no_decimal_text(bytes, 1048576) + seq!['M']
    } else {
        decimal(bytes / 1024) + seq!['K']
    }
}

/// Writes an amount of disk space.
pub fn format_bytes(bytes: u64) -> (s: String)
    ensures
        s@ == bytes_text(bytes as nat),
{
    let mut s = String::new();
    if bytes >= 1099511627776 {
        push_one_decimal(&mut s, bytes, 1099511627776);
        push_char(&mut s, 'T');
    } else if bytes >= 1073741824 {
        push_one_decimal(&mut s, bytes, 1073741824);
        push_char(&mut s, 'G');
    } else if bytes >= 1048576 {
        push_no_decimal(&mut s, bytes, 1048576);
        push_char(&mut s, 'M');
    } else {
        push_decimal(&mut s, (bytes / 1024) as u128);
        push_char(&mut s, 'K');
    }
    proof {
        assert(s@ =~= bytes_text(bytes as nat));
    }
    s
}

} // verus!
