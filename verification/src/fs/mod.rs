pub mod dir;
pub mod file;

use vstd::prelude::*;
use crate::text::{decimal, digit_char, push_char, push_decimal};

verus! {

/// What the information panel shows of a file, as read from its metadata.
#[derive(Clone, Copy, Debug, PartialEq, Eq, Structural)]
pub struct FileInfo {
    /// Length in bytes.
    pub size: u64,
    pub is_symlink: bool,
    pub is_dir: bool,
    /// The Unix permission bits, with the file type bits.
    pub mode: u32,
    pub readonly: bool,
    /// Seconds elapsed since the last modification.
    pub modified_secs: u64,
    /// Seconds elapsed since the last access.
    pub accessed_secs: u64,
}

/// 2 to the 53rd: below it every integer is exactly a 64-bit float.
pub open spec fn float_exact_limit() -> nat {
    0x20_0000_0000_0000
}

/// The power of two that is the gap between neighbouring 64-bit floats
/// around `n`.
pub open spec fn float_gap(n: nat) -> nat
    decreases n,
{
    if n < float_exact_limit() {
        1
    } else {
        2 * float_gap(n / 2)
    }
}

/// `n` rounded to a multiple of `step`, the nearest one, ties to the even
/// multiple.
pub open spec fn round_to_multiple(n: nat, step: nat) -> nat {
    let q = n / step;
    let r = n % step;
    if 2 * r > step || (2 * r == step && q % 2 == 1) {
        (q + 1) * step
    } else {
        q * step
    }
}

/// The value of `n as f64`: the nearest 64-bit float, ties to even.
pub open spec fn float_of(n: nat) -> nat {
    round_to_multiple(n, float_gap(n))
}

/// `v / d` in hundredths, rounded to the nearest, ties to the even one, as
/// `{:.2}` prints a float.
pub open spec fn hundredths(v: nat, d: nat) -> nat {
    let q = (v * 100) / d;
    let r = (v * 100) % d;
    if 2 * r > d || (2 * r == d && q % 2 == 1) {
        q + 1
    } else {
        q
    }
}

/// A number of hundredths written with two decimal places.
pub open spec fn two_places(h: nat) -> Seq<char> {
    decimal(h / 100) + seq!['.', digit_char((h / 10) % 10), digit_char(h % 10)]
}

/// A size in bytes written in kilobytes, or in megabytes above 1024 kilobytes.
pub open spec fn size_text(size: nat) -> Seq<char> {
    let v = float_of(size);
    if v / 1024 > 1024 {
        two_places(hundredths(v, 1048576)) + "mb"@
    } else {
        two_places(hundredths(v, 1024)) + "kb"@
    }
}

/// `true` or `false`.
pub open spec fn bool_text(b: bool) -> Seq<char> {
    if b {
        "true"@
    } else {
        "false"@
    }
}

/// The text of the information panel for a file.
pub open spec fn info_text(i: FileInfo) -> Seq<char> {
    "Size: "@ + size_text(i.size as nat) + "\nSymlink: "@ + bool_text(i.is_symlink)
        + "\nDirectory: "@ + bool_text(i.is_dir) + "\nPermissions: "@ + decimal(i.mode as nat)
        + "\nRead-only: "@ + bool_text(i.readonly) + "\nTime since modification: "@ + decimal(
        (i.modified_secs as u32) as nat,
    ) + "s\nTime since accessed: "@ + decimal((i.accessed_secs as u32) as nat) + "s"@
}


proof fn lemma_float_gap_positive(n: nat)
    ensures
        float_gap(n) >= 1,
    decreases n,
{
    if n >= float_exact_limit() {
        lemma_float_gap_positive(n / 2);
    }
}

/// `n as f64`, as the integer it equals.
fn float_value(n: u64) -> (v: u128)
    ensures
        v == float_of(n as nat),
        v <= 2 * (n as nat) + 1,
{
    let mut m: u64 = n;
    let mut s: u64 = 1;
    assert(n as nat / 1 == n);
    while m >= 0x20_0000_0000_0000
        invariant
            s >= 1,
            s == 1 || s <= n,
            m as nat == n as nat / s as nat,
            s * float_gap(m as nat) == float_gap(n as nat),
        decreases m,
    {
        proof {
            let g = float_gap((m / 2) as nat);
            assert(float_gap(m as nat) == 2 * g);
            assert(s * (2 * g) == (2 * s) * g) by (nonlinear_arith);
            vstd::arithmetic::div_mod::lemma_div_denominator(n as int, s as int, 2);
            vstd::arithmetic::div_mod::lemma_fundamental_div_mod(n as int, s as int);
            assert(n as int >= 2 * (s as int)) by (nonlinear_arith)
                requires
                    n as int == s * (n as int / s as int) + (n as int % s as int),
                    n as int / s as int >= 2,
                    n as int % s as int >= 0,
                    s >= 1,
            ;
        }
        m = m / 2;
        s = s * 2;
    }
    proof {
        lemma_float_gap_positive(m as nat);
        vstd::arithmetic::div_mod::lemma_fundamental_div_mod(n as int, s as int);
    }
    let q: u128 = m as u128;
    let step: u128 = s as u128;
    assert(q * step <= n) by (nonlinear_arith)
        requires
            n as int == step * (n as int / step as int) + (n as int % step as int),
            q == n as int / step as int,
            n as int % step as int >= 0,
    ;
    let r: u128 = n as u128 - q * step;
    assert(r == n as int % step as int) by (nonlinear_arith)
        requires
            n as int == step * (n as int / step as int) + (n as int % step as int),
            q == n as int / step as int,
            r == n - q * step,
    ;
    let ghost g = float_gap(m as nat);
    assert(g == 1);
    assert(s * g == s) by (nonlinear_arith)
        requires
            g == 1,
    ;
    assert(s as nat == float_gap(n as nat));
    if 2 * r > step || (2 * r == step && q % 2 == 1) {
        assert((q + 1) * step == q * step + step) by (nonlinear_arith);
        (q + 1) * step
    } else {
        q * step
    }
}


/// `v / d` in hundredths, rounded as `{:.2}` rounds.
fn hundredths_exec(v: u128, d: u128) -> (h: u128)
    requires
        0 < d <= 1048576,
        v <= 0x4_0000_0000_0000_0000,
    ensures
        h == hundredths(v as nat, d as nat),
        h <= (v * 100) as int / d as int + 1,
{
    let x: u128 = v * 100;
    let q: u128 = x / d;
    let r: u128 = x % d;
    if 2 * r > d || (2 * r == d && q % 2 == 1) {
        q + 1
    } else {
        q
    }
}

/// Appends a number of hundredths with two decimal places.
fn push_two_places(s: &mut String, h: u128)
    requires
        h / 100 <= u64::MAX,
    ensures
        final(s)@ == old(s)@ + two_places(h as nat),
{
    push_decimal(s, (h / 100) as u64);
    push_char(s, '.');
    let tens: u8 = ((h / 10) % 10) as u8;
    let units: u8 = (h % 10) as u8;
    push_char(s, (48u8 + tens) as char);
    push_char(s, (48u8 + units) as char);
    assert(final(s)@ =~= old(s)@ + two_places(h as nat));
}

/// Appends a size in bytes as the information panel writes it.
fn push_size(s: &mut String, size: u64)
    ensures
        final(s)@ == old(s)@ + size_text(size as nat),
{
    let v = float_value(size);
    let d: u128 = if v / 1024 > 1024 {
        1048576
    } else {
        1024
    };
    let h = hundredths_exec(v, d);
    assert(h / 100 <= u64::MAX) by (nonlinear_arith)
        requires
            h <= (v * 100) as int / d as int + 1,
            v <= 2 * (size as nat) + 1,
            size <= u64::MAX,
            d >= 1024,
    ;
    push_two_places(s, h);
    if v / 1024 > 1024 {
        s.append("mb");
    } else {
        s.append("kb");
    }
    assert(final(s)@ =~= old(s)@ + size_text(size as nat));
}

/// Appends `true` or `false`.
fn push_bool(s: &mut String, b: bool)
    ensures
        final(s)@ == old(s)@ + bool_text(b),
{
    if b {
        s.append("true");
    } else {
        s.append("false");
    }
}

/// The text of the information panel: what the metadata says of the file,
/// or the error met while reading the metadata.
pub fn info(meta: Result<FileInfo, String>) -> (text: String)
    ensures
        meta matches Ok(i) ==> text@ == info_text(i),
        meta matches Err(message) ==> text == message,
{
    match meta {
        Err(message) => message,
        Ok(i) => {
            let mut s = String::from_str("Size: ");
            push_size(&mut s, i.size);
            s.append("\nSymlink: ");
            push_bool(&mut s, i.is_symlink);
            s.append("\nDirectory: ");
            push_bool(&mut s, i.is_dir);
            s.append("\nPermissions: ");
            push_decimal(&mut s, i.mode as u64);
            s.append("\nRead-only: ");
            push_bool(&mut s, i.readonly);
            s.append("\nTime since modification: ");
            push_decimal(&mut s, (i.modified_secs as u32) as u64);
            s.append("s\nTime since accessed: ");
            push_decimal(&mut s, (i.accessed_secs as u32) as u64);
            s.append("s");
            assert(s@ =~= info_text(i));
            s
        },
    }
}

} // verus!
