use crate::text::{decimal, push_decimal};
use vstd::prelude::*;
use vstd::string::StringExecFns;

verus! {

/// Presentation choices of a listing.
#[derive(Debug, Clone, Copy)]
pub struct FormattingOptions {
    pub format: ListFormat,
    pub size_format: SizeFormat,
    pub time_format: TimeFormat,
    pub color_mode: ColorMode,
    pub indicators: bool,
}

#[derive(Debug, Clone, Copy, PartialEq, Eq, Structural)]
pub enum ListFormat {
    OneLine,
    Columns,
    Long,
    Commas,
}

/// How sizes are written: raw bytes, binary units (KiB, MiB, ...), decimal
/// units (KB, MB, ...), or 512-byte blocks.
#[derive(Debug, Clone, Copy, PartialEq, Eq, Structural)]
pub enum SizeFormat {
    Bytes,
    Human,
    SI,
    Blocks,
}

#[derive(Debug, Clone, Copy, PartialEq, Eq, Structural)]
pub enum TimeFormat {
    Default,
    ISO,
    Full,
    Relative,
}

#[derive(Debug, Clone, Copy, PartialEq, Eq, Structural)]
pub enum ColorMode {
    Never,
    Always,
    Auto,
}

impl Default for FormattingOptions {
    fn default() -> (r: Self)
        ensures
            r.format == ListFormat::Columns,
            r.size_format == SizeFormat::Bytes,
            r.time_format == TimeFormat::Default,
            r.color_mode == ColorMode::Auto,
            !r.indicators,
    {
        FormattingOptions {
            format: ListFormat::Columns,
            size_format: SizeFormat::Bytes,
            time_format: TimeFormat::Default,
            color_mode: ColorMode::Auto,
            indicators: false,
        }
    }
}

/// The unit ladders that sizes are written with.
#[derive(Debug, Clone, Copy, PartialEq, Eq, Structural)]
pub enum UnitStyle {
    /// B, KiB, MiB, GiB, TiB with a space before the unit; steps of 1024.
    Binary,
    /// B, KB, MB, GB, TB with a space before the unit; steps of 1000.
    Decimal,
    /// B, K, M, G, T, P right after the number; steps of 1024.
    Short,
}

pub open spec fn unit_base(style: UnitStyle) -> nat {
    match style {
        UnitStyle::Decimal => 1000,
        _ => 1024,
    }
}

/// The index of the largest unit of a ladder.
pub open spec fn last_unit(style: UnitStyle) -> nat {
    match style {
        UnitStyle::Short => 5,
        _ => 4,
    }
}

pub open spec fn unit_name(style: UnitStyle, i: nat) -> Seq<char> {
    match style {
        UnitStyle::Binary => if i == 0 {
            "B"@
        } else if i == 1 {
            "KiB"@
        } else if i == 2 {
            "MiB"@
        } else if i == 3 {
            "GiB"@
        } else {
            "TiB"@
        },
        UnitStyle::Decimal => if i == 0 {
            "B"@
        } else if i == 1 {
            "KB"@
        } else if i == 2 {
            "MB"@
        } else if i == 3 {
            "GB"@
        } else {
            "TB"@
        },
        UnitStyle::Short => if i == 0 {
            "B"@
        } else if i == 1 {
            "K"@
        } else if i == 2 {
            "M"@
        } else if i == 3 {
            "G"@
        } else if i == 4 {
            "T"@
        } else {
            "P"@
        },
    }
}

pub open spec fn unit_separator(style: UnitStyle) -> Seq<char> {
    match style {
        UnitStyle::Short => ""@,
        _ => " "@,
    }
}

/// `base` to the power `k`.
pub open spec fn divisor(base: nat, k: nat) -> nat
    decreases k,
{
    if k == 0 {
        1
    } else {
        base * divisor(base, (k - 1) as nat)
    }
}

/// The unit that a size is written in: the first from `i` on at which the
/// scaled size is below the base, or the last one.
pub open spec fn unit_index(size: nat, base: nat, i: nat, last: nat) -> nat
    decreases last - i,
{
    if i < last && size / divisor(base, i) >= base {
        unit_index(size, base, i + 1, last)
    } else {
        i
    }
}

/// `size / d` in tenths, rounded to the nearest tenth; an exact half goes
/// to the even neighbour.
pub open spec fn tenths(size: nat, d: nat) -> nat {
    let low = (size / d) * 10 + ((size % d) * 10) / d;
    let rest = ((size % d) * 10) % d;
    if rest * 2 > d || (rest * 2 == d && low % 2 == 1) {
        low + 1
    } else {
        low
    }
}

/// A size in the largest unit of the ladder that keeps it at least one
/// (or the last unit): whole bytes without a decimal, larger units with one
/// decimal place.
pub open spec fn humanized(size: nat, style: UnitStyle) -> Seq<char> {
    let k = unit_index(size, unit_base(style), 0, last_unit(style));
    if k == 0 {
        decimal(size) + unit_separator(style) + unit_name(style, 0)
    } else {
        let t = tenths(size, divisor(unit_base(style), k));
        decimal(t / 10) + "."@ + decimal(t % 10) + unit_separator(style) + unit_name(style, k)
    }
}

proof fn lemma_divisor_bound(base: nat, k: nat)
    requires
        1 <= base <= 1024,
        k <= 5,
    ensures
        1 <= divisor(base, k) <= divisor(1024, k),
        divisor(1024, k) <= 1125899906842624,
    decreases k,
{
    if k > 0 {
        lemma_divisor_bound(base, (k - 1) as nat);
        let a = divisor(base, (k - 1) as nat);
        let b = divisor(1024, (k - 1) as nat);
        assert(base * a <= 1024 * b) by (nonlinear_arith)
            requires
                base <= 1024,
                a <= b,
                1 <= a,
        ;
        assert(1 <= base * a) by (nonlinear_arith)
            requires
                1 <= base,
                1 <= a,
        ;
        assert(divisor(1024, k) <= 1125899906842624) by {
            reveal_with_fuel(divisor, 6);
        }
    }
}

fn unit_text(style: UnitStyle, i: usize) -> (r: &'static str)
    ensures
        r@ == unit_name(style, i as nat),
{
    match style {
        UnitStyle::Binary => if i == 0 {
            "B"
        } else if i == 1 {
            "KiB"
        } else if i == 2 {
            "MiB"
        } else if i == 3 {
            "GiB"
        } else {
            "TiB"
        },
        UnitStyle::Decimal => if i == 0 {
            "B"
        } else if i == 1 {
            "KB"
        } else if i == 2 {
            "MB"
        } else if i == 3 {
            "GB"
        } else {
            "TB"
        },
        UnitStyle::Short => if i == 0 {
            "B"
        } else if i == 1 {
            "K"
        } else if i == 2 {
            "M"
        } else if i == 3 {
            "G"
        } else if i == 4 {
            "T"
        } else {
            "P"
        },
    }
}

/// Writes a size in units of the ladder `style`, as in `1.5 KiB` or `2.0M`.
pub fn humanize(size: u64, style: UnitStyle) -> (r: String)
    ensures
        r@ == humanized(size as nat, style),
{
    let base: u64 = match style {
        UnitStyle::Decimal => 1000,
        _ => 1024,
    };
    let last: usize = match style {
        UnitStyle::Short => 5,
        _ => 4,
    };
    let mut k: usize = 0;
    let mut d: u64 = 1;
    proof {
        lemma_divisor_bound(base as nat, 0);
    }
    while k < last && size / d >= base
        invariant
            base == unit_base(style),
            last == last_unit(style),
            k <= last,
            d == divisor(base as nat, k as nat),
            1 <= d <= 1125899906842624,
            unit_index(size as nat, base as nat, k as nat, last as nat) == unit_index(
                size as nat,
                base as nat,
                0,
                last as nat,
            ),
        decreases last - k,
    {
        proof {
            lemma_divisor_bound(base as nat, (k + 1) as nat);
        }
        d = d * base;
        k = k + 1;
    }
    let mut s = String::new();
    if k == 0 {
        push_decimal(&mut s, size as u128);
    } else {
        let q = size / d;
        let rem = size % d;
        let low: u128 = (q as u128) * 10 + ((rem * 10) / d) as u128;
        let rest: u64 = (rem * 10) % d;
        let t: u128 = if rest * 2 > d || (rest * 2 == d && low % 2 == 1) {
            low + 1
        } else {
            low
        };
        push_decimal(&mut s, t / 10);
        s.append(".");
        push_decimal(&mut s, t % 10);
    }
    match style {
        UnitStyle::Short => {},
        _ => s.append(" "),
    }
    s.append(unit_text(style, k));
    proof {
        reveal_strlit("");
        assert(s@ =~= humanized(size as nat, style));
    }
    s
}

/// Writes a size in binary units when `base` is 1024, decimal units when it
/// is 1000.
pub fn humanize_size(size: u64, base: u64) -> (r: String)
    requires
        base == 1024 || base == 1000,
    ensures
        base == 1024 ==> r@ == humanized(size as nat, UnitStyle::Binary),
        base == 1000 ==> r@ == humanized(size as nat, UnitStyle::Decimal),
{
    if base == 1024 {
        humanize(size, UnitStyle::Binary)
    } else {
        humanize(size, UnitStyle::Decimal)
    }
}

/// The number of 512-byte blocks that hold `size` bytes.
pub open spec fn blocks_of(size: nat) -> nat {
    (size + 511) / 512
}

/// A size as the chosen format writes it.
pub open spec fn size_text(size: nat, format: SizeFormat) -> Seq<char> {
    match format {
        SizeFormat::Bytes => decimal(size),
        SizeFormat::Human => humanized(size, UnitStyle::Binary),
        SizeFormat::SI => humanized(size, UnitStyle::Decimal),
        SizeFormat::Blocks => decimal(blocks_of(size)),
    }
}

/// Writes a size as bytes, in binary or decimal units, or as a count of
/// 512-byte blocks (rounded up).
pub fn format_size(size: u64, format: &SizeFormat) -> (r: String)
    ensures
        r@ == size_text(size as nat, *format),
{
    match format {
        SizeFormat::Bytes => crate::text::decimal_string(size as u128),
        SizeFormat::Human => humanize_size(size, 1024),
        SizeFormat::SI => humanize_size(size, 1000),
        SizeFormat::Blocks => {
            let b: u64 = size / 512 + if size % 512 != 0 {
                1
            } else {
                0
            };
            crate::text::decimal_string(b as u128)
        },
    }
}

/// Relies on `atty::is`: whether standard output is a terminal. The answer
/// depends on how the process was started.
#[verifier::external_body]
fn stdout_is_terminal() -> (r: bool) {
    atty::is(atty::Stream::Stdout)
}

/// Whether to color, given the mode and whether the output is a terminal.
pub fn color_for(mode: &ColorMode, is_terminal: bool) -> (r: bool)
    ensures
        r == match *mode {
            ColorMode::Always => true,
            ColorMode::Never => false,
            ColorMode::Auto => is_terminal,
        },
{
    match mode {
        ColorMode::Always => true,
        ColorMode::Never => false,
        ColorMode::Auto => is_terminal,
    }
}

/// Whether to color: always, never, or when standard output is a terminal.
pub fn should_use_color(mode: &ColorMode) -> (r: bool)
    ensures
        *mode == ColorMode::Always ==> r,
        *mode == ColorMode::Never ==> !r,
{
    match mode {
        ColorMode::Auto => color_for(mode, stdout_is_terminal()),
        _ => color_for(mode, false),
    }
}

} // verus!
