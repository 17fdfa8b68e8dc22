//! Daemon configuration: the screenshot directory and the UI colours.
//!
//! Reading the configuration file and the environment is the surrounding
//! application's work; it hands the raw option strings to
//! [`apply_config_options`], which validates them and falls back to the
//! values already in place when one is invalid.

use vstd::prelude::*;
use vstd::string::StrSliceExecFns;
use vstd::string::StringExecFns;

verus! {

/// The daemon's configuration, with ARGB colours.
#[derive(Debug, PartialEq, Eq)]
pub struct CapitConfig {
    pub screenshot_directory: String,
    pub accent_colour: u32,
    pub bar_background_colour: u32,
}

/// The default accent colour: an opaque blue.
pub const DEFAULT_ACCENT: u32 = 0xFF0A_84FF;

/// The default bar background colour.
pub const DEFAULT_BAR_BG: u32 = 0xFF0F_1115;

impl CapitConfig {
    /// The defaults, around a caller-supplied screenshot directory.
    pub fn with_directory(dir: String) -> (r: Self)
        ensures
            r.screenshot_directory@ == dir@,
            r.accent_colour == DEFAULT_ACCENT,
            r.bar_background_colour == DEFAULT_BAR_BG,
    {
        CapitConfig {
            screenshot_directory: dir,
            accent_colour: DEFAULT_ACCENT,
            bar_background_colour: DEFAULT_BAR_BG,
        }
    }
}

impl Clone for CapitConfig {
    /// A clone carries the same fields.
    fn clone(&self) -> (r: Self)
        ensures
            r.screenshot_directory@ == self.screenshot_directory@,
            r.accent_colour == self.accent_colour,
            r.bar_background_colour == self.bar_background_colour,
    {
        CapitConfig {
            screenshot_directory: self.screenshot_directory.clone(),
            accent_colour: self.accent_colour,
            bar_background_colour: self.bar_background_colour,
        }
    }
}

/// ASCII whitespace, as trimmed from a colour value.
pub open spec fn is_space(c: char) -> bool {
    c == ' ' || c == '\t' || c == '\n' || c == '\r'
}

/// First index at or after `i` holding a non-space character.
pub open spec fn trim_lo(s: Seq<char>, i: int) -> int
    decreases s.len() - i,
{
    if 0 <= i < s.len() && is_space(s[i]) {
        trim_lo(s, i + 1)
    } else {
        i
    }
}

/// Last index at or before `j` bounding the non-space suffix.
pub open spec fn trim_hi(s: Seq<char>, j: int) -> int
    decreases j,
{
    if 0 < j <= s.len() && is_space(s[j - 1]) {
        trim_hi(s, j - 1)
    } else {
        j
    }
}

/// The string with ASCII whitespace removed from both ends.
pub open spec fn spec_trim(s: Seq<char>) -> Seq<char> {
    let lo = trim_lo(s, 0);
    let hi = trim_hi(s, s.len() as int);
    if lo <= hi {
        s.subrange(lo, hi)
    } else {
        Seq::empty()
    }
}

/// The value of one hexadecimal digit, or 16 for any other character.
pub open spec fn hex_digit_val(c: char) -> int {
    let v = c as u32;
    if 0x30 <= v <= 0x39 {
        v - 0x30
    } else if 0x61 <= v <= 0x66 {
        v - 0x61 + 10
    } else if 0x41 <= v <= 0x46 {
        v - 0x41 + 10
    } else {
        16
    }
}

pub open spec fn all_hex(s: Seq<char>) -> bool {
    forall|i: int| 0 <= i < s.len() ==> hex_digit_val(#[trigger] s[i]) < 16
}

/// The number the hexadecimal digits spell, most significant first.
pub open spec fn hex_value(s: Seq<char>) -> int
    decreases s.len(),
{
    if s.len() == 0 {
        0
    } else {
        hex_value(s.drop_last()) * 16 + hex_digit_val(s.last())
    }
}

pub open spec fn pow16(k: int) -> int
    decreases k,
{
    if k <= 0 {
        1
    } else {
        16 * pow16(k - 1)
    }
}

proof fn lemma_trim_hi_le(s: Seq<char>, j: int)
    ensures
        trim_hi(s, j) <= j,
    decreases j,
{
    if 0 < j <= s.len() && is_space(s[j - 1]) {
        lemma_trim_hi_le(s, j - 1);
    }
}

proof fn lemma_pow16_mono(a: int, b: int)
    requires
        a <= b,
    ensures
        1 <= pow16(a) <= pow16(b),
    decreases b - a,
{
    if a < b {
        lemma_pow16_mono(a, b - 1);
    } else {
        lemma_pow16_mono_base(a);
    }
}

proof fn lemma_pow16_mono_base(a: int)
    ensures
        pow16(a) >= 1,
    decreases a,
{
    if a > 0 {
        lemma_pow16_mono_base(a - 1);
    }
}

/// What [`parse_hex_colour`] accepts: after trimming, a `#` and exactly six
/// hexadecimal digits.
pub open spec fn hex_colour_ok(s: Seq<char>) -> bool {
    let t = spec_trim(s);
    t.len() == 7 && t[0] == '#' && all_hex(t.subrange(1, 7))
}

/// The ARGB word an accepted colour denotes: opaque alpha over the digits.
pub open spec fn hex_colour_value(s: Seq<char>) -> int {
    0xFF00_0000 + hex_value(spec_trim(s).subrange(1, 7))
}

fn is_space_char(c: char) -> (r: bool)
    ensures
        r == is_space(c),
{
    c == ' ' || c == '\t' || c == '\n' || c == '\r'
}

fn hex_digit(c: char) -> (r: u32)
    ensures
        r as int == hex_digit_val(c),
{
    let v = c as u32;
    if 0x30 <= v && v <= 0x39 {
        v - 0x30
    } else if 0x61 <= v && v <= 0x66 {
        v - 0x61 + 10
    } else if 0x41 <= v && v <= 0x46 {
        v - 0x41 + 10
    } else {
        16
    }
}

/// Parse a `#RRGGBB` colour, ignoring surrounding ASCII whitespace, into an
/// opaque ARGB word.  Returns an error exactly when the trimmed text is not
/// a `#` followed by six hexadecimal digits.
pub fn parse_hex_colour(s: &str) -> (r: Result<u32, String>)
    ensures
        (match r {
            Ok(v) => hex_colour_ok(s@) && v as int == hex_colour_value(s@),
            Err(_) => !hex_colour_ok(s@),
        }),
{
    let n = s.unicode_len();
    let mut lo: usize = 0;
    while lo < n && is_space_char(s.get_char(lo))
        invariant
            0 <= lo <= n,
            n == s@.len(),
            trim_lo(s@, 0) == trim_lo(s@, lo as int),
            forall|i: int| 0 <= i < lo ==> is_space(#[trigger] s@[i]),
        decreases n - lo,
    {
        lo += 1;
    }
    let mut hi: usize = n;
    while hi > lo && is_space_char(s.get_char(hi - 1))
        invariant
            lo <= hi <= n,
            n == s@.len(),
            trim_lo(s@, 0) == lo as int,
            (lo == n || !is_space(s@[lo as int])),
            trim_hi(s@, n as int) == trim_hi(s@, hi as int),
            forall|j: int| hi <= j < n ==> is_space(#[trigger] s@[j]),
        decreases hi,
    {
        hi -= 1;
    }
    proof {
        if hi > lo {
            assert(!is_space(s@[lo as int]));
            assert(!is_space(s@[hi as int - 1]));
            assert(trim_hi(s@, hi as int) == hi as int);
            assert(spec_trim(s@) =~= s@.subrange(lo as int, hi as int));
        } else {
            assert(lo == n);
            assert(trim_lo(s@, n as int) == n);
            lemma_trim_hi_le(s@, n as int);
            assert(spec_trim(s@).len() == 0);
        }
    }
    let t_len = hi - lo;
    if t_len == 0 || s.get_char(lo) != '#' {
        return Err(String::from_str("colour must start with #"));
    }
    if t_len != 7 {
        return Err(String::from_str("colour must be 6 hex digits (RRGGBB)"));
    }
    let ghost t = spec_trim(s@);
    let mut acc: u32 = 0;
    let mut k: usize = 0;
    while k < 6
        invariant
            0 <= k <= 6,
            n == s@.len(),
            lo as int + 7 == hi as int,
            hi <= n,
            t == spec_trim(s@),
            t =~= s@.subrange(lo as int, hi as int),
            all_hex(t.subrange(1, k as int + 1)),
            acc as int == hex_value(t.subrange(1, k as int + 1)),
            (acc as int) < pow16(k as int),
        decreases 6 - k,
    {
        let c = s.get_char(lo + 1 + k);
        let d = hex_digit(c);
        if d >= 16 {
            proof {
                assert(t[k as int + 1] == s@[lo as int + 1 + k as int]);
                assert(hex_digit_val(t[k as int + 1]) >= 16);
                assert(t.subrange(1, 7)[k as int] == t[k as int + 1]);
                assert(!all_hex(t.subrange(1, 7)));
            }
            return Err(String::from_str("invalid hex colour"));
        }
        proof {
            assert(pow16(k as int + 1) == 16 * pow16(k as int));
            assert(t.subrange(1, k as int + 2).drop_last() =~= t.subrange(1, k as int + 1));
            assert(t.subrange(1, k as int + 2).last() == t[k as int + 1]);
            assert(t[k as int + 1] == s@[lo as int + 1 + k as int]);
            assert(pow16(6) == 0x100_0000) by {
                reveal_with_fuel(pow16, 7);
            }
        }
        proof {
            lemma_pow16_mono(k as int, 5);
            assert(pow16(5) == 0x10_0000) by {
                reveal_with_fuel(pow16, 6);
            }
        }
        acc = acc * 16 + d;
        k += 1;
    }
    proof {
        assert(pow16(6) == 0x100_0000) by {
            reveal_with_fuel(pow16, 7);
        }
        assert(acc < 0x100_0000);
    }
    Ok(0xFF00_0000u32 + acc)
}

/// Overlay the three optional raw settings on a configuration: a non-empty
/// directory replaces the old one, and a colour replaces the old one only
/// when it parses; anything else leaves the old value standing.
pub fn apply_config_options(
    cfg: &mut CapitConfig,
    screenshot_directory: Option<String>,
    accent_colour: Option<String>,
    bar_background_colour: Option<String>,
)
    ensures
        final(cfg).screenshot_directory@ == (match screenshot_directory {
            Some(d) => if d@.len() > 0 {
                d@
            } else {
                old(cfg).screenshot_directory@
            },
            None => old(cfg).screenshot_directory@,
        }),
        final(cfg).accent_colour as int == (match accent_colour {
            Some(s) => if hex_colour_ok(s@) {
                hex_colour_value(s@)
            } else {
                old(cfg).accent_colour as int
            },
            None => old(cfg).accent_colour as int,
        }),
        final(cfg).bar_background_colour as int == (match bar_background_colour {
            Some(s) => if hex_colour_ok(s@) {
                hex_colour_value(s@)
            } else {
                old(cfg).bar_background_colour as int
            },
            None => old(cfg).bar_background_colour as int,
        }),
{
    if let Some(d) = screenshot_directory {
        if d.as_str().unicode_len() > 0 {
            cfg.screenshot_directory = d;
        }
    }
    if let Some(s) = accent_colour {
        if let Ok(v) = parse_hex_colour(s.as_str()) {
            cfg.accent_colour = v;
        }
    }
    if let Some(s) = bar_background_colour {
        if let Ok(v) = parse_hex_colour(s.as_str()) {
            cfg.bar_background_colour = v;
        }
    }
}

} // verus!
