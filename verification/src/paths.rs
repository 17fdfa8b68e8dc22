//! Where the suite's files live: the IPC socket, the log file, and the
//! screenshots.  Environment values are read by the surrounding
//! application and handed in as plain optional strings.

use vstd::prelude::*;
use vstd::string::StrSliceExecFns;
use vstd::string::StringExecFns;

use crate::codec::char_of;
use crate::config::CapitConfig;
use crate::lock::{last_slash_before, spec_dec_bytes};

verus! {

/// The decimal digits of `n`, as characters.
pub open spec fn dec_chars_of(n: int) -> Seq<char> {
    spec_dec_bytes(n).map_values(|b: u8| char_of(b as u32))
}

/// Append the decimal digits of `n`.
fn push_dec(s: &mut String, n: u64)
    ensures
        final(s)@ == old(s)@ + dec_chars_of(n as int),
    decreases n,
{
    if n < 10 {
        let b: u8 = 0x30 + (n as u8);
        let c: char = b as char;
        crate::wire::push_char(s, c);
        proof {
            crate::codec::lemma_char_of(c);
            assert(dec_chars_of(n as int) =~= seq![char_of(b as u32)]);
            assert(old(s)@.push(c) =~= old(s)@ + seq![c]);
        }
    } else {
        push_dec(s, n / 10);
        let b: u8 = 0x30 + ((n % 10) as u8);
        let c: char = b as char;
        let ghost mid = s@;
        crate::wire::push_char(s, c);
        proof {
            crate::codec::lemma_char_of(c);
            assert(spec_dec_bytes(n as int) == spec_dec_bytes(n as int / 10).push(b));
            assert(dec_chars_of(n as int) =~= dec_chars_of(n as int / 10).push(
                char_of(b as u32),
            ));
            assert(mid.push(c) =~= old(s)@ + dec_chars_of(n as int));
        }
    }
}

/// The decimal spelling of `n`.
pub fn u64_dec_string(n: u64) -> (r: String)
    ensures
        r@ == dec_chars_of(n as int),
{
    let mut s = String::new();
    push_dec(&mut s, n);
    proof {
        assert(Seq::<char>::empty() + dec_chars_of(n as int) =~= dec_chars_of(n as int));
    }
    s
}

/// The IPC socket's path: `capit/capit.sock` under the runtime directory,
/// or under `/tmp` when no runtime directory is known.
pub fn default_socket_path(runtime_dir: Option<String>) -> (r: String)
    ensures
        r@ == (match runtime_dir {
            Some(d) => d@,
            None => "/tmp"@,
        }) + "/capit/capit.sock"@,
{
    let mut base = match runtime_dir {
        Some(d) => d,
        None => String::from_str("/tmp"),
    };
    base.append("/capit/capit.sock");
    base
}

/// The log file's path: `capit/<file>` under the state directory, falling
/// back to `.local/state` under the home directory, then to `/tmp`.
pub fn default_log_path(state_home: Option<String>, home: Option<String>, file: &str) -> (r:
    String)
    ensures
        r@ == (match state_home {
            Some(d) => d@,
            None => match home {
                Some(h) => h@ + "/.local/state"@,
                None => "/tmp"@,
            },
        }) + "/capit/"@ + file@,
{
    let mut base = match state_home {
        Some(d) => d,
        None => match home {
            Some(mut h) => {
                h.append("/.local/state");
                h
            },
            None => String::from_str("/tmp"),
        },
    };
    base.append("/capit/");
    base.append(file);
    base
}

/// Where screenshots go, by priority: a non-empty override, then a
/// non-empty configured directory, then the runtime directory, then
/// `/tmp`.
pub fn output_dir_from_cfg(
    dir_override: Option<String>,
    cfg: &CapitConfig,
    runtime_dir: Option<String>,
) -> (r: String)
    ensures
        r@ == (match dir_override {
            Some(d) => if d@.len() > 0 {
                d@
            } else {
                fallback_output_dir(cfg.screenshot_directory@, runtime_dir)
            },
            None => fallback_output_dir(cfg.screenshot_directory@, runtime_dir),
        }),
{
    if let Some(d) = dir_override {
        if d.as_str().unicode_len() > 0 {
            return d;
        }
    }
    if cfg.screenshot_directory.as_str().unicode_len() > 0 {
        return cfg.screenshot_directory.clone();
    }
    match runtime_dir {
        Some(d) => d,
        None => String::from_str("/tmp"),
    }
}

/// The screenshot directory once the override is out of the picture.
pub open spec fn fallback_output_dir(configured: Seq<char>, runtime_dir: Option<String>) -> Seq<
    char,
> {
    if configured.len() > 0 {
        configured
    } else {
        match runtime_dir {
            Some(d) => d@,
            None => "/tmp"@,
        }
    }
}

/// The file a capture is saved to: `capit-<timestamp>.<ext>` inside the
/// output directory.
pub fn default_output_path(dir: &str, timestamp: u64, ext: &str) -> (r: String)
    ensures
        r@ == dir@ + "/capit-"@ + dec_chars_of(timestamp as int) + "."@ + ext@,
{
    let mut p = dir.to_owned();
    p.append("/capit-");
    let ts = u64_dec_string(timestamp);
    p.append(ts.as_str());
    p.append(".");
    p.append(ext);
    p
}

/// Index of the last `.` strictly before `j` and at or after `lo`.
pub open spec fn last_dot_between(s: Seq<char>, lo: int, j: int) -> Option<int>
    decreases j - lo,
{
    if j <= lo || j > s.len() {
        None
    } else if s[j - 1] == '.' {
        Some(j - 1)
    } else {
        last_dot_between(s, lo, j - 1)
    }
}

/// Where the file name starts in `p`: after the last slash, or at the
/// front when there is none.
pub open spec fn file_name_start(p: Seq<char>) -> int {
    match last_slash_before(p, p.len() as int) {
        Some(k) => k + 1,
        None => 0,
    }
}

/// Where the file's stem ends: at its last dot when one sits strictly
/// inside the name, else at the end of the path.
pub open spec fn stem_end(p: Seq<char>) -> int {
    match last_dot_between(p, file_name_start(p) + 1, p.len() as int) {
        Some(d) => d,
        None => p.len() as int,
    }
}

/// A sibling scratch path for the portal's screenshot file, unique by the
/// caller's timestamp: everything up to the final path's stem, then
/// `.capit_tmp_<nanos>.png`.
pub fn temp_output_path(final_out_path: &str, nanos: u64) -> (r: String)
    ensures
        r@ == final_out_path@.subrange(0, stem_end(final_out_path@)) + ".capit_tmp_"@
            + dec_chars_of(nanos as int) + ".png"@,
{
    let n = final_out_path.unicode_len();
    let mut j: usize = n;
    while j > 0 && final_out_path.get_char(j - 1) != '/'
        invariant
            0 <= j <= n,
            n == final_out_path@.len(),
            last_slash_before(final_out_path@, n as int) == last_slash_before(
                final_out_path@,
                j as int,
            ),
        decreases j,
    {
        j -= 1;
    }
    proof {
        if j > 0 {
            assert(last_slash_before(final_out_path@, j as int) == Some(j - 1));
        }
        assert(file_name_start(final_out_path@) == j as int);
    }
    let name_start = j;
    let mut d: usize = n;
    while d > name_start && d - name_start > 1 && final_out_path.get_char(d - 1) != '.'
        invariant
            name_start <= n,
            name_start + 1 <= d || d == n,
            d <= n,
            n == final_out_path@.len(),
            file_name_start(final_out_path@) == name_start as int,
            last_dot_between(final_out_path@, name_start as int + 1, n as int)
                == last_dot_between(final_out_path@, name_start as int + 1, d as int),
        decreases d,
    {
        d -= 1;
    }
    let cut: usize = if d > name_start && d - name_start > 1 {
        proof {
            assert(last_dot_between(final_out_path@, name_start as int + 1, d as int) == Some(
                d - 1,
            ));
        }
        d - 1
    } else {
        proof {
            assert(last_dot_between(final_out_path@, name_start as int + 1, d as int) is None);
        }
        n
    };
    proof {
        assert(stem_end(final_out_path@) == cut as int);
    }
    let stem = final_out_path.substring_char(0, cut);
    let mut p = stem.to_owned();
    p.append(".capit_tmp_");
    let ts = u64_dec_string(nanos);
    p.append(ts.as_str());
    p.append(".png");
    p
}

} // verus!
