//! Decisions of the single-instance lock.
//!
//! The lock is a file beside the daemon's socket holding `pid=<number>`.
//! The surrounding application performs the filesystem steps — existence
//! checks, the atomic exclusive create, reads, removals — and asks this
//! module what the bytes mean: where the lock file lives, what to write
//! into it, what an existing file's pid is, and whether a lock is stale.
//! Stale-lock removal on acquire is what makes best-effort cleanup on exit
//! sound.

use vstd::prelude::*;
use vstd::string::StrSliceExecFns;
use vstd::string::StringExecFns;

verus! {

/// Index of the last `/` strictly before `j`, if any.
pub open spec fn last_slash_before(s: Seq<char>, j: int) -> Option<int>
    decreases j,
{
    if j <= 0 || j > s.len() {
        None
    } else if s[j - 1] == '/' {
        Some(j - 1)
    } else {
        last_slash_before(s, j - 1)
    }
}

/// The lock file path for a socket path: `capitd.lock` in the socket's
/// directory.  `None` when the socket path names no directory, which the
/// caller reports as the no-parent failure.
pub fn lock_path_for_socket(socket_path: &str) -> (r: Option<String>)
    ensures
        (match r {
            Some(p) => (match last_slash_before(socket_path@, socket_path@.len() as int) {
                Some(k) => p@ == socket_path@.subrange(0, k + 1) + "capitd.lock"@,
                None => false,
            }),
            None => last_slash_before(socket_path@, socket_path@.len() as int) is None,
        }),
{
    let n = socket_path.unicode_len();
    let mut j: usize = n;
    while j > 0 && socket_path.get_char(j - 1) != '/'
        invariant
            0 <= j <= n,
            n == socket_path@.len(),
            last_slash_before(socket_path@, n as int) == last_slash_before(
                socket_path@,
                j as int,
            ),
        decreases j,
    {
        j -= 1;
    }
    if j == 0 {
        return None;
    }
    let dir = socket_path.substring_char(0, j);
    let mut p = dir.to_owned();
    p.append("capitd.lock");
    Some(p)
}

/// The value of a run of decimal digit bytes, most significant first.
pub open spec fn dec_bytes_val(s: Seq<u8>) -> int
    decreases s.len(),
{
    if s.len() == 0 {
        0
    } else {
        dec_bytes_val(s.drop_last()) * 10 + (s.last() - 0x30)
    }
}

pub open spec fn all_dec_digits(s: Seq<u8>) -> bool {
    forall|i: int| 0 <= i < s.len() ==> 0x30 <= #[trigger] s[i] <= 0x39
}

/// What a well-formed lock file holds: `pid=`, at least one digit, and a
/// trailing newline.
pub open spec fn pid_line_ok(s: Seq<u8>) -> bool {
    &&& s.len() >= 6
    &&& s[0] == 0x70 && s[1] == 0x69 && s[2] == 0x64 && s[3] == 0x3d
    &&& s.last() == 0x0a
    &&& all_dec_digits(s.subrange(4, s.len() - 1))
    &&& dec_bytes_val(s.subrange(4, s.len() - 1)) <= u32::MAX
}

/// The pid a well-formed lock file names.
pub open spec fn pid_line_value(s: Seq<u8>) -> int {
    dec_bytes_val(s.subrange(4, s.len() - 1))
}

/// Read the owning pid out of a lock file's bytes: accepted exactly when
/// the file is one `pid=<digits>` line, as [`pid_line_ok`] says.
pub fn parse_pid_line(contents: &Vec<u8>) -> (r: Option<u32>)
    ensures
        (match r {
            Some(pid) => pid_line_ok(contents@) && pid as int == pid_line_value(contents@),
            None => !pid_line_ok(contents@),
        }),
{
    let n = contents.len();
    if n < 6 {
        return None;
    }
    if !(contents[0] == 0x70 && contents[1] == 0x69 && contents[2] == 0x64 && contents[3] == 0x3d
        && contents[n - 1] == 0x0a) {
        return None;
    }
    let ghost digits = contents@.subrange(4, contents@.len() - 1);
    let mut value: u64 = 0;
    let mut i: usize = 4;
    while i < n - 1
        invariant
            4 <= i <= n - 1,
            n == contents@.len(),
            n >= 6,
            digits == contents@.subrange(4, contents@.len() - 1),
            all_dec_digits(digits.subrange(0, i - 4)),
            value as int == dec_bytes_val(digits.subrange(0, i - 4)),
            value <= 0xFFFF_FFFF,
        decreases n - i,
    {
        let b = contents[i];
        if b < 0x30 || b > 0x39 {
            proof {
                assert(digits[i - 4] == contents@[i as int]);
                assert(!all_dec_digits(digits));
            }
            return None;
        }
        proof {
            assert(digits.subrange(0, i - 4 + 1).drop_last() =~= digits.subrange(0, i - 4));
            assert(digits.subrange(0, i - 4 + 1).last() == digits[i - 4]);
            assert(digits[i - 4] == contents@[i as int]);
        }
        value = value * 10 + ((b - 0x30) as u64);
        if value > 0xFFFF_FFFF {
            proof {
                if pid_line_ok(contents@) {
                    lemma_dec_bytes_prefix_le(digits, i - 4 + 1);
                }
            }
            return None;
        }
        i += 1;
    }
    proof {
        assert(digits.subrange(0, digits.len() as int) =~= digits);
    }
    Some(value as u32)
}

/// A longer run of digits never spells a smaller number.
proof fn lemma_dec_bytes_prefix_le(s: Seq<u8>, k: int)
    requires
        0 <= k <= s.len(),
        all_dec_digits(s),
    ensures
        dec_bytes_val(s.subrange(0, k)) <= dec_bytes_val(s),
    decreases s.len() - k,
{
    if k < s.len() {
        assert(s.subrange(0, k + 1).drop_last() =~= s.subrange(0, k));
        assert(s.subrange(0, k + 1).last() == s[k]);
        assert(dec_bytes_val(s.subrange(0, k + 1)) == dec_bytes_val(s.subrange(0, k)) * 10 + (
        s[k] - 0x30));
        assert(all_dec_digits(s.subrange(0, k))) by {
            assert(forall|i: int| 0 <= i < k ==> s.subrange(0, k)[i] == s[i]);
        }
        assert(dec_bytes_val(s.subrange(0, k)) >= 0) by {
            lemma_dec_bytes_nonneg(s.subrange(0, k));
        }
        assert(dec_bytes_val(s.subrange(0, k)) * 10 >= dec_bytes_val(s.subrange(0, k)))
            by (nonlinear_arith)
            requires
                dec_bytes_val(s.subrange(0, k)) >= 0,
        ;
        lemma_dec_bytes_prefix_le(s, k + 1);
    } else {
        assert(s.subrange(0, k) =~= s);
    }
}

/// A run of digits spells a value of at least zero.
proof fn lemma_dec_bytes_nonneg(s: Seq<u8>)
    requires
        all_dec_digits(s),
    ensures
        dec_bytes_val(s) >= 0,
    decreases s.len(),
{
    if s.len() > 0 {
        assert(all_dec_digits(s.drop_last())) by {
            assert(forall|i: int| 0 <= i < s.len() - 1 ==> s.drop_last()[i] == s[i]);
        }
        lemma_dec_bytes_nonneg(s.drop_last());
        assert(dec_bytes_val(s.drop_last()) * 10 >= 0) by (nonlinear_arith)
            requires
                dec_bytes_val(s.drop_last()) >= 0,
        ;
    }
}

/// The decimal digit bytes of `n`, most significant first.
pub open spec fn spec_dec_bytes(n: int) -> Seq<u8>
    decreases n,
{
    if n < 10 {
        seq![(0x30 + (if n >= 0 {
            n
        } else {
            0
        })) as u8]
    } else {
        spec_dec_bytes(n / 10).push((0x30 + n % 10) as u8)
    }
}

/// The bytes a fresh lock file holds for the owning pid:
/// `pid=<digits>\n`.
pub fn lock_file_contents(pid: u32) -> (r: Vec<u8>)
    ensures
        r@ == seq![0x70u8, 0x69u8, 0x64u8, 0x3du8] + spec_dec_bytes(pid as int) + seq![0x0au8],
{
    let mut out: Vec<u8> = Vec::new();
    out.push(0x70);
    out.push(0x69);
    out.push(0x64);
    out.push(0x3d);
    let ghost head = out@;
    proof {
        assert(head =~= seq![0x70u8, 0x69u8, 0x64u8, 0x3du8]);
    }
    let mut digits: Vec<u8> = Vec::new();
    let mut m: u64 = pid as u64;
    loop
        invariant_except_break
            spec_dec_bytes(pid as int) == (if digits@.len() == 0 {
                spec_dec_bytes(m as int)
            } else {
                spec_dec_bytes(m as int).push(digits@.last()).add(
                    rev_tail(digits@),
                )
            }),
            m <= pid,
        ensures
            spec_dec_bytes(pid as int) == rev_all(digits@),
            digits@.len() >= 1,
        decreases m,
    {
        let d: u8 = (m % 10) as u8;
        let ghost dprev = digits@;
        digits.push(0x30 + d);
        m = m / 10;
        if m == 0 {
            proof {
                lemma_rev_all(digits@, dprev, (0x30 + d) as u8, pid as int);
            }
            break ;
        }
        proof {
            lemma_rev_step(digits@, dprev, (0x30 + d) as u8, m as int, pid as int);
        }
    }
    proof {
        assert(out@ =~= head + rev_all(digits@).subrange(0, 0));
    }
    let mut k: usize = digits.len();
    while k > 0
        invariant
            0 <= k <= digits@.len(),
            spec_dec_bytes(pid as int) == rev_all(digits@),
            out@ == head + rev_all(digits@).subrange(
                0,
                digits@.len() - k,
            ),
        decreases k,
    {
        k -= 1;
        let ghost outprev = out@;
        out.push(digits[k]);
        proof {
            lemma_rev_index(digits@, k as int);
            assert(out@ =~= head + rev_all(digits@).subrange(
                0,
                digits@.len() - k,
            ));
        }
    }
    proof {
        assert(rev_all(digits@).subrange(0, digits@.len() as int) =~= rev_all(digits@));
    }
    out.push(0x0a);
    proof {
        assert(out@ =~= seq![0x70u8, 0x69u8, 0x64u8, 0x3du8] + spec_dec_bytes(pid as int) + seq![
            0x0au8,
        ]);
    }
    out
}

/// The digit bytes reversed: the wire order of a digit stack.
pub open spec fn rev_all(ds: Seq<u8>) -> Seq<u8> {
    Seq::new(ds.len(), |k: int| ds[ds.len() - 1 - k])
}

/// Everything after the top of the digit stack, reversed.
pub open spec fn rev_tail(ds: Seq<u8>) -> Seq<u8> {
    Seq::new(
        (ds.len() - 1) as nat,
        |k: int| ds[ds.len() - 2 - k],
    )
}

proof fn lemma_rev_step(ds: Seq<u8>, prev: Seq<u8>, d: u8, m: int, pid: int)
    requires
        ds == prev.push(d),
        spec_dec_bytes(pid) == (if prev.len() == 0 {
            spec_dec_bytes(m * 10 + (d - 0x30))
        } else {
            spec_dec_bytes(m * 10 + (d - 0x30)).push(prev.last()).add(rev_tail(prev))
        }),
        m >= 1,
        0x30 <= d <= 0x39,
    ensures
        spec_dec_bytes(pid) == spec_dec_bytes(m).push(ds.last()).add(rev_tail(ds)),
{
    let v = m * 10 + (d - 0x30);
    assert(v >= 10);
    assert(v / 10 == m && v % 10 == d - 0x30) by (nonlinear_arith)
        requires
            v == m * 10 + (d - 0x30),
            0 <= d - 0x30 < 10,
            m >= 0,
    ;
    assert(spec_dec_bytes(v) == spec_dec_bytes(m).push(d));
    if prev.len() == 0 {
        assert(ds.last() == d);
        assert(rev_tail(ds) =~= Seq::<u8>::empty());
        assert(spec_dec_bytes(m).push(d).add(Seq::<u8>::empty()) =~= spec_dec_bytes(m).push(d));
    } else {
        assert(ds.last() == d);
        assert(rev_tail(ds) =~= seq![prev.last()] + rev_tail(prev));
        assert(spec_dec_bytes(m).push(d).add(seq![prev.last()] + rev_tail(prev)) =~= spec_dec_bytes(
            v,
        ).push(prev.last()).add(rev_tail(prev)));
    }
}

proof fn lemma_rev_all(ds: Seq<u8>, prev: Seq<u8>, d: u8, pid: int)
    requires
        ds == prev.push(d),
        spec_dec_bytes(pid) == (if prev.len() == 0 {
            spec_dec_bytes((d - 0x30) as int)
        } else {
            spec_dec_bytes((d - 0x30) as int).push(prev.last()).add(rev_tail(prev))
        }),
        0x30 <= d <= 0x39,
    ensures
        spec_dec_bytes(pid) == rev_all(ds),
{
    assert(spec_dec_bytes((d - 0x30) as int) =~= seq![d]);
    if prev.len() == 0 {
        assert(rev_all(ds) =~= seq![d]);
    } else {
        assert(rev_all(ds) =~= seq![d].push(prev.last()).add(rev_tail(prev)));
    }
}

proof fn lemma_rev_index(ds: Seq<u8>, k: int)
    requires
        0 <= k < ds.len(),
    ensures
        rev_all(ds)[ds.len() - 1 - k] == ds[k],
{
}

/// Whether an existing lock is stale and may be removed: its pid parsed,
/// the `/proc` filesystem is available to ask, and no process with that
/// pid exists there.  An unreadable or unparseable lock file, or a machine
/// without `/proc`, is never treated as stale.
pub fn lock_is_stale(parsed_pid: Option<u32>, proc_available: bool, pid_dir_exists: bool) -> (r:
    bool)
    ensures
        r == (parsed_pid is Some && proc_available && !pid_dir_exists),
{
    parsed_pid.is_some() && proc_available && !pid_dir_exists
}

} // verus!
