//! Reporting the progress of long-running operations.
use vstd::prelude::*;

use crate::bench::{decimal, decimal_of, digit_char};
use crate::text::{push_all, push_str, string_from};

verus! {

/// The handle of one task in progress.
pub trait TaskHandle: Send + Sync {
    fn set_message(&self, message: &str);

    fn finish_ok(&self, message: &str);

    fn finish_err(&self, message: &str);
}

/// Reports the progress of long-running operations, one task at a time.
/// The command-line tool implements it with progress bars; the library's
/// own operations report nothing. Each reporter names the kind of handle
/// its tasks get.
pub trait ProgressReporter: Send + Sync {
    type Task: TaskHandle;

    fn start_task(&self, message: &str) -> Self::Task;
}

/// A reporter that shows nothing, for tests and non-interactive use.
pub struct SilentProgress;

/// The handle of a task of [`SilentProgress`]: it shows nothing either.
pub struct SilentTaskHandle;

impl ProgressReporter for SilentProgress {
    type Task = SilentTaskHandle;

    fn start_task(&self, _message: &str) -> SilentTaskHandle {
        SilentTaskHandle
    }
}

impl TaskHandle for SilentTaskHandle {
    fn set_message(&self, _message: &str) {
    }

    fn finish_ok(&self, _message: &str) {
    }

    fn finish_err(&self, _message: &str) {
    }
}

// ---------------------------------------------------------------------------
// Download progress shown after a task's message
// ---------------------------------------------------------------------------

pub open spec fn pow2(n: nat) -> nat
    decreases n,
{
    if n == 0 {
        1
    } else {
        2 * pow2((n - 1) as nat)
    }
}

/// Number of binary digits of `n`.
pub open spec fn bit_len(n: nat) -> nat
    decreases n,
{
    if n == 0 {
        0
    } else {
        1 + bit_len(n / 2)
    }
}

/// `n` divided by `d`, rounded to the nearest integer, ties to the even one.
pub open spec fn div_round_even(n: nat, d: nat) -> nat
    recommends
        d > 0,
{
    let q = n / d;
    let r = n % d;
    if 2 * r > d || (2 * r == d && q % 2 == 1) {
        q + 1
    } else {
        q
    }
}

/// The value of `n as f64`: `n` itself below 2^53, else `n` rounded to 53
/// significant bits, ties to even.
pub open spec fn as_f64_value(n: nat) -> nat {
    if bit_len(n) <= 53 {
        n
    } else {
        let s = (bit_len(n) - 53) as nat;
        div_round_even(n, pow2(s)) * pow2(s)
    }
}

/// Tenths of a mebibyte in `n as f64 / 1048576.0`, rounded as `{:.1}`
/// formatting rounds: to the nearest, ties to even.
pub open spec fn mib_tenths(n: nat) -> nat {
    div_round_even(as_f64_value(n) * 10, pow2(20))
}

/// `{:.1}` of `n as f64 / 1048576.0`.
pub open spec fn mib_text(n: nat) -> Seq<char> {
    decimal(mib_tenths(n) / 10) + seq!['.', digit_char(mib_tenths(n) % 10)]
}

/// The percentage shown: the one given, else the share of the total that
/// arrived (at most 100) when the total is known and not zero.
pub open spec fn shown_pct(bytes: u64, total: Option<u64>, pct: Option<u8>) -> Option<nat> {
    match pct {
        Some(p) => Some(p as nat),
        None => match total {
            Some(t) => if t > 0 {
                let x = (bytes * 100) / (t as int);
                Some(if x < 100 { x as nat } else { 100 })
            } else {
                None
            },
            None => None,
        },
    }
}

/// The amount shown: both sizes when the total is known, else what arrived
/// so far when anything did.
pub open spec fn bytes_text(bytes: u64, total: Option<u64>) -> Seq<char> {
    match total {
        Some(t) => mib_text(bytes as nat) + " MB / "@ + mib_text(t as nat) + " MB"@,
        None => if bytes > 0 {
            mib_text(bytes as nat) + " MB Received"@
        } else {
            Seq::empty()
        },
    }
}

/// The progress shown after a task's message, in parentheses; empty when
/// there is nothing to show.
pub open spec fn spec_progress_suffix(bytes: u64, total: Option<u64>, pct: Option<u8>) -> Seq<char> {
    let b = bytes_text(bytes, total);
    match shown_pct(bytes, total, pct) {
        Some(p) => if b.len() > 0 {
            "("@ + decimal(p) + "% \u{b7} "@ + b + ")"@
        } else {
            "("@ + decimal(p) + "%)"@
        },
        None => if b.len() > 0 {
            "("@ + b + ")"@
        } else {
            Seq::empty()
        },
    }
}

fn pow2_of(n: u32) -> (r: u128)
    requires
        n <= 11,
    ensures
        r == pow2(n as nat),
        r <= 2048,
    decreases n,
{
    proof {
        lemma_pow2_mono(n as nat, 11);
        assert(pow2(11) == 2048) by {
            reveal_with_fuel(pow2, 12);
        }
    }
    if n == 0 {
        1
    } else {
        let p = pow2_of(n - 1);
        2 * p
    }
}

proof fn lemma_pow2_pos(n: nat)
    ensures
        pow2(n) >= 1,
    decreases n,
{
    if n > 0 {
        lemma_pow2_pos((n - 1) as nat);
    }
}

proof fn lemma_pow2_mono(a: nat, b: nat)
    requires
        a <= b,
    ensures
        pow2(a) <= pow2(b),
    decreases b - a,
{
    lemma_pow2_pos(a);
    if a < b {
        lemma_pow2_mono(a, (b - 1) as nat);
    }
}

proof fn lemma_bit_len_bound(n: nat, k: nat)
    requires
        n < pow2(k),
    ensures
        bit_len(n) <= k,
    decreases n,
{
    if n > 0 {
        assert(k > 0);
        lemma_bit_len_bound(n / 2, (k - 1) as nat);
    }
}

proof fn lemma_bit_len_lower(n: nat)
    requires
        n > 0,
    ensures
        n >= pow2((bit_len(n) - 1) as nat),
    decreases n,
{
    if n / 2 > 0 {
        lemma_bit_len_lower(n / 2);
        let b = bit_len(n / 2);
        assert(bit_len(n) == 1 + b);
        assert(b >= 1);
        assert(pow2(b) == 2 * pow2((b - 1) as nat));
        assert(n >= 2 * (n / 2));
    } else {
        assert(n == 1);
        assert(bit_len(n) == 1 + bit_len(0));
    }
}

fn bit_len_of(n: u64) -> (r: u32)
    ensures
        r == bit_len(n as nat),
        r <= 64,
{
    let mut m = n;
    let mut k: u32 = 0;
    assert(pow2(0) == 1);
    while m > 0
        invariant
            k + bit_len(m as nat) == bit_len(n as nat),
            k <= 64,
            m as nat * pow2(k as nat) <= n as nat,
            m as nat <= n as nat,
        decreases m,
    {
        proof {
            lemma_pow2_pos(k as nat);
            assert(m as nat * pow2(k as nat) >= pow2(k as nat)) by (nonlinear_arith)
                requires
                    m >= 1,
                    pow2(k as nat) >= 1,
            ;
            assert(pow2(k as nat) <= 0xffff_ffff_ffff_ffff);
            if k >= 64 {
                lemma_pow2_mono(64, k as nat);
                assert(pow2(64) == 0x1_0000_0000_0000_0000) by {
                    reveal_with_fuel(pow2, 65);
                }
            }
            assert((m / 2) as nat * pow2((k + 1) as nat) <= m as nat * pow2(k as nat)) by (nonlinear_arith)
                requires
                    pow2((k + 1) as nat) == 2 * pow2(k as nat),
            ;
        }
        m = m / 2;
        k = k + 1;
    }
    k
}

fn div_round_even_of(n: u128, d: u128) -> (r: u128)
    requires
        d > 0,
        n < 0x1_0000_0000_0000_0000_0000_0000,
    ensures
        r == div_round_even(n as nat, d as nat),
{
    let q = n / d;
    let rem = n % d;
    if rem > d - rem || (rem == d - rem && q % 2 == 1) {
        q + 1
    } else {
        q
    }
}

fn mib_tenths_of(n: u64) -> (r: u64)
    ensures
        r == mib_tenths(n as nat),
{
    let bl = bit_len_of(n);
    let v: u128 = if bl <= 53 {
        n as u128
    } else {
        assert(bl <= 64);
        let s = bl - 53;
        let p = pow2_of(s);
        proof {
            lemma_pow2_mono(s as nat, 11);
            assert(pow2(11) == 2048) by {
                reveal_with_fuel(pow2, 12);
            }
        }
        let q = div_round_even_of(n as u128, p);
        proof {
            lemma_pow2_pos(s as nat);
            assert(q <= n as nat / p as nat + 1);
            assert((n as nat / p as nat + 1) * p as nat <= n as nat + p as nat) by (nonlinear_arith)
                requires
                    p >= 1,
            ;
            assert(q * p <= (n as nat / p as nat + 1) * p as nat) by (nonlinear_arith)
                requires
                    q <= n as nat / p as nat + 1,
            ;
        }
        q * p
    };
    assert(v == as_f64_value(n as nat));
    proof {
        assert(pow2(20) == 1048576) by {
            reveal_with_fuel(pow2, 21);
        }
        assert(v <= 0x1_0000_0000_0000_0000 + 2048);
    }
    let t = div_round_even_of(v * 10, 1048576);
    proof {
        assert(t <= v * 10 / 1048576 + 1);
    }
    t as u64
}

fn push_mib(out: &mut Vec<char>, n: u64)
    ensures
        final(out)@ == old(out)@ + mib_text(n as nat),
{
    let t = mib_tenths_of(n);
    let whole = decimal_of(t / 10);
    push_all(out, &whole);
    out.push('.');
    let d = decimal_of(t % 10);
    assert(d@ == seq![digit_char((t % 10) as nat)]);
    push_all(out, &d);
    assert(final(out)@ =~= old(out)@ + mib_text(n as nat));
}

/// The progress shown after a task's message: `(45% · 5.0 MB Received)`,
/// `(52% · 5.0 MB / 9.5 MB)`, `(30%)`, or nothing. Sizes are in
/// mebibytes with one decimal; without a given percentage, the share of a
/// known, non-zero total is shown.
pub fn progress_suffix(bytes: u64, total_bytes: Option<u64>, pct: Option<u8>) -> (r: String)
    requires
        (pct is None && (total_bytes matches Some(t) && t > 0)) ==> bytes * 100 <= u64::MAX,
    ensures
        r@ == spec_progress_suffix(bytes, total_bytes, pct),
{
    let shown: Option<u64> = match pct {
        Some(p) => Some(p as u64),
        None => match total_bytes {
            Some(t) => if t > 0 {
                let x = bytes * 100 / t;
                Some(if x < 100 { x } else { 100 })
            } else {
                None
            },
            None => None,
        },
    };
    let mut b: Vec<char> = Vec::new();
    match total_bytes {
        Some(t) => {
            push_mib(&mut b, bytes);
            push_str(&mut b, " MB / ");
            push_mib(&mut b, t);
            push_str(&mut b, " MB");
        },
        None => {
            if bytes > 0 {
                push_mib(&mut b, bytes);
                push_str(&mut b, " MB Received");
            }
        },
    }
    assert(b@ =~= bytes_text(bytes, total_bytes));
    assert(match shown {
        Some(x) => shown_pct(bytes, total_bytes, pct) == Some(x as nat),
        None => shown_pct(bytes, total_bytes, pct) is None,
    });
    let mut out: Vec<char> = Vec::new();
    match shown {
        Some(p) => {
            push_str(&mut out, "(");
            let d = decimal_of(p);
            push_all(&mut out, &d);
            if b.len() > 0 {
                push_str(&mut out, "% \u{b7} ");
                push_all(&mut out, &b);
                push_str(&mut out, ")");
            } else {
                push_str(&mut out, "%)");
            }
        },
        None => {
            if b.len() > 0 {
                push_str(&mut out, "(");
                push_all(&mut out, &b);
                push_str(&mut out, ")");
            }
        },
    }
    let r = string_from(&out);
    assert(r@ =~= spec_progress_suffix(bytes, total_bytes, pct));
    r
}

/// A task's message with its progress after it, when there is any.
pub fn progress_message(base: &str, suffix: &String) -> (r: String)
    ensures
        r@ == if suffix@.len() == 0 {
            base@
        } else {
            base@ + seq![' '] + suffix@
        },
{
    let mut out: Vec<char> = crate::text::chars_of(base);
    if suffix.as_str().unicode_len() > 0 {
        out.push(' ');
        push_str(&mut out, suffix.as_str());
    }
    string_from(&out)
}

} // verus!
