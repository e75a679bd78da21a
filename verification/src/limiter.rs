//! A sliding-window limit on requests for a code, and the single code that a
//! small server keeps.

use vstd::prelude::*;
use vstd::string::StringExecFns;
use crate::text::{decimal_digits, decimal_text};

verus! {

/// Seconds for which a request counts against its sender.
pub const WINDOW: u64 = 300;

/// The number of requests that count at which a further one is refused.
pub const LIMIT: usize = 5;

/// Seconds after which a code is forgotten.
pub const CODE_LIFETIME: u64 = 180;

/// The number of digits of a code as it is mailed.
pub const CODE_WIDTH: usize = 6;

/// Whether a request made at `time` still counts at `now`: it is no more
/// than `WINDOW` seconds old.
pub open spec fn counts(time: u64, now: u64) -> bool {
    now < time || now - time <= WINDOW
}

/// Whether a request still counts at `now`, as a predicate on its time.
pub open spec fn counting(now: u64) -> spec_fn(u64) -> bool {
    |time: u64| counts(time, now)
}

/// The requests of `log` that still count at `now`, in order.
pub open spec fn recent(log: Seq<u64>, now: u64) -> Seq<u64> {
    log.filter(counting(now))
}

/// The seconds that a sender whose oldest counting request was made at
/// `earliest` has to wait at `now`.
pub open spec fn cooldown(earliest: u64, now: u64) -> u16 {
    if now < earliest {
        WINDOW as u16
    } else {
        (WINDOW - (now - earliest)) as u16
    }
}

/// Decides on a request for a code made at `now` by a sender with the
/// request log `log`.  Requests that no longer count leave the log.  If
/// `LIMIT` or more are left, the request is refused, with the seconds to
/// wait; otherwise it is allowed, and logged.
pub fn allow_request(log: &mut Vec<u64>, now: u64) -> (refused: Option<u16>)
    ensures
        recent(old(log)@, now).len() >= LIMIT ==> refused == Some(
            cooldown(recent(old(log)@, now)[0], now),
        ) && final(log)@ == recent(old(log)@, now),
        recent(old(log)@, now).len() < LIMIT ==> refused is None && final(log)@ == recent(
            old(log)@,
            now,
        ).push(now),
{
    let mut kept: Vec<u64> = Vec::new();
    let mut at: usize = 0;
    while at < log.len()
        invariant
            at <= log@.len(),
            log@ == old(log)@,
            kept@ == recent(log@.take(at as int), now),
        decreases log@.len() - at,
    {
        let time = log[at];
        proof {
            let head = log@.take(at as int);
            assert(log@.take(at + 1) =~= head.push(time));
            head.lemma_filter_push(time, counting(now));
        }
        if now < time || now - time <= WINDOW {
            kept.push(time);
        }
        at = at + 1;
    }
    assert(log@.take(at as int) =~= log@);
    let refused = if kept.len() >= LIMIT {
        let earliest = kept[0];
        proof {
            old(log)@.lemma_filter_pred(counting(now), 0);
            assert(counts(earliest, now));
        }
        let elapsed = now.saturating_sub(earliest) as u16;
        Some(300u16.saturating_sub(elapsed))
    } else {
        kept.push(now);
        None
    };
    *log = kept;
    refused
}

/// `code` written out in base ten, with zeros in front up to `CODE_WIDTH`
/// digits.
pub open spec fn padded(code: u32) -> Seq<char> {
    let digits = decimal_digits(code as nat);
    if digits.len() < CODE_WIDTH {
        Seq::new((CODE_WIDTH - digits.len()) as nat, |i: int| '0') + digits
    } else {
        digits
    }
}

/// Writes a code out as it is mailed.
pub fn six_digits(code: u32) -> (text: String)
    ensures
        text@ == padded(code),
{
    let digits = decimal_text(code as u64);
    let len = digits.as_str().unicode_len();
    let mut text = String::new();
    let mut width: usize = len;
    while width < CODE_WIDTH
        invariant
            len <= width,
            width == len || width <= CODE_WIDTH,
            len == digits@.len(),
            digits@ == decimal_digits(code as nat),
            text@ == Seq::new((width - len) as nat, |i: int| '0'),
        decreases CODE_WIDTH - width,
    {
        proof {
            reveal_strlit("0");
        }
        text.append("0");
        assert(text@ =~= Seq::new((width + 1 - len) as nat, |i: int| '0'));
        width = width + 1;
    }
    text.append(digits.as_str());
    assert(text@ =~= padded(code));
    text
}

/// What becomes of an offered code.
#[derive(Clone, Copy, Debug, PartialEq, Eq, Structural)]
pub enum Verdict {
    /// The code is the one that is kept: a token is to be issued.
    Accepted,
    /// The code is not the one that is kept.
    Rejected,
    /// No code is kept: the token that was issued is to be forgotten.
    Expired,
}

/// Checks the code `offered` against the code that is kept, if one is.
pub fn verify_code(kept: Option<&String>, offered: &String) -> (verdict: Verdict)
    ensures
        verdict == match kept {
            Some(code) => if code@ == offered@ {
                Verdict::Accepted
            } else {
                Verdict::Rejected
            },
            None => Verdict::Expired,
        },
{
    match kept {
        Some(code) => {
            if *code == *offered {
                Verdict::Accepted
            } else {
                Verdict::Rejected
            }
        },
        None => Verdict::Expired,
    }
}

/// Whether a code that was issued at `issued` is forgotten at `now`.
pub fn code_is_forgotten(issued: u64, now: u64) -> (forgotten: bool)
    ensures
        forgotten == (now >= issued && now - issued >= CODE_LIFETIME),
{
    now >= issued && now - issued >= CODE_LIFETIME
}

} // verus!
