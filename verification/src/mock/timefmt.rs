//! Formatting a message time as ISO 8601 text, without a date library.

use vstd::prelude::*;

use crate::text::{dec, push_str, u64_to_dec_padded, zero_pad};

verus! {

/// The calendar date and time of day, in UTC, of a moment given in epoch milliseconds:
/// `(year, month, day, hour, minute, second)`. The date follows Howard Hinnant's
/// `civil_from_days`.
pub open spec fn civil_from_ms(ms: u64) -> (int, int, int, int, int, int) {
    let secs = ms as int / 1000;
    let days = secs / 86_400;
    let rem = secs % 86_400;
    let z = days + 719_468;
    let era = z / 146_097;
    let doe = z - era * 146_097;
    let yoe = (doe - doe / 1460 + doe / 36_524 - doe / 146_096) / 365;
    let y = yoe + era * 400;
    let doy = doe - (365 * yoe + yoe / 4 - yoe / 100);
    let mp = (5 * doy + 2) / 153;
    let d = doy - (153 * mp + 2) / 5 + 1;
    let month = if mp < 10 {
        mp + 3
    } else {
        mp - 9
    };
    let year = if month <= 2 {
        y + 1
    } else {
        y
    };
    (year, month, d, rem / 3600, (rem % 3600) / 60, rem % 60)
}

/// Two or more digits, zero-padded.
pub open spec fn pad(n: int, width: nat) -> Seq<char> {
    zero_pad(dec(n as nat), width)
}

/// `YYYY-MM-DDTHH:MM:SSZ`.
pub open spec fn ts_text(ms: u64) -> Seq<char> {
    let c = civil_from_ms(ms);
    pad(c.0, 4) + "-"@ + pad(c.1, 2) + "-"@ + pad(c.2, 2) + "T"@ + pad(c.3, 2) + ":"@ + pad(c.4, 2)
        + ":"@ + pad(c.5, 2) + "Z"@
}

proof fn lemma_year_of_era(doe: u32)
    by (bit_vector)
    requires
        doe < 146097,
    ensures
        ({
            let yoe = (doe + doe / 36524 - doe / 1460 - doe / 146096) / 365;
            &&& yoe < 400
            &&& 365 * yoe + yoe / 4 - yoe / 100 <= doe
            &&& doe - (365 * yoe + yoe / 4 - yoe / 100) <= 365
        }),
{
}

proof fn lemma_day_of_month(doy: u32)
    by (bit_vector)
    requires
        doy <= 365,
    ensures
        ({
            let mp = (5 * doy + 2) / 153;
            &&& mp <= 11
            &&& (153 * mp + 2) / 5 <= doy
            &&& doy - (153 * mp + 2) / 5 + 1 <= 31
        }),
{
}

/// The moment written as `YYYY-MM-DDTHH:MM:SSZ`.
pub fn fmt_ts(ms: u64) -> (s: String)
    ensures
        s@ == ts_text(ms),
{
    let secs = ms / 1000;
    let days = secs / 86_400;
    let rem = secs % 86_400;
    let h = rem / 3600;
    let mi = (rem % 3600) / 60;
    let sec = rem % 60;
    let z = days + 719_468;
    let era = z / 146_097;
    let doe = z - era * 146_097;
    proof {
        assert(doe < 146_097);
        lemma_year_of_era(doe as u32);
    }
    let yoe = (doe + doe / 36_524 - doe / 1460 - doe / 146_096) / 365;
    let y = yoe + era * 400;
    let doy = doe - (365 * yoe + yoe / 4 - yoe / 100);
    proof {
        lemma_day_of_month(doy as u32);
    }
    let mp = (5 * doy + 2) / 153;
    let d = doy - (153 * mp + 2) / 5 + 1;
    let month = if mp < 10 {
        mp + 3
    } else {
        mp - 9
    };
    let year = if month <= 2 {
        y + 1
    } else {
        y
    };
    proof {
        let c = civil_from_ms(ms);
        assert(c.0 == year && c.1 == month && c.2 == d);
        assert(c.3 == h && c.4 == mi && c.5 == sec);
    }
    let mut s = u64_to_dec_padded(year, 4);
    push_str(&mut s, "-");
    let t = u64_to_dec_padded(month, 2);
    push_str(&mut s, t.as_str());
    push_str(&mut s, "-");
    let t = u64_to_dec_padded(d, 2);
    push_str(&mut s, t.as_str());
    push_str(&mut s, "T");
    let t = u64_to_dec_padded(h, 2);
    push_str(&mut s, t.as_str());
    push_str(&mut s, ":");
    let t = u64_to_dec_padded(mi, 2);
    push_str(&mut s, t.as_str());
    push_str(&mut s, ":");
    let t = u64_to_dec_padded(sec, 2);
    push_str(&mut s, t.as_str());
    push_str(&mut s, "Z");
    s
}

} // verus!
