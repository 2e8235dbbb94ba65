//! Compact share durations like `3d`, `12h`, `30m`, `90s`: how long a share's
//! link stays valid.

use vstd::prelude::*;

use crate::text::{
    chars_of, debug_quoted, decimal, decimal_text, digits_value, is_digit, lemma_decimal_shape,
    lemma_trimmed_tight, quote, read_digits, trim, trimmed,
};

verus! {

/// A span of time: whole seconds, and the nanoseconds on top.
#[derive(Debug, Clone, Copy, PartialEq, Eq, Structural)]
pub struct Duration {
    pub secs: u64,
    pub nanos: u32,
}

impl Duration {
    /// So many seconds.
    pub fn from_secs(secs: u64) -> (r: Duration)
        ensures
            r == (Duration { secs, nanos: 0 }),
    {
        Duration { secs, nanos: 0 }
    }

    /// The whole seconds in it.
    pub fn as_secs(&self) -> (r: u64)
        ensures
            r == self.secs,
    {
        self.secs
    }
}

/// The ceiling of a presigned URL, in seconds: it cannot outlive its signing
/// credential, and that is seven days.
pub const PRESIGN_MAX: u64 = 604_800;

/// What is wrong with the text of a duration.
#[derive(Debug, Clone, Copy, PartialEq, Eq, Structural)]
pub enum DurationError {
    /// It does not start with a number.
    NeedsNumber,
    /// The number, or the seconds that it stands for, do not fit.
    OutOfRange,
    /// The number is zero.
    Zero,
    /// Nothing follows the number.
    NeedsUnit,
    /// What follows the number is no unit.
    UnknownUnit,
}

// ── reading ───────────────────────────────────────────────────────────────

/// How many digits a text starts with.
pub open spec fn leading_digits(s: Seq<char>) -> nat
    decreases s.len(),
{
    if s.len() == 0 || !is_digit(s[0]) {
        0
    } else {
        1 + leading_digits(s.skip(1))
    }
}

/// The seconds in a unit.
pub open spec fn unit_secs(unit: Seq<char>) -> Option<nat> {
    if unit == "d"@ {
        Some(86_400)
    } else if unit == "h"@ {
        Some(3_600)
    } else if unit == "m"@ {
        Some(60)
    } else if unit == "s"@ {
        Some(1)
    } else {
        None
    }
}

/// The number and the unit of a duration's text.
pub open spec fn split(s: Seq<char>) -> (Seq<char>, Seq<char>) {
    let t = trimmed(s);
    let k = leading_digits(t) as int;
    (t.take(k), t.skip(k))
}

/// The seconds that a duration's text writes: a positive number and a unit.
pub open spec fn secs_written(s: Seq<char>) -> Result<nat, DurationError> {
    let (number, unit) = split(s);
    let n = digits_value(number);
    if number.len() == 0 {
        Err(DurationError::NeedsNumber)
    } else if n > u64::MAX {
        Err(DurationError::OutOfRange)
    } else if n == 0 {
        Err(DurationError::Zero)
    } else {
        match unit_secs(unit) {
            Some(secs) => if n * secs > u64::MAX {
                Err(DurationError::OutOfRange)
            } else {
                Ok(n * secs)
            },
            None => if unit.len() == 0 {
                Err(DurationError::NeedsUnit)
            } else {
                Err(DurationError::UnknownUnit)
            },
        }
    }
}

proof fn lemma_leading_digits(s: Seq<char>, k: int)
    requires
        0 <= k <= s.len(),
        forall|i: int| 0 <= i < k ==> is_digit(#[trigger] s[i]),
        k < s.len() ==> !is_digit(s[k]),
    ensures
        leading_digits(s) == k,
    decreases k,
{
    if k > 0 {
        assert(is_digit(s[0]));
        assert forall|i: int| 0 <= i < k - 1 implies is_digit(#[trigger] s.skip(1)[i]) by {
            assert(s.skip(1)[i] == s[i + 1]);
        }
        lemma_leading_digits(s.skip(1), k - 1);
    }
}

/// The parts of a duration's text: the number's digits, the unit, and how many
/// seconds that has where it is one.
struct Parts {
    number: Vec<char>,
    unit: String,
    secs: Option<u64>,
}

fn parts(s: &str) -> (r: Parts)
    ensures
        r.number@ == split(s@).0,
        forall|i: int| 0 <= i < r.number.len() ==> is_digit(#[trigger] r.number[i]),
        match r.secs {
            Some(n) => unit_secs(split(s@).1) == Some(n as nat),
            None => unit_secs(split(s@).1) is None,
        },
        r.secs is Some ==> r.secs->0 <= 86_400,
        r.unit@ == split(s@).1,
{
    let t = trim(s);
    let chars = chars_of(t);
    let mut number: Vec<char> = Vec::new();
    let mut k: usize = 0;
    while k < chars.len() && '0' <= chars[k] && chars[k] <= '9'
        invariant
            k <= chars.len(),
            number@ == chars@.take(k as int),
            forall|i: int| 0 <= i < k ==> is_digit(#[trigger] chars[i]),
        decreases chars.len() - k,
    {
        number.push(chars[k]);
        assert(number@ =~= chars@.take(k + 1));
        k += 1;
    }
    proof {
        lemma_leading_digits(t@, k as int);
        assert forall|i: int| 0 <= i < number.len() implies is_digit(#[trigger] number[i]) by {
            assert(number[i] == chars[i]);
        }
    }
    let unit = t.substring_char(k, chars.len());
    assert(unit@ =~= split(s@).1);
    let unit_text = unit.to_string();
    let secs: Option<u64> = if unit_text == "d".to_string() {
        Some(86_400)
    } else if unit_text == "h".to_string() {
        Some(3_600)
    } else if unit_text == "m".to_string() {
        Some(60)
    } else if unit_text == "s".to_string() {
        Some(1)
    } else {
        None
    };
    Parts { number, unit: unit_text, secs }
}

/// Reads `<n><unit>`, where the unit is `d`, `h`, `m` or `s` and `n` is positive.
pub fn parse(s: &str) -> (r: Result<Duration, DurationError>)
    ensures
        match r {
            Ok(d) => d.nanos == 0 && secs_written(s@) == Ok::<nat, DurationError>(d.secs as nat),
            Err(e) => secs_written(s@) == Err::<nat, DurationError>(e),
        },
{
    let p = parts(s);
    if p.number.len() == 0 {
        return Err(DurationError::NeedsNumber);
    }
    let n = match read_digits(&p.number) {
        Some(n) => n,
        None => return Err(DurationError::OutOfRange),
    };
    if n == 0 {
        return Err(DurationError::Zero);
    }
    match p.secs {
        Some(secs) => {
            match n.checked_mul(secs) {
                Some(all) => Ok(Duration::from_secs(all)),
                None => Err(DurationError::OutOfRange),
            }
        },
        None => if p.unit.as_str().is_empty() {
            Err(DurationError::NeedsUnit)
        } else {
            Err(DurationError::UnknownUnit)
        },
    }
}

/// What is said of a text that is no duration.
pub open spec fn complaint(e: DurationError, s: Seq<char>) -> Seq<char> {
    let got = debug_quoted(trimmed(s));
    match e {
        DurationError::NeedsNumber => "duration needs a number, e.g. 3d (got "@ + got + ")"@,
        DurationError::OutOfRange => "duration number out of range in "@ + got,
        DurationError::Zero => "duration must be greater than zero (got "@ + got + ")"@,
        DurationError::NeedsUnit => "duration needs a unit d/h/m/s, e.g. 3d (got "@ + got + ")"@,
        DurationError::UnknownUnit => "unknown duration unit "@ + debug_quoted(split(s).1)
            + " — use d, h, m, or s"@,
    }
}

impl DurationError {
    /// What to say of the text `s`, which gave this error.
    pub fn message(self, s: &str) -> (r: String)
        ensures
            r@ == complaint(self, s@),
    {
        let t = trim(s);
        match self {
            DurationError::NeedsNumber => "duration needs a number, e.g. 3d (got ".to_string().concat(
                quote(t).as_str(),
            ).concat(")"),
            DurationError::OutOfRange => "duration number out of range in ".to_string().concat(
                quote(t).as_str(),
            ),
            DurationError::Zero => "duration must be greater than zero (got ".to_string().concat(
                quote(t).as_str(),
            ).concat(")"),
            DurationError::NeedsUnit => "duration needs a unit d/h/m/s, e.g. 3d (got ".to_string().concat(
                quote(t).as_str(),
            ).concat(")"),
            DurationError::UnknownUnit => {
                let unit = parts(s).unit;
                "unknown duration unit ".to_string().concat(quote(unit.as_str()).as_str()).concat(
                    " — use d, h, m, or s",
                )
            },
        }
    }
}

// ── limits ────────────────────────────────────────────────────────────────

/// Is `d` within the ceiling of a presigned URL, seven days?
pub fn within_presign_limit(d: Duration) -> (r: bool)
    ensures
        r == (d.secs < PRESIGN_MAX || (d.secs == PRESIGN_MAX && d.nanos == 0)),
{
    d.secs < PRESIGN_MAX || (d.secs == PRESIGN_MAX && d.nanos == 0)
}

// ── writing ───────────────────────────────────────────────────────────────

/// A number of seconds in the largest unit that divides it evenly.
pub open spec fn compact(secs: nat) -> Seq<char> {
    if secs == 0 {
        "0s"@
    } else if secs % 86_400 == 0 {
        decimal(secs / 86_400) + "d"@
    } else if secs % 3_600 == 0 {
        decimal(secs / 3_600) + "h"@
    } else if secs % 60 == 0 {
        decimal(secs / 60) + "m"@
    } else {
        decimal(secs) + "s"@
    }
}

/// The compact text of a duration: `259200s` is `3d`, `5400s` is `90m`.
pub fn human(d: Duration) -> (r: String)
    ensures
        r@ == compact(d.secs as nat),
{
    let s = d.as_secs();
    if s == 0 {
        return "0s".to_string();
    }
    if s % 86_400 == 0 {
        decimal_text(s / 86_400).concat("d")
    } else if s % 3_600 == 0 {
        decimal_text(s / 3_600).concat("h")
    } else if s % 60 == 0 {
        decimal_text(s / 60).concat("m")
    } else {
        decimal_text(s).concat("s")
    }
}

/// A number and a unit in words, with the plural's `s` for any number but one.
pub open spec fn counted(n: nat, unit: Seq<char>) -> Seq<char> {
    decimal(n) + " "@ + unit + (if n == 1 {
        ""@
    } else {
        "s"@
    })
}

/// A number of seconds in words, in the largest unit that divides it evenly.
pub open spec fn in_words(secs: nat) -> Seq<char> {
    if secs % 86_400 == 0 {
        counted(secs / 86_400, "day"@)
    } else if secs % 3_600 == 0 {
        counted(secs / 3_600, "hour"@)
    } else if secs % 60 == 0 {
        counted(secs / 60, "minute"@)
    } else {
        counted(secs, "second"@)
    }
}

/// A friendly, spelled-out duration: `2 days`, `1 day`, `12 hours`.
pub fn human_long(d: Duration) -> (r: String)
    ensures
        r@ == in_words(d.secs as nat),
{
    let s = d.as_secs();
    let (n, unit): (u64, &str) = if s % 86_400 == 0 {
        (s / 86_400, "day")
    } else if s % 3_600 == 0 {
        (s / 3_600, "hour")
    } else if s % 60 == 0 {
        (s / 60, "minute")
    } else {
        (s, "second")
    };
    let plural = if n == 1 {
        ""
    } else {
        "s"
    };
    decimal_text(n).concat(" ").concat(unit).concat(plural)
}

// ── laws ──────────────────────────────────────────────────────────────────

proof fn lemma_reads_back(n: nat, unit: Seq<char>)
    requires
        0 < n <= u64::MAX,
        unit == "d"@ || unit == "h"@ || unit == "m"@ || unit == "s"@,
        n * unit_secs(unit)->0 <= u64::MAX,
    ensures
        split(decimal(n) + unit) == (decimal(n), unit),
        secs_written(decimal(n) + unit) == Ok::<nat, DurationError>(n * unit_secs(unit)->0),
{
    reveal_strlit("d");
    reveal_strlit("h");
    reveal_strlit("m");
    reveal_strlit("s");
    lemma_decimal_shape(n);
    let s = decimal(n) + unit;
    let k = decimal(n).len() as int;
    assert(is_digit(decimal(n)[0]));
    assert(s[0] == decimal(n)[0]);
    assert(s.last() == unit[0]);
    lemma_trimmed_tight(s);
    assert forall|i: int| 0 <= i < k implies is_digit(#[trigger] s[i]) by {
        assert(s[i] == decimal(n)[i]);
    }
    assert(s[k] == unit[0]);
    lemma_leading_digits(s, k);
    assert(s.take(k) =~= decimal(n));
    assert(s.skip(k) =~= unit);
}

/// What `human` writes, `parse` reads back: every positive number of seconds
/// survives the round trip.
pub proof fn law_human_reads_back(secs: nat)
    requires
        0 < secs <= u64::MAX,
    ensures
        secs_written(compact(secs)) == Ok::<nat, DurationError>(secs),
{
    reveal_strlit("d");
    reveal_strlit("h");
    reveal_strlit("m");
    reveal_strlit("s");
    assert("d"@[0] != "h"@[0] && "d"@[0] != "m"@[0] && "d"@[0] != "s"@[0]);
    assert("h"@[0] != "m"@[0] && "h"@[0] != "s"@[0] && "m"@[0] != "s"@[0]);
    assert(unit_secs("d"@) == Some(86_400nat));
    assert(unit_secs("h"@) == Some(3_600nat));
    assert(unit_secs("m"@) == Some(60nat));
    assert(unit_secs("s"@) == Some(1nat));
    if secs % 86_400 == 0 {
        assert(secs / 86_400 * 86_400 == secs);
        lemma_reads_back(secs / 86_400, "d"@);
    } else if secs % 3_600 == 0 {
        assert(secs / 3_600 * 3_600 == secs);
        lemma_reads_back(secs / 3_600, "h"@);
    } else if secs % 60 == 0 {
        assert(secs / 60 * 60 == secs);
        lemma_reads_back(secs / 60, "m"@);
    } else {
        lemma_reads_back(secs, "s"@);
    }
}

/// No duration is zero: what `parse` reads has at least a second.
pub proof fn law_durations_are_positive(s: Seq<char>)
    requires
        secs_written(s) is Ok,
    ensures
        secs_written(s)->Ok_0 > 0,
{
    let n = digits_value(split(s).0);
    let secs = unit_secs(split(s).1)->0;
    assert(n * secs > 0) by (nonlinear_arith)
        requires
            n > 0,
            secs > 0,
    ;
}

/// A duration is as long as it says: a minute has sixty seconds, an hour sixty minutes,
/// a day twenty-four hours. Spelled out it says the same, and seven days are what a
/// presigned URL has at most.
pub proof fn law_durations_are_as_long_as_they_say(n: nat)
    requires
        0 < n,
        n * (24 * 60 * 60) <= u64::MAX,
    ensures
        secs_written(decimal(n) + "s"@) == Ok::<nat, DurationError>(n),
        secs_written(decimal(n) + "m"@) == Ok::<nat, DurationError>(n * 60),
        secs_written(decimal(n) + "h"@) == Ok::<nat, DurationError>(n * (60 * 60)),
        secs_written(decimal(n) + "d"@) == Ok::<nat, DurationError>(n * (24 * 60 * 60)),
        in_words(n * (24 * 60 * 60)) == counted(n, "day"@),
        n % 24 != 0 ==> in_words(n * (60 * 60)) == counted(n, "hour"@),
        n % 60 != 0 ==> in_words(n * 60) == counted(n, "minute"@),
        n % 60 != 0 ==> in_words(n) == counted(n, "second"@),
        n * (24 * 60 * 60) <= PRESIGN_MAX <==> n <= 7,
{
    reveal_strlit("d");
    reveal_strlit("h");
    reveal_strlit("m");
    reveal_strlit("s");
    assert("d"@[0] != "h"@[0] && "d"@[0] != "m"@[0] && "d"@[0] != "s"@[0]);
    assert("h"@[0] != "m"@[0] && "h"@[0] != "s"@[0] && "m"@[0] != "s"@[0]);
    assert(unit_secs("d"@) == Some(86_400nat));
    assert(unit_secs("h"@) == Some(3_600nat));
    assert(unit_secs("m"@) == Some(60nat));
    assert(unit_secs("s"@) == Some(1nat));
    lemma_reads_back(n, "s"@);
    lemma_reads_back(n, "m"@);
    lemma_reads_back(n, "h"@);
    lemma_reads_back(n, "d"@);
    assert((n * 86_400) % 86_400 == 0 && (n * 86_400) / 86_400 == n);
    assert((n * 3_600) % 3_600 == 0 && (n * 3_600) / 3_600 == n);
    assert((n * 60) % 60 == 0 && (n * 60) / 60 == n);
    if (n * 3_600) % 86_400 == 0 {
        let k = (n * 3_600) / 86_400;
        assert(n * 3_600 == 86_400 * k);
        assert(n == 24 * k);
    }
    if (n * 60) % 3_600 == 0 {
        let k = (n * 60) / 3_600;
        assert(n == 60 * k);
    }
    if (n * 60) % 86_400 == 0 {
        let k = (n * 60) / 86_400;
        assert(n == 1_440 * k);
        assert(n == 60 * (24 * k));
    }
}

/// A presigned URL may live for seven days, and not for a moment longer.
pub proof fn law_presigned_urls_live_for_a_week(d: Duration, within: bool)
    requires
        call_ensures(within_presign_limit, (d,), within),
    ensures
        within <==> d.secs < 7 * 24 * 60 * 60 || (d.secs == 7 * 24 * 60 * 60 && d.nanos == 0),
{
}

} // verus!
