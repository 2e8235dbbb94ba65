//! The look of the command line: muted labels, bright values, a dotted progress
//! bar, and a prominent share URL. What is shown depends on the terminal: on one
//! it is styled, and else `dove share` shows just the bare URL, so that it can be
//! captured and nothing else is in the way.

use vstd::prelude::*;

use crate::double::{
    lemma_nearest_bounds, lemma_nearest_monotone, lemma_share_at_most, lemma_share_monotone,
    lemma_share_of_all, lemma_ulp, nearest, nearest_double, round_to_even, share, share_of, to_even,
    to_nearest, ulp, PRECISION,
};
use crate::search::{has_text, lemma_found_before, lemma_found_behind, stands_at};
use crate::text::{chars_of, decimal, decimal_text};

verus! {

/// Where the output goes.
#[derive(Clone, Copy, PartialEq, Eq, Structural)]
pub struct Terminal {
    /// Standard output is a terminal.
    pub tty: bool,
    /// `NO_COLOR` is set.
    pub no_color: bool,
}

impl Terminal {
    /// Output is styled: on a terminal, unless `NO_COLOR` is set.
    pub open spec fn styled(self) -> bool {
        self.tty && !self.no_color
    }

    /// Is output styled?
    pub fn colored(self) -> (r: bool)
        ensures
            r == self.styled(),
    {
        self.tty && !self.no_color
    }
}

// ── styles ────────────────────────────────────────────────────────────────

/// Text in the style of this code, where output is styled.
pub open spec fn wrapped(term: Terminal, s: Seq<char>, code: Seq<char>) -> Seq<char> {
    if term.styled() {
        "\x1b["@ + code + "m"@ + s + "\x1b[0m"@
    } else {
        s
    }
}

/// Muted text.
pub open spec fn dimmed(term: Terminal, s: Seq<char>) -> Seq<char> {
    wrapped(term, s, "2"@)
}

/// Bright text.
pub open spec fn bolded(term: Terminal, s: Seq<char>) -> Seq<char> {
    wrapped(term, s, "1"@)
}

/// Green text.
pub open spec fn greened(term: Terminal, s: Seq<char>) -> Seq<char> {
    wrapped(term, s, "32"@)
}

/// Red text.
pub open spec fn reddened(term: Terminal, s: Seq<char>) -> Seq<char> {
    wrapped(term, s, "31"@)
}

fn wrap(term: Terminal, s: &str, code: &str) -> (r: String)
    ensures
        r@ == wrapped(term, s@, code@),
{
    if term.colored() {
        "\x1b[".to_string().concat(code).concat("m").concat(s).concat("\x1b[0m")
    } else {
        s.to_string()
    }
}

/// Muted text.
pub fn dim(term: Terminal, s: &str) -> (r: String)
    ensures
        r@ == dimmed(term, s@),
{
    wrap(term, s, "2")
}

/// Bright text.
pub fn bold(term: Terminal, s: &str) -> (r: String)
    ensures
        r@ == bolded(term, s@),
{
    wrap(term, s, "1")
}

/// Green text.
pub fn green(term: Terminal, s: &str) -> (r: String)
    ensures
        r@ == greened(term, s@),
{
    wrap(term, s, "32")
}

/// Red text.
pub fn red(term: Terminal, s: &str) -> (r: String)
    ensures
        r@ == reddened(term, s@),
{
    wrap(term, s, "31")
}

// ── padding ───────────────────────────────────────────────────────────────

/// As many spaces.
pub open spec fn spaces(n: int) -> Seq<char> {
    Seq::new(
        if n > 0 {
            n as nat
        } else {
            0
        },
        |i: int| ' ',
    )
}

/// Text filled up to a width with spaces behind it.
pub open spec fn padded(s: Seq<char>, width: nat) -> Seq<char> {
    s + spaces(width - s.len())
}

/// As many spaces.
fn blanks(n: usize) -> (r: String)
    ensures
        r@ == spaces(n as int),
{
    let mut line = String::new();
    let mut i: usize = 0;
    assert(line@ =~= spaces(0));
    while i < n
        invariant
            i <= n,
            line@ == spaces(i as int),
        decreases n - i,
    {
        proof {
            reveal_strlit(" ");
            assert(spaces(i as int) + " "@ =~= spaces(i + 1));
        }
        line = line.concat(" ");
        i += 1;
    }
    line
}

/// Fills text up to a width with spaces behind it.
pub fn pad(s: &str, width: usize) -> (r: String)
    ensures
        r@ == padded(s@, width as nat),
{
    let len = chars_of(s).len();
    let missing: usize = if width > len {
        width - len
    } else {
        0
    };
    assert(spaces(missing as int) =~= spaces(width - s@.len()));
    s.to_string().concat(blanks(missing).as_str())
}

/// Fills text up to a width with spaces before it.
fn pad_left(s: &str, width: usize) -> (r: String)
    ensures
        r@ == spaces(width - s@.len()) + s@,
{
    let len = chars_of(s).len();
    let missing: usize = if width > len {
        width - len
    } else {
        0
    };
    assert(spaces(missing as int) =~= spaces(width - s@.len()));
    blanks(missing).concat(s)
}

// ── lines ─────────────────────────────────────────────────────────────────

/// A section heading: bright, with room around it.
pub fn heading(term: Terminal, s: &str) -> (r: String)
    ensures
        r@ == "\n  "@ + bolded(term, s@) + "\n\n"@,
{
    "\n  ".to_string().concat(bold(term, s).as_str()).concat("\n\n")
}

/// What `field` shows.
pub open spec fn field_line(term: Terminal, label: Seq<char>, value: Seq<char>) -> Seq<char> {
    "  "@ + dimmed(term, padded(label, 8)) + "  "@ + value + "\n"@
}

/// An aligned line: the muted, padded label, then the value.
pub fn field(term: Terminal, label: &str, value: &str) -> (r: String)
    ensures
        r@ == field_line(term, label@, value@),
{
    "  ".to_string().concat(dim(term, pad(label, 8).as_str()).as_str()).concat("  ").concat(
        value,
    ).concat("\n")
}

/// What a step shows as it begins.
pub open spec fn step_opening(term: Terminal, label: Seq<char>) -> Seq<char> {
    if term.tty {
        "  "@ + dimmed(term, padded(label, 24)) + " "@ + dimmed(term, "·"@)
    } else {
        Seq::empty()
    }
}

/// What a step shows as it ends, over the same line.
pub open spec fn step_closing(term: Terminal, label: Seq<char>, ok: bool) -> Seq<char> {
    if term.tty {
        "\r  "@ + dimmed(term, padded(label, 24)) + " "@ + (if ok {
            greened(term, "✓"@)
        } else {
            reddened(term, "✗"@)
        }) + "\n"@
    } else {
        Seq::empty()
    }
}

/// A dotted step's opening half: the muted, padded label and a midline dot, with
/// no line end. `step_end` finishes the line in place.
pub fn step_begin(term: Terminal, label: &str) -> (r: String)
    ensures
        r@ == step_opening(term, label@),
{
    if term.tty {
        "  ".to_string().concat(dim(term, pad(label, 24).as_str()).as_str()).concat(" ").concat(
            dim(term, "·").as_str(),
        )
    } else {
        String::new()
    }
}

/// Finishes a dotted step, overwriting the dot with a green ✓, or with a red ✗ on
/// failure.
pub fn step_end(term: Terminal, label: &str, ok: bool) -> (r: String)
    ensures
        r@ == step_closing(term, label@, ok),
{
    if term.tty {
        let mark = if ok {
            green(term, "✓")
        } else {
            red(term, "✗")
        };
        "\r  ".to_string().concat(dim(term, pad(label, 24).as_str()).as_str()).concat(" ").concat(
            mark.as_str(),
        ).concat("\n")
    } else {
        String::new()
    }
}

/// The end of a step that came out as `result`: what to show, and the result as
/// it is.
pub fn step<T, E>(term: Terminal, label: &str, result: Result<T, E>) -> (r: (
    String,
    Result<T, E>,
))
    ensures
        r.0@ == step_closing(term, label@, result is Ok),
        r.1 == result,
{
    let ok = result.is_ok();
    (step_end(term, label, ok), result)
}

/// What `done` shows.
pub open spec fn done_lines(term: Terminal, subject: Seq<char>, note: Seq<char>) -> Seq<char> {
    "\n  "@ + greened(term, "✓"@) + " "@ + bolded(term, subject) + "\n"@ + (if note.len() == 0 {
        Seq::empty()
    } else {
        "  "@ + dimmed(term, note) + "\n"@
    })
}

/// A final success line: a green ✓, a bright subject, and a muted note beneath
/// where there is one.
pub fn done(term: Terminal, subject: &str, note: &str) -> (r: String)
    ensures
        r@ == done_lines(term, subject@, note@),
{
    let first = "\n  ".to_string().concat(green(term, "✓").as_str()).concat(" ").concat(
        bold(term, subject).as_str(),
    ).concat("\n");
    if note.is_empty() {
        assert(done_lines(term, subject@, note@) =~= first@);
        first
    } else {
        let second = "  ".to_string().concat(dim(term, note).as_str()).concat("\n");
        first.concat(second.as_str())
    }
}

/// What `status` shows.
pub open spec fn status_line(term: Terminal, label: Seq<char>, value: Seq<char>) -> Seq<char> {
    if term.tty {
        "  "@ + dimmed(term, label) + " "@ + value + "\n"@
    } else {
        Seq::empty()
    }
}

/// A muted label and its value, on a terminal only.
pub fn status(term: Terminal, label: &str, value: &str) -> (r: String)
    ensures
        r@ == status_line(term, label@, value@),
{
    if term.tty {
        "  ".to_string().concat(dim(term, label).as_str()).concat(" ").concat(value).concat("\n")
    } else {
        String::new()
    }
}

/// The lines of a share's result. The URL's goes to standard output, the others
/// to standard error, in this order.
pub struct ShareLines {
    pub before: String,
    pub url: String,
    pub after: String,
}

/// The final share result: the URL always, so that it can be captured, and around
/// it room and a quiet line on a terminal.
pub fn share_result(term: Terminal, url: &str, meta: &str) -> (r: ShareLines)
    ensures
        term.tty ==> {
            &&& r.before@ == "\n"@
            &&& r.url@ == "  "@ + bolded(term, url@) + "\n"@
            &&& r.after@ == "  "@ + dimmed(term, meta@) + "\n"@
        },
        !term.tty ==> {
            &&& r.before@ == Seq::<char>::empty()
            &&& r.url@ == url@ + "\n"@
            &&& r.after@ == Seq::<char>::empty()
        },
{
    if term.tty {
        ShareLines {
            before: "\n".to_string(),
            url: "  ".to_string().concat(bold(term, url).as_str()).concat("\n"),
            after: "  ".to_string().concat(dim(term, meta).as_str()).concat("\n"),
        }
    } else {
        ShareLines {
            before: String::new(),
            url: url.to_string().concat("\n"),
            after: String::new(),
        }
    }
}

/// What `pin_notice` shows.
pub open spec fn pin_lines(term: Terminal, pin: Seq<char>) -> Seq<char> {
    if term.tty {
        "\n  "@ + dimmed(term, "PIN     "@) + "  "@ + bolded(term, pin) + "\n  "@ + dimmed(
            term,
            "send this out of band (text, call) — separate from the link"@,
        ) + "\n"@
    } else {
        "PIN "@ + pin + "\n"@
    }
}

/// The PIN callout after a PIN-locked share: the PIN stands out, with a reminder
/// to send it over a channel separate from the link's.
pub fn pin_notice(term: Terminal, pin: &str) -> (r: String)
    ensures
        r@ == pin_lines(term, pin@),
{
    if term.tty {
        "\n  ".to_string().concat(dim(term, "PIN     ").as_str()).concat("  ").concat(
            bold(term, pin).as_str(),
        ).concat("\n  ").concat(
            dim(term, "send this out of band (text, call) — separate from the link").as_str(),
        ).concat("\n")
    } else {
        "PIN ".to_string().concat(pin).concat("\n")
    }
}

// ── sizes ─────────────────────────────────────────────────────────────────

/// A size in words. Bytes, kilobytes and megabytes are whole, rounded half up;
/// gigabytes and terabytes carry one decimal, rounded half to even.
pub open spec fn size_text(bytes: nat) -> Seq<char> {
    if bytes < 1024 {
        decimal(bytes) + " B"@
    } else if bytes < 0x10_0000 {
        decimal(to_nearest(bytes, 1024)) + " KB"@
    } else if bytes < 0x4000_0000 {
        decimal(to_nearest(bytes, 0x10_0000)) + " MB"@
    } else if bytes < 0x100_0000_0000 {
        tenths_text(to_even(10 * nearest(bytes), 0x4000_0000)) + " GB"@
    } else {
        tenths_text(to_even(10 * nearest(bytes), 0x100_0000_0000)) + " TB"@
    }
}

/// A number of tenths with one decimal.
pub open spec fn tenths_text(n: nat) -> Seq<char> {
    decimal(n / 10) + "."@ + decimal(n % 10)
}

fn tenths(bytes: u64, unit: u128) -> (r: String)
    requires
        unit == 0x4000_0000 || unit == 0x100_0000_0000,
        unit == 0x4000_0000 ==> bytes < 0x100_0000_0000,
    ensures
        r@ == tenths_text(to_even(10 * nearest(bytes as nat), unit as nat)),
{
    let near = nearest_double(bytes as u128);
    let n = round_to_even(10 * near, unit);
    proof {
        assert(n <= (10 * near) / (unit as int) + 1);
    }
    decimal_text((n / 10) as u64).concat(".").concat(decimal_text((n % 10) as u64).as_str())
}

/// A human-readable size: `842 MB`, `1.4 GB`.
pub fn human_size(bytes: u64) -> (r: String)
    ensures
        r@ == size_text(bytes as nat),
{
    let wide: u128 = bytes as u128;
    if bytes < 1024 {
        decimal_text(bytes).concat(" B")
    } else if bytes < 0x10_0000 {
        decimal_text(((2 * wide + 1024) / 2048) as u64).concat(" KB")
    } else if bytes < 0x4000_0000 {
        decimal_text(((2 * wide + 0x10_0000) / 0x20_0000) as u64).concat(" MB")
    } else if bytes < 0x100_0000_0000 {
        tenths(bytes, 0x4000_0000).concat(" GB")
    } else {
        tenths(bytes, 0x100_0000_0000).concat(" TB")
    }
}

// ── progress ──────────────────────────────────────────────────────────────

/// How many of `dots` are filled at `done / total`, taken in doubles: all of them
/// at the total and past it, none at nothing, and no total counts as one.
pub open spec fn dots_filled(done: nat, total: nat, dots: nat) -> nat {
    let d = nearest(done);
    let t = nearest(
        if total == 0 {
            1
        } else {
            total
        },
    );
    let n = nearest(dots);
    let filled = if d >= t {
        n
    } else if d == 0 {
        0
    } else {
        share_of(d, t, n)
    };
    if filled > usize::MAX {
        usize::MAX as nat
    } else {
        filled
    }
}

proof fn lemma_nearest_positive(n: nat)
    requires
        n > 0,
    ensures
        nearest(n) > 0,
{
    lemma_nearest_bounds(n);
    lemma_ulp(n);
    assert(ulp(n) > 1 ==> n > ulp(n)) by (nonlinear_arith)
        requires
            ulp(n) > 1 ==> n >= ulp(n) * 0x10_0000_0000_0000,
    ;
}

/// How many of `dots` are filled at `done / total`.
pub fn filled_dots(done: u64, total: u64, dots: usize) -> (r: usize)
    ensures
        r == dots_filled(done as nat, total as nat, dots as nat),
        dots < PRECISION ==> r <= dots,
        done == 0 ==> r == 0,
        dots < PRECISION && done >= total && done > 0 ==> r == dots,
{
    let whole: u64 = if total == 0 {
        1
    } else {
        total
    };
    proof {
        lemma_nearest_positive(whole as nat);
        lemma_nearest_bounds(done as nat);
        lemma_nearest_bounds(dots as nat);
        if done >= whole {
            lemma_nearest_monotone(whole as nat, done as nat);
        }
    }
    let d = nearest_double(done as u128);
    let t = nearest_double(whole as u128);
    let n = nearest_double(dots as u128);
    let filled: u128 = if d >= t {
        n
    } else if d == 0 {
        0
    } else {
        proof {
            if dots < PRECISION {
                lemma_share_at_most(d as nat, t as nat, n as nat);
            }
        }
        share(d, t, n)
    };
    if filled > usize::MAX as u128 {
        usize::MAX
    } else {
        filled as usize
    }
}

/// The bar never goes back: the more is done, the more dots are filled.
pub proof fn law_bar_never_goes_back(a: nat, b: nat, total: nat, dots: nat)
    requires
        a <= b <= u64::MAX,
        total <= u64::MAX,
        dots < PRECISION,
    ensures
        dots_filled(a, total, dots) <= dots_filled(b, total, dots),
{
    let whole: nat = if total == 0 {
        1
    } else {
        total
    };
    lemma_nearest_positive(whole);
    lemma_nearest_monotone(a, b);
    lemma_nearest_bounds(dots);
    let (da, db, t) = (nearest(a), nearest(b), nearest(whole));
    if 0 < da < t {
        lemma_share_at_most(da, t, nearest(dots));
        if db < t {
            lemma_share_monotone(da, db, t, nearest(dots));
        }
    }
}

/// The percentage that `done / total` is, taken in doubles.
pub open spec fn percent(done: nat, total: nat) -> nat {
    let (d, t) = (nearest(done), nearest(total));
    let p = if d == 0 {
        0
    } else if d >= 0x10_0000_0000_0000 * t {
        u32::MAX as nat
    } else {
        share_of(d, t, 100)
    };
    if p > u32::MAX {
        u32::MAX as nat
    } else {
        p
    }
}

/// A single-line dotted progress bar, redrawn in place.
pub struct Progress {
    label: String,
    total: u64,
    dots: usize,
}

/// What a progress bar is.
pub struct ProgressView {
    pub label: Seq<char>,
    pub total: nat,
    pub dots: nat,
}

impl View for Progress {
    type V = ProgressView;

    closed spec fn view(&self) -> ProgressView {
        ProgressView { label: self.label@, total: self.total as nat, dots: self.dots as nat }
    }
}

/// The bar's first `upto` dots, the first `filled` of them bright.
pub open spec fn bar_text(term: Terminal, filled: nat, upto: nat) -> Seq<char>
    decreases upto,
{
    if upto == 0 {
        Seq::empty()
    } else {
        let i = (upto - 1) as nat;
        bar_text(term, filled, i) + (if i > 0 {
            " "@
        } else {
            Seq::empty()
        }) + (if i < filled {
            bolded(term, "•"@)
        } else {
            dimmed(term, "•"@)
        })
    }
}

impl ProgressView {
    /// The bar at `done`; nothing where there is no terminal.
    pub open spec fn drawn(self, term: Terminal, done: nat) -> Seq<char> {
        if term.tty {
            let pct = decimal(percent(done, self.total));
            "\r  "@ + dimmed(term, self.label) + " "@ + bar_text(
                term,
                dots_filled(done, self.total, self.dots),
                self.dots,
            ) + "  "@ + bolded(term, spaces(3 - pct.len()) + pct + "%"@)
        } else {
            Seq::empty()
        }
    }
}

impl Progress {
    #[verifier::type_invariant]
    spec fn wf(self) -> bool {
        self.total >= 1
    }

    /// A bar of twelve dots, and how it looks at nothing done. No total counts as
    /// one.
    pub fn new(term: Terminal, label: &str, total: u64) -> (r: (Progress, String))
        ensures
            r.0@ == (ProgressView {
                label: label@,
                total: if total == 0 {
                    1
                } else {
                    total as nat
                },
                dots: 12,
            }),
            r.1@ == r.0@.drawn(term, 0),
    {
        let bar = Progress {
            label: label.to_string(),
            total: if total == 0 {
                1
            } else {
                total
            },
            dots: 12,
        };
        let text = bar.render(term, 0);
        (bar, text)
    }

    /// How the bar looks at `done`.
    pub fn set(&self, term: Terminal, done: u64) -> (r: String)
        ensures
            r@ == self@.drawn(term, done as nat),
    {
        self.render(term, done)
    }

    /// How the bar looks at the end, with the line ended.
    pub fn finish(&self, term: Terminal) -> (r: String)
        ensures
            r@ == self@.drawn(term, self@.total) + (if term.tty {
                "\n"@
            } else {
                Seq::empty()
            }),
    {
        let last = self.render(term, self.total);
        if term.tty {
            last.concat("\n")
        } else {
            assert(last@ + Seq::<char>::empty() =~= last@);
            last
        }
    }

    fn render(&self, term: Terminal, done: u64) -> (r: String)
        ensures
            r@ == self@.drawn(term, done as nat),
    {
        if !term.tty {
            return String::new();
        }
        proof {
            use_type_invariant(self);
        }
        let filled = filled_dots(done, self.total, self.dots);
        let mut bar = String::new();
        let mut i: usize = 0;
        while i < self.dots
            invariant
                i <= self.dots,
                bar@ == bar_text(term, filled as nat, i as nat),
            decreases self.dots - i,
        {
            if i > 0 {
                bar = bar.concat(" ");
            } else {
                assert(bar@ + Seq::<char>::empty() =~= bar@);
            }
            let dot = if i < filled {
                bold(term, "•")
            } else {
                dim(term, "•")
            };
            bar = bar.concat(dot.as_str());
            i += 1;
        }
        let pct = decimal_text(percent_of(done, self.total) as u64);
        let shown = pad_left(pct.as_str(), 3).concat("%");
        "\r  ".to_string().concat(dim(term, self.label.as_str()).as_str()).concat(" ").concat(
            bar.as_str(),
        ).concat("  ").concat(bold(term, shown.as_str()).as_str())
    }
}

fn percent_of(done: u64, total: u64) -> (r: u32)
    requires
        total >= 1,
    ensures
        r == percent(done as nat, total as nat),
{
    proof {
        lemma_nearest_positive(total as nat);
    }
    let d = nearest_double(done as u128);
    let t = nearest_double(total as u128);
    let p: u128 = if d == 0 {
        0
    } else if d >= 0x10_0000_0000_0000 * t {
        u32::MAX as u128
    } else {
        share(d, t, 100)
    };
    if p > u32::MAX as u128 {
        u32::MAX
    } else {
        p as u32
    }
}

// ── laws ──────────────────────────────────────────────────────────────────

/// What is shown is styled if and only if the terminal is: styles go around the text,
/// and without them the text is as it is.
pub proof fn law_styles_leave_the_text(term: Terminal, s: Seq<char>)
    ensures
        has_text(dimmed(term, s), s),
        has_text(bolded(term, s), s),
        has_text(greened(term, s), s),
        has_text(reddened(term, s), s),
        !term.tty || term.no_color ==> dimmed(term, s) == s && bolded(term, s) == s && greened(
            term,
            s,
        ) == s && reddened(term, s) == s,
        term.tty && !term.no_color ==> dimmed(term, s) != s && bolded(term, s) != s,
{
    lemma_wrapped(term, s, "2"@);
    lemma_wrapped(term, s, "1"@);
    lemma_wrapped(term, s, "32"@);
    lemma_wrapped(term, s, "31"@);
}

proof fn lemma_wrapped(term: Terminal, s: Seq<char>, code: Seq<char>)
    ensures
        has_text(wrapped(term, s, code), s),
        term.styled() ==> wrapped(term, s, code) != s,
{
    reveal_strlit("\x1b[");
    let shown = wrapped(term, s, code);
    let at: int = if term.styled() {
        ("\x1b["@ + code + "m"@).len() as int
    } else {
        0
    };
    assert(shown.subrange(at, at + s.len()) =~= s);
    assert(stands_at(shown, s, at));
}

/// What there is to tell is told: the PIN, also where the output is captured; the value of
/// a field and of a status; the subject of what is done, and the note on it.
pub proof fn law_what_is_told_is_shown(
    term: Terminal,
    label: Seq<char>,
    value: Seq<char>,
    note: Seq<char>,
)
    ensures
        has_text(pin_lines(term, value), value),
        has_text(field_line(term, label, value), value),
        term.tty ==> has_text(status_line(term, label, value), value),
        !term.tty ==> status_line(term, label, value).len() == 0,
        has_text(done_lines(term, value, note), value),
        note.len() > 0 ==> has_text(done_lines(term, value, note), note),
{
    law_styles_leave_the_text(term, value);
    law_styles_leave_the_text(term, note);
    let bright = bolded(term, value);
    if term.tty {
        let head = "\n  "@ + dimmed(term, "PIN     "@) + "  "@;
        let hint = dimmed(term, "send this out of band (text, call) — separate from the link"@);
        lemma_found_within(head, bright, "\n  "@, hint, "\n"@, value);
        let front = "  "@ + dimmed(term, label) + " "@;
        lemma_itself(value);
        lemma_found_behind(value, value, front);
        lemma_found_before(front + value, value, "\n"@);
    } else {
        lemma_itself(value);
        lemma_found_behind(value, value, "PIN "@);
        lemma_found_before("PIN "@ + value, value, "\n"@);
    }
    let front = "  "@ + dimmed(term, padded(label, 8)) + "  "@;
    lemma_itself(value);
    lemma_found_behind(value, value, front);
    lemma_found_before(front + value, value, "\n"@);
    let tick = "\n  "@ + greened(term, "✓"@) + " "@;
    let below = if note.len() == 0 {
        Seq::empty()
    } else {
        "  "@ + dimmed(term, note) + "\n"@
    };
    lemma_found_behind(bright, value, tick);
    lemma_found_before(tick + bright, value, "\n"@);
    lemma_found_before(tick + bright + "\n"@, value, below);
    if note.len() > 0 {
        lemma_found_behind(dimmed(term, note), note, "  "@);
        lemma_found_before("  "@ + dimmed(term, note), note, "\n"@);
        lemma_found_behind(below, note, tick + bright + "\n"@);
    }
}

proof fn lemma_itself(s: Seq<char>)
    ensures
        has_text(s, s),
{
    assert(s.subrange(0, s.len() as int) =~= s);
    assert(stands_at(s, s, 0));
}

proof fn lemma_found_within(
    head: Seq<char>,
    held: Seq<char>,
    a: Seq<char>,
    b: Seq<char>,
    c: Seq<char>,
    needle: Seq<char>,
)
    requires
        has_text(held, needle),
    ensures
        has_text(head + held + a + b + c, needle),
{
    lemma_found_behind(held, needle, head);
    lemma_found_before(head + held, needle, a);
    lemma_found_before(head + held + a, needle, b);
    lemma_found_before(head + held + a + b, needle, c);
}

/// A size is told in the unit that it is a number of: 1024 bytes to a kilobyte, as many
/// of those to a megabyte, and so on.
pub proof fn law_sizes_are_told_in_their_units(k: nat)
    requires
        0 < k < 1024,
    ensures
        size_text(k) == decimal(k) + " B"@,
        size_text(k * 1024) == decimal(k) + " KB"@,
        size_text(k * (1024 * 1024)) == decimal(k) + " MB"@,
        size_text(k * (1024 * 1024 * 1024)) == decimal(k) + "."@ + decimal(0) + " GB"@,
        size_text(k * (1024 * 1024 * 1024 * 1024)) == decimal(k) + "."@ + decimal(0) + " TB"@,
{
    assert((2 * (k * 1024) + 1024) / (2 * 1024nat) == k) by (nonlinear_arith);
    assert((2 * (k * 0x10_0000) + 0x10_0000) / (2 * 0x10_0000nat) == k) by (nonlinear_arith);
    lemma_nearest_bounds(k * 0x4000_0000);
    lemma_nearest_bounds(k * 0x100_0000_0000);
    assert((10 * (k * 0x4000_0000)) / 0x4000_0000 == 10 * k);
    assert((10 * (k * 0x4000_0000)) % 0x4000_0000 == 0);
    assert((10 * (k * 0x100_0000_0000)) / 0x100_0000_0000 == 10 * k);
    assert((10 * (k * 0x100_0000_0000)) % 0x100_0000_0000 == 0);
}

/// Progress starts with nothing and ends with all of it: no dots and no percent at
/// first, every dot and a hundred percent at the total.
pub proof fn law_progress_ends_at_the_total(total: nat, dots: nat)
    requires
        0 < total <= u64::MAX,
        dots <= u32::MAX,
    ensures
        dots_filled(0, total, dots) == 0,
        dots_filled(total, total, dots) == dots,
        percent(0, total) == 0,
        percent(total, total) == 100,
{
    lemma_nearest_positive(total);
    lemma_nearest_bounds(0);
    lemma_nearest_bounds(dots);
    lemma_share_of_all(nearest(total), 100);
    assert(nearest(total) < 0x10_0000_0000_0000 * nearest(total));
}

/// The URL of a share can be captured: it stands whole on a line of its own, and where
/// the output is no terminal there is nothing else. On one, the note on it is shown too.
pub proof fn law_the_url_can_be_captured(term: Terminal, url: &str, meta: &str, shown: ShareLines)
    requires
        call_ensures(share_result, (term, url, meta), shown),
    ensures
        has_text(shown.url@, url@),
        !term.tty ==> shown.url@ == url@ + "\n"@ && shown.before@.len() == 0
            && shown.after@.len() == 0,
        term.tty ==> has_text(shown.after@, meta@),
{
    law_styles_leave_the_text(term, url@);
    law_styles_leave_the_text(term, meta@);
    lemma_itself(url@);
    if term.tty {
        lemma_found_behind(bolded(term, url@), url@, "  "@);
        lemma_found_before("  "@ + bolded(term, url@), url@, "\n"@);
        lemma_found_behind(dimmed(term, meta@), meta@, "  "@);
        lemma_found_before("  "@ + dimmed(term, meta@), meta@, "\n"@);
    } else {
        lemma_found_before(url@, url@, "\n"@);
    }
}

} // verus!
