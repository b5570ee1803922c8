//! The size of the output as it is asked for: `WIDTHxHEIGHT`, `term` or
//! `original`.
//!
//! The text is read in two steps. Parsing turns it into a [`TargetSize`];
//! resolution turns that into the box the image has to fit, asking the
//! terminal for its dimensions where the size says so.

use crate::error::ConfigError;
use crate::terminal::terminal_dimensions;
use crate::text::{chars_of, spells};
use vstd::prelude::*;

verus! {

/// What the output dimensions are taken from.
#[derive(Clone, Copy, Debug, PartialEq, Eq, Structural)]
pub enum TargetSize {
    /// Fit the image into a box of this width and height.
    Explicit(u32, u32),
    /// Fit the image into the terminal, if there is one.
    FitTerminal,
    /// Keep the dimensions of the image.
    NoResize,
}

/// `c` is one of the ASCII digits `0` to `9`.
pub open spec fn is_digit(c: char) -> bool {
    '0' <= c && c <= '9'
}

/// `c` separates width from height: `x` in either case.
pub open spec fn is_separator(c: char) -> bool {
    c == 'x' || c == 'X'
}

/// Every character of `s` is a digit.
pub open spec fn all_digits(s: Seq<char>) -> bool {
    forall|i: int| 0 <= i < s.len() ==> is_digit(#[trigger] s[i])
}

/// The number that the digits `s` denote in base ten; leading zeros count for nothing.
pub open spec fn decimal_value(s: Seq<char>) -> nat
    decreases s.len(),
{
    if s.len() == 0 {
        0
    } else {
        10 * decimal_value(s.drop_last()) + (s.last() as int - '0' as int) as nat
    }
}

/// `s` is one or more digits, a separator at index `k`, and one or more digits.
pub open spec fn splits_at(s: Seq<char>, k: int) -> bool {
    &&& 0 < k < s.len() - 1
    &&& is_separator(s[k])
    &&& all_digits(s.subrange(0, k))
    &&& all_digits(s.subrange(k + 1, s.len() as int))
}

/// The width and height that `s` spells out, where the whole of `s` has the
/// form `WIDTHxHEIGHT`. The numbers are not bounded here.
pub open spec fn explicit_form(s: Seq<char>) -> Option<(nat, nat)> {
    if exists|k: int| splits_at(s, k) {
        let k = choose|k: int| splits_at(s, k);
        Some((decimal_value(s.subrange(0, k)), decimal_value(s.subrange(k + 1, s.len() as int))))
    } else {
        None
    }
}

/// The number `n` as a dimension holds it: itself where it fits in 32 bits,
/// and `u32::MAX` where it is larger.
pub open spec fn held(n: nat) -> u32 {
    if n <= u32::MAX {
        n as u32
    } else {
        u32::MAX
    }
}

/// The explicit dimensions of `s`: the numbers of [`explicit_form`], each as
/// a dimension holds it. A number that does not fit in 32 bits is held at
/// `u32::MAX`.
pub open spec fn explicit_size(s: Seq<char>) -> Option<(u32, u32)> {
    match explicit_form(s) {
        Some((w, h)) => Some((held(w), held(h))),
        None => None,
    }
}

/// The size that a text stands for. Every text of the form `WIDTHxHEIGHT`
/// stands for explicit dimensions, whatever its numbers are; then comes the
/// word `original`; `term` and every other text ask for the terminal.
pub open spec fn parsed_size(s: Seq<char>) -> TargetSize {
    match explicit_size(s) {
        Some((w, h)) => TargetSize::Explicit(w, h),
        None => if s == "original"@ {
            TargetSize::NoResize
        } else {
            TargetSize::FitTerminal
        },
    }
}

/// The texts that are accepted as a size: those of the form `WIDTHxHEIGHT`,
/// `term` and `original`.
pub open spec fn valid_size(s: Seq<char>) -> bool {
    explicit_form(s) is Some || s == "term"@ || s == "original"@
}

impl TargetSize {
    /// The box to fit the image into, given what the terminal reported:
    /// `None` where the image keeps its dimensions.
    pub open spec fn resolved(self, terminal: Option<(u16, u16)>) -> Option<(u32, u32)> {
        match self {
            TargetSize::Explicit(w, h) => Some((w, h)),
            TargetSize::NoResize => None,
            TargetSize::FitTerminal => match terminal {
                Some((columns, rows)) => Some((columns as u32, rows as u32)),
                None => None,
            },
        }
    }

    /// Resolves the size, asking for the dimensions of the terminal where
    /// the image is to fit the terminal and only there. Without a terminal
    /// the image keeps its dimensions.
    pub fn resolve(self) -> (size: Option<(u32, u32)>)
        ensures
            exists|terminal: Option<(u16, u16)>| size == #[trigger] self.resolved(terminal),
            !(self is FitTerminal) ==> size == self.resolved(None),
    {
        let terminal = match self {
            TargetSize::FitTerminal => terminal_dimensions(),
            _ => None,
        };
        self.resolve_with(terminal)
    }

    /// Resolves the size against the dimensions of the terminal, columns
    /// first, or `None` where there is no terminal.
    pub fn resolve_with(self, terminal: Option<(u16, u16)>) -> (size: Option<(u32, u32)>)
        ensures
            size == self.resolved(terminal),
    {
        match self {
            TargetSize::Explicit(w, h) => Some((w, h)),
            TargetSize::NoResize => None,
            TargetSize::FitTerminal => match terminal {
                Some((columns, rows)) => Some((columns as u32, rows as u32)),
                None => None,
            },
        }
    }
}

/// A text splits at one index at most.
pub proof fn lemma_split_unique(s: Seq<char>, j: int, k: int)
    requires
        splits_at(s, j),
        splits_at(s, k),
    ensures
        j == k,
{
    if j < k {
        assert(s.subrange(0, k)[j] == s[j]);
    } else if k < j {
        assert(s.subrange(0, j)[k] == s[k]);
    }
}

/// A text can split only where its leading digits end.
proof fn lemma_split_ends_leading_digits(s: Seq<char>, end: int, k: int)
    requires
        0 <= end <= s.len(),
        all_digits(s.subrange(0, end)),
        end < s.len() ==> !is_digit(s[end]),
        splits_at(s, k),
    ensures
        k == end,
{
    if k < end {
        assert(s.subrange(0, end)[k] == s[k]);
    } else if end < k {
        assert(s.subrange(0, k)[end] == s[end]);
    }
}

/// Where a text splits at `k`, its explicit form is the two numbers around `k`.
pub proof fn lemma_explicit_form_at(s: Seq<char>, k: int)
    requires
        splits_at(s, k),
    ensures
        explicit_form(s) == Some(
            (decimal_value(s.subrange(0, k)), decimal_value(s.subrange(k + 1, s.len() as int))),
        ),
{
    let chosen = choose|j: int| splits_at(s, j);
    lemma_split_unique(s, chosen, k);
}

/// Appending one digit multiplies the value by ten and adds the digit.
proof fn lemma_decimal_value_step(s: Seq<char>, from: int, to: int)
    requires
        0 <= from <= to < s.len(),
    ensures
        decimal_value(s.subrange(from, to + 1)) == 10 * decimal_value(s.subrange(from, to)) + (
        s[to] as int - '0' as int) as nat,
{
    let longer = s.subrange(from, to + 1);
    assert(longer.drop_last() =~= s.subrange(from, to));
}

fn is_digit_char(c: char) -> (digit: bool)
    ensures
        digit == is_digit(c),
{
    '0' <= c && c <= '9'
}

fn is_separator_char(c: char) -> (separator: bool)
    ensures
        separator == is_separator(c),
{
    c == 'x' || c == 'X'
}

/// The index of the first character at or after `from` that is no digit,
/// or the length where every one is.
fn digits_end(text: &Vec<char>, from: usize) -> (end: usize)
    requires
        from <= text.len(),
    ensures
        from <= end <= text.len(),
        all_digits(text@.subrange(from as int, end as int)),
        end < text.len() ==> !is_digit(text@[end as int]),
{
    let mut end: usize = from;
    while end < text.len() && is_digit_char(text[end])
        invariant
            from <= end <= text.len(),
            all_digits(text@.subrange(from as int, end as int)),
        decreases text.len() - end,
    {
        end += 1;
    }
    end
}

/// The value of the digits in `text[from..to]` as a dimension holds it.
fn digits_value(text: &Vec<char>, from: usize, to: usize) -> (value: u32)
    requires
        from <= to <= text.len(),
        all_digits(text@.subrange(from as int, to as int)),
    ensures
        value == held(decimal_value(text@.subrange(from as int, to as int))),
{
    let mut total: u64 = 0;
    let mut too_large = false;
    let mut i: usize = from;
    while i < to
        invariant
            from <= i <= to <= text.len(),
            all_digits(text@.subrange(from as int, to as int)),
            total <= u32::MAX,
            !too_large ==> total == decimal_value(text@.subrange(from as int, i as int)),
            too_large ==> decimal_value(text@.subrange(from as int, i as int)) > u32::MAX,
        decreases to - i,
    {
        proof {
            lemma_decimal_value_step(text@, from as int, i as int);
        }
        let digit: u64 = (text[i] as u32 - '0' as u32) as u64;
        if !too_large {
            let next: u64 = total * 10 + digit;
            if next > u32::MAX as u64 {
                too_large = true;
            } else {
                total = next;
            }
        }
        i += 1;
    }
    if too_large {
        u32::MAX
    } else {
        total as u32
    }
}

/// The explicit dimensions that the characters spell, if any.
fn explicit_dimensions(text: &Vec<char>) -> (size: Option<(u32, u32)>)
    ensures
        size == explicit_size(text@),
{
    let len = text.len();
    let k = digits_end(text, 0);
    if k == 0 || k >= len || len - k < 2 || !is_separator_char(text[k]) {
        proof {
            assert forall|j: int| !splits_at(text@, j) by {
                if splits_at(text@, j) {
                    lemma_split_ends_leading_digits(text@, k as int, j);
                }
            }
        }
        return None;
    }
    let end = digits_end(text, k + 1);
    if end != len {
        proof {
            assert forall|j: int| !splits_at(text@, j) by {
                if splits_at(text@, j) {
                    lemma_split_ends_leading_digits(text@, k as int, j);
                    assert(text@.subrange(k + 1, len as int)[end - (k + 1)] == text@[end as int]);
                }
            }
        }
        return None;
    }
    proof {
        lemma_explicit_form_at(text@, k as int);
    }
    let width = digits_value(text, 0, k);
    let height = digits_value(text, k + 1, len);
    Some((width, height))
}

/// Reads a size. Explicit dimensions are `WIDTHxHEIGHT`: two runs of ASCII
/// digits around one `x` or `X`, and nothing else. A number that does not
/// fit in 32 bits is held at `u32::MAX`, which is more than any image is
/// fitted to. `original` keeps the image as it is. `term` and every other
/// text fit the image to the terminal.
pub fn parse_size(size: &str) -> (target: TargetSize)
    ensures
        target == parsed_size(size@),
{
    let text = chars_of(size);
    match explicit_dimensions(&text) {
        Some((w, h)) => TargetSize::Explicit(w, h),
        None => if spells(&text, "original") {
            TargetSize::NoResize
        } else {
            TargetSize::FitTerminal
        },
    }
}

/// Accepts every text of the form `WIDTHxHEIGHT`, `term` and `original`,
/// and rejects every other text.
pub fn validate_size(size: &str) -> (checked: Result<(), ConfigError>)
    ensures
        checked == if valid_size(size@) {
            Ok::<(), ConfigError>(())
        } else {
            Err::<(), ConfigError>(ConfigError::InvalidSizeFormat)
        },
{
    let text = chars_of(size);
    if explicit_dimensions(&text).is_some() || spells(&text, "term") || spells(&text, "original") {
        Ok(())
    } else {
        Err(ConfigError::InvalidSizeFormat)
    }
}

/// The box that a size asks for, or `None` where the image keeps its
/// dimensions. The terminal is asked only where the text names no explicit
/// size and is not `original`; without a terminal the image keeps its
/// dimensions.
pub fn get_size(size: &str) -> (fit: Option<(u32, u32)>)
    ensures
        exists|terminal: Option<(u16, u16)>| fit == #[trigger] parsed_size(size@).resolved(terminal),
{
    parse_size(size).resolve()
}

/// The separator reads the same in either case: with `x` or with `X` at the
/// split, a text names the same dimensions.
pub proof fn lemma_separator_case_is_ignored(s: Seq<char>, k: int)
    requires
        splits_at(s, k),
    ensures
        explicit_form(s.update(k, 'x')) == explicit_form(s),
        explicit_form(s.update(k, 'X')) == explicit_form(s),
        parsed_size(s.update(k, 'x')) == parsed_size(s.update(k, 'X')),
{
    let lower = s.update(k, 'x');
    let upper = s.update(k, 'X');
    let len = s.len() as int;
    assert(lower.subrange(0, k) =~= s.subrange(0, k));
    assert(upper.subrange(0, k) =~= s.subrange(0, k));
    assert(lower.subrange(k + 1, len) =~= s.subrange(k + 1, len));
    assert(upper.subrange(k + 1, len) =~= s.subrange(k + 1, len));
    lemma_explicit_form_at(s, k);
    lemma_explicit_form_at(lower, k);
    lemma_explicit_form_at(upper, k);
    // Neither text is the word `original`: both begin with a digit.
    reveal_strlit("original");
    assert(lower.subrange(0, k)[0] == lower[0]);
    assert(upper.subrange(0, k)[0] == upper[0]);
}

/// The number `n` as it is written: in base ten, without leading zeros.
pub open spec fn written(n: nat) -> Seq<char>
    decreases n,
{
    if n < 10 {
        seq![('0' as int + n) as char]
    } else {
        written(n / 10).push(('0' as int + n % 10) as char)
    }
}

/// A written number is made of digits, one at least, and has the value of
/// the number.
pub proof fn lemma_written_number_is_read_back(n: nat)
    ensures
        written(n).len() >= 1,
        all_digits(written(n)),
        decimal_value(written(n)) == n,
    decreases n,
{
    if n < 10 {
        assert(decimal_value(written(n).drop_last()) == 0);
    } else {
        lemma_written_number_is_read_back(n / 10);
        assert(written(n).drop_last() =~= written(n / 10));
    }
}

/// Every pair of dimensions can be asked for: written as width, `x` or `X`,
/// and height, it is accepted and read back as it was written.
pub proof fn lemma_written_size_is_read_back(width: u32, height: u32, separator: char)
    requires
        is_separator(separator),
    ensures
        parsed_size(written(width as nat).push(separator) + written(height as nat))
            == TargetSize::Explicit(width, height),
        valid_size(written(width as nat).push(separator) + written(height as nat)),
{
    let first = written(width as nat);
    let second = written(height as nat);
    let text = first.push(separator) + second;
    let k = first.len() as int;
    lemma_written_number_is_read_back(width as nat);
    lemma_written_number_is_read_back(height as nat);
    assert(text.subrange(0, k) =~= first);
    assert(text.subrange(k + 1, text.len() as int) =~= second);
    lemma_explicit_form_at(text, k);
}

/// The two words are no dimensions: `original` keeps the image as it is and
/// `term` asks for the terminal, and both are accepted.
pub proof fn lemma_words_are_read_as_words()
    ensures
        parsed_size("original"@) == TargetSize::NoResize,
        parsed_size("term"@) == TargetSize::FitTerminal,
        valid_size("original"@),
        valid_size("term"@),
{
    reveal_strlit("original");
    reveal_strlit("term");
    // Dimensions begin with a digit, and neither word does.
    assert forall|k: int| !splits_at("original"@, k) by {
        if splits_at("original"@, k) {
            assert("original"@.subrange(0, k)[0] == 'o');
        }
    }
    assert forall|k: int| !splits_at("term"@, k) by {
        if splits_at("term"@, k) {
            assert("term"@.subrange(0, k)[0] == 't');
        }
    }
}

/// Every text of the form `WIDTHxHEIGHT` is accepted and names explicit
/// dimensions, whatever its numbers are: those that fit in 32 bits as they
/// are written, larger ones as `u32::MAX`.
pub proof fn lemma_explicit_text_is_accepted(s: Seq<char>, k: int)
    requires
        splits_at(s, k),
    ensures
        valid_size(s),
        parsed_size(s) == TargetSize::Explicit(
            held(decimal_value(s.subrange(0, k))),
            held(decimal_value(s.subrange(k + 1, s.len() as int))),
        ),
{
    lemma_explicit_form_at(s, k);
}

/// A text that was accepted asks for the terminal only as `term`.
pub proof fn lemma_valid_size_never_falls_back(s: Seq<char>)
    requires
        valid_size(s),
    ensures
        parsed_size(s) is FitTerminal ==> s == "term"@,
{
}

} // verus!
