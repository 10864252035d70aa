//! What the texts of environment variables mean.
use crate::arith::{max_of, min_of};
use vstd::prelude::*;

verus! {

/// `A` to `Z` in lower case; every other character as it is.
pub open spec fn lower(c: char) -> char {
    if 'A' <= c && c <= 'Z' {
        ((c as u32 + 32) as u32) as char
    } else {
        c
    }
}

/// A text with `A` to `Z` in lower case.
pub open spec fn lowered(text: Seq<char>) -> Seq<char> {
    Seq::new(text.len(), |i: int| lower(text[i]))
}

/// A character with the Unicode property `White_Space`.
pub open spec fn is_space(c: char) -> bool {
    let n = c as u32;
    ||| 0x9 <= n <= 0xd
    ||| n == 0x20
    ||| n == 0x85
    ||| n == 0xa0
    ||| n == 0x1680
    ||| 0x2000 <= n <= 0x200a
    ||| n == 0x2028
    ||| n == 0x2029
    ||| n == 0x202f
    ||| n == 0x205f
    ||| n == 0x3000
}

/// A text without the white space at its start.
pub open spec fn trimmed_start(text: Seq<char>) -> Seq<char>
    decreases text.len(),
{
    if text.len() > 0 && is_space(text[0]) {
        trimmed_start(text.drop_first())
    } else {
        text
    }
}

/// A text without the white space at its end.
pub open spec fn trimmed_end(text: Seq<char>) -> Seq<char>
    decreases text.len(),
{
    if text.len() > 0 && is_space(text.last()) {
        trimmed_end(text.drop_last())
    } else {
        text
    }
}

/// A text without the white space at both ends.
pub open spec fn trimmed(text: Seq<char>) -> Seq<char> {
    trimmed_end(trimmed_start(text))
}

/// The number that a text of decimal digits spells.
pub open spec fn decimal(digits: Seq<char>) -> nat
    decreases digits.len(),
{
    if digits.len() == 0 {
        0
    } else {
        decimal(digits.drop_last()) * 10 + (digits.last() as u32 - '0' as u32) as nat
    }
}

/// The number that a text spells: decimal digits, after an optional plus sign.
pub open spec fn spelled(text: Seq<char>) -> Option<nat> {
    let digits = if text.len() > 0 && text[0] == '+' {
        text.drop_first()
    } else {
        text
    };
    if digits.len() > 0 && (forall|i: int|
        0 <= i < digits.len() ==> '0' <= #[trigger] digits[i] && digits[i] <= '9') {
        Some(decimal(digits))
    } else {
        None
    }
}

/// `str::to_ascii_lowercase`: the letters `A` to `Z` become `a` to `z`, and nothing else
/// changes.
#[verifier::external_body]
fn to_ascii_lowercase(text: &str) -> (low: String)
    ensures
        low@ == lowered(text@),
{
    text.to_ascii_lowercase()
}

/// `str::trim`: the text without the white space, in the sense of Unicode, at both ends.
#[verifier::external_body]
fn trim(text: &str) -> (inner: &str)
    ensures
        inner@ == trimmed(text@),
{
    text.trim()
}

/// `str::parse` to a `usize`: the number that the text spells in decimal, where it spells one
/// that fits.
#[verifier::external_body]
fn parse_usize(text: &str) -> (number: Option<usize>)
    ensures
        match number {
            Some(n) => spelled(text@) == Some(n as nat),
            None => spelled(text@) matches Some(n) ==> n > usize::MAX,
        },
{
    text.parse::<usize>().ok()
}

/// The words that switch the fused packing of rows off.
pub open spec fn is_pack_off_word(word: Seq<char>) -> bool {
    word == "1"@ || word == "true"@ || word == "yes"@ || word == "on"@
}

/// The words that switch the fused AdamW step off.
pub open spec fn is_adamw_off_word(word: Seq<char>) -> bool {
    word == "1"@ || word == "true"@ || word == "yes"@ || word == "y"@ || word == "on"@
}

/// Whether `CANDELORA_DISABLE_FUSED_PACK`, if set, switches the fused packing of rows off.
pub open spec fn pack_disabled(setting: Option<Seq<char>>) -> bool {
    setting matches Some(text) && is_pack_off_word(lowered(trimmed(text)))
}

/// Whether `CANDLORA_DISABLE_FUSED_ADAMW_METAL`, if set, switches the fused AdamW step off.
pub open spec fn adamw_disabled(setting: Option<Seq<char>>) -> bool {
    setting matches Some(text) && is_adamw_off_word(lowered(text))
}

/// The text of a setting.
pub open spec fn text_of(setting: Option<&str>) -> Option<Seq<char>> {
    match setting {
        Some(text) => Some(text@),
        None => None,
    }
}

fn equal(text: &String, word: &str) -> (yes: bool)
    ensures
        yes == (text@ == word@),
{
    *text == word.to_owned()
}

pub fn is_pack_disabled(setting: Option<&str>) -> (off: bool)
    ensures
        off == pack_disabled(text_of(setting)),
{
    match setting {
        Some(text) => {
            let word = to_ascii_lowercase(trim(text));
            equal(&word, "1") || equal(&word, "true") || equal(&word, "yes") || equal(&word, "on")
        },
        None => false,
    }
}

pub fn is_adamw_disabled(setting: Option<&str>) -> (off: bool)
    ensures
        off == adamw_disabled(text_of(setting)),
{
    match setting {
        Some(text) => {
            let word = to_ascii_lowercase(text);
            equal(&word, "1") || equal(&word, "true") || equal(&word, "yes") || equal(&word, "y")
                || equal(&word, "on")
        },
        None => false,
    }
}

/// The threads of a group: what `CANDELORA_TURBO_TG_SIZE` asks for, if it spells a positive
/// number, or else `default_threads`; at most `max_threads`, and at least one.
pub open spec fn grouped_threads(
    setting: Option<Seq<char>>,
    max_threads: usize,
    default_threads: usize,
) -> int {
    let wanted = match setting {
        Some(text) => match spelled(text) {
            Some(n) => if 0 < n <= usize::MAX {
                n as int
            } else {
                default_threads as int
            },
            None => default_threads as int,
        },
        None => default_threads as int,
    };
    max_of(min_of(wanted, max_threads as int), 1)
}

pub fn turboquant_grouped_threads(
    setting: Option<&str>,
    max_threads: usize,
    default_threads: usize,
) -> (threads: usize)
    ensures
        threads == grouped_threads(text_of(setting), max_threads, default_threads),
{
    let wanted: usize = match setting {
        Some(text) => match parse_usize(text) {
            Some(n) if n > 0 => n,
            _ => default_threads,
        },
        None => default_threads,
    };
    let capped: usize = if wanted <= max_threads {
        wanted
    } else {
        max_threads
    };
    if capped >= 1 {
        capped
    } else {
        1
    }
}

/// The fused AdamW step is switched off by `1`, `true`, `yes`, `y` and `on`, in any case, and by
/// nothing else.
pub proof fn adamw_is_switched_off_by_words(text: Seq<char>)
    ensures
        !adamw_disabled(None),
        adamw_disabled(Some(text)) <==> {
            ||| lowered(text) == "1"@
            ||| lowered(text) == "true"@
            ||| lowered(text) == "yes"@
            ||| lowered(text) == "y"@
            ||| lowered(text) == "on"@
        },
{
}

/// The fused packing of rows is switched off by `1`, `true`, `yes` and `on`, in any case and with
/// white space around them, and by nothing else.
pub proof fn packing_is_switched_off_by_words(text: Seq<char>)
    ensures
        !pack_disabled(None),
        pack_disabled(Some(text)) <==> {
            ||| lowered(trimmed(text)) == "1"@
            ||| lowered(trimmed(text)) == "true"@
            ||| lowered(trimmed(text)) == "yes"@
            ||| lowered(trimmed(text)) == "on"@
        },
{
}

/// A group has at least one thread, at most as many as the device allows, and as many as the
/// setting asks for, where that is between one and what the device allows. A setting that spells
/// no positive number counts as none.
pub proof fn groups_have_the_threads_asked_for(
    text: Seq<char>,
    max_threads: usize,
    default_threads: usize,
)
    ensures
        1 <= grouped_threads(Some(text), max_threads, default_threads),
        1 <= grouped_threads(None, max_threads, default_threads),
        max_threads >= 1 ==> grouped_threads(Some(text), max_threads, default_threads)
            <= max_threads,
        spelled(text) matches Some(n) ==> (1 <= n <= max_threads ==> grouped_threads(
            Some(text),
            max_threads,
            default_threads,
        ) == n),
        spelled(text) matches Some(n) ==> (1 <= max_threads < n <= usize::MAX ==> grouped_threads(
            Some(text),
            max_threads,
            default_threads,
        ) == max_threads),
        spelled(text) is None || spelled(text) == Some(0nat) ==> grouped_threads(
            Some(text),
            max_threads,
            default_threads,
        ) == grouped_threads(None, max_threads, default_threads),
        1 <= default_threads <= max_threads ==> grouped_threads(None, max_threads, default_threads)
            == default_threads,
        1 <= max_threads <= default_threads ==> grouped_threads(None, max_threads, default_threads)
            == max_threads,
{
}

} // verus!
