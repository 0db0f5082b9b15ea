//! The textual form of a fee schedule: entries separated by commas, each a
//! threshold and a rate separated by a colon.
//!
//! The threshold is read here. The rate is a decimal fraction, which this
//! crate does not read: an entry carries its text on to the caller.

use crate::text::chars_of;
use vstd::prelude::*;
use vstd::slice::slice_subrange;
use vstd::string::StringExecFns;

verus! {

/// An entry of a schedule text whose threshold was read.
#[derive(Debug, Clone, PartialEq, Eq)]
pub struct TierEntry {
    pub min_tx_count_30d: u64,
    /// The text of the rate, without the white space around it.
    pub percent_text: String,
}

/// What a [`TierEntry`] holds.
pub struct TierEntryView {
    pub min_tx_count_30d: u64,
    pub percent_text: Seq<char>,
}

impl View for TierEntry {
    type V = TierEntryView;

    open spec fn view(&self) -> TierEntryView {
        TierEntryView { min_tx_count_30d: self.min_tx_count_30d, percent_text: self.percent_text@ }
    }
}

/// Whether `c` is white space: one of the 25 characters that Unicode marks
/// so.
pub open spec fn spec_is_space(c: char) -> bool {
    let n = c as u32;
    ||| 0x09 <= n <= 0x0D
    ||| n == 0x20
    ||| n == 0x85
    ||| n == 0xA0
    ||| n == 0x1680
    ||| 0x2000 <= n <= 0x200A
    ||| n == 0x2028
    ||| n == 0x2029
    ||| n == 0x202F
    ||| n == 0x205F
    ||| n == 0x3000
}

/// The first position from `from` on at which `s` holds `c`, or the length
/// of `s` where there is none.
pub open spec fn find_from(s: Seq<char>, c: char, from: int) -> int
    decreases s.len() - from,
{
    if from < 0 || from >= s.len() {
        s.len() as int
    } else if s[from] == c {
        from
    } else {
        find_from(s, c, from + 1)
    }
}

/// The first position from `from` on at which `s` holds no white space, or
/// the length of `s`.
pub open spec fn skip_space(s: Seq<char>, from: int) -> int
    decreases s.len() - from,
{
    if from < 0 || from >= s.len() {
        s.len() as int
    } else if !spec_is_space(s[from]) {
        from
    } else {
        skip_space(s, from + 1)
    }
}

/// The end of `s` once the white space before `to` is dropped, but never
/// less than `from`.
pub open spec fn drop_space(s: Seq<char>, from: int, to: int) -> int
    decreases to - from,
{
    if to <= from || to > s.len() {
        from
    } else if !spec_is_space(s[to - 1]) {
        to
    } else {
        drop_space(s, from, to - 1)
    }
}

/// `s` without the white space at its two ends.
pub open spec fn trimmed(s: Seq<char>) -> Seq<char> {
    let start = skip_space(s, 0);
    s.subrange(start, drop_space(s, start, s.len() as int))
}

/// Whether `c` is one of the ten decimal digits.
pub open spec fn is_digit(c: char) -> bool {
    '0' <= c <= '9'
}

/// The number that the decimal digits of `s` write.
pub open spec fn digits_value(s: Seq<char>) -> nat
    decreases s.len(),
{
    if s.len() == 0 {
        0
    } else {
        digits_value(s.drop_last()) * 10 + (s.last() as u32 - '0' as u32) as nat
    }
}

/// Whether `s` holds decimal digits only.
pub open spec fn all_digits(s: Seq<char>) -> bool {
    forall|i: int| 0 <= i < s.len() ==> is_digit(#[trigger] s[i])
}

/// `s` without the one `+` that may stand at its start.
pub open spec fn unsigned_part(s: Seq<char>) -> Seq<char> {
    if s.len() > 0 && s[0] == '+' {
        s.subrange(1, s.len() as int)
    } else {
        s
    }
}

/// The threshold that `s` writes: decimal digits, at least one, with one
/// `+` before them or none, and a value that 64 bits hold.
pub open spec fn spec_parse_count(s: Seq<char>) -> Option<u64> {
    let digits = unsigned_part(s);
    if digits.len() > 0 && all_digits(digits) && digits_value(digits) <= u64::MAX {
        Some(digits_value(digits) as u64)
    } else {
        None
    }
}

/// The entry that one piece of a schedule text writes. The piece has at
/// least two fields, separated by colons: the first is the threshold, the
/// second the rate, both with white space allowed around them. Further
/// fields are not read.
pub open spec fn spec_entry_of(piece: Seq<char>) -> Option<TierEntryView> {
    let first_colon = find_from(piece, ':', 0);
    if first_colon >= piece.len() {
        None
    } else {
        let second_colon = find_from(piece, ':', first_colon + 1);
        match spec_parse_count(trimmed(piece.subrange(0, first_colon))) {
            Some(n) => Some(
                TierEntryView {
                    min_tx_count_30d: n,
                    percent_text: trimmed(piece.subrange(first_colon + 1, second_colon)),
                },
            ),
            None => None,
        }
    }
}

/// The entries that the pieces of `s` from `from` on write, in their order.
/// Pieces are separated by commas; a piece that writes no entry is passed
/// over.
pub open spec fn entries_from(s: Seq<char>, from: int) -> Seq<TierEntryView>
    decreases s.len() - from,
{
    if from < 0 || from > s.len() {
        Seq::empty()
    } else {
        let comma = find_from(s, ',', from);
        let head = match spec_entry_of(s.subrange(from, comma)) {
            Some(entry) => seq![entry],
            None => Seq::empty(),
        };
        if from <= comma < s.len() {
            head + entries_from(s, comma + 1)
        } else {
            head
        }
    }
}

/// The entries that the schedule text `s` writes.
pub open spec fn spec_tier_entries(s: Seq<char>) -> Seq<TierEntryView> {
    entries_from(s, 0)
}

/// What a sequence of entries holds.
pub open spec fn entry_views(entries: Seq<TierEntry>) -> Seq<TierEntryView> {
    entries.map_values(|e: TierEntry| e@)
}

/// The digits of a longer text write no smaller a number.
proof fn lemma_digits_value_grows(s: Seq<char>, k: int)
    requires
        0 <= k <= s.len(),
        all_digits(s),
    ensures
        digits_value(s.take(k)) <= digits_value(s),
    decreases s.len() - k,
{
    if k < s.len() {
        lemma_digits_value_grows(s.drop_last(), k);
        assert(s.drop_last().take(k) =~= s.take(k));
    } else {
        assert(s.take(k) =~= s);
    }
}

/// Whether `c` is white space.
#[verifier::when_used_as_spec(spec_is_space)]
pub fn is_space(c: char) -> (b: bool)
    ensures
        b == spec_is_space(c),
{
    let n = c as u32;
    (0x09 <= n && n <= 0x0D) || n == 0x20 || n == 0x85 || n == 0xA0 || n == 0x1680 || (0x2000 <= n
        && n <= 0x200A) || n == 0x2028 || n == 0x2029 || n == 0x202F || n == 0x205F || n == 0x3000
}

/// The first position from `from` on at which `s` holds `c`, or the length
/// of `s`.
fn find(s: &[char], c: char, from: usize) -> (at: usize)
    requires
        from <= s@.len(),
    ensures
        at == find_from(s@, c, from as int),
        from <= at <= s@.len(),
{
    let mut i: usize = from;
    while i < s.len() && s[i] != c
        invariant
            from <= i <= s@.len(),
            find_from(s@, c, from as int) == find_from(s@, c, i as int),
        decreases s@.len() - i,
    {
        i = i + 1;
    }
    i
}

/// The two ends of `s` without the white space around it.
fn trim_bounds(s: &[char]) -> (ends: (usize, usize))
    ensures
        ends.0 <= ends.1 <= s@.len(),
        s@.subrange(ends.0 as int, ends.1 as int) == trimmed(s@),
{
    let mut start: usize = 0;
    while start < s.len() && is_space(s[start])
        invariant
            start <= s@.len(),
            skip_space(s@, 0) == skip_space(s@, start as int),
        decreases s@.len() - start,
    {
        start = start + 1;
    }
    let mut end: usize = s.len();
    while end > start && is_space(s[end - 1])
        invariant
            start <= end <= s@.len(),
            drop_space(s@, start as int, s@.len() as int) == drop_space(
                s@,
                start as int,
                end as int,
            ),
        decreases end,
    {
        end = end - 1;
    }
    (start, end)
}

/// Reads a threshold: decimal digits, with one `+` before them or none.
/// `None` where `s` writes none, or one that 64 bits do not hold.
pub fn parse_count(s: &[char]) -> (count: Option<u64>)
    ensures
        count == spec_parse_count(s@),
{
    let start: usize = if s.len() > 0 && s[0] == '+' {
        1
    } else {
        0
    };
    let digits = slice_subrange(s, start, s.len());
    assert(digits@ =~= unsigned_part(s@));
    if digits.len() == 0 {
        return None;
    }
    let mut value: u64 = 0;
    let mut i: usize = 0;
    assert(digits@.take(0) =~= Seq::<char>::empty());
    while i < digits.len()
        invariant
            i <= digits@.len(),
            digits@.len() > 0,
            digits@ == unsigned_part(s@),
            all_digits(digits@.take(i as int)),
            value == digits_value(digits@.take(i as int)),
        decreases digits@.len() - i,
    {
        let c = digits[i];
        if !('0' <= c && c <= '9') {
            assert(!is_digit(digits@[i as int]));
            return None;
        }
        let d: u64 = (c as u32 - '0' as u32) as u64;
        proof {
            assert(digits@.take(i + 1).drop_last() =~= digits@.take(i as int));
            assert(digits_value(digits@.take(i + 1)) == value * 10 + d);
            if all_digits(digits@) {
                lemma_digits_value_grows(digits@, i + 1);
            }
        }
        if value > (u64::MAX - d) / 10 {
            return None;
        }
        value = value * 10 + d;
        i = i + 1;
    }
    assert(digits@.take(i as int) =~= digits@);
    Some(value)
}

/// Reads one piece of a schedule text. `text` is the whole text, `chars`
/// its characters, and the piece runs from `from` to `to`.
fn entry_of(text: &str, chars: &Vec<char>, from: usize, to: usize) -> (entry: Option<TierEntry>)
    requires
        chars@ == text@,
        from <= to <= chars@.len(),
    ensures
        match spec_entry_of(chars@.subrange(from as int, to as int)) {
            Some(view) => entry matches Some(e) && e@ == view,
            None => entry is None,
        },
{
    let piece = slice_subrange(chars.as_slice(), from, to);
    let first_colon = find(piece, ':', 0);
    if first_colon >= piece.len() {
        return None;
    }
    let second_colon = find(piece, ':', first_colon + 1);
    let count_field = slice_subrange(piece, 0, first_colon);
    let (count_start, count_end) = trim_bounds(count_field);
    match parse_count(slice_subrange(count_field, count_start, count_end)) {
        Some(n) => {
            let rate_field = slice_subrange(piece, first_colon + 1, second_colon);
            let (rate_start, rate_end) = trim_bounds(rate_field);
            let base: usize = from + first_colon + 1;
            let rate = text.substring_char(base + rate_start, base + rate_end);
            assert(rate@ =~= trimmed(rate_field@));
            Some(TierEntry { min_tx_count_30d: n, percent_text: String::from_str(rate) })
        },
        None => None,
    }
}

/// Reads a schedule text: for each piece between commas that has a
/// threshold and a rate field, the threshold and the text of the rate.
pub fn parse_tier_entries(text: &str) -> (entries: Vec<TierEntry>)
    ensures
        entry_views(entries@) == spec_tier_entries(text@),
{
    let chars = chars_of(text);
    let mut entries: Vec<TierEntry> = Vec::new();
    let mut from: usize = 0;
    assert(entry_views(entries@) =~= Seq::<TierEntryView>::empty());
    loop
        invariant_except_break
            chars@ == text@,
            from <= chars@.len(),
            spec_tier_entries(text@) == entry_views(entries@) + entries_from(text@, from as int),
        ensures
            entry_views(entries@) == spec_tier_entries(text@),
        decreases chars@.len() - from,
    {
        let comma = find(chars.as_slice(), ',', from);
        let ghost before = entry_views(entries@);
        match entry_of(text, &chars, from, comma) {
            Some(entry) => {
                entries.push(entry);
                assert(entry_views(entries@) =~= before + seq![entry@]);
            },
            None => {},
        }
        if comma >= chars.len() {
            assert(spec_tier_entries(text@) =~= entry_views(entries@));
            break ;
        }
        assert(spec_tier_entries(text@) =~= entry_views(entries@) + entries_from(
            text@,
            comma + 1,
        ));
        from = comma + 1;
    }
    entries
}

} // verus!
