//! The text form of a recorded frame: one line per frame.
//!
//! A line is cut into words at white space, which is any character that
//! Unicode counts as such; the line is read as UTF-8. The first word is the time the
//! frame was captured, which may stand in parentheses; the third word is the
//! arbitration id and the payload, both in hexadecimal, with a `#` between
//! them. The second word, by custom the name of the interface, is not looked
//! at, nor is anything after the third. A line that does not fit is no frame.
//!
//! The time is handed out as it is written. What number it spells is for the
//! caller to say.

use crate::wire::CanFrame;
use vstd::prelude::*;

verus! {

/// Whether three bytes are the UTF-8 form of a white space character of the
/// general punctuation and neighbouring blocks: U+1680, U+2000 to U+200A,
/// U+2028, U+2029, U+202F, U+205F or U+3000.
pub open spec fn wide_space(a: u8, b: u8, c: u8) -> bool {
    ||| a == 0xe1 && b == 0x9a && c == 0x80
    ||| a == 0xe2 && b == 0x80 && ((0x80 <= c && c <= 0x8a) || c == 0xa8 || c == 0xa9 || c == 0xaf)
    ||| a == 0xe2 && b == 0x81 && c == 0x9f
    ||| a == 0xe3 && b == 0x80 && c == 0x80
}

/// The length in bytes of the white space character that begins at position
/// `i` of `s`; 0 if none begins there. One byte: blank, tab, line feed,
/// vertical tab, form feed, carriage return. Two bytes: next line (U+0085),
/// no-break space (U+00A0). Three bytes: see `wide_space`.
pub open spec fn space_len(s: Seq<u8>, i: int) -> int {
    if i < 0 || i >= s.len() {
        0
    } else if s[i] == 0x20 || (0x09 <= s[i] && s[i] <= 0x0d) {
        1
    } else if i + 1 < s.len() && s[i] == 0xc2 && (s[i + 1] == 0x85 || s[i + 1] == 0xa0) {
        2
    } else if i + 2 < s.len() && wide_space(s[i], s[i + 1], s[i + 2]) {
        3
    } else {
        0
    }
}

/// The first position at or after `i` at which no white space character
/// begins, going from one such character to the next.
pub open spec fn skip_space(s: Seq<u8>, i: int) -> int
    decreases s.len() - i,
{
    if space_len(s, i) > 0 {
        skip_space(s, i + space_len(s, i))
    } else {
        i
    }
}

/// The first position at or after `i` at which a white space character
/// begins; the length of `s` if there is none.
pub open spec fn skip_word(s: Seq<u8>, i: int) -> int
    decreases s.len() - i,
{
    if 0 <= i < s.len() && space_len(s, i) == 0 {
        skip_word(s, i + 1)
    } else {
        i
    }
}

/// Where word number `n` (counted from 0) of those that begin at or after
/// `from` starts and ends, if there are that many.
pub open spec fn word_at(s: Seq<u8>, from: int, n: nat) -> Option<(int, int)>
    decreases n,
{
    let start = skip_space(s, from);
    let end = skip_word(s, start);
    if start >= s.len() {
        None
    } else if n == 0 {
        Some((start, end))
    } else {
        word_at(s, end, (n - 1) as nat)
    }
}

/// Word number `n` of the line, if there are that many.
pub open spec fn word(s: Seq<u8>, n: nat) -> Option<Seq<u8>> {
    match word_at(s, 0, n) {
        Some((start, end)) => Some(s.subrange(start, end)),
        None => None,
    }
}

/// Whether a byte is an opening or closing parenthesis.
pub open spec fn is_paren(b: u8) -> bool {
    b == 0x28 || b == 0x29
}

/// The first position at or after `i` that holds no parenthesis.
pub open spec fn skip_parens(s: Seq<u8>, i: int) -> int
    decreases s.len() - i,
{
    if 0 <= i < s.len() && is_paren(s[i]) {
        skip_parens(s, i + 1)
    } else {
        i
    }
}

/// The end of `s` once the parentheses at its end are cut off, but no
/// further back than `low`.
pub open spec fn trim_parens_end(s: Seq<u8>, low: int, end: int) -> int
    decreases end - low,
{
    if low < end <= s.len() && is_paren(s[end - 1]) {
        trim_parens_end(s, low, end - 1)
    } else {
        end
    }
}

/// `s` without the parentheses at its start and at its end.
pub open spec fn strip_parens(s: Seq<u8>) -> Seq<u8> {
    let start = skip_parens(s, 0);
    s.subrange(start, trim_parens_end(s, start, s.len() as int))
}

/// The first position at or after `i` that holds a `#`; the length of `s` if
/// there is none.
pub open spec fn find_hash(s: Seq<u8>, i: int) -> int
    decreases s.len() - i,
{
    if 0 <= i < s.len() && s[i] != 0x23 {
        find_hash(s, i + 1)
    } else {
        i
    }
}

/// What stands before and after the `#` in `s`, if `s` holds exactly one.
pub open spec fn split_hash(s: Seq<u8>) -> Option<(Seq<u8>, Seq<u8>)> {
    let at = find_hash(s, 0);
    if at < s.len() && find_hash(s, at + 1) >= s.len() {
        Some((s.subrange(0, at), s.subrange(at + 1, s.len() as int)))
    } else {
        None
    }
}

/// The value of a hexadecimal digit, in either case.
pub open spec fn hex_digit(b: u8) -> Option<int> {
    if 0x30 <= b && b <= 0x39 {
        Some(b - 0x30)
    } else if 0x41 <= b && b <= 0x46 {
        Some(b - 0x41 + 10)
    } else if 0x61 <= b && b <= 0x66 {
        Some(b - 0x61 + 10)
    } else {
        None
    }
}

/// Whether `s` holds hexadecimal digits and nothing else.
pub open spec fn all_hex(s: Seq<u8>) -> bool {
    forall|i: int| 0 <= i < s.len() ==> hex_digit(#[trigger] s[i]) is Some
}

/// The number that the hexadecimal digits of `s` spell, most significant
/// first.
pub open spec fn hex_value(s: Seq<u8>) -> int
    decreases s.len(),
{
    if s.len() == 0 {
        0
    } else {
        hex_value(s.drop_last()) * 16 + hex_digit(s.last()).unwrap()
    }
}

/// The arbitration id that `s` spells: at least one hexadecimal digit,
/// nothing else, and a value of at most 32 bits.
pub open spec fn spec_id(s: Seq<u8>) -> Option<u32> {
    if s.len() > 0 && all_hex(s) && hex_value(s) <= u32::MAX {
        Some(hex_value(s) as u32)
    } else {
        None
    }
}

/// The number of payload bytes that `s` spells: one for every full pair of
/// characters, and eight at most.
pub open spec fn payload_len(s: Seq<u8>) -> int {
    if s.len() / 2 < 8 {
        s.len() as int / 2
    } else {
        8
    }
}

/// The payload that `s` spells, two hexadecimal digits to the byte, padded
/// with zeros to eight bytes. A character left over after the last pair, and
/// whatever follows the eighth pair, is not looked at.
pub open spec fn spec_payload(s: Seq<u8>) -> Option<Seq<u8>> {
    let n = payload_len(s);
    if all_hex(s.subrange(0, 2 * n)) {
        Some(
            Seq::new(
                8,
                |i: int|
                    if i < n {
                        (hex_digit(s[2 * i]).unwrap() * 16 + hex_digit(s[2 * i + 1]).unwrap()) as u8
                    } else {
                        0u8
                    },
            ),
        )
    } else {
        None
    }
}

/// What a line says, as plain data: the time as written, the id, and the
/// payload.
pub ghost struct LineSpec {
    pub timestamp: Seq<u8>,
    pub id: u32,
    pub data: Seq<u8>,
}

/// What the line `s` says, if it is a frame.
pub open spec fn spec_parse_line(s: Seq<u8>) -> Option<LineSpec> {
    match (word(s, 0), word(s, 2)) {
        (Some(first), Some(third)) => match split_hash(third) {
            Some((id_text, data_text)) => match (spec_id(id_text), spec_payload(data_text)) {
                (Some(id), Some(data)) => Some(
                    LineSpec { timestamp: strip_parens(first), id: id, data: data },
                ),
                _ => None,
            },
            None => None,
        },
        _ => None,
    }
}

/// One line of a log, read.
#[derive(Debug, PartialEq, Eq)]
pub struct LineRecord {
    /// The time as written, without the parentheses around it.
    pub timestamp: Vec<u8>,
    pub id: u32,
    pub data: [u8; 8],
}

impl View for LineRecord {
    type V = LineSpec;

    open spec fn view(&self) -> LineSpec {
        LineSpec { timestamp: self.timestamp@, id: self.id, data: self.data@ }
    }
}

/// Where `skip_space` stops, no white space character begins.
pub proof fn lemma_skip_space(s: Seq<u8>, i: int)
    requires
        0 <= i <= s.len(),
    ensures
        i <= skip_space(s, i) <= s.len(),
        space_len(s, skip_space(s, i)) == 0,
        skip_space(s, i) > i ==> exists|w: int|
            1 <= w <= 3 && #[trigger] space_len(s, skip_space(s, i) - w) == w,
    decreases s.len() - i,
{
    let w = space_len(s, i);
    if w > 0 {
        lemma_skip_space(s, i + w);
        if skip_space(s, i + w) == i + w {
            assert(space_len(s, skip_space(s, i) - w) == w);
        }
    }
}

/// From `i` up to where `skip_word` stops no white space character begins,
/// and where it stops one does, unless that is the end.
pub proof fn lemma_skip_word(s: Seq<u8>, i: int)
    requires
        0 <= i <= s.len(),
    ensures
        i <= skip_word(s, i) <= s.len(),
        forall|k: int| i <= k < skip_word(s, i) ==> #[trigger] space_len(s, k) == 0,
        skip_word(s, i) < s.len() ==> space_len(s, skip_word(s, i)) > 0,
    decreases s.len() - i,
{
    if i < s.len() && space_len(s, i) == 0 {
        lemma_skip_word(s, i + 1);
    }
}

/// A word is a longest run of bytes between white space: it is not empty,
/// no white space character begins in it, and it has a white space
/// character or an end of the line on either side.
pub proof fn lemma_word_is_maximal(s: Seq<u8>, n: nat)
    ensures
        word_at(s, 0, n) matches Some((start, end)) ==> {
            &&& 0 <= start < end <= s.len()
            &&& forall|k: int| start <= k < end ==> #[trigger] space_len(s, k) == 0
            &&& start == 0 || exists|w: int| 1 <= w <= 3 && #[trigger] space_len(s, start - w) == w
            &&& end == s.len() || space_len(s, end) > 0
        },
{
    lemma_word_from(s, 0, n);
}

proof fn lemma_word_from(s: Seq<u8>, from: int, n: nat)
    requires
        0 <= from <= s.len(),
    ensures
        word_at(s, from, n) matches Some((start, end)) ==> {
            &&& from <= start < end <= s.len()
            &&& forall|k: int| start <= k < end ==> #[trigger] space_len(s, k) == 0
            &&& start == from || exists|w: int|
                1 <= w <= 3 && #[trigger] space_len(s, start - w) == w
            &&& end == s.len() || space_len(s, end) > 0
        },
    decreases n,
{
    let start = skip_space(s, from);
    lemma_skip_space(s, from);
    if start < s.len() {
        let end = skip_word(s, start);
        lemma_skip_word(s, start);
        if n > 0 {
            lemma_word_from(s, end, (n - 1) as nat);
        }
    }
}

/// What `strip_parens` leaves is a part of the text with nothing but
/// parentheses cut off before and after it, and, unless nothing is left, it
/// neither begins nor ends with a parenthesis.
pub proof fn lemma_strip_parens(s: Seq<u8>)
    ensures
        ({
            let start = skip_parens(s, 0);
            let end = trim_parens_end(s, start, s.len() as int);
            &&& 0 <= start <= end <= s.len()
            &&& strip_parens(s) == s.subrange(start, end)
            &&& forall|k: int| 0 <= k < start ==> is_paren(#[trigger] s[k])
            &&& forall|k: int| end <= k < s.len() ==> is_paren(#[trigger] s[k])
            &&& start < end ==> !is_paren(s[start]) && !is_paren(s[end - 1])
        }),
{
    lemma_skip_parens(s, 0);
    lemma_trim_parens_end(s, skip_parens(s, 0), s.len() as int);
}

proof fn lemma_skip_parens(s: Seq<u8>, i: int)
    requires
        0 <= i <= s.len(),
    ensures
        i <= skip_parens(s, i) <= s.len(),
        forall|k: int| i <= k < skip_parens(s, i) ==> is_paren(#[trigger] s[k]),
        skip_parens(s, i) < s.len() ==> !is_paren(s[skip_parens(s, i)]),
    decreases s.len() - i,
{
    if i < s.len() && is_paren(s[i]) {
        lemma_skip_parens(s, i + 1);
    }
}

proof fn lemma_trim_parens_end(s: Seq<u8>, low: int, end: int)
    requires
        0 <= low <= end <= s.len(),
    ensures
        low <= trim_parens_end(s, low, end) <= end,
        forall|k: int| trim_parens_end(s, low, end) <= k < end ==> is_paren(#[trigger] s[k]),
        low < trim_parens_end(s, low, end) ==> !is_paren(s[trim_parens_end(s, low, end) - 1]),
    decreases end - low,
{
    if low < end && is_paren(s[end - 1]) {
        lemma_trim_parens_end(s, low, end - 1);
    }
}

/// The length of the white space character that begins at `i`, or 0.
fn space_at(s: &[u8], i: usize) -> (w: usize)
    requires
        i < s@.len(),
    ensures
        w == space_len(s@, i as int),
        i + w <= s@.len(),
{
    let a = s[i];
    if a == 0x20 || (0x09 <= a && a <= 0x0d) {
        1
    } else if a == 0xc2 {
        if s.len() - i > 1 && (s[i + 1] == 0x85 || s[i + 1] == 0xa0) {
            2
        } else {
            0
        }
    } else if s.len() - i > 2 {
        let b = s[i + 1];
        let c = s[i + 2];
        if (a == 0xe1 && b == 0x9a && c == 0x80) || (a == 0xe2 && b == 0x80 && ((0x80 <= c && c
            <= 0x8a) || c == 0xa8 || c == 0xa9 || c == 0xaf)) || (a == 0xe2 && b == 0x81 && c
            == 0x9f) || (a == 0xe3 && b == 0x80 && c == 0x80) {
            3
        } else {
            0
        }
    } else {
        0
    }
}

fn scan_space(s: &[u8], from: usize) -> (to: usize)
    requires
        from <= s@.len(),
    ensures
        to == skip_space(s@, from as int),
        from <= to <= s@.len(),
        space_len(s@, to as int) == 0,
{
    let mut i = from;
    while i < s.len()
        invariant
            from <= i <= s@.len(),
            skip_space(s@, from as int) == skip_space(s@, i as int),
        decreases s@.len() - i,
    {
        let w = space_at(s, i);
        if w == 0 {
            return i;
        }
        i = i + w;
    }
    i
}

fn scan_word(s: &[u8], from: usize) -> (to: usize)
    requires
        from <= s@.len(),
    ensures
        to == skip_word(s@, from as int),
        from <= to <= s@.len(),
        from < s@.len() && space_len(s@, from as int) == 0 ==> from < to,
{
    let mut i = from;
    while i < s.len()
        invariant
            from <= i <= s@.len(),
            skip_word(s@, from as int) == skip_word(s@, i as int),
        decreases s@.len() - i,
    {
        if space_at(s, i) != 0 {
            return i;
        }
        i = i + 1;
    }
    i
}

/// Finds word number `n` of the line (counted from 0): where it starts and
/// where it ends.
pub fn find_word(s: &[u8], n: usize) -> (found: Option<(usize, usize)>)
    ensures
        found is Some <==> word_at(s@, 0, n as nat) is Some,
        found matches Some((start, end)) ==> word_at(s@, 0, n as nat) == Some(
            (start as int, end as int),
        ) && start < end <= s@.len(),
{
    let mut pos: usize = 0;
    let mut k: usize = 0;
    loop
        invariant
            k <= n,
            pos <= s@.len(),
            word_at(s@, 0, n as nat) == word_at(s@, pos as int, (n - k) as nat),
        decreases n - k,
    {
        let start = scan_space(s, pos);
        let end = scan_word(s, start);
        if start >= s.len() {
            return None;
        }
        if k == n {
            return Some((start, end));
        }
        pos = end;
        k = k + 1;
    }
}

/// Copies `s[start..end]`.
fn copy_range(s: &[u8], start: usize, end: usize) -> (out: Vec<u8>)
    requires
        start <= end <= s@.len(),
    ensures
        out@ == s@.subrange(start as int, end as int),
{
    let mut out: Vec<u8> = Vec::new();
    let mut i = start;
    while i < end
        invariant
            start <= i <= end <= s@.len(),
            out@ == s@.subrange(start as int, i as int),
        decreases end - i,
    {
        out.push(s[i]);
        assert(s@.subrange(start as int, i as int).push(s@[i as int]) =~= s@.subrange(
            start as int,
            i + 1,
        ));
        i = i + 1;
    }
    out
}

/// Cuts the parentheses off both ends of `s`.
pub fn trim_parens(s: &[u8]) -> (out: Vec<u8>)
    ensures
        out@ == strip_parens(s@),
{
    let mut start: usize = 0;
    while start < s.len() && (s[start] == 0x28 || s[start] == 0x29)
        invariant
            start <= s@.len(),
            skip_parens(s@, 0) == skip_parens(s@, start as int),
        decreases s@.len() - start,
    {
        start = start + 1;
    }
    let mut end: usize = s.len();
    while start < end && (s[end - 1] == 0x28 || s[end - 1] == 0x29)
        invariant
            start <= end <= s@.len(),
            trim_parens_end(s@, start as int, s@.len() as int) == trim_parens_end(
                s@,
                start as int,
                end as int,
            ),
        decreases end - start,
    {
        end = end - 1;
    }
    copy_range(s, start, end)
}

fn scan_hash(s: &[u8], from: usize) -> (to: usize)
    requires
        from <= s@.len(),
    ensures
        to == find_hash(s@, from as int),
        from <= to <= s@.len(),
{
    let mut i = from;
    while i < s.len() && s[i] != 0x23
        invariant
            from <= i <= s@.len(),
            find_hash(s@, from as int) == find_hash(s@, i as int),
        decreases s@.len() - i,
    {
        i = i + 1;
    }
    i
}

/// The value of one hexadecimal digit.
pub fn hex_digit_value(b: u8) -> (v: Option<u8>)
    ensures
        match hex_digit(b) {
            Some(d) => v == Some(d as u8) && 0 <= d < 16,
            None => v is None,
        },
{
    if 0x30 <= b && b <= 0x39 {
        Some(b - 0x30)
    } else if 0x41 <= b && b <= 0x46 {
        Some(b - 0x41 + 10)
    } else if 0x61 <= b && b <= 0x66 {
        Some(b - 0x61 + 10)
    } else {
        None
    }
}

/// A number only grows as digits are added to it.
proof fn lemma_hex_value_grows(s: Seq<u8>, n: int)
    requires
        0 <= n <= s.len(),
        all_hex(s),
    ensures
        0 <= hex_value(s.subrange(0, n)) <= hex_value(s),
    decreases s.len() - n,
{
    if n == s.len() {
        assert(s.subrange(0, n) =~= s);
        lemma_hex_value_nonnegative(s);
    } else {
        let longer = s.subrange(0, n + 1);
        assert(longer.drop_last() =~= s.subrange(0, n));
        assert(longer.last() == s[n]);
        lemma_hex_value_nonnegative(s.subrange(0, n));
        lemma_hex_value_grows(s, n + 1);
    }
}

proof fn lemma_hex_value_nonnegative(s: Seq<u8>)
    requires
        all_hex(s),
    ensures
        0 <= hex_value(s),
    decreases s.len(),
{
    if s.len() > 0 {
        lemma_hex_value_nonnegative(s.drop_last());
    }
}

/// Reads an arbitration id: hexadecimal digits, at least one, that spell a
/// number of at most 32 bits.
pub fn parse_id(s: &[u8]) -> (id: Option<u32>)
    ensures
        id == spec_id(s@),
{
    if s.len() == 0 {
        return None;
    }
    let mut acc: u64 = 0;
    let mut i: usize = 0;
    while i < s.len()
        invariant
            i <= s@.len(),
            all_hex(s@.subrange(0, i as int)),
            acc == hex_value(s@.subrange(0, i as int)),
            acc <= u32::MAX,
        decreases s@.len() - i,
    {
        match hex_digit_value(s[i]) {
            Some(d) => {
                let ghost before = s@.subrange(0, i as int);
                let ghost after = s@.subrange(0, i + 1);
                assert(after.drop_last() =~= before);
                assert(after.last() == s@[i as int]);
                assert(all_hex(after)) by {
                    assert forall|k: int| 0 <= k < after.len() implies hex_digit(
                        #[trigger] after[k],
                    ) is Some by {
                        if k < i {
                            assert(after[k] == before[k]);
                        }
                    }
                }
                acc = acc * 16 + d as u64;
                if acc > 0xffff_ffff {
                    proof {
                        if all_hex(s@) {
                            lemma_hex_value_grows(s@, i + 1);
                        }
                    }
                    return None;
                }
            },
            None => {
                assert(!all_hex(s@));
                return None;
            },
        }
        i = i + 1;
    }
    assert(s@.subrange(0, i as int) =~= s@);
    Some(acc as u32)
}

/// Reads a payload: two hexadecimal digits to the byte, eight bytes at most.
pub fn parse_payload(s: &[u8]) -> (data: Option<[u8; 8]>)
    ensures
        match spec_payload(s@) {
            Some(bytes) => data matches Some(d) && d@ == bytes,
            None => data is None,
        },
{
    let n: usize = if s.len() / 2 < 8 {
        s.len() / 2
    } else {
        8
    };
    let mut data = [0u8; 8];
    let mut i: usize = 0;
    while i < n
        invariant
            i <= n <= 8,
            n == payload_len(s@),
            2 * n <= s@.len(),
            all_hex(s@.subrange(0, 2 * i)),
            forall|k: int|
                0 <= k < i ==> data@[k] == (hex_digit(s@[2 * k]).unwrap() * 16 + hex_digit(
                    s@[2 * k + 1],
                ).unwrap()) as u8,
            forall|k: int| i <= k < 8 ==> data@[k] == 0u8,
        decreases n - i,
    {
        let high = hex_digit_value(s[2 * i]);
        let low = hex_digit_value(s[2 * i + 1]);
        match (high, low) {
            (Some(h), Some(l)) => {
                data[i] = h * 16 + l;
                assert(all_hex(s@.subrange(0, 2 * (i + 1)))) by {
                    let before = s@.subrange(0, 2 * i);
                    let after = s@.subrange(0, 2 * (i + 1));
                    assert forall|k: int| 0 <= k < after.len() implies hex_digit(
                        #[trigger] after[k],
                    ) is Some by {
                        if k < 2 * i {
                            assert(after[k] == before[k]);
                        }
                    }
                }
            },
            _ => {
                assert(!all_hex(s@.subrange(0, 2 * n))) by {
                    let all = s@.subrange(0, 2 * n);
                    if high is None {
                        assert(all[2 * i] == s@[2 * i]);
                    } else {
                        assert(all[2 * i + 1] == s@[2 * i + 1]);
                    }
                }
                return None;
            },
        }
        i = i + 1;
    }
    assert(data@ =~= spec_payload(s@).unwrap());
    Some(data)
}

/// Reads one line of a log. `None` means that the line is no frame: it has
/// fewer than three words, or its third word does not hold exactly one `#`,
/// or what stands around the `#` is not an id and a payload in hexadecimal.
pub fn parse_line(line: &[u8]) -> (record: Option<LineRecord>)
    ensures
        match spec_parse_line(line@) {
            Some(said) => record matches Some(r) && r@ == said,
            None => record is None,
        },
{
    let first = match find_word(line, 0) {
        Some(w) => w,
        None => {
            return None;
        },
    };
    let third = match find_word(line, 2) {
        Some(w) => w,
        None => {
            return None;
        },
    };
    let first_word = slice_of(line, first.0, first.1);
    let third_word = slice_of(line, third.0, third.1);
    let at = scan_hash(third_word, 0);
    if at >= third_word.len() {
        return None;
    }
    if scan_hash(third_word, at + 1) < third_word.len() {
        return None;
    }
    let id_text = slice_of(third_word, 0, at);
    let data_text = slice_of(third_word, at + 1, third_word.len());
    let id = match parse_id(id_text) {
        Some(id) => id,
        None => {
            return None;
        },
    };
    let data = match parse_payload(data_text) {
        Some(data) => data,
        None => {
            return None;
        },
    };
    let record = LineRecord { timestamp: trim_parens(first_word), id, data };
    assert(record@.timestamp =~= spec_parse_line(line@).unwrap().timestamp);
    Some(record)
}

/// What became of a line that was offered to the parser.
#[derive(Clone, Copy, Debug, PartialEq, Eq, Structural)]
pub enum LineOutcome {
    /// The line is a frame, and the parser now holds it.
    Frame,
    /// The line is no frame; the parser holds what it held.
    Skipped,
    /// The line is empty to the last byte: the input has ended.
    End,
}

/// Whether `read_time`, asked for the time that `line` gives, may have
/// answered `answer`. A line that is no frame gives no time and is never
/// asked about.
pub open spec fn time_answer<F: Fn(&[u8]) -> Option<u64>>(
    read_time: F,
    line: Seq<u8>,
    answer: Option<u64>,
) -> bool {
    spec_parse_line(line) matches Some(said) && exists|text: &[u8]|
        text@ == said.timestamp && call_ensures(read_time, (text,), answer)
}

/// Whether `frame` is what `line` says: the line is a frame with that id and
/// payload, and `read_time` read its time as that of `frame`.
pub open spec fn taken<F: Fn(&[u8]) -> Option<u64>>(
    read_time: F,
    line: Seq<u8>,
    frame: CanFrame,
) -> bool {
    &&& spec_parse_line(line) matches Some(said)
    &&& frame.id == said.id
    &&& frame.data@ == said.data
    &&& time_answer(read_time, line, Some(frame.timestamp))
}

/// Whether a line was turned down: it is no frame, or its time could not be
/// read.
pub open spec fn rejected<F: Fn(&[u8]) -> Option<u64>>(read_time: F, line: Seq<u8>) -> bool {
    spec_parse_line(line) is None || time_answer(read_time, line, None)
}

/// Replays a text log held in memory: holds the frame read last, and reads
/// the next one on demand.
///
/// What number a written time spells is not decided here. The caller passes
/// a function that reads it and answers with the time in seconds as the bit
/// pattern of a double, or with `None` for text that spells no time.
#[derive(Debug)]
pub struct CanDumpParser {
    lines: Vec<Vec<u8>>,
    next: usize,
    current_timestamp: u64,
    current_id: u32,
    current_data: [u8; 8],
}

impl CanDumpParser {
    /// The lines of the log.
    pub closed spec fn lines(&self) -> Seq<Seq<u8>> {
        Seq::new(self.lines@.len(), |k: int| self.lines@[k]@)
    }

    /// The number of lines read so far.
    pub closed spec fn position(&self) -> int {
        self.next as int
    }

    /// The frame held at present: that of the last line that was a frame, or
    /// time zero, id zero and an empty payload before the first.
    pub closed spec fn frame(&self) -> CanFrame {
        CanFrame {
            timestamp: self.current_timestamp,
            id: self.current_id,
            data: self.current_data,
        }
    }

    #[verifier::type_invariant]
    spec fn within(self) -> bool {
        self.next <= self.lines@.len()
    }

    /// A parser at the start of the log `lines`. For input that comes line by
    /// line, start with no lines and use `parse_string`.
    pub fn new(lines: Vec<Vec<u8>>) -> (parser: Self)
        ensures
            parser.lines() == Seq::new(lines@.len(), |k: int| lines@[k]@),
            parser.position() == 0,
            parser.frame().timestamp == 0,
            parser.frame().id == 0,
            parser.frame().data@ == Seq::new(8, |i: int| 0u8),
    {
        let parser = CanDumpParser {
            lines,
            next: 0,
            current_timestamp: 0,
            current_id: 0,
            current_data: [0u8; 8],
        };
        assert(parser.frame().data@ =~= Seq::new(8, |i: int| 0u8));
        parser
    }

    /// Reads on in the log until a line is a frame whose time `read_time` can
    /// read; the parser then holds that frame. Lines that do not fit are
    /// passed over. Returns true at the end of the log; the parser then holds
    /// what it held.
    pub fn parse<F: Fn(&[u8]) -> Option<u64>>(&mut self, read_time: F) -> (end: bool)
        requires
            forall|text: &[u8]| call_requires(read_time, (text,)),
        ensures
            final(self).lines() == old(self).lines(),
            old(self).position() <= final(self).position() <= old(self).lines().len(),
            end ==> {
                &&& final(self).position() == old(self).lines().len()
                &&& final(self).frame() == old(self).frame()
                &&& forall|k: int|
                    old(self).position() <= k < old(self).lines().len() ==> rejected(
                        read_time,
                        #[trigger] old(self).lines()[k],
                    )
            },
            !end ==> {
                &&& old(self).position() < final(self).position()
                &&& taken(
                    read_time,
                    old(self).lines()[final(self).position() - 1],
                    final(self).frame(),
                )
                &&& forall|k: int|
                    old(self).position() <= k < final(self).position() - 1 ==> rejected(
                        read_time,
                        #[trigger] old(self).lines()[k],
                    )
            },
    {
        proof {
            use_type_invariant(&*self);
        }
        let mut i = self.next;
        let mut found: Option<CanFrame> = None;
        while found.is_none() && i < self.lines.len()
            invariant
                *self == *old(self),
                self.next <= i <= self.lines@.len(),
                forall|text: &[u8]| call_requires(read_time, (text,)),
                forall|k: int|
                    self.next <= k < i - if found is Some {
                        1int
                    } else {
                        0int
                    } ==> rejected(read_time, #[trigger] self.lines()[k]),
                found matches Some(frame) ==> i > self.next && taken(
                    read_time,
                    self.lines()[i - 1],
                    frame,
                ),
            decreases self.lines@.len() - i + if found is Some { 0int } else { 1int },
        {
            assert(self.lines()[i as int] == self.lines@[i as int]@);
            match parse_line(self.lines[i].as_slice()) {
                Some(record) => {
                    let answer = read_time(record.timestamp.as_slice());
                    match answer {
                        Some(timestamp) => {
                            found = Some(CanFrame { timestamp, id: record.id, data: record.data });
                        },
                        None => {},
                    }
                },
                None => {},
            }
            i = i + 1;
        }
        self.next = i;
        match found {
            Some(frame) => {
                self.current_timestamp = frame.timestamp;
                self.current_id = frame.id;
                self.current_data = frame.data;
                false
            },
            None => true,
        }
    }

    /// Offers one line that came from elsewhere than the log held. If it is a
    /// frame and `read_time` can read its time, the parser holds that frame
    /// from now on. Any other line changes nothing, and a line without a
    /// single byte says that the input has ended.
    pub fn parse_string<F: Fn(&[u8]) -> Option<u64>>(
        &mut self,
        line: &[u8],
        read_time: F,
    ) -> (outcome: LineOutcome)
        requires
            forall|text: &[u8]| call_requires(read_time, (text,)),
        ensures
            final(self).lines() == old(self).lines(),
            final(self).position() == old(self).position(),
            outcome == LineOutcome::End <==> line@.len() == 0,
            outcome == LineOutcome::Frame ==> taken(read_time, line@, final(self).frame()),
            outcome == LineOutcome::Skipped ==> rejected(read_time, line@),
            outcome != LineOutcome::Frame ==> final(self).frame() == old(self).frame(),
    {
        proof {
            use_type_invariant(&*self);
        }
        if line.len() == 0 {
            return LineOutcome::End;
        }
        match parse_line(line) {
            Some(record) => {
                let answer = read_time(record.timestamp.as_slice());
                match answer {
                    Some(timestamp) => {
                        self.current_timestamp = timestamp;
                        self.current_id = record.id;
                        self.current_data = record.data;
                        LineOutcome::Frame
                    },
                    None => LineOutcome::Skipped,
                }
            },
            None => LineOutcome::Skipped,
        }
    }

    /// The time of the frame held, in seconds, as the bit pattern of a double.
    pub fn get_timestamp(&self) -> (timestamp: u64)
        ensures
            timestamp == self.frame().timestamp,
    {
        self.current_timestamp
    }

    /// The arbitration id of the frame held.
    pub fn get_id(&self) -> (id: u32)
        ensures
            id == self.frame().id,
    {
        self.current_id
    }

    /// The payload of the frame held, padded with zeros to eight bytes.
    pub fn get_data(&self) -> (data: [u8; 8])
        ensures
            data == self.frame().data,
    {
        self.current_data
    }
}

/// The part of `s` from `start` to `end`.
fn slice_of(s: &[u8], start: usize, end: usize) -> (part: &[u8])
    requires
        start <= end <= s@.len(),
    ensures
        part@ == s@.subrange(start as int, end as int),
{
    vstd::slice::slice_subrange(s, start, end)
}

} // verus!
