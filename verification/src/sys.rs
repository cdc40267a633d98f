//! Texts and buffers as Windows wants them.

use vstd::arithmetic::div_mod::lemma_fundamental_div_mod_converse;
use vstd::prelude::*;

use crate::text::chars_of;
use crate::text::slice_text;
use crate::text::string_of;
use crate::text::to_decimal;

verus! {

/// A character in UTF-16: one unit, or a pair for the characters behind the first 65536.
pub open spec fn units_of(c: char) -> Seq<u16> {
    let code = c as int;
    if code < 0x1_0000 {
        seq![code as u16]
    } else {
        seq![
            (0xd800 + (code - 0x1_0000) / 0x400) as u16,
            (0xdc00 + (code - 0x1_0000) % 0x400) as u16,
        ]
    }
}

/// A text in UTF-16.
pub open spec fn utf16(s: Seq<char>) -> Seq<u16>
    decreases s.len(),
{
    if s.len() == 0 {
        seq![]
    } else {
        utf16(s.drop_last()) + units_of(s.last())
    }
}

/// A text in UTF-16 with a zero at the end, as Windows takes it.
pub fn wide(s: &str) -> (r: Vec<u16>)
    ensures
        r@ == utf16(s@).push(0),
{
    let v = chars_of(s);
    let mut r: Vec<u16> = Vec::new();
    let mut i: usize = 0;
    proof {
        assert(v@.take(0) =~= seq![]);
    }
    while i < v.len()
        invariant
            i <= v.len(),
            r@ == utf16(v@.take(i as int)),
        decreases v.len() - i,
    {
        proof {
            assert(v@.take(i + 1).drop_last() =~= v@.take(i as int));
            assert(v@.take(i + 1).last() == v@[i as int]);
        }
        let code = crate::text::code_of(v[i]);
        let ghost before = r@;
        if code < 0x1_0000 {
            r.push(code as u16);
            proof {
                assert(r@ =~= before + units_of(v@[i as int]));
            }
        } else {
            let rest: u32 = code - 0x1_0000;
            r.push((0xd800 + rest / 0x400) as u16);
            r.push((0xdc00 + rest % 0x400) as u16);
            proof {
                assert(r@ =~= before + units_of(v@[i as int]));
            }
        }
        i += 1;
    }
    proof {
        assert(v@.take(v.len() as int) =~= v@);
    }
    r.push(0);
    r
}

/// The unit is half of a pair.
pub open spec fn first_half(unit: u16) -> bool {
    0xd800 <= unit < 0xdc00
}

pub open spec fn second_half(unit: u16) -> bool {
    0xdc00 <= unit < 0xe000
}

/// The character of a pair.
pub open spec fn paired(high: u16, low: u16) -> char {
    (0x1_0000 + (high - 0xd800) * 0x400 + (low - 0xdc00)) as char
}

/// The text of UTF-16 units; a half without its other half becomes U+FFFD.
pub open spec fn from_utf16(units: Seq<u16>) -> Seq<char>
    decreases units.len(),
{
    if units.len() == 0 {
        seq![]
    } else if !first_half(units[0]) && !second_half(units[0]) {
        seq![units[0] as char] + from_utf16(units.skip(1))
    } else if first_half(units[0]) && units.len() > 1 && second_half(units[1]) {
        seq![paired(units[0], units[1])] + from_utf16(units.skip(2))
    } else {
        seq!['\u{fffd}'] + from_utf16(units.skip(1))
    }
}

/// The units in front of the first zero.
pub open spec fn before_zero(units: Seq<u16>) -> Seq<u16>
    decreases units.len(),
{
    if units.len() == 0 || units[0] == 0 {
        seq![]
    } else {
        seq![units[0]] + before_zero(units.skip(1))
    }
}

fn char_from(code: u32) -> (r: char)
    requires
        code < 0xd800 || 0xdfff < code < 0x11_0000,
    ensures
        r == code as char,
{
    match char::from_u32(code) {
        Some(c) => c,
        None => '?',
    }
}

/// The text of UTF-16 units up to the first zero.
pub fn from_wide(buf: &[u16]) -> (r: String)
    ensures
        r@ == from_utf16(before_zero(buf@)),
{
    let mut end: usize = 0;
    proof {
        assert(buf@.skip(0) =~= buf@);
        assert(buf@.take(0) + before_zero(buf@) =~= before_zero(buf@));
    }
    while end < buf.len() && buf[end] != 0
        invariant
            end <= buf.len(),
            before_zero(buf@) == buf@.take(end as int) + before_zero(buf@.skip(end as int)),
        decreases buf.len() - end,
    {
        proof {
            let rest = buf@.skip(end as int);
            assert(rest[0] == buf@[end as int]);
            assert(rest.skip(1) =~= buf@.skip(end + 1));
            assert(buf@.take(end as int) + (seq![rest[0]] + before_zero(rest.skip(1))) =~= buf@.take(
                end + 1,
            ) + before_zero(buf@.skip(end + 1)));
        }
        end += 1;
    }
    let ghost units = buf@.take(end as int);
    proof {
        let rest = buf@.skip(end as int);
        if end < buf.len() {
            assert(rest[0] == buf@[end as int]);
        }
        assert(before_zero(buf@) =~= units);
    }
    let mut text: Vec<char> = Vec::new();
    let mut i: usize = 0;
    proof {
        assert(units.skip(0) =~= units);
        assert(text@ + from_utf16(units) =~= from_utf16(units));
    }
    while i < end
        invariant
            i <= end <= buf.len(),
            units == buf@.take(end as int),
            text@ + from_utf16(units.skip(i as int)) == from_utf16(units),
        decreases end - i,
    {
        let unit: u16 = buf[i];
        let ghost rest = units.skip(i as int);
        let ghost before = text@;
        proof {
            assert(rest[0] == unit);
            assert(rest.skip(1) =~= units.skip(i + 1));
        }
        if unit < 0xd800 || unit >= 0xe000 {
            let c = char_from(unit as u32);
            text.push(c);
            proof {
                assert(before + (seq![c] + from_utf16(units.skip(i + 1))) =~= text@ + from_utf16(
                    units.skip(i + 1),
                ));
            }
            i += 1;
        } else if unit < 0xdc00 && i + 1 < end && buf[i + 1] >= 0xdc00 && buf[i + 1] < 0xe000 {
            let low: u16 = buf[i + 1];
            let c = char_from(0x1_0000 + (unit as u32 - 0xd800) * 0x400 + (low as u32 - 0xdc00));
            text.push(c);
            proof {
                assert(rest[1] == low);
                assert(rest.skip(2) =~= units.skip(i + 2));
                assert(before + (seq![c] + from_utf16(units.skip(i + 2))) =~= text@ + from_utf16(
                    units.skip(i + 2),
                ));
            }
            i += 2;
        } else {
            proof {
                if i + 1 < end {
                    assert(rest[1] == buf@[i + 1]);
                }
            }
            text.push('\u{fffd}');
            proof {
                assert(before + (seq!['\u{fffd}'] + from_utf16(units.skip(i + 1))) =~= text@
                    + from_utf16(units.skip(i + 1)));
            }
            i += 1;
        }
    }
    proof {
        assert(units.skip(end as int) =~= seq![]);
        assert(text@ + seq![] =~= text@);
    }
    string_of(&text)
}

proof fn lemma_utf16_front(c: char, rest: Seq<char>)
    ensures
        utf16(seq![c] + rest) == units_of(c) + utf16(rest),
    decreases rest.len(),
{
    let s = seq![c] + rest;
    if rest.len() == 0 {
        assert(s.drop_last() =~= seq![]);
        assert(s.last() == c);
        assert(utf16(s.drop_last()) =~= seq![]);
        assert(utf16(rest) =~= seq![]);
        assert(utf16(s.drop_last()) + units_of(c) =~= units_of(c) + utf16(rest));
    } else {
        lemma_utf16_front(c, rest.drop_last());
        assert(s.drop_last() =~= seq![c] + rest.drop_last());
        assert(s.last() == rest.last());
        assert(units_of(c) + utf16(rest.drop_last()) + units_of(rest.last()) =~= units_of(c) + (
        utf16(rest.drop_last()) + units_of(rest.last())));
    }
}

proof fn lemma_one_character(c: char, rest: Seq<u16>)
    ensures
        from_utf16(units_of(c) + rest) == seq![c] + from_utf16(rest),
        c as int != 0 ==> forall|i: int|
            0 <= i < units_of(c).len() ==> #[trigger] units_of(c)[i] != 0,
{
    let code = c as int;
    let units = units_of(c) + rest;
    let v: char = c;
    if code < 0x1_0000 {
        assert(units[0] == code);
        assert(units.skip(1) =~= rest);
        assert(units[0] as char == c);
    } else {
        assert(units[0] == 0xd800 + (code - 0x1_0000) / 0x400);
        assert(units[1] == 0xdc00 + (code - 0x1_0000) % 0x400);
        assert(units.skip(2) =~= rest);
        assert(0x1_0000 + (units[0] - 0xd800) * 0x400 + (units[1] - 0xdc00) == code);
        assert(paired(units[0], units[1]) == c);
    }
}

proof fn lemma_before_zero_behind(a: Seq<u16>, b: Seq<u16>)
    requires
        forall|i: int| 0 <= i < a.len() ==> #[trigger] a[i] != 0,
    ensures
        before_zero(a + b) == a + before_zero(b),
    decreases a.len(),
{
    let s = a + b;
    if a.len() == 0 {
        assert(s =~= b);
        assert(a + before_zero(b) =~= before_zero(b));
    } else {
        assert(s[0] == a[0]);
        assert(s.skip(1) =~= a.skip(1) + b);
        assert forall|i: int| 0 <= i < a.skip(1).len() implies #[trigger] a.skip(1)[i] != 0 by {
            assert(a.skip(1)[i] == a[i + 1]);
        }
        lemma_before_zero_behind(a.skip(1), b);
        assert(seq![a[0]] + (a.skip(1) + before_zero(b)) =~= a + before_zero(b));
    }
}

/// The part of a text in front of its first zero.
pub open spec fn text_before_zero(s: Seq<char>) -> Seq<char>
    decreases s.len(),
{
    if s.len() == 0 || s[0] == '\0' {
        seq![]
    } else {
        seq![s[0]] + text_before_zero(s.skip(1))
    }
}

/// Of a text without zeros that is all of it.
pub proof fn lemma_text_without_zero(s: Seq<char>)
    requires
        !s.contains('\0'),
    ensures
        text_before_zero(s) == s,
    decreases s.len(),
{
    if s.len() > 0 {
        assert(s.contains(s[0]));
        assert forall|i: int| 0 <= i < s.skip(1).len() implies #[trigger] s.skip(1)[i] != '\0' by {
            assert(s.contains(s[i + 1]));
        }
        lemma_text_without_zero(s.skip(1));
        assert(seq![s[0]] + s.skip(1) =~= s);
    } else {
        assert(text_before_zero(s) =~= s);
    }
}

/// A text reads back from its UTF-16 up to its first zero, whatever stands behind the zero at its
/// end: a text without zeros reads back whole.
pub proof fn law_wide_reads_back(s: Seq<char>, behind: Seq<u16>)
    ensures
        from_utf16(before_zero(utf16(s).push(0) + behind)) == text_before_zero(s),
        !s.contains('\0') ==> text_before_zero(s) == s,
    decreases s.len(),
{
    if !s.contains('\0') {
        lemma_text_without_zero(s);
    }
    let all = utf16(s).push(0) + behind;
    if s.len() == 0 {
        assert(all[0] == 0);
        assert(before_zero(all) =~= seq![]);
    } else {
        let rest = s.skip(1);
        let behind_one = utf16(rest).push(0) + behind;
        lemma_utf16_front(s[0], rest);
        assert(seq![s[0]] + rest =~= s);
        assert(all =~= units_of(s[0]) + behind_one);
        if s[0] == '\0' {
            assert(units_of(s[0]) =~= seq![0u16]);
            assert(all[0] == 0);
            assert(before_zero(all) =~= seq![]);
        } else {
            lemma_one_character(s[0], before_zero(behind_one));
            lemma_before_zero_behind(units_of(s[0]), behind_one);
            law_wide_reads_back(rest, behind);
        }
    }
}

/// The size of `EVENT_TRACE_PROPERTIES`, in bytes.
pub const PROPS_SIZE: usize = 120;

/// How many bytes are kept for each of the two names behind the structure.
pub const NAME_BYTES: usize = 1024;

pub const PROPS_BUFFER_BYTES: usize = 2168;

/// Where `Wnode.BufferSize`, `LogFileNameOffset` and `LoggerNameOffset` stand, in units of two
/// bytes.
pub const BUFFER_SIZE_UNIT: usize = 0;

pub const LOG_FILE_UNIT: usize = 56;

pub const LOGGER_UNIT: usize = 58;

/// A buffer for `EVENT_TRACE_PROPERTIES` and the two names behind it: the structure wants its
/// eight-byte alignment, and the names lie in the same memory.
#[derive(Debug)]
pub struct PropsBuffer {
    pub words: Vec<u64>,
}

/// The units of two bytes that a word is made of, lowest first.
pub open spec fn unit_in(word: u64, place: int) -> u16 {
    if place == 0 {
        (word % 0x1_0000) as u16
    } else if place == 1 {
        (word / 0x1_0000 % 0x1_0000) as u16
    } else if place == 2 {
        (word / 0x1_0000_0000 % 0x1_0000) as u16
    } else {
        (word / 0x1_0000_0000_0000) as u16
    }
}

/// The memory of a buffer in units of two bytes.
pub open spec fn units(words: Seq<u64>) -> Seq<u16> {
    Seq::new(4 * words.len(), |i: int| unit_in(words[i / 4], i % 4))
}

/// The four bytes from an even unit on, as a number.
pub open spec fn number_at(memory: Seq<u16>, unit: int) -> nat {
    (memory[unit] + 0x1_0000 * memory[unit + 1]) as nat
}

/// A byte of the memory.
pub open spec fn byte_at(memory: Seq<u16>, at: int) -> nat {
    if at % 2 == 0 {
        (memory[at / 2] % 0x100) as nat
    } else {
        (memory[at / 2] / 0x100) as nat
    }
}

/// The units from a byte on, to the end of the memory.
pub open spec fn units_from(memory: Seq<u16>, offset: int) -> Seq<u16> {
    Seq::new(
        ((2 * memory.len() - offset) / 2) as nat,
        |i: int|
            (byte_at(memory, offset + 2 * i) + 0x100 * byte_at(memory, offset + 2 * i + 1)) as u16,
    )
}

/// The memory with two units set to a number.
pub open spec fn with_number(memory: Seq<u16>, unit: int, n: nat) -> Seq<u16> {
    memory.update(unit, (n % 0x1_0000) as u16).update(unit + 1, (n / 0x1_0000) as u16)
}

/// The memory with the fields that every call wants.
pub open spec fn initialized(memory: Seq<u16>, with_log_file_name: bool) -> Seq<u16> {
    let memory = with_number(memory, BUFFER_SIZE_UNIT as int, 2 * memory.len());
    let memory = with_number(memory, LOGGER_UNIT as int, PROPS_SIZE as nat);
    with_number(
        memory,
        LOG_FILE_UNIT as int,
        if with_log_file_name {
            (PROPS_SIZE + NAME_BYTES) as nat
        } else {
            0
        },
    )
}

/// The longest name that fits its place, with the zero behind it.
pub open spec fn fitting(name: Seq<u16>) -> Seq<u16> {
    if name.len() <= 511 {
        name
    } else {
        name.take(511)
    }
}

/// The memory with some units overwritten.
pub open spec fn overwritten(memory: Seq<u16>, from: int, with: Seq<u16>) -> Seq<u16> {
    Seq::new(
        memory.len(),
        |i: int|
            if from <= i < from + with.len() {
                with[i - from]
            } else {
                memory[i]
            },
    )
}

/// The name of the session in a buffer.
pub open spec fn name_in(memory: Seq<u16>) -> Seq<char> {
    let offset = number_at(memory, LOGGER_UNIT as int);
    if offset == 0 || offset + 2 > 2 * memory.len() {
        seq![]
    } else {
        from_utf16(before_zero(units_from(memory, offset as int)))
    }
}

proof fn lemma_word_of_units(word: u64, a: u64, b: u64, c: u64, d: u64)
    requires
        a < 0x1_0000,
        b < 0x1_0000,
        c < 0x1_0000,
        d < 0x1_0000,
        word == a + b * 0x1_0000 + c * 0x1_0000_0000 + d * 0x1_0000_0000_0000,
    ensures
        unit_in(word, 0) == a,
        unit_in(word, 1) == b,
        unit_in(word, 2) == c,
        unit_in(word, 3) == d,
{
    let x = word as int;
    let y = b + c * 0x1_0000 + d * 0x1_0000_0000;
    let z = c + d * 0x1_0000;
    lemma_fundamental_div_mod_converse(x, 0x1_0000, y, a as int);
    lemma_fundamental_div_mod_converse(y, 0x1_0000, z, b as int);
    lemma_fundamental_div_mod_converse(x, 0x1_0000_0000, z, a + b * 0x1_0000);
    lemma_fundamental_div_mod_converse(z, 0x1_0000, d as int, c as int);
    lemma_fundamental_div_mod_converse(
        x,
        0x1_0000_0000_0000,
        d as int,
        a + b * 0x1_0000 + c * 0x1_0000_0000,
    );
}

impl PropsBuffer {
    pub open spec fn memory(self) -> Seq<u16> {
        units(self.words@)
    }

    /// As large as it was made.
    pub open spec fn whole(self) -> bool {
        self.words.len() == 271
    }

    pub fn new() -> (r: PropsBuffer)
        ensures
            r.whole(),
            r.memory() == Seq::new(1084, |i: int| 0u16),
    {
        let mut words: Vec<u64> = Vec::new();
        let mut i: usize = 0;
        while i < 271
            invariant
                i <= 271,
                words.len() == i,
                forall|j: int| 0 <= j < i ==> words@[j] == 0,
            decreases 271 - i,
        {
            words.push(0);
            i += 1;
        }
        let r = PropsBuffer { words };
        proof {
            assert(r.memory() =~= Seq::new(1084, |i: int| 0u16));
        }
        r
    }

    pub fn byte_len(&self) -> (r: usize)
        requires
            self.words.len() * 8 <= usize::MAX,
        ensures
            r == self.words.len() * 8,
    {
        self.words.len() * 8
    }

    fn unit(&self, at: usize) -> (r: u16)
        requires
            at < 4 * self.words.len(),
        ensures
            r == self.memory()[at as int],
    {
        let word: u64 = self.words[at / 4];
        let place: usize = at % 4;
        if place == 0 {
            (word % 0x1_0000) as u16
        } else if place == 1 {
            (word / 0x1_0000 % 0x1_0000) as u16
        } else if place == 2 {
            (word / 0x1_0000_0000 % 0x1_0000) as u16
        } else {
            (word / 0x1_0000_0000_0000) as u16
        }
    }

    fn set_unit(&mut self, at: usize, value: u16)
        requires
            at < 4 * old(self).words.len(),
        ensures
            final(self).words.len() == old(self).words.len(),
            final(self).memory() == old(self).memory().update(at as int, value),
    {
        let ghost before = self.words@;
        let word: u64 = self.words[at / 4];
        let place: usize = at % 4;
        let a: u64 = if place == 0 {
            value as u64
        } else {
            word % 0x1_0000
        };
        let b: u64 = if place == 1 {
            value as u64
        } else {
            word / 0x1_0000 % 0x1_0000
        };
        let c: u64 = if place == 2 {
            value as u64
        } else {
            word / 0x1_0000_0000 % 0x1_0000
        };
        let d: u64 = if place == 3 {
            value as u64
        } else {
            word / 0x1_0000_0000_0000
        };
        let changed: u64 = a + b * 0x1_0000 + c * 0x1_0000_0000 + d * 0x1_0000_0000_0000;
        self.words.set(at / 4, changed);
        proof {
            lemma_word_of_units(changed, a, b, c, d);
            let m = units(before).update(at as int, value);
            assert forall|i: int| 0 <= i < m.len() implies #[trigger] units(self.words@)[i]
                == m[i] by {
                if i / 4 == at as int / 4 {
                    assert(i % 4 == 0 || i % 4 == 1 || i % 4 == 2 || i % 4 == 3);
                }
            }
            assert(units(self.words@) =~= m);
        }
    }

    /// Writes a number of four bytes at an even unit.
    pub fn set_number(&mut self, at: usize, value: u32)
        requires
            at + 1 < 4 * old(self).words.len(),
            at < 1084,
        ensures
            final(self).words.len() == old(self).words.len(),
            final(self).memory() == with_number(old(self).memory(), at as int, value as nat),
    {
        self.set_unit(at, (value % 0x1_0000) as u16);
        self.set_unit(at + 1, (value / 0x1_0000) as u16);
    }

    /// The four bytes from a unit on, as a number.
    pub fn number(&self, at: usize) -> (r: u32)
        requires
            at + 1 < 4 * self.words.len(),
            at < 1084,
        ensures
            r == number_at(self.memory(), at as int),
    {
        let low = self.unit(at);
        let high = self.unit(at + 1);
        low as u32 + 0x1_0000 * (high as u32)
    }

    /// Fills the fields that every call to start, control or query a session wants. A session
    /// without a file wants no place for the file's name; the other calls want one to write into.
    pub fn init(&mut self, with_log_file_name: bool)
        requires
            old(self).whole(),
        ensures
            final(self).whole(),
            final(self).memory() == initialized(old(self).memory(), with_log_file_name),
    {
        let total: u32 = (self.words.len() * 8) as u32;
        self.set_number(BUFFER_SIZE_UNIT, total);
        self.set_number(LOGGER_UNIT, PROPS_SIZE as u32);
        self.set_number(
            LOG_FILE_UNIT,
            if with_log_file_name {
                (PROPS_SIZE + NAME_BYTES) as u32
            } else {
                0
            },
        );
    }

    /// Puts the name of a session behind the structure, cut to the room there is.
    pub fn write_logger_name(&mut self, name: &[u16])
        requires
            old(self).whole(),
        ensures
            final(self).whole(),
            final(self).memory() == overwritten(
                old(self).memory(),
                60,
                fitting(name@).push(0),
            ),
    {
        let take: usize = if name.len() < 511 {
            name.len()
        } else {
            511
        };
        let ghost start = self.memory();
        let ghost kept = fitting(name@);
        let mut i: usize = 0;
        proof {
            assert(overwritten(start, 60, kept.take(0)) =~= start);
        }
        while i < take
            invariant
                i <= take <= 511,
                take <= name.len(),
                take == kept.len(),
                kept == fitting(name@),
                self.whole(),
                start.len() == 1084,
                self.memory() == overwritten(start, 60, kept.take(i as int)),
            decreases take - i,
        {
            self.set_unit(60 + i, name[i]);
            proof {
                assert(overwritten(start, 60, kept.take(i as int)).update(60 + i, name@[i as int])
                    =~= overwritten(start, 60, kept.take(i + 1)));
            }
            i += 1;
        }
        self.set_unit(60 + take, 0);
        proof {
            assert(kept.take(take as int) =~= kept);
            assert(overwritten(start, 60, kept).update(60 + take, 0) =~= overwritten(
                start,
                60,
                kept.push(0),
            ));
        }
    }

    /// The name of the session in the buffer: the system writes it there.
    pub fn logger_name(&self) -> (r: String)
        requires
            self.whole(),
        ensures
            r@ == name_in(self.memory()),
    {
        let offset: u64 = self.number(LOGGER_UNIT) as u64;
        if offset == 0 || offset + 2 > 2168 {
            return String::new();
        }
        let from: usize = offset as usize;
        let count: usize = (2168 - from) / 2;
        let ghost all = units_from(self.memory(), offset as int);
        let mut found: Vec<u16> = Vec::new();
        let mut i: usize = 0;
        while i < count
            invariant
                i <= count,
                self.whole(),
                from + 2 <= 2168,
                count == (2168 - from) / 2,
                all == units_from(self.memory(), from as int),
                all.len() == count,
                found@ == all.take(i as int),
            decreases count - i,
        {
            let at: usize = from + 2 * i;
            let first = self.unit(at / 2);
            let second = self.unit((at + 1) / 2);
            let low_byte: u16 = if at % 2 == 0 {
                first % 0x100
            } else {
                first / 0x100
            };
            let high_byte: u16 = if (at + 1) % 2 == 0 {
                second % 0x100
            } else {
                second / 0x100
            };
            found.push(low_byte + 0x100 * high_byte);
            proof {
                assert(all.take(i + 1) =~= all.take(i as int).push(all[i as int]));
            }
            i += 1;
        }
        proof {
            assert(all.take(count as int) =~= all);
        }
        from_wide(found.as_slice())
    }
}

/// A name without zeros that fits its place reads back from the buffer it was written to.
pub proof fn law_session_name_reads_back(memory: Seq<u16>, flag: bool, name: Seq<char>)
    requires
        memory.len() == 1084,
        !name.contains('\0'),
        utf16(name).len() < 511,
    ensures
        name_in(
            overwritten(initialized(memory, flag), 60, fitting(utf16(name).push(0)).push(0)),
        ) == name,
{
    let start = initialized(memory, flag);
    let written = utf16(name).push(0).push(0);
    let after = overwritten(start, 60, written);
    assert(fitting(utf16(name).push(0)).push(0) == written);
    assert(number_at(after, LOGGER_UNIT as int) == 120);
    let found = units_from(after, 120);
    let behind = found.skip(utf16(name).len() as int + 1);
    assert forall|i: int| 0 <= i < found.len() implies #[trigger] found[i] == after[60 + i] by {
        let unit = after[60 + i];
        assert((120 + 2 * i) % 2 == 0 && (120 + 2 * i) / 2 == 60 + i);
        assert((120 + 2 * i + 1) % 2 == 1 && (120 + 2 * i + 1) / 2 == 60 + i);
        assert(unit % 0x100 + 0x100 * (unit / 0x100) == unit);
    }
    assert(found =~= utf16(name).push(0) + behind);
    law_wide_reads_back(name, behind);
}

/// A text without the line breaks at its end.
pub open spec fn without_breaks(s: Seq<char>) -> Seq<char>
    decreases s.len(),
{
    if s.len() > 0 && (s.last() == '\r' || s.last() == '\n') {
        without_breaks(s.drop_last())
    } else {
        s
    }
}

/// An error of the system: its own words for it, and the code.
pub open spec fn error_text(code: u32, words: Seq<char>) -> Seq<char> {
    let said = without_breaks(words);
    if said.len() == 0 {
        "код "@ + crate::text::decimal(code as nat)
    } else {
        said + " (код "@ + crate::text::decimal(code as nat) + ")"@
    }
}

#[derive(Clone, Copy, PartialEq, Eq, Debug, Structural)]
pub struct Win32Error(pub u32);

impl Win32Error {
    /// The error in words, given what the system says of it.
    pub fn describe(&self, words: &str) -> (r: String)
        ensures
            r@ == error_text(self.0, words@),
    {
        let chars = chars_of(words);
        let mut end: usize = chars.len();
        proof {
            assert(words@.take(chars.len() as int) =~= words@);
        }
        while end > 0 && (chars[end - 1] == '\r' || chars[end - 1] == '\n')
            invariant
                end <= chars.len(),
                chars@ == words@,
                without_breaks(words@.take(end as int)) == without_breaks(words@),
            decreases end,
        {
            proof {
                assert(words@.take(end as int).drop_last() =~= words@.take(end - 1));
            }
            end -= 1;
        }
        let code = to_decimal(self.0 as u64);
        if end == 0 {
            let mut r = "код ".to_string();
            r.append(code.as_str());
            r
        } else {
            let mut r = slice_text(&chars, 0, end);
            proof {
                assert(words@.subrange(0, end as int) =~= words@.take(end as int));
            }
            r.append(" (код ");
            r.append(code.as_str());
            r.append(")");
            r
        }
    }
}

/// The frequency of the clock, given what the system answered: a frequency that cannot be had
/// is taken as ten million.
pub fn qpc_frequency(ok: bool, freq: i64) -> (r: i64)
    ensures
        r == (if !ok || freq == 0 {
            10_000_000
        } else {
            freq
        }),
{
    if !ok || freq == 0 {
        10_000_000
    } else {
        freq
    }
}

/// An error is told with what the system says of it, without the breaks behind that, and with its
/// code in brackets; where the system says nothing, with its code alone.
pub proof fn law_errors_are_told_with_their_code(code: u32, words: Seq<char>)
    requires
        words.len() > 0 ==> words.last() != '\r' && words.last() != '\n',
    ensures
        words.len() > 0 ==> error_text(code, words) == words + " (код "@ + crate::text::decimal(
            code as nat,
        ) + ")"@,
        words.len() > 0 ==> error_text(code, words + seq!['\r', '\n']) == error_text(code, words),
        words.len() == 0 ==> error_text(code, words) == "код "@ + crate::text::decimal(code as nat),
{
    let broken = words + seq!['\r', '\n'];
    reveal_with_fuel(without_breaks, 3);
    assert(broken.drop_last() =~= words.push('\r'));
    assert(words.push('\r').drop_last() =~= words);
}

} // verus!
