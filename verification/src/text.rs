//! Text as a sequence of characters: trimming, searching, splitting and numbers in decimal.

use vstd::prelude::*;

verus! {

broadcast use vstd::string::group_string_axioms;

/// The Unicode property White_Space.
pub open spec fn is_white_space(c: char) -> bool {
    let p = c as u32;
    ||| 0x09 <= p <= 0x0d
    ||| p == 0x20
    ||| p == 0x85
    ||| p == 0xa0
    ||| p == 0x1680
    ||| 0x2000 <= p <= 0x200a
    ||| p == 0x2028
    ||| p == 0x2029
    ||| p == 0x202f
    ||| p == 0x205f
    ||| p == 0x3000
}

/// The Unicode general category Cc: the C0 and C1 control codes and DELETE.
pub open spec fn is_control_code(c: char) -> bool {
    let p = c as u32;
    p <= 0x1f || 0x7f <= p <= 0x9f
}

/// `char::is_whitespace`: true exactly for the characters with the property White_Space.
pub assume_specification [char::is_whitespace] (c: char) -> (r: bool)
    ensures
        r == is_white_space(c),
;

/// `char::is_control`: true exactly for the characters of the category Cc.
pub assume_specification [char::is_control] (c: char) -> (r: bool)
    ensures
        r == is_control_code(c),
;

/// `String::push` adds one character at the end.
pub assume_specification [String::push] (s: &mut String, c: char)
    ensures
        final(s)@ == old(s)@.push(c),
;

/// The characters of a text, in order.
pub fn chars_of(s: &str) -> (r: Vec<char>)
    ensures
        r@ == s@,
{
    let mut out: Vec<char> = Vec::new();
    for c in it: s.chars()
        invariant
            it.seq() == s@,
            out@ == s@.take(it.index()),
    {
        out.push(c);
    }
    out
}

/// The text with these characters.
pub fn string_of(v: &Vec<char>) -> (r: String)
    ensures
        r@ == v@,
{
    let mut out = String::new();
    let mut i: usize = 0;
    while i < v.len()
        invariant
            i <= v.len(),
            out@ == v@.take(i as int),
        decreases v.len() - i,
    {
        out.push(v[i]);
        i += 1;
    }
    out
}

/// What `str::to_lowercase` gives for a text: the Unicode lowercase mapping.
pub uninterp spec fn lowercase(s: Seq<char>) -> Seq<char>;

/// `str::to_lowercase`. Its result is named `lowercase`; the mapping itself is Unicode's.
/// For a text of ASCII characters it replaces the letters A to Z alone.
#[verifier::external_body]
pub(crate) fn to_lowercase(s: &str) -> (r: String)
    ensures
        r@ == lowercase(s@),
        all_ascii(s@) ==> r@ == ascii_lowercase(s@),
{
    s.to_lowercase()
}

pub open spec fn all_ascii(s: Seq<char>) -> bool {
    forall|i: int| 0 <= i < s.len() ==> #[trigger] s[i] as u32 <= 0x7f
}

/// The letters A to Z in lower case, every other character as it is.
pub open spec fn ascii_lower(c: char) -> char {
    if 'A' <= c <= 'Z' {
        ((c as u32) + 32) as char
    } else {
        c
    }
}

pub open spec fn ascii_lowercase(s: Seq<char>) -> Seq<char> {
    s.map_values(|c: char| ascii_lower(c))
}

/// Equal up to the case of the letters A to Z.
pub open spec fn same_ignoring_ascii_case(a: Seq<char>, b: Seq<char>) -> bool {
    ascii_lowercase(a) == ascii_lowercase(b)
}

fn lower_char(c: char) -> (r: char)
    ensures
        r == ascii_lower(c),
{
    if 'A' <= c && c <= 'Z' {
        ((c as u8) + 32) as char
    } else {
        c
    }
}

pub fn eq_ignore_ascii_case(a: &str, b: &str) -> (r: bool)
    ensures
        r == same_ignoring_ascii_case(a@, b@),
{
    let x = chars_of(a);
    let y = chars_of(b);
    if x.len() != y.len() {
        assert(ascii_lowercase(a@).len() != ascii_lowercase(b@).len());
        return false;
    }
    let mut i: usize = 0;
    while i < x.len()
        invariant
            i <= x.len() == y.len(),
            x@ == a@,
            y@ == b@,
            forall|j: int| 0 <= j < i ==> ascii_lower(a@[j]) == #[trigger] ascii_lower(b@[j]),
        decreases x.len() - i,
    {
        if lower_char(x[i]) != lower_char(y[i]) {
            assert(ascii_lowercase(a@)[i as int] != ascii_lowercase(b@)[i as int]);
            return false;
        }
        i += 1;
    }
    assert(ascii_lowercase(a@) =~= ascii_lowercase(b@));
    true
}

/// Equal character by character.
pub fn same_text(a: &str, b: &str) -> (r: bool)
    ensures
        r == (a@ == b@),
{
    let x = chars_of(a);
    let y = chars_of(b);
    if x.len() != y.len() {
        return false;
    }
    let mut i: usize = 0;
    while i < x.len()
        invariant
            i <= x.len() == y.len(),
            x@ == a@,
            y@ == b@,
            a@.take(i as int) == b@.take(i as int),
        decreases x.len() - i,
    {
        if x[i] != y[i] {
            assert(a@[i as int] != b@[i as int]);
            return false;
        }
        assert(a@.take(i + 1) =~= a@.take(i as int).push(a@[i as int]));
        assert(b@.take(i + 1) =~= b@.take(i as int).push(b@[i as int]));
        i += 1;
    }
    assert(a@ =~= a@.take(i as int));
    assert(b@ =~= b@.take(i as int));
    true
}

/// The text without the white space in front.
pub open spec fn trim_start(s: Seq<char>) -> Seq<char>
    decreases s.len(),
{
    if s.len() > 0 && is_white_space(s[0]) {
        trim_start(s.drop_first())
    } else {
        s
    }
}

/// The text without the white space at the end.
pub open spec fn trim_end(s: Seq<char>) -> Seq<char>
    decreases s.len(),
{
    if s.len() > 0 && is_white_space(s.last()) {
        trim_end(s.drop_last())
    } else {
        s
    }
}

/// The text without the white space around it.
pub open spec fn trimmed(s: Seq<char>) -> Seq<char> {
    trim_end(trim_start(s))
}

/// Nothing but white space.
pub open spec fn blank(s: Seq<char>) -> bool {
    trimmed(s).len() == 0
}

pub fn trim(s: &str) -> (r: String)
    ensures
        r@ == trimmed(s@),
{
    let v = chars_of(s);
    let mut from: usize = 0;
    assert(s@.skip(0) =~= s@);
    while from < v.len() && v[from].is_whitespace()
        invariant
            from <= v.len(),
            v@ == s@,
            trim_start(s@) == trim_start(s@.skip(from as int)),
        decreases v.len() - from,
    {
        assert(s@.skip(from as int).drop_first() =~= s@.skip(from + 1));
        from += 1;
    }
    assert(trim_start(s@) == s@.skip(from as int));
    let mut to: usize = v.len();
    assert(s@.subrange(from as int, to as int) =~= s@.skip(from as int));
    while to > from && v[to - 1].is_whitespace()
        invariant
            from <= to <= v.len(),
            v@ == s@,
            trimmed(s@) == trim_end(s@.subrange(from as int, to as int)),
        decreases to,
    {
        assert(s@.subrange(from as int, to as int).drop_last() =~= s@.subrange(
            from as int,
            to - 1,
        ));
        to -= 1;
    }
    slice_text(&v, from, to)
}

/// The characters `from..to`.
pub fn slice_text(v: &Vec<char>, from: usize, to: usize) -> (r: String)
    requires
        from <= to <= v.len(),
    ensures
        r@ == v@.subrange(from as int, to as int),
{
    let mut out = String::new();
    let mut i: usize = from;
    while i < to
        invariant
            from <= i <= to <= v.len(),
            out@ == v@.subrange(from as int, i as int),
        decreases to - i,
    {
        out.push(v[i]);
        assert(v@.subrange(from as int, i + 1) =~= v@.subrange(from as int, i as int).push(
            v@[i as int],
        ));
        i += 1;
    }
    out
}

/// `pattern` stands at position `at`.
pub open spec fn stands_at(s: Seq<char>, pattern: Seq<char>, at: int) -> bool {
    0 <= at && at + pattern.len() <= s.len() && s.subrange(at, at + pattern.len()) == pattern
}

/// The text begins with `prefix`.
pub open spec fn begins_with(s: Seq<char>, prefix: Seq<char>) -> bool {
    stands_at(s, prefix, 0)
}

/// The text ends with `suffix`.
pub open spec fn finishes_with(s: Seq<char>, suffix: Seq<char>) -> bool {
    stands_at(s, suffix, s.len() - suffix.len())
}

/// `pattern` stands somewhere in the text.
pub open spec fn holds_text(s: Seq<char>, pattern: Seq<char>) -> bool {
    exists|i: int| stands_at(s, pattern, i)
}

fn found_at(s: &Vec<char>, pattern: &Vec<char>, at: usize) -> (r: bool)
    ensures
        r == stands_at(s@, pattern@, at as int),
{
    if pattern.len() > s.len() || at > s.len() - pattern.len() {
        return false;
    }
    let mut i: usize = 0;
    while i < pattern.len()
        invariant
            i <= pattern.len(),
            at + pattern.len() <= s.len(),
            forall|j: int| 0 <= j < i ==> s@[at + j] == #[trigger] pattern@[j],
        decreases pattern.len() - i,
    {
        if s[at + i] != pattern[i] {
            assert(s@.subrange(at as int, at + pattern@.len())[i as int] != pattern@[i as int]);
            return false;
        }
        i += 1;
    }
    assert(s@.subrange(at as int, at + pattern@.len()) =~= pattern@);
    true
}

pub fn starts_with(s: &str, prefix: &str) -> (r: bool)
    ensures
        r == begins_with(s@, prefix@),
{
    found_at(&chars_of(s), &chars_of(prefix), 0)
}

pub fn ends_with(s: &str, suffix: &str) -> (r: bool)
    ensures
        r == finishes_with(s@, suffix@),
{
    let v = chars_of(s);
    let p = chars_of(suffix);
    if p.len() > v.len() {
        return false;
    }
    found_at(&v, &p, v.len() - p.len())
}

/// The first position of `pattern`.
pub open spec fn first_position(s: Seq<char>, pattern: Seq<char>, r: Option<usize>) -> bool {
    match r {
        Some(at) => stands_at(s, pattern, at as int) && forall|j: int|
            0 <= j < at ==> !stands_at(s, pattern, j),
        None => !holds_text(s, pattern),
    }
}

pub fn find(s: &Vec<char>, pattern: &Vec<char>) -> (r: Option<usize>)
    ensures
        first_position(s@, pattern@, r),
{
    let mut at: usize = 0;
    while at <= s.len()
        invariant
            at <= s.len() + 1,
            forall|j: int| 0 <= j < at ==> !stands_at(s@, pattern@, j),
        decreases s.len() + 1 - at,
    {
        if found_at(s, pattern, at) {
            return Some(at);
        }
        if at == s.len() {
            return None;
        }
        at += 1;
    }
    None
}

pub fn contains(s: &str, pattern: &str) -> (r: bool)
    ensures
        r == holds_text(s@, pattern@),
{
    find(&chars_of(s), &chars_of(pattern)).is_some()
}

/// The text up to the first `pattern`, or all of it.
pub open spec fn cut_at(s: Seq<char>, pattern: Seq<char>) -> Seq<char> {
    if holds_text(s, pattern) {
        s.take(choose|i: int|
            stands_at(s, pattern, i) && forall|j: int| 0 <= j < i ==> !stands_at(s, pattern, j))
    } else {
        s
    }
}

pub fn cut_before(s: &str, pattern: &str) -> (r: String)
    ensures
        r@ == cut_at(s@, pattern@),
{
    let v = chars_of(s);
    let p = chars_of(pattern);
    match find(&v, &p) {
        Some(at) => {
            let r = slice_text(&v, 0, at);
            proof {
                let k = choose|i: int|
                    stands_at(s@, pattern@, i) && forall|j: int|
                        0 <= j < i ==> !stands_at(s@, pattern@, j);
                assert(stands_at(s@, pattern@, at as int));
                assert(k == at) by {
                    if k < at {
                        assert(!stands_at(s@, pattern@, k));
                    }
                }
                assert(r@ =~= s@.take(k));
            }
            r
        },
        None => s.to_owned(),
    }
}

/// Every character `c` replaced by `with`.
pub open spec fn replaced(s: Seq<char>, c: char, with: Seq<char>) -> Seq<char>
    decreases s.len(),
{
    if s.len() == 0 {
        s
    } else {
        replaced(s.drop_last(), c, with) + (if s.last() == c {
            with
        } else {
            seq![s.last()]
        })
    }
}

pub fn replace_char(s: &str, c: char, with: &str) -> (r: String)
    ensures
        r@ == replaced(s@, c, with@),
{
    let v = chars_of(s);
    let mut out = String::new();
    let mut i: usize = 0;
    while i < v.len()
        invariant
            i <= v.len(),
            v@ == s@,
            out@ == replaced(s@.take(i as int), c, with@),
        decreases v.len() - i,
    {
        assert(s@.take(i + 1).drop_last() =~= s@.take(i as int));
        if v[i] == c {
            out.append(with);
        } else {
            out.push(v[i]);
            assert(out@ =~= replaced(s@.take(i as int), c, with@) + seq![v@[i as int]]);
        }
        i += 1;
    }
    assert(s@.take(i as int) =~= s@);
    out
}

/// Every occurrence of `pattern`, from the left, taken out.
pub open spec fn without(s: Seq<char>, pattern: Seq<char>) -> Seq<char>
    decreases s.len(),
{
    if pattern.len() == 0 || s.len() < pattern.len() {
        s
    } else if begins_with(s, pattern) {
        without(s.skip(pattern.len() as int), pattern)
    } else {
        seq![s[0]] + without(s.skip(1), pattern)
    }
}

pub fn remove_all(s: &str, pattern: &str) -> (r: String)
    ensures
        r@ == without(s@, pattern@),
{
    let v = chars_of(s);
    let p = chars_of(pattern);
    if p.len() == 0 {
        return s.to_owned();
    }
    let mut out = String::new();
    let mut i: usize = 0;
    assert(s@.skip(0) =~= s@);
    assert(out@ + without(s@.skip(0), pattern@) =~= without(s@, pattern@));
    while i < v.len() && p.len() <= v.len() - i
        invariant
            i <= v.len(),
            v@ == s@,
            p@ == pattern@,
            p.len() > 0,
            out@ + without(s@.skip(i as int), pattern@) == without(s@, pattern@),
        decreases v.len() - i,
    {
        let ghost rest = s@.skip(i as int);
        let here = found_at(&v, &p, i);
        assert(rest.subrange(0, p@.len() as int) =~= s@.subrange(i as int, i + p@.len()));
        if here {
            assert(rest.skip(p@.len() as int) =~= s@.skip(i + p@.len()));
            i += p.len();
        } else {
            out.push(v[i]);
            assert(rest.skip(1) =~= s@.skip(i + 1));
            assert(out@ + without(s@.skip(i + 1), pattern@) =~= out@.drop_last() + (seq![rest[0]]
                + without(rest.skip(1), pattern@)));
            i += 1;
        }
    }
    let tail = slice_text(&v, i, v.len());
    assert(tail@ =~= s@.skip(i as int));
    out.append(&tail);
    out
}

/// The words of a text: the longest runs without white space, `word` being the run that has
/// been read already.
pub open spec fn words_from(word: Seq<char>, s: Seq<char>) -> Seq<Seq<char>>
    decreases s.len(),
{
    if s.len() == 0 {
        if word.len() == 0 {
            Seq::empty()
        } else {
            seq![word]
        }
    } else if is_white_space(s[0]) {
        if word.len() == 0 {
            words_from(word, s.skip(1))
        } else {
            seq![word] + words_from(Seq::empty(), s.skip(1))
        }
    } else {
        words_from(word.push(s[0]), s.skip(1))
    }
}

/// The words of a text, in order.
pub open spec fn words(s: Seq<char>) -> Seq<Seq<char>> {
    words_from(Seq::empty(), s)
}

/// The characters of each of several texts.
pub open spec fn views(v: Seq<String>) -> Seq<Seq<char>> {
    v.map_values(|s: String| s@)
}

pub proof fn lemma_views_push(v: Seq<String>, s: String)
    ensures
        views(v.push(s)) == views(v).push(s@),
{
    assert(views(v.push(s)) =~= views(v).push(s@));
}

pub fn split_whitespace(s: &str) -> (r: Vec<String>)
    ensures
        views(r@) == words(s@),
{
    let v = chars_of(s);
    let mut out: Vec<String> = Vec::new();
    let mut word = String::new();
    let mut i: usize = 0;
    assert(s@.skip(0) =~= s@);
    assert(views(out@) + words_from(word@, s@.skip(0)) =~= words(s@));
    while i < v.len()
        invariant
            i <= v.len(),
            v@ == s@,
            views(out@) + words_from(word@, s@.skip(i as int)) == words(s@),
        decreases v.len() - i,
    {
        let ghost rest = s@.skip(i as int);
        let c = v[i];
        assert(rest.skip(1) =~= s@.skip(i + 1));
        if c.is_whitespace() {
            if !word.as_str().is_empty() {
                proof {
                    lemma_views_push(out@, word);
                    assert(views(out@) + (seq![word@] + words_from(Seq::empty(), rest.skip(1)))
                        =~= views(out@).push(word@) + words_from(Seq::empty(), rest.skip(1)));
                }
                out.push(word);
                word = String::new();
            }
        } else {
            word.push(c);
        }
        i += 1;
    }
    assert(s@.skip(i as int) =~= Seq::empty());
    if !word.as_str().is_empty() {
        proof {
            lemma_views_push(out@, word);
            assert(views(out@) + seq![word@] =~= views(out@).push(word@));
        }
        out.push(word);
    } else {
        assert(views(out@) + Seq::<Seq<char>>::empty() =~= views(out@));
    }
    out
}

/// The texts one after another with `separator` between them.
pub open spec fn joined(parts: Seq<Seq<char>>, separator: Seq<char>) -> Seq<char>
    decreases parts.len(),
{
    if parts.len() == 0 {
        Seq::empty()
    } else if parts.len() == 1 {
        parts[0]
    } else {
        joined(parts.drop_last(), separator) + separator + parts.last()
    }
}

pub fn join(parts: &Vec<String>, separator: &str) -> (r: String)
    ensures
        r@ == joined(views(parts@), separator@),
{
    let mut out = String::new();
    let mut i: usize = 0;
    while i < parts.len()
        invariant
            i <= parts.len(),
            out@ == joined(views(parts@).take(i as int), separator@),
        decreases parts.len() - i,
    {
        assert(views(parts@).take(i + 1).drop_last() =~= views(parts@).take(i as int));
        if i > 0 {
            out.append(separator);
        }
        out.append(&parts[i]);
        proof {
            if i == 0 {
                assert(out@ =~= parts@[0]@);
            }
        }
        i += 1;
    }
    assert(views(parts@).take(i as int) =~= views(parts@));
    out
}

/// The decimal digit of a number below ten.
pub open spec fn digit(d: nat) -> char {
    (48 + d) as char
}

/// A number written in decimal, without leading zeros.
pub open spec fn decimal(n: nat) -> Seq<char>
    decreases n,
{
    if n < 10 {
        seq![digit(n)]
    } else {
        decimal(n / 10).push(digit(n % 10))
    }
}

pub(crate) fn digit_char(d: u8) -> (r: char)
    requires
        d < 10,
    ensures
        r == digit(d as nat),
{
    (48 + d) as char
}

pub fn to_decimal(n: u64) -> (r: String)
    ensures
        r@ == decimal(n as nat),
    decreases n,
{
    let mut out = if n < 10 {
        String::new()
    } else {
        to_decimal(n / 10)
    };
    out.push(digit_char((n % 10) as u8));
    assert(n < 10 ==> out@ =~= seq![digit(n as nat)]);
    out
}

/// A number written in decimal, with a minus in front of one below zero.
pub open spec fn signed(n: int) -> Seq<char> {
    if n < 0 {
        "-"@ + decimal((-n) as nat)
    } else {
        decimal(n as nat)
    }
}

pub fn to_signed(n: i64) -> (r: String)
    ensures
        r@ == signed(n as int),
{
    if n < 0 {
        let mut r = "-".to_string();
        r.append(to_decimal((-(n as i128)) as u64).as_str());
        r
    } else {
        to_decimal(n as u64)
    }
}

/// A number in decimal with at least `width` characters, filled with `fill` in front.
pub open spec fn padded(s: Seq<char>, width: nat, fill: char) -> Seq<char> {
    if s.len() >= width {
        s
    } else {
        Seq::new((width - s.len()) as nat, |i: int| fill) + s
    }
}

pub fn pad_left(s: &str, width: usize, fill: char) -> (r: String)
    ensures
        r@ == padded(s@, width as nat, fill),
{
    let len = chars_of(s).len();
    let mut out = String::new();
    let mut i: usize = len;
    while i < width
        invariant
            len <= i,
            len == s@.len(),
            i <= width || i == len,
            out@ == Seq::new((i - len) as nat, |k: int| fill),
        decreases width - i,
    {
        out.push(fill);
        i += 1;
        assert(out@ =~= Seq::new((i - len) as nat, |k: int| fill));
    }
    out.append(s);
    assert(len >= width ==> out@ =~= s@);
    out
}

/// A text with at least `width` characters, filled with spaces behind.
pub open spec fn spaced(s: Seq<char>, width: nat) -> Seq<char> {
    if s.len() >= width {
        s
    } else {
        s + Seq::new((width - s.len()) as nat, |i: int| ' ')
    }
}

pub fn pad_right(s: &str, width: usize) -> (r: String)
    ensures
        r@ == spaced(s@, width as nat),
{
    let len = chars_of(s).len();
    let mut out = s.to_owned();
    let mut i: usize = len;
    proof {
        assert(out@ =~= s@ + Seq::new(0, |k: int| ' '));
    }
    while i < width
        invariant
            len <= i,
            len == s@.len(),
            i <= width || i == len,
            out@ == s@ + Seq::new((i - len) as nat, |k: int| ' '),
        decreases width - i,
    {
        out.push(' ');
        i += 1;
        assert(out@ =~= s@ + Seq::new((i - len) as nat, |k: int| ' '));
    }
    assert(len >= width ==> out@ =~= s@);
    out
}

/// A decimal digit.
pub open spec fn is_digit(c: char) -> bool {
    '0' <= c <= '9'
}

/// The number that a row of decimal digits stands for.
pub open spec fn digits_value(s: Seq<char>) -> nat
    decreases s.len(),
{
    if s.len() == 0 {
        0
    } else {
        digits_value(s.drop_last()) * 10 + ((s.last() as u32) - 48) as nat
    }
}

/// A row of digits behind the sign that may stand in front of it.
pub open spec fn after_plus(s: Seq<char>) -> Seq<char> {
    if s.len() > 0 && s[0] == '+' {
        s.skip(1)
    } else {
        s
    }
}

/// The number up to `max` that a text stands for: decimal digits, one `+` in front allowed.
pub open spec fn number(s: Seq<char>, max: nat) -> Option<nat> {
    let d = after_plus(s);
    if d.len() == 0 || (exists|i: int| 0 <= i < d.len() && !is_digit(#[trigger] d[i]))
        || digits_value(d) > max {
        None
    } else {
        Some(digits_value(d))
    }
}

proof fn lemma_value_grows(s: Seq<char>, k: int)
    requires
        0 <= k <= s.len(),
        forall|i: int| 0 <= i < s.len() ==> is_digit(#[trigger] s[i]),
    ensures
        digits_value(s.take(k)) <= digits_value(s),
    decreases s.len() - k,
{
    if k < s.len() {
        lemma_value_grows(s, k + 1);
        assert(s.take(k + 1).drop_last() =~= s.take(k));
    } else {
        assert(s.take(k) =~= s);
    }
}

/// The number up to `max` in a text, as the number types of the standard library read it.
pub fn parse_number(s: &str, max: u64) -> (r: Option<u64>)
    ensures
        match r {
            Some(n) => number(s@, max as nat) == Some(n as nat),
            None => number(s@, max as nat) is None,
        },
{
    let v = chars_of(s);
    let from: usize = if v.len() > 0 && v[0] == '+' {
        1
    } else {
        0
    };
    let ghost d = after_plus(s@);
    assert(d =~= s@.skip(from as int));
    if from == v.len() {
        return None;
    }
    let mut total: u64 = 0;
    let mut over = false;
    let mut i: usize = from;
    assert(d.take(0) =~= Seq::empty());
    while i < v.len()
        invariant
            from <= i <= v.len(),
            v@ == s@,
            d == s@.skip(from as int),
            d == after_plus(s@),
            forall|j: int| 0 <= j < i - from ==> is_digit(#[trigger] d[j]),
            !over ==> total == digits_value(d.take(i - from)) && total <= max,
            over ==> digits_value(d.take(i - from)) > max,
        decreases v.len() - i,
    {
        let c = v[i];
        assert(c == d[i - from]);
        if c < '0' || c > '9' {
            assert(!is_digit(d[i - from]));
            assert(number(s@, max as nat) is None);
            return None;
        }
        assert(d.take(i - from + 1).drop_last() =~= d.take(i - from));
        let add: u64 = (c as u8 - 48) as u64;
        if !over {
            if total > (u64::MAX - add) / 10 || total * 10 + add > max {
                over = true;
            } else {
                total = total * 10 + add;
            }
        }
        i += 1;
    }
    assert(d.take(i - from) =~= d);
    if over {
        None
    } else {
        Some(total)
    }
}

/// A number in decimal reads back as itself.
pub proof fn lemma_decimal_reads_back(n: nat, max: nat)
    requires
        n <= max,
    ensures
        number(decimal(n), max) == Some(n),
{
    lemma_decimal_digits(n);
    let s = decimal(n);
    assert(is_digit(s[0]));
    assert(after_plus(s) == s);
}

pub proof fn lemma_decimal_digits(n: nat)
    ensures
        decimal(n).len() > 0,
        forall|i: int| 0 <= i < decimal(n).len() ==> is_digit(#[trigger] decimal(n)[i]),
        digits_value(decimal(n)) == n,
    decreases n,
{
    if n < 10 {
        assert(decimal(n).drop_last() =~= Seq::empty());
        assert(digits_value(decimal(n).drop_last()) == 0);
        assert(decimal(n).last() as u32 == 48 + n);
    } else {
        lemma_decimal_digits(n / 10);
        assert(decimal(n).drop_last() =~= decimal(n / 10));
        assert(decimal(n).last() as u32 == 48 + n % 10);
    }
}

/// At most the first `limit` characters.
pub open spec fn at_most(s: Seq<char>, limit: nat) -> Seq<char> {
    if s.len() <= limit {
        s
    } else {
        s.take(limit as int)
    }
}

pub fn take_chars(s: &str, limit: usize) -> (r: String)
    ensures
        r@ == at_most(s@, limit as nat),
{
    let v = chars_of(s);
    if v.len() <= limit {
        s.to_owned()
    } else {
        let r = slice_text(&v, 0, limit);
        assert(r@ =~= s@.take(limit as int));
        r
    }
}

/// The order of texts by their characters, the first difference deciding.
pub open spec fn before(a: Seq<char>, b: Seq<char>) -> bool
    decreases b.len(),
{
    if b.len() == 0 {
        false
    } else if a.len() == 0 {
        true
    } else if a[0] == b[0] {
        before(a.skip(1), b.skip(1))
    } else {
        (a[0] as int) < (b[0] as int)
    }
}

/// `char::from_u32`: the character of a code point, where there is one.
pub assume_specification [char::from_u32] (i: u32) -> (r: Option<char>)
    ensures
        i < 0xd800 || 0xdfff < i < 0x11_0000 ==> r == Some(i as char),
        0xd800 <= i <= 0xdfff || i >= 0x11_0000 ==> r is None,
;

/// The code point of a character.
pub fn code_of(c: char) -> (r: u32)
    ensures
        r == c as int,
        r < 0x11_0000,
        !(0xd800 <= r <= 0xdfff),
{
    c as u32
}

pub fn is_before(a: &str, b: &str) -> (r: bool)
    ensures
        r == before(a@, b@),
{
    let x = chars_of(a);
    let y = chars_of(b);
    let mut i: usize = 0;
    proof {
        assert(x@.skip(0) =~= x@);
        assert(y@.skip(0) =~= y@);
    }
    while i < x.len() && i < y.len()
        invariant
            i <= x.len(),
            i <= y.len(),
            before(a@, b@) == before(x@.skip(i as int), y@.skip(i as int)),
        decreases x.len() - i,
    {
        proof {
            assert(x@.skip(i as int)[0] == x@[i as int]);
            assert(y@.skip(i as int)[0] == y@[i as int]);
        }
        if x[i] != y[i] {
            return code_of(x[i]) < code_of(y[i]);
        }
        proof {
            assert(x@.skip(i as int).skip(1) =~= x@.skip(i + 1));
            assert(y@.skip(i as int).skip(1) =~= y@.skip(i + 1));
        }
        i += 1;
    }
    i < y.len()
}

/// Of two different texts exactly one comes before the other.
pub proof fn lemma_before_total(a: Seq<char>, b: Seq<char>)
    ensures
        a == b ==> !before(a, b),
        a != b ==> before(a, b) != before(b, a),
    decreases b.len(),
{
    if a.len() == 0 && b.len() == 0 {
        assert(a =~= b);
    } else if a.len() > 0 && b.len() > 0 && a[0] == b[0] {
        lemma_before_total(a.skip(1), b.skip(1));
        assert(a =~= seq![a[0]] + a.skip(1));
        assert(b =~= seq![b[0]] + b.skip(1));
    }
}

pub proof fn lemma_before_chains(a: Seq<char>, b: Seq<char>, c: Seq<char>)
    requires
        before(a, b),
        before(b, c),
    ensures
        before(a, c),
    decreases b.len(),
{
    if a.len() > 0 && b.len() > 0 && c.len() > 0 && a[0] == b[0] && b[0] == c[0] {
        lemma_before_chains(a.skip(1), b.skip(1), c.skip(1));
    }
}

/// A list of the same texts.
pub fn copied(list: &Vec<String>) -> (r: Vec<String>)
    ensures
        views(r@) == views(list@),
        r.len() == list.len(),
{
    let mut r: Vec<String> = Vec::new();
    let mut i: usize = 0;
    while i < list.len()
        invariant
            i <= list.len(),
            r.len() == i,
            forall|j: int| 0 <= j < i ==> (#[trigger] r@[j])@ == list@[j]@,
        decreases list.len() - i,
    {
        r.push(list[i].clone());
        i += 1;
    }
    proof {
        assert(views(r@) =~= views(list@));
    }
    r
}

proof fn lemma_trim_start_edge(s: Seq<char>)
    ensures
        trim_start(s).len() > 0 ==> !is_white_space(trim_start(s)[0]),
    decreases s.len(),
{
    if s.len() > 0 && is_white_space(s[0]) {
        lemma_trim_start_edge(s.drop_first());
    }
}

proof fn lemma_trim_end_edge(s: Seq<char>)
    ensures
        trim_end(s).len() > 0 ==> !is_white_space(trim_end(s).last()) && trim_end(s)[0] == s[0],
    decreases s.len(),
{
    if s.len() > 0 && is_white_space(s.last()) {
        lemma_trim_end_edge(s.drop_last());
    }
}

/// A text that neither begins nor ends with white space is left as it is.
pub proof fn lemma_trimmed_fixed(s: Seq<char>)
    requires
        s.len() > 0 ==> !is_white_space(s[0]) && !is_white_space(s.last()),
    ensures
        trimmed(s) == s,
{
}

/// A trimmed text begins and ends with something else than white space.
pub proof fn lemma_trimmed_edges(s: Seq<char>)
    ensures
        trimmed(s).len() > 0 ==> !is_white_space(trimmed(s)[0]) && !is_white_space(
            trimmed(s).last(),
        ),
        trimmed(trimmed(s)) == trimmed(s),
{
    lemma_trim_start_edge(s);
    lemma_trim_end_edge(trim_start(s));
    lemma_trimmed_fixed(trimmed(s));
}

/// Nothing but white space, if anything.
pub open spec fn all_white(s: Seq<char>) -> bool {
    forall|i: int| 0 <= i < s.len() ==> is_white_space(#[trigger] s[i])
}

proof fn lemma_trim_start_takes(s: Seq<char>) -> (head: Seq<char>)
    ensures
        s == head + trim_start(s),
        all_white(head),
    decreases s.len(),
{
    if s.len() > 0 && is_white_space(s[0]) {
        let head = lemma_trim_start_takes(s.drop_first());
        let whole = seq![s[0]] + head;
        let rest = trim_start(s.drop_first());
        assert(s =~= seq![s[0]] + s.drop_first());
        assert(whole + rest =~= seq![s[0]] + (head + rest));
        whole
    } else {
        assert(s =~= Seq::<char>::empty() + s);
        Seq::<char>::empty()
    }
}

proof fn lemma_trim_end_takes(s: Seq<char>) -> (tail: Seq<char>)
    ensures
        s == trim_end(s) + tail,
        all_white(tail),
    decreases s.len(),
{
    if s.len() > 0 && is_white_space(s.last()) {
        let tail = lemma_trim_end_takes(s.drop_last());
        let whole = tail.push(s.last());
        let rest = trim_end(s.drop_last());
        assert(s =~= s.drop_last().push(s.last()));
        assert(rest + whole =~= (rest + tail).push(s.last()));
        whole
    } else {
        assert(s =~= s + Seq::<char>::empty());
        Seq::<char>::empty()
    }
}

/// Trimming takes white space away from both ends of a text and nothing else.
pub proof fn law_trimming_takes_only_white_space(s: Seq<char>) -> (r: (Seq<char>, Seq<char>))
    ensures
        s == r.0 + trimmed(s) + r.1,
        all_white(r.0),
        all_white(r.1),
        trimmed(s).len() > 0 ==> !is_white_space(trimmed(s)[0]) && !is_white_space(
            trimmed(s).last(),
        ),
{
    let head = lemma_trim_start_takes(s);
    let tail = lemma_trim_end_takes(trim_start(s));
    lemma_trimmed_edges(s);
    assert(s =~= head + trimmed(s) + tail);
    (head, tail)
}

/// A text that holds something else than white space is not blank.
pub proof fn lemma_not_blank(s: Seq<char>, at: int)
    requires
        0 <= at < s.len(),
        !is_white_space(s[at]),
    ensures
        !blank(s),
{
    let (head, tail) = law_trimming_takes_only_white_space(s);
    if blank(s) {
        assert(trimmed(s) =~= Seq::<char>::empty());
        assert(s =~= head + tail);
        if at < head.len() {
            assert(s[at] == head[at]);
        } else {
            assert(s[at] == tail[at - head.len()]);
        }
    }
}

// --- what the operations on texts do ---

/// White space parts words: on both sides of it the words are those of the sides.
pub proof fn law_white_space_parts_words(left: Seq<char>, c: char, right: Seq<char>)
    requires
        is_white_space(c),
    ensures
        words(left + seq![c] + right) == words(left) + words(right),
{
    lemma_words_part(Seq::empty(), left, c, right);
}

proof fn lemma_words_part(word: Seq<char>, left: Seq<char>, c: char, right: Seq<char>)
    requires
        is_white_space(c),
    ensures
        words_from(word, left + seq![c] + right) == words_from(word, left) + words(right),
    decreases left.len(),
{
    let all = left + seq![c] + right;
    if left.len() == 0 {
        assert(all[0] == c);
        assert(all.skip(1) =~= right);
        if word.len() == 0 {
            assert(word =~= Seq::<char>::empty());
            assert(words_from(word, left) + words(right) =~= words(right));
        }
    } else {
        assert(all[0] == left[0]);
        assert(all.skip(1) =~= left.skip(1) + seq![c] + right);
        if is_white_space(left[0]) {
            if word.len() == 0 {
                lemma_words_part(word, left.skip(1), c, right);
            } else {
                lemma_words_part(Seq::empty(), left.skip(1), c, right);
                assert(seq![word] + (words_from(Seq::empty(), left.skip(1)) + words(right))
                    =~= seq![word] + words_from(Seq::empty(), left.skip(1)) + words(right));
            }
        } else {
            lemma_words_part(word.push(left[0]), left.skip(1), c, right);
        }
    }
}

/// A text without white space is one word, and an empty one is none.
pub proof fn law_words_are_whole(s: Seq<char>)
    requires
        forall|i: int| 0 <= i < s.len() ==> !is_white_space(#[trigger] s[i]),
    ensures
        words(s) == (if s.len() == 0 {
            seq![]
        } else {
            seq![s]
        }),
{
    lemma_one_word(Seq::empty(), s);
    assert(Seq::<char>::empty() + s =~= s);
}

proof fn lemma_one_word(word: Seq<char>, s: Seq<char>)
    requires
        forall|i: int| 0 <= i < s.len() ==> !is_white_space(#[trigger] s[i]),
    ensures
        words_from(word, s) == (if (word + s).len() == 0 {
            seq![]
        } else {
            seq![word + s]
        }),
    decreases s.len(),
{
    if s.len() == 0 {
        assert(word + s =~= word);
    } else {
        assert(!is_white_space(s[0]));
        assert forall|i: int| 0 <= i < s.skip(1).len() implies !is_white_space(
            #[trigger] s.skip(1)[i],
        ) by {
            assert(s.skip(1)[i] == s[i + 1]);
        }
        lemma_one_word(word.push(s[0]), s.skip(1));
        assert(word.push(s[0]) + s.skip(1) =~= word + s);
    }
}

/// A text is cut where a pattern first stands in it: what is left is what was before it, and the
/// pattern is nowhere earlier.
pub proof fn law_texts_are_cut_at_the_first_place(s: Seq<char>, pattern: Seq<char>, at: int)
    requires
        stands_at(s, pattern, at),
    ensures
        cut_at(s, pattern).len() <= at,
        cut_at(s, pattern) == s.take(cut_at(s, pattern).len() as int),
        stands_at(s, pattern, cut_at(s, pattern).len() as int),
        forall|j: int|
            0 <= j < cut_at(s, pattern).len() ==> !(#[trigger] stands_at(s, pattern, j)),
    decreases at,
{
    if exists|j: int| 0 <= j < at && #[trigger] stands_at(s, pattern, j) {
        let j = choose|j: int| 0 <= j < at && #[trigger] stands_at(s, pattern, j);
        law_texts_are_cut_at_the_first_place(s, pattern, j);
    } else {
        let k = choose|i: int|
            stands_at(s, pattern, i) && forall|j: int| 0 <= j < i ==> !stands_at(s, pattern, j);
        assert(stands_at(s, pattern, at) && forall|j: int|
            0 <= j < at ==> !stands_at(s, pattern, j));
        assert(stands_at(s, pattern, k));
        assert(!stands_at(s, pattern, at) || k <= at);
        assert(cut_at(s, pattern) =~= s.take(k));
    }
}

/// A text that does not hold a pattern stays as it is when the pattern is cut away or taken out.
pub proof fn law_texts_without_the_pattern_stay(s: Seq<char>, pattern: Seq<char>)
    requires
        !holds_text(s, pattern),
    ensures
        cut_at(s, pattern) == s,
        without(s, pattern) == s,
    decreases s.len(),
{
    if pattern.len() > 0 && s.len() >= pattern.len() {
        assert(!stands_at(s, pattern, 0));
        let rest = s.skip(1);
        assert forall|i: int| !(#[trigger] stands_at(rest, pattern, i)) by {
            if stands_at(rest, pattern, i) {
                assert(s.subrange(i + 1, i + 1 + pattern.len()) =~= rest.subrange(
                    i,
                    i + pattern.len(),
                ));
                assert(stands_at(s, pattern, i + 1));
            }
        }
        law_texts_without_the_pattern_stay(rest, pattern);
        assert(seq![s[0]] + rest =~= s);
    }
}

/// A pattern at the beginning is taken out, and so is every one behind it.
pub proof fn law_patterns_are_taken_out(pattern: Seq<char>, rest: Seq<char>)
    requires
        pattern.len() > 0,
    ensures
        without(pattern + rest, pattern) == without(rest, pattern),
{
    let s = pattern + rest;
    assert(s.subrange(0, pattern.len() as int) =~= pattern);
    assert(begins_with(s, pattern));
    assert(s.skip(pattern.len() as int) =~= rest);
}

/// Characters are replaced one by one: each is, wherever it stands, and no other changes.
pub proof fn law_characters_are_replaced_alone(
    left: Seq<char>,
    right: Seq<char>,
    c: char,
    other: char,
    with: Seq<char>,
)
    requires
        other != c,
    ensures
        replaced(left + right, c, with) == replaced(left, c, with) + replaced(right, c, with),
        replaced(seq![c], c, with) == with,
        replaced(seq![other], c, with) == seq![other],
        replaced(seq![], c, with) == Seq::<char>::empty(),
    decreases right.len(),
{
    reveal_with_fuel(replaced, 2);
    assert(seq![c].drop_last() =~= seq![]);
    assert(seq![other].drop_last() =~= seq![]);
    assert(Seq::<char>::empty() + with =~= with);
    assert(Seq::<char>::empty() + seq![other] =~= seq![other]);
    if right.len() == 0 {
        assert(left + right =~= left);
        assert(replaced(left, c, with) + replaced(right, c, with) =~= replaced(left, c, with));
    } else {
        let front = right.drop_last();
        law_characters_are_replaced_alone(left, front, c, other, with);
        assert((left + right).drop_last() =~= left + front);
        assert((left + right).last() == right.last());
        let tail = if right.last() == c {
            with
        } else {
            seq![right.last()]
        };
        assert(replaced(left, c, with) + replaced(front, c, with) + tail =~= replaced(
            left,
            c,
            with,
        ) + (replaced(front, c, with) + tail));
    }
}

/// A separator stands between parts and nowhere else.
pub proof fn law_parts_are_joined(
    left: Seq<Seq<char>>,
    right: Seq<Seq<char>>,
    separator: Seq<char>,
)
    requires
        left.len() > 0,
        right.len() > 0,
    ensures
        joined(left + right, separator) == joined(left, separator) + separator + joined(
            right,
            separator,
        ),
        left.len() == 1 ==> joined(left, separator) == left[0],
    decreases right.len(),
{
    let all = left + right;
    assert(all.last() == right.last());
    if right.len() == 1 {
        assert(all.drop_last() =~= left);
    } else {
        let front = right.drop_last();
        assert(all.drop_last() =~= left + front);
        law_parts_are_joined(left, front, separator);
        assert(joined(left, separator) + separator + joined(front, separator) + separator
            + right.last() =~= joined(left, separator) + separator + (joined(front, separator)
            + separator + right.last()));
    }
}

/// A text is filled up to its width: in front of it, or with spaces behind it, and not cut.
pub proof fn law_texts_are_filled_up(s: Seq<char>, width: nat, fill: char)
    ensures
        padded(s, width, fill).len() >= width,
        padded(s, width, fill).len() >= s.len(),
        padded(s, width, fill).len() == width || padded(s, width, fill) == s,
        finishes_with(padded(s, width, fill), s),
        forall|i: int|
            0 <= i < padded(s, width, fill).len() - s.len() ==> #[trigger] padded(
                s,
                width,
                fill,
            )[i] == fill,
        spaced(s, width).len() == padded(s, width, fill).len(),
        begins_with(spaced(s, width), s),
        forall|i: int|
            s.len() <= i < spaced(s, width).len() ==> #[trigger] spaced(s, width)[i] == ' ',
{
    let front = padded(s, width, fill);
    assert(front.subrange(front.len() - s.len(), front.len() as int) =~= s);
    let behind = spaced(s, width);
    assert(behind.subrange(0, s.len() as int) =~= s);
}

/// The letters of English become small, and nothing else changes.
pub proof fn law_letters_become_small(s: Seq<char>, i: int)
    requires
        0 <= i < s.len(),
    ensures
        ascii_lowercase(s).len() == s.len(),
        'A' <= s[i] <= 'Z' ==> ascii_lowercase(s)[i] as int == s[i] as int + 32,
        !('A' <= s[i] <= 'Z') ==> ascii_lowercase(s)[i] == s[i],
{
}

/// A number written out is read back, a sign before it or not.
pub proof fn law_numbers_are_read_back(n: nat, max: nat)
    ensures
        n <= max ==> number(decimal(n), max) == Some(n),
        n > max ==> number(decimal(n), max) is None,
        n <= max ==> number(seq!['+'] + decimal(n), max) == Some(n),
        number(Seq::empty(), max) is None,
{
    lemma_decimal_digits(n);
    let s = decimal(n);
    assert(is_digit(s[0]));
    assert(after_plus(s) == s);
    let signed = seq!['+'] + s;
    assert(signed.skip(1) =~= s);
    assert(after_plus(signed) == s);
    if n <= max {
        lemma_decimal_reads_back(n, max);
    }
}

} // verus!
