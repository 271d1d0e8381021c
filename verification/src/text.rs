//! Words, numbers and lists in texts.
use vstd::prelude::*;

verus! {

/// Whether a character is white space in the sense of Unicode.
pub open spec fn white(c: char) -> bool {
    ||| '\u{9}' <= c <= '\u{d}'
    ||| c == ' '
    ||| c == '\u{85}'
    ||| c == '\u{a0}'
    ||| c == '\u{1680}'
    ||| '\u{2000}' <= c <= '\u{200a}'
    ||| c == '\u{2028}'
    ||| c == '\u{2029}'
    ||| c == '\u{202f}'
    ||| c == '\u{205f}'
    ||| c == '\u{3000}'
}

/// Whether a character is white space in the sense of Unicode.
pub fn is_white_space(c: char) -> (result: bool)
    ensures
        result == white(c),
{
    (c >= '\u{9}' && c <= '\u{d}') || c == ' ' || c == '\u{85}' || c == '\u{a0}' || c == '\u{1680}'
        || (c >= '\u{2000}' && c <= '\u{200a}') || c == '\u{2028}' || c == '\u{2029}' || c
        == '\u{202f}' || c == '\u{205f}' || c == '\u{3000}'
}

/// A text without the white space it starts with.
pub open spec fn trim_start(s: Seq<char>) -> Seq<char>
    decreases s.len(),
{
    if s.len() > 0 && white(s[0]) {
        trim_start(s.skip(1))
    } else {
        s
    }
}

/// A text without the white space it ends with.
pub open spec fn trim_end(s: Seq<char>) -> Seq<char>
    decreases s.len(),
{
    if s.len() > 0 && white(s.last()) {
        trim_end(s.drop_last())
    } else {
        s
    }
}

/// A text without the white space around it.
pub open spec fn trimmed(s: Seq<char>) -> Seq<char> {
    trim_end(trim_start(s))
}

/// A text without the white space around it.
pub fn trim(s: &str) -> (result: &str)
    ensures
        result@ == trimmed(s@),
{
    let len: usize = s.unicode_len();
    let mut from: usize = 0;
    assert(s@.skip(0) =~= s@);
    while from < len && is_white_space(s.get_char(from))
        invariant
            from <= len,
            len == s@.len(),
            trim_start(s@) == trim_start(s@.skip(from as int)),
        decreases len - from,
    {
        assert(s@.skip(from as int).skip(1) =~= s@.skip(from + 1));
        from = from + 1;
    }
    assert(trim_start(s@) == s@.skip(from as int));
    let mut to: usize = len;
    assert(s@.subrange(from as int, to as int) =~= s@.skip(from as int));
    while to > from && is_white_space(s.get_char(to - 1))
        invariant
            from <= to <= len,
            len == s@.len(),
            trimmed(s@) == trim_end(s@.subrange(from as int, to as int)),
        decreases to - from,
    {
        assert(s@.subrange(from as int, to as int).drop_last() =~= s@.subrange(
            from as int,
            to - 1,
        ));
        to = to - 1;
    }
    s.substring_char(from, to)
}

/// The number of characters before the first white space.
pub open spec fn word_len(s: Seq<char>) -> nat
    decreases s.len(),
{
    if s.len() == 0 || white(s[0]) {
        0
    } else {
        1 + word_len(s.skip(1))
    }
}

/// The first word of a text. It may be empty.
pub open spec fn first_word(s: Seq<char>) -> Seq<char> {
    s.take(word_len(s) as int)
}

/// What follows the first word and one white space; `None` without such a
/// space.
pub open spec fn after_word(s: Seq<char>) -> Option<Seq<char>> {
    if word_len(s) < s.len() {
        Some(s.skip(word_len(s) as int + 1))
    } else {
        None
    }
}

/// Splits a text at its first white space.
pub fn split_word(s: &str) -> (result: (&str, Option<&str>))
    ensures
        result.0@ == first_word(s@),
        match after_word(s@) {
            Some(rest) => result.1 matches Some(r) && r@ == rest,
            None => result.1 is None,
        },
{
    let len: usize = s.unicode_len();
    let mut at: usize = 0;
    assert(s@.skip(0) =~= s@);
    while at < len && !is_white_space(s.get_char(at))
        invariant
            at <= len,
            len == s@.len(),
            word_len(s@) == at + word_len(s@.skip(at as int)),
        decreases len - at,
    {
        assert(s@.skip(at as int).skip(1) =~= s@.skip(at + 1));
        at = at + 1;
    }
    assert(word_len(s@) == at);
    let word = s.substring_char(0, at);
    assert(s@.subrange(0, at as int) =~= s@.take(at as int));
    if at < len {
        let rest = s.substring_char(at + 1, len);
        assert(s@.subrange(at + 1, len as int) =~= s@.skip(at + 1));
        (word, Some(rest))
    } else {
        (word, None)
    }
}

/// A character with an ASCII capital replaced by its small letter.
pub open spec fn small(c: char) -> char {
    if 'A' <= c <= 'Z' {
        (c as u32 + 32) as char
    } else {
        c
    }
}

/// A text with ASCII capitals replaced by small letters.
pub open spec fn small_text(s: Seq<char>) -> Seq<char> {
    s.map_values(|c: char| small(c))
}

/// A character with an ASCII capital replaced by its small letter.
fn to_small(c: char) -> (result: char)
    ensures
        result == small(c),
{
    if c >= 'A' && c <= 'Z' {
        let code: u8 = (c as u32) as u8;
        (code + 32) as char
    } else {
        c
    }
}

/// Whether a text is a keyword, apart from ASCII capitals in it.
pub fn is_keyword(s: &str, keyword: &str) -> (result: bool)
    ensures
        result == (small_text(s@) == keyword@),
{
    let len: usize = s.unicode_len();
    if len != keyword.unicode_len() {
        return false;
    }
    let mut i: usize = 0;
    while i < len
        invariant
            i <= len,
            len == s@.len(),
            len == keyword@.len(),
            forall|j: int| 0 <= j < i ==> small(#[trigger] s@[j]) == keyword@[j],
        decreases len - i,
    {
        if to_small(s.get_char(i)) != keyword.get_char(i) {
            assert(small_text(s@)[i as int] != keyword@[i as int]);
            return false;
        }
        i = i + 1;
    }
    assert(small_text(s@) =~= keyword@);
    true
}

/// Whether a text begins with another one.
pub fn starts_with(s: &str, prefix: &str) -> (result: bool)
    ensures
        result == prefix@.is_prefix_of(s@),
{
    let len: usize = prefix.unicode_len();
    if s.unicode_len() < len {
        return false;
    }
    let mut i: usize = 0;
    while i < len
        invariant
            i <= len,
            len == prefix@.len(),
            len <= s@.len(),
            forall|j: int| 0 <= j < i ==> #[trigger] s@[j] == prefix@[j],
        decreases len - i,
    {
        if s.get_char(i) != prefix.get_char(i) {
            assert(s@[i as int] != prefix@[i as int]);
            return false;
        }
        i = i + 1;
    }
    assert(prefix@ =~= s@.subrange(0, prefix@.len() as int));
    true
}

/// A text without the slashes it ends with.
pub open spec fn without_slashes(s: Seq<char>) -> Seq<char>
    decreases s.len(),
{
    if s.len() > 0 && s.last() == '/' {
        without_slashes(s.drop_last())
    } else {
        s
    }
}

/// A text without the slashes it ends with.
pub fn trim_end_slashes(s: &str) -> (result: &str)
    ensures
        result@ == without_slashes(s@),
{
    let len: usize = s.unicode_len();
    let mut to: usize = len;
    assert(s@.subrange(0, to as int) =~= s@);
    while to > 0 && s.get_char(to - 1) == '/'
        invariant
            to <= len,
            len == s@.len(),
            without_slashes(s@) == without_slashes(s@.subrange(0, to as int)),
        decreases to,
    {
        assert(s@.subrange(0, to as int).drop_last() =~= s@.subrange(0, to - 1));
        to = to - 1;
    }
    s.substring_char(0, to)
}

/// Whether all characters are decimal digits.
pub open spec fn all_digits(s: Seq<char>) -> bool {
    forall|i: int| 0 <= i < s.len() ==> '0' <= #[trigger] s[i] <= '9'
}

/// The number that decimal digits write.
pub open spec fn digits_value(s: Seq<char>) -> nat
    decreases s.len(),
{
    if s.len() == 0 {
        0
    } else {
        10 * digits_value(s.drop_last()) + (s.last() as u32 - '0' as u32) as nat
    }
}

/// The digits of a number that may start with a plus sign.
pub open spec fn unsigned_part(s: Seq<char>) -> Seq<char> {
    if s.len() > 0 && s[0] == '+' {
        s.skip(1)
    } else {
        s
    }
}

/// The number up to `max` that a text writes in decimal digits, with or
/// without a plus sign. `None` where it writes none or a larger one.
pub open spec fn decimal(s: Seq<char>, max: nat) -> Option<nat> {
    let digits = unsigned_part(s);
    if digits.len() > 0 && all_digits(digits) && digits_value(digits) <= max {
        Some(digits_value(digits))
    } else {
        None
    }
}

/// More digits write a larger number.
proof fn digits_grow(s: Seq<char>, n: int)
    requires
        0 <= n <= s.len(),
        all_digits(s),
    ensures
        digits_value(s.take(n)) <= digits_value(s),
    decreases s.len() - n,
{
    if n < s.len() {
        digits_grow(s, n + 1);
        assert(s.take(n + 1).drop_last() =~= s.take(n));
    } else {
        assert(s.take(n) =~= s);
    }
}

/// Reads a decimal number.
pub fn parse_decimal(s: &str, max: u64) -> (result: Option<u64>)
    ensures
        match decimal(s@, max as nat) {
            Some(n) => result == Some(n as u64),
            None => result is None,
        },
{
    let len: usize = s.unicode_len();
    let mut start: usize = 0;
    if len > 0 && s.get_char(0) == '+' {
        start = 1;
    }
    let ghost digits = unsigned_part(s@);
    assert(digits =~= s@.skip(start as int));
    if start == len {
        return None;
    }
    let mut value: u64 = 0;
    let mut i: usize = start;
    assert(digits.take(0) =~= Seq::empty());
    while i < len
        invariant
            start <= i <= len,
            len == s@.len(),
            digits == s@.skip(start as int),
            digits == unsigned_part(s@),
            value <= max,
            value == digits_value(digits.take(i - start)),
            forall|j: int| 0 <= j < i - start ==> '0' <= #[trigger] digits[j] <= '9',
        decreases len - i,
    {
        let c = s.get_char(i);
        let ghost at = i - start;
        assert(digits[at] == c);
        if c < '0' || c > '9' {
            return None;
        }
        let digit: u64 = (c as u32 - '0' as u32) as u64;
        assert(digits.take(at + 1).drop_last() =~= digits.take(at));
        assert(digits_value(digits.take(at + 1)) == 10 * value + digit);
        let next: u128 = 10 * (value as u128) + digit as u128;
        if next > max as u128 {
            proof {
                if all_digits(digits) {
                    digits_grow(digits, at + 1);
                }
            }
            return None;
        }
        value = next as u64;
        i = i + 1;
    }
    assert(digits.take(len - start) =~= digits);
    Some(value)
}

/// The number of characters before the first comma.
pub open spec fn item_len(s: Seq<char>) -> nat
    decreases s.len(),
{
    if s.len() == 0 || s[0] == ',' {
        0
    } else {
        1 + item_len(s.skip(1))
    }
}

/// The items of a list that is separated by commas, without the white space
/// around them and without the empty ones.
pub open spec fn items(s: Seq<char>) -> Seq<Seq<char>>
    decreases s.len(),
{
    let end = item_len(s);
    let item = trimmed(s.take(end as int));
    let first = if item.len() > 0 {
        seq![item]
    } else {
        Seq::empty()
    };
    if end < s.len() {
        first + items(s.skip(end as int + 1))
    } else {
        first
    }
}

/// The values of texts.
pub open spec fn texts(list: Seq<String>) -> Seq<Seq<char>> {
    list.map_values(|s: String| s@)
}

/// The items of a list that is separated by commas.
pub fn comma_items(s: &str) -> (list: Vec<String>)
    ensures
        texts(list@) == items(s@),
{
    let len: usize = s.unicode_len();
    let mut list: Vec<String> = Vec::new();
    let mut from: usize = 0;
    assert(s@.skip(0) =~= s@);
    loop
        invariant
            from <= len,
            len == s@.len(),
            items(s@) =~= texts(list@) + items(s@.skip(from as int)),
        decreases len - from,
    {
        let ghost rest = s@.skip(from as int);
        let mut to: usize = from;
        assert(s@.skip(to as int) =~= rest);
        while to < len && s.get_char(to) != ','
            invariant
                from <= to <= len,
                len == s@.len(),
                item_len(rest) == (to - from) + item_len(s@.skip(to as int)),
            decreases len - to,
        {
            assert(s@.skip(to as int).skip(1) =~= s@.skip(to + 1));
            to = to + 1;
        }
        assert(item_len(rest) == to - from);
        let item = trim(s.substring_char(from, to));
        assert(s@.subrange(from as int, to as int) =~= rest.take(to - from));
        let ghost before = list@;
        if !item.is_empty() {
            list.push(item.to_owned());
            assert(texts(list@) =~= texts(before).push(item@));
        }
        if to == len {
            assert(texts(list@) =~= items(s@));
            return list;
        }
        assert(rest.skip(to - from + 1) =~= s@.skip(to + 1));
        from = to + 1;
    }
}

/// A text without the white space around it is the part between: what is cut
/// off is white, and what is left neither starts nor ends with white space.
pub proof fn trimming_cuts_white_space(s: Seq<char>) -> (cut: (int, int))
    ensures
        0 <= cut.0 <= cut.1 <= s.len(),
        trimmed(s) == s.subrange(cut.0, cut.1),
        forall|i: int| 0 <= i < cut.0 ==> white(#[trigger] s[i]),
        forall|i: int| cut.1 <= i < s.len() ==> white(#[trigger] s[i]),
        cut.0 < cut.1 ==> !white(s[cut.0]) && !white(s[cut.1 - 1]),
{
    let from = start_cut(s);
    let middle = s.skip(from);
    let to = end_cut(middle);
    assert(trimmed(s) =~= s.subrange(from, from + to));
    assert forall|i: int| from + to <= i < s.len() implies white(#[trigger] s[i]) by {
        assert(middle[i - from] == s[i]);
    }
    if to > 0 {
        assert(middle[to - 1] == s[from + to - 1]);
        assert(middle[0] == s[from]);
    }
    (from, from + to)
}

/// How many white characters a text starts with.
proof fn start_cut(s: Seq<char>) -> (from: int)
    ensures
        0 <= from <= s.len(),
        trim_start(s) == s.skip(from),
        forall|i: int| 0 <= i < from ==> white(#[trigger] s[i]),
        from < s.len() ==> !white(s[from]),
    decreases s.len(),
{
    if s.len() > 0 && white(s[0]) {
        let rest = s.skip(1);
        let from = start_cut(rest);
        assert(rest.skip(from) =~= s.skip(from + 1));
        assert forall|i: int| 0 <= i < from + 1 implies white(#[trigger] s[i]) by {
            if i > 0 {
                assert(rest[i - 1] == s[i]);
            }
        }
        if from < rest.len() {
            assert(rest[from] == s[from + 1]);
        }
        from + 1
    } else {
        assert(s.skip(0) =~= s);
        0
    }
}

/// Where the white characters at the end of a text start.
proof fn end_cut(s: Seq<char>) -> (to: int)
    ensures
        0 <= to <= s.len(),
        trim_end(s) == s.take(to),
        forall|i: int| to <= i < s.len() ==> white(#[trigger] s[i]),
        to > 0 ==> !white(s[to - 1]),
    decreases s.len(),
{
    if s.len() > 0 && white(s.last()) {
        let rest = s.drop_last();
        let to = end_cut(rest);
        assert(rest.take(to) =~= s.take(to));
        assert forall|i: int| to <= i < s.len() implies white(#[trigger] s[i]) by {
            if i < rest.len() {
                assert(rest[i] == s[i]);
            }
        }
        to
    } else {
        assert(s.take(s.len() as int) =~= s);
        s.len() as int
    }
}

/// The first word of a text ends at the first white space, and what follows is
/// all behind that.
pub proof fn words_end_at_white_space(word: Seq<char>, space: char, rest: Seq<char>)
    requires
        forall|i: int| 0 <= i < word.len() ==> !white(#[trigger] word[i]),
        white(space),
    ensures
        first_word(word) == word,
        after_word(word) is None,
        first_word(word.push(space) + rest) == word,
        after_word(word.push(space) + rest) == Some(rest),
{
    let line = word.push(space) + rest;
    words_are_counted(word, Seq::empty());
    assert(word + Seq::<char>::empty() =~= word);
    words_are_counted(word, seq![space] + rest);
    assert(word + (seq![space] + rest) =~= line);
    assert(line.take(word.len() as int) =~= word);
    assert(word.take(word.len() as int) =~= word);
    assert(line.skip(word.len() as int + 1) =~= rest);
}

/// The first word has as many characters as come before the white space.
proof fn words_are_counted(word: Seq<char>, rest: Seq<char>)
    requires
        forall|i: int| 0 <= i < word.len() ==> !white(#[trigger] word[i]),
        rest.len() > 0 ==> white(rest[0]),
    ensures
        word_len(word + rest) == word.len(),
    decreases word.len(),
{
    let all = word + rest;
    if word.len() > 0 {
        let fewer = word.skip(1);
        assert forall|i: int| 0 <= i < fewer.len() implies !white(#[trigger] fewer[i]) by {
            assert(fewer[i] == word[i + 1]);
        }
        words_are_counted(fewer, rest);
        assert(all[0] == word[0]);
        assert(all.skip(1) =~= fewer + rest);
    } else if rest.len() > 0 {
        assert(all[0] == rest[0]);
    }
}

/// A text with no white space at its ends stays as it is.
pub proof fn bare_texts_stay(s: Seq<char>)
    requires
        s.len() > 0 ==> !white(s[0]) && !white(s.last()),
    ensures
        trimmed(s) == s,
{
}

/// Slashes are cut off the end of a text, all of them and nothing else.
pub proof fn only_slashes_are_cut(s: Seq<char>) -> (to: int)
    ensures
        0 <= to <= s.len(),
        without_slashes(s) == s.take(to),
        forall|i: int| to <= i < s.len() ==> #[trigger] s[i] == '/',
        to > 0 ==> s[to - 1] != '/',
    decreases s.len(),
{
    if s.len() > 0 && s.last() == '/' {
        let rest = s.drop_last();
        let to = only_slashes_are_cut(rest);
        assert(rest.take(to) =~= s.take(to));
        assert forall|i: int| to <= i < s.len() implies #[trigger] s[i] == '/' by {
            if i < rest.len() {
                assert(rest[i] == s[i]);
            }
        }
        to
    } else {
        assert(s.take(s.len() as int) =~= s);
        s.len() as int
    }
}

/// Decimal digits write a number place by place: one more digit is one more
/// place.
pub proof fn digits_write_places(s: Seq<char>, digit: char)
    requires
        all_digits(s),
        '0' <= digit <= '9',
    ensures
        decimal(seq![digit], 9) == Some((digit as u32 - '0' as u32) as nat),
        s.len() > 0 ==> forall|max: nat|
            digits_value(s) * 10 + (digit as u32 - '0' as u32) <= max ==> #[trigger] decimal(
                s.push(digit),
                max,
            ) == Some((digits_value(s) * 10 + (digit as u32 - '0' as u32)) as nat),
        s.len() > 0 ==> forall|max: nat|
            digits_value(s) * 10 + (digit as u32 - '0' as u32) > max ==> #[trigger] decimal(
                s.push(digit),
                max,
            ) is None,
{
    assert(s.push(digit).drop_last() =~= s);
    assert(seq![digit].drop_last() =~= Seq::<char>::empty());
    assert(seq![digit].last() == digit);
    reveal_with_fuel(digits_value, 2);
    assert(all_digits(seq![digit]));
    assert(unsigned_part(seq![digit]) == seq![digit]);
    assert(all_digits(s.push(digit)));
    if s.len() > 0 {
        assert(s.push(digit)[0] == s[0]);
    }
}

/// A list is read item by item: an item without commas, and without white space
/// around it, comes before the items behind its comma.
pub proof fn lists_are_read_item_by_item(item: Seq<char>, rest: Seq<char>)
    requires
        item.len() > 0,
        !white(item[0]) && !white(item.last()),
        forall|i: int| 0 <= i < item.len() ==> #[trigger] item[i] != ',',
    ensures
        items(item) == seq![item],
        items(item.push(',') + rest) == seq![item] + items(rest),
        items(seq![','] + rest) == items(rest),
{
    let list = item.push(',') + rest;
    let bare = seq![','] + rest;
    bare_texts_stay(item);
    item_ends_at_comma(item, Seq::empty());
    assert(item + Seq::<char>::empty() =~= item);
    assert(item.take(item.len() as int) =~= item);
    item_ends_at_comma(item, seq![','] + rest);
    assert(item + (seq![','] + rest) =~= list);
    assert(list.take(item.len() as int) =~= item);
    assert(list.skip(item.len() as int + 1) =~= rest);
    assert(bare[0] == ',');
    assert(bare.take(0) =~= Seq::<char>::empty());
    assert(bare.skip(1) =~= rest);
    assert(trimmed(Seq::<char>::empty()) =~= Seq::<char>::empty());
    assert(Seq::<Seq<char>>::empty() + items(rest) =~= items(rest));
}

/// An item has as many characters as come before its comma.
proof fn item_ends_at_comma(item: Seq<char>, rest: Seq<char>)
    requires
        forall|i: int| 0 <= i < item.len() ==> #[trigger] item[i] != ',',
        rest.len() > 0 ==> rest[0] == ',',
    ensures
        item_len(item + rest) == item.len(),
    decreases item.len(),
{
    let all = item + rest;
    if item.len() > 0 {
        let fewer = item.skip(1);
        assert forall|i: int| 0 <= i < fewer.len() implies #[trigger] fewer[i] != ',' by {
            assert(fewer[i] == item[i + 1]);
        }
        item_ends_at_comma(fewer, rest);
        assert(all[0] == item[0]);
        assert(all.skip(1) =~= fewer + rest);
    } else if rest.len() > 0 {
        assert(all[0] == rest[0]);
    }
}

} // verus!
