//! Lines, words and numbers of plain text reports.
use crate::lists::{first_index, lemma_first_index, lemma_first_index_is};
use crate::text::{char_is_white, is_white, trim_start};
use vstd::prelude::*;

verus! {

/// Whether a character ends a line.
pub open spec fn newline() -> spec_fn(char) -> bool {
    |c: char| c == '\n'
}

/// Whether a character stands between words.
pub open spec fn white() -> spec_fn(char) -> bool {
    |c: char| is_white(c)
}

/// A line without the carriage return before its end.
pub open spec fn chopped(line: Seq<char>) -> Seq<char> {
    if line.len() > 0 && line.last() == '\r' {
        line.drop_last()
    } else {
        line
    }
}

/// The lines of a text. An end of line at the end of the text begins no further line.
pub open spec fn lines_of(text: Seq<char>) -> Seq<Seq<char>>
    decreases text.len(),
    via lines_end
{
    if text.len() == 0 {
        Seq::empty()
    } else {
        match first_index(text, newline()) {
            Some(i) => seq![chopped(text.take(i))] + lines_of(text.skip(i + 1)),
            None => seq![text],
        }
    }
}

#[via_fn]
proof fn lines_end(text: Seq<char>) {
    lemma_first_index(text, newline());
}

/// How many characters the word at the beginning of a text has.
pub open spec fn word_len(text: Seq<char>) -> int {
    match first_index(text, white()) {
        Some(i) => i,
        None => text.len() as int,
    }
}

/// The words of a text: what stands between white space.
pub open spec fn words_of(text: Seq<char>) -> Seq<Seq<char>>
    decreases text.len(),
    via words_end
{
    let rest = trim_start(text);
    if rest.len() == 0 {
        Seq::empty()
    } else {
        seq![rest.take(word_len(rest))] + words_of(rest.skip(word_len(rest)))
    }
}

#[via_fn]
proof fn words_end(text: Seq<char>) {
    lemma_trim_start(text);
    let rest = trim_start(text);
    lemma_first_index(rest, white());
}

proof fn lemma_trim_start(text: Seq<char>)
    ensures
        trim_start(text).len() <= text.len(),
        trim_start(text).len() > 0 ==> !is_white(trim_start(text)[0]),
    decreases text.len(),
{
    if text.len() > 0 && is_white(text[0]) {
        lemma_trim_start(text.drop_first());
    }
}

fn copy_range(chars: &Vec<char>, from: usize, to: usize) -> (part: Vec<char>)
    requires
        from <= to <= chars.len(),
    ensures
        part@ == chars@.subrange(from as int, to as int),
{
    let mut part: Vec<char> = Vec::new();
    let mut i: usize = from;
    while i < to
        invariant
            from <= i <= to <= chars.len(),
            part@ == chars@.subrange(from as int, i as int),
        decreases to - i,
    {
        part.push(chars[i]);
        assert(part@ =~= chars@.subrange(from as int, i + 1));
        i += 1;
    }
    part
}

/// Parts of a text as sequences of characters.
pub open spec fn parts(list: Seq<Vec<char>>) -> Seq<Seq<char>> {
    list.map_values(|part: Vec<char>| part@)
}

/// The lines of a text.
pub fn split_lines(text: &Vec<char>) -> (lines: Vec<Vec<char>>)
    ensures
        parts(lines@) == lines_of(text@),
{
    let ghost all = text@;
    let mut lines: Vec<Vec<char>> = Vec::new();
    let mut start: usize = 0;
    let mut i: usize = 0;
    proof {
        assert(all.skip(0) =~= all);
        assert(parts(lines@) + lines_of(all) =~= lines_of(all));
    }
    while i < text.len()
        invariant
            start <= i <= text.len(),
            all == text@,
            parts(lines@) + lines_of(all.skip(start as int)) == lines_of(all),
            forall|j: int| start <= j < i ==> all[j] != '\n',
        decreases text.len() - i,
    {
        if text[i] == '\n' {
            let ghost rest = all.skip(start as int);
            let ghost before = lines@;
            let end: usize = if i > start && text[i - 1] == '\r' {
                i - 1
            } else {
                i
            };
            let line = copy_range(text, start, end);
            proof {
                assert forall|j: int| 0 <= j < i - start implies !newline()(#[trigger] rest[j]) by {
                    assert(rest[j] == all[start + j]);
                }
                assert(rest[i - start] == '\n');
                lemma_first_index_is(rest, newline(), i - start);
                assert(rest.take(i - start) =~= all.subrange(start as int, i as int));
                if i > start {
                    assert(all.subrange(start as int, i as int).last() == all[i - 1]);
                }
                assert(line@ =~= chopped(rest.take(i - start)));
                assert(rest.skip(i - start + 1) =~= all.skip(i + 1));
            }
            lines.push(line);
            proof {
                assert(parts(lines@) =~= parts(before).push(line@));
                assert(parts(before).push(line@) + lines_of(all.skip(i + 1)) =~= parts(before) + lines_of(rest));
            }
            start = i + 1;
        }
        i += 1;
    }
    if start < text.len() {
        let ghost rest = all.skip(start as int);
        let ghost before = lines@;
        let line = copy_range(text, start, text.len());
        proof {
            lemma_first_index(rest, newline());
            match first_index(rest, newline()) {
                Some(j) => {
                    assert(rest[j] == all[start + j]);
                },
                None => {},
            }
            assert(line@ =~= rest);
        }
        lines.push(line);
        proof {
            assert(parts(lines@) =~= parts(before).push(line@));
            assert(parts(before).push(line@) =~= parts(before) + lines_of(rest));
        }
    } else {
        proof {
            assert(all.skip(start as int) =~= Seq::empty());
            assert(parts(lines@) + lines_of(all.skip(start as int)) =~= parts(lines@));
        }
    }
    lines
}

proof fn lemma_words_skip_white(text: Seq<char>)
    requires
        text.len() > 0,
        is_white(text[0]),
    ensures
        words_of(text) == words_of(text.drop_first()),
{
}

/// The words of a text.
pub fn split_words(text: &Vec<char>) -> (words: Vec<Vec<char>>)
    ensures
        parts(words@) == words_of(text@),
{
    let ghost all = text@;
    let mut words: Vec<Vec<char>> = Vec::new();
    let mut i: usize = 0;
    proof {
        assert(all.skip(0) =~= all);
        assert(parts(words@) + words_of(all) =~= words_of(all));
    }
    while i < text.len()
        invariant
            i <= text.len(),
            all == text@,
            parts(words@) + words_of(all.skip(i as int)) == words_of(all),
        decreases text.len() - i,
    {
        let ghost rest = all.skip(i as int);
        assert(rest[0] == all[i as int]);
        if char_is_white(text[i]) {
            proof {
                lemma_words_skip_white(rest);
                assert(rest.drop_first() =~= all.skip(i + 1));
            }
            i += 1;
        } else {
            let from: usize = i;
            i += 1;
            while i < text.len() && !char_is_white(text[i])
                invariant
                    from < i <= text.len(),
                    all == text@,
                    forall|j: int| from <= j < i ==> !is_white(#[trigger] all[j]),
                decreases text.len() - i,
            {
                i += 1;
            }
            let ghost before = words@;
            let word = copy_range(text, from, i);
            proof {
                assert(trim_start(rest) == rest);
                assert forall|j: int| 0 <= j < i - from implies !white()(#[trigger] rest[j]) by {
                    assert(rest[j] == all[from + j]);
                }
                lemma_first_index(rest, white());
                if i < all.len() {
                    assert(rest[i - from] == all[i as int]);
                    lemma_first_index_is(rest, white(), i - from);
                } else {
                    match first_index(rest, white()) {
                        Some(j) => {
                            assert(rest[j] == all[from + j]);
                        },
                        None => {},
                    }
                }
                assert(word_len(rest) == i - from);
                assert(rest.take(i - from) =~= word@);
                assert(rest.skip(i - from) =~= all.skip(i as int));
            }
            words.push(word);
            proof {
                assert(parts(words@) =~= parts(before).push(word@));
                assert(parts(before).push(word@) + words_of(all.skip(i as int)) =~= parts(before) + words_of(rest));
            }
        }
    }
    proof {
        assert(all.skip(i as int) =~= Seq::empty());
        assert(words_of(all.skip(i as int)) =~= Seq::empty());
        assert(parts(words@) + words_of(all.skip(i as int)) =~= parts(words@));
    }
    words
}

/// A text from the first character of the word at `place` on: nothing, where there are no
/// more words than that.
pub open spec fn from_word(text: Seq<char>, place: nat) -> Seq<char>
    decreases place,
{
    let rest = trim_start(text);
    if place == 0 || rest.len() == 0 {
        rest
    } else {
        from_word(rest.skip(word_len(rest)), (place - 1) as nat)
    }
}

proof fn lemma_from_word_skip_white(text: Seq<char>, place: nat)
    requires
        text.len() > 0,
        is_white(text[0]),
    ensures
        from_word(text, place) == from_word(text.drop_first(), place),
{
}

/// A text from the word at `place` on.
pub fn rest_from_word(text: &Vec<char>, place: usize) -> (rest: Vec<char>)
    ensures
        rest@ == from_word(text@, place as nat),
{
    let ghost all = text@;
    let mut left: usize = place;
    let mut i: usize = 0;
    assert(all.skip(0) =~= all);
    while i < text.len() && (left > 0 || char_is_white(text[i]))
        invariant
            i <= text.len(),
            left <= place,
            all == text@,
            from_word(all.skip(i as int), left as nat) == from_word(all, place as nat),
        decreases text.len() - i,
    {
        let ghost rest = all.skip(i as int);
        assert(rest[0] == all[i as int]);
        if char_is_white(text[i]) {
            proof {
                lemma_from_word_skip_white(rest, left as nat);
                assert(rest.drop_first() =~= all.skip(i + 1));
            }
            i += 1;
        } else {
            let from: usize = i;
            i += 1;
            while i < text.len() && !char_is_white(text[i])
                invariant
                    from < i <= text.len(),
                    all == text@,
                    forall|j: int| from <= j < i ==> !is_white(#[trigger] all[j]),
                decreases text.len() - i,
            {
                i += 1;
            }
            proof {
                assert(trim_start(rest) == rest);
                assert forall|j: int| 0 <= j < i - from implies !white()(#[trigger] rest[j]) by {
                    assert(rest[j] == all[from + j]);
                }
                lemma_first_index(rest, white());
                if i < all.len() {
                    assert(rest[i - from] == all[i as int]);
                    lemma_first_index_is(rest, white(), i - from);
                } else {
                    match first_index(rest, white()) {
                        Some(j) => {
                            assert(rest[j] == all[from + j]);
                        },
                        None => {},
                    }
                }
                assert(word_len(rest) == i - from);
                assert(rest.skip(i - from) =~= all.skip(i as int));
            }
            left -= 1;
        }
    }
    proof {
        let rest = all.skip(i as int);
        if i < all.len() {
            assert(rest[0] == all[i as int]);
            assert(trim_start(rest) == rest);
        }
        assert(from_word(rest, left as nat) =~= rest);
        assert(rest =~= all.subrange(i as int, all.len() as int));
    }
    copy_range(text, i, text.len())
}

/// What a digit is worth, in a base up to sixteen.
pub open spec fn digit_value(c: char, base: int) -> Option<int> {
    let value = if '0' <= c <= '9' {
        c as int - 48
    } else if 'a' <= c <= 'f' {
        c as int - 87
    } else if 'A' <= c <= 'F' {
        c as int - 55
    } else {
        base
    };
    if value < base {
        Some(value)
    } else {
        None
    }
}

/// What digits are worth together, if they all are digits.
pub open spec fn digits_value(digits: Seq<char>, base: int) -> Option<int>
    decreases digits.len(),
{
    if digits.len() == 0 {
        Some(0)
    } else {
        match (digits_value(digits.drop_last(), base), digit_value(digits.last(), base)) {
            (Some(front), Some(last)) => Some(front * base + last),
            _ => None,
        }
    }
}

/// The number that a text stands for: digits, after a plus sign at most, of a value that a
/// machine word holds.
pub open spec fn number_of(text: Seq<char>, base: int) -> Option<usize> {
    let digits = if text.len() > 0 && text[0] == '+' {
        text.skip(1)
    } else {
        text
    };
    match digits_value(digits, base) {
        Some(value) if digits.len() > 0 && value <= usize::MAX => Some(value as usize),
        _ => None,
    }
}

proof fn lemma_digits_grow(digits: Seq<char>, n: int, base: int)
    requires
        0 <= n <= digits.len(),
        base >= 1,
    ensures
        digits_value(digits.take(n), base) is None ==> digits_value(digits, base) is None,
        digits_value(digits, base) is Some ==> digits_value(digits.take(n), base) is Some && 0 <= digits_value(
            digits.take(n),
            base,
        )->0 <= digits_value(digits, base)->0,
    decreases digits.len(),
{
    if n == digits.len() {
        assert(digits.take(n) =~= digits);
        lemma_digits_positive(digits, base);
    } else {
        let init = digits.drop_last();
        assert(init.take(n) =~= digits.take(n));
        lemma_digits_grow(init, n, base);
        if digits_value(digits, base) is Some {
            let front = digits_value(init, base)->0;
            assert(front * base >= front) by (nonlinear_arith)
                requires
                    front >= 0,
                    base >= 1,
            ;
        }
    }
}

proof fn lemma_digits_positive(digits: Seq<char>, base: int)
    requires
        base >= 1,
    ensures
        digits_value(digits, base) is Some ==> digits_value(digits, base)->0 >= 0,
    decreases digits.len(),
{
    if digits.len() > 0 {
        lemma_digits_positive(digits.drop_last(), base);
        if digits_value(digits, base) is Some {
            let front = digits_value(digits.drop_last(), base)->0;
            assert(front * base >= 0) by (nonlinear_arith)
                requires
                    front >= 0,
                    base >= 1,
            ;
        }
    }
}

fn value_of_digit(c: char, base: u32) -> (value: Option<u32>)
    requires
        1 <= base <= 16,
    ensures
        match value {
            Some(value) => digit_value(c, base as int) == Some(value as int) && value < 16,
            None => digit_value(c, base as int) is None,
        },
{
    let code: u32 = c as u32;
    let value: u32 = if '0' <= c && c <= '9' {
        code - 48
    } else if 'a' <= c && c <= 'f' {
        code - 87
    } else if 'A' <= c && c <= 'F' {
        code - 55
    } else {
        base
    };
    if value < base {
        Some(value)
    } else {
        None
    }
}

/// The number that a text stands for.
pub fn parse_number(text: &Vec<char>, base: u32) -> (number: Option<usize>)
    requires
        1 <= base <= 16,
    ensures
        number == number_of(text@, base as int),
{
    let from: usize = if text.len() > 0 && text[0] == '+' {
        1
    } else {
        0
    };
    let ghost digits = text@.skip(from as int);
    assert(from == 0 ==> digits =~= text@);
    if from == text.len() {
        assert(digits.len() == 0);
        return None;
    }
    let mut value: u128 = 0;
    let mut i: usize = from;
    assert(digits.take(0) =~= Seq::<char>::empty());
    while i < text.len()
        invariant
            from <= i <= text.len(),
            digits == text@.skip(from as int),
            digits == (if text@.len() > 0 && text@[0] == '+' {
                text@.skip(1)
            } else {
                text@
            }),
            1 <= base <= 16,
            digits_value(digits.take(i - from), base as int) == Some(value as int),
            value <= usize::MAX,
        decreases text.len() - i,
    {
        let ghost front = digits.take(i - from);
        let ghost more = digits.take(i - from + 1);
        proof {
            assert(more.drop_last() =~= front);
            assert(more.last() == text@[i as int]);
            lemma_digits_grow(digits, i - from + 1, base as int);
        }
        match value_of_digit(text[i], base) {
            Some(digit) => {
                assert(value * base <= usize::MAX * 16) by (nonlinear_arith)
                    requires
                        value <= usize::MAX,
                        base <= 16,
                ;
                value = value * base as u128 + digit as u128;
                if value > usize::MAX as u128 {
                    return None;
                }
            },
            None => {
                return None;
            },
        }
        i += 1;
    }
    assert(digits.take(digits.len() as int) =~= digits);
    Some(value as usize)
}

/// A number written in digits alone is read back as it is.
pub proof fn law_digits_are_numbers(front: Seq<char>, value: int, digit: int)
    requires
        digits_value(front, 10) == Some(value),
        0 <= digit <= 9,
    ensures
        digits_value(front.push((48 + digit) as char), 10) == Some(value * 10 + digit),
{
    let more = front.push((48 + digit) as char);
    assert(more.drop_last() =~= front);
}

} // verus!
