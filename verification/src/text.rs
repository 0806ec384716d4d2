//! Text operations on strings seen as sequences of characters.
use vstd::prelude::*;
use vstd::string::*;

verus! {

/// What `str::to_lowercase` makes of a text.
pub uninterp spec fn lowercase(text: Seq<char>) -> Seq<char>;

/// Calls `str::to_lowercase`. The result is a function of the text alone; which
/// characters it maps, and to what, is the Unicode case table of the standard
/// library and is not stated.
#[verifier::external_body]
pub(crate) fn to_lowercase(text: &str) -> (lower: String)
    ensures
        lower@ == lowercase(text@),
{
    text.to_lowercase()
}

/// `String::push` appends one character to the end.
pub assume_specification[ String::push ](text: &mut String, c: char)
    ensures
        final(text)@ == old(text)@.push(c),
;

/// Characters with the Unicode `White_Space` property.
pub open spec fn is_white(c: char) -> bool {
    let n = c as u32;
    ||| 0x9 <= n <= 0xd
    ||| n == 0x20
    ||| n == 0x85
    ||| n == 0xa0
    ||| n == 0x1680
    ||| 0x2000 <= n <= 0x200a
    ||| n == 0x2028
    ||| n == 0x2029
    ||| n == 0x202f
    ||| n == 0x205f
    ||| n == 0x3000
}

/// `text` without the white space at its front.
pub open spec fn trim_start(text: Seq<char>) -> Seq<char>
    decreases text.len(),
{
    if text.len() > 0 && is_white(text[0]) {
        trim_start(text.drop_first())
    } else {
        text
    }
}

/// `text` without the white space at its end.
pub open spec fn trim_end(text: Seq<char>) -> Seq<char>
    decreases text.len(),
{
    if text.len() > 0 && is_white(text.last()) {
        trim_end(text.drop_last())
    } else {
        text
    }
}

/// `text` without the white space at either end.
pub open spec fn trimmed(text: Seq<char>) -> Seq<char> {
    trim_end(trim_start(text))
}

/// Lexicographic order by code point.
pub open spec fn text_le(a: Seq<char>, b: Seq<char>) -> bool
    decreases a.len(),
{
    if a.len() == 0 {
        true
    } else if b.len() == 0 {
        false
    } else if a[0] == b[0] {
        text_le(a.drop_first(), b.drop_first())
    } else {
        (a[0] as int) < (b[0] as int)
    }
}

/// `text` begins with `prefix`.
pub open spec fn has_prefix(text: Seq<char>, prefix: Seq<char>) -> bool {
    prefix.len() <= text.len() && text.take(prefix.len() as int) == prefix
}

/// The order of texts is total, transitive and antisymmetric.
pub proof fn lemma_text_order(a: Seq<char>, b: Seq<char>, c: Seq<char>)
    ensures
        text_le(a, b) || text_le(b, a),
        text_le(a, b) && text_le(b, a) ==> a == b,
        text_le(a, b) && text_le(b, c) ==> text_le(a, c),
        text_le(a, a),
    decreases a.len() + b.len() + c.len(),
{
    if a.len() > 0 {
        lemma_text_order(a.drop_first(), Seq::empty(), Seq::empty());
        if b.len() > 0 {
            lemma_text_order(a.drop_first(), b.drop_first(), if c.len() > 0 { c.drop_first() } else { c });
            if a[0] == b[0] && a.drop_first() == b.drop_first() {
                assert(a =~= seq![a[0]] + a.drop_first());
                assert(b =~= seq![b[0]] + b.drop_first());
            }
            assert((a[0] as int) == (b[0] as int) ==> a[0] == b[0]);
        }
    } else if b.len() == 0 {
        assert(a =~= b);
    }
}

/// The characters of a text, one by one.
pub fn chars_of(text: &str) -> (chars: Vec<char>)
    ensures
        chars@ == text@,
{
    let mut chars: Vec<char> = Vec::new();
    for c in iter: text.chars()
        invariant
            iter.seq() == text@,
            chars@ == text@.take(iter.index() as int),
    {
        let ghost n = iter.index() as int;
        assert(text@.take(n + 1) =~= text@.take(n).push(c));
        chars.push(c);
    }
    assert(text@.take(text@.len() as int) =~= text@);
    chars
}

/// Whether two texts are the same.
pub fn text_eq(a: &str, b: &str) -> (same: bool)
    ensures
        same == (a@ == b@),
{
    let left = chars_of(a);
    let right = chars_of(b);
    if left.len() != right.len() {
        return false;
    }
    let mut i: usize = 0;
    while i < left.len()
        invariant
            i <= left.len(),
            left@ == a@,
            right@ == b@,
            left.len() == right.len(),
            forall|j: int| 0 <= j < i ==> left[j] == right[j],
        decreases left.len() - i,
    {
        if left[i] != right[i] {
            return false;
        }
        i += 1;
    }
    assert(a@ =~= b@);
    true
}

/// Whether `a` is not behind `b` in the order of texts.
pub fn text_at_most(a: &str, b: &str) -> (le: bool)
    ensures
        le == text_le(a@, b@),
{
    let left = chars_of(a);
    let right = chars_of(b);
    let mut i: usize = 0;
    assert(a@.skip(0) =~= a@);
    assert(b@.skip(0) =~= b@);
    while i < left.len() && i < right.len()
        invariant
            i <= left.len(),
            i <= right.len(),
            left@ == a@,
            right@ == b@,
            text_le(a@, b@) == text_le(a@.skip(i as int), b@.skip(i as int)),
        decreases left.len() - i,
    {
        let ghost x = a@.skip(i as int);
        let ghost y = b@.skip(i as int);
        assert(x[0] == left[i as int] && y[0] == right[i as int]);
        if left[i] != right[i] {
            return left[i] < right[i];
        }
        assert(x.drop_first() =~= a@.skip(i + 1));
        assert(y.drop_first() =~= b@.skip(i + 1));
        i += 1;
    }
    i == left.len()
}

/// Whether `text` begins with `prefix`.
pub fn starts_with(text: &str, prefix: &str) -> (yes: bool)
    ensures
        yes == has_prefix(text@, prefix@),
{
    let all = chars_of(text);
    let front = chars_of(prefix);
    if front.len() > all.len() {
        return false;
    }
    let mut i: usize = 0;
    while i < front.len()
        invariant
            i <= front.len() <= all.len(),
            all@ == text@,
            front@ == prefix@,
            forall|j: int| 0 <= j < i ==> all[j] == front[j],
        decreases front.len() - i,
    {
        if all[i] != front[i] {
            assert(text@.take(prefix@.len() as int)[i as int] != prefix@[i as int]);
            return false;
        }
        i += 1;
    }
    assert(text@.take(prefix@.len() as int) =~= prefix@);
    true
}

/// Whether a character is white space.
pub fn char_is_white(c: char) -> (white: bool)
    ensures
        white == is_white(c),
{
    let n: u32 = c as u32;
    (0x9 <= n && n <= 0xd) || n == 0x20 || n == 0x85 || n == 0xa0 || n == 0x1680 || (0x2000 <= n && n <= 0x200a)
        || n == 0x2028 || n == 0x2029 || n == 0x202f || n == 0x205f || n == 0x3000
}

/// A text without the white space at either end.
pub fn trim(text: &str) -> (core: String)
    ensures
        core@ == trimmed(text@),
{
    let chars = chars_of(text);
    let mut from: usize = 0;
    assert(text@.skip(0) =~= text@);
    while from < chars.len() && char_is_white(chars[from])
        invariant
            from <= chars.len(),
            chars@ == text@,
            trim_start(text@) == trim_start(text@.skip(from as int)),
        decreases chars.len() - from,
    {
        assert(text@.skip(from as int).drop_first() =~= text@.skip(from + 1));
        from += 1;
    }
    let ghost rest = text@.skip(from as int);
    let mut to: usize = chars.len();
    assert(rest.take(rest.len() as int) =~= rest);
    while to > from && char_is_white(chars[to - 1])
        invariant
            from <= to <= chars.len(),
            chars@ == text@,
            rest == text@.skip(from as int),
            trim_end(rest) == trim_end(rest.take(to - from)),
        decreases to,
    {
        let ghost front = rest.take(to - from);
        assert(front.last() == chars[to - 1]);
        assert(front.drop_last() =~= rest.take(to - from - 1));
        to -= 1;
    }
    proof {
        if to > from {
            assert(rest.take(to - from).last() == chars[to - 1]);
        }
        assert(text@.subrange(from as int, to as int) =~= rest.take(to - from));
    }
    text.substring_char(from, to).to_owned()
}

proof fn lemma_trim_start(text: Seq<char>)
    ensures
        exists|from: int|
            0 <= from <= text.len() && #[trigger] text.skip(from) == trim_start(text) && all_white(text.take(from)),
        trim_start(text).len() > 0 ==> !is_white(trim_start(text)[0]),
    decreases text.len(),
{
    if text.len() > 0 && is_white(text[0]) {
        let rest = text.drop_first();
        lemma_trim_start(rest);
        let k = choose|k: int|
            0 <= k <= rest.len() && #[trigger] rest.skip(k) == trim_start(rest) && all_white(rest.take(k));
        assert(text.skip(k + 1) =~= rest.skip(k));
        assert forall|i: int| 0 <= i < k + 1 implies is_white(#[trigger] text.take(k + 1)[i]) by {
            if i > 0 {
                assert(text.take(k + 1)[i] == rest.take(k)[i - 1]);
            }
        }
        assert(all_white(text.take(k + 1)));
    } else {
        assert(text.skip(0) =~= text);
        assert(all_white(text.take(0)));
    }
}

proof fn lemma_trim_end(text: Seq<char>)
    ensures
        trim_end(text).len() <= text.len(),
        text.take(trim_end(text).len() as int) == trim_end(text),
        all_white(text.skip(trim_end(text).len() as int)),
        trim_end(text).len() > 0 ==> !is_white(trim_end(text).last()),
    decreases text.len(),
{
    if text.len() > 0 && is_white(text.last()) {
        let rest = text.drop_last();
        lemma_trim_end(rest);
        let n = trim_end(text).len() as int;
        assert(text.take(n) =~= rest.take(n));
        assert forall|i: int| 0 <= i < text.len() - n implies is_white(#[trigger] text.skip(n)[i]) by {
            if n + i < rest.len() {
                assert(text.skip(n)[i] == rest.skip(n)[i]);
            }
        }
    } else {
        assert(text.take(text.len() as int) =~= text);
    }
}

/// Whether there is nothing but white space.
pub open spec fn all_white(text: Seq<char>) -> bool {
    forall|i: int| 0 <= i < text.len() ==> is_white(#[trigger] text[i])
}

/// A trimmed text is a piece of the text that neither begins nor ends with white space, and
/// what was around it was nothing but white space.
pub proof fn law_trimming_takes_white_space_off_the_ends(text: Seq<char>)
    ensures
        exists|from: int|
            0 <= from && from + trimmed(text).len() <= text.len() && #[trigger] text.skip(from).take(
                trimmed(text).len() as int,
            ) == trimmed(text) && all_white(text.take(from)) && all_white(
                text.skip(from).skip(trimmed(text).len() as int),
            ),
        trimmed(text).len() > 0 ==> !is_white(trimmed(text)[0]) && !is_white(trimmed(text).last()),
{
    lemma_trim_start(text);
    lemma_trim_end(trim_start(text));
    let from = choose|from: int|
        0 <= from <= text.len() && #[trigger] text.skip(from) == trim_start(text) && all_white(text.take(from));
    let n = trimmed(text).len() as int;
    assert(text.skip(from).take(n) == trimmed(text));
    if n > 0 {
        assert(trimmed(text)[0] == trim_start(text).take(n)[0]);
    }
}

} // verus!
