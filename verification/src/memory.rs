//! Where the memory of the process sits: what the system reports, and what is held here.
use crate::fields::{
    from_word, lines_of, number_of, parse_number, parts, rest_from_word, split_lines, split_words, words_of,
};
use crate::lists::{first_index, first_where, lemma_first_index};
use crate::search_panel::{ascii_lower, same_but_ascii_case};
use crate::settings::{InlineImage, InlineImageView};
use crate::state::{
    Attachment, AttachmentView, AviaryApp, Message, MessageView, SentMessage, ThreadBodyState, ThreadBodyStateView,
    ViewerTab, ViewerTabView,
};
use crate::text::{char_is_white, chars_of, has_prefix, trim, trim_end, trimmed};
use vstd::prelude::*;
use vstd::utf8::encode_utf8;

verus! {

/// Whether a line begins with a name.
pub open spec fn line_of(name: Seq<char>) -> spec_fn(Seq<char>) -> bool {
    |line: Seq<char>| has_prefix(line, name)
}

/// What stands after a name at the beginning of the first line that has it.
pub open spec fn field_of(report: Seq<char>, name: Seq<char>) -> Option<Seq<char>> {
    match first_where(lines_of(report), line_of(name)) {
        Some(line) => Some(line.skip(name.len() as int)),
        None => None,
    }
}

fn begins_with_name(line: &Vec<char>, name: &Vec<char>) -> (yes: bool)
    ensures
        yes == has_prefix(line@, name@),
{
    if name.len() > line.len() {
        return false;
    }
    let mut i: usize = 0;
    while i < name.len()
        invariant
            i <= name.len() <= line.len(),
            forall|j: int| 0 <= j < i ==> line@[j] == name@[j],
        decreases name.len() - i,
    {
        if line[i] != name[i] {
            assert(line@.take(name@.len() as int)[i as int] != name@[i as int]);
            return false;
        }
        i += 1;
    }
    assert(line@.take(name@.len() as int) =~= name@);
    true
}

fn rest_after(line: &Vec<char>, from: usize) -> (rest: Vec<char>)
    requires
        from <= line.len(),
    ensures
        rest@ == line@.skip(from as int),
{
    let mut rest: Vec<char> = Vec::new();
    let mut i: usize = from;
    while i < line.len()
        invariant
            from <= i <= line.len(),
            rest@ == line@.subrange(from as int, i as int),
        decreases line.len() - i,
    {
        rest.push(line[i]);
        assert(rest@ =~= line@.subrange(from as int, i + 1));
        i += 1;
    }
    assert(rest@ =~= line@.skip(from as int));
    rest
}

fn find_field(report: &str, name: &str) -> (value: Option<Vec<char>>)
    ensures
        match value {
            Some(value) => field_of(report@, name@) == Some(value@),
            None => field_of(report@, name@) is None,
        },
{
    let chars = chars_of(report);
    let wanted = chars_of(name);
    let lines = split_lines(&chars);
    let ghost all = parts(lines@);
    let mut i: usize = 0;
    while i < lines.len()
        invariant
            i <= lines.len(),
            all == parts(lines@),
            all == lines_of(report@),
            wanted@ == name@,
            forall|j: int| 0 <= j < i ==> !line_of(name@)(#[trigger] all[j]),
        decreases lines.len() - i,
    {
        assert(all[i as int] == lines@[i as int]@);
        if begins_with_name(&lines[i], &wanted) {
            proof {
                crate::lists::lemma_first_index_is(all, line_of(name@), i as int);
            }
            return Some(rest_after(&lines[i], wanted.len()));
        }
        i += 1;
    }
    proof {
        lemma_first_index(all, line_of(name@));
    }
    None
}

/// The number in the word at `place` of a text, in units of 1024.
pub open spec fn kibi_word(text: Seq<char>, place: int) -> Option<u128> {
    let words = words_of(text);
    if 0 <= place < words.len() {
        match number_of(words[place], 10) {
            Some(number) => Some((number * 1024) as u128),
            None => None,
        }
    } else {
        None
    }
}

fn read_kibi(text: &Vec<char>, place: usize) -> (bytes: Option<u128>)
    ensures
        bytes == kibi_word(text@, place as int),
{
    let words = split_words(text);
    assert(parts(words@).len() == words.len());
    if place < words.len() {
        assert(parts(words@)[place as int] == words@[place as int]@);
        match parse_number(&words[place], 10) {
            Some(number) => Some(number as u128 * 1024),
            None => None,
        }
    } else {
        None
    }
}

/// Memory of the process, of the report `status` that the system gives of it.
pub open spec fn resident_bytes(status: Seq<char>) -> Option<u128> {
    match field_of(status, "VmRSS:"@) {
        Some(value) => kibi_word(value, 0),
        None => None,
    }
}

/// Memory of the process, of the report that the system gives of it.
pub fn process_rss_bytes(status: &str) -> (bytes: Option<u128>)
    ensures
        bytes == resident_bytes(status@),
{
    match find_field(status, "VmRSS:") {
        Some(value) => read_kibi(&value, 0),
        None => None,
    }
}

/// The value of a field whose name is the first word of its line.
pub open spec fn rollup_field(rollup: Seq<char>, name: Seq<char>) -> Option<u128> {
    match first_where(lines_of(rollup), line_of(name)) {
        Some(line) => kibi_word(line, 1),
        None => None,
    }
}

fn read_rollup(rollup: &str, name: &str) -> (bytes: Option<u128>)
    ensures
        bytes == rollup_field(rollup@, name@),
{
    let chars = chars_of(rollup);
    let wanted = chars_of(name);
    let lines = split_lines(&chars);
    let ghost all = parts(lines@);
    let mut i: usize = 0;
    while i < lines.len()
        invariant
            i <= lines.len(),
            all == parts(lines@),
            all == lines_of(rollup@),
            wanted@ == name@,
            forall|j: int| 0 <= j < i ==> !line_of(name@)(#[trigger] all[j]),
        decreases lines.len() - i,
    {
        assert(all[i as int] == lines@[i as int]@);
        if begins_with_name(&lines[i], &wanted) {
            proof {
                crate::lists::lemma_first_index_is(all, line_of(name@), i as int);
            }
            return read_kibi(&lines[i], 1);
        }
        i += 1;
    }
    proof {
        lemma_first_index(all, line_of(name@));
    }
    None
}

/// Memory of the process that belongs to no file, and memory that does.
pub open spec fn split_of(rollup: Seq<char>) -> Option<(u128, u128)> {
    match (rollup_field(rollup, "Rss:"@), rollup_field(rollup, "Anonymous:"@)) {
        (Some(rss), Some(anonymous)) => Some(
            (
                anonymous,
                if rss > anonymous {
                    (rss - anonymous) as u128
                } else {
                    0
                },
            ),
        ),
        _ => None,
    }
}

/// Memory of the process that belongs to no file, and memory that does.
pub fn resident_split(rollup: &str) -> (split: Option<(u128, u128)>)
    ensures
        split == split_of(rollup@),
{
    match (read_rollup(rollup, "Rss:"), read_rollup(rollup, "Anonymous:")) {
        (Some(rss), Some(anonymous)) => Some(
            (
                anonymous,
                if rss > anonymous {
                    rss - anonymous
                } else {
                    0
                },
            ),
        ),
        _ => None,
    }
}

/// How many threads the process has, of the report that the system gives of it.
pub fn thread_count(status: &str) -> (threads: Option<usize>)
    ensures
        threads == (match field_of(status@, "Threads:"@) {
            Some(value) => number_of(trimmed(value), 10),
            None => None,
        }),
{
    match find_field(status, "Threads:") {
        Some(value) => {
            let mut text: String = String::new();
            let mut i: usize = 0;
            while i < value.len()
                invariant
                    i <= value.len(),
                    text@ == value@.take(i as int),
                decreases value.len() - i,
            {
                text.push(value[i]);
                assert(text@ =~= value@.take(i + 1));
                i += 1;
            }
            assert(value@.take(value@.len() as int) =~= value@);
            let core = trim(text.as_str());
            parse_number(&chars_of(core.as_str()), 10)
        },
        None => None,
    }
}

/// Whether a text ends with an ending in either case.
pub open spec fn ends_like(text: Seq<char>, ending: Seq<char>) -> bool {
    text.len() >= ending.len() && same_but_ascii_case(text.skip(text.len() - ending.len()), ending)
}

/// Whether a path names a font file.
pub open spec fn is_font(path: Seq<char>) -> bool {
    ||| ends_like(path, ".ttf"@)
    ||| ends_like(path, ".otf"@)
    ||| ends_like(path, ".ttc"@)
    ||| ends_like(path, ".pfb"@)
    ||| ends_like(path, ".woff"@)
    ||| ends_like(path, ".woff2"@)
}

fn has_ending(text: &Vec<char>, ending: &str) -> (yes: bool)
    ensures
        yes == ends_like(text@, ending@),
{
    let wanted = chars_of(ending);
    if text.len() < wanted.len() {
        return false;
    }
    let from: usize = text.len() - wanted.len();
    let ghost tail = text@.skip(from as int);
    let mut i: usize = 0;
    while i < wanted.len()
        invariant
            i <= wanted.len(),
            wanted@ == ending@,
            from == text.len() - wanted.len(),
            tail == text@.skip(from as int),
            forall|j: int| 0 <= j < i ==> ascii_lower(#[trigger] tail[j]) == ascii_lower(ending@[j]),
        decreases wanted.len() - i,
    {
        assert(tail[i as int] == text@[from + i]);
        if crate::search_panel::lower_of(text[from + i]) != crate::search_panel::lower_of(wanted[i]) {
            assert(ascii_lower(tail[i as int]) != ascii_lower(ending@[i as int]));
            return false;
        }
        i += 1;
    }
    true
}

fn names_font(path: &Vec<char>) -> (yes: bool)
    ensures
        yes == is_font(path@),
{
    has_ending(path, ".ttf") || has_ending(path, ".otf") || has_ending(path, ".ttc") || has_ending(path, ".pfb")
        || has_ending(path, ".woff") || has_ending(path, ".woff2")
}

/// Whether a character stands between the two ends of a range.
pub open spec fn is_hyphen() -> spec_fn(char) -> bool {
    |c: char| c == '-'
}

/// How many addresses a range has: two numbers in base sixteen, with a hyphen between them.
pub open spec fn range_size(range: Seq<char>) -> Option<usize> {
    match first_index(range, is_hyphen()) {
        Some(i) => match (number_of(range.take(i), 16), number_of(range.skip(i + 1), 16)) {
            (Some(start), Some(end)) => Some(
                if end > start {
                    (end - start) as usize
                } else {
                    0
                },
            ),
            _ => None,
        },
        None => None,
    }
}

fn size_of_range(range: &Vec<char>) -> (size: Option<usize>)
    ensures
        size == range_size(range@),
{
    let mut i: usize = 0;
    while i < range.len()
        invariant
            i <= range.len(),
            forall|j: int| 0 <= j < i ==> !is_hyphen()(#[trigger] range@[j]),
        decreases range.len() - i,
    {
        if range[i] == '-' {
            proof {
                crate::lists::lemma_first_index_is(range@, is_hyphen(), i as int);
            }
            let mut first: Vec<char> = Vec::new();
            let mut k: usize = 0;
            while k < i
                invariant
                    k <= i < range.len(),
                    first@ == range@.take(k as int),
                decreases i - k,
            {
                first.push(range[k]);
                assert(first@ =~= range@.take(k + 1));
                k += 1;
            }
            let last = rest_after(range, i + 1);
            return match (parse_number(&first, 16), parse_number(&last, 16)) {
                (Some(start), Some(end)) => Some(
                    if end > start {
                        end - start
                    } else {
                        0
                    },
                ),
                _ => None,
            };
        }
        i += 1;
    }
    proof {
        lemma_first_index(range@, is_hyphen());
    }
    None
}

/// Whether a text ends with an ending.
pub open spec fn ends_with(text: Seq<char>, ending: Seq<char>) -> bool {
    text.len() >= ending.len() && text.skip(text.len() - ending.len()) == ending
}

/// A path without the mark that the system puts behind that of a file that is gone.
pub open spec fn unmarked(path: Seq<char>) -> Seq<char> {
    if ends_with(path, " (deleted)"@) {
        path.take(path.len() - " (deleted)"@.len())
    } else {
        path
    }
}

/// What a line of a map says is mapped: all that stands from its sixth word on, spaces
/// included.
pub open spec fn path_of_line(line: Seq<char>) -> Seq<char> {
    unmarked(trim_end(from_word(line, 5)))
}

fn path_in(line: &Vec<char>) -> (path: Vec<char>)
    ensures
        path@ == path_of_line(line@),
{
    let mut path = rest_from_word(line, 5);
    let ghost whole = path@;
    while path.len() > 0 && char_is_white(path[path.len() - 1])
        invariant
            trim_end(path@) == trim_end(whole),
        decreases path.len(),
    {
        let ghost before = path@;
        path.pop();
        assert(path@ =~= before.drop_last());
    }
    assert(path@ == trim_end(whole));
    let mark = chars_of(" (deleted)");
    if path.len() >= mark.len() {
        let kept: usize = path.len() - mark.len();
        let tail = rest_after(&path, kept);
        if begins_with_name(&tail, &mark) {
            assert(tail@.take(mark@.len() as int) =~= tail@);
            path.truncate(kept);
            assert(path@ =~= trim_end(whole).take(kept as int));
        } else {
            assert(tail@.take(mark@.len() as int) =~= tail@);
        }
    }
    path
}

/// The font files among the first lines of a map, and their sizes together: each file
/// counts once, with its first range. A line without words, or a font without a range,
/// makes the map unreadable.
pub open spec fn fonts_in(lines: Seq<Seq<char>>) -> Option<(Seq<Seq<char>>, int)>
    decreases lines.len(),
{
    if lines.len() == 0 {
        Some((Seq::empty(), 0))
    } else {
        match fonts_in(lines.drop_last()) {
            None => None,
            Some((seen, total)) => {
                let words = words_of(lines.last());
                let path = path_of_line(lines.last());
                if words.len() == 0 {
                    None
                } else if path.len() == 0 || path[0] != '/' || !is_font(path) || seen.contains(path) {
                    Some((seen, total))
                } else {
                    match range_size(words[0]) {
                        Some(size) => Some((seen.push(path), total + size)),
                        None => None,
                    }
                }
            },
        }
    }
}

proof fn lemma_fonts_none(lines: Seq<Seq<char>>, n: int)
    requires
        0 <= n <= lines.len(),
        fonts_in(lines.take(n)) is None,
    ensures
        fonts_in(lines) is None,
    decreases lines.len() - n,
{
    if n < lines.len() {
        assert(lines.take(n + 1).drop_last() =~= lines.take(n));
        lemma_fonts_none(lines, n + 1);
    } else {
        assert(lines.take(n) =~= lines);
    }
}

fn holds_part(list: &Vec<Vec<char>>, part: &Vec<char>) -> (found: bool)
    ensures
        found == parts(list@).contains(part@),
{
    let mut i: usize = 0;
    while i < list.len()
        invariant
            i <= list.len(),
            forall|j: int| 0 <= j < i ==> #[trigger] parts(list@)[j] != part@,
        decreases list.len() - i,
    {
        let other = &list[i];
        assert(parts(list@)[i as int] == other@);
        let mut same = other.len() == part.len();
        let mut k: usize = 0;
        while same && k < part.len()
            invariant
                k <= part.len(),
                same ==> other.len() == part.len(),
                same ==> forall|j: int| 0 <= j < k ==> other@[j] == part@[j],
                !same ==> other@ != part@,
            decreases part.len() - k,
        {
            if other[k] != part[k] {
                same = false;
            }
            k += 1;
        }
        if same {
            assert(other@ =~= part@);
            return true;
        }
        i += 1;
    }
    false
}

/// Bytes of font files that are mapped into the process, of the map that the system gives.
pub fn mapped_font_bytes(maps: &str) -> (bytes: Option<u128>)
    ensures
        match bytes {
            Some(bytes) => match fonts_in(lines_of(maps@)) {
                Some((_, total)) => total == bytes,
                None => false,
            },
            None => fonts_in(lines_of(maps@)) is None,
        },
{
    let chars = chars_of(maps);
    let lines = split_lines(&chars);
    let ghost all = parts(lines@);
    assert(all.len() == lines.len());
    let mut seen: Vec<Vec<char>> = Vec::new();
    let mut total: u128 = 0;
    let mut i: usize = 0;
    assert(parts(seen@) =~= Seq::<Seq<char>>::empty());
    assert(all.take(0) =~= Seq::<Seq<char>>::empty());
    while i < lines.len()
        invariant
            i <= lines.len(),
            all == parts(lines@),
            all == lines_of(maps@),
            all.len() == lines.len(),
            fonts_in(all.take(i as int)) == Some((parts(seen@), total as int)),
            total <= i * 0xffff_ffff_ffff_ffff,
        decreases lines.len() - i,
    {
        let words = split_words(&lines[i]);
        proof {
            assert(all[i as int] == lines@[i as int]@);
            assert(all.take(i + 1).drop_last() =~= all.take(i as int));
            assert(all.take(i + 1).last() == all[i as int]);
            assert(parts(words@).len() == words.len());
            assert forall|k: int| 0 <= k < words.len() implies #[trigger] parts(words@)[k] == words@[k]@ by {}
        }
        if words.len() == 0 {
            proof {
                lemma_fonts_none(all, i + 1);
            }
            return None;
        }
        let path = path_in(&lines[i]);
        if path.len() > 0 && path[0] == '/' && names_font(&path) && !holds_part(&seen, &path) {
            match size_of_range(&words[0]) {
                Some(size) => {
                    let ghost before = seen@;
                    seen.push(path);
                    assert(parts(seen@) =~= parts(before).push(path@));
                    total = total + size as u128;
                },
                None => {
                    proof {
                        lemma_fonts_none(all, i + 1);
                    }
                    return None;
                },
            }
        }
        i += 1;
    }
    assert(all.take(all.len() as int) =~= all);
    Some(total)
}

/// The length of a text in bytes.
pub open spec fn text_bytes(text: Seq<char>) -> usize {
    encode_utf8(text).len() as usize
}

/// The bytes of inline images together.
pub open spec fn image_bytes(images: Seq<InlineImageView>) -> int
    decreases images.len(),
{
    if images.len() == 0 {
        0
    } else {
        image_bytes(images.drop_last()) + images.last().bytes.len()
    }
}

/// The bytes of attachments that were fetched, together.
pub open spec fn attachment_bytes(attachments: Seq<AttachmentView>) -> int
    decreases attachments.len(),
{
    if attachments.len() == 0 {
        0
    } else {
        attachment_bytes(attachments.drop_last()) + (match attachments.last().bytes {
            Some(bytes) => bytes.len() as int,
            None => 0,
        })
    }
}

/// What a message holds beyond its header: body, original, inline images, and attachments
/// that were fetched.
pub open spec fn weight(message: MessageView) -> int {
    text_bytes(message.body) + (match message.raw_body {
        Some(raw) => text_bytes(raw) as int,
        None => 0,
    }) + image_bytes(message.inline_images) + attachment_bytes(message.attachments)
}

fn weigh_images(images: &Vec<InlineImage>) -> (bytes: u128)
    ensures
        bytes == image_bytes(images.deep_view()),
        bytes <= 0xffff_ffff_ffff_ffff * 0xffff_ffff_ffff_ffff,
{
    let ghost all = images.deep_view();
    let mut bytes: u128 = 0;
    let mut i: usize = 0;
    assert(all.take(0) =~= Seq::<InlineImageView>::empty());
    while i < images.len()
        invariant
            i <= images.len(),
            all == images.deep_view(),
            bytes == image_bytes(all.take(i as int)),
            bytes <= i * 0xffff_ffff_ffff_ffff,
        decreases images.len() - i,
    {
        assert(all[i as int] == images[i as int].deep_view());
        assert(all[i as int].bytes.len() == images[i as int].bytes.len());
        assert(all.take(i + 1).drop_last() =~= all.take(i as int));
        bytes = bytes + images[i].bytes.len() as u128;
        i += 1;
    }
    assert(all.take(all.len() as int) =~= all);
    bytes
}

fn weigh_attachments(attachments: &Vec<Attachment>) -> (bytes: u128)
    ensures
        bytes == attachment_bytes(attachments.deep_view()),
        bytes <= 0xffff_ffff_ffff_ffff * 0xffff_ffff_ffff_ffff,
{
    let ghost all = attachments.deep_view();
    let mut bytes: u128 = 0;
    let mut i: usize = 0;
    assert(all.take(0) =~= Seq::<AttachmentView>::empty());
    while i < attachments.len()
        invariant
            i <= attachments.len(),
            all == attachments.deep_view(),
            bytes == attachment_bytes(all.take(i as int)),
            bytes <= i * 0xffff_ffff_ffff_ffff,
        decreases attachments.len() - i,
    {
        assert(all[i as int] == attachments[i as int].deep_view());
        assert(all.take(i + 1).drop_last() =~= all.take(i as int));
        if let Some(content) = &attachments[i].bytes {
            assert(all[i as int].bytes->0.len() == content.len());
            bytes = bytes + content.len() as u128;
        }
        i += 1;
    }
    assert(all.take(all.len() as int) =~= all);
    bytes
}

/// What a message holds beyond its header; `None` where that is more than can be counted.
pub fn message_bytes(message: &Message) -> (bytes: Option<u128>)
    ensures
        match bytes {
            Some(bytes) => bytes == weight(message.deep_view()),
            None => weight(message.deep_view()) > u128::MAX,
        },
        weight(message.deep_view()) >= 0,
{
    let body: u128 = message.body.as_str().len() as u128;
    let raw: u128 = match &message.raw_body {
        Some(raw) => raw.as_str().len() as u128,
        None => 0,
    };
    let texts: u128 = body + raw;
    let images = weigh_images(&message.inline_images);
    let attachments = weigh_attachments(&message.attachments);
    match images.checked_add(attachments) {
        Some(files) => files.checked_add(texts),
        None => None,
    }
}

/// What the application holds: headers of the list and of a search, bodies and the bytes
/// behind them, and snapshots of replies. `body_bytes` is `None` where there are more than
/// can be counted.
#[derive(Debug, Clone, Copy, PartialEq, Eq, Structural)]
pub struct Holdings {
    pub headers: usize,
    pub search_results: usize,
    pub bodies: u128,
    pub body_bytes: Option<u128>,
    pub sent_snapshots: u128,
}

/// Whether a count stands for a total.
pub open spec fn counted(count: Option<u128>, total: int) -> bool {
    match count {
        Some(count) => count == total,
        None => total > u128::MAX,
    }
}

fn add_message(count: Option<u128>, message: &Message, Ghost(total): Ghost<int>) -> (sum: Option<u128>)
    requires
        counted(count, total),
        total >= 0,
    ensures
        counted(sum, total + weight(message.deep_view())),
        weight(message.deep_view()) >= 0,
{
    let bytes = message_bytes(message);
    match (count, bytes) {
        (Some(count), Some(bytes)) => count.checked_add(bytes),
        _ => None,
    }
}

/// The bytes of the messages that tabs hold.
pub open spec fn tab_bytes(tabs: Seq<ViewerTabView>) -> int
    decreases tabs.len(),
{
    if tabs.len() == 0 {
        0
    } else {
        tab_bytes(tabs.drop_last()) + (match tabs.last() {
            ViewerTabView::Message { message } => weight(message),
            _ => 0,
        })
    }
}

/// The bytes of older messages that were loaded.
pub open spec fn loaded_bytes(bodies: Seq<(Seq<char>, ThreadBodyStateView)>) -> int
    decreases bodies.len(),
{
    if bodies.len() == 0 {
        0
    } else {
        loaded_bytes(bodies.drop_last()) + (match bodies.last().1 {
            ThreadBodyStateView::Loaded { message } => weight(message),
            _ => 0,
        })
    }
}

/// How many tabs hold a message.
pub open spec fn message_tabs(tabs: Seq<ViewerTabView>) -> int
    decreases tabs.len(),
{
    if tabs.len() == 0 {
        0
    } else {
        message_tabs(tabs.drop_last()) + (if tabs.last() is Message {
            1int
        } else {
            0int
        })
    }
}

/// How many bodies of older messages were loaded.
pub open spec fn loaded_bodies(bodies: Seq<(Seq<char>, ThreadBodyStateView)>) -> int
    decreases bodies.len(),
{
    if bodies.len() == 0 {
        0
    } else {
        loaded_bodies(bodies.drop_last()) + (if bodies.last().1 is Loaded {
            1int
        } else {
            0int
        })
    }
}

/// How many snapshots of replies there are.
pub open spec fn snapshots(sent: Seq<(String, Vec<SentMessage>)>) -> int
    decreases sent.len(),
{
    if sent.len() == 0 {
        0
    } else {
        snapshots(sent.drop_last()) + sent.last().1.len()
    }
}

fn count_tabs(tabs: &Vec<ViewerTab>, start: Option<u128>, Ghost(before): Ghost<int>) -> (tally: (u128, Option<u128>))
    requires
        counted(start, before),
        before >= 0,
    ensures
        tally.0 == message_tabs(tabs.deep_view()),
        tally.0 <= 0xffff_ffff_ffff_ffff,
        counted(tally.1, before + tab_bytes(tabs.deep_view())),
        tab_bytes(tabs.deep_view()) >= 0,
{
    let ghost all = tabs.deep_view();
    let mut count: u128 = 0;
    let mut bytes: Option<u128> = start;
    let mut i: usize = 0;
    assert(all.take(0) =~= Seq::<ViewerTabView>::empty());
    while i < tabs.len()
        invariant
            i <= tabs.len(),
            all == tabs.deep_view(),
            before >= 0,
            count == message_tabs(all.take(i as int)),
            count <= i,
            counted(bytes, before + tab_bytes(all.take(i as int))),
            tab_bytes(all.take(i as int)) >= 0,
        decreases tabs.len() - i,
    {
        assert(all[i as int] == tabs[i as int].deep_view());
        assert(all.take(i + 1).drop_last() =~= all.take(i as int));
        match &tabs[i] {
            ViewerTab::Message { message } => {
                count = count + 1;
                bytes = add_message(bytes, message, Ghost(before + tab_bytes(all.take(i as int))));
            },
            _ => {},
        }
        i += 1;
    }
    assert(all.take(all.len() as int) =~= all);
    (count, bytes)
}

fn count_bodies(bodies: &Vec<(String, ThreadBodyState)>, start: Option<u128>, Ghost(before): Ghost<int>) -> (tally: (u128, Option<u128>))
    requires
        counted(start, before),
        before >= 0,
    ensures
        tally.0 == loaded_bodies(bodies.deep_view()),
        tally.0 <= 0xffff_ffff_ffff_ffff,
        counted(tally.1, before + loaded_bytes(bodies.deep_view())),
        loaded_bytes(bodies.deep_view()) >= 0,
{
    let ghost all = bodies.deep_view();
    let mut count: u128 = 0;
    let mut bytes: Option<u128> = start;
    let mut i: usize = 0;
    assert(all.take(0) =~= Seq::<(Seq<char>, ThreadBodyStateView)>::empty());
    while i < bodies.len()
        invariant
            i <= bodies.len(),
            all == bodies.deep_view(),
            before >= 0,
            count == loaded_bodies(all.take(i as int)),
            count <= i,
            counted(bytes, before + loaded_bytes(all.take(i as int))),
            loaded_bytes(all.take(i as int)) >= 0,
        decreases bodies.len() - i,
    {
        assert(all[i as int] == bodies[i as int].deep_view());
        assert(all.take(i + 1).drop_last() =~= all.take(i as int));
        match &bodies[i].1 {
            ThreadBodyState::Loaded { message } => {
                count = count + 1;
                bytes = add_message(bytes, message, Ghost(before + loaded_bytes(all.take(i as int))));
            },
            _ => {},
        }
        i += 1;
    }
    assert(all.take(all.len() as int) =~= all);
    (count, bytes)
}

fn count_snapshots(sent: &Vec<(String, Vec<SentMessage>)>) -> (count: u128)
    ensures
        count == snapshots(sent@),
{
    let ghost all = sent@;
    let mut count: u128 = 0;
    let mut i: usize = 0;
    assert(all.take(0) =~= Seq::<(String, Vec<SentMessage>)>::empty());
    while i < sent.len()
        invariant
            i <= sent.len(),
            all == sent@,
            count == snapshots(all.take(i as int)),
            count <= i * 0xffff_ffff_ffff_ffff,
        decreases sent.len() - i,
    {
        assert(all.take(i + 1).drop_last() =~= all.take(i as int));
        count = count + sent[i].1.len() as u128;
        i += 1;
    }
    assert(all.take(all.len() as int) =~= all);
    count
}

impl AviaryApp {
    /// What the application holds.
    pub fn holdings(&self) -> (holdings: Holdings)
        ensures
            holdings.headers == self.mailbox.messages.len(),
            holdings.search_results == (match self.mailbox.search.results {
                Some(results) => results.len(),
                None => 0,
            }),
            holdings.bodies == (if self.mailbox.viewer.selected is Some {
                1int
            } else {
                0int
            }) + message_tabs(self.mailbox.viewer.open_tabs.deep_view()) + loaded_bodies(
                self.mailbox.viewer.thread_bodies.deep_view(),
            ),
            counted(
                holdings.body_bytes,
                (match self.mailbox.viewer.selected {
                    Some(message) => weight(message.deep_view()),
                    None => 0,
                }) + tab_bytes(self.mailbox.viewer.open_tabs.deep_view()) + loaded_bytes(
                    self.mailbox.viewer.thread_bodies.deep_view(),
                ),
            ),
            holdings.sent_snapshots == snapshots(self.mailbox.sent.messages@),
    {
        let search_results: usize = match &self.mailbox.search.results {
            Some(results) => results.len(),
            None => 0,
        };
        let ghost mut total: int = 0;
        let (selected, selected_bytes): (u128, Option<u128>) = match &self.mailbox.viewer.selected {
            Some(message) => {
                let bytes = add_message(Some(0), message, Ghost(0));
                proof {
                    total = weight(message.deep_view());
                }
                (1, bytes)
            },
            None => (0, Some(0)),
        };
        let (tabs, tab_total) = count_tabs(&self.mailbox.viewer.open_tabs, selected_bytes, Ghost(total));
        let (bodies, body_bytes) = count_bodies(
            &self.mailbox.viewer.thread_bodies,
            tab_total,
            Ghost(total + tab_bytes(self.mailbox.viewer.open_tabs.deep_view())),
        );
        Holdings {
            headers: self.mailbox.messages.len(),
            search_results,
            bodies: selected + tabs + bodies,
            body_bytes,
            sent_snapshots: count_snapshots(&self.mailbox.sent.messages),
        }
    }
}

/// The two halves of the memory of a process make up the whole, where the report is sound.
pub proof fn law_halves_make_the_whole(rollup: Seq<char>)
    requires
        rollup_field(rollup, "Rss:"@) is Some,
        rollup_field(rollup, "Anonymous:"@) is Some,
        rollup_field(rollup, "Anonymous:"@)->0 <= rollup_field(rollup, "Rss:"@)->0,
    ensures
        match split_of(rollup) {
            Some((anonymous, mapped)) => anonymous + mapped == rollup_field(rollup, "Rss:"@)->0,
            None => false,
        },
{
}

} // verus!
