//! What is remembered of a list that was laid out: its entries, and the height of each kind
//! of entry.
use crate::folder_pane::FolderEntryVariant;
use crate::lists::{first_index, lemma_first_index, lemma_first_index_is};
use crate::message_list::{MsgEntry, MsgEntryVariant};
use crate::model::clone_list;
use crate::settings::LanguageChoice;
use crate::state::AviaryApp;
use vstd::prelude::*;

verus! {

/// What the entries of the message list were made for. The scale of the interface is held
/// by its bits.
#[derive(Debug, Clone, Copy, PartialEq, Eq, Structural)]
pub struct MessageListCacheKey {
    pub revision: u64,
    pub ui_scale: u32,
    pub language: LanguageChoice,
}

/// The entries of the message list, and what they were made for.
#[derive(Debug)]
pub struct MessageListCache {
    pub key: MessageListCacheKey,
    pub entries: Vec<MsgEntry>,
}

impl MsgEntryVariant {
    /// A number for the kind of entry.
    pub open spec fn code(self) -> u32 {
        match self {
            MsgEntryVariant::Header { pinned, collapsed } => bits(pinned, collapsed, false),
            MsgEntryVariant::Row { pinned, section_end, in_group } => (8 + bits(pinned, section_end, in_group)) as u32,
            MsgEntryVariant::Group { pinned, section_end } => (16 + bits(pinned, section_end, false)) as u32,
        }
    }

    /// A number for the kind of entry.
    pub fn number(&self) -> (number: u32)
        ensures
            number == self.code(),
    {
        match self {
            MsgEntryVariant::Header { pinned, collapsed } => pack(*pinned, *collapsed, false),
            MsgEntryVariant::Row { pinned, section_end, in_group } => 8 + pack(*pinned, *section_end, *in_group),
            MsgEntryVariant::Group { pinned, section_end } => 16 + pack(*pinned, *section_end, false),
        }
    }
}

impl FolderEntryVariant {
    /// A number for the kind of entry.
    pub open spec fn code(self) -> u32 {
        match self {
            FolderEntryVariant::FavoritesHeader => 0,
            FolderEntryVariant::Row { has_children } => (8 + bits(has_children, false, false)) as u32,
            FolderEntryVariant::Account { separated } => (16 + bits(separated, false, false)) as u32,
        }
    }

    /// A number for the kind of entry.
    pub fn number(&self) -> (number: u32)
        ensures
            number == self.code(),
    {
        match self {
            FolderEntryVariant::FavoritesHeader => 0,
            FolderEntryVariant::Row { has_children } => 8 + pack(*has_children, false, false),
            FolderEntryVariant::Account { separated } => 16 + pack(*separated, false, false),
        }
    }
}

/// Three answers as a number below eight.
pub open spec fn bits(first: bool, second: bool, third: bool) -> u32 {
    ((if first {
        1int
    } else {
        0
    }) + (if second {
        2int
    } else {
        0
    }) + (if third {
        4int
    } else {
        0
    })) as u32
}

fn pack(first: bool, second: bool, third: bool) -> (number: u32)
    ensures
        number == bits(first, second, third),
        number < 8,
{
    let a: u32 = if first {
        1
    } else {
        0
    };
    let b: u32 = if second {
        2
    } else {
        0
    };
    let c: u32 = if third {
        4
    } else {
        0
    };
    a + b + c
}

/// Kinds of entries have different numbers, so that none borrows the height of another.
pub proof fn law_kinds_are_told_apart(a: MsgEntryVariant, b: MsgEntryVariant, c: FolderEntryVariant, d: FolderEntryVariant)
    ensures
        a.code() == b.code() <==> a == b,
        c.code() == d.code() <==> c == d,
{
}

/// Heights that were measured at one scale, by the number of the kind of entry.
#[derive(Debug)]
pub struct ListMetrics {
    pub ui_scale: u32,
    pub heights: Vec<(u32, u32)>,
}

/// Whether a measurement is that of a kind.
pub open spec fn measures(code: u32) -> spec_fn((u32, u32)) -> bool {
    |height: (u32, u32)| height.0 == code
}

/// The height of a kind: nothing, where it was not measured.
pub open spec fn height_of(heights: Seq<(u32, u32)>, code: u32) -> u32 {
    match first_index(heights, measures(code)) {
        Some(i) => heights[i].1,
        None => 0,
    }
}

/// Which of the first `count` entries are to be measured: the first of each kind of which no
/// height is known.
pub open spec fn to_measure(heights: Seq<(u32, u32)>, codes: Seq<u32>, count: int) -> Seq<int>
    decreases count,
{
    if count <= 0 {
        Seq::empty()
    } else {
        let front = to_measure(heights, codes, count - 1);
        let code = codes[count - 1];
        if first_index(heights, measures(code)) is Some || codes.take(count - 1).contains(code) {
            front
        } else {
            front.push(count - 1)
        }
    }
}

fn code_among(codes: &Vec<u32>, count: usize, code: u32) -> (found: bool)
    requires
        count <= codes.len(),
    ensures
        found == codes@.take(count as int).contains(code),
{
    let mut i: usize = 0;
    while i < count
        invariant
            i <= count <= codes.len(),
            forall|j: int| 0 <= j < i ==> codes@[j] != code,
        decreases count - i,
    {
        if codes[i] == code {
            assert(codes@.take(count as int)[i as int] == code);
            return true;
        }
        i += 1;
    }
    false
}

impl ListMetrics {
    fn position(&self, code: u32) -> (found: Option<usize>)
        ensures
            match found {
                Some(i) => i < self.heights.len() && first_index(self.heights@, measures(code)) == Some(i as int),
                None => first_index(self.heights@, measures(code)) is None,
            },
    {
        let mut i: usize = 0;
        while i < self.heights.len()
            invariant
                i <= self.heights.len(),
                forall|j: int| 0 <= j < i ==> !measures(code)(#[trigger] self.heights@[j]),
            decreases self.heights.len() - i,
        {
            if self.heights[i].0 == code {
                proof {
                    lemma_first_index_is(self.heights@, measures(code), i as int);
                }
                return Some(i);
            }
            i += 1;
        }
        proof {
            lemma_first_index(self.heights@, measures(code));
        }
        None
    }

    /// Takes notice of the scale: heights that were measured at another are forgotten.
    pub fn rescale(&mut self, ui_scale: u32)
        ensures
            final(self).ui_scale == ui_scale,
            final(self).heights@ == (if old(self).ui_scale == ui_scale {
                old(self).heights@
            } else {
                Seq::empty()
            }),
    {
        if self.ui_scale != ui_scale {
            self.ui_scale = ui_scale;
            self.heights = Vec::new();
        }
    }

    /// The entries that are to be measured, by their places.
    pub fn unmeasured(&self, codes: &Vec<u32>) -> (places: Vec<usize>)
        ensures
            places.len() == to_measure(self.heights@, codes@, codes@.len() as int).len(),
            forall|k: int|
                0 <= k < places.len() ==> (#[trigger] places[k]) as int == to_measure(
                    self.heights@,
                    codes@,
                    codes@.len() as int,
                )[k],
    {
        let mut places: Vec<usize> = Vec::new();
        let mut i: usize = 0;
        while i < codes.len()
            invariant
                i <= codes.len(),
                places.len() == to_measure(self.heights@, codes@, i as int).len(),
                forall|k: int|
                    0 <= k < places.len() ==> (#[trigger] places[k]) as int == to_measure(
                        self.heights@,
                        codes@,
                        i as int,
                    )[k],
            decreases codes.len() - i,
        {
            let known = self.position(codes[i]).is_some();
            let earlier = code_among(codes, i, codes[i]);
            if !known && !earlier {
                places.push(i);
            }
            i += 1;
        }
        places
    }

    /// Notes the height of a kind.
    pub fn record(&mut self, code: u32, height: u32)
        ensures
            *final(self) == (ListMetrics { heights: final(self).heights, ..*old(self) }),
            final(self).heights@ == old(self).heights@.push((code, height)),
    {
        self.heights.push((code, height));
    }

    /// The heights of entries.
    pub fn sizes(&self, codes: &Vec<u32>) -> (sizes: Vec<u32>)
        ensures
            sizes@ == Seq::new(codes@.len(), |i: int| height_of(self.heights@, codes@[i])),
    {
        let mut sizes: Vec<u32> = Vec::new();
        let mut i: usize = 0;
        while i < codes.len()
            invariant
                i <= codes.len(),
                sizes.len() == i,
                forall|k: int| 0 <= k < i ==> (#[trigger] sizes@[k]) == height_of(self.heights@, codes@[k]),
            decreases codes.len() - i,
        {
            let height: u32 = match self.position(codes[i]) {
                Some(at) => self.heights[at].1,
                None => 0,
            };
            sizes.push(height);
            i += 1;
        }
        assert(sizes@ =~= Seq::new(codes@.len(), |i: int| height_of(self.heights@, codes@[i])));
        sizes
    }
}

impl AviaryApp {
    /// What the entries of the message list are made for now.
    pub fn message_list_cache_key(&self, ui_scale: u32) -> (key: MessageListCacheKey)
        ensures
            key == (MessageListCacheKey {
                revision: self.message_list_revision,
                ui_scale,
                language: self.settings.global.language,
            }),
    {
        MessageListCacheKey { revision: self.message_list_revision, ui_scale, language: self.settings.global.language }
    }

    /// The entries of the message list: those that are remembered, where they were made for
    /// what there is now.
    pub fn current_message_list_entries(&self, cache: Option<&MessageListCache>, ui_scale: u32) -> (entries: Vec<MsgEntry>)
        requires
            self.dated(),
        ensures
            match cache {
                Some(cache) if cache.key == (MessageListCacheKey {
                    revision: self.message_list_revision,
                    ui_scale,
                    language: self.settings.global.language,
                }) => entries.deep_view() == cache.entries.deep_view(),
                _ => exists|days: Seq<i32>| #[trigger] self.listed_as(entries.deep_view(), days),
            },
    {
        let key = self.message_list_cache_key(ui_scale);
        if let Some(cache) = cache {
            if cache.key == key {
                return clone_list(&cache.entries);
            }
        }
        self.build_message_list_entries()
    }
}

/// Once the entries that were to be measured are measured, each entry has a height, and
/// entries of one kind have the same.
pub proof fn law_one_measurement_per_kind(heights: Seq<(u32, u32)>, codes: Seq<u32>, count: int, i: int)
    requires
        0 <= i < count <= codes.len(),
    ensures
        first_index(heights, measures(codes[i])) is Some || exists|k: int|
            #![trigger to_measure(heights, codes, count)[k]]
            0 <= k < to_measure(heights, codes, count).len() && codes[to_measure(heights, codes, count)[k]]
                == codes[i],
        forall|k: int, n: int|
            #![trigger to_measure(heights, codes, count)[k], to_measure(heights, codes, count)[n]]
            0 <= k < n < to_measure(heights, codes, count).len() ==> codes[to_measure(heights, codes, count)[k]]
                != codes[to_measure(heights, codes, count)[n]],
{
    lemma_to_measure(heights, codes, count);
    let places = to_measure(heights, codes, count);
    if first_index(heights, measures(codes[i])) is None {
        assert(codes.take(count)[i] == codes[i]);
        assert(codes.take(count).contains(codes[i]));
    }
}

proof fn lemma_to_measure(heights: Seq<(u32, u32)>, codes: Seq<u32>, count: int)
    requires
        0 <= count <= codes.len(),
    ensures
        forall|k: int|
            0 <= k < to_measure(heights, codes, count).len() ==> 0 <= #[trigger] to_measure(heights, codes, count)[k]
                < count,
        forall|code: u32|
            #[trigger] codes.take(count).contains(code) && first_index(heights, measures(code)) is None
                ==> exists|k: int|
                #![trigger to_measure(heights, codes, count)[k]]
                0 <= k < to_measure(heights, codes, count).len() && codes[to_measure(heights, codes, count)[k]] == code,
        forall|k: int, n: int|
            #![trigger to_measure(heights, codes, count)[k], to_measure(heights, codes, count)[n]]
            0 <= k < n < to_measure(heights, codes, count).len() ==> codes[to_measure(heights, codes, count)[k]]
                != codes[to_measure(heights, codes, count)[n]],
    decreases count,
{
    if count > 0 {
        lemma_to_measure(heights, codes, count - 1);
        let front = to_measure(heights, codes, count - 1);
        let all = to_measure(heights, codes, count);
        let last = codes[count - 1];
        assert forall|code: u32|
            #[trigger] codes.take(count).contains(code) && first_index(heights, measures(code)) is None implies exists|
            k: int,
        |
            #![trigger all[k]]
            0 <= k < all.len() && codes[all[k]] == code by {
            let at = choose|at: int| 0 <= at < count && codes.take(count)[at] == code;
            if at < count - 1 || codes.take(count - 1).contains(code) {
                if at < count - 1 {
                    assert(codes.take(count - 1)[at] == code);
                }
                assert(codes.take(count - 1).contains(code));
                let k = choose|k: int| #![trigger front[k]] 0 <= k < front.len() && codes[front[k]] == code;
                assert(all[k] == front[k]);
            } else {
                assert(all[front.len() as int] == count - 1);
            }
        }
        assert forall|k: int, n: int| #![trigger all[k], all[n]] 0 <= k < n < all.len() implies codes[all[k]]
            != codes[all[n]] by {
            assert(all[k] == front[k]);
            if n < front.len() {
                assert(all[n] == front[n]);
            } else {
                assert(codes.take(count - 1)[front[k]] == codes[front[k]]);
            }
        }
    }
}

} // verus!
