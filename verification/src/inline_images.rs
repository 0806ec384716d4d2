//! Images of the editor that are kept in memory, under paths of their own.
use crate::text::{has_prefix, starts_with};
use std::collections::hash_map::DefaultHasher;
use std::hash::{Hash, Hasher};
use vstd::prelude::*;
use vstd::std_specs::hash::DefaultHasherAdditionalSpecFns;
use vstd::string::*;

verus! {

/// Most images that are kept.
pub const CAP: usize = 256;

/// Most bytes that are kept: images can be large, so their number alone bounds nothing.
pub const CAP_BYTES: usize = 67_108_864;

/// Images that are kept, the oldest first, and the bytes of them all.
#[derive(Debug)]
pub struct Registry {
    pub entries: Vec<(String, Vec<u8>)>,
    pub total_bytes: usize,
}

/// An image that is kept: its path and its bytes.
pub type Kept = (Seq<char>, Seq<u8>);

/// The bytes of all images.
pub open spec fn bytes_of(entries: Seq<Kept>) -> int
    decreases entries.len(),
{
    if entries.len() == 0 {
        0
    } else {
        bytes_of(entries.drop_first()) + entries.first().1.len()
    }
}

/// Whether an image has the given path.
pub open spec fn kept_at(path: Seq<char>) -> spec_fn(Kept) -> bool {
    |entry: Kept| entry.0 == path
}

/// Images after the oldest went, while there are too many of them.
pub open spec fn within_count(entries: Seq<Kept>) -> Seq<Kept>
    decreases entries.len(),
{
    if entries.len() >= CAP {
        within_count(entries.drop_first())
    } else {
        entries
    }
}

/// Images after the oldest went, while `more` bytes do not fit beside them.
pub open spec fn within_bytes(entries: Seq<Kept>, more: int) -> Seq<Kept>
    decreases entries.len(),
{
    if entries.len() > 0 && bytes_of(entries) + more > CAP_BYTES {
        within_bytes(entries.drop_first(), more)
    } else {
        entries
    }
}

/// Images with one more. One that is kept already stays as it is; otherwise the oldest go
/// until there is room, and the new one is kept however large it is.
pub open spec fn registered(entries: Seq<Kept>, path: Seq<char>, bytes: Seq<u8>) -> Seq<Kept> {
    if entries.any(kept_at(path)) {
        entries
    } else {
        within_bytes(within_count(entries), bytes.len() as int).push((path, bytes))
    }
}

impl View for Registry {
    type V = Seq<Kept>;

    open spec fn view(&self) -> Seq<Kept> {
        self.entries.deep_view()
    }
}

impl Registry {
    /// No path is kept twice, and the total is what is kept. There are no more images than
    /// allowed, and no more bytes, but for one image that is too large alone.
    pub open spec fn valid(&self) -> bool {
        &&& self.total_bytes == bytes_of(self@)
        &&& forall|i: int, j: int|
            0 <= i < j < self@.len() ==> (#[trigger] self@[i]).0 != (#[trigger] self@[j]).0
        &&& self@.len() <= CAP
        &&& self.total_bytes <= CAP_BYTES || self@.len() == 1
    }

    /// A registry without images.
    pub fn new() -> (registry: Registry)
        ensures
            registry@ == Seq::<Kept>::empty(),
            registry.valid(),
    {
        let registry = Registry { entries: Vec::new(), total_bytes: 0 };
        assert(registry@ =~= Seq::<Kept>::empty());
        registry
    }

    /// Lets the oldest image go; reports whether there was one.
    pub fn evict_oldest(&mut self) -> (gone: bool)
        requires
            old(self).total_bytes == bytes_of(old(self)@),
        ensures
            gone == (old(self)@.len() > 0),
            final(self)@ == (if gone {
                old(self)@.drop_first()
            } else {
                old(self)@
            }),
            final(self).total_bytes == bytes_of(final(self)@),
    {
        let ghost before = self@;
        assert(before.len() == self.entries.len());
        if self.entries.len() == 0 {
            return false;
        }
        proof {
            assert(before.first() == self.entries[0].deep_view());
            assert(before.first().1.len() == self.entries[0].1.len());
            lemma_bytes(before.drop_first());
        }
        let size: usize = self.entries[0].1.len();
        self.entries.remove(0);
        self.total_bytes = self.total_bytes - size;
        assert(self@ =~= before.drop_first());
        true
    }

    /// Whether an image is kept under a path.
    pub fn contains(&self, path: &String) -> (yes: bool)
        ensures
            yes == self@.any(kept_at(path@)),
    {
        self.position(path).is_some()
    }

    fn position(&self, path: &String) -> (place: Option<usize>)
        ensures
            match place {
                Some(i) => crate::lists::first_index(self@, kept_at(path@)) == Some(i as int) && i < self.entries.len(),
                None => crate::lists::first_index(self@, kept_at(path@)) is None,
            },
            place is Some == self@.any(kept_at(path@)),
    {
        proof {
            crate::lists::lemma_first_index(self@, kept_at(path@));
        }
        let found = crate::lists::position_where(
            &self.entries,
            |entry: &(String, Vec<u8>)| -> (same: bool)
                ensures
                    same == (entry.deep_view().0 == path@)
                { entry.0 == *path },
            Ghost(kept_at(path@)),
        );
        assert(found is Some ==> self@.any(kept_at(path@)));
        found
    }

    /// Keeps an image under a path.
    pub fn register(&mut self, path: &String, bytes: &Vec<u8>)
        requires
            old(self).valid(),
        ensures
            final(self)@ == registered(old(self)@, path@, bytes@),
            final(self).valid(),
    {
        if self.contains(path) {
            return;
        }
        let ghost start = self@;
        let size: usize = bytes.len();
        assert(start.skip(0) =~= start);
        while self.entries.len() >= CAP
            invariant
                self.total_bytes == bytes_of(self@),
                within_count(self@) == within_count(start),
                suffix(self@, start),
            decreases self.entries.len(),
        {
            let ghost before = self@;
            assert(before.len() == self.entries.len());
            self.evict_oldest();
            assert(self@.len() == self.entries.len());
            proof {
                lemma_suffix(before, start);
            }
        }
        let ghost fewer = self@;
        assert(fewer.len() == self.entries.len());
        while self.entries.len() > 0 && (size > CAP_BYTES || self.total_bytes > CAP_BYTES - size)
            invariant
                size == bytes.len(),
                self.total_bytes == bytes_of(self@),
                within_bytes(self@, size as int) == within_bytes(fewer, size as int),
                suffix(self@, start),
                self@.len() < CAP,
            decreases self.entries.len(),
        {
            let ghost before = self@;
            assert(before.len() == self.entries.len());
            self.evict_oldest();
            assert(self@.len() == self.entries.len());
            proof {
                lemma_suffix(before, start);
            }
        }
        let ghost room = self@;
        assert(room.len() == self.entries.len());
        proof {
            if room.len() == 0 {
                assert(bytes_of(room) == 0);
            }
        }
        let copy = bytes.clone();
        assert(copy.deep_view() =~= bytes@);
        self.entries.push((path.clone(), copy));
        self.total_bytes = self.total_bytes + size;
        proof {
            assert(self@ =~= room.push((path@, bytes@)));
            lemma_bytes_push(room, (path@, bytes@));
            assert forall|i: int, j: int| 0 <= i < j < self@.len() implies (#[trigger] self@[i]).0 != (
            #[trigger] self@[j]).0 by {
                let shift = start.len() - room.len();
                assert(self@[i] == start[i + shift]);
                if j < room.len() {
                    assert(self@[j] == start[j + shift]);
                    assert(old(self)@[i + shift].0 != old(self)@[j + shift].0);
                } else {
                    assert(!kept_at(path@)(start[i + shift]));
                }
            }
        }
    }

    /// The bytes of an image, if `path` is one of the paths of this registry and the image
    /// is kept.
    pub fn load(&self, path: &str) -> (bytes: Option<Vec<u8>>)
        ensures
            match bytes {
                Some(bytes) => has_prefix(path@, "aviary-cid/"@) && crate::lists::first_where(
                    self@,
                    kept_at(path@),
                ) == Some((path@, bytes@)),
                None => !has_prefix(path@, "aviary-cid/"@) || !self@.any(kept_at(path@)),
            },
    {
        if !starts_with(path, "aviary-cid/") {
            return None;
        }
        let wanted = path.to_owned();
        match self.position(&wanted) {
            Some(i) => {
                proof {
                    crate::lists::lemma_first_index(self@, kept_at(path@));
                    assert(self@[i as int] == self.entries[i as int].deep_view());
                    assert(self.entries[i as int].1.deep_view() =~= self.entries[i as int].1@);
                }
                Some(self.entries[i].1.clone())
            },
            None => None,
        }
    }

    /// How many images are kept, and how many bytes.
    pub fn stats(&self) -> (stats: (usize, usize))
        ensures
            stats.0 == self@.len(),
            stats.1 == self.total_bytes,
            self.valid() ==> stats.1 == bytes_of(self@),
    {
        assert(self@.len() == self.entries.len());
        (self.entries.len(), self.total_bytes)
    }

    /// Keeps an image of a message or an editor, and gives the path to show it by.
    pub fn register_bytes(&mut self, scope: &str, cid: &str, bytes: &Vec<u8>) -> (path: String)
        requires
            old(self).valid(),
        ensures
            path@ == path_of(scope@, cid@),
            final(self)@ == registered(old(self)@, path@, bytes@),
            final(self).valid(),
    {
        let path = asset_path(scope, cid);
        self.register(&path, bytes);
        path
    }
}

/// What the hash of a pair of texts writes to its hasher, write by write.
pub uninterp spec fn pair_writes(first: Seq<char>, second: Seq<char>) -> Seq<Seq<u8>>;

/// Calls `Hash::hash` of a pair of texts. It writes to the hasher, behind what was written
/// before, and what it writes is a function of the texts alone; the bytes are not stated and
/// may differ between releases of the standard library.
#[verifier::external_body]
fn feed_pair(hasher: &mut DefaultHasher, first: &str, second: &str)
    ensures
        final(hasher)@ == old(hasher)@ + pair_writes(first@, second@),
{
    (first, second).hash(hasher);
}

/// What a fresh `DefaultHasher` makes of a pair of texts.
pub open spec fn pair_hash(first: Seq<char>, second: Seq<char>) -> u64 {
    DefaultHasher::spec_finish(pair_writes(first, second))
}

/// What a fresh `DefaultHasher` makes of a pair of texts.
fn hash_pair(first: &str, second: &str) -> (hash: u64)
    ensures
        hash == pair_hash(first@, second@),
{
    let mut hasher = DefaultHasher::new();
    let ghost start = hasher@;
    feed_pair(&mut hasher, first, second);
    assert(start + pair_writes(first@, second@) =~= pair_writes(first@, second@));
    hasher.finish()
}

/// A digit of base sixteen.
pub open spec fn hex_digit(value: u64) -> char {
    if value < 10 {
        (48 + value) as char
    } else {
        (87 + value) as char
    }
}

/// The sixteen digits of a number in base sixteen.
pub open spec fn hex_text(value: u64) -> Seq<char> {
    Seq::new(16, |i: int| hex_digit((value >> ((60 - 4 * i) as u64)) & 15))
}

/// The path of an image of a message or an editor.
pub open spec fn path_of(scope: Seq<char>, cid: Seq<char>) -> Seq<char> {
    "aviary-cid/"@ + hex_text(pair_hash(scope, cid))
}

fn hex_char(value: u64) -> (digit: char)
    requires
        value < 16,
    ensures
        digit == hex_digit(value),
{
    if value < 10 {
        (48 + value as u8) as char
    } else {
        (87 + value as u8) as char
    }
}

/// The path of an image of a message or an editor.
pub fn asset_path(scope: &str, cid: &str) -> (path: String)
    ensures
        path@ == path_of(scope@, cid@),
{
    let hash: u64 = hash_pair(scope, cid);
    let mut digits: String = String::new();
    let mut i: u64 = 0;
    while i < 16
        invariant
            i <= 16,
            digits@ == hex_text(hash).take(i as int),
        decreases 16 - i,
    {
        let shift: u64 = 60 - 4 * i;
        let value: u64 = (hash >> shift) & 15;
        assert((hash >> shift) & 15 < 16) by (bit_vector);
        digits.push(hex_char(value));
        assert(digits@ =~= hex_text(hash).take(i + 1));
        i += 1;
    }
    assert(hex_text(hash).take(16) =~= hex_text(hash));
    "aviary-cid/".to_owned().concat(digits.as_str())
}

/// Whether `rest` is what is left of `all` after some of its first items.
pub open spec fn suffix(rest: Seq<Kept>, all: Seq<Kept>) -> bool {
    rest.len() <= all.len() && rest == all.skip(all.len() - rest.len())
}

proof fn lemma_suffix(rest: Seq<Kept>, all: Seq<Kept>)
    requires
        suffix(rest, all),
        rest.len() > 0,
    ensures
        suffix(rest.drop_first(), all),
{
    assert(rest.drop_first() =~= all.skip(all.len() - rest.len() + 1));
}

proof fn lemma_bytes(entries: Seq<Kept>)
    ensures
        bytes_of(entries) >= 0,
    decreases entries.len(),
{
    if entries.len() > 0 {
        lemma_bytes(entries.drop_first());
    }
}

proof fn lemma_bytes_push(entries: Seq<Kept>, entry: Kept)
    ensures
        bytes_of(entries.push(entry)) == bytes_of(entries) + entry.1.len(),
    decreases entries.len(),
{
    let more = entries.push(entry);
    if entries.len() == 0 {
        assert(more.drop_first() =~= Seq::<Kept>::empty());
        assert(more.first() == entry);
        assert(bytes_of(more.drop_first()) == 0);
    } else {
        assert(more.drop_first() =~= entries.drop_first().push(entry));
        assert(more.first() == entries.first());
        lemma_bytes_push(entries.drop_first(), entry);
    }
}

proof fn lemma_within_count(entries: Seq<Kept>)
    ensures
        suffix(within_count(entries), entries),
    decreases entries.len(),
{
    assert(entries.skip(0) =~= entries);
    if entries.len() >= CAP {
        let rest = entries.drop_first();
        lemma_within_count(rest);
        let kept = within_count(rest);
        assert(rest.skip(rest.len() - kept.len()) =~= entries.skip(entries.len() - kept.len()));
    }
}

proof fn lemma_within_bytes(entries: Seq<Kept>, more: int)
    ensures
        suffix(within_bytes(entries, more), entries),
    decreases entries.len(),
{
    assert(entries.skip(0) =~= entries);
    if entries.len() > 0 && bytes_of(entries) + more > CAP_BYTES {
        let rest = entries.drop_first();
        lemma_within_bytes(rest, more);
        let kept = within_bytes(rest, more);
        assert(rest.skip(rest.len() - kept.len()) =~= entries.skip(entries.len() - kept.len()));
    }
}

/// An image that is registered is kept, whatever its size; what is kept beside it was kept
/// before, the newest of it.
pub proof fn law_new_images_are_kept(entries: Seq<Kept>, path: Seq<char>, bytes: Seq<u8>)
    ensures
        registered(entries, path, bytes).any(kept_at(path)),
        !entries.any(kept_at(path)) ==> registered(entries, path, bytes).last() == (path, bytes),
        !entries.any(kept_at(path)) ==> suffix(registered(entries, path, bytes).drop_last(), entries),
{
    if !entries.any(kept_at(path)) {
        let some = within_count(entries);
        let room = within_bytes(some, bytes.len() as int);
        lemma_within_count(entries);
        lemma_within_bytes(some, bytes.len() as int);
        let all = room.push((path, bytes));
        assert(kept_at(path)(all[room.len() as int]));
        assert(all.drop_last() =~= room);
        assert(some.skip(some.len() - room.len()) =~= entries.skip(entries.len() - room.len()));
    }
}

/// Registering an image again changes nothing.
pub proof fn law_registering_settles(entries: Seq<Kept>, path: Seq<char>, bytes: Seq<u8>, other: Seq<u8>)
    ensures
        registered(registered(entries, path, bytes), path, other) == registered(entries, path, bytes),
{
    law_new_images_are_kept(entries, path, bytes);
}

} // verus!
