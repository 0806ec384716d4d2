//! Which components follow the pointer: what each moves towards, and which are moving.
use crate::lists::{first_index, lemma_first_index, position_where, retain_where, take_list};
use crate::navigation::lemma_filter_accepts;
use crate::text::text_eq;
use vstd::prelude::*;

verus! {

/// Components by their keys: whether each moves towards its hovered look, or back from it,
/// and those that are moving. A component that is not listed rests in its plain look.
#[derive(Debug)]
pub struct HoverMotionMap {
    pub targets: Vec<(String, bool)>,
    pub active: Vec<String>,
}

/// Mathematical form of [`HoverMotionMap`].
#[verifier::ext_equal]
pub struct HoverMotionMapView {
    pub targets: Seq<(Seq<char>, bool)>,
    pub active: Seq<Seq<char>>,
}

impl DeepView for HoverMotionMap {
    type V = HoverMotionMapView;

    open spec fn deep_view(&self) -> HoverMotionMapView {
        HoverMotionMapView { targets: self.targets.deep_view(), active: self.active.deep_view() }
    }
}

/// Whether an entry is that of a component.
pub open spec fn is_of(key: Seq<char>) -> spec_fn((Seq<char>, bool)) -> bool {
    |entry: (Seq<char>, bool)| entry.0 == key
}

impl HoverMotionMapView {
    /// Where a component is listed.
    pub open spec fn place(self, key: Seq<char>) -> Option<int> {
        first_index(self.targets, is_of(key))
    }

    /// Whether a component moves towards its hovered look, or is there.
    pub open spec fn hovered(self, key: Seq<char>) -> bool {
        match self.place(key) {
            Some(i) => self.targets[i].1,
            None => false,
        }
    }

    /// After a component was given a look. Nothing changes where it had that look before;
    /// otherwise it is moving from now on.
    pub open spec fn turned(self, key: Seq<char>, hovered: bool) -> HoverMotionMapView {
        if self.hovered(key) == hovered {
            self
        } else {
            HoverMotionMapView {
                targets: match self.place(key) {
                    Some(i) => self.targets.update(i, (self.targets[i].0, hovered)),
                    None => self.targets.push((key, hovered)),
                },
                active: if self.active.contains(key) {
                    self.active
                } else {
                    self.active.push(key)
                },
            }
        }
    }

    /// After a frame in which only the given components still move: the others stop, and
    /// those that stopped in their plain look are no longer listed.
    pub open spec fn framed(self, moving: Seq<Seq<char>>) -> HoverMotionMapView {
        HoverMotionMapView {
            targets: self.targets.filter(
                |entry: (Seq<char>, bool)| entry.1 || moving.contains(entry.0) || !self.active.contains(entry.0),
            ),
            active: self.active.filter(|key: Seq<char>| moving.contains(key) && self.place(key) is Some),
        }
    }

    /// With the given components alone.
    pub open spec fn limited(self, kept: Seq<Seq<char>>) -> HoverMotionMapView {
        HoverMotionMapView {
            targets: self.targets.filter(|entry: (Seq<char>, bool)| kept.contains(entry.0)),
            active: self.active.filter(|key: Seq<char>| kept.contains(key) && self.place(key) is Some),
        }
    }

    /// No component is listed twice, and every one that moves is listed.
    pub open spec fn valid(self) -> bool {
        &&& forall|i: int, j: int|
            0 <= i < j < self.targets.len() ==> (#[trigger] self.targets[i]).0 != (#[trigger] self.targets[j]).0
        &&& forall|i: int| 0 <= i < self.active.len() ==> self.place(#[trigger] self.active[i]) is Some
    }
}

fn holds(list: &Vec<String>, key: &String) -> (found: bool)
    ensures
        found == list.deep_view().contains(key@),
{
    let found = position_where(
        list,
        |other: &String| -> (same: bool)
            ensures
                same == (other@ == key@)
            { text_eq(other.as_str(), key.as_str()) },
        Ghost(|other: Seq<char>| other == key@),
    );
    proof {
        lemma_first_index(list.deep_view(), |other: Seq<char>| other == key@);
    }
    found.is_some()
}

impl HoverMotionMap {
    /// No component is hovered.
    pub fn new() -> (map: Self)
        ensures
            map.deep_view().targets.len() == 0,
            map.deep_view().active.len() == 0,
            map.deep_view().valid(),
    {
        HoverMotionMap { targets: Vec::new(), active: Vec::new() }
    }

    fn position(&self, key: &String) -> (place: Option<usize>)
        ensures
            match place {
                Some(i) => i < self.targets.len() && self.deep_view().place(key@) == Some(i as int),
                None => self.deep_view().place(key@) is None,
            },
    {
        position_where(
            &self.targets,
            |entry: &(String, bool)| -> (same: bool)
                ensures
                    same == (entry.deep_view().0 == key@)
                { text_eq(entry.0.as_str(), key.as_str()) },
            Ghost(is_of(key@)),
        )
    }

    /// Gives a component a look; reports whether that changes anything.
    pub fn set_hovered(&mut self, key: String, hovered: bool) -> (changed: bool)
        ensures
            changed == (old(self).deep_view().hovered(key@) != hovered),
            final(self).deep_view() == old(self).deep_view().turned(key@, hovered),
    {
        let ghost before = self.deep_view();
        let place = self.position(&key);
        let now: bool = match place {
            Some(i) => {
                assert(before.targets[i as int] == self.targets[i as int].deep_view());
                self.targets[i].1
            },
            None => false,
        };
        if now == hovered {
            return false;
        }
        match place {
            Some(i) => {
                let name = self.targets[i].0.clone();
                self.targets.set(i, (name, hovered));
                assert(self.targets.deep_view() =~= before.targets.update(i as int, (before.targets[i as int].0, hovered)));
            },
            None => {
                self.targets.push((key.clone(), hovered));
                assert(self.targets.deep_view() =~= before.targets.push((key@, hovered)));
            },
        }
        if !holds(&self.active, &key) {
            self.active.push(key);
            assert(self.active.deep_view() =~= before.active.push(key@));
        }
        true
    }

    /// Takes notice of which components still move; reports whether another frame is
    /// wanted.
    pub fn request_frame(&mut self, moving: &Vec<String>) -> (wanted: bool)
        ensures
            final(self).deep_view() == old(self).deep_view().framed(moving.deep_view()),
            wanted == (final(self).deep_view().active.len() > 0),
    {
        let ghost before = self.deep_view();
        let running = self.still_active(moving);
        let targets = take_list(&mut self.targets);
        let ghost still = moving.deep_view();
        let active = &self.active;
        let kept = retain_where(
            targets,
            |entry: &(String, bool)| -> (b: bool)
                ensures
                    b == (entry.deep_view().1 || still.contains(entry.deep_view().0) || !before.active.contains(
                        entry.deep_view().0,
                    ))
                { entry.1 || holds(moving, &entry.0) || !holds(active, &entry.0) },
            Ghost(|entry: (Seq<char>, bool)| entry.1 || still.contains(entry.0) || !before.active.contains(entry.0)),
        );
        self.targets = kept;
        self.active = running;
        assert(self.active.deep_view().len() == self.active.len());
        self.active.len() > 0
    }

    fn still_active(&self, wanted: &Vec<String>) -> (kept: Vec<String>)
        ensures
            kept.deep_view() == self.deep_view().active.filter(
                |key: Seq<char>| wanted.deep_view().contains(key) && self.deep_view().place(key) is Some,
            ),
    {
        let copy = crate::model::clone_list(&self.active);
        retain_where(
            copy,
            |key: &String| -> (b: bool)
                ensures
                    b == (wanted.deep_view().contains(key@) && self.deep_view().place(key@) is Some)
                { holds(wanted, key) && self.position(key).is_some() },
            Ghost(|key: Seq<char>| wanted.deep_view().contains(key) && self.deep_view().place(key) is Some),
        )
    }

    /// Forgets components that are no longer there.
    pub fn retain(&mut self, kept: &Vec<String>)
        ensures
            final(self).deep_view() == old(self).deep_view().limited(kept.deep_view()),
    {
        let running = self.still_active(kept);
        let targets = take_list(&mut self.targets);
        self.targets = retain_where(
            targets,
            |entry: &(String, bool)| -> (b: bool)
                ensures
                    b == kept.deep_view().contains(entry.deep_view().0)
                { holds(kept, &entry.0) },
            Ghost(|entry: (Seq<char>, bool)| kept.deep_view().contains(entry.0)),
        );
        self.active = running;
    }
}

/// A component that is asked to keep the look it moves towards does not start again, and
/// one that was given a look has it. The looks of the others stay.
pub proof fn law_an_unchanged_look_does_not_restart(map: HoverMotionMapView, key: Seq<char>, hovered: bool, other: Seq<char>)
    ensures
        map.turned(key, hovered).hovered(key) == hovered,
        map.turned(key, hovered).turned(key, hovered) == map.turned(key, hovered),
        other != key ==> map.turned(key, hovered).hovered(other) == map.hovered(other),
{
    let after = map.turned(key, hovered);
    lemma_first_index(map.targets, is_of(key));
    lemma_first_index(after.targets, is_of(key));
    lemma_first_index(map.targets, is_of(other));
    lemma_first_index(after.targets, is_of(other));
    if map.hovered(key) != hovered {
        match map.place(key) {
            Some(i) => {
                crate::lists::lemma_first_index_is(after.targets, is_of(key), i);
                match map.place(other) {
                    Some(j) => if other != key {
                        crate::lists::lemma_first_index_is(after.targets, is_of(other), j);
                    },
                    None => if other != key {
                        if let Some(j) = after.place(other) {
                            assert(map.targets[j].0 == other);
                            assert(is_of(other)(map.targets[j]));
                        }
                    },
                }
            },
            None => {
                assert forall|j: int| 0 <= j < map.targets.len() implies !is_of(key)(#[trigger] after.targets[j]) by {
                    assert(after.targets[j] == map.targets[j]);
                }
                crate::lists::lemma_first_index_is(after.targets, is_of(key), map.targets.len() as int);
                match map.place(other) {
                    Some(j) => if other != key {
                        crate::lists::lemma_first_index_is(after.targets, is_of(other), j);
                    },
                    None => if other != key {
                        if let Some(j) = after.place(other) {
                            assert(is_of(other)(after.targets[j]));
                            assert(after.targets[j] == map.targets[j]);
                            assert(is_of(other)(map.targets[j]));
                        }
                    },
                }
            },
        }
    }
}

proof fn lemma_filter_apart(s: Seq<(Seq<char>, bool)>, p: spec_fn((Seq<char>, bool)) -> bool)
    requires
        forall|i: int, j: int| 0 <= i < j < s.len() ==> (#[trigger] s[i]).0 != (#[trigger] s[j]).0,
    ensures
        forall|i: int, j: int|
            0 <= i < j < s.filter(p).len() ==> (#[trigger] s.filter(p)[i]).0 != (#[trigger] s.filter(p)[j]).0,
        forall|i: int|
            0 <= i < s.filter(p).len() ==> exists|k: int| 0 <= k < s.len() && s[k] == #[trigger] s.filter(p)[i],
        forall|k: int|
            0 <= k < s.len() && p(s[k]) ==> exists|i: int|
                0 <= i < s.filter(p).len() && s.filter(p)[i] == #[trigger] s[k],
    decreases s.len(),
{
    reveal(Seq::filter);
    if s.len() > 0 {
        let front = s.drop_last();
        lemma_filter_apart(front, p);
        let kept = front.filter(p);
        let all = s.filter(p);
        assert forall|i: int| 0 <= i < all.len() implies exists|k: int|
            0 <= k < s.len() && s[k] == #[trigger] all[i] by {
            if i < kept.len() {
                assert(all[i] == kept[i]);
                let k = choose|k: int| 0 <= k < front.len() && front[k] == kept[i];
                assert(s[k] == all[i]);
            } else {
                assert(s[s.len() - 1] == all[i]);
            }
        }
        assert forall|k: int| 0 <= k < s.len() && p(s[k]) implies exists|i: int|
            0 <= i < all.len() && all[i] == #[trigger] s[k] by {
            if k < front.len() {
                assert(front[k] == s[k]);
                let i = choose|i: int| 0 <= i < kept.len() && kept[i] == front[k];
                assert(all[i] == s[k]);
            } else {
                assert(all[kept.len() as int] == s[k]);
            }
        }
        assert forall|i: int, j: int| 0 <= i < j < all.len() implies (#[trigger] all[i]).0 != (#[trigger] all[j]).0 by {
            assert(all[i] == kept[i]);
            let k = choose|k: int| 0 <= k < front.len() && front[k] == kept[i];
            assert(front[k] == s[k]);
            if j < kept.len() {
                assert(all[j] == kept[j]);
            } else {
                assert(all[j] == s[s.len() - 1]);
            }
        }
    }
}

proof fn lemma_narrowed(
    map: HoverMotionMapView,
    p: spec_fn((Seq<char>, bool)) -> bool,
    q: spec_fn(Seq<char>) -> bool,
    after: HoverMotionMapView,
)
    requires
        map.valid(),
        after.targets == map.targets.filter(p),
        after.active == map.active.filter(q),
        forall|key: Seq<char>| #[trigger] q(key) ==> map.place(key) is Some,
        forall|entry: (Seq<char>, bool)| q(entry.0) ==> #[trigger] p(entry),
    ensures
        after.valid(),
{
    lemma_filter_apart(map.targets, p);
    lemma_filter_accepts(map.active, q);
    assert forall|i: int| 0 <= i < after.active.len() implies after.place(#[trigger] after.active[i]) is Some by {
        let key = after.active[i];
        assert(q(map.active.filter(q)[i]));
        lemma_first_index(map.targets, is_of(key));
        let k = map.place(key)->0;
        assert(is_of(key)(map.targets[k]));
        assert(p(map.targets[k]));
        let n = choose|n: int| 0 <= n < after.targets.len() && after.targets[n] == map.targets[k];
        lemma_first_index(after.targets, is_of(key));
        assert(is_of(key)(after.targets[n]));
    }
}

/// Whatever happens to a component, none is listed twice, and every one that moves is
/// listed.
pub proof fn law_motions_stay_sound(map: HoverMotionMapView, key: Seq<char>, hovered: bool, some: Seq<Seq<char>>)
    requires
        map.valid(),
    ensures
        map.turned(key, hovered).valid(),
        map.framed(some).valid(),
        map.limited(some).valid(),
{
    lemma_narrowed(
        map,
        |entry: (Seq<char>, bool)| entry.1 || some.contains(entry.0) || !map.active.contains(entry.0),
        |k: Seq<char>| some.contains(k) && map.place(k) is Some,
        map.framed(some),
    );
    lemma_narrowed(
        map,
        |entry: (Seq<char>, bool)| some.contains(entry.0),
        |k: Seq<char>| some.contains(k) && map.place(k) is Some,
        map.limited(some),
    );
    let after = map.turned(key, hovered);
    if map.hovered(key) != hovered {
        lemma_first_index(map.targets, is_of(key));
        assert forall|i: int, j: int| 0 <= i < j < after.targets.len() implies (#[trigger] after.targets[i]).0 != (
        #[trigger] after.targets[j]).0 by {
            if j < map.targets.len() {
                assert(after.targets[i].0 == map.targets[i].0);
                assert(after.targets[j].0 == map.targets[j].0);
            } else {
                assert(!is_of(key)(map.targets[i]));
            }
        }
        assert forall|i: int| 0 <= i < after.active.len() implies after.place(#[trigger] after.active[i]) is Some by {
            let k = after.active[i];
            lemma_first_index(after.targets, is_of(k));
            if i < map.active.len() {
                assert(map.active[i] == k);
                lemma_first_index(map.targets, is_of(k));
                let n = map.place(k)->0;
                assert(after.targets[n].0 == k);
                assert(is_of(k)(after.targets[n]));
            } else {
                assert(k == key);
                let n = match map.place(key) {
                    Some(n) => n,
                    None => map.targets.len() as int,
                };
                assert(is_of(k)(after.targets[n]));
            }
        }
    }
}

/// A component that is no longer there is in its plain look and does not move.
pub proof fn law_forgotten_components_rest(map: HoverMotionMapView, kept: Seq<Seq<char>>, key: Seq<char>)
    requires
        !kept.contains(key),
    ensures
        !map.limited(kept).hovered(key),
        !map.limited(kept).active.contains(key),
{
    let after = map.limited(kept);
    lemma_first_index(after.targets, is_of(key));
    if let Some(i) = after.place(key) {
        let p = |entry: (Seq<char>, bool)| kept.contains(entry.0);
        lemma_filter_accepts(map.targets, p);
        assert(p(after.targets[i]));
    }
    if after.active.contains(key) {
        let q = |k: Seq<char>| kept.contains(k) && map.place(k) is Some;
        let i = choose|i: int| 0 <= i < after.active.len() && after.active[i] == key;
        lemma_filter_accepts(map.active, q);
        assert(q(after.active[i]));
    }
}

} // verus!
