use std::marker::PhantomData;
use vstd::prelude::*;

use crate::resources::uid::{
    ConfigTag, MapTag, ResourceUid, ShaderTag, SoundManifestEntry, SoundPresetTag, SoundTag,
    SoundUid, TextureTag,
};

verus! {

broadcast use vstd::string::group_string_axioms;

/// The kinds of asset that a [`TypedStore`] can be keyed by.
pub trait ResourceMarker {

}

impl ResourceMarker for TextureTag {

}

impl ResourceMarker for MapTag {

}

impl ResourceMarker for ShaderTag {

}

impl ResourceMarker for ConfigTag {

}

impl ResourceMarker for SoundTag {

}

impl ResourceMarker for SoundPresetTag {

}

pub type ResourceUidFor<M> = ResourceUid<M>;

/// What the slots `entries` hold at `index`: nothing past their end.
pub open spec fn slot<T>(entries: Seq<Option<T>>, index: int) -> Option<T> {
    if 0 <= index < entries.len() {
        entries[index]
    } else {
        None
    }
}

/// The slots `entries` after `value` is put at `index`: first grown with empty
/// slots so that `index` exists, then that slot filled.
pub open spec fn slots_with<T>(entries: Seq<Option<T>>, index: int, value: T) -> Seq<Option<T>> {
    let grown = if index < entries.len() {
        entries
    } else {
        entries + Seq::new((index + 1 - entries.len()) as nat, |i: int| None::<T>)
    };
    grown.update(index, Some(value))
}

/// The slots `entries` after a request to put `value` at `index`: a slot that
/// is already filled keeps what it holds; an empty one takes `value`.
pub open spec fn stored_after<T>(entries: Seq<Option<T>>, index: int, value: T) -> Seq<Option<T>> {
    if slot(entries, index) is Some {
        entries
    } else {
        slots_with(entries, index, value)
    }
}

/// The slots of a store made with `capacity` slots after the requests
/// `inserts` (handle index and value), made in order.
pub open spec fn filled_by<T>(capacity: nat, inserts: Seq<(u32, T)>) -> Seq<Option<T>>
    decreases inserts.len(),
{
    if inserts.len() == 0 {
        Seq::new(capacity, |i: int| None::<T>)
    } else {
        stored_after(
            filled_by(capacity, inserts.drop_last()),
            inserts.last().0 as int,
            inserts.last().1,
        )
    }
}

/// Whether request `i` of `inserts` is the first that names handle index `index`.
pub open spec fn is_first_insert<T>(inserts: Seq<(u32, T)>, index: int, i: int) -> bool {
    &&& 0 <= i < inserts.len()
    &&& inserts[i].0 == index
    &&& forall|j: int| 0 <= j < i ==> #[trigger] inserts[j].0 != index
}

/// Assets of one kind, held in slots indexed by their [`ResourceUid`].
pub struct TypedStore<M, T> {
    entries: Vec<Option<T>>,
    _marker: PhantomData<M>,
}

impl<M, T> View for TypedStore<M, T> {
    type V = Seq<Option<T>>;

    closed spec fn view(&self) -> Seq<Option<T>> {
        self.entries@
    }
}

impl<M, T> TypedStore<M, T> {
    /// The asset stored under the handle index `index`, if any.
    pub open spec fn lookup(&self, index: u32) -> Option<T> {
        slot(self@, index as int)
    }

    /// An empty store with `capacity` free slots.
    pub fn with_capacity(capacity: usize) -> (store: Self)
        ensures
            store@ == Seq::new(capacity as nat, |i: int| None::<T>),
    {
        let mut entries: Vec<Option<T>> = Vec::with_capacity(capacity);
        let mut n: usize = 0;
        while n < capacity
            invariant
                n <= capacity,
                entries@ == Seq::new(n as nat, |i: int| None::<T>),
            decreases capacity - n,
        {
            entries.push(None);
            n = n + 1;
        }
        Self { entries, _marker: PhantomData }
    }

    /// Stores `value` under `uid`. A slot that is already filled is left as it
    /// was, and `value` is handed back.
    pub fn insert(&mut self, uid: ResourceUidFor<M>, value: T) -> (result: Result<(), T>) where
        M: ResourceMarker,
        requires
            (uid@ as int) < usize::MAX || old(self).lookup(uid@) is Some,
        ensures
            old(self).lookup(uid@) is Some ==> result == Err::<(), T>(value) && final(self)@ == old(
                self,
            )@,
            old(self).lookup(uid@) is None ==> result == Ok::<(), T>(()) && final(self)@
                == slots_with(old(self)@, uid@ as int, value),
            final(self)@ == stored_after(old(self)@, uid@ as int, value),
    {
        let index = uid.index() as usize;
        if index >= self.entries.len() {
            let ghost before = self.entries@;
            while self.entries.len() < index + 1
                invariant
                    before.len() <= self.entries@.len() <= index + 1,
                    index < usize::MAX,
                    self.entries@ == before + Seq::new(
                        (self.entries@.len() - before.len()) as nat,
                        |i: int| None::<T>,
                    ),
                decreases index + 1 - self.entries@.len(),
            {
                self.entries.push(None);
                assert(self.entries@ =~= before + Seq::new(
                    (self.entries@.len() - before.len()) as nat,
                    |i: int| None::<T>,
                ));
            }
        }
        if self.entries[index].is_some() {
            return Err(value);
        }
        self.entries.set(index, Some(value));
        Ok(())
    }

    /// The asset stored under `uid`, which must have been inserted.
    pub fn get(&self, uid: ResourceUidFor<M>) -> (value: &T) where
        M: ResourceMarker,
        requires
            self.lookup(uid@) is Some,
        ensures
            self.lookup(uid@) == Some(*value),
    {
        self.try_get(uid).unwrap()
    }

    /// The asset stored under `uid`, or `None` where nothing was inserted.
    pub fn try_get(&self, uid: ResourceUidFor<M>) -> (value: Option<&T>) where
        M: ResourceMarker,
        ensures
            match value {
                Some(v) => self.lookup(uid@) == Some(*v),
                None => self.lookup(uid@) is None,
            },
    {
        let index = uid.index() as usize;
        if index < self.entries.len() {
            self.entries[index].as_ref()
        } else {
            None
        }
    }
}

/// A store reads back what was put into it: after `value` is put at `index`,
/// that slot holds `value` and every other slot holds what it held before.
pub proof fn law_read_back_after_insert<T>(entries: Seq<Option<T>>, index: int, value: T)
    requires
        0 <= index,
    ensures
        slot(slots_with(entries, index, value), index) == Some(value),
        forall|other: int|
            other != index ==> #[trigger] slot(slots_with(entries, index, value), other) == slot(
                entries,
                other,
            ),
{
}

/// A fresh store holds nothing, whatever its capacity.
pub proof fn law_fresh_store_is_empty<T>(capacity: nat, index: int)
    ensures
        slot(Seq::new(capacity, |i: int| None::<T>), index) is None,
{
}

/// A store reads back, under each handle, the value of the first request that
/// named it, whatever requests followed; a handle that no request named reads
/// back nothing. This holds of a store made with any capacity and filled by any
/// sequence of requests.
pub proof fn law_read_back_after_inserts<T>(capacity: nat, inserts: Seq<(u32, T)>, index: int)
    ensures
        match slot(filled_by(capacity, inserts), index) {
            Some(v) => exists|i: int| is_first_insert(inserts, index, i) && inserts[i].1 == v,
            None => forall|i: int| 0 <= i < inserts.len() ==> #[trigger] inserts[i].0 != index,
        },
    decreases inserts.len(),
{
    if inserts.len() > 0 {
        let prev = inserts.drop_last();
        let last = inserts.last();
        let n = inserts.len() - 1;
        let before = filled_by(capacity, prev);
        law_read_back_after_inserts(capacity, prev, index);
        law_read_back_after_insert(before, last.0 as int, last.1);
        assert(forall|j: int| 0 <= j < n ==> #[trigger] inserts[j] == prev[j]);
        match slot(before, index) {
            Some(v) => {
                let i = choose|i: int| is_first_insert(prev, index, i) && prev[i].1 == v;
                assert(is_first_insert(inserts, index, i));
            },
            None => {
                if last.0 as int == index {
                    assert(is_first_insert(inserts, index, n));
                }
            },
        }
    }
}

/// Whether manifest entry `i` is the first whose name is `name`.
pub open spec fn is_first_named(entries: Seq<SoundManifestEntry>, name: Seq<char>, i: int) -> bool {
    &&& 0 <= i < entries.len()
    &&& entries[i].name@ == name
    &&& forall|j: int| 0 <= j < i ==> #[trigger] entries[j].name@ != name
}

/// The handle of the first sound of `entries` that is named `name`.
pub fn sound_uid_by_name(entries: &[SoundManifestEntry], name: &str) -> (uid: Option<SoundUid>)
    ensures
        match uid {
            Some(found) => exists|i: int| is_first_named(entries@, name@, i) && entries@[i].uid == found,
            None => forall|i: int| 0 <= i < entries@.len() ==> #[trigger] entries@[i].name@ != name@,
        },
{
    let wanted = chars_of(name);
    let mut i: usize = 0;
    while i < entries.len()
        invariant
            i <= entries@.len(),
            wanted@ == name@,
            forall|j: int| 0 <= j < i ==> #[trigger] entries@[j].name@ != name@,
        decreases entries@.len() - i,
    {
        let candidate = chars_of(entries[i].name);
        if same_chars(&candidate, &wanted) {
            assert(is_first_named(entries@, name@, i as int));
            return Some(entries[i].uid);
        }
        i = i + 1;
    }
    None
}

/// The characters of `text`, in order.
fn chars_of(text: &str) -> (chars: Vec<char>)
    ensures
        chars@ == text@,
{
    let mut chars: Vec<char> = Vec::new();
    for c in it: text.chars()
        invariant
            chars@ == it.seq().take(it.index() as int),
    {
        chars.push(c);
    }
    chars
}

/// Whether `a` and `b` hold the same characters.
fn same_chars(a: &Vec<char>, b: &Vec<char>) -> (same: bool)
    ensures
        same == (a@ == b@),
{
    if a.len() != b.len() {
        return false;
    }
    let mut i: usize = 0;
    while i < a.len()
        invariant
            i <= a@.len(),
            a@.len() == b@.len(),
            forall|j: int| 0 <= j < i ==> a@[j] == b@[j],
        decreases a@.len() - i,
    {
        if a[i] != b[i] {
            return false;
        }
        i = i + 1;
    }
    assert(a@ =~= b@);
    true
}

} // verus!
