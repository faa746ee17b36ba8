use std::collections::HashMap;
use vstd::prelude::*;

use crate::audio::api::LoopHandle;
use crate::resources::uid::{law_uid_is_its_index, SoundUid};

verus! {

broadcast use vstd::std_specs::hash::group_hash_axioms;

/// What the audio engine does with a loop channel asked to play a clip.
#[derive(Debug, Clone, Copy, PartialEq, Eq, Structural)]
pub enum LoopAction {
    /// No live channel has this handle; nothing happens.
    Invalid,
    /// The channel already plays this clip: only its parameters change.
    Update,
    /// The channel stops what it held and starts the clip anew.
    Restart,
}

/// The loop channels as the audio engine keeps them: each live handle and the
/// clip its channel holds, and the handle that the next channel gets.
pub struct LoopTableView {
    pub channels: Map<LoopHandle, Option<SoundUid>>,
    pub next: LoopHandle,
}

/// The table after a request that channel `handle` play `clip`, where
/// `running` says whether the channel's sound is playing or paused: what is
/// done, and the channels afterwards.
pub open spec fn loop_step(
    table: LoopTableView,
    handle: LoopHandle,
    clip: SoundUid,
    running: bool,
) -> (LoopAction, LoopTableView) {
    if !table.channels.contains_key(handle) {
        (LoopAction::Invalid, table)
    } else if table.channels[handle] == Some(clip) && running {
        (LoopAction::Update, table)
    } else {
        (
            LoopAction::Restart,
            LoopTableView { channels: table.channels.insert(handle, Some(clip)), ..table },
        )
    }
}

/// The bookkeeping of the looping sound channels: which handles are live, and
/// which clip each channel holds.
pub struct LoopTable {
    channels: HashMap<LoopHandle, Option<SoundUid>>,
    next: LoopHandle,
}

impl View for LoopTable {
    type V = LoopTableView;

    closed spec fn view(&self) -> LoopTableView {
        LoopTableView { channels: self.channels@, next: self.next }
    }
}

impl LoopTable {
    /// Every live handle was handed out before the next one: none is at or
    /// past `next`.
    pub open spec fn wf(&self) -> bool {
        forall|h: LoopHandle| #[trigger] self@.channels.contains_key(h) ==> h < self@.next
    }

    /// No channel yet; the first handle is 1.
    pub fn new() -> (table: Self)
        ensures
            table@.channels == Map::<LoopHandle, Option<SoundUid>>::empty(),
            table@.next == 1,
            table.wf(),
    {
        LoopTable { channels: HashMap::new(), next: 1 }
    }

    /// The handle that the next channel gets.
    pub fn next_handle(&self) -> (next: LoopHandle)
        ensures
            next == self@.next,
    {
        self.next
    }

    /// Opens a channel that holds no clip, under a handle that no live channel
    /// has.
    pub fn create(&mut self) -> (handle: LoopHandle)
        requires
            old(self).wf(),
            old(self)@.next < LoopHandle::MAX,
        ensures
            handle == old(self)@.next,
            !old(self)@.channels.contains_key(handle),
            final(self)@.channels == old(self)@.channels.insert(handle, None),
            final(self)@.next == handle + 1,
            final(self)@ == after_request(old(self)@, LoopRequest::Create),
            final(self).wf(),
    {
        let handle = self.next;
        self.next = self.next + 1;
        self.channels.insert(handle, None);
        handle
    }

    /// Closes channel `handle`; says whether it was live.
    pub fn release(&mut self, handle: LoopHandle) -> (live: bool)
        requires
            old(self).wf(),
        ensures
            live == old(self)@.channels.contains_key(handle),
            final(self)@.channels == old(self)@.channels.remove(handle),
            final(self)@.next == old(self)@.next,
            final(self)@ == after_request(old(self)@, LoopRequest::Release(handle)),
            final(self).wf(),
    {
        self.channels.remove(&handle).is_some()
    }

    /// Whether `handle` names a live channel.
    pub fn contains(&self, handle: LoopHandle) -> (live: bool)
        ensures
            live == self@.channels.contains_key(handle),
    {
        self.channels.contains_key(&handle)
    }

    /// The clip that channel `handle` holds, if it is live and holds one.
    pub fn clip(&self, handle: LoopHandle) -> (clip: Option<SoundUid>)
        ensures
            clip == if self@.channels.contains_key(handle) {
                self@.channels[handle]
            } else {
                None
            },
    {
        match self.channels.get(&handle) {
            Some(held) => *held,
            None => None,
        }
    }

    /// Channel `handle` stopped: it holds no clip any more. Says whether it
    /// was live; a handle that is not live changes nothing.
    pub fn stop(&mut self, handle: LoopHandle) -> (live: bool)
        requires
            old(self).wf(),
        ensures
            live == old(self)@.channels.contains_key(handle),
            final(self)@.channels == if live {
                old(self)@.channels.insert(handle, None)
            } else {
                old(self)@.channels
            },
            final(self)@.next == old(self)@.next,
            final(self)@ == after_request(old(self)@, LoopRequest::Stop(handle)),
            final(self).wf(),
    {
        if self.channels.contains_key(&handle) {
            self.channels.insert(handle, None);
            true
        } else {
            false
        }
    }

    /// Decides what a request that channel `handle` play `clip` does, given
    /// whether its sound is `running` (playing or paused), and records the
    /// clip the channel holds afterwards.
    pub fn play(&mut self, handle: LoopHandle, clip: SoundUid, running: bool) -> (action:
        LoopAction)
        requires
            old(self).wf(),
        ensures
            (action, final(self)@) == loop_step(old(self)@, handle, clip, running),
            final(self)@ == after_request(old(self)@, LoopRequest::Play(handle, clip, running)),
            !old(self)@.channels.contains_key(handle) ==> action == LoopAction::Invalid
                && final(self)@ == old(self)@,
            old(self)@.channels.contains_key(handle) ==> (action == LoopAction::Update <==> (
            old(self)@.channels[handle] == Some(clip) && running)),
            old(self)@.channels.contains_key(handle) ==> (action == LoopAction::Restart <==> !(
            old(self)@.channels[handle] == Some(clip) && running)),
            old(self)@.channels.contains_key(handle) ==> final(self)@.channels[handle] == Some(
                clip,
            ),
            final(self)@.channels.dom() == old(self)@.channels.dom(),
            final(self)@.next == old(self)@.next,
            forall|other: LoopHandle|
                other != handle && #[trigger] old(self)@.channels.contains_key(other)
                    ==> final(self)@.channels[other] == old(self)@.channels[other],
            final(self).wf(),
    {
        let held = match self.channels.get(&handle) {
            Some(held) => *held,
            None => {
                return LoopAction::Invalid;
            },
        };
        let same = match held {
            Some(current) => current.index() == clip.index(),
            None => false,
        };
        proof {
            if let Some(current) = held {
                law_uid_is_its_index(current, clip);
            }
        }
        if same && running {
            LoopAction::Update
        } else {
            self.channels.insert(handle, Some(clip));
            LoopAction::Restart
        }
    }
}

/// A request made of a [`LoopTable`]: open a channel, close one, play a clip on
/// one (with whether its sound runs), or stop one.
pub enum LoopRequest {
    Create,
    Release(LoopHandle),
    Play(LoopHandle, SoundUid, bool),
    Stop(LoopHandle),
}

/// The table after `request`, as the contracts of [`LoopTable`]'s methods
/// state it.
pub open spec fn after_request(table: LoopTableView, request: LoopRequest) -> LoopTableView {
    match request {
        LoopRequest::Create => LoopTableView {
            channels: table.channels.insert(table.next, None),
            next: (table.next + 1) as LoopHandle,
        },
        LoopRequest::Release(handle) => LoopTableView {
            channels: table.channels.remove(handle),
            ..table
        },
        LoopRequest::Play(handle, clip, running) => loop_step(table, handle, clip, running).1,
        LoopRequest::Stop(handle) => if table.channels.contains_key(handle) {
            LoopTableView { channels: table.channels.insert(handle, None), ..table }
        } else {
            table
        },
    }
}

/// The table that [`LoopTable::new`] makes, after `requests`, made in order.
pub open spec fn table_after(requests: Seq<LoopRequest>) -> LoopTableView
    decreases requests.len(),
{
    if requests.len() == 0 {
        LoopTableView { channels: Map::empty(), next: 1 }
    } else {
        after_request(table_after(requests.drop_last()), requests.last())
    }
}

/// How many of `requests` open a channel.
pub open spec fn creates(requests: Seq<LoopRequest>) -> nat
    decreases requests.len(),
{
    if requests.len() == 0 {
        0
    } else {
        creates(requests.drop_last()) + if requests.last() is Create {
            1nat
        } else {
            0nat
        }
    }
}

/// Loop handles count up from 1: after any requests made of a new table, the
/// next handle is one more than the number of channels opened, so the `n`-th
/// channel opened gets handle `n`; every live handle lies between 1 and the
/// number opened; and the handle handed out next only grows, so no handle is
/// handed out twice, whatever was released.
pub proof fn law_loop_handles_count_up(requests: Seq<LoopRequest>, i: int, j: int)
    requires
        creates(requests) < LoopHandle::MAX,
    ensures
        table_after(requests).next == creates(requests) + 1,
        forall|h: LoopHandle| #[trigger]
            table_after(requests).channels.contains_key(h) ==> 1 <= h <= creates(requests),
        0 <= i <= j <= requests.len() ==> table_after(requests.take(i)).next <= table_after(
            requests.take(j),
        ).next,
    decreases requests.len(),
{
    if requests.len() > 0 {
        let prev = requests.drop_last();
        law_loop_handles_count_up(prev, i, j);
        let t = table_after(prev);
        let last = requests.last();
        match last {
            LoopRequest::Play(handle, clip, running) => {
                law_replay_updates(t, handle, clip, running);
            },
            _ => {},
        }
        assert forall|h: LoopHandle| #[trigger]
            table_after(requests).channels.contains_key(h) implies 1 <= h <= creates(requests) by {
            if !(last is Create && h == t.next) {
                assert(t.channels.contains_key(h));
            }
        }
        if 0 <= i <= j <= requests.len() {
            lemma_next_grows(requests, i, j);
        }
    }
}

/// The next handle never shrinks along a sequence of requests that opens
/// fewer channels than handles exist.
proof fn lemma_next_grows(requests: Seq<LoopRequest>, i: int, j: int)
    requires
        0 <= i <= j <= requests.len(),
        creates(requests) < LoopHandle::MAX,
    ensures
        table_after(requests.take(i)).next <= table_after(requests.take(j)).next,
    decreases j - i,
{
    if i < j {
        lemma_next_grows(requests, i, j - 1);
        let before = requests.take(j - 1);
        let upto = requests.take(j);
        assert(upto.drop_last() =~= before);
        lemma_creates_prefix(requests, j);
        lemma_next_counts(before);
        let t = table_after(before);
        match requests[j - 1] {
            LoopRequest::Play(handle, clip, running) => {
                law_replay_updates(t, handle, clip, running);
            },
            _ => {},
        }
    }
}

/// A prefix of the requests opens no more channels than all of them.
proof fn lemma_creates_prefix(requests: Seq<LoopRequest>, j: int)
    requires
        0 <= j <= requests.len(),
    ensures
        creates(requests.take(j)) <= creates(requests),
    decreases requests.len(),
{
    if j < requests.len() {
        assert(requests.drop_last().take(j) =~= requests.take(j));
        lemma_creates_prefix(requests.drop_last(), j);
    } else {
        assert(requests.take(j) =~= requests);
    }
}

/// The next handle is one more than the number of channels opened.
proof fn lemma_next_counts(requests: Seq<LoopRequest>)
    requires
        creates(requests) < LoopHandle::MAX,
    ensures
        table_after(requests).next == creates(requests) + 1,
    decreases requests.len(),
{
    if requests.len() > 0 {
        lemma_next_counts(requests.drop_last());
        match requests.last() {
            LoopRequest::Play(handle, clip, running) => {
                law_replay_updates(table_after(requests.drop_last()), handle, clip, running);
            },
            _ => {},
        }
    }
}

/// What a request to play does: a handle that is not live is refused and
/// nothing changes; on a live channel the answer is `Update`, which changes
/// nothing, exactly when the channel already holds that clip and its sound
/// runs, and `Restart` in every other case: a different clip, no clip, or a
/// sound that is not running. Either way the channel then holds the clip, and
/// no other channel changes.
pub proof fn law_play_decides(
    table: LoopTableView,
    handle: LoopHandle,
    clip: SoundUid,
    running: bool,
)
    ensures
        !table.channels.contains_key(handle) ==> loop_step(table, handle, clip, running).0
            == LoopAction::Invalid && loop_step(table, handle, clip, running).1 == table,
        table.channels.contains_key(handle) ==> (loop_step(table, handle, clip, running).0
            == LoopAction::Update <==> (table.channels[handle] == Some(clip) && running)),
        table.channels.contains_key(handle) ==> (loop_step(table, handle, clip, running).0
            == LoopAction::Restart <==> !(table.channels[handle] == Some(clip) && running)),
        table.channels.contains_key(handle) ==> loop_step(table, handle, clip, running).1.channels[handle]
            == Some(clip),
        loop_step(table, handle, clip, running).0 == LoopAction::Update ==> loop_step(
            table,
            handle,
            clip,
            running,
        ).1 == table,
        forall|other: LoopHandle|
            other != handle && #[trigger] table.channels.contains_key(other) ==> loop_step(
                table,
                handle,
                clip,
                running,
            ).1.channels[other] == table.channels[other],
{
}

/// A channel that was just asked to play a clip, and did not refuse, is
/// updated rather than restarted when asked for the same clip again while its
/// sound runs; and asking to play never opens or closes a channel.
pub proof fn law_replay_updates(
    table: LoopTableView,
    handle: LoopHandle,
    clip: SoundUid,
    running: bool,
)
    ensures
        loop_step(table, handle, clip, running).1.channels.dom() == table.channels.dom(),
        loop_step(table, handle, clip, running).1.next == table.next,
        loop_step(table, handle, clip, running).0 != LoopAction::Invalid ==> loop_step(
            loop_step(table, handle, clip, running).1,
            handle,
            clip,
            true,
        ).0 == LoopAction::Update,
{
    let after = loop_step(table, handle, clip, running).1;
    if table.channels.contains_key(handle) {
        assert(after.channels.dom() =~= table.channels.dom());
    }
}

} // verus!
