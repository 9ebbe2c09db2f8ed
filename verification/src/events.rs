//! Playable events and headhunting banners, with their time windows.
//!
//! Times are held as unix timestamps in seconds, as the raw tables state
//! them. Banner and event lists in the assembled model are sorted ascending
//! by open time.

use vstd::prelude::*;

verus! {

broadcast use vstd::seq_lib::group_to_multiset_ensures;

/// Past, current or future: a filter over events and banners.
#[derive(Debug, Clone, Copy, PartialEq, Eq, Structural, Hash)]
pub enum Tense {
    Past,
    Current,
    Future,
}

/// A playable event's categorization.
#[derive(Debug, Clone, Copy, PartialEq, Eq, Structural, Hash)]
pub enum EventType {
    /// A large self-contained story event.
    Intermezzi,
    /// A side story event.
    SideStory,
    /// A small story collection event.
    Vignette,
}

/// A playable event.
#[derive(Debug)]
pub struct Event {
    /// The internal ID of this event.
    pub id: String,
    pub name: String,
    pub event_type: EventType,
    /// When this event opens, as a unix timestamp in seconds.
    pub open_time: i64,
    /// When this event's levels close.
    pub close_time: i64,
    /// When this event's shop closes.
    pub close_time_rewards: i64,
    pub is_rerun: bool,
}

impl Event {
    /// Whether this event has already opened and fully closed.
    pub fn is_past(&self, now: i64) -> (r: bool)
        ensures
            r == (now >= self.close_time_rewards),
    {
        now >= self.close_time_rewards
    }

    /// Whether this event is open and still has playable levels.
    pub fn is_current_playable(&self, now: i64) -> (r: bool)
        ensures
            r == (self.open_time <= now < self.close_time),
    {
        self.open_time <= now && now < self.close_time
    }

    /// Whether this event is open, the after-close shop phase included.
    pub fn is_current(&self, now: i64) -> (r: bool)
        ensures
            r == (self.open_time <= now < self.close_time_rewards),
    {
        self.open_time <= now && now < self.close_time_rewards
    }

    /// Whether this event has yet to open.
    pub fn is_future(&self, now: i64) -> (r: bool)
        ensures
            r == (now < self.open_time),
    {
        self.open_time > now
    }

    /// Which events a tense keeps.
    pub open spec fn spec_matches_tense(self, now: i64, tense: Tense) -> bool {
        match tense {
            Tense::Past => now >= self.close_time_rewards,
            Tense::Current => self.open_time <= now < self.close_time_rewards,
            Tense::Future => now < self.open_time,
        }
    }

    /// Whether a tense keeps this event.
    pub fn matches_tense(&self, now: i64, tense: Tense) -> (r: bool)
        ensures
            r == self.spec_matches_tense(now, tense),
    {
        match tense {
            Tense::Past => self.is_past(now),
            Tense::Current => self.is_current(now),
            Tense::Future => self.is_future(now),
        }
    }
}

/// A headhunting banner's categorization.
#[derive(Debug, Clone, Copy, PartialEq, Eq, Structural, Hash)]
pub enum HeadhuntingBannerType {
    /// A typical event banner.
    Normal,
    /// A limited event banner.
    Limited,
    /// A crossover or celebration banner.
    Special,
}

/// A headhunting banner.
#[derive(Debug)]
pub struct HeadhuntingBanner {
    /// The internal ID of this banner.
    pub id: String,
    pub name: String,
    /// A string describing when this banner closes.
    pub summary: String,
    pub index: u32,
    /// When this banner opens, as a unix timestamp in seconds.
    pub open_time: i64,
    /// When this banner closes.
    pub close_time: i64,
    /// The ID of the free ten-pull item tied to this banner, if any.
    pub item_id: Option<String>,
    pub banner_type: HeadhuntingBannerType,
}

impl HeadhuntingBanner {
    /// Whether this banner has already opened and closed.
    pub fn is_past(&self, now: i64) -> (r: bool)
        ensures
            r == (now >= self.close_time),
    {
        now >= self.close_time
    }

    /// Whether this banner is open and has yet to close.
    pub fn is_current(&self, now: i64) -> (r: bool)
        ensures
            r == (self.open_time <= now < self.close_time),
    {
        self.open_time <= now && now < self.close_time
    }

    /// Whether this banner has yet to open.
    pub fn is_future(&self, now: i64) -> (r: bool)
        ensures
            r == (now < self.open_time),
    {
        self.open_time > now
    }

    /// Which banners a tense keeps.
    pub open spec fn spec_matches_tense(self, now: i64, tense: Tense) -> bool {
        match tense {
            Tense::Past => now >= self.close_time,
            Tense::Current => self.open_time <= now < self.close_time,
            Tense::Future => now < self.open_time,
        }
    }

    /// Whether a tense keeps this banner.
    pub fn matches_tense(&self, now: i64, tense: Tense) -> (r: bool)
        ensures
            r == self.spec_matches_tense(now, tense),
    {
        match tense {
            Tense::Past => self.is_past(now),
            Tense::Current => self.is_current(now),
            Tense::Future => self.is_future(now),
        }
    }
}

/// Whether a list of events is sorted ascending by open time.
pub open spec fn events_sorted(s: Seq<Event>) -> bool {
    forall|i: int, j: int| 0 <= i < j < s.len() ==> s[i].open_time <= s[j].open_time
}

/// Whether a list of banners is sorted ascending by open time.
pub open spec fn banners_sorted(s: Seq<HeadhuntingBanner>) -> bool {
    forall|i: int, j: int| 0 <= i < j < s.len() ==> s[i].open_time <= s[j].open_time
}

/// Sorts events ascending by open time, keeping exactly the given events.
pub fn sort_events_by_open_time(v: Vec<Event>) -> (r: Vec<Event>)
    ensures
        events_sorted(r@),
        r@.to_multiset() == v@.to_multiset(),
{
    let mut input = v;
    let mut out: Vec<Event> = Vec::new();
    proof {
        assert(out@.to_multiset() =~= Seq::<Event>::empty().to_multiset());
    }
    while input.len() > 0
        invariant
            events_sorted(out@),
            out@.to_multiset().add(input@.to_multiset()) == v@.to_multiset(),
        decreases input@.len(),
    {
        let ghost pre = input@;
        let x = input.remove(0);
        proof {
            assert(pre.remove(0).to_multiset() =~= pre.to_multiset().remove(x));
            assert(out@.to_multiset().add(input@.to_multiset()).insert(x) =~= v@.to_multiset());
        }
        let n = out.len();
        let mut j: usize = 0;
        while j < n && out[j].open_time <= x.open_time
            invariant
                j <= n,
                n == out@.len(),
                forall|k: int| 0 <= k < j ==> out@[k].open_time <= x.open_time,
            decreases n - j,
        {
            j = j + 1;
        }
        let ghost outpre = out@;
        out.insert(j, x);
        proof {
            assert(out@.remove(j as int) =~= outpre);
            assert(out@.remove(j as int).to_multiset() =~= out@.to_multiset().remove(x));
            assert(out@.to_multiset() =~= outpre.to_multiset().insert(x));
            assert forall|p: int, q: int|
                0 <= p < q < out@.len() implies out@[p].open_time <= out@[q].open_time by {
                if p < j && q > j {
                    assert(out@[p] == outpre[p]);
                    assert(out@[q] == outpre[q - 1]);
                } else if q == j {
                    assert(out@[p] == outpre[p]);
                } else if p == j {
                    assert(out@[q] == outpre[q - 1]);
                    assert(outpre[j as int].open_time > x.open_time || j == n);
                }
            }
        }
    }
    proof {
        assert(out@.to_multiset().add(input@.to_multiset()) =~= out@.to_multiset());
    }
    out
}

/// Sorts banners ascending by open time, keeping exactly the given banners.
pub fn sort_banners_by_open_time(v: Vec<HeadhuntingBanner>) -> (r: Vec<HeadhuntingBanner>)
    ensures
        banners_sorted(r@),
        r@.to_multiset() == v@.to_multiset(),
{
    let mut input = v;
    let mut out: Vec<HeadhuntingBanner> = Vec::new();
    proof {
        assert(out@.to_multiset() =~= Seq::<HeadhuntingBanner>::empty().to_multiset());
    }
    while input.len() > 0
        invariant
            banners_sorted(out@),
            out@.to_multiset().add(input@.to_multiset()) == v@.to_multiset(),
        decreases input@.len(),
    {
        let ghost pre = input@;
        let x = input.remove(0);
        proof {
            assert(pre.remove(0).to_multiset() =~= pre.to_multiset().remove(x));
            assert(out@.to_multiset().add(input@.to_multiset()).insert(x) =~= v@.to_multiset());
        }
        let n = out.len();
        let mut j: usize = 0;
        while j < n && out[j].open_time <= x.open_time
            invariant
                j <= n,
                n == out@.len(),
                forall|k: int| 0 <= k < j ==> out@[k].open_time <= x.open_time,
            decreases n - j,
        {
            j = j + 1;
        }
        let ghost outpre = out@;
        out.insert(j, x);
        proof {
            assert(out@.remove(j as int) =~= outpre);
            assert(out@.remove(j as int).to_multiset() =~= out@.to_multiset().remove(x));
            assert(out@.to_multiset() =~= outpre.to_multiset().insert(x));
            assert forall|p: int, q: int|
                0 <= p < q < out@.len() implies out@[p].open_time <= out@[q].open_time by {
                if p < j && q > j {
                    assert(out@[p] == outpre[p]);
                    assert(out@[q] == outpre[q - 1]);
                } else if q == j {
                    assert(out@[p] == outpre[p]);
                } else if p == j {
                    assert(out@[q] == outpre[q - 1]);
                    assert(outpre[j as int].open_time > x.open_time || j == n);
                }
            }
        }
    }
    proof {
        assert(out@.to_multiset().add(input@.to_multiset()) =~= out@.to_multiset());
    }
    out
}

} // verus!
