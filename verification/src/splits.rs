//! Lap timing: the sector model and the lap state machine.
//!
//! A lap runs over the gates of the connected sensor nodes.  Sorted by
//! node id, each adjacent pair of gates bounds a sector, and a final
//! wrap sector runs from the highest gate back to the lowest, so the
//! finish line coincides with the start line.  Detections drive the
//! state machine: the first gate starts the lap, each expected gate
//! completes its sector, a skipped gate invalidates the sectors passed
//! over, and a stale gate behind the current sector is ignored.

use vstd::prelude::*;
use vstd::string::*;
use vstd::std_specs::iter::IteratorSpec;
use std::collections::BTreeSet;
use crate::messages::DetectionMessage;
use crate::timing::TimeSpan;
use crate::timing::TimeStamp;
use crate::timing::spec_dec;
use crate::timing::spec_digit;
use crate::timing::spec_duration_since;
use crate::timing::push_dec;

verus! {

/// Progress of a single sector.
#[derive(Clone, Copy, Debug, PartialEq, Eq, Structural)]
pub enum SectorState {
    /// The sector was skipped over and its time is unusable.
    Invalidated,
    /// The sector's end gate has not been crossed yet.
    Incomplete,
    /// The sector's end gate was crossed at the contained stamp.
    Complete(TimeStamp),
}

impl SectorState {
    pub fn is_invalidated(&self) -> (r: bool)
        ensures
            r == (self is Invalidated),
    {
        matches!(self, SectorState::Invalidated)
    }

    pub fn is_incomplete(&self) -> (r: bool)
        ensures
            r == (self is Incomplete),
    {
        matches!(self, SectorState::Incomplete)
    }

    pub fn is_complete(&self) -> (r: bool)
        ensures
            r == (self is Complete),
    {
        matches!(self, SectorState::Complete(_))
    }
}

/// Single timing unit of a lap, bounded by two gates.
#[derive(Clone, Copy, Debug, PartialEq, Eq, Structural)]
pub struct Sector {
    /// Gate at which this sector begins.
    pub from: u16,
    /// Gate at which this sector ends.
    pub to: u16,
    /// Progress of this sector.
    pub state: SectorState,
}

impl Sector {
    pub fn new(starting_node: u16, ending_node: u16) -> (r: Sector)
        ensures
            r == (Sector { from: starting_node, to: ending_node, state: SectorState::Incomplete }),
    {
        Sector { from: starting_node, to: ending_node, state: SectorState::Incomplete }
    }
}

/// State of the lap.
#[derive(Clone, Copy, Debug, PartialEq, Eq, Structural)]
pub enum SplitState {
    /// Waiting for the first gate to trigger.
    NotStarted,
    /// Lap is occurring; it started at the contained stamp.
    Running(TimeStamp),
    /// Lap is done; it started at the left stamp and ended at the right.
    Completed(TimeStamp, TimeStamp),
}

impl SplitState {
    pub fn is_not_started(&self) -> (r: bool)
        ensures
            r == (self is NotStarted),
    {
        matches!(self, SplitState::NotStarted)
    }

    pub fn is_running(&self) -> (r: bool)
        ensures
            r == (self is Running),
    {
        matches!(self, SplitState::Running(_))
    }

    pub fn is_completed(&self) -> (r: bool)
        ensures
            r == (self is Completed),
    {
        matches!(self, SplitState::Completed(_, _))
    }
}

/// Whether `s` is strictly ascending.
pub open spec fn sorted_strict(s: Seq<u16>) -> bool {
    forall|i: int, j: int| 0 <= i < j < s.len() ==> s[i] < s[j]
}

/// The sectors derived from an ascending node set: one per adjacent
/// pair, and the wrap sector from the last node back to the first.  A
/// single node yields the one degenerate sector over itself; no nodes
/// yield no sectors.
pub open spec fn spec_gen_sectors(nodes: Seq<u16>) -> Seq<Sector> {
    Seq::new(
        nodes.len(),
        |i: int|
            Sector {
                from: nodes[i],
                to: if i + 1 < nodes.len() {
                    nodes[i + 1]
                } else {
                    nodes[0]
                },
                state: SectorState::Incomplete,
            },
    )
}

/// Lap timing system implementation.
///
/// Node membership may change while the lap has not started; the first
/// start trigger freezes it.
pub struct Splits {
    /// Nodes connected at the time of the start of this run, ascending.
    pub nodes: Vec<u16>,
    /// Deltas between sensors.  Gate ids are ascending sector by
    /// sector, except in the last sector, which wraps around.
    pub sectors: Vec<Sector>,
    /// State of the lap.
    pub state: SplitState,
    /// Index of the sector the lap is currently evaluating.
    pub current_sector: usize,
}

/// Copies a vector of plain values element by element.
fn copy_vec<T: Copy>(v: &Vec<T>) -> (r: Vec<T>)
    ensures
        r@ == v@,
{
    let mut r: Vec<T> = Vec::new();
    let n: usize = v.len();
    let mut i: usize = 0;
    while i < n
        invariant
            0 <= i <= n,
            n == v@.len(),
            r@ == v@.take(i as int),
        decreases n - i,
    {
        r.push(v[i]);
        proof {
            assert(r@ =~= v@.take(i + 1));
        }
        i += 1;
    }
    proof {
        assert(v@.take(n as int) =~= v@);
    }
    r
}

impl Clone for Splits {
    fn clone(&self) -> (r: Splits)
        ensures
            r.nodes@ == self.nodes@,
            r.sectors@ == self.sectors@,
            r.state == self.state,
            r.current_sector == self.current_sector,
    {
        Splits {
            nodes: copy_vec(&self.nodes),
            sectors: copy_vec(&self.sectors),
            state: self.state,
            current_sector: self.current_sector,
        }
    }
}

impl Splits {
    /// Internal consistency: the nodes are ascending, the sectors'
    /// gates derive from them, and the current index is meaningful for
    /// the state.
    pub open spec fn wf(self) -> bool {
        &&& sorted_strict(self.nodes@)
        &&& self.sectors@.len() == self.nodes@.len()
        &&& (forall|i: int|
            0 <= i < self.sectors@.len() ==> (#[trigger] self.sectors@[i]).from
                == spec_gen_sectors(self.nodes@)[i].from && self.sectors@[i].to == spec_gen_sectors(
                self.nodes@,
            )[i].to)
        &&& (self.state is NotStarted ==> self.current_sector == 0 && (forall|i: int|
            0 <= i < self.sectors@.len() ==> (#[trigger] self.sectors@[i]).state is Incomplete))
        &&& (!(self.state is NotStarted) ==> self.sectors@.len() > 0 && self.current_sector
            < self.sectors@.len())
        &&& (self.state is Running ==> self.sectors@[self.current_sector as int].state
            is Incomplete)
    }

    /// Creates a lap over the currently connected nodes, which may be
    /// empty.  Nodes can still be connected or disconnected until the
    /// first gate triggers.
    pub fn new(nodes: BTreeSet<u16>) -> (r: Splits)
        ensures
            r.wf(),
            r.nodes@.to_set() == nodes@,
            r.nodes@.len() == nodes@.len(),
            r.sectors@ == spec_gen_sectors(r.nodes@),
            r.state is NotStarted,
            r.current_sector == 0,
    {
        let node_vec = set_to_sorted_vec(&nodes);
        let sectors = Self::generate_sectors(&node_vec);
        Splits { nodes: node_vec, sectors, state: SplitState::NotStarted, current_sector: 0 }
    }

    /// Creates the sector list for an ascending node list.
    fn generate_sectors(nodes: &Vec<u16>) -> (sec: Vec<Sector>)
        ensures
            sec@ == spec_gen_sectors(nodes@),
    {
        let mut sec: Vec<Sector> = Vec::new();
        let n: usize = nodes.len();
        let mut i: usize = 0;
        while i < n
            invariant
                0 <= i <= n,
                n == nodes@.len(),
                sec@.len() == i,
                forall|k: int| 0 <= k < i ==> sec@[k] == spec_gen_sectors(nodes@)[k],
            decreases n - i,
        {
            let to: u16 = if i + 1 < n {
                nodes[i + 1]
            } else {
                nodes[0]
            };
            sec.push(Sector { from: nodes[i], to, state: SectorState::Incomplete });
            i += 1;
        }
        proof {
            assert(sec@ =~= spec_gen_sectors(nodes@));
        }
        sec
    }

    /// Registers a node and regenerates the sectors accordingly.
    ///
    /// Runs only while the lap has not started; otherwise the node is
    /// not added and `false` is returned.
    pub fn connect_node(&mut self, node: u16) -> (r: bool)
        requires
            old(self).wf(),
        ensures
            final(self).wf(),
            old(self).state is NotStarted ==> r == true && final(self).nodes@.to_set() == old(
                self,
            ).nodes@.to_set().insert(node) && final(self).sectors@ == spec_gen_sectors(
                final(self).nodes@,
            ) && final(self).state is NotStarted,
            !(old(self).state is NotStarted) ==> r == false && *final(self) == *old(self),
    {
        if self.state.is_not_started() {
            insert_sorted(&mut self.nodes, node);
            self.sectors = Self::generate_sectors(&self.nodes);
            true
        } else {
            false
        }
    }

    /// Removes a node and regenerates the sectors accordingly.
    ///
    /// Runs only while the lap has not started; otherwise the node is
    /// not removed and `false` is returned.
    pub fn disconnect_node(&mut self, node: u16) -> (r: bool)
        requires
            old(self).wf(),
        ensures
            final(self).wf(),
            old(self).state is NotStarted ==> r == true && final(self).nodes@.to_set() == old(
                self,
            ).nodes@.to_set().remove(node) && final(self).sectors@ == spec_gen_sectors(
                final(self).nodes@,
            ) && final(self).state is NotStarted,
            !(old(self).state is NotStarted) ==> r == false && *final(self) == *old(self),
    {
        if self.state.is_not_started() {
            remove_sorted(&mut self.nodes, node);
            self.sectors = Self::generate_sectors(&self.nodes);
            true
        } else {
            false
        }
    }

    /// Returns the current state of this lap.
    pub fn get_state(&self) -> (r: &SplitState)
        ensures
            *r == self.state,
    {
        &self.state
    }

    /// Handles a gate triggering.  Returns the resulting state.
    ///
    /// The policy, evaluated in order: a completed lap ignores the
    /// trigger; so does a gate outside the frozen node set.  Before the
    /// lap starts, only the first sector's opening gate starts it.
    /// While it runs, the expected end gate completes the current
    /// sector; a gate further ahead invalidates every sector up to and
    /// including the one it ends, unless the lap is already in the wrap
    /// sector, where a higher gate id is a stale rear-gate event; a
    /// gate behind the current sector is ignored.  After a completion
    /// or an invalidation the lap advances to the next incomplete
    /// sector, or finishes when none is left.
    pub fn handle_node_trigger(&mut self, msg: DetectionMessage) -> (r: SplitState)
        requires
            old(self).wf(),
        ensures
            final(self).wf(),
            final(self).nodes@ == old(self).nodes@,
            final(self).sectors@ == spec_step(*old(self), msg).0,
            final(self).state == spec_step(*old(self), msg).1,
            final(self).current_sector as int == spec_step(*old(self), msg).2,
            r == final(self).state,
    {
        if self.state.is_completed() {
            return self.state;
        }
        if !contains_node(&self.nodes, msg.node_id) {
            return self.state;
        }
        if self.state.is_not_started() {
            if self.sectors.len() > 0 {
                if self.sectors[0].from == msg.node_id {
                    self.state = SplitState::Running(msg.get_stamp());
                }
            }
            return self.state;
        }
        let cur: usize = self.current_sector;
        let target: Sector = self.sectors[cur];
        if target.to == msg.node_id {
            self.sectors[cur] = Sector {
                from: target.from,
                to: target.to,
                state: SectorState::Complete(msg.get_stamp()),
            };
        } else if target.to < msg.node_id && cur != self.sectors.len() - 1 {
            proof {
                lemma_containing_in_skip(*self, msg.node_id);
            }
            let hi: usize = match self.get_sector_containing(msg.node_id) {
                Some(h) => h,
                None => unreached(),
            };
            let ghost snap = self.sectors@;
            let ghost st0 = self.state;
            let n: usize = self.sectors.len();
            let mut i: usize = cur;
            while i <= hi
                invariant
                    cur <= i <= hi + 1,
                    cur <= hi < n,
                    n == self.sectors@.len(),
                    n == snap.len(),
                    self.state == st0,
                    self.nodes@ == old(self).nodes@,
                    self.current_sector == cur,
                    forall|k: int|
                        0 <= k < n ==> #[trigger] self.sectors@[k] == (if cur <= k < i {
                            Sector {
                                from: snap[k].from,
                                to: snap[k].to,
                                state: SectorState::Invalidated,
                            }
                        } else {
                            snap[k]
                        }),
                decreases hi + 1 - i,
            {
                let t: Sector = self.sectors[i];
                self.sectors[i] = Sector {
                    from: t.from,
                    to: t.to,
                    state: SectorState::Invalidated,
                };
                i += 1;
            }
            proof {
                assert(self.sectors@ =~= spec_invalidate(snap, cur as int, hi as int));
            }
        } else {
            return self.state;
        }
        proof {
            lemma_first_incomplete_props(self.sectors@, cur + 1);
        }
        match self.get_next_sector() {
            None => {
                let start: TimeStamp = match self.state {
                    SplitState::Running(t) => t,
                    _ => unreached(),
                };
                self.state = SplitState::Completed(start, msg.get_stamp());
            },
            Some(j) => {
                self.current_sector = j;
            },
        }
        proof {
            assert(final(self).sectors@ =~= spec_step(*old(self), msg).0);
        }
        self.state
    }

    /// Finds the index of the next incomplete sector after the current
    /// one, or `None` when none is left.
    fn get_next_sector(&self) -> (r: Option<usize>)
        requires
            self.current_sector < self.sectors@.len(),
        ensures
            spec_first_incomplete_from(self.sectors@, self.current_sector + 1) == (match r {
                Some(j) => Some(j as int),
                None => None::<int>,
            }),
    {
        let n: usize = self.sectors.len();
        let mut i: usize = self.current_sector + 1;
        while i < n
            invariant
                self.current_sector + 1 <= i <= n,
                n == self.sectors@.len(),
                spec_first_incomplete_from(self.sectors@, self.current_sector + 1)
                    == spec_first_incomplete_from(self.sectors@, i as int),
            decreases n - i,
        {
            if self.sectors[i].state.is_incomplete() {
                return Some(i);
            }
            i += 1;
        }
        None
    }

    /// Converts the absolute stamps in the sectors to time spent in
    /// each sector.
    ///
    /// The returned vector holds, in order, the span of each completed
    /// sector measured from the last completed sector before it (or
    /// from the lap's start), and `None` for incomplete or invalidated
    /// sectors, for a lap not yet started, and where the publisher's
    /// clock ran backwards.
    pub fn get_sector_times(&self) -> (r: Vec<Option<TimeSpan>>)
        ensures
            r@ == spec_lap_times(*self),
    {
        let n: usize = self.sectors.len();
        let mut r: Vec<Option<TimeSpan>> = Vec::new();
        if self.state.is_not_started() {
            let mut i: usize = 0;
            while i < n
                invariant
                    0 <= i <= n,
                    r@.len() == i,
                    forall|k: int| 0 <= k < i ==> r@[k] is None,
                decreases n - i,
            {
                r.push(None);
                i += 1;
            }
            proof {
                assert(r@ =~= spec_lap_times(*self));
            }
            return r;
        }
        let start: TimeStamp = match self.state {
            SplitState::Running(t) => t,
            SplitState::Completed(t, _) => t,
            SplitState::NotStarted => unreached(),
        };
        let mut anchor: TimeStamp = start;
        let mut i: usize = 0;
        while i < n
            invariant
                0 <= i <= n,
                n == self.sectors@.len(),
                !(self.state is NotStarted),
                start == spec_start_of(self.state),
                anchor == spec_anchor(self.sectors@, start, i as int),
                r@.len() == i,
                forall|k: int| 0 <= k < i ==> r@[k] == spec_lap_times(*self)[k],
            decreases n - i,
        {
            match self.sectors[i].state {
                SectorState::Complete(t) => {
                    r.push(t.duration_since(&anchor));
                    anchor = t;
                },
                _ => {
                    r.push(None);
                },
            }
            i += 1;
        }
        proof {
            assert(r@ =~= spec_lap_times(*self));
        }
        r
    }

    /// Gets the total lap time: `None` while the lap is not complete,
    /// or when the end stamp lies before the start.
    pub fn get_total_time(&self) -> (r: Option<TimeSpan>)
        ensures
            r == (match self.state {
                SplitState::Completed(s, e) => spec_duration_since(e, s),
                _ => None::<TimeSpan>,
            }),
    {
        match self.state {
            SplitState::Completed(start, end) => end.duration_since(&start),
            _ => None,
        }
    }

    /// Gets the per-sector millisecond diffs against a previous lap:
    /// this lap's sector time minus the other's, sector by sector.
    ///
    /// The vector always has as many entries as this lap has sectors,
    /// whatever the other lap's length; an entry is `None` wherever
    /// either lap lacks a time for that sector.  A difference beyond
    /// the `i32` range wraps.
    pub fn get_diffs(&self, last: &Splits) -> (r: Vec<Option<i32>>)
        ensures
            r@.len() == self.sectors@.len(),
            forall|i: int|
                0 <= i < r@.len() ==> ((#[trigger] r@[i]) is Some <==> spec_diff_at(
                    spec_lap_times(*self),
                    spec_lap_times(*last),
                    i,
                ) is Some),
            forall|i: int|
                0 <= i < r@.len() ==> (match spec_diff_at(
                    spec_lap_times(*self),
                    spec_lap_times(*last),
                    i,
                ) {
                    Some(d) => i32::MIN <= d <= i32::MAX ==> (#[trigger] r@[i]) == Some(d as i32),
                    None => r@[i] is None,
                }),
    {
        let ours = self.get_sector_times();
        let theirs = last.get_sector_times();
        let n: usize = ours.len();
        let m: usize = theirs.len();
        let mut r: Vec<Option<i32>> = Vec::new();
        let mut i: usize = 0;
        while i < n
            invariant
                0 <= i <= n,
                n == spec_lap_times(*self).len(),
                m == spec_lap_times(*last).len(),
                ours@ == spec_lap_times(*self),
                theirs@ == spec_lap_times(*last),
                r@.len() == i,
                forall|k: int|
                    0 <= k < i ==> ((#[trigger] r@[k]) is Some <==> spec_diff_at(
                        ours@,
                        theirs@,
                        k,
                    ) is Some),
                forall|k: int|
                    0 <= k < i ==> (match spec_diff_at(ours@, theirs@, k) {
                        Some(d) => i32::MIN <= d <= i32::MAX ==> (#[trigger] r@[k]) == Some(
                        d as i32),
                        None => r@[k] is None,
                    }),
            decreases n - i,
        {
            let entry: Option<i32> = if i < m {
                match (ours[i], theirs[i]) {
                    (Some(a), Some(b)) => Some(diff_millis_i32(a, b)),
                    _ => None,
                }
            } else {
                None
            };
            r.push(entry);
            i += 1;
        }
        r
    }

    /// Formats the passed span as `m:ss.mmm`: minutes, zero-padded
    /// seconds below a minute, and the millisecond fraction.
    pub fn format_time(t: &TimeSpan) -> (r: String)
        ensures
            r@ == crate::timing::spec_format_time(*t),
    {
        crate::timing::format_time(t)
    }

    /// Formats a millisecond diff as a signed decimal number of
    /// seconds, trailing zeros dropped.
    pub fn format_diff(diff: &i32) -> (r: String)
        ensures
            r@ == spec_format_diff(*diff as int),
    {
        let mut s = String::new();
        if *diff < 0 {
            proof {
                reveal_strlit("-");
                assert("-"@ =~= seq!['-']);
            }
            s.append("-");
        } else {
            proof {
                reveal_strlit("+");
                assert("+"@ =~= seq!['+']);
            }
            s.append("+");
        }
        let a: u64 = if *diff < 0 {
            (-(*diff as i64)) as u64
        } else {
            *diff as u64
        };
        push_dec(&mut s, a / 1000);
        let f: u64 = a % 1000;
        if f != 0 {
            proof {
                reveal_strlit(".");
                assert("."@ =~= seq!['.']);
            }
            s.append(".");
            if f % 10 != 0 {
                push_dec(&mut s, f / 100);
                push_dec(&mut s, (f / 10) % 10);
                push_dec(&mut s, f % 10);
            } else if (f / 10) % 10 != 0 {
                push_dec(&mut s, f / 100);
                push_dec(&mut s, (f / 10) % 10);
            } else {
                push_dec(&mut s, f / 100);
            }
        }
        proof {
            assert(s@ =~= spec_format_diff(*diff as int));
        }
        s
    }

    /// Finds the index of the sector whose end gate is `node`, if any.
    pub fn get_sector_containing(&self, node: u16) -> (r: Option<usize>)
        ensures
            spec_first_to_from(self.sectors@, node, 0) == (match r {
                Some(h) => Some(h as int),
                None => None::<int>,
            }),
    {
        let n: usize = self.sectors.len();
        let mut i: usize = 0;
        while i < n
            invariant
                0 <= i <= n,
                n == self.sectors@.len(),
                spec_first_to_from(self.sectors@, node, 0) == spec_first_to_from(
                    self.sectors@,
                    node,
                    i as int,
                ),
            decreases n - i,
        {
            if self.sectors[i].to == node {
                return Some(i);
            }
            i += 1;
        }
        None
    }
}

/// Whether `v` holds `node`.
fn contains_node(v: &Vec<u16>, node: u16) -> (r: bool)
    ensures
        r == v@.contains(node),
{
    let n: usize = v.len();
    let mut i: usize = 0;
    while i < n
        invariant
            0 <= i <= n,
            n == v@.len(),
            forall|j: int| 0 <= j < i ==> v@[j] != node,
        decreases n - i,
    {
        if v[i] == node {
            return true;
        }
        i += 1;
    }
    false
}

/// The first sector at or after `i` whose end gate is `node`.
pub open spec fn spec_first_to_from(s: Seq<Sector>, node: u16, i: int) -> Option<int>
    decreases s.len() - i,
    when 0 <= i <= s.len()
{
    if i >= s.len() {
        None
    } else if s[i].to == node {
        Some(i)
    } else {
        spec_first_to_from(s, node, i + 1)
    }
}

/// The first sector at or after `i` that is still incomplete.
pub open spec fn spec_first_incomplete_from(s: Seq<Sector>, i: int) -> Option<int>
    decreases s.len() - i,
    when 0 <= i <= s.len()
{
    if i >= s.len() {
        None
    } else if s[i].state is Incomplete {
        Some(i)
    } else {
        spec_first_incomplete_from(s, i + 1)
    }
}

/// The sectors of `s` with those from `lo` through `hi` invalidated.
pub open spec fn spec_invalidate(s: Seq<Sector>, lo: int, hi: int) -> Seq<Sector> {
    Seq::new(
        s.len(),
        |i: int|
            if lo <= i <= hi {
                Sector { from: s[i].from, to: s[i].to, state: SectorState::Invalidated }
            } else {
                s[i]
            },
    )
}

/// The stamp a started lap started at.
pub open spec fn spec_start_of(st: SplitState) -> TimeStamp
    recommends
        st is Running || st is Completed,
{
    match st {
        SplitState::Running(t) => t,
        SplitState::Completed(t, _) => t,
        SplitState::NotStarted => arbitrary(),
    }
}

/// After the current sector was resolved, the lap moves to the next
/// incomplete sector, or completes at `stamp` when none is left.
pub open spec fn spec_advance(
    sectors: Seq<Sector>,
    state: SplitState,
    cur: int,
    stamp: TimeStamp,
) -> (Seq<Sector>, SplitState, int) {
    match spec_first_incomplete_from(sectors, cur + 1) {
        None => (sectors, SplitState::Completed(spec_start_of(state), stamp), cur),
        Some(j) => (sectors, state, j),
    }
}

/// The components of lap `s` after handling one detection.
pub open spec fn spec_step(s: Splits, msg: DetectionMessage) -> (Seq<Sector>, SplitState, int) {
    spec_handle_trigger(s.nodes@, s.sectors@, s.state, s.current_sector as int, msg)
}

/// The lap components after handling one detection: the policy of
/// [`Splits::handle_node_trigger`] over the mathematical model.
pub open spec fn spec_handle_trigger(
    nodes: Seq<u16>,
    sectors: Seq<Sector>,
    state: SplitState,
    cur: int,
    msg: DetectionMessage,
) -> (Seq<Sector>, SplitState, int) {
    if state is Completed {
        (sectors, state, cur)
    } else if !nodes.contains(msg.node_id) {
        (sectors, state, cur)
    } else if state is NotStarted {
        if sectors.len() > 0 && sectors[0].from == msg.node_id {
            (sectors, SplitState::Running(msg.spec_stamp()), cur)
        } else {
            (sectors, state, cur)
        }
    } else {
        let target = sectors[cur];
        if target.to == msg.node_id {
            let updated = sectors.update(
                cur,
                Sector {
                    from: target.from,
                    to: target.to,
                    state: SectorState::Complete(msg.spec_stamp()),
                },
            );
            spec_advance(updated, state, cur, msg.spec_stamp())
        } else if target.to < msg.node_id && cur != sectors.len() - 1 {
            match spec_first_to_from(sectors, msg.node_id, 0) {
                Some(hi) => spec_advance(
                    spec_invalidate(sectors, cur, hi),
                    state,
                    cur,
                    msg.spec_stamp(),
                ),
                // cannot arise for a well-formed lap: every known gate
                // ends some sector
                None => (sectors, state, cur),
            }
        } else {
            (sectors, state, cur)
        }
    }
}

/// The stamp sector `i`'s duration is measured from: the stamp of the
/// last completed sector before it, or the lap's start.
pub open spec fn spec_anchor(sectors: Seq<Sector>, start: TimeStamp, i: int) -> TimeStamp
    decreases i,
    when i >= 0
{
    if i <= 0 {
        start
    } else {
        match sectors[i - 1].state {
            SectorState::Complete(t) => t,
            _ => spec_anchor(sectors, start, i - 1),
        }
    }
}

/// The timing view of a lap: per sector, the span from its anchor to
/// its completion stamp, or `None` where no time is available.
pub open spec fn spec_lap_times(s: Splits) -> Seq<Option<TimeSpan>> {
    Seq::new(
        s.sectors@.len(),
        |i: int|
            if s.state is NotStarted {
                None
            } else {
                match s.sectors@[i].state {
                    SectorState::Complete(t) => spec_duration_since(
                        t,
                        spec_anchor(s.sectors@, spec_start_of(s.state), i),
                    ),
                    _ => None,
                }
            },
    )
}

/// The millisecond difference of two laps at sector `i`, as an
/// unbounded integer: present exactly when both laps have a time
/// there.
pub open spec fn spec_diff_at(
    ours: Seq<Option<TimeSpan>>,
    theirs: Seq<Option<TimeSpan>>,
    i: int,
) -> Option<int> {
    if 0 <= i < ours.len() && i < theirs.len() {
        match (ours[i], theirs[i]) {
            (Some(a), Some(b)) => Some(a.spec_millis() - b.spec_millis()),
            _ => None,
        }
    } else {
        None
    }
}

/// The millisecond difference `a - b`, wrapped into `i32`.
fn diff_millis_i32(a: TimeSpan, b: TimeSpan) -> (r: i32)
    ensures
        i32::MIN <= a.spec_millis() - b.spec_millis() <= i32::MAX ==> r as int == a.spec_millis()
            - b.spec_millis(),
{
    let am: u128 = a.as_millis();
    let bm: u128 = b.as_millis();
    let d: i128 = am as i128 - bm as i128;
    if -2147483648 <= d && d <= 2147483647 {
        d as i32
    } else {
        #[verifier::truncate] (d as i32)
    }
}

/// One to three digits of a millisecond fraction, trailing zeros
/// dropped.
pub open spec fn spec_frac3(f: nat) -> Seq<char>
    recommends
        0 < f < 1000,
{
    let d1 = spec_digit((f / 100) as int);
    let d2 = spec_digit((f / 10 % 10) as int);
    let d3 = spec_digit((f % 10) as int);
    if f % 10 != 0 {
        seq![d1, d2, d3]
    } else if f / 10 % 10 != 0 {
        seq![d1, d2]
    } else {
        seq![d1]
    }
}

/// Rendering of a millisecond diff as a signed decimal number of
/// seconds.
pub open spec fn spec_format_diff(d: int) -> Seq<char> {
    let sign: Seq<char> = if d < 0 {
        seq!['-']
    } else {
        seq!['+']
    };
    let a = (if d < 0 {
        -d
    } else {
        d
    }) as nat;
    if a % 1000 == 0 {
        sign + spec_dec(a / 1000)
    } else {
        sign + spec_dec(a / 1000) + seq!['.'] + spec_frac3(a % 1000)
    }
}

/// Sector generation law: `k` ascending nodes yield `k` sectors (none
/// for an empty node set); the first `k - 1` run between adjacent
/// nodes, strictly ascending in both gates, and the last wraps from
/// the highest node back to the lowest.
pub proof fn lemma_sector_generation(nodes: Seq<u16>)
    requires
        sorted_strict(nodes),
    ensures
        spec_gen_sectors(nodes).len() == nodes.len(),
        forall|i: int|
            0 <= i < nodes.len() - 1 ==> #[trigger] spec_gen_sectors(nodes)[i] == (Sector {
                from: nodes[i],
                to: nodes[i + 1],
                state: SectorState::Incomplete,
            }),
        nodes.len() >= 1 ==> spec_gen_sectors(nodes)[nodes.len() - 1] == (Sector {
            from: nodes[nodes.len() - 1],
            to: nodes[0],
            state: SectorState::Incomplete,
        }),
        forall|i: int, j: int|
            0 <= i < j < nodes.len() - 1 ==> (#[trigger] spec_gen_sectors(nodes)[i]).from < (
            #[trigger] spec_gen_sectors(nodes)[j]).from && spec_gen_sectors(nodes)[i].to
                < spec_gen_sectors(nodes)[j].to,
{
}

/// Stale-trigger law: while the lap runs, a trigger from a gate whose
/// sector lies behind the current one changes nothing, however often
/// it is repeated.
pub proof fn lemma_stale_trigger_ignored(s: Splits, msg: DetectionMessage, k: int)
    requires
        s.wf(),
        s.state is Running,
        0 <= k < s.current_sector,
        s.sectors@[k].to == msg.node_id,
    ensures
        spec_step(s, msg) == (s.sectors@, s.state, s.current_sector as int),
{
    let sectors = s.sectors@;
    let nodes = s.nodes@;
    let cur = s.current_sector as int;
    let len = sectors.len() as int;
    assert(k < len - 1);
    assert(sectors[k].to == nodes[k + 1]);
    assert(nodes[k + 1] == msg.node_id);
    assert(nodes.contains(msg.node_id));
    if cur == len - 1 {
        assert(sectors[cur].to == nodes[0]);
        assert(nodes[0] < nodes[k + 1]);
    } else {
        assert(sectors[cur].to == nodes[cur + 1]);
        assert(nodes[k + 1] < nodes[cur + 1]);
    }
}

/// Characterizes the first-matching-end-gate search.
proof fn lemma_first_to_from_props(s: Seq<Sector>, node: u16, i: int)
    requires
        0 <= i <= s.len(),
    ensures
        match spec_first_to_from(s, node, i) {
            None => forall|j: int| i <= j < s.len() ==> (#[trigger] s[j]).to != node,
            Some(j) => i <= j < s.len() && s[j].to == node && (forall|k: int|
                i <= k < j ==> (#[trigger] s[k]).to != node),
        },
    decreases s.len() - i,
{
    if i < s.len() && s[i].to != node {
        lemma_first_to_from_props(s, node, i + 1);
    }
}

/// Characterizes the next-incomplete-sector search.
proof fn lemma_first_incomplete_props(s: Seq<Sector>, i: int)
    requires
        0 <= i <= s.len(),
    ensures
        match spec_first_incomplete_from(s, i) {
            None => forall|j: int| i <= j < s.len() ==> !((#[trigger] s[j]).state is Incomplete),
            Some(j) => i <= j < s.len() && s[j].state is Incomplete,
        },
    decreases s.len() - i,
{
    if i < s.len() && !(s[i].state is Incomplete) {
        lemma_first_incomplete_props(s, i + 1);
    }
}

/// In a well-formed running lap whose current sector is not the wrap
/// sector, a known gate beyond the expected one ends a sector strictly
/// between the current one and the wrap sector.
proof fn lemma_containing_in_skip(s: Splits, node: u16)
    requires
        s.wf(),
        s.nodes@.contains(node),
        !(s.state is NotStarted),
        s.current_sector as int != s.sectors@.len() - 1,
        s.sectors@[s.current_sector as int].to < node,
    ensures
        match spec_first_to_from(s.sectors@, node, 0) {
            Some(h) => s.current_sector < h < s.sectors@.len() - 1,
            None => false,
        },
{
    let sectors = s.sectors@;
    let nodes = s.nodes@;
    let cur = s.current_sector as int;
    let len = sectors.len() as int;
    let m = choose|m: int| 0 <= m < nodes.len() && nodes[m] == node;
    assert(sectors[cur].to == nodes[cur + 1]);
    assert(nodes[cur + 1] < nodes[m]);
    assert(m > cur + 1);
    assert(sectors[m - 1].to == node);
    lemma_first_to_from_props(sectors, node, 0);
    match spec_first_to_from(sectors, node, 0) {
        Some(h) => {
            if h == len - 1 {
                assert(sectors[h].to == nodes[0]);
                assert(nodes[0] <= nodes[cur + 1]);
                assert(false);
            } else {
                assert(sectors[h].to == nodes[h + 1]);
                assert(nodes[h + 1] == nodes[m]);
                assert(h + 1 == m);
            }
        },
        None => {
            assert(sectors[m - 1].to == node);
            assert(false);
        },
    }
}



/// Copies a set of node ids into an ascending vector.
fn set_to_sorted_vec(s: &BTreeSet<u16>) -> (v: Vec<u16>)
    ensures
        sorted_strict(v@),
        v@.to_set() == s@,
        v@.len() == s@.len(),
{
    broadcast use vstd::std_specs::btree::group_btree_axioms;
    broadcast use vstd::laws_cmp::group_laws_cmp;

    let mut v: Vec<u16> = Vec::new();
    for x in it: s.iter()
        invariant
            it.seq() == vstd::std_specs::btree::spec_btree_keys_iter(s).remaining(),
            sorted_strict(v@),
            forall|e: u16|
                v@.contains(e) <==> (exists|k: int|
                    0 <= k < it.index() && *(#[trigger] it.seq()[k]) == e),
    {
        proof {
            assert(*x == *it.seq()[it.index() as int]);
        }
        insert_sorted(&mut v, *x);
        proof {
            let idx = it.index() as int;
            let sq = it.seq();
            assert forall|e: u16| v@.contains(e) implies (exists|k: int|
                0 <= k <= idx && *(#[trigger] sq[k]) == e) by {
                assert(v@.to_set().contains(e));
            }
            assert forall|e: u16|
                (exists|k: int| 0 <= k <= idx && *(#[trigger] sq[k]) == e) implies v@.contains(
                e,
            ) by {
                let k = choose|k: int| 0 <= k <= idx && *(#[trigger] sq[k]) == e;
                assert(v@.to_set().contains(e));
            }
        }
    }
    proof {
        let keys = vstd::std_specs::btree::spec_btree_keys_iter(s).remaining();
        assert(keys.unref().to_set() == s@);
        assert(forall|e: u16|
            v@.contains(e) <==> (exists|k: int| 0 <= k < keys.len() && *(#[trigger] keys[k]) == e));
        assert forall|e: u16| v@.to_set().contains(e) <==> s@.contains(e) by {
            if v@.contains(e) {
                let k = choose|k: int| 0 <= k < keys.len() && *(#[trigger] keys[k]) == e;
                assert(keys.unref()[k] == e);
                assert(keys.unref().contains(e));
            }
            if s@.contains(e) {
                assert(keys.unref().contains(e));
                let k = choose|k: int| 0 <= k < keys.unref().len() && keys.unref()[k] == e;
                assert(*keys[k] == e);
            }
        }
        assert(v@.to_set() =~= s@);
        assert(v@.no_duplicates()) by {
            assert(forall|i: int, j: int|
                0 <= i < j < v@.len() ==> #[trigger] v@[i] != #[trigger] v@[j]);
        }
        v@.unique_seq_to_set();
    }
    v
}

/// Inserts a node id into an ascending vector, keeping it ascending;
/// an id already present is left alone.
fn insert_sorted(v: &mut Vec<u16>, x: u16)
    requires
        sorted_strict(old(v)@),
    ensures
        sorted_strict(final(v)@),
        final(v)@.to_set() == old(v)@.to_set().insert(x),
{
    let n: usize = v.len();
    let mut i: usize = 0;
    while i < n && v[i] < x
        invariant
            0 <= i <= n,
            n == v@.len(),
            sorted_strict(v@),
            v@ == old(v)@,
            forall|j: int| 0 <= j < i ==> v@[j] < x,
        decreases n - i,
    {
        i += 1;
    }
    if i < n && v[i] == x {
        proof {
            assert(v@.to_set() =~= old(v)@.to_set().insert(x));
        }
        return ;
    }
    v.insert(i, x);
    proof {
        let oldv = old(v)@;
        let newv = final(v)@;
        let ii = i as int;
        assert(forall|j: int| 0 <= j < ii ==> newv[j] == oldv[j]);
        assert(newv[ii] == x);
        assert(forall|j: int| ii < j < newv.len() ==> newv[j] == oldv[j - 1]);
        assert forall|j: int| ii <= j < oldv.len() implies oldv[j] > x by {
            if j > ii {
                assert(oldv[ii] < oldv[j]);
            }
        }
        assert forall|a: int, b: int| 0 <= a < b < newv.len() implies newv[a] < newv[b] by {
            if b < ii {
            } else if a < ii && b == ii {
                assert(newv[a] == oldv[a]);
            } else if a == ii {
                assert(newv[b] == oldv[b - 1]);
            } else if a > ii {
                assert(newv[a] == oldv[a - 1] && newv[b] == oldv[b - 1]);
            } else {
                assert(newv[a] == oldv[a] && newv[b] == oldv[b - 1] && ii <= b - 1);
            }
        }
        assert forall|e: u16| newv.to_set().contains(e) implies oldv.to_set().insert(
            x,
        ).contains(e) by {
            let k = choose|k: int| 0 <= k < newv.len() && newv[k] == e;
            if k < ii {
                assert(oldv[k] == e);
            } else if k > ii {
                assert(oldv[k - 1] == e);
            }
        }
        assert forall|e: u16| oldv.to_set().insert(x).contains(e) implies newv.to_set().contains(
            e,
        ) by {
            if e == x {
                assert(newv[ii] == e);
            } else {
                let k = choose|k: int| 0 <= k < oldv.len() && oldv[k] == e;
                if k < ii {
                    assert(newv[k] == e);
                } else {
                    assert(newv[k + 1] == e);
                }
            }
        }
        assert(newv.to_set() =~= oldv.to_set().insert(x));
    }
}

/// Removes a node id from an ascending vector, keeping it ascending; an
/// id not present is left alone.
fn remove_sorted(v: &mut Vec<u16>, x: u16)
    requires
        sorted_strict(old(v)@),
    ensures
        sorted_strict(final(v)@),
        final(v)@.to_set() == old(v)@.to_set().remove(x),
{
    let n: usize = v.len();
    let mut i: usize = 0;
    while i < n && v[i] < x
        invariant
            0 <= i <= n,
            n == v@.len(),
            sorted_strict(v@),
            v@ == old(v)@,
            forall|j: int| 0 <= j < i ==> v@[j] < x,
        decreases n - i,
    {
        i += 1;
    }
    if i < n && v[i] == x {
        v.remove(i);
        proof {
            let oldv = old(v)@;
            let newv = final(v)@;
            let ii = i as int;
            assert(forall|j: int| 0 <= j < ii ==> newv[j] == oldv[j]);
            assert(forall|j: int| ii <= j < newv.len() ==> newv[j] == oldv[j + 1]);
            assert forall|a: int, b: int| 0 <= a < b < newv.len() implies newv[a] < newv[b] by {
                if a >= ii {
                    assert(newv[a] == oldv[a + 1] && newv[b] == oldv[b + 1]);
                } else if b >= ii {
                    assert(newv[a] == oldv[a] && newv[b] == oldv[b + 1]);
                }
            }
            assert forall|e: u16| newv.to_set().contains(e) implies oldv.to_set().remove(
                x,
            ).contains(e) by {
                let k = choose|k: int| 0 <= k < newv.len() && newv[k] == e;
                if k < ii {
                    assert(oldv[k] == e);
                    assert(oldv[k] < oldv[ii]);
                } else {
                    assert(oldv[k + 1] == e);
                    assert(oldv[ii] < oldv[k + 1]);
                }
            }
            assert forall|e: u16| oldv.to_set().remove(x).contains(e) implies newv.to_set(
            ).contains(e) by {
                let k = choose|k: int| 0 <= k < oldv.len() && oldv[k] == e;
                if k < ii {
                    assert(newv[k] == e);
                } else {
                    assert(k != ii);
                    assert(newv[k - 1] == e);
                }
            }
            assert(newv.to_set() =~= oldv.to_set().remove(x));
        }
    } else {
        proof {
            assert forall|j: int| 0 <= j < v@.len() implies v@[j] != x by {
                if j < i {
                } else if j > i && i < n {
                    assert(v@[i as int] < v@[j]);
                }
            }
            assert(!v@.to_set().contains(x));
            assert(v@.to_set() =~= old(v)@.to_set().remove(x));
        }
    }
}

} // verus!
