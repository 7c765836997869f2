//! The statistics of all receivers of a virtual sound card, each found by the name of its
//! receiver and created on its receiver's first event.

use crate::monitoring::receiver_stats::{
    event_in_range, fresh_stats, lemma_processed_keeps_id, processed, ReceiverStats,
    ReceiverStatsOutput, ReceiverStatsView,
};
use crate::monitoring::RxStats;
use crate::text::str_eq;
use vstd::prelude::*;

verus! {

/// The position of the first statistics kept for the receiver `name`, or -1.
pub open spec fn position_of(views: Seq<ReceiverStatsView>, name: Seq<char>) -> int
    decreases views.len(),
{
    if views.len() == 0 {
        -1
    } else if views.last().id@ == name && position_of(views.drop_last(), name) < 0 {
        views.len() - 1
    } else {
        position_of(views.drop_last(), name)
    }
}

/// The statistics of the receiver `name`: those kept, or fresh ones.
pub open spec fn stats_of(views: Seq<ReceiverStatsView>, name: String) -> ReceiverStatsView {
    let i = position_of(views, name@);
    if i >= 0 {
        views[i]
    } else {
        fresh_stats(name)
    }
}

/// The statistics of every receiver that has reported something.
pub struct StatsTable {
    receivers: Vec<ReceiverStats>,
}

proof fn lemma_position_of(views: Seq<ReceiverStatsView>, name: Seq<char>)
    ensures
        -1 <= position_of(views, name) < views.len(),
        position_of(views, name) >= 0 ==> views[position_of(views, name)].id@ == name,
        position_of(views, name) >= 0 ==> forall|j: int|
            0 <= j < position_of(views, name) ==> views[j].id@ != name,
        position_of(views, name) < 0 ==> forall|j: int| 0 <= j < views.len() ==> views[j].id@ != name,
    decreases views.len(),
{
    if views.len() > 0 {
        let d = views.drop_last();
        lemma_position_of(d, name);
        assert forall|j: int| 0 <= j < d.len() implies views[j] == d[j] by {}
    }
}

impl StatsTable {
    /// The statistics kept, in the order the receivers first reported.
    pub closed spec fn views(&self) -> Seq<ReceiverStatsView> {
        self.receivers@.map_values(|r: ReceiverStats| r@)
    }

    /// Every receiver's statistics are well formed and kept once.
    pub closed spec fn wf(&self) -> bool {
        &&& forall|i: int| 0 <= i < self.receivers@.len() ==> (#[trigger] self.receivers@[i]).wf()
        &&& forall|i: int, j: int|
            0 <= i < j < self.receivers@.len() ==> self.receivers@[i]@.id@
                != self.receivers@[j]@.id@
    }

    /// No statistics yet.
    pub fn new() -> (r: Self)
        ensures
            r.wf(),
            r.views() == Seq::<ReceiverStatsView>::empty(),
    {
        let r = StatsTable { receivers: Vec::new() };
        assert(r.views() =~= Seq::<ReceiverStatsView>::empty());
        r
    }

    /// Processes an event of the receiver `src` with its statistics (fresh ones on its first
    /// event); the statistics of the other receivers stay as they were.
    pub fn process_rx(&mut self, src: String, e: RxStats) -> (out: ReceiverStatsOutput)
        requires
            old(self).wf(),
            event_in_range(stats_of(old(self).views(), src), e),
        ensures
            final(self).wf(),
            processed(
                stats_of(old(self).views(), src),
                e,
                stats_of(final(self).views(), src),
                out,
            ),
            position_of(old(self).views(), src@) >= 0 ==> final(self).views().len()
                == old(self).views().len(),
            position_of(old(self).views(), src@) < 0 ==> final(self).views().len()
                == old(self).views().len() + 1,
            forall|j: int|
                0 <= j < old(self).views().len() && old(self).views()[j].id@ != src@ ==> (
                #[trigger] final(self).views()[j]) == old(self).views()[j],
    {
        let ghost before = self.views();
        proof {
            lemma_position_of(before, src@);
        }
        let found = self.find(&src);
        match found {
            Some(i) => {
                let mut stats = self.receivers.remove(i);
                let ghost s0 = stats@;
                assert(s0 == before[i as int]);
                let out = stats.process(e);
                proof {
                    lemma_processed_keeps_id(s0, e, stats@, out);
                }
                self.receivers.insert(i, stats);
                proof {
                    let after = self.views();
                    assert(after =~= before.update(i as int, stats@));
                    lemma_position_of(after, src@);
                    let p = position_of(after, src@);
                    if p < i {
                        assert(after[p] == before[p]);
                    } else if p > i {
                        assert(after[i as int].id@ == src@);
                    }
                    assert(p == i);
                    assert forall|j: int| 0 <= j < self.receivers@.len() implies (
                    #[trigger] self.receivers@[j]).wf() by {
                        if j != i {
                            assert(self.receivers@[j] == old(self).receivers@[j]);
                        }
                    }
                    assert forall|x: int, y: int|
                        0 <= x < y < self.receivers@.len() implies self.receivers@[x]@.id@
                        != self.receivers@[y]@.id@ by {
                        assert(self.receivers@[x]@.id == old(self).receivers@[x]@.id);
                        assert(self.receivers@[y]@.id == old(self).receivers@[y]@.id);
                    }
                }
                out
            },
            None => {
                let mut stats = ReceiverStats::new(src);
                let ghost s0 = stats@;
                let out = stats.process(e);
                proof {
                    lemma_processed_keeps_id(s0, e, stats@, out);
                }
                self.receivers.push(stats);
                proof {
                    let after = self.views();
                    assert(after =~= before.push(stats@));
                    assert(after.drop_last() =~= before);
                    assert forall|j: int| 0 <= j < self.receivers@.len() implies (
                    #[trigger] self.receivers@[j]).wf() by {
                        if j < before.len() {
                            assert(self.receivers@[j] == old(self).receivers@[j]);
                        }
                    }
                    assert forall|x: int, y: int|
                        0 <= x < y < self.receivers@.len() implies self.receivers@[x]@.id@
                        != self.receivers@[y]@.id@ by {
                        assert(self.receivers@[x] == old(self).receivers@[x]);
                        if y < before.len() {
                            assert(self.receivers@[y] == old(self).receivers@[y]);
                        } else {
                            assert(before[x].id@ != src@);
                        }
                    }
                }
                out
            },
        }
    }

    /// The statistics kept for the receiver `name`, if it has reported anything.
    pub fn receiver(&self, name: &String) -> (r: Option<&ReceiverStats>)
        requires
            self.wf(),
        ensures
            match r {
                Some(stats) => position_of(self.views(), name@) >= 0 && stats@ == self.views()[position_of(
                    self.views(),
                    name@,
                )] && stats.wf(),
                None => position_of(self.views(), name@) < 0,
            },
    {
        match self.find(name) {
            Some(i) => {
                proof {
                    lemma_position_of(self.views(), name@);
                    assert(self.receivers@[i as int]@ == self.views()[i as int]);
                }
                Some(&self.receivers[i])
            },
            None => None,
        }
    }

    /// The position of the statistics of the receiver `name`.
    fn find(&self, name: &String) -> (r: Option<usize>)
        requires
            self.wf(),
        ensures
            match r {
                Some(i) => i == position_of(self.views(), name@),
                None => position_of(self.views(), name@) < 0,
            },
    {
        let ghost views = self.views();
        proof {
            lemma_position_of(views, name@);
        }
        let mut i: usize = 0;
        while i < self.receivers.len()
            invariant
                i <= self.receivers@.len(),
                views == self.receivers@.map_values(|r: ReceiverStats| r@),
                forall|j: int| 0 <= j < i ==> self.receivers@[j]@.id@ != name@,
            decreases self.receivers@.len() - i,
        {
            if str_eq(self.receivers[i].id().as_str(), name.as_str()) {
                proof {
                    lemma_position_of(views, name@);
                    let p = position_of(views, name@);
                    assert(views[i as int].id@ == name@);
                    if p < 0 {
                        assert(views[i as int].id@ != name@);
                    } else if p < i {
                        assert(views[p].id@ == name@);
                    } else if p > i {
                        assert(views[i as int].id@ != name@);
                    }
                }
                return Some(i);
            }
            i = i + 1;
        }
        proof {
            let p = position_of(views, name@);
            if p >= 0 {
                assert(views[p].id@ == name@);
                assert(self.receivers@[p]@.id@ != name@);
            }
        }
        None
    }
}

} // verus!
