//! The names of the summaries that were recorded last, so that none is recorded
//! twice.
use std::collections::VecDeque;
use vstd::prelude::*;

verus! {

/// How many names are kept, so that they do not pile up in a long run.
pub const EMITTED_SUMMARY_ID_LIMIT: usize = 10_000;

/// The names of the summaries that were recorded last, the oldest first.
#[derive(Debug)]
pub struct RecordedSummaries {
    pub ids: VecDeque<String>,
}

impl View for RecordedSummaries {
    type V = Seq<Seq<char>>;

    open spec fn view(&self) -> Seq<Seq<char>> {
        self.ids@.map_values(|id: String| id@)
    }
}

/// Whether no name occurs twice, and no more are kept than the limit says.
pub open spec fn recorded_wf(ids: Seq<Seq<char>>) -> bool {
    ids.no_duplicates() && ids.len() <= EMITTED_SUMMARY_ID_LIMIT
}

/// The names with one more; the oldest goes where the limit is passed.
pub open spec fn remembered(ids: Seq<Seq<char>>, id: Seq<char>) -> Seq<Seq<char>> {
    if ids.contains(id) {
        ids
    } else if ids.len() < EMITTED_SUMMARY_ID_LIMIT {
        ids.push(id)
    } else {
        ids.push(id).drop_first()
    }
}

impl RecordedSummaries {
    /// No names yet.
    pub fn new() -> (recorded: RecordedSummaries)
        ensures
            recorded@ == Seq::<Seq<char>>::empty(),
            recorded_wf(recorded@),
    {
        let recorded = RecordedSummaries { ids: VecDeque::new() };
        assert(recorded@ =~= Seq::<Seq<char>>::empty());
        recorded
    }

    /// Whether the name is among those kept.
    pub fn contains(&self, id: &String) -> (found: bool)
        ensures
            found == self@.contains(id@),
    {
        for i in 0..self.ids.len()
            invariant
                forall|j: int| 0 <= j < i ==> #[trigger] self@[j] != id@,
        {
            if self.ids[i] == *id {
                assert(self@[i as int] == id@);
                return true;
            }
        }
        false
    }

    /// Keeps the name, and lets the oldest go where the limit is passed.
    pub fn remember(&mut self, id: String)
        requires
            recorded_wf(old(self)@),
        ensures
            recorded_wf(final(self)@),
            final(self)@ == remembered(old(self)@, id@),
    {
        if self.contains(&id) {
            return;
        }
        let ghost before = self@;
        let ghost name = id@;
        self.ids.push_back(id);
        assert(self@ =~= before.push(name));
        while self.ids.len() > EMITTED_SUMMARY_ID_LIMIT
            invariant
                before.len() <= EMITTED_SUMMARY_ID_LIMIT,
                self@ == before.push(name) || (before.len() == EMITTED_SUMMARY_ID_LIMIT && self@
                    == before.push(name).drop_first()),
            decreases self.ids.len(),
        {
            let _ = self.ids.pop_front();
            assert(self@ =~= before.push(name).drop_first());
        }
    }
}

} // verus!
