//! Fixed-depth rolling histories of samples.

use vstd::prelude::*;
use crate::path::{count_char, fill_path, generate_svg_paths, lemma_segment_count, line_path};

verus! {

/// Depth of every history: one sample per horizontal step of the graph.
pub const HISTORY_LEN: usize = 100;

/// The window that a run of ticks leaves: `h` after each value of `vals` has
/// been pushed in turn.
pub open spec fn after_ticks(h: Seq<u64>, vals: Seq<u64>) -> Seq<u64>
    decreases vals.len(),
{
    if vals.len() == 0 {
        h
    } else {
        after_ticks(h, vals.drop_last()).skip(1).push(vals.last())
    }
}

/// A rolling window of exactly `HISTORY_LEN` samples, oldest first.
pub struct HistoryBuffer {
    samples: Vec<u64>,
}

impl View for HistoryBuffer {
    type V = Seq<u64>;

    closed spec fn view(&self) -> Seq<u64> {
        self.samples@
    }
}

impl HistoryBuffer {
    pub open spec fn wf(&self) -> bool {
        self@.len() == HISTORY_LEN
    }

    /// A history filled with zeros.
    pub fn new() -> (r: Self)
        ensures
            r.wf(),
            r@ == Seq::new(HISTORY_LEN as nat, |i: int| 0u64),
    {
        let mut samples: Vec<u64> = Vec::new();
        let mut i: usize = 0;
        while i < HISTORY_LEN
            invariant
                i <= HISTORY_LEN,
                samples@ == Seq::new(i as nat, |j: int| 0u64),
            decreases HISTORY_LEN - i,
        {
            samples.push(0);
            i += 1;
            assert(samples@ =~= Seq::new(i as nat, |j: int| 0u64));
        }
        HistoryBuffer { samples }
    }

    /// One tick: the oldest sample leaves and `v` enters at the end.
    pub fn push(&mut self, v: u64)
        requires
            old(self).wf(),
        ensures
            final(self).wf(),
            final(self)@ == old(self)@.skip(1).push(v),
    {
        self.samples.remove(0);
        self.samples.push(v);
        assert(self@ =~= old(self)@.skip(1).push(v));
    }

    /// The newest sample.
    pub fn last(&self) -> (r: u64)
        requires
            self.wf(),
        ensures
            r == self@.last(),
    {
        self.samples[HISTORY_LEN - 1]
    }

    /// The samples, oldest first.
    pub fn samples(&self) -> (r: &[u64])
        ensures
            r@ == self@,
    {
        self.samples.as_slice()
    }

    /// The line and fill paths of this history.
    pub fn paths(&self) -> (r: (String, String))
        ensures
            r.0@ == line_path(self@),
            r.1@ == fill_path(self@),
    {
        generate_svg_paths(self.samples.as_slice())
    }
}

/// However long the run, a history keeps exactly `HISTORY_LEN` samples, and
/// they are the last `HISTORY_LEN` values of everything it has seen, in order.
pub proof fn lemma_run_keeps_window(h: Seq<u64>, vals: Seq<u64>)
    requires
        h.len() == HISTORY_LEN,
    ensures
        after_ticks(h, vals).len() == HISTORY_LEN,
        after_ticks(h, vals) == (h + vals).subrange(
            vals.len() as int,
            vals.len() + HISTORY_LEN,
        ),
    decreases vals.len(),
{
    if vals.len() > 0 {
        let k = vals.len() - 1;
        lemma_run_keeps_window(h, vals.drop_last());
        assert((h + vals.drop_last()) =~= (h + vals).subrange(0, h.len() + k));
        assert(after_ticks(h, vals) =~= (h + vals).subrange(
            vals.len() as int,
            vals.len() + HISTORY_LEN,
        ));
    }
}

/// After any run of ticks, the line of a history draws `HISTORY_LEN - 1`
/// segments and its fill `HISTORY_LEN + 1`.
pub proof fn lemma_run_segments(h: Seq<u64>, vals: Seq<u64>)
    requires
        h.len() == HISTORY_LEN,
    ensures
        count_char(line_path(after_ticks(h, vals)), 'L') == HISTORY_LEN - 1,
        count_char(fill_path(after_ticks(h, vals)), 'L') == HISTORY_LEN + 1,
{
    lemma_run_keeps_window(h, vals);
    lemma_segment_count(after_ticks(h, vals));
}

} // verus!
