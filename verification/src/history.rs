//! Per-context byte history: the three most recently matched bytes of a
//! hashed context, ranked by recency, plus a state index that records how
//! the context has been matching.

use vstd::prelude::*;
use crate::matched::ByteMatched;

verus! {

/// One entry of the history-state schedule: the successor state for each
/// match outcome, and the run of consecutive first-rank matches that the
/// state stands for.
#[derive(Copy, Clone, PartialEq, Eq, Structural, Debug)]
pub struct HistoryState {
    pub first_count: u8,
    pub next_if_first: u8,
    pub next_if_second: u8,
    pub next_if_third: u8,
    pub next_if_miss: u8,
}

impl HistoryState {
    /// Builds an entry from its five fields.
    pub fn new(
        first_count: u8,
        next_if_first: u8,
        next_if_second: u8,
        next_if_third: u8,
        next_if_miss: u8,
    ) -> (r: Self)
        ensures
            r == (HistoryState {
                first_count,
                next_if_first,
                next_if_second,
                next_if_third,
                next_if_miss,
            }),
    {
        HistoryState { first_count, next_if_first, next_if_second, next_if_third, next_if_miss }
    }

    /// The successor state index for a given match outcome.
    pub open spec fn spec_next(self, matched: ByteMatched) -> u8 {
        match matched {
            ByteMatched::MatchFirst => self.next_if_first,
            ByteMatched::MatchSecond => self.next_if_second,
            ByteMatched::MatchThird => self.next_if_third,
            ByteMatched::NoMatch => self.next_if_miss,
        }
    }

    /// The successor state index for a given match outcome.
    pub fn next(&self, matched: ByteMatched) -> (r: usize)
        ensures
            r == self.spec_next(matched) as usize,
    {
        let next: u8 = match matched {
            ByteMatched::MatchFirst => self.next_if_first,
            ByteMatched::MatchSecond => self.next_if_second,
            ByteMatched::MatchThird => self.next_if_third,
            ByteMatched::NoMatch => self.next_if_miss,
        };
        next as usize
    }

    /// The run of consecutive first-rank matches this state stands for.
    pub fn match_count(&self) -> (r: usize)
        ensures
            r == self.first_count as usize,
    {
        self.first_count as usize
    }
}

/// The history-state schedule. State `s` stands for a run of `s`
/// consecutive first-rank matches: a further first-rank match advances the
/// run (saturating at 255), and any other outcome resets it to zero.
pub open spec fn spec_history_state(index: u8) -> HistoryState {
    HistoryState {
        first_count: index,
        next_if_first: if index < 255 { (index + 1) as u8 } else { 255 },
        next_if_second: 0,
        next_if_third: 0,
        next_if_miss: 0,
    }
}

/// The history-state schedule entry for a state index.
pub fn history_state(index: u8) -> (r: HistoryState)
    ensures
        r == spec_history_state(index),
{
    let next_first: u8 = if index < 255 { index + 1 } else { 255 };
    HistoryState::new(index, next_first, 0, 0, 0)
}

/// The ranked bytes of one context cell together with its state index.
#[derive(Copy, Clone, PartialEq, Eq, Structural, Debug)]
pub struct ByteHistory {
    pub first: u8,
    pub second: u8,
    pub third: u8,
    pub state: u8,
}

/// The all-zero cell every context starts from.
pub open spec fn spec_empty_history() -> ByteHistory {
    ByteHistory { first: 0, second: 0, third: 0, state: 0 }
}

impl Default for ByteHistory {
    /// The all-zero cell every context starts from.
    fn default() -> (r: Self)
        ensures
            r == spec_empty_history(),
    {
        ByteHistory { first: 0, second: 0, third: 0, state: 0 }
    }
}

/// How `next_byte` ranks against the cell: equal to the first, second or
/// third ranked byte, or none of them.
pub open spec fn spec_classify(h: ByteHistory, next_byte: u8) -> ByteMatched {
    if next_byte == h.first {
        ByteMatched::MatchFirst
    } else if next_byte == h.second {
        ByteMatched::MatchSecond
    } else if next_byte == h.third {
        ByteMatched::MatchThird
    } else {
        ByteMatched::NoMatch
    }
}

/// The cell after recording `next_byte` with outcome `matched`: a first
/// match keeps the ranking, a second match swaps the top two ranks, and a
/// third match or a miss pushes the byte in front of the top two; the
/// state index advances along the schedule.
pub open spec fn spec_updated(h: ByteHistory, next_byte: u8, matched: ByteMatched) -> ByteHistory {
    let state = spec_history_state(h.state).spec_next(matched);
    match matched {
        ByteMatched::MatchFirst => ByteHistory {
            first: h.first,
            second: h.second,
            third: h.third,
            state,
        },
        ByteMatched::MatchSecond => ByteHistory {
            first: next_byte,
            second: h.first,
            third: h.third,
            state,
        },
        ByteMatched::MatchThird => ByteHistory {
            first: next_byte,
            second: h.first,
            third: h.second,
            state,
        },
        ByteMatched::NoMatch => ByteHistory {
            first: next_byte,
            second: h.first,
            third: h.second,
            state,
        },
    }
}

impl ByteHistory {
    /// The most recently ranked byte.
    pub fn first_byte(self) -> (r: u8)
        ensures
            r == self.first,
    {
        self.first
    }

    /// The second ranked byte.
    pub fn second_byte(self) -> (r: u8)
        ensures
            r == self.second,
    {
        self.second
    }

    /// The third ranked byte.
    pub fn third_byte(self) -> (r: u8)
        ensures
            r == self.third,
    {
        self.third
    }

    /// The schedule entry of the cell's current state.
    pub fn state(self) -> (r: HistoryState)
        ensures
            r == spec_history_state(self.state),
    {
        history_state(self.state)
    }

    /// The run of consecutive first-rank matches the cell has seen.
    pub fn match_count(self) -> (r: usize)
        ensures
            r == spec_history_state(self.state).first_count as usize,
    {
        self.state().match_count()
    }

    /// Classifies `next_byte` against the cell and records it: the
    /// encoder-side update.
    pub fn matching(&mut self, next_byte: u8) -> (r: ByteMatched)
        ensures
            r == spec_classify(*old(self), next_byte),
            *final(self) == spec_updated(*old(self), next_byte, r),
    {
        let matched: ByteMatched = if next_byte == self.first {
            ByteMatched::MatchFirst
        } else if next_byte == self.second {
            ByteMatched::MatchSecond
        } else if next_byte == self.third {
            ByteMatched::MatchThird
        } else {
            ByteMatched::NoMatch
        };
        self.matched(next_byte, matched);
        matched
    }

    /// Records `next_byte` under an outcome supplied from outside: the
    /// decoder-side update. Replaying the outcome that `matching`
    /// classified produces the state `matching` produced.
    pub fn matched(&mut self, next_byte: u8, matched: ByteMatched)
        ensures
            *final(self) == spec_updated(*old(self), next_byte, matched),
    {
        match matched {
            ByteMatched::MatchFirst => {},
            ByteMatched::MatchSecond => {
                self.second = self.first;
                self.first = next_byte;
            },
            ByteMatched::MatchThird => {
                self.third = self.second;
                self.second = self.first;
                self.first = next_byte;
            },
            ByteMatched::NoMatch => {
                self.third = self.second;
                self.second = self.first;
                self.first = next_byte;
            },
        }
        let state_info: HistoryState = history_state(self.state);
        let next_state: usize = state_info.next(matched);
        self.state = next_state as u8;
    }
}

/// A byte that misses all three ranks differs from the first-rank byte:
/// the in-band end-of-stream marker, a miss whose literal equals the
/// first-rank byte, can therefore never arise from a real input byte.
pub proof fn lemma_no_match_differs_from_first(h: ByteHistory, next_byte: u8)
    ensures
        spec_classify(h, next_byte) == ByteMatched::NoMatch ==> next_byte != h.first,
{
}

} // verus!
