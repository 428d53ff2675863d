//! The matrix-keypad scanner model.
//!
//! The physical matrix is scanned one row at a time: the shell drives
//! one row line low, samples every column line, restores the row, and
//! moves on. The scanner here takes the resulting grid of samples —
//! `samples[r][c]` is true when column `c` read low while row `r` was
//! driven — picks the first pressed position in scan order, and
//! suppresses repeats so that a held key is reported exactly once.

use vstd::prelude::*;

verus! {

/// The first column index at or after `c` whose sample reads low, the
/// scan-order winner within one row.
pub open spec fn first_low_from(row: Seq<bool>, c: int) -> Option<int>
    decreases row.len() - c,
{
    if c < 0 || c >= row.len() {
        None
    } else if row[c] {
        Some(c)
    } else {
        first_low_from(row, c + 1)
    }
}

/// The first pressed position at or after row `r` in scan order, as
/// the key symbol it maps to.
pub open spec fn candidate_from(keymap: Seq<Seq<char>>, samples: Seq<Seq<bool>>, r: int) -> Option<
    char,
>
    decreases samples.len() - r,
{
    if r < 0 || r >= samples.len() {
        None
    } else {
        match first_low_from(samples[r], 0) {
            Some(c) => Some(keymap[r][c]),
            None => candidate_from(keymap, samples, r + 1),
        }
    }
}

/// The key symbol one full scan pass derives from the sample grid:
/// the first row/column match in scan order, or none.
pub open spec fn scan_candidate(keymap: Seq<Seq<char>>, samples: Seq<Seq<bool>>) -> Option<char> {
    candidate_from(keymap, samples, 0)
}

/// What one scan emits: the candidate, unless it equals the previously
/// reported key (a held key, or a held release), which emits nothing.
pub open spec fn emitted(last: Option<char>, candidate: Option<char>) -> Option<char> {
    if candidate == last {
        None
    } else {
        candidate
    }
}

/// The matrix-keypad scanner: the key map and the debounce state.
pub struct KeypadScanner {
    /// The fixed grid of key symbols, one per row/column crossing.
    pub keymap: Vec<Vec<char>>,
    /// The most recently reported key, or none; repeats of it are
    /// suppressed until the samples change.
    pub last_reported_key: Option<char>,
}

impl KeypadScanner {
    /// The key map as a grid of sequences.
    pub open spec fn keymap_view(self) -> Seq<Seq<char>> {
        self.keymap.deep_view()
    }

    /// True when `samples` has one row of samples per keypad row, each
    /// as wide as that row of the key map.
    pub open spec fn samples_match(self, samples: Seq<Seq<bool>>) -> bool {
        &&& samples.len() == self.keymap_view().len()
        &&& forall|r: int|
            0 <= r < samples.len() ==> samples[r].len() == self.keymap_view()[r].len()
    }

    /// A fresh scanner over `keymap`, with nothing reported yet.
    pub fn new(keymap: Vec<Vec<char>>) -> (scanner: Self)
        ensures
            scanner.keymap == keymap,
            scanner.last_reported_key is None,
    {
        KeypadScanner { keymap, last_reported_key: None }
    }

    /// One scan pass over a grid of line samples: derives the first
    /// pressed key in scan order, and emits it only when it differs
    /// from the previous pass's result, so a held key is reported once
    /// and its release resets the suppression.
    pub fn scan_once(&mut self, samples: &Vec<Vec<bool>>) -> (key: Option<char>)
        requires
            old(self).samples_match(samples.deep_view()),
        ensures
            final(self).keymap == old(self).keymap,
            final(self).last_reported_key == scan_candidate(
                old(self).keymap_view(),
                samples.deep_view(),
            ),
            key == emitted(
                old(self).last_reported_key,
                scan_candidate(old(self).keymap_view(), samples.deep_view()),
            ),
    {
        let ghost grid: Seq<Seq<bool>> = samples.deep_view();
        let mut candidate: Option<char> = None;
        let mut r: usize = 0;
        while r < samples.len() && candidate.is_none()
            invariant
                self == old(self),
                self.samples_match(grid),
                grid == samples.deep_view(),
                r <= grid.len(),
                match candidate {
                    None => candidate_from(self.keymap_view(), grid, 0) == candidate_from(
                        self.keymap_view(),
                        grid,
                        r as int,
                    ),
                    Some(k) => candidate_from(self.keymap_view(), grid, 0) == Some(k),
                },
            decreases grid.len() - r,
        {
            proof {
                assert(grid[r as int] == samples@[r as int].deep_view());
            }
            match first_low(&samples[r]) {
                Some(c) => {
                    proof {
                        assert(self.keymap_view()[r as int] == self.keymap@[r as int].deep_view());
                        assert(self.keymap_view()[r as int][c as int] == self.keymap@[r as int]@[c as int]);
                    }
                    let row_keys = &self.keymap[r];
                    candidate = Some(row_keys[c]);
                },
                None => {},
            }
            r += 1;
        }
        proof {
            if candidate is None {
                assert(candidate_from(self.keymap_view(), grid, r as int) is None);
            }
            assert(candidate == scan_candidate(self.keymap_view(), grid));
        }
        let same = match (candidate, self.last_reported_key) {
            (None, None) => true,
            (Some(x), Some(y)) => x == y,
            _ => false,
        };
        self.last_reported_key = candidate;
        if same {
            None
        } else {
            candidate
        }
    }
}

/// The emissions of a run of scan passes: starting with `last` as the
/// previously reported key, scan each sample grid of `inputs` in turn
/// and record what each pass emits.
pub open spec fn spec_run(
    keymap: Seq<Seq<char>>,
    last: Option<char>,
    inputs: Seq<Seq<Seq<bool>>>,
) -> Seq<Option<char>>
    decreases inputs.len(),
{
    if inputs.len() == 0 {
        Seq::empty()
    } else {
        seq![emitted(last, scan_candidate(keymap, inputs[0]))] + spec_run(
            keymap,
            scan_candidate(keymap, inputs[0]),
            inputs.drop_first(),
        )
    }
}

/// A run whose every pass derives the already-reported candidate
/// emits nothing at all.
proof fn lemma_run_steady(keymap: Seq<Seq<char>>, last: Option<char>, inputs: Seq<Seq<Seq<bool>>>)
    requires
        forall|i: int| 0 <= i < inputs.len() ==> scan_candidate(keymap, #[trigger] inputs[i]) == last,
    ensures
        spec_run(keymap, last, inputs).len() == inputs.len(),
        forall|i: int| 0 <= i < inputs.len() ==> #[trigger] spec_run(keymap, last, inputs)[i] is None,
    decreases inputs.len(),
{
    if inputs.len() > 0 {
        let tail = inputs.drop_first();
        assert(forall|i: int|
            0 <= i < tail.len() ==> scan_candidate(keymap, #[trigger] tail[i]) == last) by {
            assert(forall|i: int| 0 <= i < tail.len() ==> #[trigger] tail[i] == inputs[i + 1]);
        }
        lemma_run_steady(keymap, last, tail);
        assert(forall|i: int|
            1 <= i < inputs.len() ==> #[trigger] spec_run(keymap, last, inputs)[i] == spec_run(
                keymap,
                last,
                tail,
            )[i - 1]);
    }
}

/// Law: release suppression is idempotent. If the physical inputs do
/// not change from one scan pass to the next, every pass after the
/// first emits nothing, whatever had been reported before the run.
pub proof fn lemma_unchanged_inputs_silent(
    keymap: Seq<Seq<char>>,
    last: Option<char>,
    inputs: Seq<Seq<Seq<bool>>>,
)
    requires
        forall|i: int| 0 <= i < inputs.len() ==> #[trigger] inputs[i] == inputs[0],
    ensures
        spec_run(keymap, last, inputs).len() == inputs.len(),
        forall|i: int|
            1 <= i < inputs.len() ==> #[trigger] spec_run(keymap, last, inputs)[i] is None,
{
    if inputs.len() > 0 {
        let cand = scan_candidate(keymap, inputs[0]);
        let tail = inputs.drop_first();
        assert(forall|i: int|
            0 <= i < tail.len() ==> scan_candidate(keymap, #[trigger] tail[i]) == cand) by {
            assert(forall|i: int| 0 <= i < tail.len() ==> #[trigger] tail[i] == inputs[i + 1]);
        }
        lemma_run_steady(keymap, cand, tail);
        assert(forall|i: int|
            1 <= i < inputs.len() ==> #[trigger] spec_run(keymap, last, inputs)[i] == spec_run(
                keymap,
                cand,
                tail,
            )[i - 1]);
    }
}

/// Law: one event per press. When a scan pass first derives a key that
/// differs from the previously reported one, and the inputs then stay
/// unchanged for the whole run, the first pass emits the key and every
/// later pass emits nothing: a held key is reported exactly once.
pub proof fn lemma_single_event_per_press(
    keymap: Seq<Seq<char>>,
    last: Option<char>,
    inputs: Seq<Seq<Seq<bool>>>,
    k: char,
)
    requires
        inputs.len() >= 1,
        forall|i: int| 0 <= i < inputs.len() ==> #[trigger] inputs[i] == inputs[0],
        scan_candidate(keymap, inputs[0]) == Some(k),
        last != Some(k),
    ensures
        spec_run(keymap, last, inputs).len() == inputs.len(),
        spec_run(keymap, last, inputs)[0] == Some(k),
        forall|i: int|
            1 <= i < inputs.len() ==> #[trigger] spec_run(keymap, last, inputs)[i] is None,
{
    lemma_unchanged_inputs_silent(keymap, last, inputs);
}

/// The first index in `row` whose sample reads low, if any.
fn first_low(row: &Vec<bool>) -> (hit: Option<usize>)
    ensures
        match hit {
            Some(c) => first_low_from(row.deep_view(), 0) == Some(c as int) && c < row@.len(),
            None => first_low_from(row.deep_view(), 0) is None,
        },
{
    let mut c: usize = 0;
    while c < row.len()
        invariant
            c <= row@.len(),
            first_low_from(row.deep_view(), 0) == first_low_from(row.deep_view(), c as int),
        decreases row@.len() - c,
    {
        if row[c] {
            return Some(c);
        }
        c += 1;
    }
    None
}

} // verus!
