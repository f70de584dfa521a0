//! The records store: the owned, creation-ordered sequence of persisted
//! splits, with duplicate detection on insert, record checks, and the
//! best/worst split per category.
//!
//! The store's view is the sequence of splits in creation order. Its
//! well-formedness ties identifiers to positions (monotonic and unique)
//! and keeps creation timestamps non-decreasing, which is what makes
//! "most recent" and the tie-breaking rules meaningful.

use vstd::prelude::*;

use crate::models::{category_index, lemma_same_category_iff_same_index, same_category, Split,
    SplitData};
use crate::text::str_eq;

verus! {

/// Why an insert was refused: the submission repeats the user's most
/// recent duration, or the underlying storage failed.
#[derive(Debug)]
pub enum StoreError {
    DuplicateEntry,
    StorageFailure,
}

/// The duration of the most recently created split by `user`, if any.
pub open spec fn last_duration_of_user(s: Seq<Split>, user: Seq<char>) -> Option<i32>
    decreases s.len(),
{
    if s.len() == 0 {
        None
    } else if s.last().user@ == user {
        Some(s.last().duration_ms)
    } else {
        last_duration_of_user(s.drop_last(), user)
    }
}

/// Whether a submission duplicates the duration of the same user's most
/// recently created split. Only the duration is compared, and only
/// against that single entry: a narrow guard against accidental
/// double-submission.
pub open spec fn is_duplicate(s: Seq<Split>, user: Seq<char>, duration_ms: i32) -> bool {
    last_duration_of_user(s, user) == Some(duration_ms)
}

/// The creation timestamp the store assigns: the caller's clock, raised
/// to the latest stored timestamp so creation times never decrease.
pub open spec fn assigned_timestamp(s: Seq<Split>, now_ms: u64) -> u64 {
    if s.len() == 0 || now_ms >= s.last().created_at {
        now_ms
    } else {
        s.last().created_at
    }
}

/// Whether `sp` holds a record among the splits of `s`: no split of the
/// same category has a strictly lower duration. A tie does not
/// disqualify, so a split already present never loses to itself.
pub open spec fn is_record_in(s: Seq<Split>, sp: Split) -> bool {
    forall|i: int|
        0 <= i < s.len() && same_category(#[trigger] s[i], sp) ==> s[i].duration_ms
            >= sp.duration_ms
}

/// Whether `a` makes a strictly better best-board entry than `b`: lower
/// duration, ties going to the earlier creation time and then to the
/// earlier insert.
pub open spec fn beats_best(a: Split, b: Split) -> bool {
    a.duration_ms < b.duration_ms || (a.duration_ms == b.duration_ms && a.created_at
        < b.created_at) || (a.duration_ms == b.duration_ms && a.created_at == b.created_at && a.id
        < b.id)
}

/// Whether `a` makes a strictly better worst-board entry than `b`: higher
/// duration, ties going to the earlier creation time and then to the
/// earlier insert.
pub open spec fn beats_worst(a: Split, b: Split) -> bool {
    a.duration_ms > b.duration_ms || (a.duration_ms == b.duration_ms && a.created_at
        < b.created_at) || (a.duration_ms == b.duration_ms && a.created_at == b.created_at && a.id
        < b.id)
}

/// The board comparison: best-board order or worst-board order.
pub open spec fn beats(best: bool, a: Split, b: Split) -> bool {
    if best {
        beats_best(a, b)
    } else {
        beats_worst(a, b)
    }
}

/// Whether `sp` is a split of `s` that no same-category split of `s`
/// improves on, under the chosen board order.
pub open spec fn extreme_of(s: Seq<Split>, best: bool, sp: Split) -> bool {
    s.contains(sp) && (forall|i: int|
        0 <= i < s.len() && same_category(#[trigger] s[i], sp) ==> !beats(best, s[i], sp))
}

/// Whether some split of `s` falls in the category at display position `c`.
pub open spec fn cat_present(s: Seq<Split>, c: int) -> bool {
    exists|i: int| 0 <= i < s.len() && category_index(#[trigger] s[i]) == c
}

/// What a records board holds: for every populated category exactly its
/// best (or worst) split, in category display order, and nothing else.
pub open spec fn valid_board(s: Seq<Split>, best: bool, r: Seq<Split>) -> bool {
    &&& forall|k: int| 0 <= k < r.len() ==> extreme_of(s, best, #[trigger] r[k])
    &&& forall|k: int| 0 <= k < r.len() ==> 0 <= category_index(#[trigger] r[k]) < 6
    &&& forall|k1: int, k2: int|
        0 <= k1 < k2 < r.len() ==> category_index(r[k1]) < category_index(r[k2])
    &&& forall|c: int| 0 <= c < 6 ==> (cat_present(s, c) <==> #[trigger] cat_present(r, c))
}

/// The store of persisted splits, in creation order.
pub struct RecordsStore {
    splits: Vec<Split>,
}

impl View for RecordsStore {
    type V = Seq<Split>;

    closed spec fn view(&self) -> Seq<Split> {
        self.splits@
    }
}

impl RecordsStore {
    /// Identifiers count positions from one, and creation timestamps
    /// never decrease along the sequence.
    pub open spec fn wf(&self) -> bool {
        &&& forall|i: int| 0 <= i < self@.len() ==> (#[trigger] self@[i]).id as int == i + 1
        &&& forall|i: int, j: int|
            0 <= i <= j < self@.len() ==> self@[i].created_at <= self@[j].created_at
    }

    /// An empty store.
    pub fn new() -> (r: Self)
        ensures
            r@.len() == 0,
            r.wf(),
    {
        RecordsStore { splits: Vec::new() }
    }

    /// How many splits the store holds.
    pub fn len(&self) -> (n: usize)
        ensures
            n == self@.len(),
    {
        self.splits.len()
    }

    /// Whether the submission repeats the duration of the same user's
    /// most recently created split.
    fn is_duplicate_entry(&self, data: &SplitData) -> (r: bool)
        ensures
            r == is_duplicate(self@, data.user@, data.duration_ms),
    {
        let mut i = self.splits.len();
        proof {
            assert(self@.subrange(0, i as int) =~= self@);
        }
        while i > 0
            invariant
                i <= self@.len(),
                last_duration_of_user(self@, data.user@) == last_duration_of_user(
                    self@.subrange(0, i as int),
                    data.user@,
                ),
            decreases i,
        {
            let idx = i - 1;
            if str_eq(self.splits[idx].user.as_str(), data.user.as_str()) {
                return self.splits[idx].duration_ms == data.duration_ms;
            }
            proof {
                assert(self@.subrange(0, i as int).drop_last() =~= self@.subrange(0, idx as int));
            }
            i = idx;
        }
        false
    }

    /// Appends a submission: refused as a duplicate when it repeats the
    /// duration of the same user's most recent split, and otherwise
    /// persisted with the next identifier and an assigned timestamp and
    /// returned.
    pub fn insert_split(&mut self, data: &SplitData, now_ms: u64) -> (r: Result<
        Split,
        StoreError,
    >)
        requires
            old(self).wf(),
            old(self)@.len() < usize::MAX,
        ensures
            final(self).wf(),
            match r {
                Ok(sp) => {
                    &&& !is_duplicate(old(self)@, data.user@, data.duration_ms)
                    &&& final(self)@ == old(self)@.push(sp)
                    &&& sp.user@ == data.user@
                    &&& sp.is_down == data.is_down
                    &&& sp.is_elevator == data.is_elevator
                    &&& sp.duration_ms == data.duration_ms
                    &&& sp.is_encumbered == data.is_encumbered
                    &&& sp.id as int == old(self)@.len() + 1
                    &&& sp.created_at == assigned_timestamp(old(self)@, now_ms)
                },
                Err(e) => {
                    &&& e is DuplicateEntry
                    &&& is_duplicate(old(self)@, data.user@, data.duration_ms)
                    &&& final(self)@ == old(self)@
                },
            },
    {
        if self.is_duplicate_entry(data) {
            return Err(StoreError::DuplicateEntry);
        }
        let n = self.splits.len();
        let id = (n as u64) + 1;
        let created_at = if n == 0 {
            now_ms
        } else {
            let last_created = self.splits[n - 1].created_at;
            if now_ms >= last_created {
                now_ms
            } else {
                last_created
            }
        };
        let sp = Split {
            id,
            user: data.user.clone(),
            is_down: data.is_down,
            is_elevator: data.is_elevator,
            duration_ms: data.duration_ms,
            created_at,
            is_encumbered: data.is_encumbered,
        };
        let result = sp.clone();
        self.splits.push(sp);
        Ok(result)
    }

    /// The split with the latest creation timestamp, ties going to the
    /// most recent insert; nothing when the store is empty.
    pub fn get_most_recent_split(&self) -> (r: Option<Split>)
        ensures
            match r {
                None => self@.len() == 0,
                Some(sp) => self@.len() > 0 && sp == self@.last(),
            },
    {
        let n = self.splits.len();
        if n == 0 {
            None
        } else {
            Some(self.splits[n - 1].clone())
        }
    }

    /// All splits, most recently created first.
    pub fn get_all_splits(&self) -> (r: Vec<Split>)
        ensures
            r@.len() == self@.len(),
            forall|i: int| 0 <= i < r@.len() ==> #[trigger] r@[i] == self@[self@.len() - 1 - i],
    {
        let mut out: Vec<Split> = Vec::new();
        let mut i = self.splits.len();
        while i > 0
            invariant
                i <= self@.len(),
                out@.len() == self@.len() - i,
                forall|k: int|
                    0 <= k < out@.len() ==> #[trigger] out@[k] == self@[self@.len() - 1 - k],
            decreases i,
        {
            i = i - 1;
            out.push(self.splits[i].clone());
        }
        out
    }

    /// Whether `split` holds a record: no persisted split of the same
    /// category has a strictly lower duration.
    pub fn is_world_record(&self, split: &Split) -> (r: bool)
        ensures
            r == is_record_in(self@, *split),
    {
        let n = self.splits.len();
        let mut i: usize = 0;
        while i < n
            invariant
                n == self@.len(),
                i <= n,
                forall|j: int|
                    0 <= j < i && same_category(#[trigger] self@[j], *split) ==> self@[
                        j
                    ].duration_ms >= split.duration_ms,
            decreases n - i,
        {
            let other = &self.splits[i];
            if is_same_category(other, split) && other.duration_ms < split.duration_ms {
                return false;
            }
            i = i + 1;
        }
        true
    }

    /// The index of the board entry for category `c`, under the chosen
    /// board order; nothing when the category is empty.
    fn extreme_in_category(&self, c: usize, best: bool) -> (r: Option<usize>)
        ensures
            match r {
                None => !cat_present(self@, c as int),
                Some(idx) => {
                    &&& idx < self@.len()
                    &&& category_index(self@[idx as int]) == c as int
                    &&& forall|i: int|
                        0 <= i < self@.len() && category_index(#[trigger] self@[i]) == c as int
                            ==> !beats(best, self@[i], self@[idx as int])
                },
            },
    {
        let n = self.splits.len();
        let mut found: Option<usize> = None;
        let mut i: usize = 0;
        while i < n
            invariant
                n == self@.len(),
                i <= n,
                match found {
                    None => forall|j: int|
                        0 <= j < i ==> category_index(#[trigger] self@[j]) != c as int,
                    Some(b) => {
                        &&& b < i
                        &&& category_index(self@[b as int]) == c as int
                        &&& forall|j: int|
                            0 <= j < i && category_index(#[trigger] self@[j]) == c as int ==> !beats(
                                best,
                                self@[j],
                                self@[b as int],
                            )
                    },
                },
            decreases n - i,
        {
            if category_index_of(&self.splits[i]) == c {
                match found {
                    None => {
                        found = Some(i);
                    },
                    Some(b) => {
                        if beats_exec(best, &self.splits[i], &self.splits[b]) {
                            found = Some(i);
                        }
                    },
                }
            }
            i = i + 1;
        }
        found
    }

    /// The board under the chosen order: for each populated category, in
    /// display order, its best (or worst) split.
    fn records_board(&self, best: bool) -> (r: Vec<Split>)
        ensures
            valid_board(self@, best, r@),
    {
        let mut out: Vec<Split> = Vec::new();
        let mut c: usize = 0;
        while c < 6
            invariant
                c <= 6,
                forall|k: int| 0 <= k < out@.len() ==> extreme_of(self@, best, #[trigger] out@[k]),
                forall|k: int|
                    0 <= k < out@.len() ==> 0 <= category_index(#[trigger] out@[k]) < c as int,
                forall|k1: int, k2: int|
                    0 <= k1 < k2 < out@.len() ==> category_index(out@[k1]) < category_index(
                        out@[k2],
                    ),
                forall|cc: int|
                    0 <= cc < c as int ==> (cat_present(self@, cc) <==> #[trigger] cat_present(
                        out@,
                        cc,
                    )),
            decreases 6 - c,
        {
            let found = self.extreme_in_category(c, best);
            match found {
                Some(idx) => {
                    let ghost prev = out@;
                    let entry = self.splits[idx].clone();
                    proof {
                        assert(self@.contains(self@[idx as int])) by {
                            assert(self@[idx as int] == self@[idx as int]);
                        }
                        assert forall|i: int|
                            0 <= i < self@.len() && same_category(
                                #[trigger] self@[i],
                                self@[idx as int],
                            ) implies !beats(best, self@[i], self@[idx as int]) by {
                            lemma_same_category_iff_same_index(self@[idx as int], self@[i]);
                        }
                    }
                    out.push(entry);
                    proof {
                        assert forall|cc: int|
                            0 <= cc < c as int + 1 implies (cat_present(self@, cc)
                            <==> #[trigger] cat_present(out@, cc)) by {
                            if cc == c as int {
                                assert(category_index(out@[out@.len() - 1]) == cc);
                                assert(category_index(self@[idx as int]) == cc);
                            } else {
                                if cat_present(self@, cc) {
                                    assert(cat_present(prev, cc));
                                    let i = choose|i: int|
                                        0 <= i < prev.len() && category_index(
                                            #[trigger] prev[i],
                                        ) == cc;
                                    assert(category_index(out@[i]) == cc);
                                }
                                if cat_present(out@, cc) {
                                    let i = choose|i: int|
                                        0 <= i < out@.len() && category_index(
                                            #[trigger] out@[i],
                                        ) == cc;
                                    assert(category_index(out@[prev.len() as int]) == c as int);
                                    assert(i < prev.len());
                                    assert(category_index(prev[i]) == cc);
                                    assert(cat_present(prev, cc));
                                }
                            }
                        }
                    }
                },
                None => {
                    proof {
                        assert forall|cc: int|
                            0 <= cc < c as int + 1 implies (cat_present(self@, cc)
                            <==> #[trigger] cat_present(out@, cc)) by {
                            if cc == c as int {
                                assert(!cat_present(self@, cc));
                                if cat_present(out@, cc) {
                                    let i = choose|i: int|
                                        0 <= i < out@.len() && category_index(
                                            #[trigger] out@[i],
                                        ) == cc;
                                    assert(category_index(out@[i]) < c as int);
                                }
                            }
                        }
                    }
                },
            }
            c = c + 1;
        }
        out
    }

    /// The best split of each populated category, in display order.
    pub fn get_world_records(&self) -> (r: Vec<Split>)
        ensures
            valid_board(self@, true, r@),
    {
        self.records_board(true)
    }

    /// The worst split of each populated category, in display order.
    pub fn get_slowest_records(&self) -> (r: Vec<Split>)
        ensures
            valid_board(self@, false, r@),
    {
        self.records_board(false)
    }
}

/// Decides whether two splits belong to the same category.
pub fn is_same_category(a: &Split, b: &Split) -> (r: bool)
    ensures
        r == same_category(*a, *b),
{
    a.is_down == b.is_down && a.is_elevator == b.is_elevator && (a.is_elevator || match (
        a.is_encumbered,
        b.is_encumbered,
    ) {
        (Some(x), Some(y)) => x == y,
        (None, None) => true,
        _ => false,
    })
}

/// Computes the display position of a split's category; six for a stairs
/// split whose encumbrance was never recorded.
pub fn category_index_of(s: &Split) -> (r: usize)
    ensures
        r as int == category_index(*s),
{
    if s.is_elevator {
        if s.is_down {
            0
        } else {
            1
        }
    } else {
        match s.is_encumbered {
            Some(true) => if s.is_down {
                2
            } else {
                4
            },
            Some(false) => if s.is_down {
                3
            } else {
                5
            },
            None => 6,
        }
    }
}

/// Decides the board comparison between two splits.
fn beats_exec(best: bool, a: &Split, b: &Split) -> (r: bool)
    ensures
        r == beats(best, *a, *b),
{
    let tie = a.duration_ms == b.duration_ms && (a.created_at < b.created_at || (a.created_at
        == b.created_at && a.id < b.id));
    if best {
        a.duration_ms < b.duration_ms || tie
    } else {
        a.duration_ms > b.duration_ms || tie
    }
}

/// Within a category, a split holds a record only if its duration is the
/// minimum: any strictly faster same-category split disqualifies it.
pub proof fn lemma_slower_split_not_record(s: Seq<Split>, i: int, j: int)
    requires
        0 <= i < s.len(),
        0 <= j < s.len(),
        same_category(s[i], s[j]),
        s[i].duration_ms < s[j].duration_ms,
    ensures
        !is_record_in(s, s[j]),
{
}

/// A split whose duration is minimal among its category holds a record,
/// whatever its creation time.
pub proof fn lemma_fastest_split_is_record(s: Seq<Split>, i: int)
    requires
        0 <= i < s.len(),
        forall|j: int|
            0 <= j < s.len() && same_category(#[trigger] s[j], s[i]) ==> s[i].duration_ms <= s[
                j
            ].duration_ms,
    ensures
        is_record_in(s, s[i]),
{
}

/// A board whose entries sit in strictly increasing category positions
/// holds at most six splits, and no two of them share a category. The
/// best and worst boards both satisfy the hypotheses.
pub proof fn lemma_board_category_bounds(r: Seq<Split>)
    requires
        forall|k: int| 0 <= k < r.len() ==> 0 <= category_index(#[trigger] r[k]) < 6,
        forall|k1: int, k2: int| 0 <= k1 < k2 < r.len() ==> category_index(r[k1]) < category_index(
            r[k2],
        ),
    ensures
        r.len() <= 6,
        forall|k1: int, k2: int| 0 <= k1 < k2 < r.len() ==> !same_category(r[k1], r[k2]),
{
    assert forall|k: int| 0 <= k < r.len() implies category_index(r[k]) >= k by {
        lemma_category_index_lower_bound(r, k);
    }
    if r.len() > 6 {
        assert(category_index(r[6]) >= 6);
    }
    assert forall|k1: int, k2: int| 0 <= k1 < k2 < r.len() implies !same_category(
        r[k1],
        r[k2],
    ) by {
        lemma_same_category_iff_same_index(r[k1], r[k2]);
    }
}

proof fn lemma_category_index_lower_bound(r: Seq<Split>, k: int)
    requires
        forall|k1: int, k2: int| 0 <= k1 < k2 < r.len() ==> category_index(r[k1]) < category_index(
            r[k2],
        ),
        forall|k1: int| 0 <= k1 < r.len() ==> 0 <= category_index(#[trigger] r[k1]),
        0 <= k < r.len(),
    ensures
        category_index(r[k]) >= k,
    decreases k,
{
    if k > 0 {
        lemma_category_index_lower_bound(r, k - 1);
    }
}

} // verus!
