//! What is known of the gateway's trustlines, asset by asset.

use vstd::prelude::*;
use vstd::utf8::encode_utf8;

use crate::codes::{Placement, code_before, contains_code, place};
use crate::codes::{law_code_order_is_irreflexive, law_lesser_byte_comes_first};
use crate::codes::{law_code_order_is_total, law_code_order_is_transitive};
use crate::codes::law_prefix_comes_first;
use crate::counter::{advance, law_advances_add_up, tally, wrapped};
use crate::duration::{Duration, is_clock_reading, unix_timestamp};
use crate::duration::{since_unix_epoch, unix_seconds};

verus! {

/// Per-asset gateway trustline state, refreshed by every trustline check.
///
/// A failed check does not read the same as a confirmed absence: it is counted
/// and leaves what is known of the assets as it was.
pub struct TrustlineMetrics {
    /// Asset code and whether its trustline is confirmed missing, in the order
    /// of the codes. A code that is not here was never confirmed either way.
    missing: Vec<(String, bool)>,
    /// Checks that got no confirmed answer.
    check_failures: u64,
    /// Unix timestamp of the last check that got a confirmed answer; 0 for
    /// never.
    last_success_unix: i64,
}

/// What a [`TrustlineMetrics`] knows.
pub struct TrustlineState {
    /// Asset code to confirmed missing (`true`) or confirmed present
    /// (`false`).
    pub missing: Map<Seq<char>, bool>,
    pub check_failures: u64,
    pub last_success_unix: i64,
}

/// Asset codes and flags as a list of entries reads.
pub open spec fn entry_views(entries: Seq<(String, bool)>) -> Seq<(Seq<char>, bool)> {
    Seq::new(entries.len(), |i: int| (entries[i].0@, entries[i].1))
}

/// The texts of borrowed codes.
pub open spec fn str_views(codes: Seq<&str>) -> Seq<Seq<char>> {
    Seq::new(codes.len(), |i: int| codes[i]@)
}

/// The texts of owned codes.
pub open spec fn string_views(codes: Seq<String>) -> Seq<Seq<char>> {
    Seq::new(codes.len(), |i: int| codes[i]@)
}

/// The codes of `entries` are distinct and in order.
pub open spec fn in_code_order(entries: Seq<(Seq<char>, bool)>) -> bool {
    forall|i: int, j: int|
        0 <= i < j < entries.len() ==> code_before(#[trigger] entries[i].0, #[trigger] entries[j].0)
}

/// `code` has an entry.
pub open spec fn has_entry(entries: Seq<(Seq<char>, bool)>, code: Seq<char>) -> bool {
    exists|i: int| 0 <= i < entries.len() && #[trigger] entries[i].0 == code
}

/// The map that `entries` spell out.
pub open spec fn listed(entries: Seq<(Seq<char>, bool)>) -> Map<Seq<char>, bool> {
    Map::new(
        |code: Seq<char>| has_entry(entries, code),
        |code: Seq<char>| entries.contains((code, true)),
    )
}

/// The entries of `map` in the order of their codes.
pub open spec fn sorted_entries(map: Map<Seq<char>, bool>) -> Seq<(Seq<char>, bool)> {
    choose|entries: Seq<(Seq<char>, bool)>|
        #![trigger listed(entries)]
        in_code_order(entries) && listed(entries) == map
}

/// What a check establishes that evaluated `checked` and found no trustline
/// for `missing`.
pub open spec fn check_result(checked: Seq<Seq<char>>, missing: Seq<Seq<char>>) -> Map<
    Seq<char>,
    bool,
> {
    Map::new(|code: Seq<char>| checked.contains(code), |code: Seq<char>| missing.contains(code))
}

/// The outcome of one trustline check.
pub enum TrustlineEvent {
    /// The check evaluated `checked` at the Unix timestamp `now` and found no
    /// trustline for `missing`.
    Checked { checked: Seq<Seq<char>>, missing: Seq<Seq<char>>, now: i64 },
    /// The check got no confirmed answer.
    Failed,
}

/// Nothing known.
pub open spec fn nothing_known() -> TrustlineState {
    TrustlineState { missing: Map::empty(), check_failures: 0, last_success_unix: 0 }
}

/// What is known after one more check.
pub open spec fn learned(state: TrustlineState, event: TrustlineEvent) -> TrustlineState {
    match event {
        TrustlineEvent::Checked { checked, missing, now } => TrustlineState {
            missing: check_result(checked, missing),
            check_failures: state.check_failures,
            last_success_unix: now,
        },
        TrustlineEvent::Failed => TrustlineState {
            check_failures: wrapped(state.check_failures + 1),
            ..state
        },
    }
}

/// What `map` says of `code`.
pub open spec fn lookup(map: Map<Seq<char>, bool>, code: Seq<char>) -> Option<bool> {
    if map.dom().contains(code) {
        Some(map[code])
    } else {
        None
    }
}

/// In an ordered list a code has one entry, so the list's map holds its flag.
proof fn lemma_listed_entry(entries: Seq<(Seq<char>, bool)>, i: int)
    requires
        in_code_order(entries),
        0 <= i < entries.len(),
    ensures
        listed(entries).dom().contains(entries[i].0),
        listed(entries)[entries[i].0] == entries[i].1,
{
    assert(has_entry(entries, entries[i].0));
    if entries.contains((entries[i].0, true)) {
        let j = entries.index_of((entries[i].0, true));
        law_code_order_is_irreflexive(entries[i].0);
        assert(entries[j].0 == entries[i].0);
        assert(j == i);
    } else if entries[i].1 {
        assert(entries[i] == (entries[i].0, true));
    }
}

/// An ordered list is determined by the map that it spells out.
pub proof fn law_listing_is_unique(
    left: Seq<(Seq<char>, bool)>,
    right: Seq<(Seq<char>, bool)>,
)
    requires
        in_code_order(left),
        in_code_order(right),
        listed(left) == listed(right),
    ensures
        left == right,
{
    lemma_same_up_to(left, right, left.len());
    lemma_same_up_to(right, left, right.len());
    assert(left =~= right);
}

/// The first `n` entries of two ordered lists of the same map agree.
proof fn lemma_same_up_to(
    left: Seq<(Seq<char>, bool)>,
    right: Seq<(Seq<char>, bool)>,
    n: nat,
)
    requires
        in_code_order(left),
        in_code_order(right),
        listed(left) == listed(right),
        n <= left.len(),
    ensures
        n <= right.len(),
        forall|i: int| 0 <= i < n ==> left[i] == right[i],
    decreases n,
{
    if n > 0 {
        let i = n - 1;
        lemma_same_up_to(left, right, i as nat);
        let code = left[i].0;
        lemma_listed_entry(left, i);
        assert(has_entry(right, code));
        let k = choose|k: int| 0 <= k < right.len() && #[trigger] right[k].0 == code;
        lemma_listed_entry(right, k);
        law_code_order_is_irreflexive(code);
        if k < i {
            assert(left[k] == right[k]);
            assert(code_before(left[k].0, left[i].0));
        }
        if k > i {
            let other = right[i].0;
            lemma_listed_entry(right, i);
            assert(has_entry(left, other));
            let h = choose|h: int| 0 <= h < left.len() && #[trigger] left[h].0 == other;
            assert(code_before(right[i].0, right[k].0));
            if h < i {
                assert(left[h] == right[h]);
                assert(code_before(right[h].0, right[i].0));
                law_code_order_is_irreflexive(other);
            } else if h > i {
                assert(code_before(left[i].0, left[h].0));
                law_code_order_is_transitive(code, other, code);
            }
        }
    }
}

/// A list that holds `(code, missing)` and otherwise the entries of `before`
/// for other codes spells out the map of `before` with `code` set.
proof fn lemma_listed_put(
    before: Seq<(Seq<char>, bool)>,
    after: Seq<(Seq<char>, bool)>,
    i: int,
    code: Seq<char>,
    missing: bool,
)
    requires
        in_code_order(after),
        0 <= i < after.len(),
        after[i] == (code, missing),
        forall|j: int|
            0 <= j < before.len() && before[j].0 != code ==> after.contains(#[trigger] before[j]),
        forall|j: int|
            0 <= j < after.len() && j != i ==> before.contains(#[trigger] after[j]),
    ensures
        listed(after) == listed(before).insert(code, missing),
{
    let updated = listed(before).insert(code, missing);
    lemma_listed_entry(after, i);
    assert forall|c: Seq<char>| has_entry(after, c) == updated.dom().contains(c) by {
        if c != code {
            if has_entry(after, c) {
                let j = choose|j: int| 0 <= j < after.len() && #[trigger] after[j].0 == c;
                let k = before.index_of(after[j]);
                assert(before[k].0 == c);
            }
            if has_entry(before, c) {
                let j = choose|j: int| 0 <= j < before.len() && #[trigger] before[j].0 == c;
                let k = after.index_of(before[j]);
                assert(after[k].0 == c);
            }
        }
    }
    assert forall|c: Seq<char>| has_entry(after, c) implies listed(after)[c] == updated[c] by {
        if c != code {
            if after.contains((c, true)) {
                let j = after.index_of((c, true));
                assert(before.contains(after[j]));
            }
            if before.contains((c, true)) {
                let j = before.index_of((c, true));
                assert(after.contains(before[j]));
            }
        }
    }
    assert(listed(after) =~= updated);
}

/// `entries` with `(code, missing)` at `i`: in place of the code's own entry if
/// that stands there, else between its neighbours.
spec fn put_at(
    entries: Seq<(Seq<char>, bool)>,
    i: int,
    code: Seq<char>,
    missing: bool,
) -> Seq<(Seq<char>, bool)> {
    if i < entries.len() && entries[i].0 == code {
        entries.update(i, (code, missing))
    } else {
        entries.insert(i, (code, missing))
    }
}

/// Behind the last entry whose code sorts before `code`, a new entry keeps the
/// order, and sets `code` in the map.
proof fn lemma_put_at(before: Seq<(Seq<char>, bool)>, i: int, code: Seq<char>, missing: bool)
    requires
        in_code_order(before),
        0 <= i <= before.len(),
        forall|j: int| 0 <= j < i ==> code_before(#[trigger] before[j].0, code),
        i < before.len() ==> !code_before(before[i].0, code),
    ensures
        in_code_order(put_at(before, i, code, missing)),
        listed(put_at(before, i, code, missing)) == listed(before).insert(code, missing),
{
    let after = put_at(before, i, code, missing);
    if i < before.len() && before[i].0 == code {
        assert forall|p: int, q: int| 0 <= p < q < after.len() implies code_before(
            #[trigger] after[p].0,
            #[trigger] after[q].0,
        ) by {
            assert(code_before(before[p].0, before[q].0));
        }
        assert forall|j: int| 0 <= j < before.len() && before[j].0 != code implies after.contains(
            #[trigger] before[j],
        ) by {
            assert(after[j] == before[j]);
        }
        assert forall|j: int| 0 <= j < after.len() && j != i implies before.contains(
            #[trigger] after[j],
        ) by {
            assert(before[j] == after[j]);
        }
    } else {
        assert forall|j: int| i <= j < before.len() implies code_before(
            code,
            #[trigger] before[j].0,
        ) by {
            law_code_order_is_total(before[i].0, code);
            if j > i {
                assert(code_before(before[i].0, before[j].0));
                law_code_order_is_transitive(code, before[i].0, before[j].0);
            }
        }
        assert forall|p: int, q: int| 0 <= p < q < after.len() implies code_before(
            #[trigger] after[p].0,
            #[trigger] after[q].0,
        ) by {
            let b = if p < i {
                p
            } else {
                p - 1
            };
            let c = if q < i {
                q
            } else {
                q - 1
            };
            if p != i && q != i {
                assert(code_before(before[b].0, before[c].0));
            }
        }
        assert forall|j: int| 0 <= j < before.len() && before[j].0 != code implies after.contains(
            #[trigger] before[j],
        ) by {
            let k = if j < i {
                j
            } else {
                j + 1
            };
            assert(after[k] == before[j]);
        }
        assert forall|j: int| 0 <= j < after.len() && j != i implies before.contains(
            #[trigger] after[j],
        ) by {
            let k = if j < i {
                j
            } else {
                j - 1
            };
            assert(before[k] == after[j]);
        }
    }
    lemma_listed_put(before, after, i, code, missing);
}

/// Records `missing` for `code`, in place of what stood there.
fn put_entry(entries: &mut Vec<(String, bool)>, code: &str, missing: bool)
    requires
        in_code_order(entry_views(old(entries)@)),
    ensures
        in_code_order(entry_views(final(entries)@)),
        listed(entry_views(final(entries)@)) == listed(entry_views(old(entries)@)).insert(
            code@,
            missing,
        ),
{
    let ghost before = entry_views(entries@);
    let mut i: usize = 0;
    while i < entries.len() && place(entries[i].0.as_str(), code) == Placement::Before
        invariant
            i <= entries@.len(),
            entry_views(entries@) == before,
            forall|j: int| 0 <= j < i ==> code_before(#[trigger] before[j].0, code@),
        decreases entries@.len() - i,
    {
        assert(before[i as int].0 == entries@[i as int].0@);
        i += 1;
    }
    proof {
        if i < before.len() {
            assert(before[i as int].0 == entries@[i as int].0@);
        }
        lemma_put_at(before, i as int, code@, missing);
    }
    if i < entries.len() && place(entries[i].0.as_str(), code) == Placement::Same {
        entries[i] = (code.to_owned(), missing);
    } else {
        entries.insert(i, (code.to_owned(), missing));
    }
    assert(entry_views(entries@) =~= put_at(before, i as int, code@, missing));
}

impl View for TrustlineMetrics {
    type V = TrustlineState;

    closed spec fn view(&self) -> TrustlineState {
        TrustlineState {
            missing: listed(entry_views(self.missing@)),
            check_failures: self.check_failures,
            last_success_unix: self.last_success_unix,
        }
    }
}

impl TrustlineMetrics {
    #[verifier::type_invariant]
    spec fn entries_in_code_order(self) -> bool {
        in_code_order(entry_views(self.missing@))
    }

    /// Nothing checked yet.
    pub fn new() -> (metrics: Self)
        ensures
            metrics@ == nothing_known(),
    {
        let missing: Vec<(String, bool)> = Vec::new();
        assert(listed(entry_views(missing@)) =~= Map::empty());
        TrustlineMetrics { missing, check_failures: 0, last_success_unix: 0 }
    }

    /// Records a successful check made now: `checked` is every asset that the
    /// check evaluated, `missing` the subset with no trustline. Replaces the
    /// prior state for exactly the assets checked, so an asset that is no
    /// longer checked stops being reported.
    ///
    /// The timestamp is that of a reading of the system clock.
    pub fn record_check(&mut self, checked: &[&str], missing: &[String])
        ensures
            exists|elapsed: Option<Duration>| #[trigger]
                is_clock_reading(elapsed) && final(self)@ == learned(
                    old(self)@,
                    TrustlineEvent::Checked {
                        checked: str_views(checked@),
                        missing: string_views(missing@),
                        now: unix_timestamp(elapsed),
                    },
                ),
    {
        let elapsed: Option<Duration> = since_unix_epoch();
        self.record_check_clocked(checked, missing, elapsed);
    }

    /// Records a successful check made when the clock read `elapsed` since the
    /// Unix epoch, or was set before it.
    pub fn record_check_clocked(
        &mut self,
        checked: &[&str],
        missing: &[String],
        elapsed: Option<Duration>,
    )
        ensures
            final(self)@ == learned(
                old(self)@,
                TrustlineEvent::Checked {
                    checked: str_views(checked@),
                    missing: string_views(missing@),
                    now: unix_timestamp(elapsed),
                },
            ),
    {
        self.record_check_at(checked, missing, unix_seconds(elapsed));
    }

    /// Records a successful check made at the Unix timestamp `now`.
    pub fn record_check_at(&mut self, checked: &[&str], missing: &[String], now: i64)
        ensures
            final(self)@ == learned(
                old(self)@,
                TrustlineEvent::Checked {
                    checked: str_views(checked@),
                    missing: string_views(missing@),
                    now,
                },
            ),
            forall|code: Seq<char>| #[trigger]
                final(self)@.missing.dom().contains(code) <==> exists|i: int|
                    0 <= i < checked@.len() && (#[trigger] checked@[i])@ == code,
            forall|code: Seq<char>| #[trigger]
                final(self)@.missing.dom().contains(code) ==> (final(self)@.missing[code]
                    <==> exists|i: int|
                    0 <= i < missing@.len() && (#[trigger] missing@[i])@ == code),
    {
        let ghost all = str_views(checked@);
        let ghost absent = string_views(missing@);
        let mut entries: Vec<(String, bool)> = Vec::new();
        assert(listed(entry_views(entries@)) =~= check_result(all.take(0), absent));
        let mut i: usize = 0;
        while i < checked.len()
            invariant
                i <= checked@.len(),
                all == str_views(checked@),
                absent == string_views(missing@),
                in_code_order(entry_views(entries@)),
                listed(entry_views(entries@)) == check_result(all.take(i as int), absent),
            decreases checked@.len() - i,
        {
            let code: &str = checked[i];
            let is_missing: bool = contains_code(missing, code);
            put_entry(&mut entries, code, is_missing);
            proof {
                assert(is_missing == absent.contains(code@)) by {
                    if is_missing {
                        let k = choose|k: int|
                            0 <= k < missing@.len() && #[trigger] missing@[k]@ == code@;
                        assert(absent[k] == code@);
                    }
                    if absent.contains(code@) {
                        let k = absent.index_of(code@);
                        assert(missing@[k]@ == code@);
                    }
                }
                lemma_check_result_push(all.take(i as int), absent, code@);
                assert(all.take(i + 1) =~= all.take(i as int).push(code@));
            }
            i += 1;
        }
        assert(all.take(i as int) =~= all);
        self.missing = entries;
        self.last_success_unix = now;
        proof {
            assert forall|code: Seq<char>| #[trigger] all.contains(code) == exists|i: int|
                0 <= i < checked@.len() && (#[trigger] checked@[i])@ == code by {
                if all.contains(code) {
                    let k = all.index_of(code);
                    assert(checked@[k]@ == code);
                }
                if exists|i: int| 0 <= i < checked@.len() && (#[trigger] checked@[i])@ == code {
                    let k = choose|k: int|
                        0 <= k < checked@.len() && (#[trigger] checked@[k])@ == code;
                    assert(all[k] == code);
                }
            }
            assert forall|code: Seq<char>| #[trigger] absent.contains(code) == exists|i: int|
                0 <= i < missing@.len() && (#[trigger] missing@[i])@ == code by {
                if absent.contains(code) {
                    let k = absent.index_of(code);
                    assert(missing@[k]@ == code);
                }
                if exists|i: int| 0 <= i < missing@.len() && (#[trigger] missing@[i])@ == code {
                    let k = choose|k: int|
                        0 <= k < missing@.len() && (#[trigger] missing@[k])@ == code;
                    assert(absent[k] == code);
                }
            }
        }
    }

    /// Counts a check that got no confirmed answer. What is known of the
    /// assets, and when, stays as it was.
    pub fn record_check_failure(&mut self)
        ensures
            final(self)@ == learned(old(self)@, TrustlineEvent::Failed),
    {
        proof {
            use_type_invariant(&*self);
        }
        self.check_failures = advance(self.check_failures, 1);
    }

    /// `Some(true)`: confirmed missing. `Some(false)`: confirmed present.
    /// `None`: never confirmed either way, or no longer checked.
    pub fn is_missing(&self, code: &str) -> (known: Option<bool>)
        ensures
            known == lookup(self@.missing, code@),
    {
        proof {
            use_type_invariant(self);
        }
        let ghost entries = entry_views(self.missing@);
        let mut i: usize = 0;
        while i < self.missing.len()
            invariant
                i <= self.missing@.len(),
                entries == entry_views(self.missing@),
                in_code_order(entries),
                forall|j: int| 0 <= j < i ==> #[trigger] entries[j].0 != code@,
            decreases self.missing@.len() - i,
        {
            assert(entries[i as int].0 == self.missing@[i as int].0@);
            if place(self.missing[i].0.as_str(), code) == Placement::Same {
                proof {
                    lemma_listed_entry(entries, i as int);
                }
                return Some(self.missing[i].1);
            }
            i += 1;
        }
        assert(!has_entry(entries, code@));
        None
    }

    /// Checks that got no confirmed answer.
    pub fn check_failures(&self) -> (count: u64)
        ensures
            count == self@.check_failures,
    {
        self.check_failures
    }

    /// Unix timestamp of the last successful check; 0 for never.
    pub fn last_success_unix(&self) -> (timestamp: i64)
        ensures
            timestamp == self@.last_success_unix,
    {
        self.last_success_unix
    }

    /// What is known of each asset, sorted by asset code.
    pub fn snapshot(&self) -> (entries: Vec<(String, bool)>)
        ensures
            in_code_order(entry_views(entries@)),
            listed(entry_views(entries@)) == self@.missing,
            entry_views(entries@) == sorted_entries(self@.missing),
            forall|i: int|
                0 <= i < entries@.len() ==> self@.missing.dom().contains(
                    (#[trigger] entries@[i]).0@,
                ) && self@.missing[entries@[i].0@] == entries@[i].1,
            forall|code: Seq<char>| #[trigger]
                self@.missing.dom().contains(code) ==> exists|i: int|
                    0 <= i < entries@.len() && (#[trigger] entries@[i]).0@ == code,
    {
        proof {
            use_type_invariant(self);
        }
        let mut entries: Vec<(String, bool)> = Vec::new();
        let mut i: usize = 0;
        while i < self.missing.len()
            invariant
                i <= self.missing@.len(),
                entry_views(entries@) == entry_views(self.missing@).take(i as int),
            decreases self.missing@.len() - i,
        {
            let ghost copied = entry_views(entries@);
            let ghost own = entry_views(self.missing@);
            entries.push((self.missing[i].0.clone(), self.missing[i].1));
            assert(entry_views(entries@) =~= copied.push(own[i as int]));
            i += 1;
            assert(own.take(i as int) =~= copied.push(own[i - 1]));
        }
        proof {
            let own = entry_views(self.missing@);
            assert(own.take(i as int) =~= own);
            law_listing_is_unique(own, sorted_entries(self@.missing));
            assert forall|i: int| 0 <= i < entries@.len() implies self@.missing.dom().contains(
                (#[trigger] entries@[i]).0@,
            ) && self@.missing[entries@[i].0@] == entries@[i].1 by {
                lemma_listed_entry(entry_views(entries@), i);
            }
            assert forall|code: Seq<char>| #[trigger]
                self@.missing.dom().contains(code) implies exists|i: int|
                0 <= i < entries@.len() && (#[trigger] entries@[i]).0@ == code by {
                let i = choose|i: int| 0 <= i < own.len() && #[trigger] own[i].0 == code;
                assert(entry_views(entries@)[i].0 == entries@[i].0@);
            }
        }
        entries
    }
}

impl Default for TrustlineMetrics {
    fn default() -> (metrics: Self)
        ensures
            metrics@ == nothing_known(),
    {
        TrustlineMetrics::new()
    }
}

/// One more asset in a check sets that asset and no other.
proof fn lemma_check_result_push(checked: Seq<Seq<char>>, missing: Seq<Seq<char>>, code: Seq<char>)
    ensures
        check_result(checked.push(code), missing) == check_result(checked, missing).insert(
            code,
            missing.contains(code),
        ),
{
    assert forall|c: Seq<char>|
        #![trigger checked.push(code).contains(c)]
        #![trigger checked.contains(c)]
        checked.push(code).contains(c) == (checked.contains(c) || c == code) by {
        if checked.contains(c) {
            let k = checked.index_of(c);
            assert(checked.push(code)[k] == c);
        }
        assert(checked.push(code)[checked.len() as int] == code);
    }
    assert(check_result(checked.push(code), missing) =~= check_result(checked, missing).insert(
        code,
        missing.contains(code),
    ));
}

/// After a check, an asset that was checked is known to be missing exactly
/// when it was among the missing, and any other asset is unknown.
pub proof fn law_lookup_after_check(
    checked: Seq<Seq<char>>,
    missing: Seq<Seq<char>>,
    code: Seq<char>,
)
    ensures
        lookup(check_result(checked, missing), code) == if checked.contains(code) {
            Some(missing.contains(code))
        } else {
            None
        },
{
}

/// What a check establishes does not depend on the order in which the assets
/// are given, nor on repetitions, nor on missing assets that were not checked.
pub proof fn law_check_depends_on_the_sets_alone(
    checked: Seq<Seq<char>>,
    missing: Seq<Seq<char>>,
    checked_again: Seq<Seq<char>>,
    missing_again: Seq<Seq<char>>,
)
    requires
        forall|code: Seq<char>|
            #![trigger checked.contains(code)]
            #![trigger checked_again.contains(code)]
            checked.contains(code) == checked_again.contains(code),
        forall|code: Seq<char>|
            #![trigger missing.contains(code)]
            #![trigger missing_again.contains(code)]
            checked.contains(code) ==> missing.contains(code) == missing_again.contains(code),
    ensures
        check_result(checked, missing) == check_result(checked_again, missing_again),
{
    assert(check_result(checked, missing) =~= check_result(checked_again, missing_again));
}

/// What a check establishes can be listed in the order of the codes, and
/// [`sorted_entries`] is that list.
pub proof fn law_check_result_has_a_listing(checked: Seq<Seq<char>>, missing: Seq<Seq<char>>)
    ensures
        in_code_order(sorted_entries(check_result(checked, missing))),
        listed(sorted_entries(check_result(checked, missing))) == check_result(checked, missing),
{
    let entries = lemma_listing_exists(checked, missing);
    assert(listed(entries) == check_result(checked, missing));
}

proof fn lemma_listing_exists(checked: Seq<Seq<char>>, missing: Seq<Seq<char>>) -> (entries: Seq<
    (Seq<char>, bool),
>)
    ensures
        in_code_order(entries),
        listed(entries) == check_result(checked, missing),
    decreases checked.len(),
{
    if checked.len() == 0 {
        let none = Seq::<(Seq<char>, bool)>::empty();
        assert(listed(none) =~= check_result(checked, missing));
        none
    } else {
        let code = checked.last();
        let fewer = checked.drop_last();
        let entries = lemma_listing_exists(fewer, missing);
        let i = lemma_place_exists(entries, code);
        lemma_put_at(entries, i, code, missing.contains(code));
        lemma_check_result_push(fewer, missing, code);
        assert(fewer.push(code) =~= checked);
        put_at(entries, i, code, missing.contains(code))
    }
}

/// The entries whose codes sort before `code` come first in an ordered list.
proof fn lemma_place_exists(entries: Seq<(Seq<char>, bool)>, code: Seq<char>) -> (i: int)
    requires
        in_code_order(entries),
    ensures
        0 <= i <= entries.len(),
        forall|j: int| 0 <= j < i ==> code_before(#[trigger] entries[j].0, code),
        i < entries.len() ==> !code_before(entries[i].0, code),
    decreases entries.len(),
{
    if entries.len() == 0 {
        0
    } else if code_before(entries.last().0, code) {
        assert forall|j: int| 0 <= j < entries.len() implies code_before(
            #[trigger] entries[j].0,
            code,
        ) by {
            if j < entries.len() - 1 {
                law_code_order_is_transitive(entries[j].0, entries.last().0, code);
            }
        }
        entries.len() as int
    } else {
        let front = entries.drop_last();
        assert forall|p: int, q: int| 0 <= p < q < front.len() implies code_before(
            #[trigger] front[p].0,
            #[trigger] front[q].0,
        ) by {
            assert(code_before(entries[p].0, entries[q].0));
        }
        let i = lemma_place_exists(front, code);
        assert forall|j: int| 0 <= j < i implies code_before(#[trigger] entries[j].0, code) by {
            assert(front[j].0 == entries[j].0);
        }
        i
    }
}

/// What is known after any history of checks has a listing in the order of the
/// codes.
pub proof fn law_every_history_has_a_listing(events: Seq<TrustlineEvent>)
    ensures
        in_code_order(sorted_entries(replayed(events).missing)),
        listed(sorted_entries(replayed(events).missing)) == replayed(events).missing,
    decreases events.len(),
{
    if events.len() == 0 {
        law_check_result_has_a_listing(seq![], seq![]);
        assert(check_result(seq![], seq![]) =~= Map::empty());
    } else {
        law_every_history_has_a_listing(events.drop_last());
        if let TrustlineEvent::Checked { checked, missing, now } = events.last() {
            law_check_result_has_a_listing(checked, missing);
        }
    }
}

/// An ordered list of what is known holds an asset with a flag exactly when
/// looking the asset up gives that flag.
pub proof fn law_listing_agrees_with_lookup(
    entries: Seq<(Seq<char>, bool)>,
    code: Seq<char>,
    missing: bool,
)
    requires
        in_code_order(entries),
    ensures
        entries.contains((code, missing)) <==> lookup(listed(entries), code) == Some(missing),
{
    if entries.contains((code, missing)) {
        let i = entries.index_of((code, missing));
        lemma_listed_entry(entries, i);
    }
    if has_entry(entries, code) {
        let i = choose|i: int| 0 <= i < entries.len() && #[trigger] entries[i].0 == code;
        lemma_listed_entry(entries, i);
        assert(entries[i] == (code, entries[i].1));
    }
}

/// What is known after `events`, in the order given, from nothing.
pub open spec fn replayed(events: Seq<TrustlineEvent>) -> TrustlineState
    decreases events.len(),
{
    if events.len() == 0 {
        nothing_known()
    } else {
        learned(replayed(events.drop_last()), events.last())
    }
}

/// Being a failed check.
pub open spec fn is_failure() -> spec_fn(TrustlineEvent) -> bool {
    |e: TrustlineEvent| e is Failed
}

/// What is known of the assets, and since when, is what the last successful
/// check established, however many failures came after it and whatever came
/// before; failures only add up.
pub proof fn law_last_successful_check_stands(
    before: Seq<TrustlineEvent>,
    checked: Seq<Seq<char>>,
    missing: Seq<Seq<char>>,
    now: i64,
    failures: Seq<TrustlineEvent>,
)
    requires
        forall|i: int| 0 <= i < failures.len() ==> #[trigger] failures[i] is Failed,
    ensures
        replayed(before.push(TrustlineEvent::Checked { checked, missing, now }) + failures) == (
        TrustlineState {
            missing: check_result(checked, missing),
            check_failures: wrapped((tally(before, is_failure()) + failures.len()) as int),
            last_success_unix: now,
        }),
    decreases failures.len(),
{
    let check = TrustlineEvent::Checked { checked, missing, now };
    let events = before.push(check) + failures;
    if failures.len() == 0 {
        assert(events =~= before.push(check));
        assert(events.drop_last() =~= before);
        law_failures_add_up(before);
    } else {
        let fewer = failures.drop_last();
        law_last_successful_check_stands(before, checked, missing, now, fewer);
        assert(events.drop_last() =~= before.push(check) + fewer);
        law_advances_add_up((tally(before, is_failure()) + fewer.len()) as int, 1);
    }
}

/// The failure counter holds the number of failed checks, modulo the range of
/// a counter.
pub proof fn law_failures_add_up(events: Seq<TrustlineEvent>)
    ensures
        replayed(events).check_failures == wrapped(tally(events, is_failure()) as int),
    decreases events.len(),
{
    if events.len() > 0 {
        let earlier = events.drop_last();
        law_failures_add_up(earlier);
        law_advances_add_up(tally(earlier, is_failure()) as int, 1);
    }
}

/// Until a check succeeds no asset is known and the timestamp is 0.
pub proof fn law_failures_confirm_nothing(failures: Seq<TrustlineEvent>)
    requires
        forall|i: int| 0 <= i < failures.len() ==> #[trigger] failures[i] is Failed,
    ensures
        replayed(failures).missing == Map::<Seq<char>, bool>::empty(),
        replayed(failures).last_success_unix == 0,
    decreases failures.len(),
{
    if failures.len() > 0 {
        law_failures_confirm_nothing(failures.drop_last());
    }
}

/// A list of codes, or of entries, reads code by code as it is written.
pub proof fn law_lists_read_as_they_are_written(
    borrowed: Seq<&str>,
    owned: Seq<String>,
    entries: Seq<(String, bool)>,
    i: int,
)
    ensures
        str_views(borrowed).len() == borrowed.len(),
        string_views(owned).len() == owned.len(),
        entry_views(entries).len() == entries.len(),
        0 <= i < borrowed.len() ==> str_views(borrowed)[i] == borrowed[i]@,
        0 <= i < owned.len() ==> string_views(owned)[i] == owned[i]@,
        0 <= i < entries.len() ==> entry_views(entries)[i] == (entries[i].0@, entries[i].1),
{
}

/// After a check, whatever came before it and however many failures came after
/// it, the listing holds exactly the assets that the check evaluated, each with
/// the flag whether it was among the missing; looking an asset up says the
/// same, and the timestamp is that of the check.
pub proof fn law_last_check_is_what_is_shown(
    before: Seq<TrustlineEvent>,
    checked: Seq<Seq<char>>,
    missing: Seq<Seq<char>>,
    now: i64,
    failures: Seq<TrustlineEvent>,
    code: Seq<char>,
    absent: bool,
)
    requires
        forall|i: int| 0 <= i < failures.len() ==> #[trigger] failures[i] is Failed,
    ensures
        sorted_entries(
            replayed(
                before.push(TrustlineEvent::Checked { checked, missing, now }) + failures,
            ).missing,
        ).contains((code, absent)) <==> checked.contains(code) && absent == missing.contains(code),
        lookup(
            replayed(
                before.push(TrustlineEvent::Checked { checked, missing, now }) + failures,
            ).missing,
            code,
        ) == Some(absent) <==> checked.contains(code) && absent == missing.contains(code),
        lookup(
            replayed(
                before.push(TrustlineEvent::Checked { checked, missing, now }) + failures,
            ).missing,
            code,
        ) is None <==> !checked.contains(code),
        replayed(
            before.push(TrustlineEvent::Checked { checked, missing, now }) + failures,
        ).last_success_unix == now,
{
    law_last_successful_check_stands(before, checked, missing, now, failures);
    law_check_result_has_a_listing(checked, missing);
    law_listing_agrees_with_lookup(
        sorted_entries(check_result(checked, missing)),
        code,
        absent,
    );
}

/// After any history of checks, of two entries of the listing the earlier has
/// the lesser byte at the first place where the UTF-8 forms of their codes
/// differ, or is a proper prefix of the later; it never continues it.
pub proof fn law_listing_is_in_byte_order(events: Seq<TrustlineEvent>, i: int, j: int, k: int)
    requires
        0 <= i < j < sorted_entries(replayed(events).missing).len(),
    ensures
        ({
            let earlier = encode_utf8(sorted_entries(replayed(events).missing)[i].0);
            let later = encode_utf8(sorted_entries(replayed(events).missing)[j].0);
            &&& 0 <= k < earlier.len() && k < later.len() && earlier[k] != later[k] && (forall|
                h: int,
            |
                0 <= h < k ==> #[trigger] earlier[h] == later[h]) ==> (earlier[k] as int) < (
            later[k] as int)
            &&& later.len() <= earlier.len() ==> exists|h: int|
                0 <= h < later.len() && #[trigger] earlier[h] != later[h]
        }),
{
    let entries = sorted_entries(replayed(events).missing);
    let (a, b) = (entries[i].0, entries[j].0);
    let (earlier, later) = (encode_utf8(a), encode_utf8(b));
    law_every_history_has_a_listing(events);
    assert(code_before(a, b));
    if 0 <= k < earlier.len() && k < later.len() && earlier[k] != later[k] && (forall|h: int|
        0 <= h < k ==> #[trigger] earlier[h] == later[h]) {
        law_lesser_byte_comes_first(a, b, k);
    }
    if later.len() <= earlier.len() && forall|h: int|
        0 <= h < later.len() ==> #[trigger] earlier[h] == later[h] {
        law_code_order_is_irreflexive(a);
        if later.len() < earlier.len() {
            law_prefix_comes_first(b, a);
            law_code_order_is_transitive(a, b, a);
        } else {
            assert(earlier =~= later);
            vstd::utf8::encode_utf8_decode_utf8(a);
            vstd::utf8::encode_utf8_decode_utf8(b);
        }
    }
}

/// Each failed check raises the failure counter by one, which starts over
/// behind the largest number, and a successful one leaves it alone.
pub proof fn law_failure_raises_the_counter_alone(
    state: TrustlineState,
    checked: Seq<Seq<char>>,
    missing: Seq<Seq<char>>,
    now: i64,
)
    ensures
        learned(state, TrustlineEvent::Failed).check_failures == if state.check_failures
            == u64::MAX {
            0
        } else {
            state.check_failures + 1
        },
        learned(state, TrustlineEvent::Failed).missing == state.missing,
        learned(state, TrustlineEvent::Failed).last_success_unix == state.last_success_unix,
        learned(
            state,
            TrustlineEvent::Checked { checked, missing, now },
        ).check_failures == state.check_failures,
        learned(
            state,
            TrustlineEvent::Checked { checked, missing, now },
        ).last_success_unix == now,
{
}

} // verus!
