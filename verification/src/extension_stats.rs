//! The files of a scan counted by extension.

use vstd::prelude::*;
use crate::decimal::clamp_u64;
use crate::resource_row::RowModel;
use crate::resource_set::add_clamped;
use crate::resource_tree::flat_rows;
use crate::resource_tree::ResourceTree;

verus! {

/// The number and the total size of the files with one extension.
#[derive(Debug)]
pub struct ExtensionStats {
    /// The extension; empty for the files without one.
    pub key: String,
    pub count: u32,
    pub size: u64,
}

/// The statistics of one extension as a mathematical value.
pub ghost struct Tally {
    pub key: Seq<char>,
    pub count: u32,
    pub size: u64,
}

impl View for ExtensionStats {
    type V = Tally;

    open spec fn view(&self) -> Tally {
        Tally { key: self.key@, count: self.count, size: self.size }
    }
}

impl Clone for ExtensionStats {
    fn clone(&self) -> (r: Self)
        ensures
            r == *self,
    {
        ExtensionStats { key: self.key.clone(), count: self.count, size: self.size }
    }
}

impl ExtensionStats {
    /// The statistics of one extension.
    pub fn new(key: String, count: u32, size: u64) -> (r: Self)
        ensures
            r.key == key,
            r.count == count,
            r.size == size,
    {
        ExtensionStats { key, count, size }
    }
}

/// The views of the statistics, in order.
pub open spec fn tallies(v: Seq<ExtensionStats>) -> Seq<Tally> {
    Seq::new(v.len(), |i: int| v[i]@)
}

/// The place of the tally with the extension `key`; the number of
/// tallies where there is none.
pub open spec fn key_position(t: Seq<Tally>, key: Seq<char>) -> int
    decreases t.len(),
{
    if t.len() == 0 || t[0].key == key {
        0
    } else {
        1 + key_position(t.skip(1), key)
    }
}

/// `a + b`, or the largest `u64` where the sum is larger.
pub open spec fn sum_clamped(a: u64, b: u64) -> u64 {
    if a + b > u64::MAX {
        u64::MAX
    } else {
        (a + b) as u64
    }
}

/// `t` with one more file counted.
pub open spec fn bumped(t: Tally, size: u64) -> Tally {
    Tally {
        count: if t.count < u32::MAX {
            (t.count + 1) as u32
        } else {
            t.count
        },
        size: sum_clamped(t.size, size),
        ..t
    }
}

/// The tallies with one more file of the extension `key` counted: in
/// the tally of that extension, or in a new one after the others.
pub open spec fn counted(t: Seq<Tally>, key: Seq<char>, size: u64) -> Seq<Tally> {
    let at = key_position(t, key);
    if at < t.len() {
        t.update(at, bumped(t[at], size))
    } else {
        t.push(Tally { key, count: 1, size })
    }
}

/// The tallies of the files `rows`, one for each extension, in the
/// order in which the extensions first occur. A count stops at
/// `u32::MAX` and a size at `u64::MAX`.
pub open spec fn tally_of(rows: Seq<RowModel>) -> Seq<Tally>
    decreases rows.len(),
{
    if rows.len() == 0 {
        Seq::empty()
    } else {
        counted(tally_of(rows.drop_last()), rows.last().extension, rows.last().file.size)
    }
}

/// The number of tallies at the end of `t` that are smaller than
/// `size`.
pub open spec fn smaller_at_end(t: Seq<Tally>, size: u64) -> nat
    decreases t.len(),
{
    if t.len() > 0 && t.last().size < size {
        smaller_at_end(t.drop_last(), size) + 1
    } else {
        0
    }
}

/// `t` with `item` put behind the last tally that is at least as large.
pub open spec fn placed(t: Seq<Tally>, item: Tally) -> Seq<Tally> {
    t.insert(t.len() - smaller_at_end(t, item.size), item)
}

/// The tallies from the largest total size to the smallest; tallies
/// of equal size keep their order.
pub open spec fn ranked(t: Seq<Tally>) -> Seq<Tally>
    decreases t.len(),
{
    if t.len() == 0 {
        Seq::empty()
    } else {
        placed(ranked(t.drop_last()), t.last())
    }
}

/// The statistics by extension of the files `rows`, from the largest
/// total size to the smallest.
pub open spec fn histogram(rows: Seq<RowModel>) -> Seq<Tally> {
    ranked(tally_of(rows))
}

/// The number of the files `rows` with the extension `key`.
pub open spec fn count_with(rows: Seq<RowModel>, key: Seq<char>) -> nat
    decreases rows.len(),
{
    if rows.len() == 0 {
        0
    } else if rows.last().extension == key {
        count_with(rows.drop_last(), key) + 1
    } else {
        count_with(rows.drop_last(), key)
    }
}

/// The sizes of the files `rows` with the extension `key`, added up.
pub open spec fn size_with(rows: Seq<RowModel>, key: Seq<char>) -> nat
    decreases rows.len(),
{
    if rows.len() == 0 {
        0
    } else if rows.last().extension == key {
        size_with(rows.drop_last(), key) + rows.last().file.size as nat
    } else {
        size_with(rows.drop_last(), key)
    }
}

/// `n`, or the largest `u32` where `n` is larger.
pub open spec fn clamp_u32(n: nat) -> u32 {
    if n > u32::MAX {
        u32::MAX
    } else {
        n as u32
    }
}

/// No tally is larger than one before it.
pub open spec fn descending(t: Seq<Tally>) -> bool {
    forall|i: int, j: int| 0 <= i < j < t.len() ==> t[i].size >= t[j].size
}

/// `p` is the place of the first tally with the extension `key`, or
/// the number of tallies where there is none.
pub open spec fn is_key_place(t: Seq<Tally>, key: Seq<char>, p: int) -> bool {
    &&& 0 <= p <= t.len()
    &&& forall|j: int| 0 <= j < p ==> (#[trigger] t[j]).key != key
    &&& p < t.len() ==> t[p].key == key
}

/// `key_position` is the place of the key.
pub proof fn lemma_key_position(t: Seq<Tally>, key: Seq<char>)
    ensures
        is_key_place(t, key, key_position(t, key)),
    decreases t.len(),
{
    if t.len() > 0 && t[0].key != key {
        let rest = t.skip(1);
        lemma_key_position(rest, key);
        let p = key_position(rest, key);
        assert forall|j: int| 0 <= j < p + 1 implies (#[trigger] t[j]).key != key by {
            if j > 0 {
                assert(rest[j - 1] == t[j]);
            }
        }
        if p < rest.len() {
            assert(rest[p] == t[p + 1]);
        }
    }
}

/// The place of the key is `key_position`.
pub proof fn lemma_key_place_unique(t: Seq<Tally>, key: Seq<char>, p: int)
    requires
        is_key_place(t, key, p),
    ensures
        key_position(t, key) == p,
    decreases p,
{
    if p > 0 {
        let rest = t.skip(1);
        assert(t[0].key != key);
        assert forall|j: int| 0 <= j < p - 1 implies (#[trigger] rest[j]).key != key by {
            assert(rest[j] == t[j + 1]);
        }
        lemma_key_place_unique(rest, key, p - 1);
    }
}

/// Without a file there is no size.
pub proof fn lemma_no_files_no_size(rows: Seq<RowModel>, key: Seq<char>)
    requires
        count_with(rows, key) == 0,
    ensures
        size_with(rows, key) == 0,
    decreases rows.len(),
{
    if rows.len() > 0 {
        lemma_no_files_no_size(rows.drop_last(), key);
    }
}

/// The tallies of some files are exact: an extension has a tally
/// exactly where a file has it; its tally holds the number of the
/// files with it, at most `u32::MAX`, and their total size, at most
/// `u64::MAX`.
pub proof fn lemma_tally_exact(rows: Seq<RowModel>, key: Seq<char>)
    ensures
        ({
            let t = tally_of(rows);
            let at = key_position(t, key);
            &&& 0 <= at <= t.len()
            &&& count_with(rows, key) == 0 <==> at == t.len()
            &&& at < t.len() ==> t[at] == (Tally {
                key,
                count: clamp_u32(count_with(rows, key)),
                size: clamp_u64(size_with(rows, key)),
            })
        }),
    decreases rows.len(),
{
    let t = tally_of(rows);
    lemma_key_position(t, key);
    if rows.len() > 0 {
        let before = tally_of(rows.drop_last());
        let row = rows.last();
        lemma_tally_exact(rows.drop_last(), key);
        lemma_tally_exact(rows.drop_last(), row.extension);
        lemma_key_position(before, key);
        lemma_key_position(before, row.extension);
        let at = key_position(before, key);
        let place = key_position(before, row.extension);
        if place < before.len() {
            assert(t == before.update(place, bumped(before[place], row.file.size)));
            assert(is_key_place(t, key, at)) by {
                assert forall|j: int| 0 <= j < at implies (#[trigger] t[j]).key != key by {
                    assert(t[j].key == before[j].key);
                }
            }
        } else {
            assert(t == before.push(Tally { key: row.extension, count: 1, size: row.file.size }));
            if row.extension == key {
                lemma_no_files_no_size(rows.drop_last(), key);
                assert(is_key_place(t, key, at)) by {
                    assert forall|j: int| 0 <= j < at implies (#[trigger] t[j]).key != key by {
                        assert(t[j] == before[j]);
                    }
                }
            } else if at < before.len() {
                assert(is_key_place(t, key, at)) by {
                    assert forall|j: int| 0 <= j < at implies (#[trigger] t[j]).key != key by {
                        assert(t[j] == before[j]);
                    }
                }
            } else {
                assert(is_key_place(t, key, t.len() as int)) by {
                    assert forall|j: int| 0 <= j < t.len() implies (#[trigger] t[j]).key
                        != key by {
                        if j < before.len() {
                            assert(t[j] == before[j]);
                        }
                    }
                }
            }
        }
        if at < before.len() || row.extension == key {
            lemma_key_place_unique(t, key, at);
        } else {
            lemma_key_place_unique(t, key, t.len() as int);
        }
    }
}

/// No two tallies of some files have the same extension.
pub proof fn lemma_tally_keys_differ(rows: Seq<RowModel>, i: int, j: int)
    requires
        0 <= i < j < tally_of(rows).len(),
    ensures
        tally_of(rows)[i].key != tally_of(rows)[j].key,
    decreases rows.len(),
{
    let t = tally_of(rows);
    if rows.len() > 0 {
        let before = tally_of(rows.drop_last());
        let row = rows.last();
        lemma_key_position(before, row.extension);
        let place = key_position(before, row.extension);
        if place < before.len() {
            assert(t == before.update(place, bumped(before[place], row.file.size)));
            assert(t[i].key == before[i].key && t[j].key == before[j].key);
            lemma_tally_keys_differ(rows.drop_last(), i, j);
        } else {
            assert(t == before.push(Tally { key: row.extension, count: 1, size: row.file.size }));
            if j < before.len() {
                lemma_tally_keys_differ(rows.drop_last(), i, j);
            } else {
                assert(t[i] == before[i]);
            }
        }
    }
}

/// The tallies that `smaller_at_end` counts are the tallies at the end
/// that are smaller than `size`, and the tally before them is not.
pub proof fn lemma_smaller_at_end_bound(t: Seq<Tally>, size: u64)
    ensures
        smaller_at_end(t, size) <= t.len(),
        forall|j: int|
            t.len() - smaller_at_end(t, size) <= j < t.len() ==> (#[trigger] t[j]).size < size,
        smaller_at_end(t, size) < t.len() ==> t[t.len() - smaller_at_end(t, size) - 1].size
            >= size,
    decreases t.len(),
{
    if t.len() > 0 && t.last().size < size {
        let rest = t.drop_last();
        lemma_smaller_at_end_bound(rest, size);
        assert forall|j: int| t.len() - smaller_at_end(t, size) <= j < t.len() implies (
        #[trigger] t[j]).size < size by {
            if j < rest.len() {
                assert(rest[j] == t[j]);
            }
        }
        if smaller_at_end(t, size) < t.len() {
            assert(rest[rest.len() - smaller_at_end(rest, size) - 1] == t[t.len() - smaller_at_end(
                t,
                size,
            ) - 1]);
        }
    }
}

/// Putting a tally in its place keeps the tallies in descending order,
/// and keeps every tally that was there.
pub proof fn lemma_placed(t: Seq<Tally>, item: Tally)
    requires
        descending(t),
    ensures
        descending(placed(t, item)),
        placed(t, item).len() == t.len() + 1,
        placed(t, item).to_multiset() == t.to_multiset().insert(item),
{
    lemma_smaller_at_end_bound(t, item.size);
    let k = t.len() - smaller_at_end(t, item.size);
    let after = placed(t, item);
    assert forall|i: int, j: int| 0 <= i < j < after.len() implies after[i].size
        >= after[j].size by {
        if j < k {
            assert(after[i] == t[i] && after[j] == t[j]);
        } else if j == k {
            assert(after[i] == t[i]);
            assert(t[i].size >= t[k - 1].size);
        } else if i < k {
            assert(after[i] == t[i] && after[j] == t[j - 1]);
        } else if i == k {
            assert(after[j] == t[j - 1]);
        } else {
            assert(after[i] == t[i - 1] && after[j] == t[j - 1]);
        }
    }
    vstd::seq_lib::to_multiset_insert(t, k, item);
    assert(after.to_multiset() =~= t.to_multiset().insert(item));
}

/// The ranked tallies are the tallies in another order: in descending
/// order of size, with the same tallies as many times.
pub proof fn lemma_ranked(t: Seq<Tally>)
    ensures
        descending(ranked(t)),
        ranked(t).len() == t.len(),
        ranked(t).to_multiset() == t.to_multiset(),
    decreases t.len(),
{
    if t.len() > 0 {
        lemma_ranked(t.drop_last());
        lemma_placed(ranked(t.drop_last()), t.last());
        assert(t == t.drop_last().push(t.last()));
        vstd::seq_lib::to_multiset_build(t.drop_last(), t.last());
    } else {
        assert(ranked(t) == t);
    }
}

/// The statistics by extension are in descending order of size, and
/// they are the tallies of the files: each extension that a file has
/// occurs once among them, with the number and the total size of the
/// files that have it.
pub proof fn lemma_histogram(rows: Seq<RowModel>)
    ensures
        descending(histogram(rows)),
        histogram(rows).len() == tally_of(rows).len(),
        histogram(rows).to_multiset() == tally_of(rows).to_multiset(),
{
    lemma_ranked(tally_of(rows));
}

/// The place in `stats` of the extension `key`.
fn find_key(stats: &Vec<ExtensionStats>, key: &str) -> (r: usize)
    ensures
        r == key_position(tallies(stats@), key@),
        r <= stats@.len(),
{
    let mut i: usize = 0;
    assert(tallies(stats@).skip(0) == tallies(stats@));
    while i < stats.len()
        invariant
            i <= stats.len(),
            key_position(tallies(stats@), key@) == i + key_position(
                tallies(stats@).skip(i as int),
                key@,
            ),
        decreases stats.len() - i,
    {
        assert(tallies(stats@).skip(i as int)[0] == stats@[i as int]@);
        if stats[i].key.as_str().eq(key) {
            return i;
        }
        assert(tallies(stats@).skip(i as int).skip(1) == tallies(stats@).skip(i + 1));
        i += 1;
    }
    i
}

/// Counts one more file of the extension `key`.
fn count_file(stats: &mut Vec<ExtensionStats>, key: &str, size: u64)
    ensures
        tallies(final(stats)@) == counted(tallies(old(stats)@), key@, size),
{
    let at = find_key(stats, key);
    if at < stats.len() {
        let count = stats[at].count;
        let total = stats[at].size;
        stats[at].count = if count < u32::MAX {
            count + 1
        } else {
            count
        };
        stats[at].size = add_clamped(total, size);
        assert(tallies(stats@) == counted(tallies(old(stats)@), key@, size));
    } else {
        stats.push(ExtensionStats::new(key.to_owned(), 1, size));
        assert(tallies(stats@) == counted(tallies(old(stats)@), key@, size));
    }
}

/// Puts `item` behind the last of `sorted` that is at least as large.
fn place(sorted: &mut Vec<ExtensionStats>, item: ExtensionStats)
    ensures
        tallies(final(sorted)@) == placed(tallies(old(sorted)@), item@),
{
    let mut k: usize = sorted.len();
    assert(tallies(sorted@).take(k as int) == tallies(sorted@));
    while k > 0 && sorted[k - 1].size < item.size
        invariant
            k <= sorted.len(),
            sorted@ == old(sorted)@,
            smaller_at_end(tallies(sorted@), item.size) == (sorted.len() - k) + smaller_at_end(
                tallies(sorted@).take(k as int),
                item.size,
            ),
        decreases k,
    {
        assert(tallies(sorted@).take(k as int).last() == sorted@[k - 1]@);
        assert(tallies(sorted@).take(k as int).drop_last() == tallies(sorted@).take(k - 1));
        k -= 1;
    }
    proof {
        if k > 0 {
            assert(tallies(sorted@).take(k as int).last() == sorted@[k - 1]@);
        }
    }
    sorted.insert(k, item);
    assert(tallies(sorted@) == tallies(old(sorted)@).insert(k as int, item@));
}

impl ResourceTree {
    /// The number and the total size of the files by extension, from
    /// the largest total size to the smallest.
    pub fn build_extension_map(&self) -> (r: Vec<ExtensionStats>)
        ensures
            tallies(r@) == histogram(self.rows()),
    {
        let mut stats: Vec<ExtensionStats> = Vec::new();
        let ghost mut seen: Seq<RowModel> = Seq::empty();
        let n: usize = self.num_dirs();
        let mut si: usize = 0;
        assert(tallies(stats@) == tally_of(seen));
        while si < n
            invariant
                si <= n == self@.sets.len(),
                seen == flat_rows(self@.sets.take(si as int)),
                tallies(stats@) == tally_of(seen),
            decreases n - si,
        {
            let set = self.directory(si);
            let ghost base = seen;
            proof {
                let upto = self@.sets.take(si + 1);
                assert(upto.drop_last() == self@.sets.take(si as int));
                assert(upto.last() == set@);
                assert(base + set@.rows.take(0) == base);
            }
            let mut ri: usize = 0;
            while ri < set.resources.len()
                invariant
                    ri <= set.resources.len(),
                    seen == base + set@.rows.take(ri as int),
                    tallies(stats@) == tally_of(seen),
                decreases set.resources.len() - ri,
            {
                let row = &set.resources[ri];
                proof {
                    let next = seen.push(row@);
                    assert(next.drop_last() == seen);
                    assert(next.last() == row@);
                    assert(set@.rows.take(ri + 1) == set@.rows.take(ri as int).push(row@));
                    assert(next == base + set@.rows.take(ri + 1));
                    seen = next;
                }
                count_file(&mut stats, row.extension.as_str(), row.size());
                ri += 1;
            }
            assert(set@.rows.take(set.resources.len() as int) == set@.rows);
            si += 1;
        }
        assert(self@.sets.take(n as int) == self@.sets);
        let mut sorted: Vec<ExtensionStats> = Vec::new();
        let mut i: usize = 0;
        assert(tallies(sorted@) == ranked(tallies(stats@).take(0)));
        while i < stats.len()
            invariant
                i <= stats.len(),
                tallies(sorted@) == ranked(tallies(stats@).take(i as int)),
            decreases stats.len() - i,
        {
            proof {
                let upto = tallies(stats@).take(i + 1);
                assert(upto.drop_last() == tallies(stats@).take(i as int));
                assert(upto.last() == stats@[i as int]@);
            }
            place(&mut sorted, stats[i].clone());
            i += 1;
        }
        assert(tallies(stats@).take(stats.len() as int) == tallies(stats@));
        sorted
    }
}

} // verus!
