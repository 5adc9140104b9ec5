//! Paging and batching parameters for large competitions.

use vstd::prelude::*;
use vstd::string::*;
use crate::sorting::{insert_stable, select_sorted};
use crate::text::{begins_with, owned, starts_with, str_eq};

verus! {

/// Page size used when none is asked for.
pub const DEFAULT_PAGE_SIZE: i32 = 50;

/// Largest page size that is served.
pub const MAX_PAGE_SIZE: i32 = 500;

/// Which page of a listing is asked for. Pages count from 1.
#[derive(Clone, Copy, Debug, PartialEq, Eq, Structural)]
pub struct PaginationParams {
    pub page: i32,
    pub page_size: i32,
}

impl PaginationParams {
    /// Parameters as `new` leaves them: a page from 1 up, a page size
    /// between 1 and `MAX_PAGE_SIZE`.
    pub open spec fn normalized(self) -> bool {
        self.page >= 1 && 1 <= self.page_size <= MAX_PAGE_SIZE
    }

    /// Builds the parameters, raising a page below 1 to 1 and bringing the
    /// page size into `1..=MAX_PAGE_SIZE`.
    pub fn new(page: i32, page_size: i32) -> (r: PaginationParams)
        ensures
            r.page == (if page < 1 {
                1
            } else {
                page
            }),
            r.page_size == (if page_size < 1 {
                1
            } else if page_size > MAX_PAGE_SIZE {
                MAX_PAGE_SIZE
            } else {
                page_size
            }),
            r.normalized(),
    {
        PaginationParams {
            page: if page < 1 {
                1
            } else {
                page
            },
            page_size: if page_size < 1 {
                1
            } else if page_size > MAX_PAGE_SIZE {
                MAX_PAGE_SIZE
            } else {
                page_size
            },
        }
    }

    /// How many rows precede the page.
    pub fn offset(&self) -> (r: i32)
        requires
            self.page > i32::MIN,
            i32::MIN <= (self.page - 1) * self.page_size <= i32::MAX,
        ensures
            r == (self.page - 1) * self.page_size,
    {
        (self.page - 1) * self.page_size
    }

    /// How many rows the page holds at most.
    pub fn limit(&self) -> (r: i32)
        ensures
            r == self.page_size,
    {
        self.page_size
    }
}

impl Default for PaginationParams {
    fn default() -> (r: PaginationParams)
        ensures
            r.page == 1,
            r.page_size == DEFAULT_PAGE_SIZE,
    {
        PaginationParams { page: 1, page_size: DEFAULT_PAGE_SIZE }
    }
}

/// One page of a listing together with its position in the whole.
#[derive(Debug)]
pub struct PaginatedResult<T> {
    pub items: Vec<T>,
    pub page: i32,
    pub page_size: i32,
    pub total_items: i32,
    pub total_pages: i32,
    pub has_next: bool,
    pub has_previous: bool,
}

/// The number of pages that `total_items` rows fill: the quotient rounded
/// up.
pub open spec fn pages_for(total_items: int, page_size: int) -> int {
    (total_items + page_size - 1) / page_size
}

impl<T> PaginatedResult<T> {
    /// Wraps a page. There is a next page while the page number is below
    /// the number of pages, and a previous one from page 2 on.
    pub fn new(items: Vec<T>, page: i32, page_size: i32, total_items: i32) -> (r: PaginatedResult<T>)
        requires
            page_size > 0,
            total_items >= 0,
            total_items + page_size <= i32::MAX,
        ensures
            r.items == items,
            r.page == page,
            r.page_size == page_size,
            r.total_items == total_items,
            r.total_pages == pages_for(total_items as int, page_size as int),
            r.has_next == (page < r.total_pages),
            r.has_previous == (page > 1),
    {
        let total_pages: i32 = (total_items + page_size - 1) / page_size;
        PaginatedResult {
            items,
            page,
            page_size,
            total_items,
            total_pages,
            has_next: page < total_pages,
            has_previous: page > 1,
        }
    }
}

/// The pages cover all rows, and one page fewer would not.
pub proof fn lemma_pages_for(total_items: int, page_size: int)
    requires
        page_size > 0,
        total_items >= 0,
    ensures
        pages_for(total_items, page_size) * page_size >= total_items,
        (pages_for(total_items, page_size) - 1) * page_size < total_items || total_items == 0,
        total_items == 0 ==> pages_for(total_items, page_size) == 0,
{
    let n = total_items + page_size - 1;
    assert(n == page_size * (n / page_size) + n % page_size && 0 <= n % page_size < page_size)
        by (nonlinear_arith)
        requires
            page_size > 0,
            n >= 0,
    ;
    assert(pages_for(total_items, page_size) * page_size == page_size * (n / page_size))
        by (nonlinear_arith)
        requires
            pages_for(total_items, page_size) == n / page_size,
    ;
    assert((pages_for(total_items, page_size) - 1) * page_size == page_size * (n / page_size)
        - page_size) by (nonlinear_arith)
        requires
            pages_for(total_items, page_size) == n / page_size,
    ;
    if total_items == 0 {
        assert(n / page_size == 0) by (nonlinear_arith)
            requires
                0 <= n < page_size,
        ;
    }
}

/// Limits of the connection pool. Timeouts are in seconds.
#[derive(Clone, Copy, Debug, PartialEq, Eq, Structural)]
pub struct PoolSettings {
    pub max_connections: u32,
    pub min_connections: u32,
    pub acquire_timeout: u64,
    pub idle_timeout: u64,
}

impl PoolSettings {
    /// Settings for large competitions.
    pub fn for_large_competition() -> (r: PoolSettings)
        ensures
            r == (PoolSettings {
                max_connections: 25,
                min_connections: 5,
                acquire_timeout: 5,
                idle_timeout: 600,
            }),
    {
        PoolSettings { max_connections: 25, min_connections: 5, acquire_timeout: 5, idle_timeout: 600 }
    }

    /// Settings for small competitions.
    pub fn for_small_competition() -> (r: PoolSettings)
        ensures
            r == (PoolSettings {
                max_connections: 5,
                min_connections: 1,
                acquire_timeout: 15,
                idle_timeout: 180,
            }),
    {
        PoolSettings { max_connections: 5, min_connections: 1, acquire_timeout: 15, idle_timeout: 180 }
    }
}

impl Default for PoolSettings {
    fn default() -> (r: PoolSettings)
        ensures
            r == (PoolSettings {
                max_connections: 10,
                min_connections: 2,
                acquire_timeout: 10,
                idle_timeout: 300,
            }),
    {
        PoolSettings { max_connections: 10, min_connections: 2, acquire_timeout: 10, idle_timeout: 300 }
    }
}

/// Splits bulk work into batches of a bounded size.
#[derive(Clone, Copy, Debug, PartialEq, Eq, Structural)]
pub struct BatchOperator {
    batch_size: usize,
}

impl BatchOperator {
    /// The batch size that `new` settles on: the requested one, brought
    /// into `1..=1000`.
    pub open spec fn clamped(batch_size: usize) -> usize {
        if batch_size < 1 {
            1
        } else if batch_size > 1000 {
            1000
        } else {
            batch_size
        }
    }

    pub closed spec fn size(self) -> usize {
        self.batch_size
    }

    pub fn new(batch_size: usize) -> (r: BatchOperator)
        ensures
            r.size() == Self::clamped(batch_size),
    {
        BatchOperator {
            batch_size: if batch_size < 1 {
                1
            } else if batch_size > 1000 {
                1000
            } else {
                batch_size
            },
        }
    }

    /// The size of a batch.
    pub fn batch_size(&self) -> (r: usize)
        ensures
            r == self.size(),
    {
        self.batch_size
    }
}

/// Timing figures of one kind of operation, in nanoseconds.
#[derive(Debug)]
pub struct PerformanceStats {
    pub operation_name: String,
    pub count: usize,
    pub average: u64,
    pub min: u64,
    pub max: u64,
    pub median: u64,
}

pub open spec fn every_timing() -> spec_fn(u64) -> bool {
    |d: u64| true
}

pub open spec fn by_length() -> spec_fn(u64) -> int {
    |d: u64| d as int
}

/// The timings from the shortest to the longest.
pub open spec fn ascending(durations: Seq<u64>) -> Seq<u64> {
    select_sorted(durations, every_timing(), by_length())
}

/// The sum of the timings.
pub open spec fn total_of(durations: Seq<u64>) -> int
    decreases durations.len(),
{
    if durations.len() == 0 {
        0
    } else {
        total_of(durations.drop_last()) + durations.last()
    }
}

/// The middle of the timings: the middle one of an odd number, the mean
/// of the two middle ones of an even number, rounded down.
pub open spec fn median_of(sorted: Seq<u64>) -> int {
    let n = sorted.len() as int;
    if n % 2 == 0 {
        (sorted[n / 2 - 1] + sorted[n / 2]) / 2
    } else {
        sorted[n / 2] as int
    }
}

/// The sum of `n` timings is at most `n` times the longest possible one.
pub proof fn lemma_total_of_bound(durations: Seq<u64>)
    ensures
        0 <= total_of(durations) <= durations.len() * u64::MAX,
    decreases durations.len(),
{
    if durations.len() > 0 {
        lemma_total_of_bound(durations.drop_last());
        assert((durations.len() - 1) * u64::MAX + u64::MAX == durations.len() * u64::MAX)
            by (nonlinear_arith);
    }
}

/// The figures of the timings of one operation: how many there are,
/// their mean (rounded down), the shortest, the longest and the median.
/// There are no figures for an operation without timings.
pub fn compute_stats(operation_name: &str, durations: &Vec<u64>) -> (r: Option<PerformanceStats>)
    ensures
        r is Some <==> durations@.len() > 0,
        r matches Some(s) ==> {
            &&& s.operation_name@ == operation_name@
            &&& s.count == durations@.len()
            &&& s.average == total_of(durations@) / (durations@.len() as int)
            &&& s.min == ascending(durations@)[0]
            &&& s.max == ascending(durations@)[durations@.len() - 1]
            &&& s.median == median_of(ascending(durations@))
        },
{
    if durations.len() == 0 {
        return None;
    }
    let ghost keep = every_timing();
    let ghost key = by_length();
    let mut sorted: Vec<u64> = Vec::new();
    let mut keys: Vec<u128> = Vec::new();
    let mut total: u128 = 0;
    let mut i: usize = 0;
    proof {
        assert(durations@.take(0) =~= Seq::<u64>::empty());
    }
    while i < durations.len()
        invariant
            i <= durations@.len(),
            keep == every_timing(),
            key == by_length(),
            sorted@ == select_sorted(durations@.take(i as int), keep, key),
            sorted@.len() == keys@.len(),
            sorted@.len() == i,
            forall|k: int| 0 <= k < keys@.len() ==> keys@[k] as int == key(sorted@[k]),
            total == total_of(durations@.take(i as int)),
        decreases durations@.len() - i,
    {
        proof {
            assert(durations@.take(i as int + 1).drop_last() =~= durations@.take(i as int));
            assert(durations@.take(i as int + 1).last() == durations@[i as int]);
            lemma_total_of_bound(durations@.take(i as int));
            assert(i * u64::MAX + u64::MAX <= usize::MAX * u64::MAX + u64::MAX) by (nonlinear_arith)
                requires
                    i <= usize::MAX,
            ;
            crate::sorting::lemma_stable_insert(sorted@, key, durations@[i as int]);
        }
        let d = durations[i];
        total = total + d as u128;
        insert_stable(&mut sorted, &mut keys, d, d as u128, Ghost(key));
        i += 1;
    }
    proof {
        assert(durations@.take(i as int) =~= durations@);
        lemma_total_of_bound(durations@);
        crate::sorting::lemma_select_sorted_is_sorted(durations@, keep, key);
    }
    let count = sorted.len();
    let average: u128 = total / (count as u128);
    proof {
        assert(total / (count as u128) <= u64::MAX) by (nonlinear_arith)
            requires
                0 <= total <= count * u64::MAX,
                count > 0,
        ;
    }
    let median: u64 = if count % 2 == 0 {
        ((sorted[count / 2 - 1] as u128 + sorted[count / 2] as u128) / 2) as u64
    } else {
        sorted[count / 2]
    };
    Some(
        PerformanceStats {
            operation_name: owned(operation_name),
            count,
            average: average as u64,
            min: sorted[0],
            max: sorted[count - 1],
            median,
        },
    )
}

/// The shortest timing comes first and the longest last.
pub proof fn lemma_ascending(durations: Seq<u64>)
    ensures
        ascending(durations).len() == durations.len(),
        ascending(durations).to_multiset() == durations.to_multiset(),
        forall|i: int, j: int|
            0 <= i < j < ascending(durations).len() ==> ascending(durations)[i] <= ascending(
                durations,
            )[j],
{
    let q = ascending(durations);
    crate::sorting::lemma_select_sorted_members(durations, every_timing(), by_length());
    crate::sorting::lemma_select_sorted_is_sorted(durations, every_timing(), by_length());
    lemma_keep_all(durations);
    assert forall|i: int, j: int| 0 <= i < j < q.len() implies q[i] <= q[j] by {
        assert(by_length()(q[i]) <= by_length()(q[j]));
    }
}

proof fn lemma_keep_all(durations: Seq<u64>)
    ensures
        durations.filter(every_timing()) == durations,
    decreases durations.len(),
{
    reveal(Seq::filter);
    if durations.len() > 0 {
        lemma_keep_all(durations.drop_last());
        assert(durations.drop_last().push(durations.last()) =~= durations);
    }
}

/// A cached value with the second (since the epoch) at which it expires.
#[derive(Debug)]
pub struct CacheEntry<T> {
    pub key: String,
    pub data: T,
    pub expires_at: u64,
}

/// A cache of query results that expire after a fixed time to live. The
/// cache does not read the clock: every operation that depends on the time
/// is told the current second.
#[derive(Debug)]
pub struct QueryCache<T> {
    entries: Vec<CacheEntry<T>>,
    ttl_seconds: u64,
}

/// The entry stored under `key`: the latest one, should there be several.
pub open spec fn entry_for<T>(entries: Seq<CacheEntry<T>>, key: Seq<char>) -> Option<CacheEntry<T>>
    decreases entries.len(),
{
    if entries.len() == 0 {
        None
    } else if entries.last().key@ == key {
        Some(entries.last())
    } else {
        entry_for(entries.drop_last(), key)
    }
}

pub open spec fn under_other_keys<T>(key: Seq<char>) -> spec_fn(CacheEntry<T>) -> bool {
    |e: CacheEntry<T>| e.key@ != key
}

pub open spec fn outside_prefix<T>(prefix: Seq<char>) -> spec_fn(CacheEntry<T>) -> bool {
    |e: CacheEntry<T>| !begins_with(e.key@, prefix)
}

pub open spec fn live_at<T>(now: u64) -> spec_fn(CacheEntry<T>) -> bool {
    |e: CacheEntry<T>| e.expires_at > now
}

/// Which entries an operation of the cache leaves in place.
#[derive(Clone, Copy)]
enum Retention<'a> {
    OtherKeys(&'a str),
    OutsidePrefix(&'a str),
    LiveAt(u64),
}

impl<'a> Retention<'a> {
    spec fn keeps<T>(self) -> spec_fn(CacheEntry<T>) -> bool {
        match self {
            Retention::OtherKeys(key) => under_other_keys::<T>(key@),
            Retention::OutsidePrefix(prefix) => outside_prefix::<T>(prefix@),
            Retention::LiveAt(now) => live_at::<T>(now),
        }
    }
}

/// Dropping the entries of one key changes nothing for the other keys,
/// and leaves nothing under that key.
pub proof fn lemma_entry_for_other_keys<T>(entries: Seq<CacheEntry<T>>, dropped: Seq<char>, key: Seq<char>)
    ensures
        key != dropped ==> entry_for(entries.filter(under_other_keys::<T>(dropped)), key)
            == entry_for(entries, key),
        entry_for(entries.filter(under_other_keys::<T>(dropped)), dropped) is None,
    decreases entries.len(),
{
    let keep = under_other_keys::<T>(dropped);
    if entries.len() == 0 {
        entries.lemma_filter_len(keep);
    } else {
        let front = entries.drop_last();
        lemma_entry_for_other_keys(front, dropped, key);
        assert(entries =~= front.push(entries.last()));
        front.lemma_filter_push(entries.last(), keep);
        if keep(entries.last()) {
            assert(front.filter(keep).push(entries.last()).drop_last() =~= front.filter(keep));
        }
    }
}

/// What was stored under a key is found under it, and storing it changes
/// nothing for the other keys.
pub proof fn lemma_entry_after_set<T>(entries: Seq<CacheEntry<T>>, stored: CacheEntry<T>, key: Seq<char>)
    ensures
        entry_for(entries.filter(under_other_keys::<T>(stored.key@)).push(stored), stored.key@)
            == Some(stored),
        key != stored.key@ ==> entry_for(
            entries.filter(under_other_keys::<T>(stored.key@)).push(stored),
            key,
        ) == entry_for(entries, key),
{
    let rest = entries.filter(under_other_keys::<T>(stored.key@));
    lemma_entry_for_other_keys(entries, stored.key@, key);
    assert(rest.push(stored).drop_last() =~= rest);
}

/// An entry that is found under a key past a clean-up was found before
/// and had not expired; an expired one is not found any more.
pub proof fn lemma_entry_after_cleanup<T>(entries: Seq<CacheEntry<T>>, now: u64, key: Seq<char>)
    ensures
        entry_for(entries.filter(live_at::<T>(now)), key) matches Some(e) ==> e.expires_at > now
            && e.key@ == key,
        (entry_for(entries, key) matches Some(e) && e.expires_at > now) ==> entry_for(
            entries.filter(live_at::<T>(now)),
            key,
        ) == entry_for(entries, key),
    decreases entries.len(),
{
    let keep = live_at::<T>(now);
    if entries.len() == 0 {
        entries.lemma_filter_len(keep);
    } else {
        let front = entries.drop_last();
        lemma_entry_after_cleanup(front, now, key);
        assert(entries =~= front.push(entries.last()));
        front.lemma_filter_push(entries.last(), keep);
        if keep(entries.last()) {
            assert(front.filter(keep).push(entries.last()).drop_last() =~= front.filter(keep));
        }
    }
}

impl<T> QueryCache<T> {
    /// The entries of the cache, oldest first.
    pub closed spec fn entries(self) -> Seq<CacheEntry<T>> {
        self.entries@
    }

    /// The time to live of new entries, in seconds.
    pub closed spec fn ttl(self) -> u64 {
        self.ttl_seconds
    }

    /// An empty cache whose entries live for `ttl_seconds`.
    pub fn new(ttl_seconds: u64) -> (r: QueryCache<T>)
        ensures
            r.entries().len() == 0,
            r.ttl() == ttl_seconds,
    {
        QueryCache { entries: Vec::new(), ttl_seconds }
    }

    /// The value stored under `key`, unless it has expired by `now`.
    pub fn get(&self, key: &str, now: u64) -> (r: Option<&T>)
        ensures
            r is Some <==> (entry_for(self.entries(), key@) matches Some(e) && e.expires_at > now),
            r matches Some(v) ==> *v == entry_for(self.entries(), key@)->Some_0.data,
    {
        let mut i: usize = self.entries.len();
        proof {
            assert(self.entries@.take(i as int) =~= self.entries@);
        }
        while i > 0
            invariant
                i <= self.entries@.len(),
                entry_for(self.entries@, key@) == entry_for(self.entries@.take(i as int), key@),
            decreases i,
        {
            proof {
                assert(self.entries@.take(i as int).last() == self.entries@[i as int - 1]);
                assert(self.entries@.take(i as int).drop_last() =~= self.entries@.take(i as int - 1));
            }
            i -= 1;
            if str_eq(self.entries[i].key.as_str(), key) {
                if self.entries[i].expires_at > now {
                    return Some(&self.entries[i].data);
                } else {
                    return None;
                }
            }
        }
        None
    }

    fn retain_where(&mut self, rule: Retention)
        ensures
            final(self).entries() == old(self).entries().filter(rule.keeps::<T>()),
            final(self).ttl() == old(self).ttl(),
    {
        let ghost keep = rule.keeps::<T>();
        let ghost before = self.entries@;
        let mut turned: Vec<CacheEntry<T>> = Vec::new();
        while self.entries.len() > 0
            invariant
                turned@.len() + self.entries@.len() == before.len(),
                self.ttl_seconds == old(self).ttl_seconds,
                forall|k: int| 0 <= k < self.entries@.len() ==> self.entries@[k] == before[k],
                forall|k: int| 0 <= k < turned@.len() ==> turned@[k] == before[before.len() - 1 - k],
            decreases self.entries@.len(),
        {
            let e = self.entries.pop().unwrap();
            turned.push(e);
        }
        let mut kept: Vec<CacheEntry<T>> = Vec::new();
        proof {
            before.take(0).lemma_filter_len(keep);
            assert(before.take(0) =~= Seq::<CacheEntry<T>>::empty());
            assert(before.take(0).filter(keep) =~= Seq::<CacheEntry<T>>::empty());
        }
        while turned.len() > 0
            invariant
                turned@.len() <= before.len(),
                forall|k: int| 0 <= k < turned@.len() ==> turned@[k] == before[before.len() - 1 - k],
                kept@ == before.take(before.len() - turned@.len()).filter(keep),
                keep == rule.keeps::<T>(),
            decreases turned@.len(),
        {
            let ghost taken = before.len() - turned@.len();
            let ghost prev = turned@;
            let e = turned.pop().unwrap();
            proof {
                assert(e == prev[prev.len() - 1]);
                assert(e == before[taken]);
                assert(before.take(taken + 1) =~= before.take(taken).push(before[taken]));
                before.take(taken).lemma_filter_push(before[taken], keep);
                assert forall|k: int| 0 <= k < turned@.len() implies turned@[k] == before[before.len()
                    - 1 - k] by {
                    assert(turned@[k] == prev[k]);
                }
            }
            let stays = match rule {
                Retention::OtherKeys(key) => !str_eq(e.key.as_str(), key),
                Retention::OutsidePrefix(prefix) => !starts_with(e.key.as_str(), prefix),
                Retention::LiveAt(now) => e.expires_at > now,
            };
            if stays {
                kept.push(e);
            }
        }
        proof {
            assert(before.take(before.len() as int) =~= before);
        }
        self.entries = kept;
    }

    /// Stores a value under `key` at the second `now`; it expires one time
    /// to live later. A value stored under the key before is replaced.
    pub fn set(&mut self, key: String, data: T, now: u64)
        requires
            now + old(self).ttl() <= u64::MAX,
        ensures
            final(self).entries() == old(self).entries().filter(under_other_keys::<T>(key@)).push(
                CacheEntry { key, data, expires_at: (now + old(self).ttl()) as u64 },
            ),
            final(self).ttl() == old(self).ttl(),
    {
        let expires_at: u64 = now + self.ttl_seconds;
        self.retain_where(Retention::OtherKeys(key.as_str()));
        self.entries.push(CacheEntry { key, data, expires_at });
    }

    /// Drops the value stored under `key`, if there is one.
    pub fn invalidate(&mut self, key: &str)
        ensures
            final(self).entries() == old(self).entries().filter(under_other_keys::<T>(key@)),
            final(self).ttl() == old(self).ttl(),
    {
        self.retain_where(Retention::OtherKeys(key));
    }

    /// Drops every value whose key begins with `prefix`.
    pub fn invalidate_prefix(&mut self, prefix: &str)
        ensures
            final(self).entries() == old(self).entries().filter(outside_prefix::<T>(prefix@)),
            final(self).ttl() == old(self).ttl(),
    {
        self.retain_where(Retention::OutsidePrefix(prefix));
    }

    /// Drops every value that has expired by `now`.
    pub fn cleanup_expired(&mut self, now: u64)
        ensures
            final(self).entries() == old(self).entries().filter(live_at::<T>(now)),
            final(self).ttl() == old(self).ttl(),
    {
        self.retain_where(Retention::LiveAt(now));
    }

    /// How many values the cache holds, expired ones included.
    pub fn len(&self) -> (r: usize)
        ensures
            r == self.entries().len(),
    {
        self.entries.len()
    }
}

} // verus!
