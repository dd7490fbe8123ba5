//! Usage accounting: what is logged for a request, and what the dashboard
//! and the analytics endpoints compute from the log.

use vstd::prelude::*;
use crate::dictionary::{counts, StringMap};
use crate::models::{copy_text, RecentActivity, UsageLog};
use crate::page_url::{parse_url, parsed_url};
use crate::records::{display_text, instant_to_text, RecordId};
use crate::text::same_text;

verus! {

/// The sums over a stretch of the usage log.
#[derive(Clone, Copy, Debug, PartialEq, Eq, Structural)]
pub struct UsageTotals {
    /// How many requests were logged.
    pub total_requests: usize,
    /// How many of them succeeded.
    pub successful_requests: usize,
    /// The response times of those that took measurable time, added up.
    pub total_response_time: u128,
    /// How many took measurable time.
    pub timed_requests: usize,
}

/// One logged request, as far as the sums read it.
pub open spec fn counted(totals: UsageTotals, success: bool, response_time_ms: i64) -> UsageTotals {
    UsageTotals {
        total_requests: (totals.total_requests + 1) as usize,
        successful_requests: if success {
            (totals.successful_requests + 1) as usize
        } else {
            totals.successful_requests
        },
        total_response_time: if response_time_ms > 0 {
            (totals.total_response_time + response_time_ms) as u128
        } else {
            totals.total_response_time
        },
        timed_requests: if response_time_ms > 0 {
            (totals.timed_requests + 1) as usize
        } else {
            totals.timed_requests
        },
    }
}

/// The sums over `logs`.
pub open spec fn totals_of(logs: Seq<UsageLog>) -> UsageTotals
    decreases logs.len(),
{
    if logs.len() == 0 {
        UsageTotals {
            total_requests: 0,
            successful_requests: 0,
            total_response_time: 0,
            timed_requests: 0,
        }
    } else {
        counted(totals_of(logs.drop_last()), logs.last().success, logs.last().response_time_ms)
    }
}

/// The sums stay within what was logged: no count exceeds the number of
/// entries, and the time is at most that number of longest responses.
pub proof fn lemma_totals_bounded(logs: Seq<UsageLog>)
    requires
        logs.len() <= usize::MAX,
    ensures
        totals_of(logs).total_requests == logs.len(),
        totals_of(logs).successful_requests <= logs.len(),
        totals_of(logs).timed_requests <= logs.len(),
        totals_of(logs).total_response_time <= logs.len() * i64::MAX,
    decreases logs.len(),
{
    if logs.len() > 0 {
        lemma_totals_bounded(logs.drop_last());
        assert((logs.len() - 1) * i64::MAX + i64::MAX == logs.len() * i64::MAX)
            by (nonlinear_arith);
        assert(logs.len() * i64::MAX <= usize::MAX * i64::MAX) by (nonlinear_arith)
            requires
                logs.len() <= usize::MAX,
        ;
    }
}

/// The sums over `logs`.
pub fn usage_totals(logs: &Vec<UsageLog>) -> (r: UsageTotals)
    ensures
        r == totals_of(logs@),
        r.total_requests == logs@.len(),
        r.successful_requests <= r.total_requests,
        r.timed_requests <= r.total_requests,
{
    let mut r = UsageTotals {
        total_requests: 0,
        successful_requests: 0,
        total_response_time: 0,
        timed_requests: 0,
    };
    let mut i: usize = 0;
    proof {
        assert(logs@.take(0) =~= Seq::empty());
    }
    while i < logs.len()
        invariant
            i <= logs.len(),
            r == totals_of(logs@.take(i as int)),
        decreases logs.len() - i,
    {
        proof {
            let next = logs@.take(i + 1);
            assert(next.drop_last() =~= logs@.take(i as int));
            assert(next.last() == logs@[i as int]);
            lemma_totals_bounded(logs@.take(i as int));
            assert(i * i64::MAX + i64::MAX <= usize::MAX * i64::MAX) by (nonlinear_arith)
                requires
                    i < usize::MAX,
            ;
        }
        let log = &logs[i];
        r.total_requests = r.total_requests + 1;
        if log.success {
            r.successful_requests = r.successful_requests + 1;
        }
        if log.response_time_ms > 0 {
            r.total_response_time = r.total_response_time + log.response_time_ms as u128;
            r.timed_requests = r.timed_requests + 1;
        }
        i += 1;
    }
    proof {
        assert(logs@.take(logs.len() as int) =~= logs@);
        lemma_totals_bounded(logs@);
    }
    r
}

/// The monthly allowance against which the dashboard counts.
pub const MONTHLY_ALLOWANCE: i64 = 10000;

/// Milliseconds in a day.
pub const DAY_MILLIS: i64 = 86_400_000;

/// How many requests of the monthly allowance are left.
pub fn requests_remaining(used_this_month: i64) -> (r: i64)
    requires
        MONTHLY_ALLOWANCE - used_this_month <= i64::MAX,
    ensures
        r == MONTHLY_ALLOWANCE - used_this_month,
{
    MONTHLY_ALLOWANCE - used_this_month
}

/// The number of days that a range parameter stands for.
pub open spec fn days_of(range: Seq<char>) -> i64 {
    if range == "24h"@ {
        1
    } else if range == "30d"@ {
        30
    } else {
        7
    }
}

/// The number of days that a range parameter stands for: one for `24h`,
/// thirty for `30d`, seven for `7d` and for anything else.
pub fn days_for_range(range: &str) -> (r: i64)
    ensures
        r == days_of(range@),
{
    if same_text(range, "24h") {
        1
    } else if same_text(range, "30d") {
        30
    } else {
        7
    }
}

/// The instant at which a period of `days` days that ends at `now` began.
pub fn period_start(now: i64, days: i64) -> (r: i64)
    requires
        i64::MIN <= now - days * DAY_MILLIS <= i64::MAX,
        i64::MIN <= days * DAY_MILLIS <= i64::MAX,
    ensures
        r == now - days * DAY_MILLIS,
{
    now - days * DAY_MILLIS
}

/// How many requests failed.
pub fn failed_requests(totals: &UsageTotals) -> (r: usize)
    requires
        totals.successful_requests <= totals.total_requests,
    ensures
        r == totals.total_requests - totals.successful_requests,
{
    totals.total_requests - totals.successful_requests
}

/// A logged request as shown on the dashboard.
pub fn recent_activity(log: &UsageLog) -> (r: RecentActivity)
    ensures
        r.timestamp@ == display_text(log.timestamp),
        r.endpoint@ == log.endpoint@,
        r.url_scraped.deep_view() == log.url_scraped.deep_view(),
        r.success == log.success,
        r.response_time_ms == log.response_time_ms,
{
    RecentActivity {
        timestamp: instant_to_text(log.timestamp),
        endpoint: log.endpoint.clone(),
        url_scraped: copy_text(&log.url_scraped),
        success: log.success,
        response_time_ms: log.response_time_ms,
    }
}

/// The endpoint under which page analyses are logged.
pub open spec fn scrape_endpoint() -> Seq<char> {
    "/api/scrape"@
}

/// The log entry for one page analysis: a success with the size of its
/// data, or a failure with its message and no data.
pub fn scrape_log(
    user_id: RecordId,
    api_key_id: RecordId,
    url: &str,
    now: i64,
    response_time_ms: i64,
    outcome: Result<i64, String>,
) -> (r: UsageLog)
    ensures
        r.id is None,
        r.user_id == user_id,
        r.api_key_id == api_key_id,
        r.endpoint@ == scrape_endpoint(),
        r.url_scraped.deep_view() == Some(url@),
        r.timestamp == now,
        r.response_time_ms == response_time_ms,
        r.success == outcome is Ok,
        match outcome {
            Ok(size) => r.error_message is None && r.data_size_bytes == size,
            Err(message) => r.error_message == Some(message) && r.data_size_bytes == 0,
        },
{
    let (success, error_message, data_size_bytes) = match outcome {
        Ok(size) => (true, None, size),
        Err(message) => (false, Some(message), 0),
    };
    UsageLog {
        id: None,
        user_id,
        api_key_id,
        endpoint: "/api/scrape".to_owned(),
        url_scraped: Some(url.to_owned()),
        timestamp: now,
        response_time_ms,
        success,
        error_message,
        data_size_bytes,
    }
}

/// How often each host occurs among `urls`: entries that are absent, that
/// do not parse or that have no host are passed over.
pub open spec fn host_tally(urls: Seq<Option<Seq<char>>>) -> Map<Seq<char>, nat>
    decreases urls.len(),
{
    if urls.len() == 0 {
        Map::empty()
    } else {
        let before = host_tally(urls.drop_last());
        match urls.last() {
            Some(url) => match parsed_url(url) {
                Some(parsed) => match parsed.host {
                    Some(host) => if before.contains_key(host) {
                        before.insert(host, before[host] + 1)
                    } else {
                        before.insert(host, 1)
                    },
                    None => before,
                },
                None => before,
            },
            None => before,
        }
    }
}

/// No host is counted more often than there are entries.
pub proof fn lemma_host_tally_bounded(urls: Seq<Option<Seq<char>>>)
    ensures
        forall|host: Seq<char>| #[trigger]
            host_tally(urls).contains_key(host) ==> 1 <= host_tally(urls)[host] <= urls.len(),
    decreases urls.len(),
{
    if urls.len() > 0 {
        let before = host_tally(urls.drop_last());
        lemma_host_tally_bounded(urls.drop_last());
        assert forall|host: Seq<char>| #[trigger]
            host_tally(urls).contains_key(host) implies 1 <= host_tally(urls)[host]
            <= urls.len() by {
            if before.contains_key(host) {
                assert(1 <= before[host] <= urls.len() - 1);
            }
        }
    }
}

/// How often each host occurs among the URLs that were analysed.
pub fn host_counts(urls: &Vec<Option<String>>) -> (r: StringMap<usize>)
    ensures
        counts(r@) == host_tally(urls.deep_view()),
{
    let mut r: StringMap<usize> = StringMap::new();
    let mut i: usize = 0;
    proof {
        assert(urls.deep_view().take(0) =~= Seq::empty());
        assert(counts(r@) =~= Map::empty());
    }
    while i < urls.len()
        invariant
            i <= urls.len(),
            counts(r@) == host_tally(urls.deep_view().take(i as int)),
        decreases urls.len() - i,
    {
        proof {
            let next = urls.deep_view().take(i + 1);
            assert(next.drop_last() =~= urls.deep_view().take(i as int));
            assert(next.last() == urls@[i as int].deep_view());
            lemma_host_tally_bounded(urls.deep_view().take(i as int));
        }
        match &urls[i] {
            Some(url) => match parse_url(url.as_str()) {
                Some(parsed) => match parsed.host {
                    Some(host) => {
                        let ghost before = r@;
                        let seen: usize = match r.get(&host) {
                            Some(n) => *n,
                            None => 0,
                        };
                        proof {
                            if before.contains_key(host@) {
                                assert(counts(before).contains_key(host@));
                                assert(counts(before)[host@] == seen);
                            } else {
                                assert(!counts(before).contains_key(host@));
                            }
                        }
                        let ghost name = host@;
                        r.insert(host, seen + 1);
                        proof {
                            assert(counts(r@) =~= counts(before).insert(name, (seen + 1) as nat));
                        }
                    },
                    None => {},
                },
                None => {},
            },
            None => {},
        }
        i += 1;
    }
    proof {
        assert(urls.deep_view().take(urls.len() as int) =~= urls.deep_view());
    }
    r
}

/// `chosen` lists the places of the `limit` most frequent entries of
/// `entries`, most frequent first: it names distinct places, as many as the
/// limit and the entries allow, in order of falling count, and no entry left
/// out occurs more often than one that was chosen.
pub open spec fn ranks_top(entries: Seq<(String, usize)>, chosen: Seq<int>, limit: nat) -> bool {
    &&& chosen.len() == if limit <= entries.len() {
        limit
    } else {
        entries.len()
    }
    &&& forall|k: int| 0 <= k < chosen.len() ==> 0 <= #[trigger] chosen[k] < entries.len()
    &&& forall|k: int, l: int| 0 <= k < l < chosen.len() ==> chosen[k] != chosen[l]
    &&& forall|k: int, l: int|
        0 <= k < l < chosen.len() ==> entries[chosen[k]].1 >= entries[chosen[l]].1
    &&& forall|j: int, k: int|
        0 <= j < entries.len() && 0 <= k < chosen.len() && !chosen.contains(j)
            ==> entries[j].1 <= entries[chosen[k]].1
}

/// The keys of `entries` at the places `chosen`.
pub open spec fn keys_at(entries: Seq<(String, usize)>, chosen: Seq<int>) -> Seq<Seq<char>> {
    Seq::new(chosen.len(), |k: int| entries[chosen[k]].0@)
}

/// The `limit` most frequent keys of a table of counts, most frequent
/// first. Which of several equally frequent keys comes first, or is left
/// out at the limit, is not laid down.
pub fn top_keys(table: &StringMap<usize>, limit: usize) -> (r: Vec<String>)
    ensures
        exists|chosen: Seq<int>|
            ranks_top(table.pairs(), chosen, limit as nat) && r.deep_view() == keys_at(
                table.pairs(),
                chosen,
            ),
{
    let entries = table.entries();
    let n = entries.len();
    let mut picked: Vec<bool> = Vec::new();
    let mut i: usize = 0;
    while i < n
        invariant
            i <= n,
            picked@.len() == i,
            forall|j: int| 0 <= j < i ==> !picked@[j],
        decreases n - i,
    {
        picked.push(false);
        i += 1;
    }
    let mut r: Vec<String> = Vec::new();
    let ghost mut chosen: Seq<int> = Seq::empty();
    let target: usize = if limit <= n {
        limit
    } else {
        n
    };
    proof {
        assert(r.deep_view() =~= keys_at(entries@, chosen));
    }
    while r.len() < target
        invariant
            n == entries@.len(),
            entries@ == table.pairs(),
            target == (if limit <= n {
                limit
            } else {
                n
            }),
            picked@.len() == n,
            r@.len() == chosen.len(),
            chosen.len() <= target,
            r.deep_view() == keys_at(entries@, chosen),
            forall|k: int| 0 <= k < chosen.len() ==> 0 <= #[trigger] chosen[k] < n,
            forall|k: int, l: int| 0 <= k < l < chosen.len() ==> chosen[k] != chosen[l],
            forall|j: int| 0 <= j < n ==> (#[trigger] picked@[j] <==> chosen.contains(j)),
            forall|k: int, l: int|
                0 <= k < l < chosen.len() ==> entries@[chosen[k]].1 >= entries@[chosen[l]].1,
            forall|j: int, k: int|
                0 <= j < n && 0 <= k < chosen.len() && !chosen.contains(j) ==> entries@[j].1
                    <= entries@[chosen[k]].1,
        decreases target - r.len(),
    {
        // Fewer places were chosen than there are, so the search below finds one.
        let mut best: usize = 0;
        let mut found = false;
        let mut j: usize = 0;
        while j < n
            invariant
                j <= n,
                n == entries@.len(),
                picked@.len() == n,
                found ==> best < n && !picked@[best as int],
                found ==> forall|m: int|
                    0 <= m < j && !picked@[m] ==> entries@[m].1 <= entries@[best as int].1,
                !found ==> forall|m: int| 0 <= m < j ==> picked@[m],
            decreases n - j,
        {
            if !picked[j] && (!found || entries[j].1 > entries[best].1) {
                best = j;
                found = true;
            }
            j += 1;
        }
        if !found {
            proof {
                assert forall|m: int| 0 <= m < n implies #[trigger] chosen.contains(m) by {
                    assert(picked@[m]);
                }
                lemma_all_picked(chosen, n as int);
                assert(false);
            }
            return r;
        }
        let ghost before = chosen;
        let ghost keys_before = r.deep_view();
        picked.set(best, true);
        r.push(entries[best].0.clone());
        proof {
            chosen = before.push(best as int);
            assert(!before.contains(best as int));
            assert forall|j: int| 0 <= j < n implies (#[trigger] picked@[j] <==> chosen.contains(
                j,
            )) by {
                if before.contains(j) {
                    let k = choose|k: int| 0 <= k < before.len() && before[k] == j;
                    assert(chosen[k] == j);
                }
                if j == best {
                    assert(chosen[before.len() as int] == j);
                }
                if chosen.contains(j) && j != best {
                    let k = choose|k: int| 0 <= k < chosen.len() && chosen[k] == j;
                    assert(before[k] == j);
                }
            }
            assert forall|k: int, l: int| 0 <= k < l < chosen.len() implies chosen[k]
                != chosen[l] by {
                if l == before.len() {
                    assert(before[k] == chosen[k]);
                    assert(before.contains(chosen[k]));
                }
            }
            assert forall|k: int, l: int| 0 <= k < l < chosen.len() implies entries@[chosen[k]].1
                >= entries@[chosen[l]].1 by {
                if l == before.len() {
                    assert(chosen[k] == before[k]);
                }
            }
            assert forall|j: int, k: int|
                0 <= j < n && 0 <= k < chosen.len() && !chosen.contains(j) implies entries@[j].1
                <= entries@[chosen[k]].1 by {
                assert(!before.contains(j)) by {
                    if before.contains(j) {
                        let q = choose|q: int| 0 <= q < before.len() && before[q] == j;
                        assert(chosen[q] == j);
                    }
                }
                assert(!picked@[j]);
                if k < before.len() {
                    assert(chosen[k] == before[k]);
                }
            }
            assert forall|k: int| 0 <= k < chosen.len() implies r.deep_view()[k] == keys_at(
                entries@,
                chosen,
            )[k] by {
                if k < before.len() {
                    assert(r.deep_view()[k] == keys_before[k]);
                    assert(chosen[k] == before[k]);
                }
            }
            assert(r.deep_view() =~= keys_at(entries@, chosen));
        }
    }
    proof {
        assert(chosen.len() == target);
        assert(ranks_top(table.pairs(), chosen, limit as nat));
    }
    r
}

/// Distinct places below `n` that cover every place below `n` are `n` in
/// number or more.
pub proof fn lemma_all_picked(chosen: Seq<int>, n: int)
    requires
        0 <= n,
        forall|j: int| 0 <= j < n ==> #[trigger] chosen.contains(j),
    ensures
        chosen.len() >= n,
    decreases n,
{
    if n > 0 {
        assert(chosen.contains(n - 1));
        let k = choose|k: int| 0 <= k < chosen.len() && chosen[k] == n - 1;
        let rest = chosen.remove(k);
        assert forall|j: int| 0 <= j < n - 1 implies #[trigger] rest.contains(j) by {
            assert(chosen.contains(j));
            let q = choose|q: int| 0 <= q < chosen.len() && chosen[q] == j;
            assert(q != k);
            if q < k {
                assert(rest[q] == j);
            } else {
                assert(rest[q - 1] == j);
            }
        }
        lemma_all_picked(rest, n - 1);
    }
}

} // verus!
