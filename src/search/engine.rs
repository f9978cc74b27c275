//! The search engine: validate, look up the memo, compile, scan, store.

use vstd::prelude::*;
use vstd::utf8::*;
use vstd::slice::slice_to_vec;
use crate::search::cache::{
    CacheEntry, CacheKey, CacheKeyView, ResultMap, after_get, after_put, has_key, index_of_key, key_view,
    keys_distinct, lru_capacity, lru_clear, lru_contains, lru_entries, lru_get, lru_len, lru_new,
    lru_put, lru_shape,
};
use crate::search::error::SearchError;
use crate::search::matcher::{LineMatcher, line_regex_accepts};
use crate::search::pattern::{normalize_pattern, normalized_pattern};
pub use crate::search::scanner::SearchResult;
use crate::search::scanner::{
    SearchResultView, duplicate_results, result_views, scan_buffer, scan_results,
};

verus! {

/// How many searches the engine memoizes.
pub const CACHE_CAPACITY: usize = 100;

/// The outcome of searching the bytes `buffer` for `query` under the two
/// modes: no results for an empty query, `None` when the query does not
/// compile, and otherwise every match of the compiled pattern, scanned line
/// by line.
pub open spec fn search_outcome(
    query: Seq<char>,
    case_sensitive: bool,
    regex_enabled: bool,
    buffer: Seq<u8>,
) -> Option<Seq<SearchResultView>> {
    if query.len() == 0 {
        Some(Seq::empty())
    } else {
        let pattern = normalized_pattern(query, case_sensitive, regex_enabled);
        if line_regex_accepts(pattern) {
            Some(scan_results(pattern, buffer))
        } else {
            None
        }
    }
}

/// What holds of the memo at all times: no key twice, and no more entries
/// than it can hold.
pub open spec fn memo_shape(entries: Seq<CacheEntry>) -> bool {
    &&& keys_distinct(entries)
    &&& entries.len() <= CACHE_CAPACITY
}

/// A memo entry that records a real search: a non-empty query whose
/// stored results are the outcome of that search.
pub open spec fn faithful(e: CacheEntry) -> bool {
    &&& e.0.0.len() > 0
    &&& search_outcome(e.0.0, e.0.1, e.0.2, e.0.3) == Some(e.1)
}

pub open spec fn all_faithful(entries: Seq<CacheEntry>) -> bool {
    forall|i: int| 0 <= i < entries.len() ==> faithful(#[trigger] entries[i])
}

proof fn lemma_after_get_faithful(entries: Seq<CacheEntry>, k: CacheKeyView)
    requires
        all_faithful(entries),
    ensures
        all_faithful(after_get(entries, k)),
{
    if has_key(entries, k) {
        let i = index_of_key(entries, k);
        let r = after_get(entries, k);
        assert forall|j: int| 0 <= j < r.len() implies faithful(#[trigger] r[j]) by {
            if j == 0 {
                assert(r[j] == entries[i]);
            } else if j - 1 < i {
                assert(r[j] == entries[j - 1]);
            } else {
                assert(r[j] == entries[j]);
            }
        }
    }
}

proof fn lemma_after_put_faithful(
    entries: Seq<CacheEntry>,
    capacity: nat,
    k: CacheKeyView,
    v: Seq<SearchResultView>,
)
    requires
        all_faithful(entries),
        faithful((k, v)),
        0 < capacity,
        entries.len() <= capacity,
    ensures
        all_faithful(after_put(entries, capacity, k, v)),
{
    let r = after_put(entries, capacity, k, v);
    assert forall|j: int| 0 <= j < r.len() implies faithful(#[trigger] r[j]) by {
        if j == 0 {
            assert(r[j] == (k, v));
        } else if has_key(entries, k) {
            let i = index_of_key(entries, k);
            if j - 1 < i {
                assert(r[j] == entries[j - 1]);
            } else {
                assert(r[j] == entries[j]);
            }
        } else if entries.len() >= capacity {
            assert(r[j] == entries.drop_last()[j - 1]);
        } else {
            assert(r[j] == entries[j - 1]);
        }
    }
}

/// Searches a text buffer for a query, line by line, and memoizes the
/// results of the last searches it ran.
pub struct SearchEngine {
    max_buffer_size: usize,
    case_sensitive: bool,
    regex_enabled: bool,
    cache: ResultMap,
}

impl SearchEngine {
    #[verifier::type_invariant]
    spec fn inv(self) -> bool {
        &&& lru_shape(self.cache)
        &&& lru_capacity(self.cache) == CACHE_CAPACITY
        &&& all_faithful(lru_entries(self.cache))
    }

    /// The memoized searches, most recently used first.
    pub closed spec fn cache_entries(self) -> Seq<CacheEntry> {
        lru_entries(self.cache)
    }

    pub closed spec fn is_case_sensitive(self) -> bool {
        self.case_sensitive
    }

    pub closed spec fn is_regex_enabled(self) -> bool {
        self.regex_enabled
    }

    /// The buffer size the engine was made for; it only informs callers.
    pub closed spec fn buffer_size_hint(self) -> usize {
        self.max_buffer_size
    }

    /// The key a search of `buffer` for `query` is memoized under.
    pub open spec fn key_for(self, query: Seq<char>, buffer: Seq<u8>) -> CacheKeyView {
        (query, self.is_case_sensitive(), self.is_regex_enabled(), buffer)
    }

    /// What searching `buffer` for `query` gives with this engine's modes.
    pub open spec fn outcome(self, query: Seq<char>, buffer: Seq<u8>) -> Option<
        Seq<SearchResultView>,
    > {
        search_outcome(query, self.is_case_sensitive(), self.is_regex_enabled(), buffer)
    }

    /// A new engine with an empty memo; it never fails.
    pub fn new(max_buffer_size: usize, case_sensitive: bool, regex_enabled: bool) -> (r: Result<
        SearchEngine,
        SearchError,
    >)
        ensures
            r matches Ok(e) && e.buffer_size_hint() == max_buffer_size && e.is_case_sensitive()
                == case_sensitive && e.is_regex_enabled() == regex_enabled && e.cache_entries()
                == Seq::<CacheEntry>::empty() && memo_shape(e.cache_entries()),
    {
        Ok(
            SearchEngine {
                max_buffer_size,
                case_sensitive,
                regex_enabled,
                cache: lru_new(CACHE_CAPACITY),
            },
        )
    }

    /// Looks a search of `buffer` for `pattern` up in the memo. A memoized
    /// search is handed back and becomes the most recently used; an empty
    /// pattern is never looked up.
    pub fn cached(&mut self, buffer: &[u8], pattern: &str) -> (r: Option<Vec<SearchResult>>)
        ensures
            final(self).is_case_sensitive() == old(self).is_case_sensitive(),
            final(self).is_regex_enabled() == old(self).is_regex_enabled(),
            final(self).buffer_size_hint() == old(self).buffer_size_hint(),
            memo_shape(final(self).cache_entries()),
            r is Some <==> pattern@.len() > 0 && has_key(
                old(self).cache_entries(),
                old(self).key_for(pattern@, buffer@),
            ),
            r matches Some(v) ==> old(self).outcome(pattern@, buffer@) == Some(result_views(v@)),
            r matches Some(v) ==> result_views(v@) == old(self).cache_entries()[index_of_key(
                old(self).cache_entries(),
                old(self).key_for(pattern@, buffer@),
            )].1,
            pattern@.len() == 0 ==> final(self).cache_entries() == old(self).cache_entries(),
            pattern@.len() > 0 ==> final(self).cache_entries() == after_get(
                old(self).cache_entries(),
                old(self).key_for(pattern@, buffer@),
            ),
    {
        proof {
            use_type_invariant(&*self);
        }
        if pattern.is_empty() {
            return None;
        }
        let key: CacheKey = (
            String::from_str(pattern),
            self.case_sensitive,
            self.regex_enabled,
            slice_to_vec(buffer),
        );
        let ghost entries = lru_entries(self.cache);
        let ghost k = self.key_for(pattern@, buffer@);
        proof {
            lemma_after_get_faithful(entries, k);
        }
        lru_get(&mut self.cache, &key)
    }

    /// Memoizes a finished search of a non-empty query made with this
    /// engine's modes, as the most recently used entry; any other outcome
    /// leaves the memo alone.
    pub fn store(&mut self, outcome: ScanOutcome)
        ensures
            final(self).is_case_sensitive() == old(self).is_case_sensitive(),
            final(self).is_regex_enabled() == old(self).is_regex_enabled(),
            final(self).buffer_size_hint() == old(self).buffer_size_hint(),
            memo_shape(final(self).cache_entries()),
            ({
                let k = outcome.key();
                if k.0.len() > 0 && k.1 == old(self).is_case_sensitive() && k.2 == old(
                    self,
                ).is_regex_enabled() {
                    final(self).cache_entries() == after_put(
                        old(self).cache_entries(),
                        CACHE_CAPACITY as nat,
                        k,
                        outcome.found(),
                    )
                } else {
                    final(self).cache_entries() == old(self).cache_entries()
                }
            }),
    {
        proof {
            use_type_invariant(&*self);
            use_type_invariant(&outcome);
        }
        let ScanOutcome { key, results } = outcome;
        if !key.0.as_str().is_empty() && key.1 == self.case_sensitive && key.2 == self.regex_enabled {
            proof {
                lemma_after_put_faithful(
                    lru_entries(self.cache),
                    CACHE_CAPACITY as nat,
                    key_view(key),
                    result_views(results@),
                );
            }
            lru_put(&mut self.cache, key, results);
        }
    }

    /// Searches the bytes `buffer` for `pattern`. An empty pattern gives
    /// no results and leaves the memo alone. Otherwise a memoized search is
    /// handed back and becomes the most recently used; a new one is
    /// compiled, scanned and stored, pushing out the least recently used
    /// search when the memo is full. A pattern that does not compile gives
    /// `InvalidPattern` and stores nothing.
    pub fn search_buffer(&mut self, buffer: &[u8], pattern: &str) -> (r: Result<
        Vec<SearchResult>,
        SearchError,
    >)
        ensures
            final(self).is_case_sensitive() == old(self).is_case_sensitive(),
            final(self).is_regex_enabled() == old(self).is_regex_enabled(),
            final(self).buffer_size_hint() == old(self).buffer_size_hint(),
            memo_shape(final(self).cache_entries()),
            match r {
                Ok(v) => old(self).outcome(pattern@, buffer@) == Some(result_views(v@)),
                Err(_) => old(self).outcome(pattern@, buffer@) is None,
            },
            pattern@.len() == 0 || r is Err ==> final(self).cache_entries() == old(
                self,
            ).cache_entries(),
            match r {
                Ok(v) => pattern@.len() > 0 ==> final(self).cache_entries() == after_put(
                    old(self).cache_entries(),
                    CACHE_CAPACITY as nat,
                    old(self).key_for(pattern@, buffer@),
                    result_views(v@),
                ),
                Err(_) => true,
            },
    {
        proof {
            use_type_invariant(&*self);
        }
        if pattern.is_empty() {
            let none: Vec<SearchResult> = Vec::new();
            assert(result_views(none@) =~= Seq::<SearchResultView>::empty());
            return Ok(none);
        }
        let ghost entries = self.cache_entries();
        let ghost k = self.key_for(pattern@, buffer@);
        match self.cached(buffer, pattern) {
            Some(hit) => {
                proof {
                    let i = index_of_key(entries, k);
                    assert(entries[i] == (k, entries[i].1));
                }
                return Ok(hit);
            },
            None => {},
        }
        let outcome = search_uncached(buffer, pattern, self.case_sensitive, self.regex_enabled)?;
        let results = outcome.results();
        self.store(outcome);
        Ok(results)
    }

    /// Searches `text` for `pattern`: a search of its UTF-8 bytes, as by
    /// `search_buffer`.
    pub fn search_text(&mut self, text: &str, pattern: &str) -> (r: Result<
        Vec<SearchResult>,
        SearchError,
    >)
        ensures
            final(self).is_case_sensitive() == old(self).is_case_sensitive(),
            final(self).is_regex_enabled() == old(self).is_regex_enabled(),
            final(self).buffer_size_hint() == old(self).buffer_size_hint(),
            memo_shape(final(self).cache_entries()),
            match r {
                Ok(v) => old(self).outcome(pattern@, encode_utf8(text@)) == Some(
                    result_views(v@),
                ),
                Err(_) => old(self).outcome(pattern@, encode_utf8(text@)) is None,
            },
            pattern@.len() == 0 || r is Err ==> final(self).cache_entries() == old(
                self,
            ).cache_entries(),
            match r {
                Ok(v) => pattern@.len() > 0 ==> final(self).cache_entries() == after_put(
                    old(self).cache_entries(),
                    CACHE_CAPACITY as nat,
                    old(self).key_for(pattern@, encode_utf8(text@)),
                    result_views(v@),
                ),
                Err(_) => true,
            },
    {
        self.search_buffer(text.as_bytes(), pattern)
    }

    /// Drops every memoized search.
    pub fn clear_cache(&mut self)
        ensures
            final(self).is_case_sensitive() == old(self).is_case_sensitive(),
            final(self).is_regex_enabled() == old(self).is_regex_enabled(),
            final(self).buffer_size_hint() == old(self).buffer_size_hint(),
            final(self).cache_entries() == Seq::<CacheEntry>::empty(),
            memo_shape(final(self).cache_entries()),
    {
        proof {
            use_type_invariant(&*self);
        }
        lru_clear(&mut self.cache);
    }

    /// The number of memoized searches.
    pub fn get_cache_size(&self) -> (r: usize)
        ensures
            r == self.cache_entries().len(),
            memo_shape(self.cache_entries()),
    {
        proof {
            use_type_invariant(self);
        }
        lru_len(&self.cache)
    }

    /// Whether a search of `buffer` for `pattern` is memoized, so that the
    /// next such search is answered from the memo; the order of use is
    /// left as it is.
    pub fn is_cached(&self, buffer: &[u8], pattern: &str) -> (r: bool)
        ensures
            r == has_key(self.cache_entries(), self.key_for(pattern@, buffer@)),
    {
        let key: CacheKey = (
            String::from_str(pattern),
            self.case_sensitive,
            self.regex_enabled,
            slice_to_vec(buffer),
        );
        lru_contains(&self.cache, &key)
    }
}

/// A finished search: the query, modes and buffer it was run with, and its
/// results, which are always the outcome of that search.
pub struct ScanOutcome {
    key: CacheKey,
    results: Vec<SearchResult>,
}

impl ScanOutcome {
    #[verifier::type_invariant]
    spec fn inv(self) -> bool {
        search_outcome(self.key.0@, self.key.1, self.key.2, self.key.3@) == Some(
            result_views(self.results@),
        )
    }

    /// The query, modes and buffer searched.
    pub closed spec fn key(self) -> CacheKeyView {
        key_view(self.key)
    }

    /// What the search found.
    pub closed spec fn found(self) -> Seq<SearchResultView> {
        result_views(self.results@)
    }

    /// A copy of what the search found, which is its outcome.
    pub fn results(&self) -> (r: Vec<SearchResult>)
        ensures
            result_views(r@) == self.found(),
            search_outcome(self.key().0, self.key().1, self.key().2, self.key().3) == Some(
                self.found(),
            ),
    {
        proof {
            use_type_invariant(self);
        }
        duplicate_results(&self.results)
    }
}

/// Compiles `pattern` under the two modes and scans `buffer` with it,
/// without any memo; an empty pattern finds nothing and is not compiled.
pub fn search_uncached(
    buffer: &[u8],
    pattern: &str,
    case_sensitive: bool,
    regex_enabled: bool,
) -> (r: Result<ScanOutcome, SearchError>)
    ensures
        r is Ok <==> search_outcome(pattern@, case_sensitive, regex_enabled, buffer@) is Some,
        r matches Ok(o) ==> o.key() == (pattern@, case_sensitive, regex_enabled, buffer@),
{
    let key: CacheKey = (
        String::from_str(pattern),
        case_sensitive,
        regex_enabled,
        slice_to_vec(buffer),
    );
    if pattern.is_empty() {
        let results: Vec<SearchResult> = Vec::new();
        assert(result_views(results@) =~= Seq::<SearchResultView>::empty());
        return Ok(ScanOutcome { key, results });
    }
    let final_pattern = normalize_pattern(pattern, case_sensitive, regex_enabled);
    let matcher = LineMatcher::compile(final_pattern.as_str())?;
    let results = scan_buffer(&matcher, buffer);
    Ok(ScanOutcome { key, results })
}

/// Searching is pure: two engines with the same modes, whatever they have
/// memoized, give the same results for the same query and buffer.
pub proof fn search_is_pure(
    first: SearchEngine,
    second: SearchEngine,
    query: Seq<char>,
    buffer: Seq<u8>,
    first_results: Seq<SearchResult>,
    second_results: Seq<SearchResult>,
)
    requires
        first.is_case_sensitive() == second.is_case_sensitive(),
        first.is_regex_enabled() == second.is_regex_enabled(),
        first.outcome(query, buffer) == Some(result_views(first_results)),
        second.outcome(query, buffer) == Some(result_views(second_results)),
    ensures
        result_views(first_results) == result_views(second_results),
{
}

/// Clearing the memo changes no outcome: an engine with its memo cleared
/// answers every query as it did before.
pub proof fn clearing_keeps_outcomes(
    before: SearchEngine,
    after: SearchEngine,
    query: Seq<char>,
    buffer: Seq<u8>,
)
    requires
        after.is_case_sensitive() == before.is_case_sensitive(),
        after.is_regex_enabled() == before.is_regex_enabled(),
        after.cache_entries() == Seq::<CacheEntry>::empty(),
    ensures
        after.outcome(query, buffer) == before.outcome(query, buffer),
{
}

/// An empty query finds nothing, in every mode and every buffer.
pub proof fn empty_query_finds_nothing(case_sensitive: bool, regex_enabled: bool, buffer: Seq<u8>)
    ensures
        search_outcome(Seq::empty(), case_sensitive, regex_enabled, buffer) == Some(
            Seq::<SearchResultView>::empty(),
        ),
{
}

/// Storing a new key in a full memo evicts its least recently used entry,
/// and no other: the memo stays full.
pub proof fn full_memo_evicts_least_recent(
    entries: Seq<CacheEntry>,
    capacity: nat,
    k: CacheKeyView,
    v: Seq<SearchResultView>,
)
    requires
        keys_distinct(entries),
        0 < capacity,
        entries.len() == capacity,
        !has_key(entries, k),
    ensures
        !has_key(after_put(entries, capacity, k, v), entries.last().0),
        after_put(entries, capacity, k, v).len() == capacity,
        forall|i: int|
            0 <= i < capacity - 1 ==> has_key(
                after_put(entries, capacity, k, v),
                #[trigger] entries[i].0,
            ),
{
    let r = after_put(entries, capacity, k, v);
    let last = entries.last().0;
    if has_key(r, last) {
        let j = choose|j: int| 0 <= j < r.len() && (#[trigger] r[j]).0 == last;
        if j == 0 {
            assert(entries[entries.len() - 1].0 == last);
        } else {
            assert(r[j] == entries[j - 1]);
            assert(entries[j - 1].0 == entries[entries.len() - 1].0);
        }
    }
    assert forall|i: int| 0 <= i < capacity - 1 implies has_key(r, #[trigger] entries[i].0) by {
        assert(r[i + 1] == entries[i]);
    }
}

/// A buffer of valid UTF-8 is searched exactly as the text it encodes:
/// `search_buffer` on it and `search_text` on its text agree.
pub proof fn valid_buffer_searches_as_its_text(
    query: Seq<char>,
    case_sensitive: bool,
    regex_enabled: bool,
    buffer: Seq<u8>,
)
    requires
        valid_utf8(buffer),
    ensures
        search_outcome(query, case_sensitive, regex_enabled, buffer) == search_outcome(
            query,
            case_sensitive,
            regex_enabled,
            encode_utf8(decode_utf8(buffer)),
        ),
{
    decode_utf8_encode_utf8(buffer);
}

/// A search of a new key in a full memo evicts the least recently used
/// search, and only it: the memo stays full and every other search stays
/// memoized.
pub proof fn full_engine_evicts_least_recent(
    before: SearchEngine,
    after: SearchEngine,
    query: Seq<char>,
    buffer: Seq<u8>,
    found: Seq<SearchResultView>,
)
    requires
        memo_shape(before.cache_entries()),
        before.cache_entries().len() == CACHE_CAPACITY,
        !has_key(before.cache_entries(), before.key_for(query, buffer)),
        after.cache_entries() == after_put(
            before.cache_entries(),
            CACHE_CAPACITY as nat,
            before.key_for(query, buffer),
            found,
        ),
    ensures
        !has_key(after.cache_entries(), before.cache_entries().last().0),
        after.cache_entries().len() == CACHE_CAPACITY,
        forall|i: int|
            0 <= i < CACHE_CAPACITY - 1 ==> has_key(
                after.cache_entries(),
                #[trigger] before.cache_entries()[i].0,
            ),
{
    full_memo_evicts_least_recent(
        before.cache_entries(),
        CACHE_CAPACITY as nat,
        before.key_for(query, buffer),
        found,
    );
}

} // verus!
