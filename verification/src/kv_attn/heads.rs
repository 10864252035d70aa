//! Which cached row a query head reads.
//!
//! A query has `full_heads` heads, and every `repeat_factor` of them in a row share one of the
//! `kv_heads` heads of the cache. The cache holds one row per batch entry, cached head and token.
use vstd::prelude::*;

verus! {

/// The sizes of one attention step.
#[derive(Clone, Copy, Debug, PartialEq, Eq, Structural)]
pub struct Heads {
    pub batch: usize,
    pub full_heads: usize,
    pub kv_heads: usize,
    pub repeat_factor: usize,
    pub tokens: usize,
    pub head_dim: usize,
}

impl Heads {
    /// Every cached head serves `repeat_factor` query heads.
    pub open spec fn grouped(&self) -> bool {
        &&& self.repeat_factor > 0
        &&& self.full_heads % self.repeat_factor == 0
        &&& self.full_heads / self.repeat_factor == self.kv_heads
    }

    /// The query heads of all batch entries.
    pub open spec fn query_rows(&self) -> int {
        self.batch * self.full_heads
    }

    /// The rows of the cache.
    pub open spec fn cache_rows(&self) -> int {
        self.batch * self.kv_heads * self.tokens
    }

    /// The row of the cache that query row `query` reads for token `token`.
    pub open spec fn cache_row(&self, query: int, token: int) -> int {
        ((query / self.full_heads as int) * self.kv_heads + (query % self.full_heads as int)
            / self.repeat_factor as int) * self.tokens + token
    }

    /// The same query over a cache with a head for every query head.
    pub open spec fn ungrouped(&self) -> Heads {
        Heads { kv_heads: self.full_heads, repeat_factor: 1, ..*self }
    }

    /// Query rows, and scores, can be counted.
    pub open spec fn countable(&self) -> bool {
        &&& self.query_rows() <= usize::MAX
        &&& self.cache_rows() <= usize::MAX
        &&& self.query_rows() * self.tokens <= usize::MAX
    }

    /// The first row of the cache that query row `query` reads.
    pub fn first_cache_row(&self, query: usize) -> (row: usize)
        requires
            self.grouped(),
            self.countable(),
            query < self.query_rows(),
            self.tokens > 0,
        ensures
            row == self.cache_row(query as int, 0),
            row + self.tokens <= self.cache_rows(),
    {
        proof {
            rows_in_cache(*self, query as int, self.tokens - 1);
            head_in_cache(*self, query as int);
            let entry = query as int / self.full_heads as int;
            let kv = (query as int % self.full_heads as int) / self.repeat_factor as int;
            let lead = entry * self.kv_heads + kv;
            assert(0 <= entry * self.kv_heads && lead <= lead * self.tokens) by (nonlinear_arith)
                requires
                    lead == entry * self.kv_heads + kv,
                    entry >= 0,
                    lead >= 0,
                    self.kv_heads >= 0,
                    self.tokens >= 1,
            ;
        }
        let entry: usize = query / self.full_heads;
        let head: usize = (query % self.full_heads) / self.repeat_factor;
        (entry * self.kv_heads + head) * self.tokens
    }
}

/// The batch entry and the cached head of a query row exist.
pub proof fn head_in_cache(heads: Heads, query: int)
    requires
        heads.grouped(),
        0 <= query < heads.query_rows(),
    ensures
        heads.full_heads > 0,
        0 <= query / (heads.full_heads as int) < heads.batch,
        0 <= (query % heads.full_heads as int) / (heads.repeat_factor as int) < heads.kv_heads,
{
    let full = heads.full_heads as int;
    let repeat = heads.repeat_factor as int;
    let kv = heads.kv_heads as int;
    let batch = heads.batch as int;
    assert(full > 0) by (nonlinear_arith)
        requires
            0 <= query < batch * full,
            full >= 0,
    ;
    let entry = query / full;
    assert(0 <= entry < batch) by (nonlinear_arith)
        requires
            0 <= query < batch * full,
            full > 0,
            entry == query / full,
    ;
    let within = query % full;
    assert(full == kv * repeat) by (nonlinear_arith)
        requires
            full % repeat == 0,
            full / repeat == kv,
            repeat > 0,
    ;
    let head = within / repeat;
    assert(0 <= head < kv) by (nonlinear_arith)
        requires
            0 <= within < full,
            full == kv * repeat,
            repeat > 0,
            head == within / repeat,
    ;
}

/// The batch entries of a grouped query times the cached heads can be counted.
pub proof fn lemma_kv_rows(heads: Heads)
    requires
        heads.grouped(),
        heads.query_rows() <= usize::MAX,
    ensures
        0 <= heads.batch * heads.kv_heads <= usize::MAX,
        0 <= heads.cache_rows(),
{
    let batch = heads.batch as int;
    let full = heads.full_heads as int;
    let kv = heads.kv_heads as int;
    let repeat = heads.repeat_factor as int;
    assert(kv <= full) by (nonlinear_arith)
        requires
            kv == full / repeat,
            repeat > 0,
            full >= 0,
    ;
    assert(0 <= batch * kv <= batch * full) by (nonlinear_arith)
        requires
            0 <= kv <= full,
            0 <= batch,
    ;
    assert(0 <= (batch * kv) * heads.tokens) by (nonlinear_arith)
        requires
            0 <= batch * kv,
            0 <= heads.tokens,
    ;
}

/// Every query row reads rows of the cache, whatever the token.
pub proof fn rows_in_cache(heads: Heads, query: int, token: int)
    requires
        heads.grouped(),
        0 <= query < heads.query_rows(),
        0 <= token < heads.tokens,
    ensures
        0 <= heads.cache_row(query, token) < heads.cache_rows(),
{
    head_in_cache(heads, query);
    let entry = query / heads.full_heads as int;
    let head = (query % heads.full_heads as int) / heads.repeat_factor as int;
    let kv = heads.kv_heads as int;
    let batch = heads.batch as int;
    let tokens = heads.tokens as int;
    let lead = entry * kv + head;
    assert(0 <= lead < batch * kv) by (nonlinear_arith)
        requires
            lead == entry * kv + head,
            0 <= entry < batch,
            0 <= head < kv,
    ;
    assert(0 <= lead * tokens + token < (batch * kv) * tokens) by (nonlinear_arith)
        requires
            0 <= lead < batch * kv,
            0 <= token < tokens,
    ;
}

/// Query heads of one group read the same rows, and heads of different groups or batch entries
/// read different rows.
pub proof fn heads_share_rows_by_group(heads: Heads, left: int, right: int, token: int)
    requires
        heads.grouped(),
        0 <= left < heads.query_rows(),
        0 <= right < heads.query_rows(),
        0 <= token < heads.tokens,
    ensures
        heads.cache_row(left, token) == heads.cache_row(right, token) <==> left
            / heads.repeat_factor as int == right / heads.repeat_factor as int,
{
    lemma_group(heads, left);
    lemma_group(heads, right);
    let a = left / heads.repeat_factor as int;
    let b = right / heads.repeat_factor as int;
    let tokens = heads.tokens as int;
    assert(a * tokens + token == b * tokens + token <==> a == b) by (nonlinear_arith)
        requires
            tokens > 0,
    ;
}

/// Without groups, every query row has rows of its own, in the order of the query rows.
pub proof fn ungrouped_rows_in_order(heads: Heads, query: int, token: int)
    requires
        0 <= query < heads.query_rows(),
        0 <= token < heads.tokens,
    ensures
        heads.ungrouped().grouped(),
        heads.ungrouped().cache_row(query, token) == query * heads.tokens + token,
{
    lemma_group(heads.ungrouped(), query);
}

/// The batch entry and the cached head of a query row together number its group.
proof fn lemma_group(heads: Heads, query: int)
    requires
        heads.grouped(),
        0 <= query < heads.query_rows(),
    ensures
        (query / heads.full_heads as int) * heads.kv_heads + (query % heads.full_heads as int)
            / heads.repeat_factor as int == query / heads.repeat_factor as int,
{
    head_in_cache(heads, query);
    let full = heads.full_heads as int;
    let repeat = heads.repeat_factor as int;
    let kv = heads.kv_heads as int;
    let entry = query / full;
    let within = query % full;
    let head = within / repeat;
    let rest = within % repeat;
    assert(full == kv * repeat) by (nonlinear_arith)
        requires
            full % repeat == 0,
            full / repeat == kv,
            repeat > 0,
    ;
    assert(query == entry * full + within) by (nonlinear_arith)
        requires
            full > 0,
            entry == query / full,
            within == query % full,
    ;
    assert(within == head * repeat + rest && 0 <= rest < repeat) by (nonlinear_arith)
        requires
            repeat > 0,
            head == within / repeat,
            rest == within % repeat,
    ;
    assert(query == (entry * kv + head) * repeat + rest) by (nonlinear_arith)
        requires
            query == entry * full + within,
            full == kv * repeat,
            within == head * repeat + rest,
    ;
    vstd::arithmetic::div_mod::lemma_fundamental_div_mod_converse(
        query,
        repeat,
        entry * kv + head,
        rest,
    );
}

} // verus!
