//! Token-bucket rate limiting on two axes: bytes and operations.

use vstd::prelude::*;

verus! {

/// The axis a number of tokens is counted on.
#[derive(Clone, Copy, Debug, PartialEq, Eq, Structural)]
pub enum TokenType {
    Bytes,
    Ops,
}

/// A bucket of `size` tokens, of which `budget` are available now.
#[derive(Clone, Copy, Debug, PartialEq, Eq, Structural)]
pub struct TokenBucket {
    pub size: u64,
    pub budget: u64,
}

impl TokenBucket {
    pub open spec fn wf(&self) -> bool {
        self.budget <= self.size
    }

    /// A full bucket of `size` tokens.
    pub fn new(size: u64) -> (r: TokenBucket)
        ensures
            r.size == size,
            r.budget == size,
            r.wf(),
    {
        TokenBucket { size, budget: size }
    }
}

/// Budget of an optional bucket as seen by contracts: an absent bucket never limits.
pub open spec fn bucket_budget(b: Option<TokenBucket>) -> Option<u64> {
    match b {
        Some(b) => Some(b.budget),
        None => None,
    }
}

/// Whether an optional bucket can hand out `n` tokens now.
pub open spec fn bucket_allows(b: Option<TokenBucket>, n: u64) -> bool {
    match b {
        Some(b) => n <= b.budget,
        None => true,
    }
}

/// The bucket after `n` tokens were taken (only meaningful when allowed).
pub open spec fn bucket_take(b: Option<TokenBucket>, n: u64) -> Option<TokenBucket> {
    match b {
        Some(b) => Some(TokenBucket { size: b.size, budget: (b.budget - n) as u64 }),
        None => None,
    }
}

/// The bucket after `n` tokens were given back, never above its size.
pub open spec fn bucket_give(b: Option<TokenBucket>, n: u64) -> Option<TokenBucket> {
    match b {
        Some(b) => Some(
            TokenBucket {
                size: b.size,
                budget: if b.budget + n > b.size { b.size } else { (b.budget + n) as u64 },
            },
        ),
        None => None,
    }
}

/// The bucket refilled to its size.
pub open spec fn bucket_fill(b: Option<TokenBucket>) -> Option<TokenBucket> {
    match b {
        Some(b) => Some(TokenBucket { size: b.size, budget: b.size }),
        None => None,
    }
}

pub open spec fn bucket_wf(b: Option<TokenBucket>) -> bool {
    match b {
        Some(b) => b.wf(),
        None => true,
    }
}

/// A rate limiter with an optional bucket per axis. When a request cannot be
/// served the limiter becomes blocked until its replenish timer fires, which
/// refills both buckets.
#[derive(Clone, Copy, Debug, PartialEq, Eq, Structural)]
pub struct RateLimiter {
    pub bytes: Option<TokenBucket>,
    pub ops: Option<TokenBucket>,
    pub blocked: bool,
}

/// The buckets' budgets, the part of a limiter that a refund must restore.
pub open spec fn budgets(l: RateLimiter) -> (Option<u64>, Option<u64>) {
    (bucket_budget(l.bytes), bucket_budget(l.ops))
}

impl RateLimiter {
    pub open spec fn wf(&self) -> bool {
        bucket_wf(self.bytes) && bucket_wf(self.ops)
    }

    pub open spec fn bucket(&self, kind: TokenType) -> Option<TokenBucket> {
        match kind {
            TokenType::Bytes => self.bytes,
            TokenType::Ops => self.ops,
        }
    }

    pub open spec fn with_bucket(&self, kind: TokenType, b: Option<TokenBucket>) -> RateLimiter {
        match kind {
            TokenType::Bytes => RateLimiter { bytes: b, ..*self },
            TokenType::Ops => RateLimiter { ops: b, ..*self },
        }
    }

    /// A limiter that never limits.
    pub fn unlimited() -> (r: RateLimiter)
        ensures
            r.bytes.is_none(),
            r.ops.is_none(),
            !r.blocked,
    {
        RateLimiter { bytes: None, ops: None, blocked: false }
    }

    /// A limiter with the given bucket sizes, both buckets full.
    pub fn new(bytes_size: Option<u64>, ops_size: Option<u64>) -> (r: RateLimiter)
        ensures
            r.wf(),
            !r.blocked,
            r.bytes == (match bytes_size {
                Some(n) => Some(TokenBucket { size: n, budget: n }),
                None => None::<TokenBucket>,
            }),
            r.ops == (match ops_size {
                Some(n) => Some(TokenBucket { size: n, budget: n }),
                None => None::<TokenBucket>,
            }),
    {
        let bytes = match bytes_size {
            Some(n) => Some(TokenBucket::new(n)),
            None => None,
        };
        let ops = match ops_size {
            Some(n) => Some(TokenBucket::new(n)),
            None => None,
        };
        RateLimiter { bytes, ops, blocked: false }
    }

    pub fn is_blocked(&self) -> (r: bool)
        ensures
            r == self.blocked,
    {
        self.blocked
    }

    /// Takes `tokens` of `kind` if the budget allows it. Otherwise nothing is
    /// taken and the limiter becomes blocked.
    pub fn consume(&mut self, tokens: u64, kind: TokenType) -> (r: bool)
        requires
            old(self).wf(),
        ensures
            final(self).wf(),
            r == bucket_allows(old(self).bucket(kind), tokens),
            r ==> *final(self) == old(self).with_bucket(kind, bucket_take(old(self).bucket(kind), tokens)),
            !r ==> *final(self) == (RateLimiter { blocked: true, ..*old(self) }),
    {
        let b = match kind {
            TokenType::Bytes => self.bytes,
            TokenType::Ops => self.ops,
        };
        match b {
            None => true,
            Some(bucket) => {
                if tokens <= bucket.budget {
                    let nb = Some(TokenBucket { size: bucket.size, budget: bucket.budget - tokens });
                    match kind {
                        TokenType::Bytes => self.bytes = nb,
                        TokenType::Ops => self.ops = nb,
                    }
                    true
                } else {
                    self.blocked = true;
                    false
                }
            }
        }
    }

    /// Gives `tokens` of `kind` back, up to the bucket's size.
    pub fn manual_replenish(&mut self, tokens: u64, kind: TokenType)
        requires
            old(self).wf(),
        ensures
            final(self).wf(),
            *final(self) == old(self).with_bucket(kind, bucket_give(old(self).bucket(kind), tokens)),
    {
        let b = match kind {
            TokenType::Bytes => self.bytes,
            TokenType::Ops => self.ops,
        };
        if let Some(bucket) = b {
            let budget = if tokens > bucket.size - bucket.budget {
                bucket.size
            } else {
                bucket.budget + tokens
            };
            let nb = Some(TokenBucket { size: bucket.size, budget });
            match kind {
                TokenType::Bytes => self.bytes = nb,
                TokenType::Ops => self.ops = nb,
            }
        }
    }

    /// Acknowledges the replenish timer: both buckets are refilled and the
    /// limiter is unblocked. A timer event while not blocked is spurious and
    /// is reported as an error, with nothing changed.
    pub fn event_handler(&mut self) -> (r: Result<(), ()>)
        requires
            old(self).wf(),
        ensures
            final(self).wf(),
            (r is Ok) == old(self).blocked,
            (r is Ok) ==> *final(self) == (RateLimiter {
                bytes: bucket_fill(old(self).bytes),
                ops: bucket_fill(old(self).ops),
                blocked: false,
            }),
            (r is Err) ==> *final(self) == *old(self),
    {
        if !self.blocked {
            return Err(());
        }
        if let Some(b) = self.bytes {
            self.bytes = Some(TokenBucket { size: b.size, budget: b.size });
        }
        if let Some(b) = self.ops {
            self.ops = Some(TokenBucket { size: b.size, budget: b.size });
        }
        self.blocked = false;
        Ok(())
    }

    /// Takes one operation token and `bytes` byte tokens, or nothing at all:
    /// when either axis cannot serve the request the budgets are left as
    /// they were and the limiter is blocked.
    pub fn consume_frame(&mut self, bytes: u64) -> (r: bool)
        requires
            old(self).wf(),
        ensures
            final(self).wf(),
            r == (bucket_allows(old(self).ops, 1) && bucket_allows(old(self).bytes, bytes)),
            r ==> *final(self) == (RateLimiter {
                ops: bucket_take(old(self).ops, 1),
                bytes: bucket_take(old(self).bytes, bytes),
                blocked: old(self).blocked,
            }),
            !r ==> budgets(*final(self)) == budgets(*old(self)) && final(self).blocked
                && final(self).bytes == old(self).bytes && final(self).ops == old(self).ops,
    {
        if !self.consume(1, TokenType::Ops) {
            return false;
        }
        if !self.consume(bytes, TokenType::Bytes) {
            self.manual_replenish(1, TokenType::Ops);
            return false;
        }
        true
    }

    /// Gives back what a successful `consume_frame(bytes)` took.
    pub fn refund_frame(&mut self, bytes: u64)
        requires
            old(self).wf(),
        ensures
            final(self).wf(),
            *final(self) == (RateLimiter {
                ops: bucket_give(old(self).ops, 1),
                bytes: bucket_give(old(self).bytes, bytes),
                blocked: old(self).blocked,
            }),
    {
        self.manual_replenish(1, TokenType::Ops);
        self.manual_replenish(bytes, TokenType::Bytes);
    }
}

/// A refund right after a successful frame consume restores the limiter's
/// budgets exactly.
pub proof fn lemma_refund_restores(l: RateLimiter, bytes: u64)
    requires
        l.wf(),
        bucket_allows(l.ops, 1),
        bucket_allows(l.bytes, bytes),
    ensures
        bucket_give(bucket_take(l.ops, 1), 1) == l.ops,
        bucket_give(bucket_take(l.bytes, bytes), bytes) == l.bytes,
{
}

} // verus!
