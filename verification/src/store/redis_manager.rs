use crate::feed::types::wrapping_sum;
use crate::model::record::bump;
use vstd::prelude::*;

verus! {

/// Running counts of the publisher.
#[derive(Debug, Clone, Copy, PartialEq, Eq, Structural)]
pub struct RedisStats {
    /// Messages published.
    pub messages_published: u64,
    /// Subscriptions taken out.
    pub subscribers: u64,
    /// Time spent publishing, in nanoseconds.
    pub publish_latency_ns: u64,
    /// The shortest publish so far.
    pub min_latency_ns: u64,
    /// The longest publish so far.
    pub max_latency_ns: u64,
}

impl RedisStats {
    /// Counts before anything was published.
    pub fn new() -> (s: RedisStats)
        ensures
            s == (RedisStats {
                messages_published: 0,
                subscribers: 0,
                publish_latency_ns: 0,
                min_latency_ns: u64::MAX,
                max_latency_ns: 0,
            }),
    {
        RedisStats {
            messages_published: 0,
            subscribers: 0,
            publish_latency_ns: 0,
            min_latency_ns: u64::MAX,
            max_latency_ns: 0,
        }
    }

    /// The counts after a publish that took `latency_ns` nanoseconds.
    pub open spec fn after_publish(self, latency_ns: u64) -> RedisStats {
        RedisStats {
            messages_published: bump(self.messages_published),
            subscribers: self.subscribers,
            publish_latency_ns: wrapping_sum(self.publish_latency_ns, latency_ns),
            min_latency_ns: if latency_ns < self.min_latency_ns {
                latency_ns
            } else {
                self.min_latency_ns
            },
            max_latency_ns: if latency_ns > self.max_latency_ns {
                latency_ns
            } else {
                self.max_latency_ns
            },
        }
    }

    /// Counts one publish that took `latency_ns` nanoseconds.
    pub fn record_publish(&mut self, latency_ns: u64)
        ensures
            *final(self) == old(self).after_publish(latency_ns),
    {
        self.messages_published = self.messages_published.wrapping_add(1);
        self.publish_latency_ns = self.publish_latency_ns.wrapping_add(latency_ns);
        if latency_ns < self.min_latency_ns {
            self.min_latency_ns = latency_ns;
        }
        if latency_ns > self.max_latency_ns {
            self.max_latency_ns = latency_ns;
        }
    }

    /// Counts one subscription.
    pub fn record_subscriber(&mut self)
        ensures
            *final(self) == (RedisStats { subscribers: bump(old(self).subscribers), ..*old(self) }),
    {
        self.subscribers = self.subscribers.wrapping_add(1);
    }
}

/// After any publish the shortest latency is no longer than the longest, and
/// the one just counted lies between them.
pub proof fn lemma_latency_bounds(stats: RedisStats, latency_ns: u64)
    ensures
        stats.after_publish(latency_ns).min_latency_ns <= latency_ns,
        latency_ns <= stats.after_publish(latency_ns).max_latency_ns,
        stats.after_publish(latency_ns).min_latency_ns <= stats.min_latency_ns,
        stats.after_publish(latency_ns).max_latency_ns >= stats.max_latency_ns,
{
}

} // verus!
