//! The subscription to transactions as soon as they are seen, before they are executed.

use vstd::hash_map::StringHashMap;
use vstd::prelude::*;

verus! {

/// How often a ping is sent to keep the connection, in seconds.
pub const PING_INTERVAL_SECONDS: u64 = 3;

/// Which transactions a subscriber asks for.
#[derive(Debug, Clone)]
pub struct SubscribePreprocessedRequestFilterTransactions {
    pub vote: Option<bool>,
    pub failed: Option<bool>,
    pub account_include: Vec<String>,
    pub account_exclude: Vec<String>,
    pub account_required: Vec<String>,
}

impl Default for SubscribePreprocessedRequestFilterTransactions {
    /// All transactions.
    fn default() -> (filter: Self)
        ensures
            filter.vote is None,
            filter.failed is None,
            filter.account_include@.len() == 0,
            filter.account_exclude@.len() == 0,
            filter.account_required@.len() == 0,
    {
        SubscribePreprocessedRequestFilterTransactions {
            vote: None,
            failed: None,
            account_include: Vec::new(),
            account_exclude: Vec::new(),
            account_required: Vec::new(),
        }
    }
}

/// A sign of life, which the server answers with the same number.
#[derive(Debug, Clone, Copy, PartialEq, Eq, Structural)]
pub struct SubscribeRequestPing {
    pub id: i32,
}

/// What a subscriber sends: filters for transactions, each under a name, or a ping.
pub struct SubscribePreprocessedRequest {
    pub transactions: StringHashMap<SubscribePreprocessedRequestFilterTransactions>,
    pub ping: Option<SubscribeRequestPing>,
}

impl Default for SubscribePreprocessedRequest {
    /// A request that asks for nothing.
    fn default() -> (request: Self)
        ensures
            request.transactions@ == Map::<
                Seq<char>,
                SubscribePreprocessedRequestFilterTransactions,
            >::empty(),
            request.ping is None,
    {
        SubscribePreprocessedRequest { transactions: StringHashMap::new(), ping: None }
    }
}

/// The side that asks: first for transactions, then pings, each with the next number.
#[derive(Debug, Clone, Copy, PartialEq, Eq, Structural)]
pub struct Subscriber {
    id: i32,
}

impl Subscriber {
    /// The number of the last ping.
    pub closed spec fn last_ping(self) -> i32 {
        self.id
    }

    /// A subscriber that has not sent a ping.
    pub fn new() -> (subscriber: Self)
        ensures
            subscriber.last_ping() == 0,
    {
        Subscriber { id: 0 }
    }

    /// The first request: all transactions but votes, under the empty name.
    pub fn first_request(&self) -> (request: SubscribePreprocessedRequest)
        ensures
            request.ping is None,
            request.transactions@.dom() == set![Seq::<char>::empty()],
            ({
                let filter = request.transactions@[Seq::<char>::empty()];
                &&& filter.vote == Some(false)
                &&& filter.failed is None
                &&& filter.account_include@.len() == 0
                &&& filter.account_exclude@.len() == 0
                &&& filter.account_required@.len() == 0
            }),
    {
        let mut request = SubscribePreprocessedRequest::default();
        let mut filter = SubscribePreprocessedRequestFilterTransactions::default();
        filter.vote = Some(false);
        let name = String::new();
        assert(name@ =~= Seq::<char>::empty());
        request.transactions.insert(name, filter);
        assert(request.transactions@.dom() =~= set![Seq::<char>::empty()]);
        request
    }

    /// Finds out whether there is a number for another ping.
    pub fn can_ping(&self) -> (more: bool)
        ensures
            more == (self.last_ping() < i32::MAX),
    {
        self.id < i32::MAX
    }

    /// The next ping. Its number is one above that of the last.
    pub fn next_ping(&mut self) -> (request: SubscribePreprocessedRequest)
        requires
            old(self).last_ping() < i32::MAX,
        ensures
            final(self).last_ping() == old(self).last_ping() + 1,
            request.ping == Some(SubscribeRequestPing { id: final(self).last_ping() }),
            request.transactions@ == Map::<
                Seq<char>,
                SubscribePreprocessedRequestFilterTransactions,
            >::empty(),
    {
        self.id = self.id + 1;
        let mut request = SubscribePreprocessedRequest::default();
        request.ping = Some(SubscribeRequestPing { id: self.id });
        request
    }
}

} // verus!
