//! The escrow state machine: one record per subscription, with timing
//! discipline on proof rounds and all-or-nothing fund settlement.

use vstd::prelude::*;

verus! {

use crate::EscrowError;
use crate::PrincipalId;
use crate::challenge::{
    EntropyFeed, Query, challenge_set, coefficients_canonical, parse_entropy_records, query_views,
    spec_challenge_views, spec_challenge_views_of_feed, spec_feed_long_enough,
};
use crate::verification::{proof_accepted, valid_proof_encodings, verify_proof};

pub const MIN_IN_SECOND: i64 = 60;

pub const HOUR_IN_SECOND: i64 = 60 * MIN_IN_SECOND;

pub const DAY_IN_SECOND: i64 = 24 * HOUR_IN_SECOND;

/// One subscription record: the public verification parameters fixed at
/// creation, the live challenge set, and the settlement counters.
pub struct Escrow {
    pub buyer_pubkey: PrincipalId,
    pub seller_pubkey: PrincipalId,
    pub query_size: u64,
    pub number_of_blocks: u64,
    pub u: [u8; 48],
    pub g: [u8; 96],
    pub v: [u8; 96],
    pub subscription_duration: u64,
    pub validate_every: i64,
    pub queries: Vec<Query>,
    pub queries_generation_time: i64,
    pub balance: u64,
    pub last_prove_date: i64,
    pub is_subscription_ended_by_buyer: bool,
    pub is_subscription_ended_by_seller: bool,
    pub subscription_id: u64,
}

impl Escrow {
    /// Well-formedness every operation preserves: a sound sampling
    /// configuration, non-negative timing fields, and a challenge set
    /// whose entries were generated in range.
    pub open spec fn wf(self) -> bool {
        &&& self.number_of_blocks > 0
        &&& self.query_size <= self.number_of_blocks
        &&& self.validate_every >= 0
        &&& self.queries_generation_time >= 0
        &&& self.last_prove_date >= 0
        &&& coefficients_canonical(self.queries@)
        &&& forall|k: int|
            0 <= k < self.queries@.len() ==> (#[trigger] self.queries@[k]).block_index
                < self.number_of_blocks as u128
    }

    /// The proving interval has not yet elapsed since the last accepted proof.
    pub open spec fn spec_too_early(self, now: i64) -> bool {
        now < self.last_prove_date + self.validate_every
    }

    /// The challenge set is older than the 30-minute staleness window.
    pub open spec fn spec_challenge_stale(self, now: i64) -> bool {
        now > self.queries_generation_time + 30 * (MIN_IN_SECOND as int)
    }

    /// The fee one more accepted proof releases to the seller:
    /// `floor(1 + 0.05 * query_size)` once more than five consecutive
    /// proofs have been accepted, nothing before that.
    pub open spec fn spec_fee_after(self) -> int {
        if self.subscription_duration + 1 > 5 {
            1 + self.query_size as int / 20
        } else {
            0
        }
    }

    /// The record after one accepted proof is settled at time `now`.
    pub open spec fn spec_settled(self, now: i64) -> Escrow {
        Escrow {
            subscription_duration: (self.subscription_duration + 1) as u64,
            balance: (self.balance - self.spec_fee_after()) as u64,
            last_prove_date: now,
            ..self
        }
    }

    /// Settlement releases funds only past five consecutive proofs, and
    /// then exactly `floor(1 + 0.05 * query_size)` per accepted proof: on
    /// the transition from five to six the first single fee is due, while
    /// the five proofs before it release nothing.
    pub proof fn lemma_fee_schedule(self)
        ensures
            self.subscription_duration == 5 ==> self.spec_fee_after() == 1 + self.query_size as int
                / 20,
            self.subscription_duration < 5 ==> self.spec_fee_after() == 0,
            self.subscription_duration < u64::MAX ==> self.spec_settled(
                self.last_prove_date,
            ).subscription_duration == self.subscription_duration + 1,
    {
    }

    /// Creates a subscription record with the supplied public parameters
    /// and zeroed counters. Rejects a configuration that cannot sample
    /// soundly (`query_size` above `number_of_blocks`, no blocks at all)
    /// or a negative proving interval.
    pub fn start_subscription(
        buyer_pubkey: PrincipalId,
        seller_pubkey: PrincipalId,
        subscription_id: u64,
        query_size: u64,
        number_of_blocks: u64,
        u: [u8; 48],
        g: [u8; 96],
        v: [u8; 96],
        validate_every: i64,
    ) -> (r: Result<Escrow, EscrowError>)
        ensures
            r is Ok <==> (number_of_blocks > 0 && query_size <= number_of_blocks
                && validate_every >= 0),
            r is Err ==> r == Err::<Escrow, EscrowError>(EscrowError::MalformedInput),
            r matches Ok(e) ==> {
                &&& e.wf()
                &&& e.buyer_pubkey == buyer_pubkey
                &&& e.seller_pubkey == seller_pubkey
                &&& e.subscription_id == subscription_id
                &&& e.query_size == query_size
                &&& e.number_of_blocks == number_of_blocks
                &&& e.u == u
                &&& e.g == g
                &&& e.v == v
                &&& e.validate_every == validate_every
                &&& e.subscription_duration == 0
                &&& e.balance == 0
                &&& e.queries@.len() == 0
                &&& e.queries_generation_time == 0
                &&& e.last_prove_date == 0
                &&& !e.is_subscription_ended_by_buyer
                &&& !e.is_subscription_ended_by_seller
            },
    {
        if number_of_blocks == 0 || query_size > number_of_blocks || validate_every < 0 {
            return Err(EscrowError::MalformedInput);
        }
        Ok(
            Escrow {
                buyer_pubkey,
                seller_pubkey,
                query_size,
                number_of_blocks,
                u,
                g,
                v,
                subscription_duration: 0,
                validate_every,
                queries: Vec::new(),
                queries_generation_time: 0,
                balance: 0,
                last_prove_date: 0,
                is_subscription_ended_by_buyer: false,
                is_subscription_ended_by_seller: false,
                subscription_id,
            },
        )
    }

    /// Increases the escrowed balance; fails on arithmetic overflow with
    /// no state change.
    pub fn add_funds_to_subscription(&mut self, amount: u64) -> (r: Result<(), EscrowError>)
        ensures
            r is Ok <==> old(self).balance + amount <= u64::MAX,
            r is Err ==> r == Err::<(), EscrowError>(EscrowError::ArithmeticOverflow) && *final(self) == *old(self),
            r is Ok ==> *final(self) == (Escrow {
                balance: (old(self).balance + amount) as u64,
                ..*old(self)
            }),
            old(self).wf() ==> final(self).wf(),
    {
        match self.balance.checked_add(amount) {
            Some(b) => {
                self.balance = b;
                Ok(())
            },
            None => Err(EscrowError::ArithmeticOverflow),
        }
    }

    /// Replaces the challenge set with one derived from the supplied
    /// entropy feed and records the generation time. Fails if the feed
    /// does not come from the expected oracle, or is too short for the
    /// configured sample; regeneration itself has no cooldown.
    pub fn generate_queries(
        &mut self,
        feed: &EntropyFeed,
        expected_source: PrincipalId,
        now: i64,
    ) -> (r: Result<(), EscrowError>)
        requires
            old(self).wf(),
            now >= 0,
        ensures
            final(self).wf(),
            r is Err ==> *final(self) == *old(self),
            (r == Err::<(), EscrowError>(EscrowError::EntropySourceMismatch)) <==> feed.source
                != expected_source,
            feed.source == expected_source ==> ((r == Err::<(), EscrowError>(
                EscrowError::MalformedInput,
            )) <==> !spec_feed_long_enough(feed.data@, old(self).query_size as int)),
            r is Ok <==> (feed.source == expected_source && spec_feed_long_enough(
                feed.data@,
                old(self).query_size as int,
            )),
            r is Ok ==> {
                &&& query_views(final(self).queries@) == spec_challenge_views_of_feed(
                    feed.data@,
                    old(self).query_size,
                    old(self).number_of_blocks,
                )
                &&& *final(self) == (Escrow {
                    queries: final(self).queries,
                    queries_generation_time: now,
                    ..*old(self)
                })
            },
    {
        if feed.source != expected_source {
            return Err(EscrowError::EntropySourceMismatch);
        }
        let records = match parse_entropy_records(&feed.data, self.query_size) {
            Ok(rs) => rs,
            Err(e) => {
                return Err(e);
            },
        };
        let qs = challenge_set(&records, self.query_size, self.number_of_blocks);
        proof {
            assert(spec_challenge_views(records@, old(self).query_size, old(self).number_of_blocks)
                =~= spec_challenge_views_of_feed(
                feed.data@,
                old(self).query_size,
                old(self).number_of_blocks,
            ));
        }
        self.queries = qs;
        self.queries_generation_time = now;
        Ok(())
    }

    /// Commits one accepted proof: advances the consecutive-proof count,
    /// stamps the proof time, and releases the fee once the count exceeds
    /// five. Checked arithmetic throughout; any failure leaves the record
    /// untouched.
    fn settle_accepted(&mut self, now: i64) -> (r: Result<u64, EscrowError>)
        requires
            old(self).wf(),
            now >= 0,
        ensures
            final(self).wf(),
            r is Err ==> *final(self) == *old(self),
            (r == Err::<u64, EscrowError>(EscrowError::ArithmeticOverflow)) <==> old(self).subscription_duration == u64::MAX,
            old(self).subscription_duration < u64::MAX ==> ((r == Err::<u64, EscrowError>(
                EscrowError::InsufficientFunds,
            )) <==> old(self).balance < old(self).spec_fee_after()),
            r is Ok <==> (old(self).subscription_duration < u64::MAX && old(self).balance >= old(self).spec_fee_after()),
            r matches Ok(fee) ==> fee == old(self).spec_fee_after() && *final(self) == old(self).spec_settled(now),
            final(self).subscription_duration >= old(self).subscription_duration,
    {
        let new_duration = match self.subscription_duration.checked_add(1) {
            Some(d) => d,
            None => {
                return Err(EscrowError::ArithmeticOverflow);
            },
        };
        let fee: u64 = if new_duration > 5 {
            1 + self.query_size / 20
        } else {
            0
        };
        let new_balance = match self.balance.checked_sub(fee) {
            Some(b) => b,
            None => {
                return Err(EscrowError::InsufficientFunds);
            },
        };
        self.subscription_duration = new_duration;
        self.balance = new_balance;
        self.last_prove_date = now;
        Ok(fee)
    }

    /// Evaluates a submitted proof against the current challenge set under
    /// the timing discipline, and settles it if the pairing equation
    /// accepts. Returns the fee released to the seller (zero during the
    /// first five accepted rounds).
    pub fn prove_subscription(&mut self, sigma: &[u8; 48], mu: &[u8; 32], now: i64) -> (r: Result<
        u64,
        EscrowError,
    >)
        requires
            old(self).wf(),
            now >= 0,
        ensures
            final(self).wf(),
            r is Err ==> *final(self) == *old(self),
            (r == Err::<u64, EscrowError>(EscrowError::TooEarly)) <==> old(self).spec_too_early(
                now,
            ),
            !old(self).spec_too_early(now) ==> ((r == Err::<u64, EscrowError>(
                EscrowError::ChallengeStale,
            )) <==> old(self).spec_challenge_stale(now)),
            (!old(self).spec_too_early(now) && !old(self).spec_challenge_stale(now)) ==> ((r
                == Err::<u64, EscrowError>(EscrowError::MalformedInput)) <==> !valid_proof_encodings(
                sigma@,
                mu@,
                old(self).u@,
                old(self).g@,
                old(self).v@,
                old(self).queries@,
            )),
            (!old(self).spec_too_early(now) && !old(self).spec_challenge_stale(now)
                && valid_proof_encodings(
                sigma@,
                mu@,
                old(self).u@,
                old(self).g@,
                old(self).v@,
                old(self).queries@,
            )) ==> {
                &&& ((r == Err::<u64, EscrowError>(EscrowError::ProofInvalid)) <==> !proof_accepted(
                    sigma@,
                    mu@,
                    old(self).u@,
                    old(self).g@,
                    old(self).v@,
                    old(self).queries@,
                ))
                &&& (proof_accepted(
                    sigma@,
                    mu@,
                    old(self).u@,
                    old(self).g@,
                    old(self).v@,
                    old(self).queries@,
                ) ==> {
                    &&& ((r == Err::<u64, EscrowError>(EscrowError::ArithmeticOverflow)) <==> old(self).subscription_duration == u64::MAX)
                    &&& (old(self).subscription_duration < u64::MAX ==> ((r == Err::<
                        u64,
                        EscrowError,
                    >(EscrowError::InsufficientFunds)) <==> old(self).balance < old(self).spec_fee_after()))
                })
            },
            r is Ok <==> (!old(self).spec_too_early(now) && !old(self).spec_challenge_stale(now)
                && valid_proof_encodings(
                sigma@,
                mu@,
                old(self).u@,
                old(self).g@,
                old(self).v@,
                old(self).queries@,
            ) && proof_accepted(
                sigma@,
                mu@,
                old(self).u@,
                old(self).g@,
                old(self).v@,
                old(self).queries@,
            ) && old(self).subscription_duration < u64::MAX && old(self).balance >= old(
                self,
            ).spec_fee_after()),
            r matches Ok(fee) ==> {
                &&& fee == old(self).spec_fee_after()
                &&& *final(self) == old(self).spec_settled(now)
            },
            final(self).subscription_duration >= old(self).subscription_duration,
    {
        if (now as i128) < (self.last_prove_date as i128) + (self.validate_every as i128) {
            return Err(EscrowError::TooEarly);
        }
        if (now as i128) > (self.queries_generation_time as i128) + ((30 * MIN_IN_SECOND) as i128) {
            return Err(EscrowError::ChallengeStale);
        }
        let accepted = match verify_proof(sigma, mu, &self.u, &self.g, &self.v, &self.queries) {
            Ok(b) => b,
            Err(e) => {
                return Err(e);
            },
        };
        if !accepted {
            return Err(EscrowError::ProofInvalid);
        }
        self.settle_accepted(now)
    }

    /// Settles a proof round from a verdict computed outside the record,
    /// under the same timing discipline as `prove_subscription`. The
    /// caller vouches for the verdict; nothing here re-derives it.
    pub fn prove_subscription_simulation(&mut self, is_verified: bool, now: i64) -> (r: Result<
        u64,
        EscrowError,
    >)
        requires
            old(self).wf(),
            now >= 0,
        ensures
            final(self).wf(),
            r is Err ==> *final(self) == *old(self),
            (r == Err::<u64, EscrowError>(EscrowError::TooEarly)) <==> old(self).spec_too_early(
                now,
            ),
            !old(self).spec_too_early(now) ==> ((r == Err::<u64, EscrowError>(
                EscrowError::ChallengeStale,
            )) <==> old(self).spec_challenge_stale(now)),
            (!old(self).spec_too_early(now) && !old(self).spec_challenge_stale(now)) ==> {
                &&& ((r == Err::<u64, EscrowError>(EscrowError::ProofInvalid)) <==> !is_verified)
                &&& (is_verified ==> {
                    &&& ((r == Err::<u64, EscrowError>(EscrowError::ArithmeticOverflow)) <==> old(self).subscription_duration == u64::MAX)
                    &&& (old(self).subscription_duration < u64::MAX ==> ((r == Err::<
                        u64,
                        EscrowError,
                    >(EscrowError::InsufficientFunds)) <==> old(self).balance < old(self).spec_fee_after()))
                })
            },
            r is Ok <==> (!old(self).spec_too_early(now) && !old(self).spec_challenge_stale(now)
                && is_verified && old(self).subscription_duration < u64::MAX && old(self).balance
                >= old(self).spec_fee_after()),
            r matches Ok(fee) ==> {
                &&& fee == old(self).spec_fee_after()
                &&& *final(self) == old(self).spec_settled(now)
            },
            final(self).subscription_duration >= old(self).subscription_duration,
    {
        if (now as i128) < (self.last_prove_date as i128) + (self.validate_every as i128) {
            return Err(EscrowError::TooEarly);
        }
        if (now as i128) > (self.queries_generation_time as i128) + ((30 * MIN_IN_SECOND) as i128) {
            return Err(EscrowError::ChallengeStale);
        }
        if !is_verified {
            return Err(EscrowError::ProofInvalid);
        }
        self.settle_accepted(now)
    }

    /// Marks the subscription ended by the buyer; only the buyer may do
    /// so, and repeating it has no further effect.
    pub fn end_subscription_by_buyer(&mut self, caller: PrincipalId) -> (r: Result<
        (),
        EscrowError,
    >)
        ensures
            r is Ok <==> caller == old(self).buyer_pubkey,
            r is Err ==> r == Err::<(), EscrowError>(EscrowError::Unauthorized) && *final(self)
                == *old(self),
            r is Ok ==> *final(self) == (Escrow {
                is_subscription_ended_by_buyer: true,
                ..*old(self)
            }),
            old(self).wf() ==> final(self).wf(),
    {
        if caller != self.buyer_pubkey {
            return Err(EscrowError::Unauthorized);
        }
        self.is_subscription_ended_by_buyer = true;
        Ok(())
    }

    /// Marks the subscription ended by the seller; only the seller may do
    /// so, and repeating it has no further effect.
    pub fn end_subscription_by_seller(&mut self, caller: PrincipalId) -> (r: Result<
        (),
        EscrowError,
    >)
        ensures
            r is Ok <==> caller == old(self).seller_pubkey,
            r is Err ==> r == Err::<(), EscrowError>(EscrowError::Unauthorized) && *final(self)
                == *old(self),
            r is Ok ==> *final(self) == (Escrow {
                is_subscription_ended_by_seller: true,
                ..*old(self)
            }),
            old(self).wf() ==> final(self).wf(),
    {
        if caller != self.seller_pubkey {
            return Err(EscrowError::Unauthorized);
        }
        self.is_subscription_ended_by_seller = true;
        Ok(())
    }

    /// Decides a closeout request: the buyer may take the full balance
    /// once the seller has ended the subscription or has been silent for
    /// three days past the last accepted proof; the seller may take it
    /// once the buyer has ended it. `Ok` closes the record, whose
    /// destruction and payout the surrounding ledger performs.
    pub fn request_fund(&self, caller: PrincipalId, now: i64) -> (r: Result<u64, EscrowError>)
        ensures
            r is Ok <==> ((caller == self.buyer_pubkey && (self.is_subscription_ended_by_seller
                || now > self.last_prove_date + 3 * (DAY_IN_SECOND as int))) || (caller
                != self.buyer_pubkey && caller == self.seller_pubkey
                && self.is_subscription_ended_by_buyer)),
            r matches Ok(amount) ==> amount == self.balance,
            r is Err ==> r == Err::<u64, EscrowError>(EscrowError::Unauthorized),
    {
        if caller == self.buyer_pubkey {
            if self.is_subscription_ended_by_seller || (now as i128) > (self.last_prove_date
                as i128) + ((3 * DAY_IN_SECOND) as i128) {
                return Ok(self.balance);
            }
            return Err(EscrowError::Unauthorized);
        }
        if caller == self.seller_pubkey {
            if self.is_subscription_ended_by_buyer {
                return Ok(self.balance);
            }
            return Err(EscrowError::Unauthorized);
        }
        Err(EscrowError::Unauthorized)
    }
}

} // verus!
