//! A minimal payment policy: a budget of one remaining amount and an engine
//! that approves a payment intent by reserving its amount.
use vstd::prelude::*;

use crate::common::Amount;
use crate::format::{nat_decimal, unsigned_decimal};
use crate::text::{push_str, string_from_chars};

verus! {

/// One payment from one party to another in some asset.
#[derive(Debug)]
pub struct PaymentIntent {
    pub from: String,
    pub to: String,
    pub amount: Amount,
    pub asset: String,
}

impl PaymentIntent {
    pub fn new(from: &str, to: &str, amount: Amount, asset: &str) -> (p: Self)
        ensures
            p.from@ == from@,
            p.to@ == to@,
            p.amount == amount,
            p.asset@ == asset@,
    {
        PaymentIntent { from: String::from_str(from), to: String::from_str(to), amount, asset: String::from_str(asset) }
    }
}

/// A budget that only tracks what remains of its limit.
#[derive(Clone, Copy, Debug)]
pub struct BudgetManager {
    remaining: Amount,
}

impl View for BudgetManager {
    type V = Amount;

    closed spec fn view(&self) -> Amount {
        self.remaining
    }
}

#[derive(Clone, Copy, Debug, PartialEq, Eq, Structural)]
pub enum PolicyDecision {
    Approved,
}

#[derive(Clone, Copy, Debug, PartialEq, Eq, Structural)]
pub enum PolicyError {
    InvalidAmount,
    BudgetExceeded { requested: Amount, remaining: Amount },
}

impl BudgetManager {
    pub fn new(limit: Amount) -> (b: Self)
        ensures
            b@ == limit,
    {
        BudgetManager { remaining: limit }
    }

    pub fn remaining(&self) -> (r: Amount)
        ensures
            r == self@,
    {
        self.remaining
    }

    /// Take `amount` from what remains, unless it exceeds it.
    pub fn reserve(&mut self, amount: Amount) -> (r: Result<(), PolicyError>)
        ensures
            amount > old(self)@ ==> r == Err::<(), PolicyError>(PolicyError::BudgetExceeded { requested: amount, remaining: old(self)@ })
                && final(self)@ == old(self)@,
            amount <= old(self)@ ==> r is Ok && final(self)@ == old(self)@ - amount,
    {
        if amount > self.remaining {
            return Err(PolicyError::BudgetExceeded { requested: amount, remaining: self.remaining });
        }
        self.remaining = self.remaining - amount;
        Ok(())
    }
}

#[derive(Clone, Copy, Debug)]
pub struct PolicyEngine;

impl Default for PolicyEngine {
    fn default() -> (e: Self) {
        PolicyEngine
    }
}

impl PolicyEngine {
    pub fn new() -> (e: Self) {
        PolicyEngine
    }

    /// Approve a non-zero payment intent by reserving its amount.
    pub fn authorize(&self, intent: &PaymentIntent, budget: &mut BudgetManager) -> (r: Result<PolicyDecision, PolicyError>)
        ensures
            intent.amount == 0 ==> r == Err::<PolicyDecision, PolicyError>(PolicyError::InvalidAmount) && final(budget)@ == old(budget)@,
            intent.amount != 0 && intent.amount > old(budget)@ ==> r == Err::<PolicyDecision, PolicyError>(
                PolicyError::BudgetExceeded { requested: intent.amount, remaining: old(budget)@ }) && final(budget)@ == old(budget)@,
            intent.amount != 0 && intent.amount <= old(budget)@ ==> r == Ok::<PolicyDecision, PolicyError>(PolicyDecision::Approved)
                && final(budget)@ == old(budget)@ - intent.amount,
    {
        if intent.amount == 0 {
            return Err(PolicyError::InvalidAmount);
        }
        match budget.reserve(intent.amount) {
            Ok(()) => Ok(PolicyDecision::Approved),
            Err(e) => Err(e),
        }
    }
}

/// The message of a payment policy error.
pub open spec fn payment_policy_error_text(e: PolicyError) -> Seq<char> {
    match e {
        PolicyError::InvalidAmount => "payment amount must be greater than zero"@,
        PolicyError::BudgetExceeded { requested, remaining } => "budget exceeded: requested "@ + nat_decimal(
            requested as nat,
        ) + ", remaining "@ + nat_decimal(remaining as nat),
    }
}

impl PolicyError {
    /// The error's message.
    pub fn describe(&self) -> (s: String)
        ensures
            s@ == payment_policy_error_text(*self),
    {
        let mut out: Vec<char> = Vec::new();
        match self {
            PolicyError::InvalidAmount => push_str(&mut out, "payment amount must be greater than zero"),
            PolicyError::BudgetExceeded { requested, remaining } => {
                push_str(&mut out, "budget exceeded: requested ");
                let digits = unsigned_decimal(*requested as u128);
                out.append(&mut digits.clone());
                push_str(&mut out, ", remaining ");
                let digits = unsigned_decimal(*remaining as u128);
                out.append(&mut digits.clone());
            },
        }
        assert(out@ =~= payment_policy_error_text(*self));
        string_from_chars(out.as_slice())
    }
}

/// Reserving in two steps leaves what one reservation of the sum leaves.
pub proof fn lemma_reservations_add(remaining: Amount, first: Amount, second: Amount)
    requires
        first <= remaining,
        second <= remaining - first,
    ensures
        first + second <= remaining,
        (remaining - first) - second == remaining - (first + second),
{
}

} // verus!
