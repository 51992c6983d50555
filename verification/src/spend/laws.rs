//! Laws of spend decisions and auth tokens that relate several operations.
use vstd::prelude::*;

use crate::common::{AgentId, PaymentId, SpendAuthTokenId, SpendDecisionId, SpendExecutorClaimId, UserContext};
use crate::lookup::{last_match, lemma_last_match_facts, lemma_last_match_push, lemma_last_match_update};
use crate::policy::model::{Effect, Policy};
use crate::spend::error::SpendError;
use crate::spend::manager::{
    claim_is, claim_of_operation, claim_of_token, claim_outcome, decision_is, first_replay, first_replay_within, lemma_first_replay_facts, lemma_first_replay_stable,
    lemma_first_replay_none, mark_used_outcome, payment_outcome, replays_at, scope_outcome, spec_payment_matches,
    spec_evaluate_outcome, token_is, SpendManagerView,
};
use crate::spend::model::{
    charge_cents, pow10, spec_replay_equivalent, SpendEvaluationResponse, SpendExecutorClaimRecord,
    SpendExecutorClaimRequest, SpendPaymentValidationRequest, SpendRequest, ValidatedSpendAuthorization,
};
use crate::text::trim;

verus! {

/// Every request replays itself.
pub proof fn lemma_replay_equivalent_reflexive(r: SpendRequest)
    ensures
        spec_replay_equivalent(r, r),
{
}

/// What a fresh evaluation records: one decision for the request, under
/// its trimmed operation key, when none replayed it before.
proof fn lemma_fresh_evaluation(
    s: SpendManagerView,
    user: UserContext,
    operation_key: Seq<char>,
    request: SpendRequest,
    policy: Policy,
    revision_and_actor: Option<(u64, Seq<char>)>,
    decision_id: SpendDecisionId,
    token_id: SpendAuthTokenId,
    now: i64,
    resp: SpendEvaluationResponse,
    t: SpendManagerView,
)
    requires
        spec_evaluate_outcome(s, user, operation_key, request, policy, revision_and_actor, decision_id, token_id, now,
            Ok(resp), t),
        !resp.idempotent_replay,
    ensures
        trim(operation_key).len() > 0,
        request.owner_user_id == user.user_id,
        policy.owner_user_id == user.user_id,
        first_replay(s, request.agent_id, trim(operation_key), request) is None,
        t.decisions == s.decisions.push(t.decisions.last()),
        t.decisions.last().id == decision_id,
        t.decisions.last().request == request,
        t.decisions.last().operation_key@ == trim(operation_key),
        resp.decision_id == decision_id,
{
}

/// Recording a decision under another id leaves a lookup by `id` unchanged.
proof fn lemma_decision_after_push(s: SpendManagerView, t: SpendManagerView, id: SpendDecisionId)
    requires
        t.decisions == s.decisions.push(t.decisions.last()),
        t.decisions.last().id != id,
    ensures
        t.decision(id) == s.decision(id),
{
    let record = t.decisions.last();
    lemma_last_match_push(s.decisions, record, decision_is(id));
    lemma_last_match_facts(s.decisions, decision_is(id));
    match last_match(s.decisions, decision_is(id)) {
        Some(i) => {
            assert(t.decisions[i] == s.decisions[i]);
        },
        None => {},
    }
}

/// After a fresh evaluation, the request replays the decision it recorded.
proof fn lemma_recorded_decision_replays(
    s: SpendManagerView,
    t: SpendManagerView,
    key: Seq<char>,
    request: SpendRequest,
    decision_id: SpendDecisionId,
)
    requires
        first_replay(s, request.agent_id, key, request) is None,
        t.decisions == s.decisions.push(t.decisions.last()),
        t.decisions.last().id == decision_id,
        t.decisions.last().request == request,
        t.decisions.last().operation_key@ == key,
    ensures
        first_replay(t, request.agent_id, key, request) == Some(t.decisions.last()),
{
    let agent = request.agent_id;
    let n = s.decisions.len() as int;
    let record = t.decisions.last();
    assert(t.decisions[n] == record);
    lemma_last_match_push(s.decisions, record, decision_is(decision_id));
    assert(t.decision(decision_id) == Some(record));
    lemma_replay_equivalent_reflexive(request);
    assert(replays_at(t, agent, key, request, n));
    lemma_first_replay_facts(s, agent, key, request, n);
    lemma_first_replay_none(s, agent, key, request, n);
    assert(first_replay_within(s, agent, key, request, n) is None);
    lemma_first_replay_facts(t, agent, key, request, n + 1);
    let k = first_replay_within(t, agent, key, request, n + 1);
    match k {
        Some(k) => {
            if k < n {
                let id = t.decisions[k].id;
                assert(t.decisions[k] == s.decisions[k]);
                if id != decision_id {
                    lemma_decision_after_push(s, t, id);
                    assert(replays_at(s, agent, key, request, k));
                }
            }
        },
        None => {
            lemma_first_replay_none(t, agent, key, request, n + 1);
        },
    }
}

/// Evaluating the same request again under an operation key that trims to
/// the same key (surrounding spaces aside) replays the recorded decision:
/// the same decision id, marked as a replay, and nothing recorded anew.
pub proof fn lemma_evaluation_replays(
    s: SpendManagerView,
    user: UserContext,
    operation_key: Seq<char>,
    request: SpendRequest,
    policy: Policy,
    revision_and_actor: Option<(u64, Seq<char>)>,
    decision_id: SpendDecisionId,
    token_id: SpendAuthTokenId,
    now: i64,
    resp: SpendEvaluationResponse,
    t: SpendManagerView,
    operation_key2: Seq<char>,
    revision_and_actor2: Option<(u64, Seq<char>)>,
    decision_id2: SpendDecisionId,
    token_id2: SpendAuthTokenId,
    now2: i64,
    r2: Result<SpendEvaluationResponse, SpendError>,
    t2: SpendManagerView,
)
    requires
        spec_evaluate_outcome(s, user, operation_key, request, policy, revision_and_actor, decision_id, token_id, now,
            Ok(resp), t),
        !resp.idempotent_replay,
        trim(operation_key2) == trim(operation_key),
        spec_evaluate_outcome(t, user, operation_key2, request, policy, revision_and_actor2, decision_id2, token_id2, now2,
            r2, t2),
    ensures
        r2 matches Ok(resp2) && resp2.idempotent_replay && resp2.decision_id == resp.decision_id
            && resp2.operation_key@ == resp.operation_key@,
        t2 == t,
{
    lemma_fresh_evaluation(s, user, operation_key, request, policy, revision_and_actor, decision_id, token_id, now, resp, t);
    lemma_recorded_decision_replays(s, t, trim(operation_key), request, decision_id);
}

/// Positions that replay alike in two states give the same earliest replay.
proof fn lemma_first_replay_within_agree(
    s: SpendManagerView,
    t: SpendManagerView,
    agent: AgentId,
    key: Seq<char>,
    request: SpendRequest,
    n: int,
)
    requires
        forall|j: int| 0 <= j < n ==> #[trigger] replays_at(s, agent, key, request, j) == replays_at(t, agent, key, request, j),
    ensures
        first_replay_within(s, agent, key, request, n) == first_replay_within(t, agent, key, request, n),
    decreases n,
{
    if n > 0 {
        lemma_first_replay_within_agree(s, t, agent, key, request, n - 1);
        assert(replays_at(s, agent, key, request, n - 1) == replays_at(t, agent, key, request, n - 1));
    }
}

/// Recording a decision under an id not recorded before leaves the
/// earliest replay of a request that already replayed unchanged.
proof fn lemma_replay_survives_push(
    s: SpendManagerView,
    t: SpendManagerView,
    agent: AgentId,
    key: Seq<char>,
    request: SpendRequest,
)
    requires
        first_replay(s, agent, key, request) is Some,
        t.decisions == s.decisions.push(t.decisions.last()),
        s.decision(t.decisions.last().id) is None,
    ensures
        first_replay(t, agent, key, request) == first_replay(s, agent, key, request),
{
    let n = s.decisions.len() as int;
    let fresh = t.decisions.last().id;
    lemma_last_match_facts(s.decisions, decision_is(fresh));
    assert forall|j: int| 0 <= j < n implies #[trigger] replays_at(s, agent, key, request, j) == replays_at(
        t,
        agent,
        key,
        request,
        j,
    ) by {
        assert(t.decisions[j] == s.decisions[j]);
        let id = s.decisions[j].id;
        assert(id != fresh);
        lemma_decision_after_push(s, t, id);
    }
    lemma_first_replay_within_agree(s, t, agent, key, request, n);
    lemma_first_replay_facts(s, agent, key, request, n);
    let k = first_replay_within(s, agent, key, request, n)->0;
    lemma_first_replay_stable(t, agent, key, request, n, n + 1);
    assert(t.decisions[k] == s.decisions[k]);
    lemma_decision_after_push(s, t, s.decisions[k].id);
}

/// A later evaluation under the same operation key, of another request or
/// of any other kind, does not take the replay away: the first request
/// still replays its own decision afterwards, whatever revision came in
/// between. The one exception left out is an evaluation that draws a
/// decision id already recorded.
pub proof fn lemma_evaluation_replays_after_revision(
    s: SpendManagerView,
    user: UserContext,
    operation_key: Seq<char>,
    request: SpendRequest,
    policy: Policy,
    revision_and_actor: Option<(u64, Seq<char>)>,
    decision_id: SpendDecisionId,
    token_id: SpendAuthTokenId,
    now: i64,
    resp: SpendEvaluationResponse,
    t: SpendManagerView,
    user2: UserContext,
    operation_key2: Seq<char>,
    request2: SpendRequest,
    policy2: Policy,
    revision_and_actor2: Option<(u64, Seq<char>)>,
    decision_id2: SpendDecisionId,
    token_id2: SpendAuthTokenId,
    now2: i64,
    r2: Result<SpendEvaluationResponse, SpendError>,
    t2: SpendManagerView,
    operation_key3: Seq<char>,
    revision_and_actor3: Option<(u64, Seq<char>)>,
    decision_id3: SpendDecisionId,
    token_id3: SpendAuthTokenId,
    now3: i64,
    r3: Result<SpendEvaluationResponse, SpendError>,
    t3: SpendManagerView,
)
    requires
        spec_evaluate_outcome(s, user, operation_key, request, policy, revision_and_actor, decision_id, token_id, now,
            Ok(resp), t),
        !resp.idempotent_replay,
        spec_evaluate_outcome(t, user2, operation_key2, request2, policy2, revision_and_actor2, decision_id2, token_id2,
            now2, r2, t2),
        t.decision(decision_id2) is None,
        trim(operation_key3) == trim(operation_key),
        spec_evaluate_outcome(t2, user, operation_key3, request, policy, revision_and_actor3, decision_id3, token_id3,
            now3, r3, t3),
    ensures
        r3 matches Ok(resp3) && resp3.idempotent_replay && resp3.decision_id == resp.decision_id
            && resp3.operation_key@ == resp.operation_key@,
        t3 == t2,
{
    lemma_fresh_evaluation(s, user, operation_key, request, policy, revision_and_actor, decision_id, token_id, now, resp, t);
    lemma_recorded_decision_replays(s, t, trim(operation_key), request, decision_id);
    if t2 != t {
        lemma_replay_survives_push(t, t2, request.agent_id, trim(operation_key), request);
    }
}

/// A token that a payment used can not be presented by another payment:
/// it is refused as used, or as revoked when it had been revoked before.
pub proof fn lemma_used_token_is_refused(
    s: SpendManagerView,
    token_id: SpendAuthTokenId,
    payment_id: PaymentId,
    now: i64,
    t: SpendManagerView,
    request: SpendPaymentValidationRequest,
    later: i64,
    r: Result<ValidatedSpendAuthorization, SpendError>,
)
    requires
        mark_used_outcome(s, token_id, payment_id, now, Ok(()), t),
        request.spend_auth_token_id == token_id,
        payment_outcome(t, request, later, r),
    ensures
        r matches Err(SpendError::UsedSpendAuthToken) || r matches Err(SpendError::RevokedSpendAuthToken),
        (s.token(token_id) matches Some(tk) && tk.revoked_at is None) ==> r matches Err(SpendError::UsedSpendAuthToken),
{
    let i = last_match(s.tokens, token_is(token_id))->0;
    lemma_last_match_facts(s.tokens, token_is(token_id));
    let updated = t.tokens[i];
    lemma_last_match_update(s.tokens, i, updated, token_is(token_id));
}

/// A token that an executor claimed can not be marked used by a payment.
pub proof fn lemma_claimed_token_is_not_marked_used(
    s: SpendManagerView,
    request: SpendExecutorClaimRequest,
    claim_id: SpendExecutorClaimId,
    now: i64,
    claim: SpendExecutorClaimRecord,
    authorization: ValidatedSpendAuthorization,
    t: SpendManagerView,
    payment_id: PaymentId,
    later: i64,
    r: Result<(), SpendError>,
    u: SpendManagerView,
)
    requires
        claim_outcome(s, request, claim_id, now, Ok((claim, authorization)), t),
        t.claims.len() == s.claims.len() + 1,
        mark_used_outcome(t, request.authorization.spend_auth_token_id, payment_id, later, r, u),
    ensures
        r matches Err(SpendError::SpendAuthTokenAlreadyClaimed),
        u == t,
{
    let tid = request.authorization.spend_auth_token_id;
    assert(t.claims == s.claims.push(t.claims.last()));
    lemma_last_match_push(s.claims, t.claims.last(), claim_of_token(tid));
}

/// Claiming a token again with the same request, after a claim that took
/// it, returns that same claim and changes nothing, however late the
/// second request comes.
pub proof fn lemma_repeated_claim_returns_it(
    s: SpendManagerView,
    request: SpendExecutorClaimRequest,
    claim_id: SpendExecutorClaimId,
    now: i64,
    claim: SpendExecutorClaimRecord,
    authorization: ValidatedSpendAuthorization,
    t: SpendManagerView,
    claim_id2: SpendExecutorClaimId,
    later: i64,
    r: Result<(SpendExecutorClaimRecord, ValidatedSpendAuthorization), SpendError>,
    u: SpendManagerView,
)
    requires
        claim_outcome(s, request, claim_id, now, Ok((claim, authorization)), t),
        t.claims.len() == s.claims.len() + 1,
        claim_outcome(t, request, claim_id2, later, r, u),
    ensures
        r == Ok::<(SpendExecutorClaimRecord, ValidatedSpendAuthorization), SpendError>((claim, authorization)),
        u == t,
{
    let agent = request.authorization.agent_id;
    let key = request.operation_key@;
    assert(t.claims == s.claims.push(claim));
    lemma_last_match_push(s.claims, claim, claim_of_operation(agent, key));
    lemma_last_match_push(s.claims, claim, claim_is(claim.id));
    assert(t.claims[s.claims.len() as int] == claim);
    assert(t.claim_for_operation(agent, key) == Some(claim));
    assert(scope_outcome(t, request.authorization, true, Ok::<ValidatedSpendAuthorization, SpendError>(authorization)));
}

/// A token that one operation claimed can not be claimed under another
/// operation key: the claim is refused as already claimed and nothing
/// changes, where no claim stood under that other key before.
pub proof fn lemma_claim_under_other_key_is_refused(
    s: SpendManagerView,
    request: SpendExecutorClaimRequest,
    claim_id: SpendExecutorClaimId,
    now: i64,
    claim: SpendExecutorClaimRecord,
    authorization: ValidatedSpendAuthorization,
    t: SpendManagerView,
    request2: SpendExecutorClaimRequest,
    claim_id2: SpendExecutorClaimId,
    later: i64,
    r: Result<(SpendExecutorClaimRecord, ValidatedSpendAuthorization), SpendError>,
    u: SpendManagerView,
)
    requires
        claim_outcome(s, request, claim_id, now, Ok((claim, authorization)), t),
        t.claims.len() == s.claims.len() + 1,
        request2.authorization == request.authorization,
        request2.operation_key@ != request.operation_key@,
        s.claim_for_operation(request.authorization.agent_id, request2.operation_key@) is None,
        claim_outcome(t, request2, claim_id2, later, r, u),
    ensures
        r matches Err(SpendError::SpendAuthTokenAlreadyClaimed),
        u == t,
{
    let agent = request.authorization.agent_id;
    let key2 = request2.operation_key@;
    let tid = request.authorization.spend_auth_token_id;
    assert(t.claims == s.claims.push(claim));
    lemma_last_match_push(s.claims, claim, claim_of_operation(agent, key2));
    lemma_last_match_push(s.claims, claim, claim_of_token(tid));
    lemma_last_match_push(s.claims, claim, claim_is(claim.id));
    assert(t.claims[s.claims.len() as int] == claim);
    if let Some(i) = last_match(s.claims, claim_of_operation(agent, key2)) {
        lemma_last_match_facts(s.claims, claim_of_operation(agent, key2));
        lemma_last_match_facts(s.claims, claim_is(s.claims[i].id));
    }
    assert(claim.operation_key@ == request.operation_key@);
    assert(t.claim_for_operation(agent, key2) is None);
}

/// The budget charge of a vendor cost is never below the cost: at two or
/// fewer decimals it is exact, at more it rounds up to the next cent.
pub proof fn lemma_charge_covers_cost(amount: int, scale: nat)
    requires
        amount >= 0,
    ensures
        scale <= 2 ==> charge_cents(amount, scale) == amount * pow10((2 - scale) as nat),
        scale > 2 ==> charge_cents(amount, scale) * pow10((scale - 2) as nat) >= amount,
        scale > 2 ==> (charge_cents(amount, scale) - 1) * pow10((scale - 2) as nat) < amount,
{
    if scale > 2 {
        let d = pow10((scale - 2) as nat);
        lemma_pow10_positive((scale - 2) as nat);
        let q = amount / d;
        let m = amount % d;
        assert(amount == d * q + m && 0 <= m < d) by (nonlinear_arith)
            requires
                d >= 1,
                q == amount / d,
                m == amount % d,
        ;
        if m == 0 {
            assert(charge_cents(amount, scale) == q);
            assert(q * d == amount) by (nonlinear_arith)
                requires
                    amount == d * q + m,
                    m == 0,
            ;
            assert((q - 1) * d < amount) by (nonlinear_arith)
                requires
                    q * d == amount,
                    d >= 1,
            ;
        } else {
            assert(charge_cents(amount, scale) == q + 1);
            assert((q + 1) * d >= amount) by (nonlinear_arith)
                requires
                    amount == d * q + m,
                    m < d,
            ;
            assert(q * d < amount) by (nonlinear_arith)
                requires
                    amount == d * q + m,
                    m > 0,
            ;
        }
    }
}

proof fn lemma_pow10_positive(n: nat)
    ensures
        pow10(n) >= 1,
    decreases n,
{
    if n > 0 {
        lemma_pow10_positive((n - 1) as nat);
    }
}

/// A payment that names exactly the authorized spend's agent, account,
/// amount, currency, merchant and task, without a scope on either side, is
/// accepted as that spend; a payment that differs from it in any of these is
/// not.
pub proof fn lemma_payment_match_is_field_equality(payment: SpendPaymentValidationRequest, spend: SpendRequest)
    ensures
        spec_payment_matches(payment, spend) ==> {
            &&& payment.agent_id == spend.agent_id
            &&& payment.agent_account_id == spend.agent_account_id
            &&& payment.amount_cents == spend.amount_cents
            &&& payment.currency == spend.currency
            &&& match (payment.merchant, spend.merchant) {
                (None, None) => true,
                (Some(x), Some(y)) => x@ == y@,
                _ => false,
            }
            &&& match (payment.task_id, spend.task_id) {
                (None, None) => true,
                (Some(x), Some(y)) => x@ == y@,
                _ => false,
            }
        },
        ({
            &&& payment.agent_id == spend.agent_id
            &&& payment.agent_account_id == spend.agent_account_id
            &&& payment.amount_cents == spend.amount_cents
            &&& payment.currency == spend.currency
            &&& match (payment.merchant, spend.merchant) {
                (None, None) => true,
                (Some(x), Some(y)) => x@ == y@,
                _ => false,
            }
            &&& match (payment.task_id, spend.task_id) {
                (None, None) => true,
                (Some(x), Some(y)) => x@ == y@,
                _ => false,
            }
            &&& payment.execution_scope is None
            &&& spend.execution_scope is None
        }) ==> spec_payment_matches(payment, spend),
{
}

/// A payment accepted for a spend authorized under an execution scope
/// presents that same scope: the same schema and the same provider,
/// executor, capability and billing merchant, by id and display name.
pub proof fn lemma_payment_match_keeps_the_scope(payment: SpendPaymentValidationRequest, spend: SpendRequest)
    requires
        spec_payment_matches(payment, spend),
        spend.execution_scope is Some,
    ensures
        payment.execution_scope is Some,
        ({
            let x = payment.execution_scope->0;
            let y = spend.execution_scope->0;
            &&& x.schema_version == y.schema_version
            &&& x.provider.id@ == y.provider.id@ && x.provider.display_name@ == y.provider.display_name@
            &&& x.executor.id@ == y.executor.id@ && x.executor.display_name@ == y.executor.display_name@
            &&& x.capability.id@ == y.capability.id@ && x.capability.display_name@ == y.capability.display_name@
            &&& x.billing_merchant.id@ == y.billing_merchant.id@
            &&& x.billing_merchant.display_name@ == y.billing_merchant.display_name@
        }),
{
}

/// A payment that a token validates presents a live, unused, unclaimed and
/// unexpired token of an allowed decision of the same owner, and names
/// exactly the spend that decision authorized: its agent, account, amount,
/// currency, merchant and task.
pub proof fn lemma_accepted_payment_names_authorized_spend(
    s: SpendManagerView,
    request: SpendPaymentValidationRequest,
    now: i64,
    a: ValidatedSpendAuthorization,
)
    requires
        payment_outcome(s, request, now, Ok(a)),
    ensures
        s.token(request.spend_auth_token_id) is Some,
        ({
            let t = s.token(request.spend_auth_token_id)->0;
            &&& t.revoked_at is None
            &&& t.used_at is None
            &&& last_match(s.claims, claim_of_token(request.spend_auth_token_id)) is None
            &&& now < t.expires_at
            &&& a.spend_auth_token_id == t.id
            &&& a.spend_decision_id == t.spend_decision_id
            &&& s.decision(t.spend_decision_id) is Some
        }),
        ({
            let t = s.token(request.spend_auth_token_id)->0;
            let d = s.decision(t.spend_decision_id)->0;
            &&& d.evaluation.decision == Effect::Allow
            &&& request.owner_user_id == d.owner_user_id
            &&& request.agent_id == d.request.agent_id
            &&& request.agent_account_id == d.request.agent_account_id
            &&& request.amount_cents == d.request.amount_cents
            &&& request.currency == d.request.currency
            &&& match (request.merchant, d.request.merchant) {
                (None, None) => true,
                (Some(x), Some(y)) => x@ == y@,
                _ => false,
            }
            &&& match (request.task_id, d.request.task_id) {
                (None, None) => true,
                (Some(x), Some(y)) => x@ == y@,
                _ => false,
            }
        }),
{
    let t = s.token(request.spend_auth_token_id)->0;
    let d = s.decision(t.spend_decision_id)->0;
    lemma_payment_match_is_field_equality(request, d.request);
}

/// A payment that presents a live, unused, unclaimed, unexpired token of an
/// allowed decision of its owner, but names another merchant than the spend
/// that decision authorized, is refused as not matching it.
pub proof fn lemma_payment_to_another_merchant_is_refused(
    s: SpendManagerView,
    request: SpendPaymentValidationRequest,
    now: i64,
    r: Result<ValidatedSpendAuthorization, SpendError>,
)
    requires
        payment_outcome(s, request, now, r),
        s.token(request.spend_auth_token_id) is Some,
        ({
            let t = s.token(request.spend_auth_token_id)->0;
            &&& t.revoked_at is None
            &&& t.used_at is None
            &&& last_match(s.claims, claim_of_token(request.spend_auth_token_id)) is None
            &&& now < t.expires_at
            &&& s.decision(t.spend_decision_id) is Some
        }),
        ({
            let t = s.token(request.spend_auth_token_id)->0;
            let d = s.decision(t.spend_decision_id)->0;
            &&& d.evaluation.decision == Effect::Allow
            &&& request.owner_user_id == d.owner_user_id
            &&& !match (request.merchant, d.request.merchant) {
                (None, None) => true,
                (Some(x), Some(y)) => x@ == y@,
                _ => false,
            }
        }),
    ensures
        r matches Err(SpendError::PaymentRequestMismatch),
{
    let t = s.token(request.spend_auth_token_id)->0;
    let d = s.decision(t.spend_decision_id)->0;
    lemma_payment_match_is_field_equality(request, d.request);
}

/// Two requests replay one another only if they describe the same spend:
/// the same amount, currency, owner, agent, account, merchant, category,
/// task and lease profile.
pub proof fn lemma_replay_equivalent_requests_agree(a: SpendRequest, b: SpendRequest)
    requires
        spec_replay_equivalent(a, b),
    ensures
        a.amount_cents == b.amount_cents,
        a.currency == b.currency,
        a.owner_user_id == b.owner_user_id,
        a.agent_id == b.agent_id,
        a.agent_account_id == b.agent_account_id,
        match (a.merchant, b.merchant) {
            (None, None) => true,
            (Some(x), Some(y)) => x@ == y@,
            _ => false,
        },
        match (a.category, b.category) {
            (None, None) => true,
            (Some(x), Some(y)) => x@ == y@,
            _ => false,
        },
        match (a.task_id, b.task_id) {
            (None, None) => true,
            (Some(x), Some(y)) => x@ == y@,
            _ => false,
        },
        a.lease_profile@ == b.lease_profile@,
{
}

/// An evaluation answered as a replay returns a recorded decision whose
/// request describes the same spend as the one evaluated: the same agent,
/// amount, currency, owner, account, merchant, category and task. A request that differs from every
/// recorded one in any of these is never answered as a replay.
pub proof fn lemma_replay_answers_the_same_spend(
    s: SpendManagerView,
    user: UserContext,
    operation_key: Seq<char>,
    request: SpendRequest,
    policy: Policy,
    revision_and_actor: Option<(u64, Seq<char>)>,
    decision_id: SpendDecisionId,
    token_id: SpendAuthTokenId,
    now: i64,
    resp: SpendEvaluationResponse,
    t: SpendManagerView,
)
    requires
        spec_evaluate_outcome(s, user, operation_key, request, policy, revision_and_actor, decision_id, token_id, now,
            Ok(resp), t),
        resp.idempotent_replay,
    ensures
        t == s,
        s.decision(resp.decision_id) matches Some(d)
            && d.request.agent_id == request.agent_id
            && d.request.amount_cents == request.amount_cents
            && d.request.currency == request.currency
            && d.request.owner_user_id == request.owner_user_id
            && d.request.agent_account_id == request.agent_account_id
            && match (d.request.merchant, request.merchant) {
                (None, None) => true,
                (Some(x), Some(y)) => x@ == y@,
                _ => false,
            }
            && match (d.request.category, request.category) {
                (None, None) => true,
                (Some(x), Some(y)) => x@ == y@,
                _ => false,
            }
            && match (d.request.task_id, request.task_id) {
                (None, None) => true,
                (Some(x), Some(y)) => x@ == y@,
                _ => false,
            },
{
    let key = trim(operation_key);
    let agent = request.agent_id;
    let n = s.decisions.len() as int;
    lemma_first_replay_facts(s, agent, key, request, n);
    let k = first_replay_within(s, agent, key, request, n)->0;
    let id = s.decisions[k].id;
    lemma_last_match_facts(s.decisions, decision_is(id));
    let d = s.decision(id)->0;
    assert(d.id == id);
    lemma_replay_equivalent_requests_agree(d.request, request);
}

} // verus!
