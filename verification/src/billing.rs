//! Billing plans, their limits, and the mock billing client used when no
//! Stripe key is configured.

use vstd::prelude::*;
use crate::strmap::StrMap;
use crate::text::{
    concat, dec, dec_string, hex_padded, lemma_hex_padded_injective, push_hex_padded, push_str, to_owned_str,
};

verus! {

/// Billing plan tier.
#[derive(Clone, Copy, Debug, PartialEq, Eq, Structural)]
pub enum Plan {
    Free,
    Pro,
    Enterprise,
}

impl Plan {
    /// Monthly price in USD cents; Enterprise has custom pricing.
    pub fn price_cents(self) -> (res: Option<u64>)
        ensures
            res == match self {
                Plan::Free => Some(0u64),
                Plan::Pro => Some(2900u64),
                Plan::Enterprise => None,
            },
    {
        match self {
            Plan::Free => Some(0),
            Plan::Pro => Some(2900),
            Plan::Enterprise => None,
        }
    }

    /// Human-readable price label.
    pub fn price_label(self) -> (res: &'static str)
        ensures
            res@ == match self {
                Plan::Free => "$0/mo"@,
                Plan::Pro => "$29/mo"@,
                Plan::Enterprise => "Custom"@,
            },
    {
        match self {
            Plan::Free => "$0/mo",
            Plan::Pro => "$29/mo",
            Plan::Enterprise => "Custom",
        }
    }
}

/// Resource limits associated with a billing plan.
#[derive(Clone, Copy, Debug, PartialEq, Eq, Structural)]
pub struct PlanLimits {
    pub max_deployments: u32,
    pub max_instances_per_deployment: u32,
    pub max_wasm_size_bytes: u64,
    pub max_request_rate: u32,
}

/// The limits of each plan: Free 3 deployments of 5 instances, 10 MB, 100
/// rps; Pro 10 of 20, 50 MB, 1000 rps; Enterprise unlimited.
pub open spec fn plan_limits(plan: Plan) -> PlanLimits {
    match plan {
        Plan::Free => PlanLimits {
            max_deployments: 3,
            max_instances_per_deployment: 5,
            max_wasm_size_bytes: 10485760,
            max_request_rate: 100,
        },
        Plan::Pro => PlanLimits {
            max_deployments: 10,
            max_instances_per_deployment: 20,
            max_wasm_size_bytes: 52428800,
            max_request_rate: 1000,
        },
        Plan::Enterprise => PlanLimits {
            max_deployments: u32::MAX,
            max_instances_per_deployment: u32::MAX,
            max_wasm_size_bytes: u64::MAX,
            max_request_rate: u32::MAX,
        },
    }
}

impl PlanLimits {
    /// The limits for a given plan.
    pub fn for_plan(plan: Plan) -> (res: Self)
        ensures
            res == plan_limits(plan),
    {
        match plan {
            Plan::Free => PlanLimits {
                max_deployments: 3,
                max_instances_per_deployment: 5,
                max_wasm_size_bytes: 10 * 1024 * 1024,
                max_request_rate: 100,
            },
            Plan::Pro => PlanLimits {
                max_deployments: 10,
                max_instances_per_deployment: 20,
                max_wasm_size_bytes: 50 * 1024 * 1024,
                max_request_rate: 1000,
            },
            Plan::Enterprise => PlanLimits {
                max_deployments: u32::MAX,
                max_instances_per_deployment: u32::MAX,
                max_wasm_size_bytes: u64::MAX,
                max_request_rate: u32::MAX,
            },
        }
    }
}

/// A higher plan never has lower limits.
pub proof fn law_plan_limits_monotone()
    ensures
        plan_limits(Plan::Free).max_deployments <= plan_limits(Plan::Pro).max_deployments
            <= plan_limits(Plan::Enterprise).max_deployments,
        plan_limits(Plan::Free).max_instances_per_deployment <= plan_limits(
            Plan::Pro,
        ).max_instances_per_deployment <= plan_limits(Plan::Enterprise).max_instances_per_deployment,
        plan_limits(Plan::Free).max_wasm_size_bytes <= plan_limits(Plan::Pro).max_wasm_size_bytes
            <= plan_limits(Plan::Enterprise).max_wasm_size_bytes,
        plan_limits(Plan::Free).max_request_rate <= plan_limits(Plan::Pro).max_request_rate
            <= plan_limits(Plan::Enterprise).max_request_rate,
{
}

/// Error type for billing operations.
#[derive(Debug)]
pub enum BillingError {
    Api(String),
}

impl BillingError {
    /// The human-readable message: `billing API error: <msg>`.
    pub fn to_string(&self) -> (res: String)
        ensures
            self matches BillingError::Api(m) && res@ == "billing API error: "@ + m@,
    {
        match self {
            BillingError::Api(m) => concat("billing API error: ", m.as_str()),
        }
    }
}

/// The id of the `n`-th mock customer: `mock_cus_` and `n` in at least eight
/// hex digits.
pub open spec fn mock_customer_id(n: nat) -> Seq<char> {
    "mock_cus_"@ + hex_padded(n, 8)
}

/// Mock customers have distinct ids.
pub proof fn law_mock_ids_unique(a: nat, b: nat)
    requires
        a != b,
    ensures
        mock_customer_id(a) != mock_customer_id(b),
{
    if mock_customer_id(a) == mock_customer_id(b) {
        let p = "mock_cus_"@;
        assert(hex_padded(a, 8) =~= mock_customer_id(a).subrange(p.len() as int, mock_customer_id(a).len() as int));
        assert(hex_padded(b, 8) =~= mock_customer_id(b).subrange(p.len() as int, mock_customer_id(b).len() as int));
        lemma_hex_padded_injective(a, b, 8);
    }
}

/// Mock billing client for development and beta: keeps the plan of each
/// customer in memory.
pub struct MockBillingClient {
    plans: StrMap<Plan>,
    counter: u64,
}

impl MockBillingClient {
    #[verifier::type_invariant]
    closed spec fn inv(self) -> bool {
        self.plans.wf()
    }

    /// The plan of each known customer.
    pub closed spec fn plans(&self) -> Map<Seq<char>, Plan> {
        self.plans@
    }

    /// How many customer ids have been handed out.
    pub closed spec fn issued(&self) -> nat {
        self.counter as nat
    }

    /// The plan of a customer: its recorded plan, or Free if unknown.
    pub open spec fn plan_of(&self, customer_id: Seq<char>) -> Plan {
        if self.plans().contains_key(customer_id) {
            self.plans()[customer_id]
        } else {
            Plan::Free
        }
    }

    /// A client with no customers.
    pub fn new() -> (res: Self)
        ensures
            res.plans() == Map::<Seq<char>, Plan>::empty(),
            res.issued() == 0,
    {
        MockBillingClient { plans: StrMap::new(), counter: 0 }
    }

    /// The next customer id.
    pub fn next_id(&mut self) -> (res: String)
        requires
            old(self).issued() < u64::MAX,
        ensures
            final(self).issued() == old(self).issued() + 1,
            final(self).plans() == old(self).plans(),
            res@ == mock_customer_id(final(self).issued()),
    {
        proof {
            use_type_invariant(&*self);
        }
        self.counter = self.counter + 1;
        let mut s = String::new();
        push_str(&mut s, "mock_cus_");
        push_hex_padded(&mut s, self.counter, 8);
        proof {
            assert(s@ =~= mock_customer_id(self.counter as nat));
        }
        s
    }

    /// Creates a customer on the Free plan and returns its id, which differs
    /// from every id the client handed out before.
    pub fn create_customer(&mut self, email: &str, team_id: &str) -> (res: Result<
        String,
        BillingError,
    >)
        requires
            old(self).issued() < u64::MAX,
        ensures
            final(self).issued() == old(self).issued() + 1,
            res matches Ok(id) && id@ == mock_customer_id(final(self).issued()),
            final(self).plans() == old(self).plans().insert(
                mock_customer_id(final(self).issued()),
                Plan::Free,
            ),
            final(self).plan_of(mock_customer_id(final(self).issued())) == Plan::Free,
            forall|n: nat|
                n <= old(self).issued() ==> #[trigger] mock_customer_id(n) != mock_customer_id(
                    final(self).issued(),
                ),
    {
        proof {
            assert forall|n: nat| n <= old(self).issued() implies #[trigger] mock_customer_id(n)
                != mock_customer_id(old(self).issued() + 1) by {
                law_mock_ids_unique(n, old(self).issued() + 1);
            }
        }
        proof {
            use_type_invariant(&*self);
        }
        let id = self.next_id();
        proof {
            use_type_invariant(&*self);
        }
        let mut plans = StrMap::new();
        std::mem::swap(&mut plans, &mut self.plans);
        plans.insert(id.clone(), Plan::Free);
        self.plans = plans;
        Ok(id)
    }

    /// The URL of a (mock) billing portal session for a customer.
    pub fn create_billing_portal_session(&self, customer_id: &str) -> (res: Result<
        String,
        BillingError,
    >)
        ensures
            res matches Ok(url) && url@ == "https://billing.stripe.com/mock/session/"@
                + customer_id@,
    {
        Ok(concat("https://billing.stripe.com/mock/session/", customer_id))
    }

    /// The plan of a customer; Free when the customer is unknown.
    pub fn get_plan(&self, customer_id: &str) -> (res: Plan)
        ensures
            res == self.plan_of(customer_id@),
    {
        proof {
            use_type_invariant(self);
        }
        match self.plans.get(customer_id) {
            Some(p) => *p,
            None => Plan::Free,
        }
    }

    /// Records the plan of a customer.
    pub fn set_plan(&mut self, customer_id: &str, plan: Plan)
        ensures
            final(self).issued() == old(self).issued(),
            final(self).plans() == old(self).plans().insert(customer_id@, plan),
            final(self).plan_of(customer_id@) == plan,
    {
        proof {
            use_type_invariant(&*self);
        }
        let mut plans = StrMap::new();
        std::mem::swap(&mut plans, &mut self.plans);
        plans.insert(to_owned_str(customer_id), plan);
        self.plans = plans;
    }
}

/// The live Stripe client's configuration: its secret key.
pub struct StripeBillingClient {
    pub secret_key: String,
}

impl StripeBillingClient {
    /// A client for the given secret key.
    pub fn new(secret_key: &str) -> (res: Self)
        ensures
            res.secret_key@ == secret_key@,
    {
        StripeBillingClient { secret_key: to_owned_str(secret_key) }
    }

    /// The `Authorization` header of a Stripe request: `Bearer {key}`.
    pub fn auth_header(&self) -> (res: String)
        ensures
            res@ == "Bearer "@ + self.secret_key@,
    {
        concat("Bearer ", self.secret_key.as_str())
    }

    /// Where customers are created.
    pub fn customers_url() -> (res: String)
        ensures
            res@ == STRIPE_API_BASE@ + "/customers"@,
    {
        concat(STRIPE_API_BASE, "/customers")
    }

    /// Where billing portal sessions are opened.
    pub fn portal_sessions_url() -> (res: String)
        ensures
            res@ == STRIPE_API_BASE@ + "/billing_portal/sessions"@,
    {
        concat(STRIPE_API_BASE, "/billing_portal/sessions")
    }

    /// Where metered usage is reported.
    pub fn meter_events_url() -> (res: String)
        ensures
            res@ == STRIPE_API_BASE@ + "/billing/meter_events"@,
    {
        concat(STRIPE_API_BASE, "/billing/meter_events")
    }

    /// The form of a customer creation: the email, and the team id as
    /// metadata.
    pub fn customer_form(email: &str, team_id: &str) -> (res: Vec<(String, String)>)
        ensures
            res@.len() == 2,
            res@[0].0@ == "email"@ && res@[0].1@ == email@,
            res@[1].0@ == "metadata[team_id]"@ && res@[1].1@ == team_id@,
    {
        let mut v: Vec<(String, String)> = Vec::new();
        v.push((to_owned_str("email"), to_owned_str(email)));
        v.push((to_owned_str("metadata[team_id]"), to_owned_str(team_id)));
        v
    }

    /// The form of a billing portal session for a customer.
    pub fn portal_form(customer_id: &str) -> (res: Vec<(String, String)>)
        ensures
            res@.len() == 1,
            res@[0].0@ == "customer"@ && res@[0].1@ == customer_id@,
    {
        let mut v: Vec<(String, String)> = Vec::new();
        v.push((to_owned_str("customer"), to_owned_str(customer_id)));
        v
    }

    /// The form of a metered usage report: the customer's compute time in
    /// whole seconds (the fraction is dropped before it comes here).
    pub fn usage_form(customer_id: &str, compute_seconds: u64) -> (res: Vec<(String, String)>)
        ensures
            res@.len() == 3,
            res@[0].0@ == "event_name"@ && res@[0].1@ == "compute_seconds"@,
            res@[1].0@ == "payload[stripe_customer_id]"@ && res@[1].1@ == customer_id@,
            res@[2].0@ == "payload[value]"@ && res@[2].1@ == dec(compute_seconds as nat),
    {
        let mut v: Vec<(String, String)> = Vec::new();
        v.push((to_owned_str("event_name"), to_owned_str("compute_seconds")));
        v.push((to_owned_str("payload[stripe_customer_id]"), to_owned_str(customer_id)));
        v.push((to_owned_str("payload[value]"), dec_string(compute_seconds)));
        v
    }
}

/// What a Stripe reply gives: for a status other than success, an API error
/// `Stripe error: {body}`; else the expected field of its JSON (`id` of a
/// customer, `url` of a portal session), or an API error `missing_message`
/// when the reply lacks it.
pub fn stripe_reply(success: bool, body: &str, field: Option<String>, missing_message: &str) -> (res: Result<
    String,
    BillingError,
>)
    ensures
        !success ==> (res matches Err(BillingError::Api(m)) && m@ == "Stripe error: "@ + body@),
        success ==> match field {
            Some(f) => res matches Ok(v) && v@ == f@,
            None => res matches Err(BillingError::Api(m)) && m@ == missing_message@,
        },
{
    if !success {
        return Err(BillingError::Api(concat("Stripe error: ", body)));
    }
    match field {
        Some(f) => Ok(f),
        None => Err(BillingError::Api(to_owned_str(missing_message))),
    }
}

/// The Stripe API.
pub const STRIPE_API_BASE: &'static str = "https://api.stripe.com/v1";

/// Billing facade: a live Stripe client or the mock.
pub enum BillingService {
    Active(StripeBillingClient),
    Mock(MockBillingClient),
}

impl BillingService {
    /// The live client for a non-empty Stripe key, else the mock.
    pub fn from_env(stripe_key: Option<String>) -> (res: Self)
        ensures
            match stripe_key {
                Some(k) if k@.len() > 0 => res matches BillingService::Active(c) && c.secret_key@
                    == k@,
                _ => res matches BillingService::Mock(m) && m.plans() == Map::<
                    Seq<char>,
                    Plan,
                >::empty() && m.issued() == 0,
            },
    {
        match stripe_key {
            Some(key) => {
                if key.as_str().is_empty() {
                    BillingService::Mock(MockBillingClient::new())
                } else {
                    BillingService::Active(StripeBillingClient::new(key.as_str()))
                }
            },
            None => BillingService::Mock(MockBillingClient::new()),
        }
    }

    /// The plan of a customer. The live client has no subscription lookup
    /// and answers Free.
    pub fn get_plan(&self, customer_id: &str) -> (res: Plan)
        ensures
            match self {
                BillingService::Active(_) => res == Plan::Free,
                BillingService::Mock(m) => res == m.plan_of(customer_id@),
            },
    {
        match self {
            BillingService::Active(_) => Plan::Free,
            BillingService::Mock(m) => m.get_plan(customer_id),
        }
    }

    /// Records the plan of a customer. For the live client the subscription
    /// is the source of truth and nothing changes.
    pub fn set_plan(&mut self, customer_id: &str, plan: Plan)
        ensures
            match (*old(self), *final(self)) {
                (BillingService::Active(a), BillingService::Active(b)) => a.secret_key@
                    == b.secret_key@,
                (BillingService::Mock(a), BillingService::Mock(b)) => b.plans() == a.plans().insert(
                    customer_id@,
                    plan,
                ) && b.issued() == a.issued(),
                _ => false,
            },
    {
        match self {
            BillingService::Active(_) => {},
            BillingService::Mock(m) => m.set_plan(customer_id, plan),
        }
    }
}

} // verus!
