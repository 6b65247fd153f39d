use vstd::prelude::*;
use vstd::string::StringExecFns;
use crate::domain::NewSubscriber;

verus! {

/// The two failures a subscription request can answer with: a rejected
/// input, or a store that could not persist the row. The response body stays
/// empty either way; only the status code tells them apart.
#[derive(Debug)]
pub enum SubscribeError {
    ValidationError(String),
    DatabaseError(String),
}

impl SubscribeError {
    /// Maps each failure to its response status: a validation failure is the
    /// client's, a store failure is the server's.
    pub fn status_code(&self) -> (r: u16)
        ensures
            self is ValidationError ==> r == 400,
            self is DatabaseError ==> r == 500,
    {
        match self {
            SubscribeError::ValidationError(_) => 400,
            SubscribeError::DatabaseError(_) => 500,
        }
    }

    /// The one-line description the error displays as; the detail stays in
    /// the carried reason, for logs only.
    pub fn message(&self) -> (r: String)
        ensures
            r@ == "Failed to create a new subscriber."@,
    {
        String::from_str("Failed to create a new subscriber.")
    }
}

impl From<String> for SubscribeError {
    /// A failure reason from the domain parsers is always a validation
    /// failure.
    fn from(e: String) -> (r: SubscribeError) {
        SubscribeError::ValidationError(e)
    }
}

impl vstd::std_specs::convert::FromSpecImpl<String> for SubscribeError {
    open spec fn obeys_from_spec() -> bool {
        true
    }

    open spec fn from_spec(e: String) -> SubscribeError {
        SubscribeError::ValidationError(e)
    }
}

/// The validation step of a subscription request: a form that does not
/// convert is a validation failure, answered with a client error.
pub fn validate_subscription(form: crate::forms::FormData) -> (r: Result<
    NewSubscriber,
    SubscribeError,
>)
    ensures
        r is Ok <==> crate::domain::name_ok(form.name@) && crate::domain::email_ok(form.email@),
        r matches Ok(ns) ==> ns.name@ == form.name@ && ns.email@ == form.email@,
        r matches Err(e) ==> e is ValidationError,
{
    match NewSubscriber::try_from(form) {
        Ok(ns) => Ok(ns),
        Err(reason) => Err(SubscribeError::ValidationError(reason)),
    }
}

/// Relies on `chrono::Utc::now`: a wall-clock reading, in milliseconds since
/// the Unix epoch; nothing can be promised of its value.
#[verifier::external_body]
fn now_utc_millis() -> i64 {
    chrono::Utc::now().timestamp_millis()
}

/// One row of the `subscriptions` table, as the insert writes it.
pub struct SubscriptionRecord {
    pub email: String,
    pub name: String,
    pub subscribed_at_millis: i64,
    pub status: String,
}

impl SubscriptionRecord {
    /// Builds the row for a validated subscriber: both validated values go
    /// in unchanged, the status is `pending_confirmation`, and the timestamp
    /// is whatever the wall clock reads at the moment of the call.
    pub fn new(ns: &NewSubscriber) -> (r: SubscriptionRecord)
        ensures
            r.email@ == ns.email@,
            r.name@ == ns.name@,
            r.status@ == "pending_confirmation"@,
    {
        SubscriptionRecord {
            email: String::from_str(ns.email.as_ref()),
            name: String::from_str(ns.name.as_ref()),
            subscribed_at_millis: now_utc_millis(),
            status: String::from_str("pending_confirmation"),
        }
    }
}

/// The statement executed for every new subscription, with the row's four
/// fields bound in order.
pub fn insert_statement() -> (r: &'static str)
    ensures
        r@ == "INSERT INTO subscriptions (email, name, subscribed_at, status) VALUES ($1, $2, $3, $4)"@,
{
    "INSERT INTO subscriptions (email, name, subscribed_at, status) VALUES ($1, $2, $3, $4)"
}

/// The liveness probe's status: unconditionally OK, with an empty body.
pub fn health_check() -> (r: u16)
    ensures
        r == 200,
{
    200
}

} // verus!
