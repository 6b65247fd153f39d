use vstd::prelude::*;
use vstd::string::StrSliceExecFns;
use vstd::string::StringExecFns;
use crate::domain::{email_ok, SubscriberEmail};

verus! {

/// Timeout, in seconds, on acquiring a connection from the pool.
pub const POOL_ACQUIRE_TIMEOUT_SECS: u64 = 2;

/// The whole application configuration, as the layered configuration files
/// fill it in.
#[derive(Debug)]
pub struct Settings {
    pub database: DatabaseSettings,
    pub application: ApplicationSettings,
    pub email_client: EmailClientSettings,
}

#[derive(Debug)]
pub struct EmailClientSettings {
    pub base_url: String,
    pub sender_email: String,
}

impl EmailClientSettings {
    /// Validates the configured sender identity through the email parser.
    pub fn sender(&self) -> (r: Result<SubscriberEmail, String>)
        ensures
            r is Ok <==> email_ok(self.sender_email@),
            r matches Ok(email) ==> email@ == self.sender_email@,
    {
        SubscriberEmail::parse(self.sender_email.clone())
    }
}

#[derive(Debug)]
pub struct ApplicationSettings {
    pub port: u16,
    pub host: String,
}

#[derive(Debug)]
pub struct DatabaseSettings {
    pub filename: String,
}

impl DatabaseSettings {
    /// The connection string of the store: the configured file, unchanged.
    pub fn connection_string(&self) -> (r: String)
        ensures
            r@ == self.filename@,
    {
        self.filename.clone()
    }
}

/// The runtime environment the process was started for.
#[derive(Clone, Copy, Debug, PartialEq, Eq, Structural)]
pub enum Environment {
    Local,
    Production,
    Test,
}

/// A character folded to lower case when it is an ASCII capital, as a scalar
/// value.
pub open spec fn lower_scalar(c: char) -> u32 {
    if 0x41 <= c as u32 && c as u32 <= 0x5a {
        (c as u32 + 0x20) as u32
    } else {
        c as u32
    }
}

/// ASCII-case-insensitive equality of two strings.
pub open spec fn eq_ignore_ascii_case(a: Seq<char>, b: Seq<char>) -> bool {
    a.len() == b.len() && forall|i: int| 0 <= i < a.len() ==> lower_scalar(a[i]) == lower_scalar(
        b[i],
    )
}

fn str_eq_ignore_ascii_case(a: &str, b: &str) -> (r: bool)
    ensures
        r == eq_ignore_ascii_case(a@, b@),
{
    let n = a.unicode_len();
    if n != b.unicode_len() {
        return false;
    }
    let mut i: usize = 0;
    while i < n
        invariant
            n == a@.len(),
            n == b@.len(),
            i <= n,
            forall|j: int| 0 <= j < i ==> lower_scalar(a@[j]) == lower_scalar(b@[j]),
        decreases n - i,
    {
        let ca = a.get_char(i) as u32;
        let cb = b.get_char(i) as u32;
        let la = if 0x41 <= ca && ca <= 0x5a {
            ca + 0x20
        } else {
            ca
        };
        let lb = if 0x41 <= cb && cb <= 0x5a {
            cb + 0x20
        } else {
            cb
        };
        if la != lb {
            return false;
        }
        i += 1;
    }
    true
}

impl Environment {
    /// The name each environment goes by in configuration files.
    pub open spec fn name_view(&self) -> Seq<char> {
        match self {
            Environment::Local => "local"@,
            Environment::Production => "production"@,
            Environment::Test => "test"@,
        }
    }

    pub fn as_str(&self) -> (r: &str)
        ensures
            r@ == self.name_view(),
    {
        match self {
            Environment::Local => "local",
            Environment::Production => "production",
            Environment::Test => "test",
        }
    }

    /// Reads an environment name, ignoring ASCII case; every other string is
    /// rejected with a reason that names the offending value.
    pub fn try_from(s: String) -> (r: Result<Environment, String>)
        ensures
            r matches Ok(env) ==> eq_ignore_ascii_case(s@, env.name_view()),
            r is Ok <==> eq_ignore_ascii_case(s@, "local"@) || eq_ignore_ascii_case(
                s@,
                "production"@,
            ) || eq_ignore_ascii_case(s@, "test"@),
            r matches Err(m) ==> m@ == s@
                + " is not a supported environment. Use either `local`, `production` or `test`."@,
    {
        if str_eq_ignore_ascii_case(s.as_str(), "local") {
            Ok(Environment::Local)
        } else if str_eq_ignore_ascii_case(s.as_str(), "production") {
            Ok(Environment::Production)
        } else if str_eq_ignore_ascii_case(s.as_str(), "test") {
            Ok(Environment::Test)
        } else {
            Err(
                s.concat(
                    " is not a supported environment. Use either `local`, `production` or `test`.",
                ),
            )
        }
    }

    /// The environment-specific configuration file, merged over the base
    /// file.
    pub fn configuration_file(&self) -> (r: String)
        ensures
            r@ == "configuration/"@ + self.name_view() + ".yaml"@,
    {
        let base = String::from_str("configuration/");
        base.concat(self.as_str()).concat(".yaml")
    }
}

} // verus!
