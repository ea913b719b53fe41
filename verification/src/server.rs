//! Settings and parameters of the server that runs disclosure sessions for a reader.

use vstd::prelude::*;

verus! {

/// Where errors of the application are reported.
#[derive(Debug, Clone, PartialEq, Eq)]
pub struct Sentry {
    pub dsn: String,
    pub environment: Option<String>,
}

/// The options with which the reporting of errors is started.
#[derive(Debug, Clone, PartialEq, Eq)]
pub struct ClientOptions {
    pub dsn: String,
    pub release: Option<String>,
    pub environment: Option<String>,
    pub debug: bool,
}

impl Sentry {
    /// The options for reporting errors of the given release of the application: the
    /// configured address and environment, with the release and the debug flag as given.
    pub fn client_options(&self, release: Option<String>, debug: bool) -> (options: ClientOptions)
        ensures
            options.dsn@ == self.dsn@,
            options.release == release,
            options.environment is Some <==> self.environment is Some,
            self.environment is Some ==> options.environment.unwrap()@
                == self.environment.unwrap()@,
            options.debug == debug,
    {
        let environment = match &self.environment {
            Some(name) => Some(name.clone()),
            None => None,
        };
        ClientOptions { dsn: self.dsn.clone(), release, environment, debug }
    }
}

/// The parameters with which a reader fetches the attributes that a session disclosed.
#[derive(Debug, Clone, PartialEq, Eq)]
pub struct DisclosedAttributesParams {
    pub nonce: Option<String>,
}

} // verus!
