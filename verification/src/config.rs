//! Persisted client configuration: server address and login credentials.

use vstd::prelude::*;

verus! {

/// The client's stored settings.  The address has the shape `host:port`;
/// the credentials are sent verbatim in the login line, so a usable
/// configuration holds no separator or newline in either of them.
#[derive(Debug)]
pub struct BoopConfig {
    pub server_address: String,
    pub user: String,
    pub password: String,
}

impl BoopConfig {
    /// Assemble a configuration from its parts.
    pub fn new(server_address: String, user: String, password: String) -> (r: BoopConfig)
        ensures
            r.server_address@ == server_address@,
            r.user@ == user@,
            r.password@ == password@,
    {
        BoopConfig { server_address, user, password }
    }

    /// The `host:port` string of the server to connect to.
    pub fn server_address(&self) -> (r: String)
        ensures
            r@ == self.server_address@,
    {
        self.server_address.clone()
    }

    /// The login name.
    pub fn user_name(&self) -> (r: String)
        ensures
            r@ == self.user@,
    {
        self.user.clone()
    }

    /// The login password.
    pub fn password(&self) -> (r: String)
        ensures
            r@ == self.password@,
    {
        self.password.clone()
    }
}

impl Default for BoopConfig {
    /// An empty configuration, used when nothing is stored yet.
    fn default() -> (r: Self)
        ensures
            r.server_address@ == Seq::<char>::empty(),
            r.user@ == Seq::<char>::empty(),
            r.password@ == Seq::<char>::empty(),
    {
        BoopConfig { server_address: String::new(), user: String::new(), password: String::new() }
    }
}

} // verus!
