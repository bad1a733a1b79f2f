//! Service configuration: the login credentials and the token secret, set once at
//! start-up and read afterwards.

use vstd::prelude::*;

verus! {

/// The login e-mail, the password and the secret that signs session tokens.
pub struct Config {
    pub login_email: String,
    pub password: String,
    pub jwt_secret: String,
}

impl Config {
    /// A configuration made of the three values.
    pub fn new(login_email: String, password: String, jwt_secret: String) -> (r: Config)
        ensures
            r.login_email == login_email,
            r.password == password,
            r.jwt_secret == jwt_secret,
    {
        Config { login_email, password, jwt_secret }
    }
}

/// A slot that receives the configuration once and hands it out afterwards.
pub struct ConfigStore {
    config: Option<Config>,
}

impl View for ConfigStore {
    type V = Option<Config>;

    closed spec fn view(&self) -> Option<Config> {
        self.config
    }
}

impl ConfigStore {
    /// An empty slot.
    pub fn new() -> (r: ConfigStore)
        ensures
            r@ is None,
    {
        ConfigStore { config: None }
    }

    /// Whether the configuration has been set.
    pub fn is_initialized(&self) -> (r: bool)
        ensures
            r == self@ is Some,
    {
        self.config.is_some()
    }
}

/// Stores the configuration; the slot must still be empty.
pub fn init(store: &mut ConfigStore, config: Config)
    requires
        old(store)@ is None,
    ensures
        final(store)@ == Some(config),
{
    store.config = Some(config);
}

/// The stored configuration; the slot must have been set.
pub fn get(store: &ConfigStore) -> (r: &Config)
    requires
        store@ is Some,
    ensures
        Some(*r) == store@,
{
    match &store.config {
        Some(c) => c,
        None => vstd::pervasive::unreached(),
    }
}

} // verus!
