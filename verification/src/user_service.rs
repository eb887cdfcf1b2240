//! The service that knows the users and their keys.

use vstd::prelude::*;

verus! {

/// The header that carries the token of the one who asks.
pub const AUTH_HEADER: &'static str = "x-api-key";

/// What can be asked of the service.
pub trait UserServiceInterface {
    /// The key that the service knows under this one, or why there is none.
    fn get_api_key(&self, api_key: String) -> Result<String, String>;
}

/// A key of a project, and who may use it.
#[derive(Debug)]
pub struct ApiKey {
    pub key_id: String,
    pub project_id: Option<String>,
    pub name: Option<String>,
    pub allow_cidr: Option<Vec<String>>,
    pub allow_domain: Option<Vec<String>>,
    pub allow_ip: Option<Vec<String>>,
    pub created_at: String,
    pub last_updated_at: String,
}

/// The service at an address, asked with a token.
#[derive(Debug)]
pub struct UserServiceAccessor {
    url: String,
    auth_token: String,
}

impl UserServiceAccessor {
    /// The address of the service.
    pub closed spec fn url(self) -> Seq<char> {
        self.url@
    }

    /// The token of the one who asks.
    pub closed spec fn auth_token(self) -> Seq<char> {
        self.auth_token@
    }

    /// The service at the given address, asked with the given token.
    pub fn new(url: String, auth_token: String) -> (accessor: Self)
        ensures
            accessor.url() == url@,
            accessor.auth_token() == auth_token@,
    {
        UserServiceAccessor { url, auth_token }
    }
}

impl UserServiceInterface for UserServiceAccessor {
    /// No key is known: the service is not asked, and the answer is always empty.
    fn get_api_key(&self, api_key: String) -> (result: Result<String, String>)
        ensures
            result matches Ok(key) && key@ == Seq::<char>::empty(),
    {
        let key = String::new();
        assert(key@ =~= Seq::<char>::empty());
        Ok(key)
    }
}

} // verus!
