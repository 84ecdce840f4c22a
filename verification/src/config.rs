//! Credentials of the application registered with the streaming service.

use vstd::prelude::*;

verus! {

/// The application's credential pair.
#[derive(Debug, PartialEq, Eq)]
pub struct Profile {
    pub client_id: String,
    pub client_secret: String,
}

/// What the configuration file holds.
#[derive(Debug, PartialEq, Eq)]
pub struct UserConfig {
    pub profile: Profile,
}

impl Profile {
    /// A profile with both credentials empty.
    pub fn new() -> (p: Self)
        ensures
            p.client_id@ == Seq::<char>::empty(),
            p.client_secret@ == Seq::<char>::empty(),
    {
        Profile { client_id: String::new(), client_secret: String::new() }
    }
}

impl UserConfig {
    /// A configuration whose credentials are still empty.
    pub fn new() -> (c: Self)
        ensures
            c.profile.client_id@ == Seq::<char>::empty(),
            c.profile.client_secret@ == Seq::<char>::empty(),
    {
        UserConfig { profile: Profile::new() }
    }

    /// The same configuration with the client id replaced.
    pub fn client_id(self, client_id: String) -> (c: Self)
        ensures
            c.profile.client_id == client_id,
            c.profile.client_secret == self.profile.client_secret,
    {
        let mut c = self;
        c.profile.client_id = client_id;
        c
    }

    /// The same configuration with the client secret replaced.
    pub fn client_secret(self, client_secret: String) -> (c: Self)
        ensures
            c.profile.client_secret == client_secret,
            c.profile.client_id == self.profile.client_id,
    {
        let mut c = self;
        c.profile.client_secret = client_secret;
        c
    }
}

} // verus!
