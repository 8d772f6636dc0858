//! The credential set: four opaque secrets, sourced once at startup.

use vstd::prelude::*;

verus! {

/// The four credentials a request is signed with. Immutable for the process
/// lifetime; the secrets appear in no output other than the signing key.
pub struct Credentials {
    pub consumer_key: String,
    pub consumer_secret: String,
    pub access_token: String,
    pub access_token_secret: String,
}

/// A configuration error: the first credential field found missing.
#[derive(Clone, Copy, Debug, PartialEq, Eq, Structural)]
pub enum ConfigError {
    MissingConsumerKey,
    MissingConsumerSecret,
    MissingAccessToken,
    MissingAccessTokenSecret,
}

impl Credentials {
    /// Assemble the credential set from optional fields. Succeeds exactly
    /// when all four are present; otherwise reports the first missing one.
    pub fn from_fields(
        consumer_key: Option<String>,
        consumer_secret: Option<String>,
        access_token: Option<String>,
        access_token_secret: Option<String>,
    ) -> (r: Result<Credentials, ConfigError>)
        ensures
            (r is Ok) <==> (consumer_key is Some && consumer_secret is Some && access_token is Some
                && access_token_secret is Some),
            r matches Ok(c) ==> consumer_key == Some(c.consumer_key) && consumer_secret == Some(
                c.consumer_secret,
            ) && access_token == Some(c.access_token) && access_token_secret == Some(
                c.access_token_secret,
            ),
            consumer_key is None ==> r == Err::<Credentials, ConfigError>(
                ConfigError::MissingConsumerKey,
            ),
            consumer_key is Some && consumer_secret is None ==> r == Err::<
                Credentials,
                ConfigError,
            >(ConfigError::MissingConsumerSecret),
            consumer_key is Some && consumer_secret is Some && access_token is None ==> r == Err::<
                Credentials,
                ConfigError,
            >(ConfigError::MissingAccessToken),
            consumer_key is Some && consumer_secret is Some && access_token is Some
                && access_token_secret is None ==> r == Err::<Credentials, ConfigError>(
                ConfigError::MissingAccessTokenSecret,
            ),
    {
        let ck = match consumer_key {
            Some(x) => x,
            None => {
                return Err(ConfigError::MissingConsumerKey);
            },
        };
        let cs = match consumer_secret {
            Some(x) => x,
            None => {
                return Err(ConfigError::MissingConsumerSecret);
            },
        };
        let at = match access_token {
            Some(x) => x,
            None => {
                return Err(ConfigError::MissingAccessToken);
            },
        };
        let ats = match access_token_secret {
            Some(x) => x,
            None => {
                return Err(ConfigError::MissingAccessTokenSecret);
            },
        };
        Ok(
            Credentials {
                consumer_key: ck,
                consumer_secret: cs,
                access_token: at,
                access_token_secret: ats,
            },
        )
    }
}

} // verus!
