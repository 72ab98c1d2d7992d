use vstd::prelude::*;

verus! {

/// The server's settings.
#[derive(Debug, Clone, PartialEq, Eq)]
pub struct Config {
    pub database_url: String,
    pub oauth_issuer_url: String,
    pub oauth_client_id: String,
    pub oauth_client_secret: String,
    pub oauth_redirect_url: String,
    pub jwt_secret: String,
}

/// The raw values of the environment variables the server reads, each absent
/// when the variable is unset (or not valid Unicode).
#[derive(Debug, Clone, PartialEq, Eq)]
pub struct ConfigVars {
    pub database_url: Option<String>,
    pub oauth_issuer_url: Option<String>,
    pub oauth_client_id: Option<String>,
    pub oauth_client_secret: Option<String>,
    pub oauth_redirect_url: Option<String>,
    pub jwt_secret: Option<String>,
}

/// The variable that must be set and is missing first, in the order the
/// server reads them: the complaint names it (`<NAME> must be set`).
pub open spec fn first_missing(v: ConfigVars) -> Option<Seq<char>> {
    if v.oauth_issuer_url is None {
        Some("OAUTH_ISSUER_URL must be set"@)
    } else if v.oauth_client_id is None {
        Some("OAUTH_CLIENT_ID must be set"@)
    } else if v.oauth_client_secret is None {
        Some("OAUTH_CLIENT_SECRET must be set"@)
    } else if v.oauth_redirect_url is None {
        Some("OAUTH_REDIRECT_URL must be set"@)
    } else if v.jwt_secret is None {
        Some("JWT_SECRET must be set"@)
    } else {
        None
    }
}

/// Builds the configuration from the environment's values: the database
/// defaults to `sqlite:flatline.db`; every other variable is required, and
/// the first one missing is reported.
pub fn config_from_vars(vars: ConfigVars) -> (r: Result<Config, String>)
    ensures
        match first_missing(vars) {
            Some(msg) => r matches Err(m) && m@ == msg,
            None => r matches Ok(c) && {
                &&& c.database_url@ == (match vars.database_url {
                    Some(d) => d@,
                    None => "sqlite:flatline.db"@,
                })
                &&& Some(c.oauth_issuer_url) == vars.oauth_issuer_url
                &&& Some(c.oauth_client_id) == vars.oauth_client_id
                &&& Some(c.oauth_client_secret) == vars.oauth_client_secret
                &&& Some(c.oauth_redirect_url) == vars.oauth_redirect_url
                &&& Some(c.jwt_secret) == vars.jwt_secret
            },
        },
{
    let database_url = match vars.database_url {
        Some(d) => d,
        None => String::from_str("sqlite:flatline.db"),
    };
    let oauth_issuer_url = match vars.oauth_issuer_url {
        Some(v) => v,
        None => return Err(String::from_str("OAUTH_ISSUER_URL must be set")),
    };
    let oauth_client_id = match vars.oauth_client_id {
        Some(v) => v,
        None => return Err(String::from_str("OAUTH_CLIENT_ID must be set")),
    };
    let oauth_client_secret = match vars.oauth_client_secret {
        Some(v) => v,
        None => return Err(String::from_str("OAUTH_CLIENT_SECRET must be set")),
    };
    let oauth_redirect_url = match vars.oauth_redirect_url {
        Some(v) => v,
        None => return Err(String::from_str("OAUTH_REDIRECT_URL must be set")),
    };
    let jwt_secret = match vars.jwt_secret {
        Some(v) => v,
        None => return Err(String::from_str("JWT_SECRET must be set")),
    };
    Ok(
        Config {
            database_url,
            oauth_issuer_url,
            oauth_client_id,
            oauth_client_secret,
            oauth_redirect_url,
            jwt_secret,
        },
    )
}

} // verus!
