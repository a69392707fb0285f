//! Authentication and security context: credentials, identities, token
//! claims and the errors an authentication provider reports.

use vstd::prelude::*;

use std::collections::{BTreeMap, BTreeSet};

verus! {

/// A credential presented for authentication.
#[derive(Clone, Debug, PartialEq, Eq)]
pub enum Credential {
    /// A raw bearer token string (for example a JWT).
    BearerToken(String),
}

/// Why authentication failed.
#[derive(Debug, Clone, Copy, PartialEq, Eq, Structural)]
pub enum AuthenticationError {
    /// The token's expiry has passed.
    Expired,
    /// The token's signature does not verify.
    InvalidSignature,
    /// The token was issued by an unexpected issuer.
    InvalidIssuer,
    /// The token is not meant for this audience.
    InvalidAudience,
    /// The token cannot be parsed.
    MalformedToken,
}

/// The display text of an authentication error.
pub open spec fn authentication_message(e: AuthenticationError) -> Seq<char> {
    match e {
        AuthenticationError::Expired => "token expired"@,
        AuthenticationError::InvalidSignature => "invalid token signature"@,
        AuthenticationError::InvalidIssuer => "invalid token issuer"@,
        AuthenticationError::InvalidAudience => "invalid token audience"@,
        AuthenticationError::MalformedToken => "malformed token"@,
    }
}

impl AuthenticationError {
    /// The display text of the error.
    pub fn message(&self) -> (r: String)
        ensures
            r@ == authentication_message(*self),
    {
        match self {
            AuthenticationError::Expired => "token expired".to_string(),
            AuthenticationError::InvalidSignature => "invalid token signature".to_string(),
            AuthenticationError::InvalidIssuer => "invalid token issuer".to_string(),
            AuthenticationError::InvalidAudience => "invalid token audience".to_string(),
            AuthenticationError::MalformedToken => "malformed token".to_string(),
        }
    }
}

/// An authenticated principal: subject, roles, tenant and attributes.
#[derive(Clone, Debug, PartialEq, Eq)]
pub struct Identity {
    subject: String,
    roles: BTreeSet<String>,
    tenant_id: Option<String>,
    attributes: BTreeMap<String, String>,
}

impl Identity {
    /// The subject.
    pub closed spec fn spec_subject(&self) -> Seq<char> {
        self.subject@
    }

    /// The roles.
    pub closed spec fn spec_roles(&self) -> BTreeSet<String> {
        self.roles
    }

    /// The tenant, if any.
    pub closed spec fn spec_tenant_id(&self) -> Option<String> {
        self.tenant_id
    }

    /// The attributes.
    pub closed spec fn spec_attributes(&self) -> BTreeMap<String, String> {
        self.attributes
    }

    /// Creates an identity from its parts.
    pub fn new(
        subject: String,
        roles: BTreeSet<String>,
        tenant_id: Option<String>,
        attributes: BTreeMap<String, String>,
    ) -> (r: Self)
        ensures
            r.spec_subject() == subject@,
            r.spec_roles() == roles,
            r.spec_tenant_id() == tenant_id,
            r.spec_attributes() == attributes,
    {
        Identity { subject, roles, tenant_id, attributes }
    }

    /// The subject.
    pub fn subject(&self) -> (r: &str)
        ensures
            r@ == self.spec_subject(),
    {
        self.subject.as_str()
    }

    /// The roles.
    pub fn roles(&self) -> (r: &BTreeSet<String>)
        ensures
            *r == self.spec_roles(),
    {
        &self.roles
    }

    /// The tenant, if any.
    pub fn tenant_id(&self) -> (r: Option<&str>)
        ensures
            match self.spec_tenant_id() {
                Some(t) => r matches Some(x) && x@ == t@,
                None => r is None,
            },
    {
        match &self.tenant_id {
            Some(t) => Some(t.as_str()),
            None => None,
        }
    }

    /// The attributes.
    pub fn attributes(&self) -> (r: &BTreeMap<String, String>)
        ensures
            *r == self.spec_attributes(),
    {
        &self.attributes
    }
}

/// The registered claims of a token.
#[derive(Clone, Debug, PartialEq)]
pub struct StandardClaims {
    exp: i64,
    nbf: Option<i64>,
    iat: i64,
    iss: Option<String>,
    aud: Option<String>,
    sub: String,
}

impl StandardClaims {
    /// Expiry.
    pub closed spec fn spec_exp(&self) -> i64 {
        self.exp
    }

    /// Not-before.
    pub closed spec fn spec_nbf(&self) -> Option<i64> {
        self.nbf
    }

    /// Issued-at.
    pub closed spec fn spec_iat(&self) -> i64 {
        self.iat
    }

    /// Issuer.
    pub closed spec fn spec_iss(&self) -> Option<String> {
        self.iss
    }

    /// Audience.
    pub closed spec fn spec_aud(&self) -> Option<String> {
        self.aud
    }

    /// Subject.
    pub closed spec fn spec_sub(&self) -> Seq<char> {
        self.sub@
    }

    /// Creates the registered claims from their values.
    pub fn new(
        exp: i64,
        nbf: Option<i64>,
        iat: i64,
        iss: Option<String>,
        aud: Option<String>,
        sub: String,
    ) -> (r: Self)
        ensures
            r.spec_exp() == exp,
            r.spec_nbf() == nbf,
            r.spec_iat() == iat,
            r.spec_iss() == iss,
            r.spec_aud() == aud,
            r.spec_sub() == sub@,
    {
        StandardClaims { exp, nbf, iat, iss, aud, sub }
    }

    /// Expiry.
    pub fn exp(&self) -> (r: i64)
        ensures
            r == self.spec_exp(),
    {
        self.exp
    }

    /// Not-before.
    pub fn nbf(&self) -> (r: Option<i64>)
        ensures
            r == self.spec_nbf(),
    {
        self.nbf
    }

    /// Issued-at.
    pub fn iat(&self) -> (r: i64)
        ensures
            r == self.spec_iat(),
    {
        self.iat
    }

    /// Issuer.
    pub fn iss(&self) -> (r: Option<&str>)
        ensures
            match self.spec_iss() {
                Some(t) => r matches Some(x) && x@ == t@,
                None => r is None,
            },
    {
        match &self.iss {
            Some(t) => Some(t.as_str()),
            None => None,
        }
    }

    /// Audience.
    pub fn aud(&self) -> (r: Option<&str>)
        ensures
            match self.spec_aud() {
                Some(t) => r matches Some(x) && x@ == t@,
                None => r is None,
            },
    {
        match &self.aud {
            Some(t) => Some(t.as_str()),
            None => None,
        }
    }

    /// Subject.
    pub fn sub(&self) -> (r: &str)
        ensures
            r@ == self.spec_sub(),
    {
        self.sub.as_str()
    }
}

/// `serde_json::Value`, declared so that custom claims can hold it; its
/// value is opaque.
#[verifier::external_type_specification]
#[verifier::external_body]
pub struct ExJsonValue(serde_json::Value);

/// All claims of a token: the registered ones and the custom ones, keyed
/// by name (iterated in lexicographic key order).
#[derive(Clone, Debug, PartialEq)]
pub struct Claims {
    standard: StandardClaims,
    custom: BTreeMap<String, serde_json::Value>,
}

impl Claims {
    /// The registered claims.
    pub closed spec fn spec_standard(&self) -> StandardClaims {
        self.standard
    }

    /// The custom claims.
    pub closed spec fn spec_custom(&self) -> BTreeMap<String, serde_json::Value> {
        self.custom
    }

    /// Creates the claims from their parts.
    pub fn new(standard: StandardClaims, custom: BTreeMap<String, serde_json::Value>) -> (r: Self)
        ensures
            r.spec_standard() == standard,
            r.spec_custom() == custom,
    {
        Claims { standard, custom }
    }

    /// The registered claims.
    pub fn standard(&self) -> (r: &StandardClaims)
        ensures
            *r == self.spec_standard(),
    {
        &self.standard
    }

    /// The custom claims.
    pub fn custom(&self) -> (r: &BTreeMap<String, serde_json::Value>)
        ensures
            *r == self.spec_custom(),
    {
        &self.custom
    }
}

/// The outcome of a successful authentication: who, and the token's claims.
#[derive(Clone, Debug, PartialEq)]
pub struct SecurityContext {
    identity: Identity,
    claims: Claims,
}

impl SecurityContext {
    /// The identity.
    pub closed spec fn spec_identity(&self) -> Identity {
        self.identity
    }

    /// The claims.
    pub closed spec fn spec_claims(&self) -> Claims {
        self.claims
    }

    /// Creates a security context.
    pub fn new(identity: Identity, claims: Claims) -> (r: Self)
        ensures
            r.spec_identity() == identity,
            r.spec_claims() == claims,
    {
        SecurityContext { identity, claims }
    }

    /// The identity.
    pub fn identity(&self) -> (r: &Identity)
        ensures
            *r == self.spec_identity(),
    {
        &self.identity
    }

    /// The claims.
    pub fn claims(&self) -> (r: &Claims)
        ensures
            *r == self.spec_claims(),
    {
        &self.claims
    }
}

/// Verifies credentials; implemented by the users of this library.
pub trait AuthenticationProvider: Send + Sync {
    /// Authenticates `credential`, giving its security context or the
    /// reason it is refused.
    fn authenticate(&self, credential: &Credential) -> Result<SecurityContext, AuthenticationError>;
}

} // verus!
