//! The committed, validated credential record of one profile.

use vstd::prelude::*;

verus! {

/// The mathematical content of a [`CredentialRecord`].
#[verifier::ext_equal]
pub ghost struct RecordView {
    pub access_key: Seq<char>,
    pub secret_key: Seq<char>,
    pub token: Option<Seq<char>>,
}

/// The immutable output entity for one profile: an access key, a secret key,
/// and an optional session token.  A record is only ever built from a draft
/// with a non-empty access key and a non-empty secret key.
pub struct CredentialRecord {
    access_key: String,
    secret_key: String,
    token: Option<String>,
}

impl View for CredentialRecord {
    type V = RecordView;

    closed spec fn view(&self) -> RecordView {
        RecordView {
            access_key: self.access_key@,
            secret_key: self.secret_key@,
            token: self.token.deep_view(),
        }
    }
}

impl CredentialRecord {
    /// The completeness invariant on the committed record: both keys are
    /// present and non-empty.
    #[verifier::type_invariant]
    pub open spec fn complete(&self) -> bool {
        self@.access_key.len() > 0 && self@.secret_key.len() > 0
    }

    /// Builds a record from non-empty keys and an optional token.
    pub fn new(access_key: String, secret_key: String, token: Option<String>) -> (r:
        CredentialRecord)
        requires
            access_key@.len() > 0,
            secret_key@.len() > 0,
        ensures
            r@ == (RecordView {
                access_key: access_key@,
                secret_key: secret_key@,
                token: token.deep_view(),
            }),
    {
        CredentialRecord { access_key, secret_key, token }
    }

    /// The access key, as written in the file.
    pub fn aws_access_key_id(&self) -> (r: &str)
        ensures
            r@ == self@.access_key,
    {
        self.access_key.as_str()
    }

    /// The secret key, as written in the file.
    pub fn aws_secret_access_key(&self) -> (r: &str)
        ensures
            r@ == self@.secret_key,
    {
        self.secret_key.as_str()
    }

    /// The optional session token.
    pub fn token(&self) -> (r: &Option<String>)
        ensures
            r.deep_view() == self@.token,
    {
        &self.token
    }

    /// Takes the record apart into its three fields.
    pub fn into_parts(self) -> (r: (String, String, Option<String>))
        ensures
            r.0@ == self@.access_key,
            r.1@ == self@.secret_key,
            r.2.deep_view() == self@.token,
    {
        (self.access_key, self.secret_key, self.token)
    }
}

} // verus!
