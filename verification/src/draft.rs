//! The mutable draft that accumulates one profile's fields while its span of
//! the file is being read.

use vstd::prelude::*;
use crate::record::{CredentialRecord, RecordView};

verus! {

/// The mathematical content of an [`AwsProfileCredential`] draft.
#[verifier::ext_equal]
pub ghost struct DraftView {
    pub profile_name: Option<Seq<char>>,
    pub access_key: Option<Seq<char>>,
    pub secret_key: Option<Seq<char>>,
    pub token: Option<Seq<char>>,
}

/// The in-progress record of one profile: every field starts absent and is
/// filled at most once while the profile's span is read.
pub struct AwsProfileCredential {
    pub profile_name: Option<String>,
    pub access_key: Option<String>,
    pub secret_key: Option<String>,
    pub token: Option<String>,
}

impl View for AwsProfileCredential {
    type V = DraftView;

    open spec fn view(&self) -> DraftView {
        DraftView {
            profile_name: self.profile_name.deep_view(),
            access_key: self.access_key.deep_view(),
            secret_key: self.secret_key.deep_view(),
            token: self.token.deep_view(),
        }
    }
}

/// The draft with no field set: the state at parser start.
pub open spec fn empty_draft() -> DraftView {
    DraftView { profile_name: None, access_key: None, secret_key: None, token: None }
}

/// The draft holding only a profile name: the state right after a header.
pub open spec fn named_draft(name: Seq<char>) -> DraftView {
    DraftView { profile_name: Some(name), access_key: None, secret_key: None, token: None }
}

/// Whether the draft's key fields alone suffice for a credential record:
/// access key and secret key both present and non-empty.
pub open spec fn keys_complete(d: DraftView) -> bool {
    match (d.access_key, d.secret_key) {
        (Some(a), Some(s)) => a.len() > 0 && s.len() > 0,
        _ => false,
    }
}

/// The completeness invariant of the whole draft: a non-empty profile name
/// together with complete key fields.
pub open spec fn draft_complete(d: DraftView) -> bool {
    &&& keys_complete(d)
    &&& match d.profile_name {
        Some(n) => n.len() > 0,
        None => false,
    }
}

/// The record a complete draft turns into.
pub open spec fn record_of(d: DraftView) -> RecordView {
    RecordView {
        access_key: match d.access_key {
            Some(a) => a,
            None => Seq::empty(),
        },
        secret_key: match d.secret_key {
            Some(s) => s,
            None => Seq::empty(),
        },
        token: d.token,
    }
}

impl AwsProfileCredential {
    /// A fresh draft with no field set.
    pub fn new() -> (r: AwsProfileCredential)
        ensures
            r@ == empty_draft(),
    {
        AwsProfileCredential { profile_name: None, access_key: None, secret_key: None, token: None }
    }

    /// A fresh draft holding only the given profile name.
    pub fn new_with_profile_name(profile_name: String) -> (r: AwsProfileCredential)
        ensures
            r@ == named_draft(profile_name@),
    {
        AwsProfileCredential {
            profile_name: Some(profile_name),
            access_key: None,
            secret_key: None,
            token: None,
        }
    }

    /// Turns the draft's key fields into a credential record, when they meet
    /// the completeness invariant; the profile name is not examined here.
    pub fn into_aws_credential(self) -> (r: Option<CredentialRecord>)
        ensures
            match r {
                Some(c) => keys_complete(self@) && c@ == record_of(self@),
                None => !keys_complete(self@),
            },
    {
        match (self.access_key, self.secret_key) {
            (Some(a), Some(s)) => {
                if a.as_str().is_empty() || s.as_str().is_empty() {
                    None
                } else {
                    Some(CredentialRecord::new(a, s, self.token))
                }
            },
            _ => None,
        }
    }
}

} // verus!
