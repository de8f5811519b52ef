//! Structured errors surfaced to the response-formatting host.
//!
//! An [`ApiError`] carries a machine-readable code and optional structured
//! details. An error of any other kind is reduced to a fixed opaque code plus
//! a freshly generated correlation identifier, so that internal detail is
//! never leaked to the caller.

use crate::kv;
use vstd::prelude::*;

verus! {

/// Type for rich api errors: a machine-readable code and optional details,
/// carried as `(key, serialized text)` pairs with unique keys, in insertion
/// order.
#[derive(Debug, Clone)]
pub struct ApiError {
    pub code: String,
    pub details: Vec<(String, String)>,
}

/// Mathematical model of an [`ApiError`].
pub ghost struct ApiErrorView {
    pub code: Seq<char>,
    pub details: Seq<(Seq<char>, Seq<char>)>,
}

impl View for ApiError {
    type V = ApiErrorView;

    open spec fn view(&self) -> ApiErrorView {
        ApiErrorView { code: self.code@, details: self.details.deep_view() }
    }
}

impl ApiError {
    /// Detail keys are unique.
    pub open spec fn wf(&self) -> bool {
        kv::unique_keys(self@.details)
    }

    /// A fresh error with the given code and no details.
    pub fn new(code: &str) -> (e: ApiError)
        ensures
            e@.code == code@,
            e@.details == Seq::<(Seq<char>, Seq<char>)>::empty(),
            e.wf(),
    {
        let e = ApiError { code: code.to_owned(), details: Vec::new() };
        proof {
            assert(e@.details =~= Seq::<(Seq<char>, Seq<char>)>::empty());
        }
        e
    }

    /// Records one detail under `key`, overwriting an existing entry in
    /// place and appending a new key at the end. The value is carried as
    /// its serialized text.
    pub fn add_detail(&mut self, key: &str, value: &str)
        requires
            old(self).wf(),
        ensures
            final(self).wf(),
            final(self)@.code == old(self)@.code,
            final(self)@.details == kv::spec_insert(old(self)@.details, key@, value@),
    {
        let ghost s = old(self)@.details;
        let key_owned: String = key.to_owned();
        let mut i: usize = 0;
        while i < self.details.len()
            invariant
                0 <= i <= self.details.len(),
                s == old(self)@.details,
                s == self@.details,
                self.code == old(self).code,
                self.wf(),
                key_owned@ == key@,
                forall|j: int| 0 <= j < i ==> s[j].0 != key@,
            decreases self.details.len() - i,
        {
            if self.details[i].0 == key_owned {
                self.details[i] = (key.to_owned(), value.to_owned());
                proof {
                    assert(self@.details =~= s.update(i as int, (key@, value@)));
                    kv::lemma_insert_found(s, key@, value@, i as int);
                    assert forall|a: int, b: int|
                        0 <= a < b < self@.details.len() implies self@.details[a].0
                        != self@.details[b].0 by {
                        assert(s[a].0 == self@.details[a].0 && s[b].0 == self@.details[b].0);
                    }
                }
                return ;
            }
            i += 1;
        }
        let ghost before = self@.details;
        self.details.push((key.to_owned(), value.to_owned()));
        proof {
            assert(self@.details =~= before.push((key@, value@)));
            kv::lemma_insert_absent(s, key@, value@);
            kv::lemma_insert_unique_keys(s, key@, value@);
        }
    }

    /// Reduces an arbitrary failure to an `ApiError`: a recognized domain
    /// error passes through unchanged; anything else becomes the opaque
    /// `"UnknownInternalError"` carrying a freshly generated correlation
    /// identifier under `"errorId"`, so that internal detail never reaches
    /// the caller.
    pub fn extract(found: Option<ApiError>) -> (e: ApiError)
        ensures
            found matches Some(err) ==> e == err,
            found is None ==> {
                &&& e@.code == "UnknownInternalError"@
                &&& e@.details.len() == 1
                &&& e@.details[0].0 == "errorId"@
                &&& e@.details[0].1.len() == 36
                &&& e.wf()
            },
    {
        match found {
            Some(err) => err,
            None => {
                let id = new_correlation_id();
                let mut e = ApiError::new("UnknownInternalError");
                e.add_detail("errorId", id.as_str());
                e
            }
        }
    }
}

/// Relies on `uuid::Uuid::new_v4` and the `Display` rendering of `Uuid`: a
/// random version-4 UUID in hyphenated form, which is always 36 characters.
/// Nothing more is assumed of a random identifier.
#[verifier::external_body]
fn new_correlation_id() -> (r: String)
    ensures
        r@.len() == 36,
{
    uuid::Uuid::new_v4().to_string()
}

/// Declares `anyhow::Error` so that it can stand in signatures and fields.
/// Values of it are opaque here: they are only carried through to the host,
/// which alone can inspect them.
#[verifier::external_type_specification]
#[verifier::external_body]
pub struct ExAnyhowError(anyhow::Error);

/// Carries an arbitrary failure toward the host's response formatting. The
/// host turns it into an [`ApiError`] via [`ApiError::extract`] before
/// serializing it.
pub struct Reporter(pub anyhow::Error);

impl From<anyhow::Error> for Reporter {
    fn from(e: anyhow::Error) -> (r: Self) {
        Reporter(e)
    }
}

impl vstd::std_specs::convert::FromSpecImpl<anyhow::Error> for Reporter {
    open spec fn obeys_from_spec() -> bool {
        true
    }

    open spec fn from_spec(e: anyhow::Error) -> Reporter {
        Reporter(e)
    }
}

} // verus!
