//! Identity resolution for inbound requests.
//!
//! A request may carry a transport-layer client certificate, request headers,
//! or neither. [`UserInfo::from_request`] resolves an identity in a fixed
//! order: a presented certificate always wins or hard-fails; header-based
//! identity is only a fallback and only when configured; otherwise no identity
//! is established.

use crate::kv;
use vstd::prelude::*;

verus! {

/// The identity established for one request: a username and the groups the
/// user belongs to, in the order they were encountered. Duplicates are kept.
pub struct UserInfo {
    pub username: String,
    pub groups: Vec<String>,
}

/// Mathematical model of a [`UserInfo`].
pub ghost struct UserInfoView {
    pub username: Seq<char>,
    pub groups: Seq<Seq<char>>,
}

impl View for UserInfo {
    type V = UserInfoView;

    open spec fn view(&self) -> UserInfoView {
        UserInfoView { username: self.username@, groups: self.groups.deep_view() }
    }
}

/// The subject identity read from a client certificate: its common-name and
/// organizational-unit attributes, in certificate order. An entry is `None`
/// when the attribute's value could not be decoded as a string; such an entry
/// is tolerated and skipped rather than aborting identity extraction.
pub struct SubjectIdentity {
    pub common_names: Vec<Option<String>>,
    pub org_units: Vec<Option<String>>,
}

/// Mathematical model of a [`SubjectIdentity`].
pub ghost struct SubjectIdentityView {
    pub common_names: Seq<Option<Seq<char>>>,
    pub org_units: Seq<Option<Seq<char>>>,
}

impl View for SubjectIdentity {
    type V = SubjectIdentityView;

    open spec fn view(&self) -> SubjectIdentityView {
        SubjectIdentityView {
            common_names: self.common_names.deep_view(),
            org_units: self.org_units.deep_view(),
        }
    }
}

/// The request metadata the resolution chain consumes: the DER bytes of the
/// client certificate, when mutual authentication presented one, and the
/// request headers as `(name, value)` pairs. A header name may repeat; order
/// is the order of appearance in the request.
pub struct Request {
    pub client_certificate: Option<Vec<u8>>,
    pub headers: Vec<(String, String)>,
}

/// Mathematical model of a [`Request`].
pub ghost struct RequestView {
    pub client_certificate: Option<Seq<u8>>,
    pub headers: Seq<(Seq<char>, Seq<char>)>,
}

impl View for Request {
    type V = RequestView;

    open spec fn view(&self) -> RequestView {
        RequestView {
            client_certificate: self.client_certificate.deep_view(),
            headers: self.headers.deep_view(),
        }
    }
}

/// Names of the two request headers the fallback authenticator reads.
pub struct RequestHeaderAuthentifierConfig {
    pub username: String,
    pub group: String,
}

/// Mathematical model of a [`RequestHeaderAuthentifierConfig`].
pub ghost struct RequestHeaderConfigView {
    pub username: Seq<char>,
    pub group: Seq<char>,
}

impl View for RequestHeaderAuthentifierConfig {
    type V = RequestHeaderConfigView;

    open spec fn view(&self) -> RequestHeaderConfigView {
        RequestHeaderConfigView { username: self.username@, group: self.group@ }
    }
}

impl DeepView for RequestHeaderAuthentifierConfig {
    type V = RequestHeaderConfigView;

    open spec fn deep_view(&self) -> RequestHeaderConfigView {
        self@
    }
}

/// Process-wide authenticator configuration. Absence of `request_header`
/// disables header-based fallback entirely.
pub struct AuthentifierConfig {
    pub request_header: Option<RequestHeaderAuthentifierConfig>,
}

/// Mathematical model of an [`AuthentifierConfig`].
pub ghost struct AuthentifierConfigView {
    pub request_header: Option<RequestHeaderConfigView>,
}

impl View for AuthentifierConfig {
    type V = AuthentifierConfigView;

    open spec fn view(&self) -> AuthentifierConfigView {
        AuthentifierConfigView { request_header: self.request_header.deep_view() }
    }
}

/// The status reported alongside a hard authentication failure.
#[derive(Clone, Copy, PartialEq, Eq, Structural, Debug)]
pub enum Status {
    InternalError,
}

/// Identity-resolution errors.
#[derive(Clone, Copy, PartialEq, Eq, Structural, Debug)]
pub enum AuthnError {
    /// A presented transport credential could not be parsed as a certificate.
    CertificateParse,
}

/// The outcome of one authenticator step, and of the whole chain: an identity
/// was established, the step does not apply and the next one may run, or a
/// hard failure that must not be masked as "no identity".
pub enum Resolution {
    Succeeded(UserInfo),
    NotApplicable,
    Failed(Status, AuthnError),
}

/// Mathematical model of a [`Resolution`].
pub ghost enum ResolutionModel {
    Succeeded(UserInfoView),
    NotApplicable,
    Failed(Status, AuthnError),
}

impl View for Resolution {
    type V = ResolutionModel;

    open spec fn view(&self) -> ResolutionModel {
        match self {
            Resolution::Succeeded(u) => ResolutionModel::Succeeded(u@),
            Resolution::NotApplicable => ResolutionModel::NotApplicable,
            Resolution::Failed(s, e) => ResolutionModel::Failed(*s, *e),
        }
    }
}

/// The last successfully decoded attribute value, if any.
pub open spec fn last_decoded(attrs: Seq<Option<Seq<char>>>) -> Option<Seq<char>>
    decreases attrs.len(),
{
    if attrs.len() == 0 {
        None
    } else {
        match attrs.last() {
            Some(v) => Some(v),
            None => last_decoded(attrs.drop_last()),
        }
    }
}

/// Every successfully decoded attribute value, in order; undecodable entries
/// are skipped, duplicates are kept.
pub open spec fn decoded_values(attrs: Seq<Option<Seq<char>>>) -> Seq<Seq<char>>
    decreases attrs.len(),
{
    if attrs.len() == 0 {
        Seq::empty()
    } else {
        let rest = decoded_values(attrs.drop_last());
        match attrs.last() {
            Some(v) => rest.push(v),
            None => rest,
        }
    }
}

/// The username a subject identity yields: the last decodable common name,
/// or the sentinel when none decodes.
pub open spec fn spec_username(common_names: Seq<Option<Seq<char>>>) -> Seq<char> {
    match last_decoded(common_names) {
        Some(v) => v,
        None => "system:missing"@,
    }
}

/// The identity a subject identity yields.
pub open spec fn spec_identity(s: SubjectIdentityView) -> UserInfoView {
    UserInfoView { username: spec_username(s.common_names), groups: decoded_values(s.org_units) }
}

/// Whether the DER bytes parse as a well-formed certificate.
pub uninterp spec fn der_parses(der: Seq<u8>) -> bool;

/// The decoded common-name attributes of the parsed certificate's subject.
pub uninterp spec fn der_common_names(der: Seq<u8>) -> Seq<Option<Seq<char>>>;

/// The decoded organizational-unit attributes of the parsed certificate's
/// subject.
pub uninterp spec fn der_org_units(der: Seq<u8>) -> Seq<Option<Seq<char>>>;

/// Relies on `x509_parser::parse_x509_certificate` to parse a DER-encoded
/// certificate, and on `X509Name::iter_common_name`,
/// `X509Name::iter_organizational_unit` and `AttributeTypeAndValue::as_str`
/// to walk the subject's common-name and organizational-unit attributes in
/// certificate order and decode each one (`as_str` succeeds exactly for the
/// string-typed attribute values whose bytes are valid UTF-8). Parsing and
/// decoding are deterministic functions of the input bytes alone, here named
/// `der_parses`, `der_common_names` and `der_org_units`.
#[verifier::external_body]
fn decode_certificate_subject(der: &Vec<u8>) -> (r: Option<SubjectIdentity>)
    ensures
        r is Some <==> der_parses(der@),
        r matches Some(s) ==> s@.common_names == der_common_names(der@) && s@.org_units
            == der_org_units(der@),
{
    match x509_parser::parse_x509_certificate(der.as_slice()) {
        Ok((_, cert)) => {
            let subject = &cert.tbs_certificate.subject;
            let decode = |a: &x509_parser::x509::AttributeTypeAndValue<'_>| {
                a.as_str().ok().map(|s| s.to_string())
            };
            Some(SubjectIdentity {
                common_names: subject.iter_common_name().map(decode).collect(),
                org_units: subject.iter_organizational_unit().map(decode).collect(),
            })
        }
        Err(_) => None,
    }
}

/// What the transport-credential authenticator resolves: nothing presented
/// means not applicable, an unparseable credential is a hard failure, and a
/// parsed one yields the identity of its subject.
pub open spec fn spec_tls_resolution(cert: Option<Seq<u8>>) -> ResolutionModel {
    match cert {
        Some(der) => if der_parses(der) {
            ResolutionModel::Succeeded(
                spec_identity(
                    SubjectIdentityView {
                        common_names: der_common_names(der),
                        org_units: der_org_units(der),
                    },
                ),
            )
        } else {
            ResolutionModel::Failed(Status::InternalError, AuthnError::CertificateParse)
        },
        None => ResolutionModel::NotApplicable,
    }
}

/// What the header authenticator resolves: not applicable without the
/// username header, else the username and every occurrence of the group
/// header, in order.
pub open spec fn spec_header_resolution(
    headers: Seq<(Seq<char>, Seq<char>)>,
    cfg: RequestHeaderConfigView,
) -> ResolutionModel {
    match kv::first_value(headers, cfg.username) {
        Some(u) => ResolutionModel::Succeeded(
            UserInfoView { username: u, groups: kv::all_values(headers, cfg.group) },
        ),
        None => ResolutionModel::NotApplicable,
    }
}

/// What the whole chain resolves: the transport credential first; on
/// `NotApplicable` the header authenticator, when configured; else nothing.
pub open spec fn spec_resolve(
    req: RequestView,
    cfg: Option<AuthentifierConfigView>,
) -> ResolutionModel {
    match spec_tls_resolution(req.client_certificate) {
        ResolutionModel::NotApplicable => match cfg {
            Some(c) => match c.request_header {
                Some(h) => spec_header_resolution(req.headers, h),
                None => ResolutionModel::NotApplicable,
            },
            None => ResolutionModel::NotApplicable,
        },
        outcome => outcome,
    }
}

impl UserInfo {
    /// Exact string-equality membership test over `groups`.
    pub fn member_of(&self, group: &str) -> (r: bool)
        ensures
            r == self@.groups.contains(group@),
    {
        let wanted: String = group.to_owned();
        let mut i: usize = 0;
        while i < self.groups.len()
            invariant
                0 <= i <= self.groups.len(),
                wanted@ == group@,
                forall|j: int| 0 <= j < i ==> self.groups.deep_view()[j] != group@,
            decreases self.groups.len() - i,
        {
            if self.groups[i] == wanted {
                assert(self.groups.deep_view()[i as int] == group@);
                return true;
            }
            i += 1;
        }
        false
    }

    /// Turns a subject identity into a `UserInfo`: the last decodable common
    /// name wins as username (defaulting to `"system:missing"` when none
    /// decodes), and every decodable organizational unit becomes a group, in
    /// order, without deduplication. This step cannot fail.
    pub fn parse_from_subject(subject: &SubjectIdentity) -> (u: UserInfo)
        ensures
            u@ == spec_identity(subject@),
    {
        let ghost cns = subject@.common_names;
        let mut username: Option<String> = None;
        let mut i: usize = 0;
        while i < subject.common_names.len()
            invariant
                0 <= i <= subject.common_names.len(),
                cns == subject@.common_names,
                username.deep_view() == last_decoded(cns.take(i as int)),
            decreases subject.common_names.len() - i,
        {
            proof {
                assert(cns.take(i + 1).drop_last() =~= cns.take(i as int));
                assert(cns.take(i + 1).last() == cns[i as int]);
            }
            match &subject.common_names[i] {
                Some(name) => {
                    username = Some(name.clone());
                }
                None => {}
            }
            i += 1;
        }
        proof {
            assert(cns.take(subject.common_names.len() as int) =~= cns);
        }

        let ghost ous = subject@.org_units;
        let mut groups: Vec<String> = Vec::new();
        let mut j: usize = 0;
        while j < subject.org_units.len()
            invariant
                0 <= j <= subject.org_units.len(),
                ous == subject@.org_units,
                groups.deep_view() == decoded_values(ous.take(j as int)),
            decreases subject.org_units.len() - j,
        {
            proof {
                assert(ous.take(j + 1).drop_last() =~= ous.take(j as int));
                assert(ous.take(j + 1).last() == ous[j as int]);
            }
            match &subject.org_units[j] {
                Some(group) => {
                    let ghost before = groups.deep_view();
                    groups.push(group.clone());
                    proof {
                        assert(groups.deep_view() =~= before.push(ous[j as int]->0));
                    }
                }
                None => {}
            }
            j += 1;
        }
        proof {
            assert(ous.take(subject.org_units.len() as int) =~= ous);
        }

        let username = match username {
            Some(name) => name,
            None => "system:missing".to_owned(),
        };
        UserInfo { username, groups }
    }

    /// The transport-credential authenticator: parses the presented client
    /// certificate, if any, and derives the identity from its subject. A
    /// presented but unparseable credential is a hard failure, distinguishing
    /// "nothing offered" from "something broken offered".
    pub fn auth_using_tls(request: &Request) -> (r: Resolution)
        ensures
            r@ == spec_tls_resolution(request@.client_certificate),
    {
        match &request.client_certificate {
            Some(der) => {
                proof {
                    assert(der.deep_view() =~= der@);
                }
                match decode_certificate_subject(der) {
                    Some(subject) => Resolution::Succeeded(Self::parse_from_subject(&subject)),
                    None => Resolution::Failed(Status::InternalError, AuthnError::CertificateParse),
                }
            }
            None => Resolution::NotApplicable,
        }
    }

    /// The header authenticator: reads the configured username header (first
    /// occurrence) and collects every occurrence of the configured group
    /// header, in order. Header content is used raw, without validation.
    pub fn auth_using_request_header(
        request: &Request,
        cfg: &RequestHeaderAuthentifierConfig,
    ) -> (r: Resolution)
        ensures
            r@ == spec_header_resolution(request@.headers, cfg@),
    {
        let username = match header_get_one(&request.headers, &cfg.username) {
            Some(name) => name,
            None => {
                return Resolution::NotApplicable;
            }
        };
        let groups = header_get_all(&request.headers, &cfg.group);
        Resolution::Succeeded(UserInfo { username, groups })
    }

    /// The identity-resolution chain, in strict order: the transport
    /// credential always wins or hard-fails; only on `NotApplicable` is the
    /// header authenticator consulted, and only when configured; otherwise no
    /// identity is established.
    pub fn from_request(request: &Request, cfg: Option<&AuthentifierConfig>) -> (r: Resolution)
        ensures
            r@ == spec_resolve(
                request@,
                match cfg {
                    Some(c) => Some(c@),
                    None => None,
                },
            ),
    {
        let tls_identity = Self::auth_using_tls(request);
        match tls_identity {
            Resolution::NotApplicable => {
                let header_cfg = match cfg {
                    Some(c) => &c.request_header,
                    None => &None,
                };
                match header_cfg {
                    Some(h) => Self::auth_using_request_header(request, h),
                    None => Resolution::NotApplicable,
                }
            }
            outcome => outcome,
        }
    }
}

/// With exactly three decodable common names `a`, `b`, `c`, the parsed
/// username is `c`: the last decodable common name wins.
pub proof fn lemma_last_common_name_wins(a: Seq<char>, b: Seq<char>, c: Seq<char>)
    ensures
        spec_username(seq![Some(a), Some(b), Some(c)]) == c,
{
    assert(seq![Some(a), Some(b), Some(c)].last() == Some(c));
}

/// With no decodable common name, the parsed username is the sentinel
/// `"system:missing"`.
pub proof fn lemma_missing_common_name(common_names: Seq<Option<Seq<char>>>)
    requires
        forall|i: int| 0 <= i < common_names.len() ==> common_names[i] is None,
    ensures
        spec_username(common_names) == "system:missing"@,
    decreases common_names.len(),
{
    if common_names.len() > 0 {
        assert(common_names.last() is None);
        lemma_missing_common_name(common_names.drop_last());
    }
}

/// With organizational units `x`, `y`, `x`, the parsed groups are exactly
/// `[x, y, x]`: order and duplicates are preserved.
pub proof fn lemma_groups_keep_order_and_duplicates(x: Seq<char>, y: Seq<char>)
    ensures
        decoded_values(seq![Some(x), Some(y), Some(x)]) =~= seq![x, y, x],
{
    let s = seq![Some(x), Some(y), Some(x)];
    assert(s.drop_last() =~= seq![Some(x), Some(y)]);
    assert(seq![Some(x), Some(y)].drop_last() =~= seq![Some(x)]);
    assert(seq![Some(x)].drop_last() =~= Seq::<Option<Seq<char>>>::empty());
    assert(decoded_values(Seq::<Option<Seq<char>>>::empty()) =~= Seq::<Seq<char>>::empty());
    assert(decoded_values(seq![Some(x)]) =~= seq![x]);
    assert(decoded_values(seq![Some(x), Some(y)]) =~= seq![x, y]);
}

/// A parseable transport credential always wins: the chain's outcome is the
/// certificate's identity, whatever the headers and whatever the
/// configuration, so the header authenticator is never consulted.
pub proof fn lemma_credential_precedence(
    req: RequestView,
    cfg: Option<AuthentifierConfigView>,
    der: Seq<u8>,
)
    requires
        req.client_certificate == Some(der),
        der_parses(der),
    ensures
        spec_resolve(req, cfg) == spec_tls_resolution(Some(der)),
        spec_resolve(req, cfg) is Succeeded,
{
}

/// A malformed transport credential is a hard failure, whatever the headers
/// and whatever the configuration: it is never masked as "no identity".
pub proof fn lemma_malformed_credential_fails(
    req: RequestView,
    cfg: Option<AuthentifierConfigView>,
    der: Seq<u8>,
)
    requires
        req.client_certificate == Some(der),
        !der_parses(der),
    ensures
        spec_resolve(req, cfg) == ResolutionModel::Failed(
            Status::InternalError,
            AuthnError::CertificateParse,
        ),
{
}

/// With no transport credential and header authentication not configured,
/// no identity is established.
pub proof fn lemma_no_credential_no_config(req: RequestView, cfg: Option<AuthentifierConfigView>)
    requires
        req.client_certificate is None,
        cfg matches Some(c) ==> c.request_header is None,
    ensures
        spec_resolve(req, cfg) == ResolutionModel::NotApplicable,
{
}

/// The value of the first header with the given name, if any.
fn header_get_one(headers: &Vec<(String, String)>, name: &String) -> (r: Option<String>)
    ensures
        r.deep_view() == kv::first_value(headers.deep_view(), name@),
{
    let ghost hs = headers.deep_view();
    let mut found: Option<String> = None;
    let mut i: usize = 0;
    while i < headers.len()
        invariant
            0 <= i <= headers.len(),
            hs == headers.deep_view(),
            found.deep_view() == kv::first_value(hs.take(i as int), name@),
        decreases headers.len() - i,
    {
        proof {
            assert(hs.take(i + 1).drop_last() =~= hs.take(i as int));
            assert(hs.take(i + 1).last() == hs[i as int]);
        }
        if found.is_none() && headers[i].0 == *name {
            found = Some(headers[i].1.clone());
        }
        i += 1;
    }
    proof {
        assert(hs.take(headers.len() as int) =~= hs);
    }
    found
}

/// The values of every header with the given name, in order.
fn header_get_all(headers: &Vec<(String, String)>, name: &String) -> (r: Vec<String>)
    ensures
        r.deep_view() == kv::all_values(headers.deep_view(), name@),
{
    let ghost hs = headers.deep_view();
    let mut values: Vec<String> = Vec::new();
    let mut i: usize = 0;
    while i < headers.len()
        invariant
            0 <= i <= headers.len(),
            hs == headers.deep_view(),
            values.deep_view() == kv::all_values(hs.take(i as int), name@),
        decreases headers.len() - i,
    {
        proof {
            assert(hs.take(i + 1).drop_last() =~= hs.take(i as int));
            assert(hs.take(i + 1).last() == hs[i as int]);
        }
        if headers[i].0 == *name {
            let ghost before = values.deep_view();
            values.push(headers[i].1.clone());
            proof {
                assert(values.deep_view() =~= before.push(hs[i as int].1));
            }
        }
        i += 1;
    }
    proof {
        assert(hs.take(headers.len() as int) =~= hs);
    }
    values
}

} // verus!

