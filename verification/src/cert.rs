//! Self-signed certificates.

use rcgen::{DnType, KeyPair, SanType};
use time::OffsetDateTime;
use vstd::prelude::*;

use crate::addr::IpAddr;
use crate::destination::WebServerDestination;

verus! {

/// The start of the year -9999, in nanoseconds since 1970.
pub const TIME_MIN: i128 = -377_705_116_800_000_000_000;

/// The end of the year 9999, in nanoseconds since 1970.
pub const TIME_MAX: i128 = 253_402_300_799_999_999_999;

/// The start of the year 0, in nanoseconds since 1970.
pub const YEAR_ZERO: i128 = -62_167_219_200_000_000_000;

/// One hour, in nanoseconds.
pub const HOUR: i128 = 3_600_000_000_000;

/// One minute, in nanoseconds.
pub const MINUTE: i128 = 60_000_000_000;

/// One second, in nanoseconds.
pub const SECOND: i128 = 1_000_000_000;

/// Two weeks, in nanoseconds.
pub const TWO_WEEKS: i128 = 1_209_600_000_000_000;

/// Why there is no certificate.
#[derive(Debug, Clone, Copy, PartialEq, Eq, Structural)]
pub enum CertificateError {
    /// The certificate cannot be made out to one of the names.
    InvalidName,
    /// The certificate cannot be dated.
    InvalidTime,
    /// No key could be made.
    KeyGeneration,
    /// The certificate could not be signed.
    Signing,
}

/// A name that a certificate is made out to.
#[derive(Debug)]
pub enum SubjectAltName {
    IpAddress(IpAddr),
    DnsName(String),
    Uri(String),
}

/// What a [`SubjectAltName`] stands for.
pub enum AltNameView {
    IpAddress(IpAddr),
    DnsName(Seq<char>),
    Uri(Seq<char>),
}

impl View for SubjectAltName {
    type V = AltNameView;

    open spec fn view(&self) -> AltNameView {
        match self {
            SubjectAltName::IpAddress(ip) => AltNameView::IpAddress(*ip),
            SubjectAltName::DnsName(name) => AltNameView::DnsName(name@),
            SubjectAltName::Uri(uri) => AltNameView::Uri(uri@),
        }
    }
}

/// What a certificate says. It is no authority for other certificates, and it is restricted to no
/// usage.
#[derive(Debug)]
pub struct CertificateTerms {
    /// When it becomes valid, in nanoseconds since 1970.
    pub not_before: i128,
    /// When it expires, in nanoseconds since 1970.
    pub not_after: i128,
    /// Who it is about.
    pub common_name: String,
    /// The names it is made out to.
    pub subject_alt_names: Vec<SubjectAltName>,
}

/// What a certificate says, or is to say.
#[verifier::ext_equal]
pub struct ParamsView {
    /// When the certificate becomes valid, in nanoseconds since 1970.
    pub not_before: int,
    /// When the certificate expires, in nanoseconds since 1970.
    pub not_after: int,
    /// The certificate is an authority for other certificates.
    pub is_authority: bool,
    /// Who the certificate is about.
    pub common_name: Seq<char>,
    /// The names that the certificate is made out to.
    pub names: Seq<AltNameView>,
}

/// The names of a certificate.
pub open spec fn name_views(names: Seq<SubjectAltName>) -> Seq<AltNameView> {
    names.map_values(|name: SubjectAltName| name@)
}

impl View for CertificateTerms {
    type V = ParamsView;

    open spec fn view(&self) -> ParamsView {
        ParamsView {
            not_before: self.not_before as int,
            not_after: self.not_after as int,
            is_authority: false,
            common_name: self.common_name@,
            names: name_views(self.subject_alt_names@),
        }
    }
}

impl ParamsView {
    /// A certificate can be dated like this.
    pub open spec fn datable(self) -> bool {
        &&& YEAR_ZERO <= self.not_before <= TIME_MAX
        &&& YEAR_ZERO <= self.not_after <= TIME_MAX
    }

    /// The same, with dates in whole seconds, which is all that a certificate can say.
    pub open spec fn in_seconds(self) -> ParamsView {
        ParamsView {
            not_before: whole_second(self.not_before),
            not_after: whole_second(self.not_after),
            ..self
        }
    }
}

/// The last whole second up to a time.
pub open spec fn whole_second(t: int) -> int {
    t - t % (SECOND as int)
}

/// The key pairs of the rcgen crate.
#[verifier::external_type_specification]
#[verifier::external_body]
pub struct ExKeyPair(rcgen::KeyPair);

/// The errors of the rcgen crate.
#[verifier::external_type_specification]
#[verifier::external_body]
pub struct ExRcgenError(rcgen::Error);

/// The parameters of certificates of the rcgen crate.
#[verifier::external_type_specification]
#[verifier::external_body]
pub struct ExRcgenParams(rcgen::CertificateParams);

/// The PKCS#8 document that a key pair holds, if it holds one.
pub uninterp spec fn key_pair_document(key_pair: KeyPair) -> Option<Seq<u8>>;

/// The public key that belongs to the private key in a PKCS#8 document.
pub uninterp spec fn document_public_key(document: Seq<u8>) -> Seq<u8>;

/// The private key in a PKCS#8 document is one for ECDSA on the curve P-256.
pub uninterp spec fn document_is_ecdsa_p256(document: Seq<u8>) -> bool;

/// Calls `rcgen::KeyPair::generate_for` with the algorithm `PKCS_ECDSA_P256_SHA256`, which makes a
/// random key pair for ECDSA on the curve P-256 that holds its document.
#[verifier::external_body]
fn generate_key_pair() -> (r: Result<KeyPair, rcgen::Error>)
    ensures
        r matches Ok(key_pair) ==> key_pair_document(key_pair) is Some && document_is_ecdsa_p256(
            key_pair_document(key_pair)->0,
        ),
{
    KeyPair::generate_for(&rcgen::PKCS_ECDSA_P256_SHA256)
}

/// Calls `rcgen::KeyPair::serialize_der`, which copies the document that the key pair holds. It
/// panics if there is none.
#[verifier::external_body]
fn serialize_key_pair(key_pair: &KeyPair) -> (r: Vec<u8>)
    requires
        key_pair_document(*key_pair) is Some,
    ensures
        Some(r@) == key_pair_document(*key_pair),
{
    key_pair.serialize_der()
}

/// The names of the rcgen crate.
#[verifier::external_type_specification]
#[verifier::external_body]
pub struct ExSanType(rcgen::SanType);

/// What a name of the rcgen crate holds, if it is an address, a domain name or a web address.
pub uninterp spec fn san_content(san: SanType) -> Option<AltNameView>;

/// Makes a name of the rcgen crate. Calls `rcgen::Ia5String::try_from` on a text, which fails if
/// there is a character in it that is not ASCII.
#[verifier::external_body]
fn san_of_name(name: &SubjectAltName) -> (r: Result<SanType, rcgen::Error>)
    ensures
        match r {
            Ok(san) => is_valid_name(name@) && san_content(san) == Some(name@),
            Err(_) => !is_valid_name(name@),
        },
{
    match name {
        SubjectAltName::IpAddress(IpAddr::V4(ip)) => Ok(SanType::IpAddress(ip.bits.to_be_bytes().into())),
        SubjectAltName::IpAddress(IpAddr::V6(ip)) => Ok(SanType::IpAddress(ip.bits.to_be_bytes().into())),
        SubjectAltName::DnsName(name) => Ok(SanType::DnsName(name.as_str().try_into()?)),
        SubjectAltName::Uri(uri) => Ok(SanType::URI(uri.as_str().try_into()?)),
    }
}

/// What a certificate in DER says: its dates, whether it is an authority, the common name of its
/// subject, and those of its names that are addresses, domain names or web addresses, in order.
pub uninterp spec fn certificate_says(cert: Seq<u8>) -> ParamsView;

/// The public key that a certificate in DER is for.
pub uninterp spec fn certificate_public_key(cert: Seq<u8>) -> Seq<u8>;

/// What every certificate says that is made with these parameters.
pub uninterp spec fn params_say(params: rcgen::CertificateParams) -> ParamsView;

/// A certificate can be written with these parameters: nothing in them makes the rcgen crate panic.
pub uninterp spec fn params_writable(params: rcgen::CertificateParams) -> bool;

/// Fills `rcgen::CertificateParams`. The dates lose what is below a second when they are written.
/// They can be written if they are in the years 0 to 9999, and so can the names that are addresses,
/// domain names or web addresses. What is not among the arguments is as
/// `rcgen::CertificateParams::default` has it: no serial number of one's own, no authority, no
/// usages, no constraints, no extensions, and a key identifier by SHA-256.
#[verifier::external_body]
fn fill_params(
    not_before: i128,
    not_after: i128,
    common_name: String,
    names: Vec<SanType>,
) -> (r: Result<rcgen::CertificateParams, rcgen::Error>)
    requires
        YEAR_ZERO <= not_before <= TIME_MAX,
        YEAR_ZERO <= not_after <= TIME_MAX,
        forall|i: int| 0 <= i < names@.len() ==> san_content(#[trigger] names@[i]) is Some,
    ensures
        r is Ok,
        params_writable(r->Ok_0),
        params_say(r->Ok_0) == (ParamsView {
            not_before: whole_second(not_before as int),
            not_after: whole_second(not_after as int),
            is_authority: false,
            common_name: common_name@,
            names: san_contents(names@),
        }),
{
    let date = |t| OffsetDateTime::from_unix_timestamp_nanos(t).or(Err(rcgen::Error::Time));
    let mut params = rcgen::CertificateParams::default();
    params.not_before = date(not_before)?;
    params.not_after = date(not_after)?;
    params.distinguished_name.push(DnType::CommonName, common_name);
    params.subject_alt_names = names;
    Ok(params)
}

/// Calls `rcgen::CertificateParams::self_signed`, which makes a certificate of the parameters for the
/// public key of the key pair, and signs it with the private one. Nothing more is said of the bytes
/// of the certificate: the signature is random. It panics on parameters that cannot be written.
#[verifier::external_body]
fn sign_certificate(params: rcgen::CertificateParams, key_pair: &KeyPair) -> (r: Result<
    Vec<u8>,
    rcgen::Error,
>)
    requires
        params_writable(params),
    ensures
        r matches Ok(cert) ==> certificate_says(cert@) == params_say(params) && (
        key_pair_document(*key_pair) matches Some(document) ==> certificate_public_key(cert@)
            == document_public_key(document)),
{
    Ok(params.self_signed(key_pair)?.der().to_vec())
}

/// Calls `time::OffsetDateTime::now_utc`, which reads the clock. Nothing is said of the time, but
/// that it is between the years -9999 and 9999.
#[verifier::external_body]
fn now_utc() -> (r: i128)
    ensures
        TIME_MIN <= r <= TIME_MAX,
{
    OffsetDateTime::now_utc().unix_timestamp_nanos()
}

/// The clock was read and showed this time.
pub closed spec fn clock_showed(now: i128) -> bool {
    call_ensures(now_utc, (), now)
}

/// A key pair was asked for, and this is what came of it.
pub closed spec fn key_generation_gave(pair: Result<KeyPair, rcgen::Error>) -> bool {
    call_ensures(generate_key_pair, (), pair)
}

/// A certificate of the parameters was asked for that is signed with the key pair, and this is what
/// came of it.
pub closed spec fn signing_gave(
    params: rcgen::CertificateParams,
    key_pair: KeyPair,
    signed: Result<Vec<u8>, rcgen::Error>,
) -> bool {
    call_ensures(sign_certificate, (params, &key_pair), signed)
}

/// A certificate and its private key, which should not be publicized.
pub struct CertificateAndKey {
    /// The certificate, in DER.
    pub cert: Vec<u8>,
    /// The private key, in PKCS#8.
    pub key: Vec<u8>,
}

/// The certificate says this. It is for the public key of the private key, which is one for ECDSA.
pub open spec fn certifies(cert: Seq<u8>, key: Seq<u8>, says: ParamsView) -> bool {
    &&& certificate_says(cert) == says
    &&& certificate_public_key(cert) == document_public_key(key)
    &&& document_is_ecdsa_p256(key)
}

/// What the names of the rcgen crate hold.
pub open spec fn san_contents(sans: Seq<SanType>) -> Seq<AltNameView> {
    sans.map_values(|san: SanType| san_content(san)->0)
}

/// Makes names of the rcgen crate, if all of them are valid.
fn sans_of_names(names: &Vec<SubjectAltName>) -> (r: Option<Vec<SanType>>)
    ensures
        match r {
            Some(sans) => {
                &&& are_valid_names(name_views(names@))
                &&& san_contents(sans@) == name_views(names@)
                &&& forall|i: int|
                    0 <= i < sans@.len() ==> san_content(#[trigger] sans@[i]) is Some
            },
            None => !are_valid_names(name_views(names@)),
        },
{
    let ghost views = name_views(names@);
    let mut sans: Vec<SanType> = Vec::new();
    for i in 0..names.len()
        invariant
            views == name_views(names@),
            san_contents(sans@) =~= views.take(i as int),
            are_valid_names(views.take(i as int)),
            forall|k: int| 0 <= k < sans@.len() ==> san_content(#[trigger] sans@[k]) is Some,
    {
        let ghost before = sans@;
        let ghost view = views[i as int];
        match san_of_name(&names[i]) {
            Ok(san) => {
                assert(san_contents(before.push(san)) =~= san_contents(before).push(view));
                assert(views.take(i + 1) =~= views.take(i as int).push(view));
                sans.push(san);
            },
            Err(_) => {
                assert(!is_valid_name(view));
                return None;
            },
        }
    }
    assert(views.take(views.len() as int) =~= views);
    Some(sans)
}

/// Makes parameters of the rcgen crate.
pub fn rcgen_params(params: CertificateTerms) -> (r: Result<
    rcgen::CertificateParams,
    CertificateError,
>)
    requires
        params@.datable(),
    ensures
        match r {
            Ok(filled) => {
                &&& are_valid_names(params@.names)
                &&& params_writable(filled)
                &&& params_say(filled) == params@.in_seconds()
            },
            Err(e) => e == CertificateError::InvalidName && !are_valid_names(params@.names),
        },
{
    let names = match sans_of_names(&params.subject_alt_names) {
        Some(names) => names,
        None => {
            return Err(CertificateError::InvalidName);
        },
    };
    match fill_params(params.not_before, params.not_after, params.common_name, names) {
        Ok(filled) => Ok(filled),
        Err(_) => Err(CertificateError::InvalidTime),
    }
}

/// What comes of asking for a certificate: the certificate that was signed with the key pair that was
/// generated, and the document of that key pair. It fails where one of these fails.
pub open spec fn generated(
    params: rcgen::CertificateParams,
    r: Result<CertificateAndKey, CertificateError>,
) -> bool {
    exists|pair: Result<KeyPair, rcgen::Error>| #[trigger]
        key_generation_gave(pair) && match pair {
            Err(_) => r == Err::<CertificateAndKey, CertificateError>(
                CertificateError::KeyGeneration,
            ),
            Ok(key_pair) => signed_with(params, key_pair, r),
        }
}

/// What comes of signing a certificate with a key pair.
pub open spec fn signed_with(
    params: rcgen::CertificateParams,
    key_pair: KeyPair,
    r: Result<CertificateAndKey, CertificateError>,
) -> bool {
    exists|signed: Result<Vec<u8>, rcgen::Error>| #[trigger]
        signing_gave(params, key_pair, signed) && match signed {
            Err(_) => r == Err::<CertificateAndKey, CertificateError>(CertificateError::Signing),
            Ok(cert) => r matches Ok(made) && made.cert@ == cert@ && key_pair_document(key_pair)
                == Some(made.key@),
        }
}

/// Generates a self-signed certificate.
pub fn generate_self_signed_certificate(params: rcgen::CertificateParams) -> (r: Result<
    CertificateAndKey,
    CertificateError,
>)
    requires
        params_writable(params),
    ensures
        generated(params, r),
        r matches Ok(made) ==> certifies(made.cert@, made.key@, params_say(params)),
{
    let pair = generate_key_pair();
    assert(key_generation_gave(pair));
    let key_pair = match pair {
        Ok(key_pair) => key_pair,
        Err(_) => {
            return Err(CertificateError::KeyGeneration);
        },
    };
    let signed = sign_certificate(params, &key_pair);
    assert(signing_gave(params, key_pair, signed));
    let cert = match signed {
        Ok(cert) => cert,
        Err(_) => {
            let r: Result<CertificateAndKey, CertificateError> = Err(CertificateError::Signing);
            assert(signed_with(params, key_pair, r));
            return r;
        },
    };
    let key = serialize_key_pair(&key_pair);
    let r: Result<CertificateAndKey, CertificateError> = Ok(CertificateAndKey { cert, key });
    assert(signed_with(params, key_pair, r));
    r
}

/// The time, or the nearest one that can be told.
pub open spec fn clamped(t: int) -> i128 {
    if t < TIME_MIN {
        TIME_MIN
    } else if t > TIME_MAX {
        TIME_MAX
    } else {
        t as i128
    }
}

/// The name that a certificate for a destination is made out to: the address, the domain name, or
/// else the whole web address.
pub open spec fn alt_name(dest: crate::destination::DestinationView) -> AltNameView {
    match dest {
        crate::destination::DestinationView::Addr(addr) => AltNameView::IpAddress(addr.spec_ip()),
        crate::destination::DestinationView::Url(url) => match crate::web_url::url_host(url) {
            Some(crate::web_url::HostView::Domain(domain)) => AltNameView::DnsName(domain),
            _ => AltNameView::Uri(url),
        },
    }
}

/// A certificate can be made out to the name: it holds only ASCII characters.
pub open spec fn is_valid_name(name: AltNameView) -> bool {
    match name {
        AltNameView::IpAddress(_) => true,
        AltNameView::DnsName(text) => vstd::utf8::is_ascii_chars(text),
        AltNameView::Uri(text) => vstd::utf8::is_ascii_chars(text),
    }
}

/// The names that a certificate for some destinations is made out to.
pub open spec fn alt_names(dests: Seq<WebServerDestination>) -> Seq<AltNameView> {
    dests.map_values(|dest: WebServerDestination| alt_name(dest@))
}

/// A certificate can be made out to all of the names.
pub open spec fn are_valid_names(names: Seq<AltNameView>) -> bool {
    forall|i: int| 0 <= i < names.len() ==> is_valid_name(#[trigger] names[i])
}

/// What a certificate for some destinations is to say that is made at some time. It is valid from
/// `head_start` before that time, and for as long as `validity`.
pub open spec fn dated_params(
    now: i128,
    head_start: i128,
    validity: i128,
    dests: Seq<WebServerDestination>,
) -> ParamsView {
    let not_before = clamped(now - head_start);
    ParamsView {
        not_before: not_before as int,
        not_after: clamped(not_before + validity) as int,
        is_authority: false,
        common_name: "renet2 self signed cert"@,
        names: alt_names(dests),
    }
}

/// The time, or the nearest one that can be told.
fn clamp_time(t: i128) -> (r: i128)
    ensures
        r == clamped(t as int),
{
    if t < TIME_MIN {
        TIME_MIN
    } else if t > TIME_MAX {
        TIME_MAX
    } else {
        t
    }
}

/// Decides what a certificate for some destinations says.
pub fn certificate_params(
    now: i128,
    head_start: i128,
    validity: i128,
    dests: &Vec<WebServerDestination>,
) -> (r: Result<CertificateTerms, CertificateError>)
    requires
        TIME_MIN <= now <= TIME_MAX,
        0 <= head_start <= HOUR,
        0 <= validity <= TWO_WEEKS,
    ensures
        match r {
            Ok(params) => are_valid_names(alt_names(dests@)) && params@ == dated_params(
                now,
                head_start,
                validity,
                dests@,
            ),
            Err(e) => !are_valid_names(alt_names(dests@)) && e == CertificateError::InvalidName,
        },
{
    let not_before = clamp_time(now - head_start);
    let not_after = clamp_time(not_before + validity);
    let mut names: Vec<SubjectAltName> = Vec::new();
    for i in 0..dests.len()
        invariant
            name_views(names@) =~= alt_names(dests@).take(i as int),
            are_valid_names(alt_names(dests@).take(i as int)),
    {
        let ghost before = names@;
        let name = match &dests[i] {
            WebServerDestination::Addr(addr) => SubjectAltName::IpAddress(addr.ip()),
            WebServerDestination::Url(url) => match url.domain() {
                Some(domain) => SubjectAltName::DnsName(domain),
                None => SubjectAltName::Uri(url.as_str().to_owned()),
            },
        };
        let valid = match &name {
            SubjectAltName::IpAddress(_) => true,
            SubjectAltName::DnsName(text) => text.as_str().is_ascii(),
            SubjectAltName::Uri(text) => text.as_str().is_ascii(),
        };
        assert(name@ == alt_names(dests@)[i as int]);
        assert(valid == is_valid_name(name@));
        if !valid {
            return Err(CertificateError::InvalidName);
        }
        assert(alt_names(dests@).take(i + 1) =~= alt_names(dests@).take(i as int).push(name@));
        assert(name_views(before.push(name)) =~= name_views(before).push(name@));
        names.push(name);
    }
    assert(alt_names(dests@).take(dests@.len() as int) =~= alt_names(dests@));
    Ok(
        CertificateTerms {
            not_before,
            not_after,
            common_name: "renet2 self signed cert".to_owned(),
            subject_alt_names: names,
        },
    )
}

/// Makes parameters of the rcgen crate for a certificate for some destinations that is made at some
/// time. There is an error for names that a certificate cannot be made out to, and one for a time
/// before the year 0.
pub fn params_at(
    now: i128,
    head_start: i128,
    validity: i128,
    dests: &Vec<WebServerDestination>,
) -> (r: Result<rcgen::CertificateParams, CertificateError>)
    requires
        TIME_MIN <= now <= TIME_MAX,
        0 <= head_start <= HOUR,
        0 <= validity <= TWO_WEEKS,
    ensures
        ({
            let says = dated_params(now, head_start, validity, dests@);
            match r {
                Ok(params) => {
                    &&& are_valid_names(alt_names(dests@))
                    &&& says.not_before >= YEAR_ZERO
                    &&& params_writable(params)
                    &&& params_say(params) == says.in_seconds()
                },
                Err(CertificateError::InvalidName) => !are_valid_names(alt_names(dests@)),
                Err(CertificateError::InvalidTime) => {
                    &&& are_valid_names(alt_names(dests@))
                    &&& says.not_before < YEAR_ZERO
                },
                Err(_) => false,
            }
        }),
{
    let params = match certificate_params(now, head_start, validity, dests) {
        Ok(params) => params,
        Err(e) => {
            return Err(e);
        },
    };
    assert(params@ == dated_params(now, head_start, validity, dests@));
    if params.not_before < YEAR_ZERO {
        return Err(CertificateError::InvalidTime);
    }
    rcgen_params(params)
}

/// Generates a self-signed certificate for some destinations, now.
pub(crate) fn generate_dated_certificate(
    dests: &Vec<WebServerDestination>,
    head_start: i128,
    validity: i128,
) -> (r: Result<CertificateAndKey, CertificateError>)
    requires
        0 <= head_start <= HOUR,
        0 <= validity <= TWO_WEEKS,
    ensures
        made_for(dests@, head_start, validity, r),
{
    let now = now_utc();
    assert(clock_showed(now));
    let params = match params_at(now, head_start, validity, dests) {
        Ok(params) => params,
        Err(e) => {
            let r: Result<CertificateAndKey, CertificateError> = Err(e);
            assert(made_at(now, dests@, head_start, validity, r));
            return r;
        },
    };
    let r = generate_self_signed_certificate(params);
    assert(made_at(now, dests@, head_start, validity, r));
    r
}

/// What comes out when a certificate for some destinations is asked for at some time. There is an
/// error for names that a certificate cannot be made out to, and one for a time before the year 0.
/// Else a certificate is generated that says what it should.
pub open spec fn made_at(
    now: i128,
    dests: Seq<WebServerDestination>,
    head_start: i128,
    validity: i128,
    r: Result<CertificateAndKey, CertificateError>,
) -> bool {
    let says = dated_params(now, head_start, validity, dests);
    if !are_valid_names(alt_names(dests)) {
        r == Err::<CertificateAndKey, CertificateError>(CertificateError::InvalidName)
    } else if says.not_before < YEAR_ZERO {
        r == Err::<CertificateAndKey, CertificateError>(CertificateError::InvalidTime)
    } else {
        &&& exists|params: rcgen::CertificateParams|
            params_say(params) == says.in_seconds() && #[trigger] generated(params, r)
        &&& r matches Ok(made) ==> certifies(made.cert@, made.key@, says.in_seconds())
    }
}

/// What comes out when a certificate for some destinations is asked for, at the time that the clock
/// shows.
pub open spec fn made_for(
    dests: Seq<WebServerDestination>,
    head_start: i128,
    validity: i128,
    r: Result<CertificateAndKey, CertificateError>,
) -> bool {
    exists|now: i128|
        TIME_MIN <= now <= TIME_MAX && #[trigger] clock_showed(now) && made_at(
            now,
            dests,
            head_start,
            validity,
            r,
        )
}

/// The certificate says what it should for the destinations and for a time that the clock showed, and
/// belongs to the key.
pub open spec fn is_certificate_for(
    cert: Seq<u8>,
    key: Seq<u8>,
    dests: Seq<WebServerDestination>,
    head_start: i128,
    validity: i128,
) -> bool {
    exists|now: i128|
        TIME_MIN <= now <= TIME_MAX && #[trigger] clock_showed(now) && certifies(
            cert,
            key,
            dated_params(now, head_start, validity, dests).in_seconds(),
        )
}

/// Generates a self-signed certificate for some destinations.
///
/// The certificate generated is opinionated based on how it is expected to be used.
/// - The validity period is set to two weeks from now, which clients take that know the certificate
///   by its hash.
/// - ECDSA is used, not RSA.
pub fn generate_self_signed_certificate_opinionated(
    subject_alt_names: &Vec<WebServerDestination>,
) -> (r: Result<CertificateAndKey, CertificateError>)
    ensures
        made_for(subject_alt_names@, 0, TWO_WEEKS, r),
        r matches Ok(made) ==> is_certificate_for(
            made.cert@,
            made.key@,
            subject_alt_names@,
            0,
            TWO_WEEKS,
        ),
{
    generate_dated_certificate(subject_alt_names, 0, TWO_WEEKS)
}

/// A certificate for some destinations is made out to them and to nobody else, is no authority, and
/// is valid for no longer than it should be. It belongs to a key for ECDSA.
pub proof fn certificates_suit_their_destinations(
    cert: Seq<u8>,
    key: Seq<u8>,
    dests: Seq<WebServerDestination>,
    head_start: i128,
    validity: i128,
)
    requires
        0 <= head_start <= HOUR,
        0 <= validity <= TWO_WEEKS,
        validity % SECOND == 0,
        is_certificate_for(cert, key, dests, head_start, validity),
    ensures
        certificate_says(cert).names == alt_names(dests),
        !certificate_says(cert).is_authority,
        certificate_says(cert).not_before <= certificate_says(cert).not_after
            <= certificate_says(cert).not_before + validity,
        certificate_public_key(cert) == document_public_key(key),
        document_is_ecdsa_p256(key),
{
    let now = choose|now: i128|
        TIME_MIN <= now <= TIME_MAX && #[trigger] clock_showed(now) && certifies(
            cert,
            key,
            dated_params(now, head_start, validity, dests).in_seconds(),
        );
    certificates_are_valid_now(now, head_start, validity, dests);
}

/// A certificate is valid for no longer than it was asked to, and not from later than it is made.
/// Away from the ends of time it expires when it should, to the whole second.
pub proof fn certificates_are_valid_now(
    now: i128,
    head_start: i128,
    validity: i128,
    dests: Seq<WebServerDestination>,
)
    requires
        TIME_MIN <= now <= TIME_MAX,
        0 <= head_start <= HOUR,
        0 <= validity <= TWO_WEEKS,
        validity % SECOND == 0,
    ensures
        ({
            let says = dated_params(now, head_start, validity, dests).in_seconds();
            &&& says.not_before <= says.not_after <= says.not_before + validity
            &&& says.not_before <= now
            &&& TIME_MIN + HOUR <= now <= TIME_MAX - TWO_WEEKS ==> {
                &&& says.not_before == whole_second(now - head_start)
                &&& says.not_after == whole_second(now - head_start + validity)
                &&& says.not_after == says.not_before + validity
                &&& validity >= head_start + SECOND ==> now <= says.not_after
            }
        }),
{
}

/// A certificate is made out to its destinations, one after the other: to the IP address of a socket
/// address, to the domain name of a web address that has one, and to the whole web address if not. It
/// becomes valid as long before it is made as it should, and is valid for as long as it should, between
/// the years -9999 and 9999. It cannot be made exactly if a name is not ASCII.
pub proof fn certificates_name_their_destinations(
    now: i128,
    head_start: i128,
    validity: i128,
    dests: Vec<WebServerDestination>,
    r: Result<CertificateTerms, CertificateError>,
    i: int,
)
    requires
        -377_705_116_800_000_000_000 <= now <= 253_402_300_799_999_999_999,
        0 <= head_start <= 3_600_000_000_000,
        0 <= validity <= 1_209_600_000_000_000,
        call_ensures(certificate_params, (now, head_start, validity, &dests), r),
        0 <= i < dests@.len(),
    ensures
        r matches Ok(terms) ==> {
            &&& terms.subject_alt_names@.len() == dests@.len()
            &&& terms.common_name@ == "renet2 self signed cert"@
            &&& terms.not_before == if now - head_start < -377_705_116_800_000_000_000 {
                -377_705_116_800_000_000_000
            } else {
                now - head_start
            }
            &&& terms.not_after == if terms.not_before + validity > 253_402_300_799_999_999_999 {
                253_402_300_799_999_999_999
            } else {
                terms.not_before + validity
            }
            &&& dests@[i] matches WebServerDestination::Addr(addr) ==> (
            terms.subject_alt_names@[i] matches SubjectAltName::IpAddress(ip) && ip
                == addr.spec_ip())
            &&& dests@[i] matches WebServerDestination::Url(url) ==> match crate::web_url::url_host(
                url@,
            ) {
                Some(crate::web_url::HostView::Domain(domain)) => terms.subject_alt_names@[i] matches
                    SubjectAltName::DnsName(name) && name@ == domain && vstd::utf8::is_ascii_chars(
                    domain,
                ),
                _ => terms.subject_alt_names@[i] matches SubjectAltName::Uri(text) && text@ == url@
                    && vstd::utf8::is_ascii_chars(url@),
            }
        },
        r matches Err(e) ==> e == CertificateError::InvalidName && exists|k: int|
            0 <= k < dests@.len() && (#[trigger] dests@[k] matches WebServerDestination::Url(url)
                && match crate::web_url::url_host(url@) {
                Some(crate::web_url::HostView::Domain(domain)) => !vstd::utf8::is_ascii_chars(
                    domain,
                ),
                _ => !vstd::utf8::is_ascii_chars(url@),
            }),
{
    let names = alt_names(dests@);
    assert(names[i] == alt_name(dests@[i]@));
    match r {
        Ok(terms) => {
            assert(name_views(terms.subject_alt_names@) == names);
            assert(name_views(terms.subject_alt_names@)[i] == terms.subject_alt_names@[i]@);
            assert(is_valid_name(names[i]));
        },
        Err(_) => {
            let k = choose|k: int| 0 <= k < names.len() && !is_valid_name(#[trigger] names[k]);
            assert(names[k] == alt_name(dests@[k]@));
            assert(dests@[k] is Url);
        },
    }
}

/// A certificate for some destinations is valid for exactly two weeks from when it is made, to the whole
/// second, away from the end of time. It is made out to each of them, is no authority, and belongs to its
/// key.
pub proof fn opinionated_certificates_last_two_weeks(
    dests: Vec<WebServerDestination>,
    r: Result<CertificateAndKey, CertificateError>,
    i: int,
)
    requires
        call_ensures(generate_self_signed_certificate_opinionated, (&dests,), r),
        0 <= i < dests@.len(),
    ensures
        r matches Ok(made) ==> {
            let says = certificate_says(made.cert@);
            &&& says.names.len() == dests@.len()
            &&& dests@[i] matches WebServerDestination::Addr(addr) ==> says.names[i]
                == AltNameView::IpAddress(addr.spec_ip())
            &&& dests@[i] matches WebServerDestination::Url(url) ==> match crate::web_url::url_host(
                url@,
            ) {
                Some(crate::web_url::HostView::Domain(domain)) => says.names[i]
                    == AltNameView::DnsName(domain),
                _ => says.names[i] == AltNameView::Uri(url@),
            }
            &&& says.common_name == "renet2 self signed cert"@
            &&& !says.is_authority
            &&& exists|now: i128| #[trigger]
                clock_showed(now) && says.not_before <= now && (
                -377_705_113_200_000_000_000 <= now <= 253_401_091_199_999_999_999 ==> now
                    - 1_000_000_000 < says.not_before && says.not_after == says.not_before
                    + 1_209_600_000_000_000)
            &&& certificate_public_key(made.cert@) == document_public_key(made.key@)
            &&& document_is_ecdsa_p256(made.key@)
        },
{
    if r is Ok {
        let made = r->Ok_0;
        let now = choose|now: i128|
            TIME_MIN <= now <= TIME_MAX && #[trigger] clock_showed(now) && certifies(
                made.cert@,
                made.key@,
                dated_params(now, 0, TWO_WEEKS, dests@).in_seconds(),
            );
        certificates_are_valid_now(now, 0, TWO_WEEKS, dests@);
        assert(alt_names(dests@)[i] == alt_name(dests@[i]@));
        assert(clock_showed(now));
    }
}

/// The parameters of a certificate say what the destinations and the time ask for, in whole seconds.
/// Names that are not ASCII come first among the mistakes, and a time before the year 0 comes next.
pub proof fn parameters_say_what_is_asked_for(
    now: i128,
    head_start: i128,
    validity: i128,
    dests: Vec<WebServerDestination>,
    terms: Result<CertificateTerms, CertificateError>,
    r: Result<rcgen::CertificateParams, CertificateError>,
)
    requires
        -377_705_116_800_000_000_000 <= now <= 253_402_300_799_999_999_999,
        0 <= head_start <= 3_600_000_000_000,
        0 <= validity <= 1_209_600_000_000_000,
        call_ensures(certificate_params, (now, head_start, validity, &dests), terms),
        call_ensures(params_at, (now, head_start, validity, &dests), r),
    ensures
        terms is Err <==> r is Err && r->Err_0 == CertificateError::InvalidName,
        terms is Ok && now - head_start < -62_167_219_200_000_000_000 <==> r is Err && r->Err_0
            == CertificateError::InvalidTime,
        r is Ok ==> {
            let says = params_say(r->Ok_0);
            &&& terms->Ok_0.not_before - 1_000_000_000 < says.not_before <= terms->Ok_0.not_before
            &&& terms->Ok_0.not_after - 1_000_000_000 < says.not_after <= terms->Ok_0.not_after
            &&& says.not_before % 1_000_000_000 == 0
            &&& says.not_after % 1_000_000_000 == 0
            &&& says.common_name == terms->Ok_0.common_name@
            &&& says.names.len() == terms->Ok_0.subject_alt_names@.len()
            &&& forall|i: int|
                0 <= i < says.names.len() ==> #[trigger] params_say(r->Ok_0).names[i]
                    == terms->Ok_0.subject_alt_names@[i]@
            &&& !says.is_authority
        },
{
    if r is Ok {
        let says = params_say(r->Ok_0);
        assert forall|i: int| 0 <= i < says.names.len() implies #[trigger] params_say(r->Ok_0).names[i]
            == terms->Ok_0.subject_alt_names@[i]@ by {
            assert(name_views(terms->Ok_0.subject_alt_names@)[i]
                == terms->Ok_0.subject_alt_names@[i]@);
        }
    }
}

/// A certificate that is generated says what its parameters say, and belongs to the key that comes with
/// it. It fails only where no key could be made or the certificate could not be signed.
pub proof fn generated_certificates_say_what_they_should(
    params: rcgen::CertificateParams,
    r: Result<CertificateAndKey, CertificateError>,
)
    requires
        params_writable(params),
        call_ensures(generate_self_signed_certificate, (params,), r),
    ensures
        r matches Ok(made) ==> {
            &&& certificate_says(made.cert@) == params_say(params)
            &&& certificate_public_key(made.cert@) == document_public_key(made.key@)
            &&& document_is_ecdsa_p256(made.key@)
        },
        r matches Err(e) ==> {
            ||| e == CertificateError::KeyGeneration && exists|error: rcgen::Error| #[trigger]
                key_generation_gave(Err(error))
            ||| e == CertificateError::Signing && exists|key_pair: KeyPair, error: rcgen::Error|
                #[trigger] signing_gave(params, key_pair, Err(error))
        },
{
    lemma_generation_fails_for_a_reason(params, r);
}

/// Whoever asks for a certificate is refused because of the names exactly if one of them cannot stand in a
/// certificate. Else it is the clock that stands before the year 0, or no key could be made, or the
/// certificate could not be signed, and in no other case there is none.
pub proof fn failures_have_their_reason(
    dests: Vec<WebServerDestination>,
    any_time: i128,
    terms: Result<CertificateTerms, CertificateError>,
    r: Result<CertificateAndKey, CertificateError>,
)
    requires
        -377_705_116_800_000_000_000 <= any_time <= 253_402_300_799_999_999_999,
        call_ensures(certificate_params, (any_time, 0, 0, &dests), terms),
        call_ensures(generate_self_signed_certificate_opinionated, (&dests,), r),
    ensures
        terms is Err <==> r is Err && r->Err_0 == CertificateError::InvalidName,
        r is Err && r->Err_0 == CertificateError::InvalidTime ==> exists|now: i128| #[trigger]
            clock_showed(now) && now < -62_167_219_200_000_000_000,
        r is Err && r->Err_0 == CertificateError::KeyGeneration ==> exists|error: rcgen::Error|
            #[trigger] key_generation_gave(Err(error)),
        r is Err && r->Err_0 == CertificateError::Signing ==> exists|
            params: rcgen::CertificateParams,
            key_pair: KeyPair,
            error: rcgen::Error,
        | #[trigger] signing_gave(params, key_pair, Err(error)),
{
    let now = choose|now: i128|
        TIME_MIN <= now <= TIME_MAX && #[trigger] clock_showed(now) && made_at(
            now,
            dests@,
            0,
            TWO_WEEKS,
            r,
        );
    assert(clock_showed(now) && made_at(now, dests@, 0, TWO_WEEKS, r));
    let says = dated_params(now, 0, TWO_WEEKS, dests@);
    if are_valid_names(alt_names(dests@)) && says.not_before >= YEAR_ZERO {
        let params = choose|params: rcgen::CertificateParams|
            params_say(params) == says.in_seconds() && #[trigger] generated(params, r);
        lemma_generation_fails_for_a_reason(params, r);
    }
}

/// What is generated fails only where the outside failed.
pub(crate) proof fn lemma_generation_fails_for_a_reason(
    params: rcgen::CertificateParams,
    r: Result<CertificateAndKey, CertificateError>,
)
    requires
        generated(params, r),
    ensures
        r matches Err(e) ==> {
            ||| e == CertificateError::KeyGeneration && exists|error: rcgen::Error| #[trigger]
                key_generation_gave(Err(error))
            ||| e == CertificateError::Signing && exists|key_pair: KeyPair, error: rcgen::Error|
                #[trigger] signing_gave(params, key_pair, Err(error))
        },
{
    let pair = choose|pair: Result<KeyPair, rcgen::Error>| #[trigger]
        key_generation_gave(pair) && match pair {
            Err(_) => r == Err::<CertificateAndKey, CertificateError>(
                CertificateError::KeyGeneration,
            ),
            Ok(key_pair) => signed_with(params, key_pair, r),
        };
    match pair {
        Err(error) => {
            assert(key_generation_gave(Err(error)));
        },
        Ok(key_pair) => {
            let signed = choose|signed: Result<Vec<u8>, rcgen::Error>| #[trigger]
                signing_gave(params, key_pair, signed) && match signed {
                    Err(_) => r == Err::<CertificateAndKey, CertificateError>(
                        CertificateError::Signing,
                    ),
                    Ok(cert) => r matches Ok(made) && made.cert@ == cert@ && key_pair_document(
                        key_pair,
                    ) == Some(made.key@),
                };
            if let Err(error) = signed {
                assert(signing_gave(params, key_pair, Err(error)));
            }
        },
    }
}

} // verus!
