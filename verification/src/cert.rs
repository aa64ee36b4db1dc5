//! What a TLS server's certificate says of it, as far as the banner needs it.

use crate::types::opt_text;
use vstd::prelude::*;

verus! {

/// The fields of a certificate that the banner shows. A field that the
/// certificate lacks, or holds in a form that is not text, is absent.
#[derive(Debug, Clone, PartialEq, Eq)]
pub struct CertFields {
    /// The first common name of the subject.
    pub subject_cn: Option<String>,
    /// The first common name of the issuer.
    pub issuer_cn: Option<String>,
    /// The end of the validity, as an RFC 2822 date; absent where the date
    /// has no such form.
    pub not_after: Option<String>,
}

/// The mathematical value of a `CertFields`.
pub struct CertFieldsView {
    pub subject_cn: Option<Seq<char>>,
    pub issuer_cn: Option<Seq<char>>,
    pub not_after: Option<Seq<char>>,
}

impl View for CertFields {
    type V = CertFieldsView;

    open spec fn view(&self) -> CertFieldsView {
        CertFieldsView {
            subject_cn: opt_text(self.subject_cn),
            issuer_cn: opt_text(self.issuer_cn),
            not_after: opt_text(self.not_after),
        }
    }
}

/// Whether `x509_parser::parse_x509_certificate` reads `der` as a certificate.
pub uninterp spec fn x509_readable(der: Seq<u8>) -> bool;

/// The first common name of the subject of the certificate `der`, as
/// `x509_parser` gives it; none where `der` is no certificate, the subject has
/// no common name, or that name is not held as text.
pub uninterp spec fn x509_subject_cn(der: Seq<u8>) -> Option<Seq<char>>;

/// The first common name of the issuer of the certificate `der`, as
/// `x509_parser` gives it; none as for the subject.
pub uninterp spec fn x509_issuer_cn(der: Seq<u8>) -> Option<Seq<char>>;

/// The end of the validity of the certificate `der` as `x509_parser` writes it
/// by RFC 2822; none where `der` is no certificate or the date has no such
/// form.
pub uninterp spec fn x509_not_after(der: Seq<u8>) -> Option<Seq<char>>;

/// `x509_parser::parse_x509_certificate`: tells whether `der` is read as a
/// DER-encoded certificate.
#[verifier::external_body]
fn x509_is_certificate(der: &[u8]) -> (r: bool)
    ensures
        r == x509_readable(der@),
{
    x509_parser::parse_x509_certificate(der).is_ok()
}

/// `X509Name::iter_common_name` on the subject of the certificate, and
/// `AttributeTypeAndValue::as_str` on its first item.
#[verifier::external_body]
fn x509_subject(der: &[u8]) -> (r: Option<String>)
    ensures
        opt_text(r) == x509_subject_cn(der@),
{
    let (_, cert) = x509_parser::parse_x509_certificate(der).ok()?;
    let name = cert.subject().iter_common_name().next()?;
    name.as_str().ok().map(String::from)
}

/// `X509Name::iter_common_name` on the issuer of the certificate, and
/// `AttributeTypeAndValue::as_str` on its first item.
#[verifier::external_body]
fn x509_issuer(der: &[u8]) -> (r: Option<String>)
    ensures
        opt_text(r) == x509_issuer_cn(der@),
{
    let (_, cert) = x509_parser::parse_x509_certificate(der).ok()?;
    let name = cert.issuer().iter_common_name().next()?;
    name.as_str().ok().map(String::from)
}

/// `ASN1Time::to_rfc2822` on the end of the certificate's validity.
#[verifier::external_body]
fn x509_expiry(der: &[u8]) -> (r: Option<String>)
    ensures
        opt_text(r) == x509_not_after(der@),
{
    let (_, cert) = x509_parser::parse_x509_certificate(der).ok()?;
    cert.validity().not_after.to_rfc2822().ok()
}

/// The fields of the certificate `der`; none where it is no certificate.
pub open spec fn cert_fields_of(der: Seq<u8>) -> Option<CertFieldsView> {
    if x509_readable(der) {
        Some(
            CertFieldsView {
                subject_cn: x509_subject_cn(der),
                issuer_cn: x509_issuer_cn(der),
                not_after: x509_not_after(der),
            },
        )
    } else {
        None
    }
}

/// The text of an optional field, empty where it is absent.
pub open spec fn or_empty(field: Option<Seq<char>>) -> Seq<char> {
    match field {
        Some(text) => text,
        None => Seq::empty(),
    }
}

/// The summary of a certificate: the subject's and the issuer's common name,
/// each only where it is present and not empty, then the end of the validity,
/// which reads `invalid` where the date could not be written. The parts are
/// separated by a comma and a space.
pub open spec fn cert_summary(fields: CertFieldsView) -> Seq<char> {
    let subject = or_empty(fields.subject_cn);
    let issuer = or_empty(fields.issuer_cn);
    let expiry = match fields.not_after {
        Some(date) => date,
        None => "invalid"@,
    };
    if subject.len() > 0 && issuer.len() > 0 {
        "subject_cn="@ + subject + ", "@ + "issuer_cn="@ + issuer + ", "@ + "not_after="@ + expiry
    } else if subject.len() > 0 {
        "subject_cn="@ + subject + ", "@ + "not_after="@ + expiry
    } else if issuer.len() > 0 {
        "issuer_cn="@ + issuer + ", "@ + "not_after="@ + expiry
    } else {
        "not_after="@ + expiry
    }
}

/// The banner of a TLS server, given the certificate it showed.
pub open spec fn tls_banner_of(der: Seq<u8>) -> Option<Seq<char>> {
    match cert_fields_of(der) {
        Some(fields) => Some("TLS: "@ + cert_summary(fields)),
        None => None,
    }
}

/// Reads the fields of a DER-encoded certificate that the banner shows.
pub fn certificate_fields(der: &[u8]) -> (r: Option<CertFields>)
    ensures
        match r {
            Some(fields) => cert_fields_of(der@) == Some(fields@),
            None => cert_fields_of(der@) is None,
        },
{
    if x509_is_certificate(der) {
        Some(
            CertFields {
                subject_cn: x509_subject(der),
                issuer_cn: x509_issuer(der),
                not_after: x509_expiry(der),
            },
        )
    } else {
        None
    }
}

/// The number of characters of an optional field; 0 where it is absent.
fn field_len(field: &Option<String>) -> (r: usize)
    ensures
        (r == 0) == (or_empty(opt_text(*field)).len() == 0),
{
    match field {
        Some(text) => text.as_str().unicode_len(),
        None => 0,
    }
}

/// Appends an optional field to `out`; nothing where it is absent.
fn append_field(out: &mut String, field: &Option<String>)
    ensures
        final(out)@ == old(out)@ + or_empty(opt_text(*field)),
{
    match field {
        Some(text) => {
            out.append(text.as_str());
        },
        None => {
            assert(out@ + Seq::<char>::empty() =~= out@);
        },
    }
}

/// Writes the summary of a certificate.
pub fn format_cert_summary(fields: &CertFields) -> (r: String)
    ensures
        r@ == cert_summary(fields@),
{
    let has_subject = field_len(&fields.subject_cn) > 0;
    let has_issuer = field_len(&fields.issuer_cn) > 0;
    let mut out: String;
    if has_subject && has_issuer {
        out = String::from_str("subject_cn=");
        append_field(&mut out, &fields.subject_cn);
        out.append(", ");
        out.append("issuer_cn=");
        append_field(&mut out, &fields.issuer_cn);
        out.append(", ");
        out.append("not_after=");
    } else if has_subject {
        out = String::from_str("subject_cn=");
        append_field(&mut out, &fields.subject_cn);
        out.append(", ");
        out.append("not_after=");
    } else if has_issuer {
        out = String::from_str("issuer_cn=");
        append_field(&mut out, &fields.issuer_cn);
        out.append(", ");
        out.append("not_after=");
    } else {
        out = String::from_str("not_after=");
    }
    match &fields.not_after {
        Some(date) => {
            out.append(date.as_str());
        },
        None => {
            out.append("invalid");
        },
    }
    out
}

/// The banner of a TLS server that showed the certificate `der`: `TLS: ` and
/// the summary of the certificate; none where `der` is no certificate.
pub fn tls_banner(der: &[u8]) -> (r: Option<String>)
    ensures
        opt_text(r) == tls_banner_of(der@),
{
    match certificate_fields(der) {
        Some(fields) => {
            let mut out = String::from_str("TLS: ");
            out.append(format_cert_summary(&fields).as_str());
            Some(out)
        },
        None => None,
    }
}

} // verus!
