//! The names that a certificate is for.
use super::config::IpAddress;
use std::io::Cursor;
use vstd::prelude::*;
use x509_parser::error::{PEMError, X509Error};
use x509_parser::extensions::GeneralName;
use x509_parser::parse_x509_certificate;
use x509_parser::pem::Pem;

verus! {

/// A certificate that cannot be read.
#[derive(Debug, Clone, Copy, PartialEq, Eq, Structural)]
pub struct InvalidCertificate;

/// A subject alternative name.
#[derive(Debug)]
pub enum AltName {
    Dns(String),
    /// An address, as its bytes.
    Ip(Vec<u8>),
    /// Any other kind of name.
    Other,
}

/// What a subject alternative name says.
pub ghost enum AltNameView {
    Dns(Seq<char>),
    Ip(Seq<u8>),
    Other,
}

impl View for AltName {
    type V = AltNameView;

    open spec fn view(&self) -> AltNameView {
        match *self {
            AltName::Dns(name) => AltNameView::Dns(name@),
            AltName::Ip(bytes) => AltNameView::Ip(bytes@),
            AltName::Other => AltNameView::Other,
        }
    }
}

pub open spec fn alt_name_views(names: Seq<AltName>) -> Seq<AltNameView> {
    names.map_values(|n: AltName| n@)
}

/// The error of a reader of PEM files.
#[verifier::external_type_specification]
#[verifier::external_body]
pub struct ExPemError(PEMError);

/// The error of a reader of certificates.
#[verifier::external_type_specification]
#[verifier::external_body]
pub struct ExX509Error(X509Error);

/// The bytes in the first block of a PEM file, as `Pem::read` finds them.
pub uninterp spec fn pem_contents(pem: Seq<u8>) -> Option<Seq<u8>>;

/// Whether bytes begin with a certificate, as `parse_x509_certificate` decides it.
pub uninterp spec fn certificate_form(der: Seq<u8>) -> bool;

/// What `subject_alternative_name` finds in a certificate: nothing where the names cannot be
/// read, and else the names, where there are any.
pub uninterp spec fn alternative_names(der: Seq<u8>) -> Option<Option<Seq<AltNameView>>>;

/// Calls [`Pem::read`] on the file and hands out the contents of the block. They are a function
/// of the bytes; the grammar of PEM is not spelled out here. The block is decoded in one go,
/// which takes at most an eighth of `usize::MAX` characters.
#[verifier::external_body]
fn read_block(pem: &[u8]) -> (r: Result<Vec<u8>, PEMError>)
    requires
        pem@.len() <= usize::MAX / 8,
    ensures
        (match r {
            Ok(der) => Some(der@),
            Err(_) => None,
        }) == pem_contents(pem@),
{
    Pem::read(Cursor::new(pem)).map(|(block, _)| block.contents)
}

/// Calls [`parse_x509_certificate`]. The answer is a function of the bytes; the grammar of
/// X.509 is not spelled out here.
#[verifier::external_body]
fn is_certificate(der: &[u8]) -> (r: bool)
    ensures
        r == certificate_form(der@),
{
    parse_x509_certificate(der).is_ok()
}

/// Calls `subject_alternative_name` of a certificate that parses, and hands out the names. They
/// are a function of the bytes of the certificate.
#[verifier::external_body]
fn read_names(der: &[u8]) -> (r: Result<Option<Vec<AltName>>, X509Error>)
    requires
        certificate_form(der@),
    ensures
        (match r {
            Ok(Some(names)) => Some(Some(alt_name_views(names@))),
            Ok(None) => Some(None),
            Err(_) => None,
        }) == alternative_names(der@),
{
    let (_, cert) = parse_x509_certificate(der).expect("a parsed certificate");
    let extension = cert.subject_alternative_name()?;
    Ok(extension.map(|e| e.value.general_names.iter().map(|name| match name {
        GeneralName::DNSName(dns) => AltName::Dns(dns.to_string()),
        GeneralName::IPAddress(ip) => AltName::Ip(ip.to_vec()),
        _ => AltName::Other,
    }).collect()))
}

/// The subject alternative names of the certificate in a PEM file; a certificate may have none.
pub open spec fn certificate_names(pem: Seq<u8>) -> Option<Seq<AltNameView>> {
    match pem_contents(pem) {
        Some(der) => if certificate_form(der) {
            match alternative_names(der) {
                Some(Some(names)) => Some(names),
                Some(None) => Some(Seq::empty()),
                None => None,
            }
        } else {
            None
        },
        None => None,
    }
}

/// A name that a certificate is for.
#[derive(Debug)]
pub enum San {
    Dns(String),
    Ip(IpAddress),
}

/// What such a name says.
pub ghost enum SanView {
    Dns(Seq<char>),
    Ip(IpAddress),
}

impl View for San {
    type V = SanView;

    open spec fn view(&self) -> SanView {
        match *self {
            San::Dns(name) => SanView::Dns(name@),
            San::Ip(ip) => SanView::Ip(ip),
        }
    }
}

pub open spec fn san_views(sans: Seq<San>) -> Seq<SanView> {
    sans.map_values(|s: San| s@)
}

/// The address that four or sixteen bytes are.
pub open spec fn address(bytes: Seq<u8>) -> Option<IpAddress> {
    if bytes.len() == 4 {
        Some(IpAddress::V4(super::crypto::be_value(bytes) as u32))
    } else if bytes.len() == 16 {
        Some(IpAddress::V6(super::crypto::be_value(bytes) as u128))
    } else {
        None
    }
}

/// The name that a subject alternative name is, if it is one that a client connects to.
pub open spec fn san(name: AltNameView) -> Option<SanView> {
    match name {
        AltNameView::Dns(dns) => Some(SanView::Dns(dns)),
        AltNameView::Ip(bytes) => match address(bytes) {
            Some(ip) => Some(SanView::Ip(ip)),
            None => None,
        },
        AltNameView::Other => None,
    }
}

/// The names that a client connects to, in their order.
pub open spec fn sans(names: Seq<AltNameView>) -> Seq<SanView>
    decreases names.len(),
{
    if names.len() == 0 {
        Seq::empty()
    } else {
        match san(names.last()) {
            Some(s) => sans(names.drop_last()).push(s),
            None => sans(names.drop_last()),
        }
    }
}

proof fn be_value_bound(bytes: Seq<u8>)
    ensures
        bytes.len() <= 4 ==> super::crypto::be_value(bytes) <= u32::MAX,
        bytes.len() <= 16 ==> super::crypto::be_value(bytes) <= u128::MAX,
{
    be_value_below_power(bytes);
    assert(vstd::arithmetic::power::pow(256, 4) == 0x1_0000_0000) by {
        reveal_with_fuel(vstd::arithmetic::power::pow, 5);
    }
    assert(vstd::arithmetic::power::pow(256, 16) == 0x1_0000_0000_0000_0000_0000_0000_0000_0000) by {
        reveal_with_fuel(vstd::arithmetic::power::pow, 17);
    }
    if bytes.len() <= 4 {
        vstd::arithmetic::power::lemma_pow_increases(256, bytes.len(), 4);
    }
    if bytes.len() <= 16 {
        vstd::arithmetic::power::lemma_pow_increases(256, bytes.len(), 16);
    }
}

proof fn be_value_below_power(bytes: Seq<u8>)
    ensures
        super::crypto::be_value(bytes) < vstd::arithmetic::power::pow(256, bytes.len()),
    decreases bytes.len(),
{
    reveal(vstd::arithmetic::power::pow);
    if bytes.len() > 0 {
        be_value_below_power(bytes.drop_last());
        assert(vstd::arithmetic::power::pow(256, bytes.len()) == 256
            * vstd::arithmetic::power::pow(256, (bytes.len() - 1) as nat));
    }
}

fn read_address(bytes: &[u8]) -> (r: Option<IpAddress>)
    ensures
        r == address(bytes@),
{
    if bytes.len() != 4 && bytes.len() != 16 {
        return None;
    }
    let mut value: u128 = 0;
    let mut i: usize = 0;
    while i < bytes.len()
        invariant
            i <= bytes.len(),
            bytes.len() <= 16,
            value == super::crypto::be_value(bytes@.take(i as int)),
        decreases bytes.len() - i,
    {
        let ghost longer = bytes@.take(i + 1);
        assert(longer.drop_last() =~= bytes@.take(i as int));
        proof {
            be_value_bound(longer);
        }
        value = value * 256 + bytes[i] as u128;
        i += 1;
    }
    assert(bytes@.take(i as int) =~= bytes@);
    proof {
        be_value_bound(bytes@);
    }
    if bytes.len() == 4 {
        Some(IpAddress::V4(value as u32))
    } else {
        Some(IpAddress::V6(value))
    }
}

/// The names that a client connects to, in their order.
pub fn connectable(names: Vec<AltName>) -> (r: Vec<San>)
    ensures
        san_views(r@) == sans(alt_name_views(names@)),
{
    let mut r: Vec<San> = Vec::new();
    let ghost all = alt_name_views(names@);
    let mut i: usize = 0;
    while i < names.len()
        invariant
            i <= names.len(),
            all == alt_name_views(names@),
            san_views(r@) == sans(all.take(i as int)),
        decreases names.len() - i,
    {
        let ghost before = r@;
        let ghost longer = all.take(i + 1);
        assert(longer.drop_last() =~= all.take(i as int));
        assert(longer.last() == names@[i as int]@);
        match &names[i] {
            AltName::Dns(dns) => {
                r.push(San::Dns(dns.clone()));
                assert(san_views(r@) =~= san_views(before).push(SanView::Dns(dns@)));
            },
            AltName::Ip(bytes) => {
                if let Some(ip) = read_address(bytes.as_slice()) {
                    r.push(San::Ip(ip));
                    assert(san_views(r@) =~= san_views(before).push(SanView::Ip(ip)));
                }
            },
            AltName::Other => {},
        }
        i += 1;
    }
    assert(all.take(all.len() as int) =~= all);
    r
}

/// The names that the certificate in a PEM file is for: the domains and addresses among its
/// subject alternative names. The file is no longer than a decoder of base64 takes.
pub fn sans_from_cert(pem: &[u8]) -> (r: Result<Vec<San>, InvalidCertificate>)
    requires
        pem@.len() <= usize::MAX / 8,
    ensures
        match r {
            Ok(names) => certificate_names(pem@) matches Some(all) && san_views(names@) == sans(
                all,
            ),
            Err(_) => certificate_names(pem@) is None,
        },
{
    let der = match read_block(pem) {
        Ok(der) => der,
        Err(_) => {
            return Err(InvalidCertificate);
        },
    };
    if !is_certificate(der.as_slice()) {
        return Err(InvalidCertificate);
    }
    match read_names(der.as_slice()) {
        Ok(Some(names)) => Ok(connectable(names)),
        Ok(None) => {
            let none: Vec<San> = Vec::new();
            assert(san_views(none@) =~= Seq::<SanView>::empty());
            Ok(none)
        },
        Err(_) => Err(InvalidCertificate),
    }
}

/// The names that can be connected to are picked one by one, in their order: a DNS name is taken
/// as it is, four or sixteen bytes are an address with its highest byte first, and all else is
/// passed over.
pub proof fn names_are_picked_one_by_one(a: Seq<AltNameView>, b: Seq<AltNameView>, name: AltNameView)
    ensures
        sans(a + b) == sans(a) + sans(b),
        match name {
            AltNameView::Dns(dns) => sans(seq![name]) == seq![SanView::Dns(dns)],
            AltNameView::Ip(bytes) => if bytes.len() == 4 {
                sans(seq![name]) == seq![
                    SanView::Ip(
                        IpAddress::V4(
                            (16777216 * bytes[0] + 65536 * bytes[1] + 256 * bytes[2]
                                + bytes[3]) as u32,
                        ),
                    ),
                ]
            } else if bytes.len() == 16 {
                sans(seq![name]) == seq![
                    SanView::Ip(IpAddress::V6(super::crypto::be_value(bytes) as u128)),
                ]
            } else {
                sans(seq![name]).len() == 0
            },
            AltNameView::Other => sans(seq![name]).len() == 0,
        },
    decreases b.len(),
{
    reveal_with_fuel(sans, 2);
    assert(seq![name].drop_last() =~= Seq::<AltNameView>::empty());
    assert(seq![name].last() == name);
    if let AltNameView::Ip(bytes) = name {
        if bytes.len() == 4 {
            reveal_with_fuel(super::crypto::be_value, 5);
            let three = bytes.drop_last();
            let two = three.drop_last();
            let one = two.drop_last();
            assert(bytes.last() == bytes[3] && three.last() == bytes[2] && two.last() == bytes[1]
                && one.last() == bytes[0]);
            assert(super::crypto::be_value(bytes) == 16777216 * bytes[0] + 65536 * bytes[1] + 256
                * bytes[2] + bytes[3]);
        }
    }
    if b.len() > 0 {
        names_are_picked_one_by_one(a, b.drop_last(), name);
        assert((a + b).drop_last() =~= a + b.drop_last());
        assert((a + b).last() == b.last());
        assert(sans(a + b) =~= sans(a) + sans(b));
    } else {
        assert(a + b =~= a);
        assert(sans(a) + sans(b) =~= sans(a));
    }
}

} // verus!
