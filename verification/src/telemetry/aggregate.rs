//! Report assembly.
//!
//! A report carries the inventory under a pseudonymous install identifier: a
//! one-way hash of a local salt, which itself never leaves the machine.
use vstd::prelude::*;

use sha2::Digest;

use super::collectors::DeviceInventory;
#[allow(unused_imports)]
use super::collectors::Inventory;
#[allow(unused_imports)]
use vstd::string::StringSliceAdditionalSpecFns;
#[allow(unused_imports)]
use vstd::utf8::encode_utf8;

verus! {

/// Changes whenever the shape of [`AggregatedReport`] does.
pub const SCHEMA_VERSION: u32 = 1;

/// The version of this program.
pub const KIBAD_VERSION: &'static str = "0.1.0";

/// What is hashed before the salt, so that the identifier fits no other use.
pub const INSTALL_ID_DOMAIN: &'static str = "kibad-telemetry-install-id-v1:";

#[derive(Debug)]
pub struct AggregatedReport {
    pub schema_version: u32,
    /// Pseudonymous, stable identifier of the installation.
    pub install_id: String,
    /// Days since the Unix epoch.
    pub period: String,
    pub kibad_version: String,
    pub device: DeviceInventory,
}

/// What an [`AggregatedReport`] says.
#[verifier::ext_equal]
pub struct Report {
    pub schema_version: u32,
    pub install_id: Seq<char>,
    pub period: Seq<char>,
    pub kibad_version: Seq<char>,
    pub device: Inventory,
}

impl View for AggregatedReport {
    type V = Report;

    open spec fn view(&self) -> Report {
        Report {
            schema_version: self.schema_version,
            install_id: self.install_id@,
            period: self.period@,
            kibad_version: self.kibad_version@,
            device: self.device@,
        }
    }
}

impl Clone for AggregatedReport {
    fn clone(&self) -> (report: AggregatedReport)
        ensures
            report@ == self@,
    {
        AggregatedReport {
            schema_version: self.schema_version,
            install_id: self.install_id.clone(),
            period: self.period.clone(),
            kibad_version: self.kibad_version.clone(),
            device: self.device.clone(),
        }
    }
}

/// The SHA-256 digest of a message.
pub uninterp spec fn sha256_digest(message: Seq<u8>) -> Seq<u8>;

/// `Sha256::digest` of the `sha2` crate: the 32 bytes that are a function of the
/// message alone. Which bytes they are is left to the name [`sha256_digest`].
#[verifier::external_body]
fn sha256(message: &[u8]) -> (digest: Vec<u8>)
    ensures
        digest@ == sha256_digest(message@),
        digest@.len() == 32,
{
    sha2::Sha256::digest(message).to_vec()
}

/// A digit below sixteen, in lower case.
pub open spec fn hex_digit(n: int) -> char {
    if n < 10 {
        (48 + n) as char
    } else {
        (87 + n) as char
    }
}

/// Two digits per byte, the high half first.
pub open spec fn hex_digits(bytes: Seq<u8>) -> Seq<char> {
    Seq::new(
        2 * bytes.len(),
        |k: int|
            if k % 2 == 0 {
                hex_digit(bytes[k / 2] as int / 16)
            } else {
                hex_digit(bytes[k / 2] as int % 16)
            },
    )
}

/// `hex::encode`: two lower-case hexadecimal digits for each byte, the high half
/// first.
#[verifier::external_body]
pub(crate) fn hex_encode(bytes: &[u8]) -> (text: String)
    requires
        2 * bytes@.len() <= isize::MAX,
    ensures
        text@ == hex_digits(bytes@),
{
    hex::encode(bytes)
}

/// What is hashed for an installation with the given salt.
pub open spec fn install_id_message(salt: Seq<char>) -> Seq<u8> {
    encode_utf8(INSTALL_ID_DOMAIN@) + encode_utf8(salt)
}

/// The identifier of an installation.
pub open spec fn install_id_of(salt: Seq<char>) -> Seq<char> {
    hex_digits(sha256_digest(install_id_message(salt)))
}

/// The report for the given period.
pub open spec fn report_of(salt: Seq<char>, period: Seq<char>, device: Inventory) -> Report {
    Report {
        schema_version: SCHEMA_VERSION,
        install_id: install_id_of(salt),
        period,
        kibad_version: KIBAD_VERSION@,
        device,
    }
}

/// The bytes whose digest identifies an installation.
pub fn install_id_input(install_salt: &str) -> (message: Vec<u8>)
    ensures
        message@ == install_id_message(install_salt@),
{
    let mut message: Vec<u8> = Vec::new();
    message.extend_from_slice(INSTALL_ID_DOMAIN.as_bytes());
    assert(message@ =~= encode_utf8(INSTALL_ID_DOMAIN@));
    message.extend_from_slice(install_salt.as_bytes());
    assert(message@ =~= install_id_message(install_salt@));
    message
}

/// An identifier as text, from its digest.
pub fn install_id_text(digest: &Vec<u8>) -> (id: String)
    requires
        2 * digest@.len() <= isize::MAX,
    ensures
        id@ == hex_digits(digest@),
{
    hex_encode(digest.as_slice())
}

/// The identifier of an installation, from its salt.
pub fn derive_install_id(install_salt: &str) -> (id: String)
    ensures
        id@ == install_id_of(install_salt@),
        id@.len() == 64,
{
    let message: Vec<u8> = install_id_input(install_salt);
    let digest: Vec<u8> = sha256(message.as_slice());
    install_id_text(&digest)
}

/// A report under the given identifier.
pub fn assemble_report(install_id: String, period: &str, device: DeviceInventory) -> (report:
    AggregatedReport)
    ensures
        report@ == (Report {
            schema_version: SCHEMA_VERSION,
            install_id: install_id@,
            period: period@,
            kibad_version: KIBAD_VERSION@,
            device: device@,
        }),
{
    AggregatedReport {
        schema_version: SCHEMA_VERSION,
        install_id,
        period: period.to_string(),
        kibad_version: KIBAD_VERSION.to_string(),
        device,
    }
}

/// Wraps an inventory in a report under the installation's identifier.
pub fn build_report(install_salt: &str, period: &str, device: DeviceInventory) -> (report:
    AggregatedReport)
    ensures
        report@ == report_of(install_salt@, period@, device@),
        report@.install_id.len() == 64,
{
    assemble_report(derive_install_id(install_salt), period, device)
}

proof fn lemma_hex_digit_injective(m: int, n: int)
    requires
        0 <= m < 16,
        0 <= n < 16,
        hex_digit(m) == hex_digit(n),
    ensures
        m == n,
{
    assert(hex_digit(m) as int == (if m < 10 {
        48 + m
    } else {
        87 + m
    }));
    assert(hex_digit(n) as int == (if n < 10 {
        48 + n
    } else {
        87 + n
    }));
}

/// Hexadecimal text tells the bytes that it was made of.
pub proof fn law_hex_is_injective(a: Seq<u8>, b: Seq<u8>)
    requires
        hex_digits(a) == hex_digits(b),
    ensures
        a == b,
{
    assert(hex_digits(a).len() == 2 * a.len());
    assert(hex_digits(b).len() == 2 * b.len());
    assert forall|i: int| 0 <= i < a.len() implies a[i] == b[i] by {
        let high = 2 * i;
        let low = 2 * i + 1;
        assert(high / 2 == i && high % 2 == 0 && low / 2 == i && low % 2 == 1);
        assert(hex_digits(a)[high] == hex_digit(a[i] as int / 16));
        assert(hex_digits(b)[high] == hex_digit(b[i] as int / 16));
        assert(hex_digits(a)[low] == hex_digit(a[i] as int % 16));
        assert(hex_digits(b)[low] == hex_digit(b[i] as int % 16));
        lemma_hex_digit_injective(a[i] as int / 16, b[i] as int / 16);
        lemma_hex_digit_injective(a[i] as int % 16, b[i] as int % 16);
    }
    assert(a =~= b);
}

/// Hexadecimal text is made of the digits and the letters from a to f.
pub proof fn law_hex_alphabet(bytes: Seq<u8>, k: int)
    requires
        0 <= k < 2 * bytes.len(),
    ensures
        '0' <= hex_digits(bytes)[k] <= '9' || 'a' <= hex_digits(bytes)[k] <= 'f',
{
}

/// The identifier belongs to the installation: it is the same in every report
/// made with the same salt, whatever the period and the inventory.
pub proof fn law_install_id_is_stable(
    salt: Seq<char>,
    period: Seq<char>,
    other_period: Seq<char>,
    device: Inventory,
    other_device: Inventory,
)
    ensures
        report_of(salt, period, device).install_id == report_of(
            salt,
            other_period,
            other_device,
        ).install_id,
{
}

/// The salt leaves the machine only as a digest: salts whose digests agree give
/// the same report.
pub proof fn law_report_shows_salt_by_digest_only(
    salt: Seq<char>,
    other: Seq<char>,
    period: Seq<char>,
    device: Inventory,
)
    requires
        sha256_digest(install_id_message(salt)) == sha256_digest(install_id_message(other)),
    ensures
        report_of(salt, period, device) == report_of(other, period, device),
{
}

/// Each byte gives two digits, and the two digits give the byte back: sixteen
/// times the first and the second, the letters standing for ten and more.
pub proof fn law_hex_digits_stand_for_byte(bytes: Seq<u8>, i: int)
    requires
        0 <= i < bytes.len(),
    ensures
        hex_digits(bytes).len() == 2 * bytes.len(),
        ({
            let high = hex_digits(bytes)[2 * i] as int;
            let low = hex_digits(bytes)[2 * i + 1] as int;
            let high_value = if high <= '9' as int { high - '0' as int } else { high - 'a' as int
                + 10 };
            let low_value = if low <= '9' as int { low - '0' as int } else { low - 'a' as int
                + 10 };
            bytes[i] == 16 * high_value + low_value
        }),
{
    let (high, low) = (2 * i, 2 * i + 1);
    assert(high / 2 == i && high % 2 == 0 && low / 2 == i && low % 2 == 1);
    assert(hex_digits(bytes)[high] == hex_digit(bytes[i] as int / 16));
    assert(hex_digits(bytes)[low] == hex_digit(bytes[i] as int % 16));
}

/// What is hashed is the domain, then the salt and nothing else, so different
/// salts never have the same message.
pub proof fn law_message_is_domain_and_salt(salt: Seq<char>, other: Seq<char>)
    ensures
        install_id_message(salt) == encode_utf8("kibad-telemetry-install-id-v1:"@) + encode_utf8(
            salt,
        ),
        install_id_message(salt) == install_id_message(other) ==> salt == other,
{
    if install_id_message(salt) == install_id_message(other) {
        let head = encode_utf8(INSTALL_ID_DOMAIN@).len() as int;
        assert(install_id_message(salt).skip(head) =~= encode_utf8(salt));
        assert(install_id_message(other).skip(head) =~= encode_utf8(other));
        vstd::utf8::encode_utf8_decode_utf8(salt);
        vstd::utf8::encode_utf8_decode_utf8(other);
    }
}

/// A report carries the period and the inventory as they are, the first version
/// of its shape, and the hexadecimal digest of the salt's message.
pub proof fn law_report_carries_its_parts(salt: Seq<char>, period: Seq<char>, device: Inventory)
    ensures
        ({
            let report = report_of(salt, period, device);
            &&& report.schema_version == 1
            &&& report.period == period
            &&& report.device == device
            &&& report.kibad_version == "0.1.0"@
            &&& report.install_id == hex_digits(sha256_digest(install_id_message(salt)))
        }),
{
}

} // verus!
