//! Consent.
//!
//! The installer writes the consent file once, after an explicit choice; this
//! program only reads it. A file that is missing, unreadable, malformed or
//! writable by anyone but root means no consent: in doubt, nothing is granted.
use vstd::prelude::*;

use crate::text::decimal;
#[allow(unused_imports)]
use crate::text::decimal_digits;

verus! {

/// Where the consent file is.
pub const CONSENT_PATH: &'static str = "/etc/kibad/telemetry-consent.state";

/// The version of the consent file that is understood.
pub const SUPPORTED_VERSION: u32 = 1;

/// The permission bits that let a group or everyone write.
pub const SHARED_WRITE_BITS: u32 = 0o022;

/// What was agreed to.
#[derive(Debug, Clone, Copy, PartialEq, Eq, Structural)]
pub struct ConsentScopes {
    /// The hardware inventory of this host.
    pub device_inventory: bool,
}

/// A consent file.
#[derive(Debug)]
pub struct ConsentFile {
    pub version: u32,
    /// If false, nothing is collected whatever the scopes say.
    pub agreed: bool,
    pub scopes: ConsentScopes,
    /// When the choice was recorded.
    pub recorded_at: String,
}

impl Clone for ConsentFile {
    fn clone(&self) -> (file: ConsentFile)
        ensures
            file.version == self.version,
            file.agreed == self.agreed,
            file.scopes == self.scopes,
            file.recorded_at@ == self.recorded_at@,
    {
        ConsentFile {
            version: self.version,
            agreed: self.agreed,
            scopes: self.scopes,
            recorded_at: self.recorded_at.clone(),
        }
    }
}

/// Who owns a file, and its permission bits.
#[derive(Debug, Clone, Copy, PartialEq, Eq, Structural)]
pub struct FileMeta {
    pub uid: u32,
    pub mode: u32,
}

/// What came of reading the consent file.
#[derive(Debug)]
pub enum ConsentRead {
    /// It could not be read as text.
    Unreadable,
    /// It is not a consent file.
    Malformed,
    Parsed(ConsentFile),
}

/// Why there is no valid consent file.
#[derive(Debug, Clone, Copy, PartialEq, Eq, Structural)]
pub enum ConsentError {
    Missing,
    NotRootOwned,
    SharedWritable,
    Unreadable,
    Malformed,
    UnsupportedVersion { found: u32 },
}

impl ConsentScopes {
    pub open spec fn nothing() -> ConsentScopes {
        ConsentScopes { device_inventory: false }
    }

    pub fn none() -> (scopes: ConsentScopes)
        ensures
            scopes == ConsentScopes::nothing(),
    {
        ConsentScopes { device_inventory: false }
    }

    /// Whether anything at all was agreed to.
    pub fn any(&self) -> (some: bool)
        ensures
            some == self.device_inventory,
    {
        self.device_inventory
    }
}

/// The file belongs to root and nobody else may write to it.
pub open spec fn permissions(meta: FileMeta) -> Result<(), ConsentError> {
    if meta.uid != 0 {
        Err(ConsentError::NotRootOwned)
    } else if meta.mode & SHARED_WRITE_BITS != 0 {
        Err(ConsentError::SharedWritable)
    } else {
        Ok(())
    }
}

/// What a consent file grants.
pub open spec fn granted(file: ConsentFile) -> Result<ConsentScopes, ConsentError> {
    if file.version != SUPPORTED_VERSION {
        Err(ConsentError::UnsupportedVersion { found: file.version })
    } else if !file.agreed {
        Ok(ConsentScopes::nothing())
    } else {
        Ok(file.scopes)
    }
}

/// What the consent file on disk grants: `meta` is `None` if there is no such
/// file.
pub open spec fn consent(meta: Option<FileMeta>, read: ConsentRead) -> Result<
    ConsentScopes,
    ConsentError,
> {
    match meta {
        None => Err(ConsentError::Missing),
        Some(meta) => match permissions(meta) {
            Err(error) => Err(error),
            Ok(_) => match read {
                ConsentRead::Unreadable => Err(ConsentError::Unreadable),
                ConsentRead::Malformed => Err(ConsentError::Malformed),
                ConsentRead::Parsed(file) => granted(file),
            },
        },
    }
}

/// Checks that only root can have written the file.
pub fn check_permissions(meta: FileMeta) -> (checked: Result<(), ConsentError>)
    ensures
        checked == permissions(meta),
{
    if meta.uid != 0 {
        return Err(ConsentError::NotRootOwned);
    }
    if meta.mode & SHARED_WRITE_BITS != 0 {
        return Err(ConsentError::SharedWritable);
    }
    Ok(())
}

/// What a consent file grants.
pub fn evaluate(file: &ConsentFile) -> (scopes: Result<ConsentScopes, ConsentError>)
    ensures
        scopes == granted(*file),
{
    if file.version != SUPPORTED_VERSION {
        return Err(ConsentError::UnsupportedVersion { found: file.version });
    }
    if !file.agreed {
        return Ok(ConsentScopes::none());
    }
    Ok(file.scopes)
}

/// What the consent file on disk grants, or why it grants nothing.
pub fn load_inner(meta: Option<FileMeta>, read: &ConsentRead) -> (scopes: Result<
    ConsentScopes,
    ConsentError,
>)
    ensures
        scopes == consent(meta, *read),
{
    match meta {
        None => Err(ConsentError::Missing),
        Some(meta) => match check_permissions(meta) {
            Err(error) => Err(error),
            Ok(_) => match read {
                ConsentRead::Unreadable => Err(ConsentError::Unreadable),
                ConsentRead::Malformed => Err(ConsentError::Malformed),
                ConsentRead::Parsed(file) => evaluate(file),
            },
        },
    }
}

/// What the consent file on disk grants; nothing if it is not valid.
pub fn load(meta: Option<FileMeta>, read: &ConsentRead) -> (scopes: ConsentScopes)
    ensures
        scopes == (match consent(meta, *read) {
            Ok(scopes) => scopes,
            Err(_) => ConsentScopes::nothing(),
        }),
{
    match load_inner(meta, read) {
        Ok(scopes) => scopes,
        Err(_) => ConsentScopes::none(),
    }
}

impl ConsentError {
    /// The reason, in words.
    pub open spec fn words(self) -> Seq<char> {
        match self {
            ConsentError::Missing => "consent file does not exist or cannot be examined"@,
            ConsentError::NotRootOwned => "consent file is not root-owned"@,
            ConsentError::SharedWritable => "consent file is group/world-writable"@,
            ConsentError::Unreadable => "consent file cannot be read"@,
            ConsentError::Malformed => "consent file is malformed"@,
            ConsentError::UnsupportedVersion { found } => "unsupported consent file version "@
                + decimal_digits(found as nat) + " (expected "@ + decimal_digits(
                SUPPORTED_VERSION as nat,
            ) + ")"@,
        }
    }

    pub fn message(&self) -> (text: String)
        ensures
            text@ == self.words(),
    {
        match self {
            ConsentError::Missing => {
                "consent file does not exist or cannot be examined".to_string()
            },
            ConsentError::NotRootOwned => "consent file is not root-owned".to_string(),
            ConsentError::SharedWritable => "consent file is group/world-writable".to_string(),
            ConsentError::Unreadable => "consent file cannot be read".to_string(),
            ConsentError::Malformed => "consent file is malformed".to_string(),
            ConsentError::UnsupportedVersion { found } => {
                let head: String = "unsupported consent file version ".to_string();
                let mid: String = head.concat(decimal(*found as u64).as_str());
                let open: String = mid.concat(" (expected ");
                let close: String = open.concat(decimal(SUPPORTED_VERSION as u64).as_str());
                close.concat(")")
            },
        }
    }
}

/// In doubt nothing is granted: something is granted only by a file that exists, that
/// root owns and nobody else can write, that parses, has the supported version
/// and says that the user agreed to it.
pub proof fn law_consent_needs_everything(meta: Option<FileMeta>, read: ConsentRead)
    requires
        consent(meta, read) matches Ok(scopes) && scopes.device_inventory,
    ensures
        meta matches Some(m) && m.uid == 0 && m.mode & SHARED_WRITE_BITS == 0,
        read matches ConsentRead::Parsed(file) && file.version == SUPPORTED_VERSION && file.agreed
            && file.scopes.device_inventory,
{
}

/// Declining is declining: a valid file without agreement grants nothing,
/// whatever scopes it lists.
pub proof fn law_declined_grants_nothing(meta: FileMeta, file: ConsentFile)
    requires
        permissions(meta) is Ok,
        file.version == SUPPORTED_VERSION,
        !file.agreed,
    ensures
        consent(Some(meta), ConsentRead::Parsed(file)) == Ok::<ConsentScopes, ConsentError>(
            ConsentScopes::nothing(),
        ),
{
}

/// A valid agreement counts: a file that root owns and nobody else may write, of
/// the first version, in which the user agreed, grants exactly the scopes that it
/// lists.
pub proof fn law_valid_agreement_is_granted(meta: FileMeta, file: ConsentFile)
    requires
        meta.uid == 0,
        meta.mode & 0o022 == 0,
        file.version == 1,
        file.agreed,
    ensures
        consent(Some(meta), ConsentRead::Parsed(file)) == Ok::<ConsentScopes, ConsentError>(
            file.scopes,
        ),
{
}

/// Every fault has its own error, and the first one in this order is told: no
/// file, not root's, writable by others, unreadable, malformed, of another
/// version.
pub proof fn law_first_fault_is_told(meta: FileMeta, read: ConsentRead)
    ensures
        consent(None, read) == Err::<ConsentScopes, ConsentError>(ConsentError::Missing),
        meta.uid != 0 ==> consent(Some(meta), read) == Err::<ConsentScopes, ConsentError>(
            ConsentError::NotRootOwned,
        ),
        meta.uid == 0 && meta.mode & 0o022 != 0 ==> consent(Some(meta), read) == Err::<
            ConsentScopes,
            ConsentError,
        >(ConsentError::SharedWritable),
        meta.uid == 0 && meta.mode & 0o022 == 0 && read is Unreadable ==> consent(Some(meta), read)
            == Err::<ConsentScopes, ConsentError>(ConsentError::Unreadable),
        meta.uid == 0 && meta.mode & 0o022 == 0 && read is Malformed ==> consent(Some(meta), read)
            == Err::<ConsentScopes, ConsentError>(ConsentError::Malformed),
        meta.uid == 0 && meta.mode & 0o022 == 0 && read is Parsed && read->0.version != 1
            ==> consent(Some(meta), read) == Err::<ConsentScopes, ConsentError>(
            ConsentError::UnsupportedVersion { found: read->0.version },
        ),
{
}

/// A file without agreement grants no scope at all.
pub proof fn law_nothing_is_no_scope()
    ensures
        !ConsentScopes::nothing().device_inventory,
{
}

} // verus!
