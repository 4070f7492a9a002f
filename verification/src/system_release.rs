//! Signed releases of the platform.
use base64::engine::general_purpose::STANDARD;
use base64::Engine;
use ring::signature::{UnparsedPublicKey, ED25519};
use sha2::{Digest, Sha256};
use vstd::prelude::*;
use crate::device::{is_supported_os_version, DeviceProduct};
use crate::device::supported_version;
use crate::text::{byte_count, has_prefix, text_admitted, text_eq, text_is_blank, CharClass};
use crate::text::{all_admitted, byte_len, is_blank, texts};

verus! {

pub const SYSTEM_RELEASE_SCHEMA_V1: u32 = 1;

/// A release of the platform.
#[derive(Clone, Debug, PartialEq, Eq)]
pub struct SystemReleaseV1 {
    pub schema: u32,
    pub release_id: String,
    pub version: String,
    pub sequence: u64,
    pub supported_devices: Vec<DeviceProduct>,
    pub supported_os: Vec<String>,
    pub required_remagic_api: u32,
    pub requires_reboot: bool,
    pub archive: SystemArtifactV1,
    pub generated_at_unix: u64,
    pub expires_at_unix: u64,
}

/// The archive of a release.
#[derive(Clone, Debug, PartialEq, Eq)]
pub struct SystemArtifactV1 {
    pub url: String,
    pub sha256: String,
    pub size_bytes: u64,
}

/// The signature on a release.
#[derive(Clone, Debug, PartialEq, Eq)]
pub struct SystemReleaseSignatureV1 {
    pub schema: u32,
    pub key_id: String,
    pub algorithm: String,
    pub release_sha256: String,
    pub signature: String,
}

/// A key that releases may be signed with.
#[derive(Clone, Debug, PartialEq, Eq)]
pub struct SystemTrustedKeyV1 {
    pub key_id: String,
    pub public_key: String,
}

/// A release whose signature holds.
#[derive(Clone, Debug, PartialEq, Eq)]
pub struct VerifiedSystemReleaseV1 {
    pub release: SystemReleaseV1,
    pub key_id: String,
    pub digest: String,
}

/// Why a release is refused.
#[derive(Debug, PartialEq, Eq)]
pub enum SystemReleaseError {
    InvalidRelease(String),
    InvalidSignature(String),
    UnsupportedSignature,
    DigestMismatch,
    UntrustedKey(String),
    InvalidKey,
    InvalidSignatureEncoding,
    VerificationFailed,
    IncompatibleDevice,
    InvalidArtifact,
}

/// The same reasons over texts.
pub enum ReleaseFault {
    InvalidRelease(Seq<char>),
    InvalidSignature(Seq<char>),
    UnsupportedSignature,
    DigestMismatch,
    UntrustedKey(Seq<char>),
    InvalidKey,
    InvalidSignatureEncoding,
    VerificationFailed,
    IncompatibleDevice,
    InvalidArtifact,
}

impl View for SystemReleaseError {
    type V = ReleaseFault;

    open spec fn view(&self) -> ReleaseFault {
        match self {
            SystemReleaseError::InvalidRelease(a) => ReleaseFault::InvalidRelease(a@),
            SystemReleaseError::InvalidSignature(a) => ReleaseFault::InvalidSignature(a@),
            SystemReleaseError::UnsupportedSignature => ReleaseFault::UnsupportedSignature,
            SystemReleaseError::DigestMismatch => ReleaseFault::DigestMismatch,
            SystemReleaseError::UntrustedKey(a) => ReleaseFault::UntrustedKey(a@),
            SystemReleaseError::InvalidKey => ReleaseFault::InvalidKey,
            SystemReleaseError::InvalidSignatureEncoding => ReleaseFault::InvalidSignatureEncoding,
            SystemReleaseError::VerificationFailed => ReleaseFault::VerificationFailed,
            SystemReleaseError::IncompatibleDevice => ReleaseFault::IncompatibleDevice,
            SystemReleaseError::InvalidArtifact => ReleaseFault::InvalidArtifact,
        }
    }
}

/// The SHA-256 digest of a byte string.
pub uninterp spec fn sha256_digest(bytes: Seq<u8>) -> Seq<u8>;

/// The bytes that a base64 text stands for, where it is one.
pub uninterp spec fn base64_bytes(text: Seq<char>) -> Option<Seq<u8>>;

/// Whether an Ed25519 signature of a message holds under a public key.
pub uninterp spec fn ed25519_holds(key: Seq<u8>, message: Seq<u8>, signature: Seq<u8>) -> bool;

/// `Sha256::digest` of the crate sha2 gives the SHA-256 digest of its
/// argument, which has 32 bytes.
#[verifier::external_body]
fn sha256(bytes: &[u8]) -> (digest: Vec<u8>)
    ensures
        digest@ == sha256_digest(bytes@),
        digest@.len() == 32,
{
    Sha256::digest(bytes).to_vec()
}

/// `decode` of the crate base64, with its standard engine, gives the bytes
/// that a text stands for, and an error where it stands for none.
#[verifier::external_body]
fn base64_decode(text: &str) -> (r: Option<Vec<u8>>)
    ensures
        match r {
            Some(bytes) => base64_bytes(text@) == Some(bytes@),
            None => base64_bytes(text@) is None,
        },
{
    STANDARD.decode(text).ok()
}

/// `verify` of an unparsed Ed25519 public key of the crate ring succeeds
/// exactly where the signature of the message holds under the key.
#[verifier::external_body]
fn ed25519_verify(key: &[u8], message: &[u8], signature: &[u8]) -> (r: bool)
    ensures
        r == ed25519_holds(key@, message@, signature@),
{
    UnparsedPublicKey::new(&ED25519, key).verify(message, signature).is_ok()
}

/// The lowercase hexadecimal digit of a number below sixteen.
pub open spec fn hex_digit(d: int) -> char {
    if d < 10 {
        ('0' as int + d) as char
    } else {
        ('a' as int + d - 10) as char
    }
}

/// The bytes in lowercase hexadecimal, two digits each.
pub open spec fn hex(bytes: Seq<u8>) -> Seq<char>
    decreases bytes.len(),
{
    if bytes.len() == 0 {
        Seq::empty()
    } else {
        hex(bytes.drop_last()).push(hex_digit(bytes.last() as int / 16)).push(
            hex_digit(bytes.last() as int % 16),
        )
    }
}

/// The lowercase hexadecimal digit of a number below sixteen.
fn hex_char(d: u8) -> (c: char)
    requires
        d < 16,
    ensures
        c == hex_digit(d as int),
{
    if d < 10 {
        (48 + d) as char
    } else {
        (97 + (d - 10)) as char
    }
}

/// Writes bytes in lowercase hexadecimal, two digits each.
pub fn hex_text(bytes: &[u8]) -> (r: String)
    ensures
        r@ == hex(bytes@),
{
    let mut r = String::new();
    let mut i: usize = 0;
    assert(bytes@.take(0) =~= Seq::<u8>::empty());
    while i < bytes.len()
        invariant
            i <= bytes.len(),
            r@ == hex(bytes@.take(i as int)),
        decreases bytes.len() - i,
    {
        assert(bytes@.take(i + 1).drop_last() =~= bytes@.take(i as int));
        let byte: u8 = bytes[i];
        r.push(hex_char(byte / 16));
        r.push(hex_char(byte % 16));
        i = i + 1;
    }
    assert(bytes@.take(i as int) =~= bytes@);
    r
}

impl SystemReleaseV1 {
    /// The metadata make sense at this time.
    pub open spec fn metadata_sound(&self, now_unix: u64, minimum_sequence: u64) -> bool {
        &&& self.schema == SYSTEM_RELEASE_SCHEMA_V1
        &&& !is_blank(self.release_id@)
        &&& !is_blank(self.version@)
        &&& self.sequence >= minimum_sequence
        &&& self.required_remagic_api != 0
        &&& self.generated_at_unix <= now_unix < self.expires_at_unix
    }

    /// The release is meant for this device and its software, which is of the
    /// supported series whatever the release lists.
    pub open spec fn fits(&self, device: DeviceProduct, os_version: Seq<char>) -> bool {
        &&& self.supported_devices@.contains(device)
        &&& self.supported_os@.len() == 0 || exists|i: int|
            0 <= i < self.supported_os@.len() && is_or_extends(
                os_version,
                (#[trigger] self.supported_os@[i])@,
            )
        &&& supported_version(os_version)
    }

    /// The archive is one of the project's own, with a size and a digest.
    pub open spec fn artifact_sound(&self) -> bool {
        &&& "https://github.com/aporicho/remagic/releases/download/"@.is_prefix_of(self.archive.url@)
        &&& self.archive.size_bytes != 0
        &&& byte_len(self.archive.sha256@) == 64
        &&& all_admitted(CharClass::Hex, self.archive.sha256@)
    }

    /// The first fault of a release on this device at this time.
    pub open spec fn fault(
        &self,
        device: DeviceProduct,
        os_version: Seq<char>,
        now_unix: u64,
        minimum_sequence: u64,
    ) -> Option<ReleaseFault> {
        if !self.metadata_sound(now_unix, minimum_sequence) {
            Some(ReleaseFault::InvalidRelease("metadata or sequence is invalid"@))
        } else if !self.fits(device, os_version) {
            Some(ReleaseFault::IncompatibleDevice)
        } else if !self.artifact_sound() {
            Some(ReleaseFault::InvalidArtifact)
        } else {
            None
        }
    }

    fn supports_device(&self, device: DeviceProduct) -> (r: bool)
        ensures
            r == self.supported_devices@.contains(device),
    {
        let mut i: usize = 0;
        while i < self.supported_devices.len()
            invariant
                i <= self.supported_devices@.len(),
                forall|j: int| 0 <= j < i ==> self.supported_devices@[j] != device,
            decreases self.supported_devices@.len() - i,
        {
            if self.supported_devices[i] == device {
                return true;
            }
            i = i + 1;
        }
        false
    }

    fn supports_os(&self, os_version: &str) -> (r: bool)
        ensures
            r == exists|i: int|
                0 <= i < self.supported_os@.len() && is_or_extends(
                    os_version@,
                    (#[trigger] self.supported_os@[i])@,
                ),
    {
        let mut i: usize = 0;
        while i < self.supported_os.len()
            invariant
                i <= self.supported_os@.len(),
                forall|j: int|
                    0 <= j < i ==> !is_or_extends(os_version@, (#[trigger] self.supported_os@[j])@),
            decreases self.supported_os@.len() - i,
        {
            let mut dotted = self.supported_os[i].clone();
            dotted.push('.');
            if text_eq(os_version, self.supported_os[i].as_str()) || has_prefix(
                os_version,
                dotted.as_str(),
            ) {
                assert(is_or_extends(os_version@, self.supported_os@[i as int]@));
                return true;
            }
            i = i + 1;
        }
        false
    }

    /// Checks a release on this device at this time.
    pub fn validate(
        &self,
        device: DeviceProduct,
        os_version: &str,
        now_unix: u64,
        minimum_sequence: u64,
    ) -> (r: Result<(), SystemReleaseError>)
        ensures
            match r {
                Ok(_) => self.fault(device, os_version@, now_unix, minimum_sequence) is None,
                Err(e) => self.fault(device, os_version@, now_unix, minimum_sequence) == Some(e@),
            },
    {
        if self.schema != SYSTEM_RELEASE_SCHEMA_V1 || text_is_blank(self.release_id.as_str())
            || text_is_blank(self.version.as_str()) || self.sequence < minimum_sequence
            || self.required_remagic_api == 0 || self.generated_at_unix >= self.expires_at_unix
            || now_unix < self.generated_at_unix || now_unix >= self.expires_at_unix {
            return Err(
                SystemReleaseError::InvalidRelease("metadata or sequence is invalid".to_owned()),
            );
        }
        if !self.supports_device(device) || (self.supported_os.len() > 0 && !self.supports_os(
            os_version,
        )) || !is_supported_os_version(os_version) {
            return Err(SystemReleaseError::IncompatibleDevice);
        }
        if !has_prefix(
            self.archive.url.as_str(),
            "https://github.com/aporicho/remagic/releases/download/",
        ) || self.archive.size_bytes == 0 || byte_count(self.archive.sha256.as_str()) != 64
            || !text_admitted(CharClass::Hex, self.archive.sha256.as_str()) {
            return Err(SystemReleaseError::InvalidArtifact);
        }
        Ok(())
    }
}

/// A version, or one that continues it after a dot.
pub open spec fn is_or_extends(version: Seq<char>, base: Seq<char>) -> bool {
    version == base || base.push('.').is_prefix_of(version)
}

/// The place of the first trusted key with an id.
pub open spec fn is_first_key(keys: Seq<SystemTrustedKeyV1>, key_id: Seq<char>, i: int) -> bool {
    &&& 0 <= i < keys.len()
    &&& keys[i].key_id@ == key_id
    &&& forall|j: int| 0 <= j < i ==> (#[trigger] keys[j]).key_id@ != key_id
}

/// Whether a key with this id is trusted.
pub open spec fn key_is_trusted(keys: Seq<SystemTrustedKeyV1>, key_id: Seq<char>) -> bool {
    exists|i: int| 0 <= i < keys.len() && (#[trigger] keys[i]).key_id@ == key_id
}

/// The first fault of a release and its signature before any key is used.
pub open spec fn claims_fault(
    release: Result<SystemReleaseV1, String>,
    signature: Result<SystemReleaseSignatureV1, String>,
    digest: Seq<u8>,
    keys: Seq<SystemTrustedKeyV1>,
    now_unix: u64,
    minimum_sequence: u64,
    device: DeviceProduct,
    os_version: Seq<char>,
) -> Option<ReleaseFault> {
    match release {
        Err(message) => Some(ReleaseFault::InvalidRelease(message@)),
        Ok(release) => if release.fault(device, os_version, now_unix, minimum_sequence) is Some {
            release.fault(device, os_version, now_unix, minimum_sequence)
        } else {
            match signature {
                Err(message) => Some(ReleaseFault::InvalidSignature(message@)),
                Ok(signature) => if signature.schema != SYSTEM_RELEASE_SCHEMA_V1
                    || signature.algorithm@ != "ed25519"@ {
                    Some(ReleaseFault::UnsupportedSignature)
                } else if signature.release_sha256@ != hex(digest) {
                    Some(ReleaseFault::DigestMismatch)
                } else if !key_is_trusted(keys, signature.key_id@) {
                    Some(ReleaseFault::UntrustedKey(signature.key_id@))
                } else {
                    None
                },
            }
        },
    }
}

/// Checks a release and what its signature claims, given the digest of the
/// release's bytes. On success the place of the signing key is given.
pub fn check_claims(
    release: Result<SystemReleaseV1, String>,
    signature: Result<SystemReleaseSignatureV1, String>,
    digest: &[u8],
    trusted_keys: &[SystemTrustedKeyV1],
    now_unix: u64,
    minimum_sequence: u64,
    device: DeviceProduct,
    os_version: &str,
) -> (r: Result<(SystemReleaseV1, SystemReleaseSignatureV1, usize), SystemReleaseError>)
    ensures
        match r {
            Ok((checked, claims, key)) => {
                &&& claims_fault(
                    release,
                    signature,
                    digest@,
                    trusted_keys@,
                    now_unix,
                    minimum_sequence,
                    device,
                    os_version@,
                ) is None
                &&& release == Ok::<SystemReleaseV1, String>(checked)
                &&& signature == Ok::<SystemReleaseSignatureV1, String>(claims)
                &&& is_first_key(trusted_keys@, claims.key_id@, key as int)
            },
            Err(e) => claims_fault(
                release,
                signature,
                digest@,
                trusted_keys@,
                now_unix,
                minimum_sequence,
                device,
                os_version@,
            ) == Some(e@),
        },
{
    let checked = match release {
        Ok(release) => release,
        Err(message) => return Err(SystemReleaseError::InvalidRelease(message)),
    };
    if let Err(e) = checked.validate(device, os_version, now_unix, minimum_sequence) {
        return Err(e);
    }
    let claims = match signature {
        Ok(signature) => signature,
        Err(message) => return Err(SystemReleaseError::InvalidSignature(message)),
    };
    if claims.schema != SYSTEM_RELEASE_SCHEMA_V1 || !text_eq(claims.algorithm.as_str(), "ed25519") {
        return Err(SystemReleaseError::UnsupportedSignature);
    }
    if !text_eq(claims.release_sha256.as_str(), hex_text(digest).as_str()) {
        return Err(SystemReleaseError::DigestMismatch);
    }
    let mut i: usize = 0;
    while i < trusted_keys.len()
        invariant
            i <= trusted_keys.len(),
            release == Ok::<SystemReleaseV1, String>(checked),
            signature == Ok::<SystemReleaseSignatureV1, String>(claims),
            checked.fault(device, os_version@, now_unix, minimum_sequence) is None,
            claims.schema == SYSTEM_RELEASE_SCHEMA_V1,
            claims.algorithm@ == "ed25519"@,
            claims.release_sha256@ == hex(digest@),
            forall|j: int| 0 <= j < i ==> (#[trigger] trusted_keys@[j]).key_id@ != claims.key_id@,
        decreases trusted_keys.len() - i,
    {
        if text_eq(trusted_keys[i].key_id.as_str(), claims.key_id.as_str()) {
            assert(trusted_keys@[i as int].key_id@ == claims.key_id@);
            return Ok((checked, claims, i));
        }
        i = i + 1;
    }
    Err(SystemReleaseError::UntrustedKey(claims.key_id.clone()))
}

impl VerifiedSystemReleaseV1 {
    /// Concludes from the decoded key, the decoded signature and whether the
    /// signature holds.
    pub fn conclude(
        release: SystemReleaseV1,
        signature: SystemReleaseSignatureV1,
        digest: &[u8],
        key_decoded: bool,
        signature_decoded: bool,
        holds: bool,
    ) -> (r: Result<VerifiedSystemReleaseV1, SystemReleaseError>)
        ensures
            match r {
                Ok(verified) => {
                    &&& key_decoded && signature_decoded && holds
                    &&& verified.release == release
                    &&& verified.key_id == signature.key_id
                    &&& verified.digest@ == hex(digest@)
                },
                Err(e) => e@ == (if !key_decoded {
                    ReleaseFault::InvalidKey
                } else if !signature_decoded {
                    ReleaseFault::InvalidSignatureEncoding
                } else {
                    ReleaseFault::VerificationFailed
                }) && !(key_decoded && signature_decoded && holds),
            },
    {
        if !key_decoded {
            return Err(SystemReleaseError::InvalidKey);
        }
        if !signature_decoded {
            return Err(SystemReleaseError::InvalidSignatureEncoding);
        }
        if !holds {
            return Err(SystemReleaseError::VerificationFailed);
        }
        Ok(
            VerifiedSystemReleaseV1 {
                release,
                key_id: signature.key_id,
                digest: hex_text(digest),
            },
        )
    }

    /// Verifies the bytes of a release, together with what they and the bytes
    /// of its signature parse to, against the trusted keys.
    pub fn verify(
        release_bytes: &[u8],
        release: Result<SystemReleaseV1, String>,
        signature: Result<SystemReleaseSignatureV1, String>,
        trusted_keys: &[SystemTrustedKeyV1],
        now_unix: u64,
        minimum_sequence: u64,
        device: DeviceProduct,
        os_version: &str,
    ) -> (r: Result<VerifiedSystemReleaseV1, SystemReleaseError>)
        ensures
            verification(
                release_bytes@,
                release,
                signature,
                trusted_keys@,
                now_unix,
                minimum_sequence,
                device,
                os_version@,
                r,
            ),
    {
        let digest = sha256(release_bytes);
        let (release, signature, key) = match check_claims(
            release,
            signature,
            &digest,
            trusted_keys,
            now_unix,
            minimum_sequence,
            device,
            os_version,
        ) {
            Ok(checked) => checked,
            Err(e) => return Err(e),
        };
        let public_key = base64_decode(trusted_keys[key].public_key.as_str());
        let signature_value = base64_decode(signature.signature.as_str());
        let holds = match (&public_key, &signature_value) {
            (Some(public_key), Some(value)) => ed25519_verify(public_key, release_bytes, value),
            _ => false,
        };
        Self::conclude(
            release,
            signature,
            &digest,
            public_key.is_some(),
            signature_value.is_some(),
            holds,
        )
    }
}

/// A signature of these bytes holds under a base64 key.
pub open spec fn signed_by(bytes: Seq<u8>, public_key: Seq<char>, signature: Seq<char>) -> bool {
    &&& base64_bytes(public_key) is Some
    &&& base64_bytes(signature) is Some
    &&& ed25519_holds(base64_bytes(public_key)->0, bytes, base64_bytes(signature)->0)
}

/// What verification gives: the release where every check passes, or the
/// first fault.
pub open spec fn verification(
    bytes: Seq<u8>,
    release: Result<SystemReleaseV1, String>,
    signature: Result<SystemReleaseSignatureV1, String>,
    keys: Seq<SystemTrustedKeyV1>,
    now_unix: u64,
    minimum_sequence: u64,
    device: DeviceProduct,
    os_version: Seq<char>,
    r: Result<VerifiedSystemReleaseV1, SystemReleaseError>,
) -> bool {
    let claims = claims_fault(
        release,
        signature,
        sha256_digest(bytes),
        keys,
        now_unix,
        minimum_sequence,
        device,
        os_version,
    );
    match r {
        Ok(verified) => {
            &&& claims is None
            &&& release == Ok::<SystemReleaseV1, String>(verified.release)
            &&& signature is Ok && verified.key_id == signature->Ok_0.key_id
            &&& verified.digest@ == hex(sha256_digest(bytes))
            &&& exists|i: int|
                is_first_key(keys, verified.key_id@, i) && signed_by(
                    bytes,
                    (#[trigger] keys[i]).public_key@,
                    signature->Ok_0.signature@,
                )
        },
        Err(e) => if claims is Some {
            claims == Some(e@)
        } else {
            exists|i: int|
                {
                    &&& is_first_key(keys, signature->Ok_0.key_id@, i)
                    &&& !signed_by(
                        bytes,
                        (#[trigger] keys[i]).public_key@,
                        signature->Ok_0.signature@,
                    )
                    &&& e@ == (if base64_bytes(keys[i].public_key@) is None {
                        ReleaseFault::InvalidKey
                    } else if base64_bytes(signature->Ok_0.signature@) is None {
                        ReleaseFault::InvalidSignatureEncoding
                    } else {
                        ReleaseFault::VerificationFailed
                    })
                }
        },
    }
}

/// Whatever verification accepts is signed, over exactly the given bytes, by
/// a trusted key, is not older than the minimum sequence and is meant for the
/// device at this time. The software of the device is of the supported series.
pub proof fn verified_releases_are_signed_current_and_fitting(
    bytes: Seq<u8>,
    release: Result<SystemReleaseV1, String>,
    signature: Result<SystemReleaseSignatureV1, String>,
    keys: Seq<SystemTrustedKeyV1>,
    now_unix: u64,
    minimum_sequence: u64,
    device: DeviceProduct,
    os_version: Seq<char>,
    verified: VerifiedSystemReleaseV1,
)
    requires
        verification(
            bytes,
            release,
            signature,
            keys,
            now_unix,
            minimum_sequence,
            device,
            os_version,
            Ok(verified),
        ),
    ensures
        exists|i: int|
            0 <= i < keys.len() && signed_by(
                bytes,
                (#[trigger] keys[i]).public_key@,
                signature->Ok_0.signature@,
            ),
        verified.release.sequence >= minimum_sequence,
        verified.release.generated_at_unix <= now_unix < verified.release.expires_at_unix,
        verified.release.fits(device, os_version),
        supported_version(os_version),
{
}

impl ReleaseFault {
    /// The reason in words.
    pub open spec fn text(self) -> Seq<char> {
        match self {
            ReleaseFault::InvalidRelease(a) => "invalid system release: "@ + a,
            ReleaseFault::InvalidSignature(a) => "invalid release signature: "@ + a,
            ReleaseFault::UnsupportedSignature => "unsupported release signature"@,
            ReleaseFault::DigestMismatch => "release digest does not match signature"@,
            ReleaseFault::UntrustedKey(a) => "system release signing key is not trusted: "@ + a,
            ReleaseFault::InvalidKey => "system release public key is invalid"@,
            ReleaseFault::InvalidSignatureEncoding => "system release signature encoding is invalid"@,
            ReleaseFault::VerificationFailed => "system release signature verification failed"@,
            ReleaseFault::IncompatibleDevice => "system release is incompatible with this device"@,
            ReleaseFault::InvalidArtifact => "system release artifact metadata is invalid"@,
        }
    }
}

impl SystemReleaseError {
    /// The reason in words.
    pub fn message(&self) -> (r: String)
        ensures
            r@ == self@.text(),
    {
        match self {
            SystemReleaseError::InvalidRelease(a) => {
                let mut message = "invalid system release: ".to_owned();
                message.append(a.as_str());
                message
            },
            SystemReleaseError::InvalidSignature(a) => {
                let mut message = "invalid release signature: ".to_owned();
                message.append(a.as_str());
                message
            },
            SystemReleaseError::UnsupportedSignature => "unsupported release signature".to_owned(),
            SystemReleaseError::DigestMismatch => "release digest does not match signature".to_owned(),
            SystemReleaseError::UntrustedKey(a) => {
                let mut message = "system release signing key is not trusted: ".to_owned();
                message.append(a.as_str());
                message
            },
            SystemReleaseError::InvalidKey => "system release public key is invalid".to_owned(),
            SystemReleaseError::InvalidSignatureEncoding => "system release signature encoding is invalid".to_owned(),
            SystemReleaseError::VerificationFailed => "system release signature verification failed".to_owned(),
            SystemReleaseError::IncompatibleDevice => "system release is incompatible with this device".to_owned(),
            SystemReleaseError::InvalidArtifact => "system release artifact metadata is invalid".to_owned(),
        }
    }
}

/// A release is installed exactly where it is of the known schema, named and numbered, not older
/// than what is required, in force now, made for this machine and its software, and its archive
/// comes from the project's own downloads with a size and a checksum.
pub proof fn sound_releases_are_accepted(
    release: SystemReleaseV1,
    device: DeviceProduct,
    os_version: Seq<char>,
    now_unix: u64,
    minimum_sequence: u64,
)
    ensures
        release.fault(device, os_version, now_unix, minimum_sequence) is None <==> {
            &&& release.schema == 1
            &&& !is_blank(release.release_id@)
            &&& !is_blank(release.version@)
            &&& release.sequence >= minimum_sequence
            &&& release.required_remagic_api != 0
            &&& release.generated_at_unix <= now_unix
            &&& now_unix < release.expires_at_unix
            &&& release.supported_devices@.contains(device)
            &&& os_version == "3.27"@ || "3.27."@.is_prefix_of(os_version)
            &&& release.supported_os@.len() == 0 || exists|i: int|
                0 <= i < release.supported_os@.len() && (os_version
                    == (#[trigger] release.supported_os@[i])@ || release.supported_os@[i]@.push(
                    '.',
                ).is_prefix_of(os_version))
            &&& "https://github.com/aporicho/remagic/releases/download/"@.is_prefix_of(
                release.archive.url@,
            )
            &&& release.archive.size_bytes != 0
            &&& byte_len(release.archive.sha256@) == 64
            &&& all_admitted(CharClass::Hex, release.archive.sha256@)
        },
{
    if exists|i: int|
        0 <= i < release.supported_os@.len() && (os_version == (#[trigger] release.supported_os@[i])@
            || release.supported_os@[i]@.push('.').is_prefix_of(os_version)) {
        let i = choose|i: int|
            0 <= i < release.supported_os@.len() && (os_version
                == (#[trigger] release.supported_os@[i])@ || release.supported_os@[i]@.push(
                '.',
            ).is_prefix_of(os_version));
        assert(is_or_extends(os_version, release.supported_os@[i]@));
    }
}

/// A release that is accepted stays accepted on a device that asks for less, and is refused once
/// it has expired or a later one is required.
pub proof fn releases_expire_and_are_superseded(
    release: SystemReleaseV1,
    device: DeviceProduct,
    os_version: Seq<char>,
    now_unix: u64,
    minimum_sequence: u64,
    other: u64,
)
    requires
        release.fault(device, os_version, now_unix, minimum_sequence) is None,
    ensures
        other <= minimum_sequence ==> release.fault(device, os_version, now_unix, other) is None,
        other > release.sequence ==> release.fault(device, os_version, now_unix, other) matches Some(
            ReleaseFault::InvalidRelease(_),
        ),
        other >= release.expires_at_unix ==> release.fault(
            device,
            os_version,
            other,
            minimum_sequence,
        ) matches Some(ReleaseFault::InvalidRelease(_)),
{
}

/// A release's claims hold exactly where the release is sound and its signature is of the known
/// kind, is about these very bytes and names a trusted key.
pub proof fn claims_hold_for_signed_bytes(
    release: Result<SystemReleaseV1, String>,
    signature: Result<SystemReleaseSignatureV1, String>,
    digest: Seq<u8>,
    keys: Seq<SystemTrustedKeyV1>,
    now_unix: u64,
    minimum_sequence: u64,
    device: DeviceProduct,
    os_version: Seq<char>,
)
    ensures
        claims_fault(
            release,
            signature,
            digest,
            keys,
            now_unix,
            minimum_sequence,
            device,
            os_version,
        ) is None <==> {
            &&& release is Ok
            &&& release->Ok_0.fault(device, os_version, now_unix, minimum_sequence) is None
            &&& signature is Ok
            &&& signature->Ok_0.schema == 1
            &&& signature->Ok_0.algorithm@ == "ed25519"@
            &&& signature->Ok_0.release_sha256@ == hex(digest)
            &&& exists|i: int|
                0 <= i < keys.len() && (#[trigger] keys[i]).key_id@ == signature->Ok_0.key_id@
        },
{
}

/// The value of a hexadecimal digit.
pub open spec fn hex_value(c: char) -> int {
    if '0' <= c <= '9' {
        c as int - '0' as int
    } else {
        c as int - 'a' as int + 10
    }
}

/// Each byte takes two lower-case hexadecimal digits, the higher one first, and the bytes stand in
/// their order.
pub proof fn bytes_take_two_digits_each(bytes: Seq<u8>)
    ensures
        hex(bytes).len() == 2 * bytes.len(),
        forall|i: int|
            0 <= i < bytes.len() ==> #[trigger] bytes[i] == 16 * hex_value(hex(bytes)[2 * i])
                + hex_value(hex(bytes)[2 * i + 1]),
        forall|i: int|
            0 <= i < hex(bytes).len() ==> '0' <= #[trigger] hex(bytes)[i] <= '9' || 'a' <= hex(
                bytes,
            )[i] <= 'f',
    decreases bytes.len(),
{
    if bytes.len() > 0 {
        let front = bytes.drop_last();
        bytes_take_two_digits_each(front);
        let n = front.len() as int;
        let b = bytes.last() as int;
        assert(hex(bytes)[2 * n] == hex_digit(b / 16));
        assert(hex(bytes)[2 * n + 1] == hex_digit(b % 16));
        assert(0 <= b / 16 < 16 && 0 <= b % 16 < 16);
        lemma_hex_digit(b / 16);
        lemma_hex_digit(b % 16);
        assert forall|i: int| 0 <= i < bytes.len() implies #[trigger] bytes[i] == 16 * hex_value(
            hex(bytes)[2 * i],
        ) + hex_value(hex(bytes)[2 * i + 1]) by {
            if i < n {
                assert(front[i] == bytes[i]);
                assert(hex(bytes)[2 * i] == hex(front)[2 * i]);
                assert(hex(bytes)[2 * i + 1] == hex(front)[2 * i + 1]);
            }
        }
        assert forall|i: int| 0 <= i < hex(bytes).len() implies '0' <= #[trigger] hex(bytes)[i]
            <= '9' || 'a' <= hex(bytes)[i] <= 'f' by {
            if i < 2 * n {
                assert(hex(bytes)[i] == hex(front)[i]);
            } else if i == 2 * n {
                lemma_hex_digit(b / 16);
            } else {
                lemma_hex_digit(b % 16);
            }
        }
    }
}

proof fn lemma_hex_digit(d: int)
    requires
        0 <= d < 16,
    ensures
        hex_value(hex_digit(d)) == d,
        '0' <= hex_digit(d) <= '9' || 'a' <= hex_digit(d) <= 'f',
{
    if d < 10 {
        assert(hex_digit(d) as int == '0' as int + d);
    } else {
        assert(hex_digit(d) as int == 'a' as int + d - 10);
    }
}

/// Different bytes have different digits.
pub proof fn digits_tell_bytes_apart(a: Seq<u8>, b: Seq<u8>)
    requires
        hex(a) == hex(b),
    ensures
        a == b,
{
    bytes_take_two_digits_each(a);
    bytes_take_two_digits_each(b);
    assert(a.len() == b.len());
    assert forall|i: int| 0 <= i < a.len() implies a[i] == b[i] by {
        assert(a[i] == 16 * hex_value(hex(a)[2 * i]) + hex_value(hex(a)[2 * i + 1]));
        assert(b[i] == 16 * hex_value(hex(b)[2 * i]) + hex_value(hex(b)[2 * i + 1]));
    }
    assert(a =~= b);
}

/// A release whose claims hold is verified exactly where the first trusted key of the name that
/// the signature gives is a key, the signature is one, and it holds for these very bytes; each
/// refusal says which of that fails.
pub proof fn releases_are_verified_with_the_key_they_name(
    bytes: Seq<u8>,
    release: Result<SystemReleaseV1, String>,
    signature: Result<SystemReleaseSignatureV1, String>,
    keys: Seq<SystemTrustedKeyV1>,
    now_unix: u64,
    minimum_sequence: u64,
    device: DeviceProduct,
    os_version: Seq<char>,
    r: Result<VerifiedSystemReleaseV1, SystemReleaseError>,
    i: int,
)
    requires
        verification(
            bytes,
            release,
            signature,
            keys,
            now_unix,
            minimum_sequence,
            device,
            os_version,
            r,
        ),
        claims_fault(
            release,
            signature,
            sha256_digest(bytes),
            keys,
            now_unix,
            minimum_sequence,
            device,
            os_version,
        ) is None,
        0 <= i < keys.len(),
        keys[i].key_id@ == signature->Ok_0.key_id@,
        forall|j: int| 0 <= j < i ==> (#[trigger] keys[j]).key_id@ != signature->Ok_0.key_id@,
    ensures
        ({
            let key = base64_bytes(keys[i].public_key@);
            let mark = base64_bytes(signature->Ok_0.signature@);
            &&& r is Ok <==> key is Some && mark is Some && ed25519_holds(key->0, bytes, mark->0)
            &&& r is Ok ==> release == Ok::<SystemReleaseV1, String>(r->Ok_0.release)
                && r->Ok_0.key_id == signature->Ok_0.key_id && r->Ok_0.digest@ == hex(
                sha256_digest(bytes),
            )
            &&& r is Err && key is None ==> r->Err_0@ == ReleaseFault::InvalidKey
            &&& r is Err && key is Some && mark is None ==> r->Err_0@
                == ReleaseFault::InvalidSignatureEncoding
            &&& r is Err && key is Some && mark is Some ==> r->Err_0@
                == ReleaseFault::VerificationFailed
        }),
{
    let name = signature->Ok_0.key_id@;
    assert(is_first_key(keys, name, i));
    assert forall|k: int| is_first_key(keys, name, k) implies k == i by {
        if k < i {
            assert(keys[k].key_id@ != name);
        } else if i < k {
            assert(keys[i].key_id@ != name);
        }
    }
}

} // verus!
