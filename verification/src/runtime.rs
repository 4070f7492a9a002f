//! Runtime policy of applications.
use vstd::prelude::*;
use vstd::utf8::encode_utf8;
use crate::manifest::AppId;
use crate::ordered::TextKey;
use crate::text::{byte_len, is_alnum, is_digit, is_lower};
use crate::text::{byte_count, char_is_alnum, char_is_digit, char_is_lower, chars_of};

pub mod environment;
pub mod error;
pub mod policy;
pub mod preflight;

pub use environment::{
    is_platform_reserved_environment, validate_environment_pair, LaunchEnvironment,
};
pub use error::RuntimeValidationError;
pub use policy::{
    BackgroundExecution, CertificatePolicy, FontPolicy, LocalePolicy, NetworkEnforcement,
    NetworkMode, NetworkPolicy, RuntimeDirectories, RuntimeRequirements, TimezonePolicy,
};
pub use preflight::{PreflightCheck, PreflightReport, PreflightStatus};

verus! {

/// Reserved QTFB key for the manager home surface.
pub const REMAGIC_HOME_QTFB_KEY: i32 = 245_209_900;

/// The FNV-1a hash of a byte string.
pub open spec fn fnv1a(bytes: Seq<u8>) -> u32
    decreases bytes.len(),
{
    if bytes.len() == 0 {
        0x811c_9dc5
    } else {
        (fnv1a(bytes.drop_last()) ^ (bytes.last() as u32)).wrapping_mul(0x0100_0193)
    }
}

/// The positive number in the low 31 bits of a hash, other than the key of
/// the home surface.
pub open spec fn key_of_hash(hash: u32) -> int {
    let low = (hash & 0x7fff_ffff) as int;
    let key = if low == 0 {
        1
    } else {
        low
    };
    if key == REMAGIC_HOME_QTFB_KEY {
        key + 1
    } else {
        key
    }
}

/// The QTFB key of an application.
pub open spec fn qtfb_key(app_id: Seq<char>) -> int {
    key_of_hash(fnv1a(encode_utf8("remagic-qtfb-v2:"@) + encode_utf8(app_id)))
}

/// Continues an FNV-1a hash over more bytes.
fn hash_more(start: u32, Ghost(before): Ghost<Seq<u8>>, bytes: &[u8]) -> (hash: u32)
    requires
        start == fnv1a(before),
    ensures
        hash == fnv1a(before + bytes@),
{
    let mut hash: u32 = start;
    let mut i: usize = 0;
    assert(before + bytes@.take(0) =~= before);
    while i < bytes.len()
        invariant
            i <= bytes.len(),
            hash == fnv1a(before + bytes@.take(i as int)),
        decreases bytes.len() - i,
    {
        let ghost next = before + bytes@.take(i + 1);
        assert(next.drop_last() =~= before + bytes@.take(i as int));
        assert(next.last() == bytes@[i as int]);
        hash = hash ^ (bytes[i] as u32);
        hash = hash.wrapping_mul(0x0100_0193);
        i = i + 1;
    }
    assert(bytes@.take(i as int) =~= bytes@);
    hash
}

/// Deterministically assigns a positive QTFB key to an application.
///
/// FNV-1a is used rather than a randomized hash: the same manifest must
/// receive the same key across processes, reboots, and releases. The home key
/// is skipped because it belongs exclusively to the home surface.
pub fn qtfb_key_for_app(app_id: &AppId) -> (key: i32)
    ensures
        key == qtfb_key(app_id@),
        key > 0,
        key != REMAGIC_HOME_QTFB_KEY,
{
    let prefix = "remagic-qtfb-v2:".as_bytes();
    let start = hash_more(0x811c_9dc5, Ghost(Seq::empty()), prefix);
    assert(Seq::<u8>::empty() + prefix@ =~= prefix@);
    let hash: u32 = hash_more(start, Ghost(prefix@), app_id.as_str().as_bytes());
    assert(hash & 0x7fff_ffff <= 0x7fff_ffff) by (bit_vector);
    let low: u32 = hash & 0x7fff_ffff;
    let key: i32 = if low == 0 {
        1
    } else {
        low as i32
    };
    if key == REMAGIC_HOME_QTFB_KEY {
        key + 1
    } else {
        key
    }
}

/// Every application has a positive QTFB key that is not the home surface's.
pub proof fn qtfb_keys_avoid_home(app_id: Seq<char>)
    ensures
        0 < qtfb_key(app_id) <= i32::MAX,
        qtfb_key(app_id) != REMAGIC_HOME_QTFB_KEY,
{
    let hash = fnv1a(encode_utf8("remagic-qtfb-v2:"@) + encode_utf8(app_id));
    assert(hash & 0x7fff_ffff <= 0x7fff_ffff) by (bit_vector);
}

/// A capability supplied by the platform to an application.
///
/// Capabilities are namespaced strings rather than a closed enum: the manager
/// must be able to reject an unknown requirement at preflight time without
/// requiring every application to be rebuilt when a capability is added.
/// Examples are `display:surface-v2`, `display:qtfb-v1`, and `ink:direct-v1`.
#[derive(Debug, PartialEq, Eq, PartialOrd, Ord)]
pub struct Capability(String);

/// A character that a capability may hold.
pub open spec fn capability_char(c: char) -> bool {
    is_lower(c) || is_digit(c) || c == '-' || c == '_' || c == '.' || c == ':'
}

/// The text of a capability.
pub open spec fn valid_capability(s: Seq<char>) -> bool {
    &&& 0 < s.len()
    &&& byte_len(s) <= 96
    &&& is_alnum(s[0])
    &&& is_alnum(s.last())
    &&& forall|i: int| 0 <= i < s.len() ==> capability_char(#[trigger] s[i])
}

impl View for Capability {
    type V = Seq<char>;

    closed spec fn view(&self) -> Seq<char> {
        self.0@
    }
}

impl Capability {
    #[verifier::type_invariant]
    spec fn wf(self) -> bool {
        valid_capability(self.0@)
    }

    /// The capability with the given name.
    pub fn new(value: &str) -> (r: Result<Capability, RuntimeValidationError>)
        ensures
            match r {
                Ok(capability) => valid_capability(value@) && capability@ == value@,
                Err(RuntimeValidationError::InvalidCapability(text)) => !valid_capability(value@)
                    && text@ == value@,
                Err(_) => false,
            },
    {
        let chars = chars_of(value);
        let mut valid = chars.len() > 0 && byte_count(value) <= 96 && char_is_alnum(chars[0])
            && char_is_alnum(chars[chars.len() - 1]);
        let mut i: usize = 0;
        while i < chars.len()
            invariant
                i <= chars.len(),
                chars@ == value@,
                valid == (0 < value@.len() && byte_len(value@) <= 96 && is_alnum(value@[0])
                    && is_alnum(value@.last()) && forall|j: int|
                    0 <= j < i ==> capability_char(#[trigger] value@[j])),
            decreases chars.len() - i,
        {
            let c = chars[i];
            if !(char_is_lower(c) || char_is_digit(c) || c == '-' || c == '_' || c == '.' || c
                == ':') {
                assert(!capability_char(value@[i as int]));
                valid = false;
            }
            i = i + 1;
        }
        if valid {
            Ok(Capability(value.to_owned()))
        } else {
            Err(RuntimeValidationError::InvalidCapability(value.to_owned()))
        }
    }

    /// The name of the capability.
    pub fn as_str(&self) -> (r: &str)
        ensures
            r@ == self@,
            valid_capability(r@),
    {
        proof {
            use_type_invariant(self);
        }
        self.0.as_str()
    }

    /// The name of the capability, as an owned string.
    pub fn to_text(&self) -> (r: String)
        ensures
            r@ == self@,
    {
        self.0.clone()
    }
}

impl Clone for Capability {
    fn clone(&self) -> (r: Capability)
        ensures
            r == *self,
    {
        proof {
            use_type_invariant(self);
        }
        Capability(self.0.clone())
    }
}

impl TextKey for Capability {
    open spec fn text(&self) -> Seq<char> {
        self@
    }

    fn as_text(&self) -> (r: &str) {
        self.as_str()
    }

    fn duplicate(&self) -> (r: Self) {
        self.clone()
    }
}

/// How an application is hosted.
#[derive(Clone, Copy, Debug, PartialEq, Eq, Structural)]
pub enum RuntimeProfile {
    /// Native Surface v2 client with the platform lifecycle and input APIs.
    NativeV2,
    /// Compatibility application hosted through the QTFB v1 bridge.
    QtfbCompat,
    /// No foreground surface; suitable for a supervised background service.
    Headless,
}

impl Default for RuntimeProfile {
    fn default() -> (r: RuntimeProfile)
        ensures
            r == RuntimeProfile::NativeV2,
    {
        RuntimeProfile::NativeV2
    }
}

impl RuntimeProfile {
    /// The name of the profile in the launch environment.
    pub open spec fn name(self) -> Seq<char> {
        match self {
            RuntimeProfile::NativeV2 => "native_v2"@,
            RuntimeProfile::QtfbCompat => "qtfb_compat"@,
            RuntimeProfile::Headless => "headless"@,
        }
    }

    /// The name of the profile in the launch environment.
    pub fn as_str(self) -> (r: &'static str)
        ensures
            r@ == self.name(),
    {
        match self {
            RuntimeProfile::NativeV2 => "native_v2",
            RuntimeProfile::QtfbCompat => "qtfb_compat",
            RuntimeProfile::Headless => "headless",
        }
    }
}

impl RuntimeProfile {
    /// The name of the variant.
    pub open spec fn debug_name(self) -> Seq<char> {
        match self {
            RuntimeProfile::NativeV2 => "NativeV2"@,
            RuntimeProfile::QtfbCompat => "QtfbCompat"@,
            RuntimeProfile::Headless => "Headless"@,
        }
    }

    /// The name of the variant.
    pub fn debug_str(self) -> (r: &'static str)
        ensures
            r@ == self.debug_name(),
    {
        match self {
            RuntimeProfile::NativeV2 => "NativeV2",
            RuntimeProfile::QtfbCompat => "QtfbCompat",
            RuntimeProfile::Headless => "Headless",
        }
    }
}

/// A hash takes its bytes one after the other: each is joined to the hash before the hash is
/// multiplied.
pub proof fn hashes_take_their_bytes_in_order(bytes: Seq<u8>, byte: u8)
    ensures
        fnv1a(Seq::empty()) == 0x811c_9dc5,
        fnv1a(bytes.push(byte)) == (fnv1a(bytes) ^ (byte as u32)).wrapping_mul(0x0100_0193),
{
    assert(bytes.push(byte).drop_last() =~= bytes);
}

/// A key is the lower part of its hash; only zero and the surface's own key are moved on by one.
pub proof fn keys_keep_the_lower_bits(hash: u32)
    ensures
        hash & 0x7fff_ffff != 0 && hash & 0x7fff_ffff != 245_209_900 ==> key_of_hash(hash) == hash
            & 0x7fff_ffff,
        hash & 0x7fff_ffff == 0 ==> key_of_hash(hash) == 1,
        hash & 0x7fff_ffff == 245_209_900 ==> key_of_hash(hash) == 245_209_901,
{
}

/// A capability's name is made of small letters, digits and a few signs, and has a letter or a
/// digit at either end.
pub proof fn capabilities_are_plain_names(s: Seq<char>)
    ensures
        valid_capability(s) ==> s.len() > 0 && !s.contains(' ') && !s.contains('/') && !s.contains(
            '\n',
        ) && s[0] != ':' && s.last() != ':',
        valid_capability(s) <==> {
            &&& s.len() > 0
            &&& byte_len(s) <= 96
            &&& is_alnum(s[0]) && is_alnum(s.last())
            &&& forall|i: int|
                0 <= i < s.len() ==> 'a' <= #[trigger] s[i] <= 'z' || '0' <= s[i] <= '9' || s[i]
                    == '-' || s[i] == '_' || s[i] == '.' || s[i] == ':'
        },
{
    if valid_capability(s) {
        assert forall|i: int| 0 <= i < s.len() implies 'a' <= #[trigger] s[i] <= 'z' || '0' <= s[i]
            <= '9' || s[i] == '-' || s[i] == '_' || s[i] == '.' || s[i] == ':' by {
            assert(capability_char(s[i]));
        }
    }
}

} // verus!
