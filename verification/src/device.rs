//! Strict, shared device detection for the Paper Pro family.
//!
//! Devices are taken from an allow-list rather than guessed from framebuffer
//! dimensions. The same profile serves the installer, the display host, the
//! manager and the application runner, so an application never selects a
//! device-specific QTFB format itself.
use vstd::prelude::*;
use vstd::utf8::{decode_utf8, valid_utf8};
use crate::path::{same_texts, FilePath};
use crate::path::{components, joined};
use crate::text::{
    has_prefix, split_on, split_once, strip_prefix, text_eq, text_is_blank, trim_text, utf8_text,
    Trim,
};
use crate::text::{
    cut_at, is_blank, split, texts, texts_are_cut_at_the_first_occurrence, trim,
};
use crate::text::{debug_quoted, decimal_text};
use crate::text::{debug_text, decimal};

verus! {

pub const DEVICE_PROFILE_SCHEMA_V1: u32 = 1;

pub const DEVICE_PROFILE_ENV: &'static str = "REMAGIC_DEVICE_PROFILE";

/// The reMarkable software release family covered by this build.
///
/// `/etc/os-release` exposes the user-facing software build as `IMG_VERSION`;
/// `VERSION_ID` is the underlying Codex Linux image and is not used for
/// application compatibility decisions.
pub const SUPPORTED_OS_SERIES: &'static str = "3.27";

/// A supported device.
#[derive(Clone, Copy, Debug, PartialEq, Eq, PartialOrd, Ord, Structural)]
pub enum DeviceProduct {
    PaperPro,
    PaperProMove,
}

impl DeviceProduct {
    /// The code name of a product.
    pub open spec fn spec_codename(self) -> Seq<char> {
        match self {
            DeviceProduct::PaperPro => "ferrari"@,
            DeviceProduct::PaperProMove => "chiappa"@,
        }
    }

    /// The name by which the hardware identifies itself.
    pub open spec fn spec_machine(self) -> Seq<char> {
        match self {
            DeviceProduct::PaperPro => "reMarkable Ferrari"@,
            DeviceProduct::PaperProMove => "reMarkable Chiappa"@,
        }
    }

    /// The code name of the product.
    pub fn codename(self) -> (r: &'static str)
        ensures
            r@ == self.spec_codename(),
    {
        match self {
            DeviceProduct::PaperPro => "ferrari",
            DeviceProduct::PaperProMove => "chiappa",
        }
    }

    /// The name by which the hardware identifies itself.
    pub fn machine(self) -> (r: &'static str)
        ensures
            r@ == self.spec_machine(),
    {
        match self {
            DeviceProduct::PaperPro => "reMarkable Ferrari",
            DeviceProduct::PaperProMove => "reMarkable Chiappa",
        }
    }
}

/// The layout of a surface pixel.
#[derive(Clone, Copy, Debug, PartialEq, Eq, Structural)]
pub enum SurfacePixelFormat {
    Rgb565,
}

/// The surface that a device offers.
#[derive(Clone, Copy, Debug, PartialEq, Eq, Structural)]
pub struct DeviceDisplayProfile {
    pub logical_width: i32,
    pub logical_height: i32,
    pub qtfb_format: u8,
    pub pixel_format: SurfacePixelFormat,
    pub stride: usize,
}

/// Everything that the platform knows of the device.
#[derive(Debug, PartialEq, Eq)]
pub struct DeviceProfile {
    pub schema_version: u32,
    pub product: DeviceProduct,
    pub codename: String,
    pub os_version: String,
    pub display: DeviceDisplayProfile,
    pub capabilities: Vec<String>,
}

/// Why a device is not accepted.
#[derive(Debug, PartialEq, Eq)]
pub enum DeviceProfileError {
    Read { path: FilePath, source: String },
    InvalidIdentity(FilePath),
    IdentityMismatch { machine: String, model: String },
    UnsupportedMachine(String),
    MissingOsVersion,
    UnsupportedOsVersion { detected: String, supported: &'static str },
    UnsupportedSchema(u32),
    InvalidProfile,
    Serialize(String),
}

/// The surface of a product.
pub open spec fn display_of(product: DeviceProduct) -> DeviceDisplayProfile {
    match product {
        DeviceProduct::PaperPro => DeviceDisplayProfile {
            logical_width: 1620,
            logical_height: 2160,
            qtfb_format: 3,
            pixel_format: SurfacePixelFormat::Rgb565,
            stride: 3240,
        },
        DeviceProduct::PaperProMove => DeviceDisplayProfile {
            logical_width: 954,
            logical_height: 1696,
            qtfb_format: 6,
            pixel_format: SurfacePixelFormat::Rgb565,
            stride: 1908,
        },
    }
}

/// The capabilities that every supported device offers, in order.
pub open spec fn device_capabilities() -> Seq<Seq<char>> {
    seq![
        "color"@,
        "display:qtfb-v1"@,
        "display:surface-v2"@,
        "ink:direct-v1"@,
        "input:mode-v2"@,
        "input:pen-v1"@,
        "input:touch-v1"@,
        "lifecycle:v2"@,
        "network:outbound-v1"@,
        "network:listen-v1"@,
        "storage:books-write-v1"@,
        "storage:wallpapers-write-v1"@,
        "agent:pi-v1"@,
    ]
}

/// A version of the supported release family.
pub open spec fn supported_version(version: Seq<char>) -> bool {
    ||| version == "3.27"@
    ||| "3.27."@.is_prefix_of(version)
}

/// The value that a line of `os-release` gives for the software build.
pub open spec fn line_version(line: Seq<char>) -> Option<Seq<char>> {
    match cut_at(line, '=') {
        Some((key, value)) => {
            let text = trim(trim(value, Trim::Space), Trim::Quote);
            if key == "IMG_VERSION"@ && text.len() > 0 {
                Some(text)
            } else {
                None
            }
        },
        None => None,
    }
}

/// The software build that the first of these lines that gives one gives.
pub open spec fn first_version(lines: Seq<Seq<char>>) -> Option<Seq<char>>
    decreases lines.len(),
{
    if lines.len() == 0 {
        None
    } else {
        match line_version(lines[0]) {
            Some(version) => Some(version),
            None => first_version(lines.drop_first()),
        }
    }
}

/// The software build that an `os-release` text gives.
pub open spec fn os_version(text: Seq<char>) -> Option<Seq<char>> {
    first_version(split(text, '\n'))
}

/// The name that an identity file holds.
pub open spec fn identity(bytes: Seq<u8>) -> Option<Seq<char>> {
    let name = trim(decode_utf8(bytes), Trim::SpaceAndNul);
    if valid_utf8(bytes) && name.len() > 0 {
        Some(name)
    } else {
        None
    }
}

/// The product whose hardware identifies itself so.
pub open spec fn product_of(machine: Seq<char>) -> Option<DeviceProduct> {
    if machine == "reMarkable Ferrari"@ {
        Some(DeviceProduct::PaperPro)
    } else if machine == "reMarkable Chiappa"@ {
        Some(DeviceProduct::PaperProMove)
    } else {
        None
    }
}

/// Whether a version belongs to the supported release family.
pub fn is_supported_os_version(version: &str) -> (r: bool)
    ensures
        r == supported_version(version@),
{
    proof {
        reveal_strlit("3.27");
        reveal_strlit("3.27.");
        assert("3.27."@ =~= "3.27"@.push('.'));
    }
    if text_eq(version, SUPPORTED_OS_SERIES) {
        return true;
    }
    match strip_prefix(version, SUPPORTED_OS_SERIES) {
        Some(suffix) => {
            proof {
                reveal_strlit(".");
                assert("."@ =~= seq!['.']);
                if "."@.is_prefix_of(suffix@) {
                    assert(suffix@[0] == '.') by {
                        assert(suffix@.subrange(0, 1)[0] == "."@[0]);
                    }
                    assert(version@.subrange(0, 4) =~= "3.27"@);
                    assert forall|i: int| 0 <= i < 4 implies version@[i] == "3.27"@[i] by {
                        assert(version@.subrange(0, 4)[i] == "3.27"@[i]);
                    }
                    assert(version@.subrange(0, 5) =~= "3.27."@);
                }
                if "3.27."@.is_prefix_of(version@) {
                    assert(version@[4] == '.') by {
                        assert(version@.subrange(0, 5)[4] == "3.27."@[4]);
                    }
                    assert(suffix@.subrange(0, 1) =~= "."@);
                }
            }
            has_prefix(suffix.as_str(), ".")
        },
        None => {
            proof {
                if "3.27."@.is_prefix_of(version@) {
                    assert forall|i: int| 0 <= i < 5 implies version@[i] == "3.27."@[i] by {
                        assert(version@.subrange(0, 5)[i] == "3.27."@[i]);
                    }
                    assert(version@.subrange(0, 4) =~= "3.27"@);
                }
            }
            false
        },
    }
}

/// The software build that an `os-release` text gives.
fn parse_os_version(text: &str) -> (r: Option<String>)
    ensures
        match r {
            Some(version) => os_version(text@) == Some(version@),
            None => os_version(text@) is None,
        },
{
    let lines = split_on(text, '\n');
    let ghost all = split(text@, '\n');
    let mut i: usize = 0;
    assert(all.skip(0) =~= all);
    while i < lines.len()
        invariant
            i <= lines.len(),
            all == split(text@, '\n'),
            texts(lines@) == all,
            first_version(all.skip(i as int)) == os_version(text@),
        decreases lines.len() - i,
    {
        assert(all.skip(i as int)[0] == lines@[i as int]@) by {
            assert(texts(lines@)[i as int] == lines@[i as int]@);
        }
        assert(all.skip(i as int).drop_first() =~= all.skip(i + 1));
        if let Some((key, value)) = split_once(lines[i].as_str(), '=') {
            let version = trim_text(trim_text(value.as_str(), Trim::Space).as_str(), Trim::Quote);
            if text_eq(key.as_str(), "IMG_VERSION") && !version.as_str().is_empty() {
                return Some(version);
            }
        }
        i = i + 1;
    }
    None
}

/// The path of an entry below a root directory.
pub fn rooted(root: &FilePath, relative: &str) -> (r: FilePath)
    ensures
        r@ == rooted_text(root@, relative@),
{
    if root.same_as(&FilePath::new("/")) {
        FilePath::new("/").join(relative)
    } else {
        root.join(relative)
    }
}

/// The text of the path of an entry below a root directory.
pub open spec fn rooted_text(root: Seq<char>, relative: Seq<char>) -> Seq<char> {
    if components(root) == components("/"@) {
        joined("/"@, relative)
    } else {
        joined(root, relative)
    }
}

/// The name that an identity file holds, from what reading it gave.
fn read_identity(path: FilePath, contents: Result<Vec<u8>, String>) -> (r: Result<
    String,
    DeviceProfileError,
>)
    ensures
        match r {
            Ok(name) => contents is Ok && identity(contents->Ok_0@) == Some(name@),
            Err(e) => match contents {
                Err(source) => e == (DeviceProfileError::Read { path, source }),
                Ok(bytes) => identity(bytes@) is None && e == DeviceProfileError::InvalidIdentity(
                    path,
                ),
            },
        },
{
    let bytes = match contents {
        Ok(bytes) => bytes,
        Err(source) => return Err(DeviceProfileError::Read { path, source }),
    };
    match utf8_text(bytes) {
        Ok(text) => {
            let name = trim_text(text.as_str(), Trim::SpaceAndNul);
            if name.as_str().is_empty() {
                Err(DeviceProfileError::InvalidIdentity(path))
            } else {
                Ok(name)
            }
        },
        Err(_) => Err(DeviceProfileError::InvalidIdentity(path)),
    }
}

/// What a detection gives for what was read of the device.
pub open spec fn detection(
    root: Seq<char>,
    machine: Result<Vec<u8>, String>,
    model: Result<Vec<u8>, String>,
    os_release: Result<String, String>,
    r: Result<DeviceProfile, DeviceProfileError>,
) -> bool {
    let machine_name = identity(machine->Ok_0@);
    let model_name = identity(model->Ok_0@);
    let version = os_version(os_release->Ok_0@);
    match r {
        Err(DeviceProfileError::Read { path, source }) => {
            ||| machine == Err::<Vec<u8>, String>(source) && path@ == rooted_text(
                root,
                "sys/devices/soc0/machine"@,
            )
            ||| machine is Ok && machine_name is Some && model == Err::<Vec<u8>, String>(source)
                && path@ == rooted_text(root, "proc/device-tree/model"@)
            ||| {
                &&& machine is Ok && model is Ok && machine_name is Some
                &&& machine_name == model_name
                &&& product_of(machine_name->0) is Some
                &&& os_release == Err::<String, String>(source)
                &&& path@ == rooted_text(root, "etc/os-release"@)
            }
        },
        Err(DeviceProfileError::InvalidIdentity(path)) => {
            ||| machine is Ok && machine_name is None && path@ == rooted_text(
                root,
                "sys/devices/soc0/machine"@,
            )
            ||| machine is Ok && machine_name is Some && model is Ok && model_name is None && path@
                == rooted_text(root, "proc/device-tree/model"@)
        },
        Err(DeviceProfileError::IdentityMismatch { machine: a, model: b }) => {
            &&& machine is Ok && model is Ok
            &&& machine_name == Some(a@) && model_name == Some(b@) && a@ != b@
        },
        Err(DeviceProfileError::UnsupportedMachine(name)) => {
            &&& machine is Ok && model is Ok && machine_name == Some(name@)
            &&& machine_name == model_name && product_of(name@) is None
        },
        Err(DeviceProfileError::MissingOsVersion) => {
            &&& machine is Ok && model is Ok && machine_name is Some && machine_name == model_name
            &&& product_of(machine_name->0) is Some && os_release is Ok && version is None
        },
        Err(DeviceProfileError::UnsupportedOsVersion { detected, supported }) => {
            &&& machine is Ok && model is Ok && machine_name is Some && machine_name == model_name
            &&& product_of(machine_name->0) is Some && os_release is Ok
            &&& version == Some(detected@) && !supported_version(detected@)
            &&& supported@ == SUPPORTED_OS_SERIES@
        },
        Err(_) => false,
        Ok(profile) => {
            &&& machine is Ok && model is Ok && machine_name is Some && machine_name == model_name
            &&& os_release is Ok && version == Some(profile.os_version@)
            &&& supported_version(profile.os_version@)
            &&& product_of(machine_name->0) == Some(profile.product)
            &&& profile.is_for(profile.product, profile.os_version@)
        },
    }
}

impl Clone for DeviceProfile {
    fn clone(&self) -> (r: DeviceProfile)
        ensures
            r.same_as(self),
    {
        DeviceProfile {
            schema_version: self.schema_version,
            product: self.product,
            codename: self.codename.clone(),
            os_version: self.os_version.clone(),
            display: self.display,
            capabilities: self.capabilities.clone(),
        }
    }
}

impl DeviceProfile {
    /// Two profiles say the same.
    pub open spec fn same_as(&self, other: &DeviceProfile) -> bool {
        &&& self.schema_version == other.schema_version
        &&& self.product == other.product
        &&& self.codename@ == other.codename@
        &&& self.os_version@ == other.os_version@
        &&& self.display == other.display
        &&& texts(self.capabilities@) == texts(other.capabilities@)
    }

    /// The one profile of a product with a given software build.
    pub open spec fn is_for(&self, product: DeviceProduct, os_version: Seq<char>) -> bool {
        &&& self.schema_version == DEVICE_PROFILE_SCHEMA_V1
        &&& self.product == product
        &&& self.codename@ == product.spec_codename()
        &&& self.os_version@ == os_version
        &&& self.display == display_of(product)
        &&& texts(self.capabilities@) == device_capabilities()
    }

    /// The profile of a product with a given software build.
    pub fn for_product(product: DeviceProduct, os_version: &str) -> (r: DeviceProfile)
        ensures
            r.is_for(product, os_version@),
    {
        let display = match product {
            DeviceProduct::PaperPro => DeviceDisplayProfile {
                logical_width: 1620,
                logical_height: 2160,
                qtfb_format: 3,
                pixel_format: SurfacePixelFormat::Rgb565,
                stride: 1620 * 2,
            },
            DeviceProduct::PaperProMove => DeviceDisplayProfile {
                logical_width: 954,
                logical_height: 1696,
                qtfb_format: 6,
                pixel_format: SurfacePixelFormat::Rgb565,
                stride: 954 * 2,
            },
        };
        let mut capabilities: Vec<String> = Vec::new();
        capabilities.push("color".to_owned());
        capabilities.push("display:qtfb-v1".to_owned());
        capabilities.push("display:surface-v2".to_owned());
        capabilities.push("ink:direct-v1".to_owned());
        capabilities.push("input:mode-v2".to_owned());
        capabilities.push("input:pen-v1".to_owned());
        capabilities.push("input:touch-v1".to_owned());
        capabilities.push("lifecycle:v2".to_owned());
        capabilities.push("network:outbound-v1".to_owned());
        capabilities.push("network:listen-v1".to_owned());
        capabilities.push("storage:books-write-v1".to_owned());
        capabilities.push("storage:wallpapers-write-v1".to_owned());
        capabilities.push("agent:pi-v1".to_owned());
        assert(texts(capabilities@) =~= device_capabilities());
        DeviceProfile {
            schema_version: DEVICE_PROFILE_SCHEMA_V1,
            product,
            codename: product.codename().to_owned(),
            os_version: os_version.to_owned(),
            display,
            capabilities,
        }
    }

    /// Decides on a device from what was read below `root`: the machine name,
    /// the device-tree model and the `os-release` text.
    pub fn detect_at(
        root: &FilePath,
        machine: Result<Vec<u8>, String>,
        model: Result<Vec<u8>, String>,
        os_release: Result<String, String>,
    ) -> (r: Result<DeviceProfile, DeviceProfileError>)
        ensures
            detection(root@, machine, model, os_release, r),
    {
        let machine_name = match read_identity(rooted(root, "sys/devices/soc0/machine"), machine) {
            Ok(name) => name,
            Err(e) => return Err(e),
        };
        let model_name = match read_identity(rooted(root, "proc/device-tree/model"), model) {
            Ok(name) => name,
            Err(e) => return Err(e),
        };
        if machine_name != model_name {
            return Err(
                DeviceProfileError::IdentityMismatch { machine: machine_name, model: model_name },
            );
        }
        let product = if text_eq(machine_name.as_str(), "reMarkable Ferrari") {
            DeviceProduct::PaperPro
        } else if text_eq(machine_name.as_str(), "reMarkable Chiappa") {
            DeviceProduct::PaperProMove
        } else {
            return Err(DeviceProfileError::UnsupportedMachine(machine_name));
        };
        let text = match os_release {
            Ok(text) => text,
            Err(source) => {
                return Err(
                    DeviceProfileError::Read { path: rooted(root, "etc/os-release"), source },
                );
            },
        };
        let version = match parse_os_version(text.as_str()) {
            Some(version) => version,
            None => return Err(DeviceProfileError::MissingOsVersion),
        };
        if !is_supported_os_version(version.as_str()) {
            return Err(
                DeviceProfileError::UnsupportedOsVersion {
                    detected: version,
                    supported: SUPPORTED_OS_SERIES,
                },
            );
        }
        let profile = DeviceProfile::for_product(product, version.as_str());
        proof {
            reveal_strlit("3.27");
            reveal_strlit("3.27.");
            assert(profile.os_version@[0] == '3') by {
                if "3.27."@.is_prefix_of(profile.os_version@) {
                    assert(profile.os_version@.subrange(0, 5)[0] == "3.27."@[0]);
                }
            }
        }
        match profile.validate() {
            Ok(_) => Ok(profile),
            Err(e) => Err(e),
        }
    }

    /// Whether the fields agree with each other.
    pub fn validate(&self) -> (r: Result<(), DeviceProfileError>)
        ensures
            match r {
                Ok(_) => self.is_for(self.product, self.os_version@) && !is_blank(self.os_version@),
                Err(DeviceProfileError::UnsupportedSchema(schema)) => schema == self.schema_version
                    && schema != DEVICE_PROFILE_SCHEMA_V1,
                Err(DeviceProfileError::InvalidProfile) => self.schema_version
                    == DEVICE_PROFILE_SCHEMA_V1 && (!self.is_for(self.product, self.os_version@)
                    || is_blank(self.os_version@)),
                Err(_) => false,
            },
    {
        if self.schema_version != DEVICE_PROFILE_SCHEMA_V1 {
            return Err(DeviceProfileError::UnsupportedSchema(self.schema_version));
        }
        if !text_eq(self.codename.as_str(), self.product.codename()) || text_is_blank(
            self.os_version.as_str(),
        ) {
            return Err(DeviceProfileError::InvalidProfile);
        }
        let expected = DeviceProfile::for_product(self.product, self.os_version.as_str());
        if self.display != expected.display || !same_texts(
            &self.capabilities,
            &expected.capabilities,
        ) {
            return Err(DeviceProfileError::InvalidProfile);
        }
        Ok(())
    }
}

/// The profile that detection accepts is one that validation accepts.
pub proof fn detected_profiles_are_valid(
    root: Seq<char>,
    machine: Result<Vec<u8>, String>,
    model: Result<Vec<u8>, String>,
    os_release: Result<String, String>,
    profile: DeviceProfile,
)
    requires
        detection(root, machine, model, os_release, Ok(profile)),
    ensures
        profile.is_for(profile.product, profile.os_version@),
        !is_blank(profile.os_version@),
{
    reveal_strlit("3.27");
    reveal_strlit("3.27.");
    if "3.27."@.is_prefix_of(profile.os_version@) {
        assert(profile.os_version@.subrange(0, 5)[0] == "3.27."@[0]);
    }
    assert(!crate::text::is_space(profile.os_version@[0]));
}

/// Detection fails closed: a device whose two identities differ, that is neither product, or
/// whose software is not of the supported series has no profile.
pub proof fn other_devices_are_refused(
    root: Seq<char>,
    machine: Result<Vec<u8>, String>,
    model: Result<Vec<u8>, String>,
    os_release: Result<String, String>,
    r: Result<DeviceProfile, DeviceProfileError>,
)
    requires
        detection(root, machine, model, os_release, r),
        machine is Ok && model is Ok && os_release is Ok,
        ({
            let name = identity(machine->Ok_0@);
            let version = os_version(os_release->Ok_0@);
            ||| name is None
            ||| name != identity(model->Ok_0@)
            ||| product_of(name->0) is None
            ||| version is None
            ||| !supported_version(version->0)
        }),
    ensures
        r is Err,
{
}

impl DeviceProduct {
    /// The name of the variant.
    pub open spec fn debug_name(self) -> Seq<char> {
        match self {
            DeviceProduct::PaperPro => "PaperPro"@,
            DeviceProduct::PaperProMove => "PaperProMove"@,
        }
    }

    /// The name of the variant.
    pub fn debug_str(self) -> (r: &'static str)
        ensures
            r@ == self.debug_name(),
    {
        match self {
            DeviceProduct::PaperPro => "PaperPro",
            DeviceProduct::PaperProMove => "PaperProMove",
        }
    }
}

impl DeviceProfileError {
    /// The reason in words.
    pub open spec fn text(self) -> Seq<char> {
        match self {
            DeviceProfileError::Read { path, source } => "could not read "@ + path@ + ": "@ + source@,
            DeviceProfileError::InvalidIdentity(a) => "device identity is not valid UTF-8 or is empty: "@ + a@,
            DeviceProfileError::IdentityMismatch { machine, model } => "device identity mismatch: machine="@ + debug_text(machine@) + ", model="@ + debug_text(model@),
            DeviceProfileError::UnsupportedMachine(a) => "unsupported reMarkable machine: "@ + a@,
            DeviceProfileError::MissingOsVersion => "/etc/os-release has no IMG_VERSION"@,
            DeviceProfileError::UnsupportedOsVersion { detected, supported } => "unsupported reMarkable software "@ + detected@ + "; this build supports "@ + supported@ + ".x"@,
            DeviceProfileError::UnsupportedSchema(a) => "unsupported device profile schema "@ + decimal(a as nat),
            DeviceProfileError::InvalidProfile => "device profile fields are internally inconsistent"@,
            DeviceProfileError::Serialize(a) => "could not serialize device profile: "@ + a@,
        }
    }

    /// The reason in words.
    pub fn message(&self) -> (r: String)
        ensures
            r@ == self.text(),
    {
        match self {
            DeviceProfileError::Read { path, source } => {
                let mut message = "could not read ".to_owned();
                message.append(path.as_str());
                message.append(": ");
                message.append(source.as_str());
                message
            },
            DeviceProfileError::InvalidIdentity(a) => {
                let mut message = "device identity is not valid UTF-8 or is empty: ".to_owned();
                message.append(a.as_str());
                message
            },
            DeviceProfileError::IdentityMismatch { machine, model } => {
                let mut message = "device identity mismatch: machine=".to_owned();
                message.append(debug_quoted(machine.as_str()).as_str());
                message.append(", model=");
                message.append(debug_quoted(model.as_str()).as_str());
                message
            },
            DeviceProfileError::UnsupportedMachine(a) => {
                let mut message = "unsupported reMarkable machine: ".to_owned();
                message.append(a.as_str());
                message
            },
            DeviceProfileError::MissingOsVersion => "/etc/os-release has no IMG_VERSION".to_owned(),
            DeviceProfileError::UnsupportedOsVersion { detected, supported } => {
                let mut message = "unsupported reMarkable software ".to_owned();
                message.append(detected.as_str());
                message.append("; this build supports ");
                message.append(supported);
                message.append(".x");
                message
            },
            DeviceProfileError::UnsupportedSchema(a) => {
                let mut message = "unsupported device profile schema ".to_owned();
                message.append(decimal_text(*a as u64).as_str());
                message
            },
            DeviceProfileError::InvalidProfile => "device profile fields are internally inconsistent".to_owned(),
            DeviceProfileError::Serialize(a) => {
                let mut message = "could not serialize device profile: ".to_owned();
                message.append(a.as_str());
                message
            },
        }
    }
}

/// Both machines are detected where their two names agree and their software is of the supported
/// series; the profile is that of the machine, with its own screen and the version that was found.
pub proof fn supported_devices_are_detected(
    root: Seq<char>,
    machine: Result<Vec<u8>, String>,
    model: Result<Vec<u8>, String>,
    os_release: Result<String, String>,
    r: Result<DeviceProfile, DeviceProfileError>,
)
    requires
        detection(root, machine, model, os_release, r),
        machine is Ok && model is Ok && os_release is Ok,
        identity(machine->Ok_0@) == identity(model->Ok_0@),
        identity(machine->Ok_0@) == Some("reMarkable Ferrari"@) || identity(machine->Ok_0@) == Some(
            "reMarkable Chiappa"@,
        ),
        os_version(os_release->Ok_0@) is Some,
        os_version(os_release->Ok_0@)->0 == "3.27"@ || "3.27."@.is_prefix_of(
            os_version(os_release->Ok_0@)->0,
        ),
    ensures
        r is Ok,
        r->Ok_0.schema_version == 1,
        Some(r->Ok_0.os_version@) == os_version(os_release->Ok_0@),
        identity(machine->Ok_0@) == Some("reMarkable Ferrari"@) ==> r->Ok_0.product
            == DeviceProduct::PaperPro && r->Ok_0.codename@ == "ferrari"@
            && r->Ok_0.display.logical_width == 1620 && r->Ok_0.display.logical_height == 2160
            && r->Ok_0.display.qtfb_format == 3,
        identity(machine->Ok_0@) == Some("reMarkable Chiappa"@) ==> r->Ok_0.product
            == DeviceProduct::PaperProMove && r->Ok_0.codename@ == "chiappa"@
            && r->Ok_0.display.logical_width == 954 && r->Ok_0.display.logical_height == 1696
            && r->Ok_0.display.qtfb_format == 6,
        r->Ok_0.display.stride == 2 * r->Ok_0.display.logical_width,
{
    reveal_strlit("reMarkable Ferrari");
    reveal_strlit("reMarkable Chiappa");
    assert("reMarkable Ferrari"@[11] != "reMarkable Chiappa"@[11]);
}

/// Software of another series is refused with the version that was found.
pub proof fn other_software_is_refused(
    root: Seq<char>,
    machine: Result<Vec<u8>, String>,
    model: Result<Vec<u8>, String>,
    os_release: Result<String, String>,
    r: Result<DeviceProfile, DeviceProfileError>,
)
    requires
        detection(root, machine, model, os_release, r),
        machine is Ok && model is Ok && os_release is Ok,
        identity(machine->Ok_0@) == identity(model->Ok_0@),
        identity(machine->Ok_0@) is Some,
        product_of(identity(machine->Ok_0@)->0) is Some,
        os_version(os_release->Ok_0@) is Some,
        os_version(os_release->Ok_0@)->0 != "3.27"@,
        !"3.27."@.is_prefix_of(os_version(os_release->Ok_0@)->0),
    ensures
        r matches Err(DeviceProfileError::UnsupportedOsVersion { detected, supported })
            && Some(detected@) == os_version(os_release->Ok_0@) && supported@ == "3.27"@,
{
}

/// The software's version is that of the first line that gives one.
pub proof fn the_first_version_line_counts(lines: Seq<Seq<char>>, i: int)
    requires
        0 <= i < lines.len(),
        line_version(lines[i]) is Some,
        forall|j: int| 0 <= j < i ==> line_version(#[trigger] lines[j]) is None,
    ensures
        first_version(lines) == line_version(lines[i]),
    decreases i,
{
    if i > 0 {
        assert(line_version(lines[0]) is None);
        let rest = lines.drop_first();
        assert(rest[i - 1] == lines[i]);
        assert forall|j: int| 0 <= j < i - 1 implies line_version(#[trigger] rest[j]) is None by {
            assert(rest[j] == lines[j + 1]);
        }
        the_first_version_line_counts(rest, i - 1);
    }
}

/// A line gives the version where its key is the image's version and something is left of its
/// value when the spaces and then the quotation marks around it are taken away.
pub proof fn version_lines_name_the_image(line: Seq<char>, value: Seq<char>)
    requires
        line == "IMG_VERSION="@ + value,
    ensures
        ({
            let text = trim(trim(value, Trim::Space), Trim::Quote);
            line_version(line) == (if text.len() > 0 {
                Some(text)
            } else {
                None
            })
        }),
{
    reveal_strlit("IMG_VERSION=");
    reveal_strlit("IMG_VERSION");
    let key = "IMG_VERSION"@;
    texts_are_cut_at_the_first_occurrence(line, '=');
    assert(line[11] == '=');
    let (before, after) = cut_at(line, '=')->0;
    assert(before.len() == 11) by {
        if before.len() < 11 {
            assert(line[before.len() as int] == '=');
            assert("IMG_VERSION="@[before.len() as int] == '=');
        } else if before.len() > 11 {
            assert(before[11] == line[11]);
            assert(before.contains('='));
        }
    }
    assert(before =~= key) by {
        assert forall|i: int| 0 <= i < 11 implies before[i] == key[i] by {
            assert(line[i] == before[i]);
            assert("IMG_VERSION="@[i] == key[i]);
        }
    }
    assert(after =~= value) by {
        assert forall|i: int| 0 <= i < value.len() implies after[i] == value[i] by {
            assert(line[12 + i] == after[i]);
        }
    }
}

/// Without such a line there is no version.
pub proof fn no_version_line_means_no_version(lines: Seq<Seq<char>>)
    requires
        forall|j: int| 0 <= j < lines.len() ==> line_version(#[trigger] lines[j]) is None,
    ensures
        first_version(lines) is None,
    decreases lines.len(),
{
    if lines.len() > 0 {
        let rest = lines.drop_first();
        assert forall|j: int| 0 <= j < rest.len() implies line_version(#[trigger] rest[j]) is None by {
            assert(rest[j] == lines[j + 1]);
        }
        assert(line_version(lines[0]) is None);
        no_version_line_means_no_version(rest);
    }
}

} // verus!
