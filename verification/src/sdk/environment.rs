//! The environment that the platform gives to an application.
use vstd::prelude::*;
use crate::device::{DeviceProfile, DEVICE_PROFILE_ENV};
use crate::manifest::id::valid_id;
use crate::manifest::AppId;
use crate::path::FilePath;
use crate::text::text_eq;
use crate::text::{integer_of, is_blank, texts};

verus! {

/// What an application learns from its environment.
#[derive(Clone, Debug)]
pub struct ManagedEnvironment {
    pub app_id: AppId,
    pub device: DeviceProfile,
    pub qtfb_key: i32,
    pub qtfb_socket: FilePath,
    pub lifecycle_fd: i32,
    pub listen_addr: Option<String>,
    pub books_dir: Option<FilePath>,
    pub wallpapers_dir: Option<FilePath>,
}

/// The variables as they were read. The device profile and the listen address
/// come with the result of parsing them.
#[derive(Debug)]
pub struct ManagedVariables {
    pub managed: Option<String>,
    pub app_id: Option<String>,
    pub device_profile: Option<Result<DeviceProfile, String>>,
    pub qtfb_key: Option<String>,
    pub qtfb_socket: Option<String>,
    pub lifecycle_fd: Option<String>,
    pub listen_addr: Option<Result<String, String>>,
    pub books_dir: Option<String>,
    pub wallpapers_dir: Option<String>,
}

/// Why an application cannot use its environment.
#[derive(Debug, PartialEq, Eq)]
pub enum ManagedEnvironmentError {
    NotManaged,
    Missing(&'static str),
    Invalid(&'static str, String),
    AppMismatch { expected: String, actual: String },
    MissingCapability(&'static str),
    IncompleteUploadContract,
}

/// The same reasons over texts.
pub enum EnvironmentFault {
    NotManaged,
    Missing(Seq<char>),
    Invalid(Seq<char>, Seq<char>),
    AppMismatch(Seq<char>, Seq<char>),
    MissingCapability(Seq<char>),
    IncompleteUploadContract,
}

impl View for ManagedEnvironmentError {
    type V = EnvironmentFault;

    open spec fn view(&self) -> EnvironmentFault {
        match self {
            ManagedEnvironmentError::NotManaged => EnvironmentFault::NotManaged,
            ManagedEnvironmentError::Missing(a) => EnvironmentFault::Missing(a@),
            ManagedEnvironmentError::Invalid(a, b) => EnvironmentFault::Invalid(a@, b@),
            ManagedEnvironmentError::AppMismatch { expected, actual } => {
                EnvironmentFault::AppMismatch(expected@, actual@)
            },
            ManagedEnvironmentError::MissingCapability(a) => {
                EnvironmentFault::MissingCapability(a@)
            },
            ManagedEnvironmentError::IncompleteUploadContract => {
                EnvironmentFault::IncompleteUploadContract
            },
        }
    }
}

/// What is wrong with a text that is no 32-bit number, in words.
pub uninterp spec fn i32_complaint(text: Seq<char>) -> Seq<char>;

/// The 32-bit number that a text is, or what is wrong with it.
pub open spec fn parsed_i32(text: Seq<char>) -> Result<i32, Seq<char>> {
    match integer_of(text) {
        Some(n) => if i32::MIN <= n <= i32::MAX {
            Ok(n as i32)
        } else {
            Err(i32_complaint(text))
        },
        None => Err(i32_complaint(text)),
    }
}

/// `str::parse` gives the 32-bit number that a text is: decimal digits after
/// an optional sign. Of another text it gives an error that says in words
/// what is wrong.
#[verifier::external_body]
fn parse_i32(text: &str) -> (r: Result<i32, String>)
    ensures
        match r {
            Ok(n) => integer_of(text@) == Some(n as int),
            Err(message) => {
                &&& integer_of(text@) is None || !(i32::MIN <= integer_of(text@)->0 <= i32::MAX)
                &&& message@ == i32_complaint(text@)
            },
        },
{
    text.parse::<i32>().map_err(|error| error.to_string())
}

/// The fault of a variable that has to be a number.
pub open spec fn number_fault(name: Seq<char>, value: Option<Seq<char>>) -> Option<
    EnvironmentFault,
> {
    match value {
        None => Some(EnvironmentFault::Missing(name)),
        Some(text) => match parsed_i32(text) {
            Ok(_) => None,
            Err(message) => Some(EnvironmentFault::Invalid(name, message)),
        },
    }
}

/// The text of a variable.
pub open spec fn text_of(value: Option<String>) -> Option<Seq<char>> {
    match value {
        Some(text) => Some(text@),
        None => None,
    }
}

/// The path of a variable that is not empty.
pub open spec fn path_of(value: Option<String>) -> Option<Seq<char>> {
    match value {
        Some(text) => if text@.len() > 0 {
            Some(text@)
        } else {
            None
        },
        None => None,
    }
}

/// Reads a variable that has to be a number.
fn read_number(name: &'static str, value: &Option<String>) -> (r: Result<
    i32,
    ManagedEnvironmentError,
>)
    ensures
        match r {
            Ok(n) => value is Some && parsed_i32(value->0@) == Ok::<i32, Seq<char>>(n),
            Err(e) => number_fault(name@, text_of(*value)) == Some(e@),
        },
{
    match value {
        None => Err(ManagedEnvironmentError::Missing(name)),
        Some(text) => match parse_i32(text.as_str()) {
            Ok(n) => Ok(n),
            Err(message) => Err(ManagedEnvironmentError::Invalid(name, message)),
        },
    }
}

/// Reads a variable that may be a path.
fn read_path(value: Option<String>) -> (r: Option<FilePath>)
    ensures
        match r {
            Some(path) => path_of(value) == Some(path@),
            None => path_of(value) is None,
        },
{
    match value {
        Some(text) => if text.as_str().is_empty() {
            None
        } else {
            Some(FilePath { text })
        },
        None => None,
    }
}

/// The fault of the device profile.
pub open spec fn device_fault(profile: Option<Result<DeviceProfile, String>>, e: EnvironmentFault) -> bool {
    match profile {
        None => e == EnvironmentFault::Missing(DEVICE_PROFILE_ENV@),
        Some(Err(message)) => e == EnvironmentFault::Invalid(DEVICE_PROFILE_ENV@, message@),
        Some(Ok(profile)) => {
            &&& !(profile.is_for(profile.product, profile.os_version@) && !is_blank(
                profile.os_version@,
            ))
            &&& exists|error: crate::device::DeviceProfileError| #[trigger]
                profile_error(profile, error) && e == EnvironmentFault::Invalid(
                    DEVICE_PROFILE_ENV@,
                    error.text(),
                )
        },
    }
}

/// What validation says of an unsound profile.
pub open spec fn profile_error(
    profile: DeviceProfile,
    error: crate::device::DeviceProfileError,
) -> bool {
    if profile.schema_version != crate::device::DEVICE_PROFILE_SCHEMA_V1 {
        error == crate::device::DeviceProfileError::UnsupportedSchema(profile.schema_version)
    } else {
        error == crate::device::DeviceProfileError::InvalidProfile
    }
}

/// A sound device profile.
pub open spec fn device_sound(profile: Option<Result<DeviceProfile, String>>) -> bool {
    match profile {
        Some(Ok(profile)) => profile.is_for(profile.product, profile.os_version@) && !is_blank(
            profile.os_version@,
        ),
        _ => false,
    }
}

/// What discovery reports of the variables of an application.
pub open spec fn discovery_fault(
    expected: Seq<char>,
    variables: ManagedVariables,
    e: EnvironmentFault,
) -> bool {
    if text_of(variables.managed) != Some("1"@) {
        e == EnvironmentFault::NotManaged
    } else {
        match variables.app_id {
            None => e == EnvironmentFault::Missing("REMAGIC_APP_ID"@),
            Some(id) => if !valid_id(id@) {
                e == EnvironmentFault::Invalid(
                    "REMAGIC_APP_ID"@,
                    "invalid application id: "@ + id@,
                )
            } else if id@ != expected {
                e == EnvironmentFault::AppMismatch(expected, id@)
            } else if !device_sound(variables.device_profile) {
                device_fault(variables.device_profile, e)
            } else if number_fault("QTFB_KEY"@, text_of(variables.qtfb_key)) is Some {
                number_fault("QTFB_KEY"@, text_of(variables.qtfb_key)) == Some(e)
            } else if variables.qtfb_socket is None {
                e == EnvironmentFault::Missing("REMAGIC_QTFB_SOCKET"@)
            } else if number_fault("REMAGIC_LIFECYCLE_FD"@, text_of(variables.lifecycle_fd)) is Some {
                number_fault("REMAGIC_LIFECYCLE_FD"@, text_of(variables.lifecycle_fd)) == Some(e)
            } else {
                match variables.listen_addr {
                    Some(Err(message)) => e == EnvironmentFault::Invalid(
                        "REMAGIC_LISTEN_ADDR"@,
                        message@,
                    ),
                    _ => false,
                }
            },
        }
    }
}

impl ManagedEnvironment {
    /// The environment that variables describe.
    pub open spec fn describes(&self, expected: Seq<char>, variables: ManagedVariables) -> bool {
        &&& text_of(variables.managed) == Some("1"@)
        &&& self.app_id@ == expected && text_of(variables.app_id) == Some(expected)
        &&& variables.device_profile == Some(Ok::<DeviceProfile, String>(self.device))
        &&& device_sound(variables.device_profile)
        &&& variables.qtfb_key is Some && parsed_i32(variables.qtfb_key->0@) == Ok::<
            i32,
            Seq<char>,
        >(self.qtfb_key)
        &&& text_of(variables.qtfb_socket) == Some(self.qtfb_socket@)
        &&& variables.lifecycle_fd is Some && parsed_i32(variables.lifecycle_fd->0@) == Ok::<
            i32,
            Seq<char>,
        >(self.lifecycle_fd)
        &&& match variables.listen_addr {
            Some(Ok(address)) => self.listen_addr == Some(address),
            Some(Err(_)) => false,
            None => self.listen_addr is None,
        }
        &&& match self.books_dir {
            Some(path) => path_of(variables.books_dir) == Some(path@),
            None => path_of(variables.books_dir) is None,
        }
        &&& match self.wallpapers_dir {
            Some(path) => path_of(variables.wallpapers_dir) == Some(path@),
            None => path_of(variables.wallpapers_dir) is None,
        }
    }

    /// Reads the environment of the application that is expected.
    pub fn discover(expected_app_id: &str, variables: ManagedVariables) -> (r: Result<
        ManagedEnvironment,
        ManagedEnvironmentError,
    >)
        ensures
            match r {
                Ok(environment) => environment.describes(expected_app_id@, variables),
                Err(e) => discovery_fault(expected_app_id@, variables, e@),
            },
    {
        let managed = match &variables.managed {
            Some(value) => text_eq(value.as_str(), "1"),
            None => false,
        };
        if !managed {
            return Err(ManagedEnvironmentError::NotManaged);
        }
        let app_id = match &variables.app_id {
            None => return Err(ManagedEnvironmentError::Missing("REMAGIC_APP_ID")),
            Some(text) => match AppId::new(text.as_str()) {
                Ok(id) => id,
                Err(error) => {
                    return Err(
                        ManagedEnvironmentError::Invalid("REMAGIC_APP_ID", error.message()),
                    );
                },
            },
        };
        if !text_eq(app_id.as_str(), expected_app_id) {
            return Err(
                ManagedEnvironmentError::AppMismatch {
                    expected: expected_app_id.to_owned(),
                    actual: app_id.to_text(),
                },
            );
        }
        let device = match variables.device_profile {
            None => return Err(ManagedEnvironmentError::Missing(DEVICE_PROFILE_ENV)),
            Some(Err(message)) => {
                return Err(ManagedEnvironmentError::Invalid(DEVICE_PROFILE_ENV, message));
            },
            Some(Ok(device)) => device,
        };
        if let Err(error) = device.validate() {
            assert(profile_error(device, error));
            return Err(ManagedEnvironmentError::Invalid(DEVICE_PROFILE_ENV, error.message()));
        }
        let qtfb_key: i32 = match read_number("QTFB_KEY", &variables.qtfb_key) {
            Ok(n) => n,
            Err(e) => return Err(e),
        };
        let qtfb_socket = match variables.qtfb_socket {
            Some(text) => FilePath { text },
            None => return Err(ManagedEnvironmentError::Missing("REMAGIC_QTFB_SOCKET")),
        };
        let lifecycle_fd: i32 = match read_number("REMAGIC_LIFECYCLE_FD", &variables.lifecycle_fd) {
            Ok(n) => n,
            Err(e) => return Err(e),
        };
        let listen_addr = match variables.listen_addr {
            Some(Ok(address)) => Some(address),
            Some(Err(message)) => {
                return Err(ManagedEnvironmentError::Invalid("REMAGIC_LISTEN_ADDR", message));
            },
            None => None,
        };
        Ok(
            ManagedEnvironment {
                app_id,
                device,
                qtfb_key,
                qtfb_socket,
                lifecycle_fd,
                listen_addr,
                books_dir: read_path(variables.books_dir),
                wallpapers_dir: read_path(variables.wallpapers_dir),
            },
        )
    }

    /// Whether the device offers a capability.
    fn offers(&self, capability: &str) -> (r: bool)
        ensures
            r == texts(self.device.capabilities@).contains(capability@),
    {
        let ghost list = texts(self.device.capabilities@);
        let mut i: usize = 0;
        while i < self.device.capabilities.len()
            invariant
                i <= self.device.capabilities@.len(),
                list == texts(self.device.capabilities@),
                forall|j: int| 0 <= j < i ==> list[j] != capability@,
            decreases self.device.capabilities@.len() - i,
        {
            assert(list[i as int] == self.device.capabilities@[i as int]@);
            if text_eq(self.device.capabilities[i].as_str(), capability) {
                return true;
            }
            i = i + 1;
        }
        false
    }

    /// The capabilities that an upload needs, in the order of their checks.
    pub open spec fn upload_capabilities() -> Seq<Seq<char>> {
        seq![
            "display:qtfb-v1"@,
            "input:touch-v1"@,
            "lifecycle:v2"@,
            "network:listen-v1"@,
            "storage:books-write-v1"@,
            "storage:wallpapers-write-v1"@,
        ]
    }

    /// The first capability of an upload that the device does not offer.
    pub open spec fn lacks(&self, i: int) -> bool {
        &&& 0 <= i < 6
        &&& !texts(self.device.capabilities@).contains(Self::upload_capabilities()[i])
        &&& forall|j: int|
            0 <= j < i ==> texts(self.device.capabilities@).contains(
                #[trigger] Self::upload_capabilities()[j],
            )
    }

    /// Checks that the device and the environment allow uploads.
    pub fn require_upload_contract(&self) -> (r: Result<(), ManagedEnvironmentError>)
        ensures
            match r {
                Ok(_) => {
                    &&& forall|j: int|
                        0 <= j < 6 ==> texts(self.device.capabilities@).contains(
                            #[trigger] Self::upload_capabilities()[j],
                        )
                    &&& self.listen_addr is Some && self.books_dir is Some
                        && self.wallpapers_dir is Some
                },
                Err(ManagedEnvironmentError::MissingCapability(name)) => exists|i: int|
                    self.lacks(i) && name@ == #[trigger] Self::upload_capabilities()[i],
                Err(ManagedEnvironmentError::IncompleteUploadContract) => {
                    &&& forall|j: int|
                        0 <= j < 6 ==> texts(self.device.capabilities@).contains(
                            #[trigger] Self::upload_capabilities()[j],
                        )
                    &&& self.listen_addr is None || self.books_dir is None
                        || self.wallpapers_dir is None
                },
                Err(_) => false,
            },
    {
        let ghost names = Self::upload_capabilities();
        let mut i: usize = 0;
        while i < 6
            invariant
                i <= 6,
                names == Self::upload_capabilities(),
                forall|j: int|
                    0 <= j < i ==> texts(self.device.capabilities@).contains(#[trigger] names[j]),
            decreases 6 - i,
        {
            let name = if i == 0 {
                "display:qtfb-v1"
            } else if i == 1 {
                "input:touch-v1"
            } else if i == 2 {
                "lifecycle:v2"
            } else if i == 3 {
                "network:listen-v1"
            } else if i == 4 {
                "storage:books-write-v1"
            } else {
                "storage:wallpapers-write-v1"
            };
            assert(names[i as int] == name@);
            if !self.offers(name) {
                assert(self.lacks(i as int));
                return Err(ManagedEnvironmentError::MissingCapability(name));
            }
            i = i + 1;
        }
        if self.listen_addr.is_none() || self.books_dir.is_none() || self.wallpapers_dir.is_none() {
            return Err(ManagedEnvironmentError::IncompleteUploadContract);
        }
        Ok(())
    }
}

/// Every supported device offers what an upload needs.
pub proof fn supported_devices_offer_uploads(profile: DeviceProfile, i: int)
    requires
        profile.is_for(profile.product, profile.os_version@),
        0 <= i < 6,
    ensures
        texts(profile.capabilities@).contains(ManagedEnvironment::upload_capabilities()[i]),
{
    let offered = crate::device::device_capabilities();
    let needed = ManagedEnvironment::upload_capabilities();
    assert(offered[1] == needed[0]);
    assert(offered[6] == needed[1]);
    assert(offered[7] == needed[2]);
    assert(offered[9] == needed[3]);
    assert(offered[10] == needed[4]);
    assert(offered[11] == needed[5]);
}

impl EnvironmentFault {
    /// The reason in words.
    pub open spec fn text(self) -> Seq<char> {
        match self {
            EnvironmentFault::NotManaged => "application was not launched by ReMagic"@,
            EnvironmentFault::Missing(a) => "managed environment is missing "@ + a,
            EnvironmentFault::Invalid(a, b) => "invalid "@ + a + ": "@ + b,
            EnvironmentFault::AppMismatch(expected, actual) => "runtime launched app "@ + actual + ", expected "@ + expected,
            EnvironmentFault::MissingCapability(a) => "device profile is missing required capability "@ + a,
            EnvironmentFault::IncompleteUploadContract => "runtime did not provide the upload network and storage contract"@,
        }
    }
}

impl ManagedEnvironmentError {
    /// The reason in words.
    pub fn message(&self) -> (r: String)
        ensures
            r@ == self@.text(),
    {
        match self {
            ManagedEnvironmentError::NotManaged => "application was not launched by ReMagic".to_owned(),
            ManagedEnvironmentError::Missing(a) => {
                let mut message = "managed environment is missing ".to_owned();
                message.append(a);
                message
            },
            ManagedEnvironmentError::Invalid(a, b) => {
                let mut message = "invalid ".to_owned();
                message.append(a);
                message.append(": ");
                message.append(b.as_str());
                message
            },
            ManagedEnvironmentError::AppMismatch { expected, actual } => {
                let mut message = "runtime launched app ".to_owned();
                message.append(actual.as_str());
                message.append(", expected ");
                message.append(expected.as_str());
                message
            },
            ManagedEnvironmentError::MissingCapability(a) => {
                let mut message = "device profile is missing required capability ".to_owned();
                message.append(a);
                message
            },
            ManagedEnvironmentError::IncompleteUploadContract => "runtime did not provide the upload network and storage contract".to_owned(),
        }
    }
}

/// An application that was launched by the platform under its own name, with a sound device
/// profile, a display, a channel to the lifecycle and no bad address, has no fault to report.
pub proof fn managed_applications_are_discovered(
    expected: Seq<char>,
    variables: ManagedVariables,
    fault: EnvironmentFault,
)
    requires
        variables.managed is Some && variables.managed->0@ == "1"@,
        variables.app_id is Some && variables.app_id->0@ == expected && valid_id(expected),
        device_sound(variables.device_profile),
        variables.qtfb_key is Some && integer_of(variables.qtfb_key->0@) is Some && i32::MIN
            <= integer_of(variables.qtfb_key->0@)->0 <= i32::MAX,
        variables.qtfb_socket is Some,
        variables.lifecycle_fd is Some && integer_of(variables.lifecycle_fd->0@) is Some && i32::MIN
            <= integer_of(variables.lifecycle_fd->0@)->0 <= i32::MAX,
        variables.listen_addr is Some ==> variables.listen_addr->0 is Ok,
    ensures
        !discovery_fault(expected, variables, fault),
{
}

/// A process that the platform did not launch, or launched as another application, is told so
/// before anything else is looked at.
pub proof fn other_processes_are_told_apart(
    expected: Seq<char>,
    variables: ManagedVariables,
    fault: EnvironmentFault,
)
    ensures
        variables.managed is None || variables.managed->0@ != "1"@ ==> (discovery_fault(
            expected,
            variables,
            fault,
        ) <==> fault == EnvironmentFault::NotManaged),
        variables.managed is Some && variables.managed->0@ == "1"@ && variables.app_id is Some
            && valid_id(variables.app_id->0@) && variables.app_id->0@ != expected ==> (
        discovery_fault(expected, variables, fault) <==> fault == EnvironmentFault::AppMismatch(
            expected,
            variables.app_id->0@,
        )),
{
}

/// What is discovered is what the variables say, number by number and path by path.
pub proof fn discovered_environments_repeat_the_variables(
    environment: ManagedEnvironment,
    expected: Seq<char>,
    variables: ManagedVariables,
)
    requires
        environment.describes(expected, variables),
    ensures
        variables.managed is Some && variables.managed->0@ == "1"@,
        environment.app_id@ == expected,
        variables.app_id is Some && variables.app_id->0@ == expected,
        integer_of(variables.qtfb_key->0@) == Some(environment.qtfb_key as int),
        integer_of(variables.lifecycle_fd->0@) == Some(environment.lifecycle_fd as int),
        environment.qtfb_socket@ == variables.qtfb_socket->0@,
        environment.listen_addr is Some <==> variables.listen_addr is Some,
        environment.listen_addr is Some ==> variables.listen_addr == Some(
            Ok::<String, String>(environment.listen_addr->0),
        ),
        environment.books_dir is Some <==> variables.books_dir is Some
            && variables.books_dir->0@.len() > 0,
        environment.books_dir is Some ==> environment.books_dir->0@ == variables.books_dir->0@,
        environment.wallpapers_dir is Some <==> variables.wallpapers_dir is Some
            && variables.wallpapers_dir->0@.len() > 0,
        environment.wallpapers_dir is Some ==> environment.wallpapers_dir->0@
            == variables.wallpapers_dir->0@,
{
}

} // verus!
