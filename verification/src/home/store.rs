//! The application store and system updates: the programs that the home
//! surface runs for them, and what it makes of their answers.
use vstd::prelude::*;
use crate::device::{DeviceProduct, DeviceProfile};
use crate::first::{first_some, lemma_first_at, lemma_first_none};
use crate::json::{
    json_array, json_get, json_str, json_u64, parse_json_bytes, text_at, text_at_is,
};
use crate::json::{json_document, json_tree, trees, JsonTree};
use crate::manifest::REMAGIC_APP_API_VERSION;
use crate::text::{
    decimal_text, parse_u64, push_variable, split_on, strip_prefix, strip_suffix_char, text_eq,
    trim_text, Trim,
};
use crate::text::{
    decimal, decimal_digits_are_read_back, line_at, natural_of, pairs, split, texts, trim,
};

verus! {

pub const STORE_BINARY: &'static str =
    "/home/root/apps/remagic-store/current/payload/bin/remagic-store";

pub const UPDATE_BINARY: &'static str = "/home/root/apps/remagic/bin/remagic-update";

pub const SYSTEM_RELEASE_URL: &'static str =
    "https://github.com/aporicho/remagic/releases/latest/download/remagic-release-v1.json";

pub const SYSTEM_SIGNATURE_URL: &'static str =
    "https://github.com/aporicho/remagic/releases/latest/download/remagic-release-v1.sig.json";

/// Where programs are searched.
pub const PROGRAM_PATH: &'static str = "/usr/local/sbin:/usr/local/bin:/usr/sbin:/usr/bin:/sbin:/bin";

/// How long an operation on a package may take, in seconds.
pub const PACKAGE_TIMEOUT_SECS: u64 = 900;

/// The name under which a system update is in progress.
pub const SYSTEM_TARGET: &'static str = "__system__";

/// How an application stands on this device.
#[derive(Clone, Copy, Debug, PartialEq, Eq, Structural)]
pub enum CatalogStatus {
    NotInstalled,
    Installed,
    UpdateAvailable,
    NeedsConfiguration,
    Incompatible,
}

/// An application of the store.
#[derive(Debug, PartialEq, Eq)]
pub struct CatalogApp {
    pub id: String,
    pub name: String,
    pub summary: String,
    pub version: String,
    pub status: CatalogStatus,
}

/// An application of the store over texts.
pub struct CatalogView {
    pub id: Seq<char>,
    pub name: Seq<char>,
    pub summary: Seq<char>,
    pub version: Seq<char>,
    pub status: CatalogStatus,
}

impl View for CatalogApp {
    type V = CatalogView;

    open spec fn view(&self) -> CatalogView {
        CatalogView {
            id: self.id@,
            name: self.name@,
            summary: self.summary@,
            version: self.version@,
            status: self.status,
        }
    }
}

impl Clone for CatalogApp {
    fn clone(&self) -> (r: CatalogApp)
        ensures
            r == *self,
    {
        CatalogApp {
            id: self.id.clone(),
            name: self.name.clone(),
            summary: self.summary.clone(),
            version: self.version.clone(),
            status: self.status,
        }
    }
}

/// The views of a list of applications.
pub open spec fn catalog_views(apps: Seq<CatalogApp>) -> Seq<CatalogView> {
    apps.map_values(|app: CatalogApp| app@)
}

/// What is known of system updates.
#[derive(Debug, PartialEq, Eq)]
pub struct SystemUpdateInfo {
    pub current_version: String,
    pub available_version: String,
    pub update_available: bool,
}

/// An operation in progress. How far it is in hundredths, where that is known.
#[derive(Debug, PartialEq, Eq)]
pub struct OperationProgress {
    pub target_id: String,
    pub label: String,
    pub percent: Option<u8>,
}

/// An operation in progress over texts.
pub struct ProgressView {
    pub target_id: Seq<char>,
    pub label: Seq<char>,
    pub percent: Option<u8>,
}

impl View for OperationProgress {
    type V = ProgressView;

    open spec fn view(&self) -> ProgressView {
        ProgressView { target_id: self.target_id@, label: self.label@, percent: self.percent }
    }
}

impl OperationProgress {
    /// An operation of which nobody knows how far it is.
    pub fn indeterminate(target_id: &str, label: &str) -> (r: OperationProgress)
        ensures
            r@ == (ProgressView { target_id: target_id@, label: label@, percent: None }),
    {
        OperationProgress { target_id: target_id.to_owned(), label: label.to_owned(), percent: None }
    }

    /// An operation that is done.
    pub fn complete(target_id: &str, label: &str) -> (r: OperationProgress)
        ensures
            r@ == (ProgressView { target_id: target_id@, label: label@, percent: Some(100) }),
    {
        OperationProgress {
            target_id: target_id.to_owned(),
            label: label.to_owned(),
            percent: Some(100),
        }
    }
}

/// What an operation came to.
#[derive(Debug, PartialEq, Eq)]
pub enum TaskResult {
    Store { app_id: String, result: Result<(), String> },
    SystemInstall { result: Result<(), String> },
}

/// The name of a product.
pub open spec fn product_text(product: DeviceProduct) -> Seq<char> {
    match product {
        DeviceProduct::PaperPro => "paper_pro"@,
        DeviceProduct::PaperProMove => "paper_pro_move"@,
    }
}

/// The name of a product.
pub fn product_name(product: DeviceProduct) -> (r: &'static str)
    ensures
        r@ == product_text(product),
{
    match product {
        DeviceProduct::PaperPro => "paper_pro",
        DeviceProduct::PaperProMove => "paper_pro_move",
    }
}

/// How an entry of the catalog says that an application stands.
pub open spec fn status_of(entry: JsonTree) -> CatalogStatus {
    let said = match entry.get("status"@) {
        Some(status) => status.text_at("status"@),
        None => None,
    };
    if said == Some("installed"@) {
        CatalogStatus::Installed
    } else if said == Some("update_available"@) {
        CatalogStatus::UpdateAvailable
    } else if said == Some("needs_configuration"@) {
        CatalogStatus::NeedsConfiguration
    } else if said == Some("incompatible"@) {
        CatalogStatus::Incompatible
    } else {
        CatalogStatus::NotInstalled
    }
}

/// The application of an entry of the catalog, where the entry is whole.
pub open spec fn entry_app(entry: JsonTree) -> Option<CatalogView> {
    let id = entry.text_at("id"@);
    let name = entry.text_at("name"@);
    let summary = entry.text_at("summary"@);
    let version = entry.text_at("available_version"@);
    if id is Some && name is Some && summary is Some && version is Some {
        Some(
            CatalogView {
                id: id->0,
                name: name->0,
                summary: summary->0,
                version: version->0,
                status: status_of(entry),
            },
        )
    } else {
        None
    }
}

/// The applications of whole entries, in order.
pub open spec fn entry_apps(entries: Seq<JsonTree>) -> Seq<CatalogView>
    decreases entries.len(),
{
    if entries.len() == 0 {
        Seq::empty()
    } else {
        let before = entry_apps(entries.drop_last());
        match entry_app(entries.last()) {
            Some(app) => before.push(app),
            None => before,
        }
    }
}

/// The catalog in a document, where it is one.
pub open spec fn document_apps(tree: JsonTree) -> Option<Seq<CatalogView>> {
    match tree.get("apps"@) {
        Some(JsonTree::Array(entries)) => Some(entry_apps(entries)),
        _ => None,
    }
}

/// The application of an entry of the catalog, where the entry is whole.
pub fn catalog_entry(entry: &serde_json::Value) -> (r: Option<CatalogApp>)
    ensures
        match r {
            Some(app) => entry_app(json_tree(*entry)) == Some(app@),
            None => entry_app(json_tree(*entry)) is None,
        },
{
    let id = match text_at(entry, "id") {
        Some(id) => id.to_owned(),
        None => return None,
    };
    let name = match text_at(entry, "name") {
        Some(name) => name.to_owned(),
        None => return None,
    };
    let summary = match text_at(entry, "summary") {
        Some(summary) => summary.to_owned(),
        None => return None,
    };
    let version = match text_at(entry, "available_version") {
        Some(version) => version.to_owned(),
        None => return None,
    };
    let status = match json_get(entry, "status") {
        Some(status) => if text_at_is(status, "status", "installed") {
            CatalogStatus::Installed
        } else if text_at_is(status, "status", "update_available") {
            CatalogStatus::UpdateAvailable
        } else if text_at_is(status, "status", "needs_configuration") {
            CatalogStatus::NeedsConfiguration
        } else if text_at_is(status, "status", "incompatible") {
            CatalogStatus::Incompatible
        } else {
            CatalogStatus::NotInstalled
        },
        None => CatalogStatus::NotInstalled,
    };
    Some(CatalogApp { id, name, summary, version, status })
}

/// The catalog in a document.
pub fn catalog_from(value: &serde_json::Value) -> (r: Result<Vec<CatalogApp>, String>)
    ensures
        match r {
            Ok(apps) => document_apps(json_tree(*value)) == Some(catalog_views(apps@)),
            Err(message) => document_apps(json_tree(*value)) is None && message@
                == "应用商店返回了无效目录"@,
        },
{
    let entries = match json_get(value, "apps") {
        Some(entries) => match json_array(entries) {
            Some(entries) => entries,
            None => return Err("应用商店返回了无效目录".to_owned()),
        },
        None => return Err("应用商店返回了无效目录".to_owned()),
    };
    let ghost all = trees(entries@);
    let mut apps: Vec<CatalogApp> = Vec::new();
    let mut i: usize = 0;
    assert(all.take(0) =~= Seq::<JsonTree>::empty());
    assert(catalog_views(apps@) =~= Seq::<CatalogView>::empty());
    while i < entries.len()
        invariant
            i <= entries@.len(),
            all == trees(entries@),
            catalog_views(apps@) == entry_apps(all.take(i as int)),
        decreases entries@.len() - i,
    {
        assert(all.take(i + 1).drop_last() =~= all.take(i as int));
        assert(all.take(i + 1).last() == json_tree(entries@[i as int]));
        let ghost before = catalog_views(apps@);
        if let Some(app) = catalog_entry(&entries[i]) {
            apps.push(app);
            assert(catalog_views(apps@) =~= before.push(app@));
        }
        i = i + 1;
    }
    assert(all.take(i as int) =~= all);
    Ok(apps)
}

/// What a program that was run came to: whether it succeeded, what it wrote,
/// and what it complained about.
#[derive(Debug, PartialEq, Eq)]
pub struct ProcessOutput {
    pub success: bool,
    pub stdout: Vec<u8>,
    pub stderr: String,
    /// How the program ended, in words.
    pub status: String,
}

/// The catalog that the store's program wrote.
pub fn catalog(output: &ProcessOutput) -> (r: Result<Vec<CatalogApp>, String>)
    ensures
        if !output.success {
            r is Err && r->Err_0@ == trim(output.stderr@, Trim::Space)
        } else {
            match json_document(output.stdout@) {
                Err(message) => r is Err && r->Err_0@ == message,
                Ok(tree) => match document_apps(tree) {
                    Some(apps) => r is Ok && catalog_views(r->Ok_0@) == apps,
                    None => r is Err && r->Err_0@ == "应用商店返回了无效目录"@,
                },
            }
        },
{
    if !output.success {
        return Err(trim_text(output.stderr.as_str(), Trim::Space));
    }
    match parse_json_bytes(output.stdout.as_slice()) {
        Ok(value) => catalog_from(&value),
        Err(message) => Err(message),
    }
}

/// The value that a line gives to a key.
pub open spec fn line_value(line: Seq<char>, key: Seq<char>) -> Option<Seq<char>> {
    let prefix = key + "="@;
    if prefix.is_prefix_of(line) {
        Some(line.skip(prefix.len() as int))
    } else {
        None
    }
}

/// The values that the lines of a text give to a key.
pub open spec fn line_values(text: Seq<char>, key: Seq<char>) -> Seq<Option<Seq<char>>> {
    let pieces = split(text, '\n');
    Seq::new(pieces.len(), |i: int| line_value(line_at(pieces, i), key))
}

/// The value of a key in a text of assignments: the first that it is given.
pub fn manifest_value(text: &str, key: &str) -> (r: Option<String>)
    ensures
        match r {
            Some(value) => first_some(line_values(text@, key@)) == Some(value@),
            None => first_some(line_values(text@, key@)) is None,
        },
{
    let mut prefix = key.to_owned();
    prefix.append("=");
    let lines = split_on(text, '\n');
    let ghost pieces = split(text@, '\n');
    let ghost values = line_values(text@, key@);
    let count: usize = lines.len();
    let mut i: usize = 0;
    while i < count
        invariant
            i <= count,
            count == lines@.len(),
            pieces == texts(lines@),
            pieces == split(text@, '\n'),
            values == line_values(text@, key@),
            prefix@ == key@ + "="@,
            forall|j: int| 0 <= j < i ==> #[trigger] values[j] is None,
        decreases count - i,
    {
        assert(pieces[i as int] == lines@[i as int]@);
        assert(values[i as int] == line_value(line_at(pieces, i as int), key@));
        let value = if i < count - 1 {
            let line = strip_suffix_char(lines[i].as_str(), '\r');
            assert(line@ == line_at(pieces, i as int));
            strip_prefix(line.as_str(), prefix.as_str())
        } else {
            strip_prefix(lines[i].as_str(), prefix.as_str())
        };
        if let Some(value) = value {
            proof {
                lemma_first_at(values, i as int);
            }
            return Some(value);
        }
        i = i + 1;
    }
    proof {
        lemma_first_none(values);
    }
    None
}

/// The number of the installed release that its file states; zero where it
/// states none.
pub open spec fn stated_sequence(release: Option<Seq<char>>) -> nat {
    match release {
        Some(text) => match first_some(line_values(text, "REMAGIC_RELEASE_SEQUENCE"@)) {
            Some(value) => match natural_of(value) {
                Some(n) => if n <= u64::MAX {
                    n
                } else {
                    0
                },
                None => 0,
            },
            None => 0,
        },
        None => 0,
    }
}

/// The text of a file that may be missing.
pub open spec fn file_text(file: Option<String>) -> Option<Seq<char>> {
    match file {
        Some(text) => Some(text@),
        None => None,
    }
}

/// The number of the installed release, from its file.
pub fn installed_sequence(release: Option<String>) -> (r: u64)
    ensures
        r == stated_sequence(file_text(release)),
{
    match release {
        Some(text) => match manifest_value(text.as_str(), "REMAGIC_RELEASE_SEQUENCE") {
            Some(value) => match parse_u64(value.as_str()) {
                Some(n) => n,
                None => 0,
            },
            None => 0,
        },
        None => 0,
    }
}

/// The version of the installed release, from its file, or that of this
/// program.
pub fn installed_version(release: Option<String>, own_version: &str) -> (r: String)
    ensures
        r@ == (match file_text(release) {
            Some(text) => match first_some(line_values(text, "REMAGIC_VERSION"@)) {
                Some(value) => value,
                None => own_version@,
            },
            None => own_version@,
        }),
{
    match release {
        Some(text) => match manifest_value(text.as_str(), "REMAGIC_VERSION") {
            Some(value) => value,
            None => own_version.to_owned(),
        },
        None => own_version.to_owned(),
    }
}

/// What a release that was found means for the installed one.
pub fn system_update_from(
    release: &serde_json::Value,
    installed: u64,
    current_version: String,
) -> (r: SystemUpdateInfo)
    ensures
        r.current_version == current_version,
        r.available_version@ == (match json_tree(*release).text_at("version"@) {
            Some(version) => version,
            None => "未知"@,
        }),
        r.update_available == (match json_tree(*release).number_at("sequence"@) {
            Some(sequence) => sequence > installed,
            None => false,
        }),
{
    let available_version = match text_at(release, "version") {
        Some(version) => version.to_owned(),
        None => "未知".to_owned(),
    };
    let sequence = match json_get(release, "sequence") {
        Some(sequence) => match json_u64(sequence) {
            Some(sequence) => sequence,
            None => installed,
        },
        None => installed,
    };
    SystemUpdateInfo { current_version, available_version, update_available: sequence > installed }
}

/// What the update program found.
pub fn system_update_info(output: &ProcessOutput, installed: u64, current_version: String) -> (r:
    Result<SystemUpdateInfo, String>)
    ensures
        if !output.success {
            r is Err && r->Err_0@ == trim(output.stderr@, Trim::Space)
        } else {
            match json_document(output.stdout@) {
                Err(message) => r is Err && r->Err_0@ == message,
                Ok(tree) => {
                    &&& r is Ok
                    &&& r->Ok_0.current_version == current_version
                    &&& r->Ok_0.available_version@ == (match tree.text_at("version"@) {
                        Some(version) => version,
                        None => "未知"@,
                    })
                    &&& r->Ok_0.update_available == (match tree.number_at("sequence"@) {
                        Some(sequence) => sequence > installed,
                        None => false,
                    })
                },
            }
        },
{
    if !output.success {
        return Err(trim_text(output.stderr.as_str(), Trim::Space));
    }
    match parse_json_bytes(output.stdout.as_slice()) {
        Ok(value) => Ok(system_update_from(&value, installed, current_version)),
        Err(message) => Err(message),
    }
}

/// What an operation without an answer came to: its complaint, where it
/// failed.
pub fn operation_result(output: &ProcessOutput) -> (r: Result<(), String>)
    ensures
        match r {
            Ok(_) => output.success,
            Err(message) => !output.success && message@ == trim(output.stderr@, Trim::Space),
        },
{
    if output.success {
        Ok(())
    } else {
        Err(trim_text(output.stderr.as_str(), Trim::Space))
    }
}

/// What an operation on a package came to. An installation that failed without
/// a complaint is reported by how its program ended.
pub fn package_result(operation: StoreOperation, output: &ProcessOutput) -> (r: Result<(), String>)
    ensures
        match r {
            Ok(_) => output.success,
            Err(message) => {
                let complaint = trim(output.stderr@, Trim::Space);
                &&& !output.success
                &&& message@ == (if complaint.len() == 0 && operation != StoreOperation::Uninstall {
                    "应用安装失败："@ + output.status@
                } else {
                    complaint
                })
            },
        },
{
    if output.success {
        return Ok(());
    }
    let complaint = trim_text(output.stderr.as_str(), Trim::Space);
    if complaint.as_str().is_empty() && operation != StoreOperation::Uninstall {
        let mut message = "应用安装失败：".to_owned();
        message.append(output.status.as_str());
        Err(message)
    } else {
        Err(complaint)
    }
}

/// The complaint about an operation on a package that took too long.
pub fn late_complaint(operation: StoreOperation) -> (r: &'static str)
    ensures
        r@ == (if operation == StoreOperation::Uninstall {
            "应用卸载超时"@
        } else {
            "应用安装超时"@
        }),
{
    if operation == StoreOperation::Uninstall {
        "应用卸载超时"
    } else {
        "应用安装超时"
    }
}

/// How a program is run.
#[derive(Debug, PartialEq, Eq)]
pub struct ProgramCall {
    pub program: &'static str,
    pub arguments: Vec<String>,
    /// All that is in its environment, where it does not inherit one.
    pub environment: Option<Vec<(&'static str, String)>>,
    /// Whether it is killed when nobody waits for it any more.
    pub kill_on_drop: bool,
}

impl ProgramCall {
    /// The program runs with nothing but these variables, and no longer than
    /// somebody waits for it.
    pub open spec fn confined(self, variables: Seq<(Seq<char>, Seq<char>)>) -> bool {
        &&& self.environment is Some
        &&& pairs(self.environment->0@) == variables
        &&& self.kill_on_drop
    }
}

/// The variables that every program of the store gets.
pub open spec fn store_variables() -> Seq<(Seq<char>, Seq<char>)> {
    seq![("PATH"@, PROGRAM_PATH@), ("HOME"@, "/home/root"@)]
}

/// The variables that every program of the store gets.
fn store_environment() -> (r: Vec<(&'static str, String)>)
    ensures
        pairs(r@) == store_variables(),
{
    let mut environment: Vec<(&'static str, String)> = Vec::new();
    push_variable(&mut environment, "PATH", PROGRAM_PATH.to_owned());
    push_variable(&mut environment, "HOME", "/home/root".to_owned());
    assert(pairs(environment@) =~= store_variables());
    environment
}

/// Adds one argument.
fn push_argument(arguments: &mut Vec<String>, argument: &str)
    ensures
        texts(final(arguments)@) == texts(old(arguments)@).push(argument@),
{
    let ghost before = texts(arguments@);
    arguments.push(argument.to_owned());
    assert(texts(arguments@) =~= before.push(argument@));
}

/// The version of the interface to applications, in digits.
pub open spec fn api_text() -> Seq<char> {
    decimal(REMAGIC_APP_API_VERSION as nat)
}

/// Asks the store's program for its catalog.
pub fn catalog_call(device: &DeviceProfile) -> (r: ProgramCall)
    ensures
        r.program@ == STORE_BINARY@,
        texts(r.arguments@) == seq![
            "catalog"@,
            product_text(device.product),
            device.os_version@,
            api_text(),
        ],
        r.confined(store_variables().push(("REMAGIC_API_VERSION"@, api_text()))),
{
    let mut arguments: Vec<String> = Vec::new();
    push_argument(&mut arguments, "catalog");
    push_argument(&mut arguments, product_name(device.product));
    push_argument(&mut arguments, device.os_version.as_str());
    push_argument(&mut arguments, decimal_text(REMAGIC_APP_API_VERSION as u64).as_str());
    assert(texts(arguments@) =~= seq![
        "catalog"@,
        product_text(device.product),
        device.os_version@,
        api_text(),
    ]);
    let mut environment = store_environment();
    push_variable(
        &mut environment,
        "REMAGIC_API_VERSION",
        decimal_text(REMAGIC_APP_API_VERSION as u64),
    );
    ProgramCall {
        program: STORE_BINARY,
        arguments,
        environment: Some(environment),
        kill_on_drop: true,
    }
}

/// Asks the update program for a newer release.
pub fn update_check_call(device: &DeviceProfile, installed: u64) -> (r: ProgramCall)
    ensures
        r.program@ == UPDATE_BINARY@,
        texts(r.arguments@) == seq![
            "check"@,
            SYSTEM_RELEASE_URL@,
            SYSTEM_SIGNATURE_URL@,
            product_text(device.product),
            device.os_version@,
            decimal(installed as nat),
        ],
        r.confined(seq![("PATH"@, PROGRAM_PATH@)]),
{
    let mut arguments: Vec<String> = Vec::new();
    push_argument(&mut arguments, "check");
    push_argument(&mut arguments, SYSTEM_RELEASE_URL);
    push_argument(&mut arguments, SYSTEM_SIGNATURE_URL);
    push_argument(&mut arguments, product_name(device.product));
    push_argument(&mut arguments, device.os_version.as_str());
    push_argument(&mut arguments, decimal_text(installed).as_str());
    assert(texts(arguments@) =~= seq![
        "check"@,
        SYSTEM_RELEASE_URL@,
        SYSTEM_SIGNATURE_URL@,
        product_text(device.product),
        device.os_version@,
        decimal(installed as nat),
    ]);
    let mut environment: Vec<(&'static str, String)> = Vec::new();
    push_variable(&mut environment, "PATH", PROGRAM_PATH.to_owned());
    assert(pairs(environment@) =~= seq![("PATH"@, PROGRAM_PATH@)]);
    ProgramCall {
        program: UPDATE_BINARY,
        arguments,
        environment: Some(environment),
        kill_on_drop: true,
    }
}

/// Has the update program install a newer release, in a unit of its own.
pub fn update_install_call(device: &DeviceProfile, installed: u64, process: u32) -> (r: ProgramCall)
    ensures
        r.program@ == "systemd-run"@,
        texts(r.arguments@) == seq![
            "--collect"@,
            "--unit"@,
            "remagic-system-update-"@ + decimal(process as nat),
            UPDATE_BINARY@,
            "install"@,
            SYSTEM_RELEASE_URL@,
            SYSTEM_SIGNATURE_URL@,
            product_text(device.product),
            device.os_version@,
            decimal(installed as nat),
        ],
        r.environment is None,
        !r.kill_on_drop,
{
    let mut unit = "remagic-system-update-".to_owned();
    let number = decimal_text(process as u64);
    unit.append(number.as_str());
    let mut arguments: Vec<String> = Vec::new();
    push_argument(&mut arguments, "--collect");
    push_argument(&mut arguments, "--unit");
    push_argument(&mut arguments, unit.as_str());
    push_argument(&mut arguments, UPDATE_BINARY);
    push_argument(&mut arguments, "install");
    push_argument(&mut arguments, SYSTEM_RELEASE_URL);
    push_argument(&mut arguments, SYSTEM_SIGNATURE_URL);
    push_argument(&mut arguments, product_name(device.product));
    push_argument(&mut arguments, device.os_version.as_str());
    push_argument(&mut arguments, decimal_text(installed).as_str());
    assert(texts(arguments@) =~= seq![
        "--collect"@,
        "--unit"@,
        unit@,
        UPDATE_BINARY@,
        "install"@,
        SYSTEM_RELEASE_URL@,
        SYSTEM_SIGNATURE_URL@,
        product_text(device.product),
        device.os_version@,
        decimal(installed as nat),
    ]);
    ProgramCall { program: "systemd-run", arguments, environment: None, kill_on_drop: false }
}

/// An operation on a package.
#[derive(Clone, Copy, Debug, PartialEq, Eq, Structural)]
pub enum StoreOperation {
    Install,
    Upgrade,
    Uninstall,
}

/// The applications that the store knows.
pub open spec fn known_app(app_id: Seq<char>) -> bool {
    app_id == "magicpaper"@ || app_id == "koreader"@ || app_id == "upload"@
}

/// The complaint about an operation that is not even tried.
pub open spec fn operation_complaint(
    operation: StoreOperation,
    app_id: Seq<char>,
    store_installed: bool,
) -> Option<Seq<char>> {
    if !known_app(app_id) {
        Some("应用商店没有这个应用："@ + app_id)
    } else if operation != StoreOperation::Uninstall && !store_installed {
        Some("应用商店组件未安装，请先更新 ReMagic"@)
    } else {
        None
    }
}

/// Whether an operation may be tried.
pub fn check_operation(operation: StoreOperation, app_id: &str, store_installed: bool) -> (r:
    Result<(), String>)
    ensures
        match r {
            Ok(_) => operation_complaint(operation, app_id@, store_installed) is None,
            Err(message) => operation_complaint(operation, app_id@, store_installed) == Some(
                message@,
            ),
        },
{
    if !(text_eq(app_id, "magicpaper") || text_eq(app_id, "koreader") || text_eq(
        app_id,
        "upload",
    )) {
        let mut message = "应用商店没有这个应用：".to_owned();
        message.append(app_id);
        return Err(message);
    }
    if operation != StoreOperation::Uninstall && !store_installed {
        return Err("应用商店组件未安装，请先更新 ReMagic".to_owned());
    }
    Ok(())
}

/// Has the store's program install a package, or upgrade it.
pub fn package_call(upgrade: bool, app_id: &str, device: &DeviceProfile, socket: &str) -> (r:
    ProgramCall)
    ensures
        r.program@ == STORE_BINARY@,
        texts(r.arguments@) == seq![
            if upgrade {
                "upgrade"@
            } else {
                "install"@
            },
            app_id@,
            product_text(device.product),
            device.os_version@,
            api_text(),
        ],
        r.confined(
            store_variables().push(("REMAGIC_API_VERSION"@, api_text())).push(
                ("REMAGIC_CONTROL_SOCKET"@, socket@),
            ),
        ),
{
    let mut arguments: Vec<String> = Vec::new();
    let word = if upgrade {
        "upgrade"
    } else {
        "install"
    };
    push_argument(&mut arguments, word);
    push_argument(&mut arguments, app_id);
    push_argument(&mut arguments, product_name(device.product));
    push_argument(&mut arguments, device.os_version.as_str());
    push_argument(&mut arguments, decimal_text(REMAGIC_APP_API_VERSION as u64).as_str());
    assert(texts(arguments@) =~= seq![
        word@,
        app_id@,
        product_text(device.product),
        device.os_version@,
        api_text(),
    ]);
    let mut environment = store_environment();
    push_variable(
        &mut environment,
        "REMAGIC_API_VERSION",
        decimal_text(REMAGIC_APP_API_VERSION as u64),
    );
    push_variable(&mut environment, "REMAGIC_CONTROL_SOCKET", socket.to_owned());
    ProgramCall {
        program: STORE_BINARY,
        arguments,
        environment: Some(environment),
        kill_on_drop: true,
    }
}

/// Has the store's program remove a package.
pub fn uninstall_call(app_id: &str, socket: &str) -> (r: ProgramCall)
    ensures
        r.program@ == STORE_BINARY@,
        texts(r.arguments@) == seq!["uninstall"@, app_id@],
        r.confined(store_variables().push(("REMAGIC_CONTROL_SOCKET"@, socket@))),
{
    let mut arguments: Vec<String> = Vec::new();
    push_argument(&mut arguments, "uninstall");
    push_argument(&mut arguments, app_id);
    assert(texts(arguments@) =~= seq!["uninstall"@, app_id@]);
    let mut environment = store_environment();
    push_variable(&mut environment, "REMAGIC_CONTROL_SOCKET", socket.to_owned());
    ProgramCall {
        program: STORE_BINARY,
        arguments,
        environment: Some(environment),
        kill_on_drop: true,
    }
}

/// An application that the store does not know is refused before any program
/// runs, whatever else is the case.
pub proof fn unknown_applications_are_refused(
    operation: StoreOperation,
    app_id: Seq<char>,
    store_installed: bool,
)
    requires
        !known_app(app_id),
    ensures
        operation_complaint(operation, app_id, store_installed) is Some,
{
}

/// The catalog lists the entries that say their id, name, summary and version, each in its turn,
/// and leaves out the others.
pub proof fn complete_entries_are_listed(a: Seq<JsonTree>, b: Seq<JsonTree>, entry: JsonTree)
    ensures
        entry_apps(a + b) == entry_apps(a) + entry_apps(b),
        entry.text_at("id"@) is Some && entry.text_at("name"@) is Some && entry.text_at("summary"@)
            is Some && entry.text_at("available_version"@) is Some ==> {
            &&& entry_apps(seq![entry]).len() == 1
            &&& entry_apps(seq![entry])[0].id == entry.text_at("id"@)->0
            &&& entry_apps(seq![entry])[0].name == entry.text_at("name"@)->0
            &&& entry_apps(seq![entry])[0].summary == entry.text_at("summary"@)->0
            &&& entry_apps(seq![entry])[0].version == entry.text_at("available_version"@)->0
        },
        entry.text_at("id"@) is None || entry.text_at("name"@) is None || entry.text_at("summary"@)
            is None || entry.text_at("available_version"@) is None ==> entry_apps(
            seq![entry],
        ).len() == 0,
    decreases b.len(),
{
    if b.len() == 0 {
        assert(a + b =~= a);
        assert(entry_apps(a) + entry_apps(b) =~= entry_apps(a));
    } else {
        assert((a + b).drop_last() =~= a + b.drop_last());
        complete_entries_are_listed(a, b.drop_last(), entry);
        assert(entry_apps(a + b) =~= entry_apps(a) + entry_apps(b));
    }
    assert(seq![entry].drop_last() =~= Seq::<JsonTree>::empty());
    assert(seq![entry].last() == entry);
    assert(entry_apps(Seq::<JsonTree>::empty()) =~= Seq::<CatalogView>::empty());
}

/// An application has the status that its entry says; one that is not known counts as not
/// installed.
pub proof fn entries_say_their_status(entry: JsonTree)
    requires
        entry.get("status"@) is Some,
    ensures
        ({
            let said = entry.get("status"@)->0.text_at("status"@);
            &&& status_of(entry) == CatalogStatus::Installed <==> said == Some("installed"@)
            &&& status_of(entry) == CatalogStatus::UpdateAvailable <==> said == Some(
                "update_available"@,
            )
            &&& status_of(entry) == CatalogStatus::NeedsConfiguration <==> said == Some(
                "needs_configuration"@,
            )
            &&& status_of(entry) == CatalogStatus::Incompatible <==> said == Some("incompatible"@)
        }),
{
    reveal_strlit("installed");
    reveal_strlit("update_available");
    reveal_strlit("needs_configuration");
    reveal_strlit("incompatible");
    assert("installed"@.len() == 9 && "update_available"@.len() == 16 && "needs_configuration"@.len()
        == 19 && "incompatible"@.len() == 12);
}

/// A line gives a key its value exactly where it begins with the key and an equals sign; the value
/// is the rest of the line.
pub proof fn lines_give_keys_their_values(key: Seq<char>, value: Seq<char>, line: Seq<char>)
    ensures
        line_value(key + "="@ + value, key) == Some(value),
        line_value(line, key) is Some ==> line == key + "="@ + line_value(line, key)->0,
{
    let prefix = key + "="@;
    assert(prefix =~= (prefix + value).subrange(0, prefix.len() as int));
    assert((prefix + value).skip(prefix.len() as int) =~= value);
    if prefix.is_prefix_of(line) {
        assert(line =~= prefix + line.skip(prefix.len() as int));
    }
}

/// The installed release has the number that its file says first; without a number that can be
/// read it counts as the very first.
pub proof fn installed_releases_say_their_number(text: Seq<char>, i: int, n: nat)
    requires
        0 <= i < split(text, '\n').len(),
        line_at(split(text, '\n'), i) == "REMAGIC_RELEASE_SEQUENCE"@ + "="@ + decimal(n),
        forall|j: int|
            0 <= j < i ==> !("REMAGIC_RELEASE_SEQUENCE"@ + "="@).is_prefix_of(
                #[trigger] line_at(split(text, '\n'), j),
            ),
    ensures
        n <= u64::MAX ==> stated_sequence(Some(text)) == n,
        n > u64::MAX ==> stated_sequence(Some(text)) == 0,
        stated_sequence(None) == 0,
{
    let key = "REMAGIC_RELEASE_SEQUENCE"@;
    let values = line_values(text, key);
    lines_give_keys_their_values(key, decimal(n), Seq::empty());
    assert(values[i] == Some(decimal(n)));
    assert forall|j: int| 0 <= j < i implies values[j] is None by {
        assert(values[j] == line_value(line_at(split(text, '\n'), j), key));
    }
    lemma_first_at(values, i);
    decimal_digits_are_read_back(n);
}

/// The three known applications can be installed, upgraded and removed; the first two need the
/// store's own program, removing does not.
pub proof fn known_applications_can_be_managed(
    operation: StoreOperation,
    app_id: Seq<char>,
    store_installed: bool,
)
    ensures
        operation_complaint(operation, app_id, store_installed) is None <==> (app_id
            == "magicpaper"@ || app_id == "koreader"@ || app_id == "upload"@) && (store_installed
            || operation == StoreOperation::Uninstall),
{
}

/// The store's document lists its applications; without a list it is no catalog.
pub proof fn catalogs_are_lists(tree: JsonTree, entries: Seq<JsonTree>)
    ensures
        tree.get("apps"@) == Some(JsonTree::Array(entries)) ==> document_apps(tree) == Some(
            entry_apps(entries),
        ),
        document_apps(tree) is Some <==> tree.get("apps"@) is Some && tree.get("apps"@)->0 is Array,
{
}

/// The store's program is told the search path and the home, the version of the interface that
/// there is, and the device under its own name.
pub proof fn the_store_is_told_its_surroundings()
    ensures
        store_variables().contains(("PATH"@, PROGRAM_PATH@)),
        store_variables().contains(("HOME"@, "/home/root"@)),
        store_variables().len() == 2,
        api_text() == decimal(2),
        product_text(DeviceProduct::PaperPro) == "paper_pro"@,
        product_text(DeviceProduct::PaperProMove) == "paper_pro_move"@,
{
    assert(store_variables()[0] == ("PATH"@, PROGRAM_PATH@));
    assert(store_variables()[1] == ("HOME"@, "/home/root"@));
}

} // verus!
