//! How the backend process is started: its command line, its environment and
//! the provider that it talks to.
use vstd::prelude::*;
use crate::agent::protocol::AgentProfile;
use crate::json::{json_bytes, json_empty_object, json_put, json_text_value};
use crate::json::{json_encoding, parsed_json, JsonTree};
use crate::manifest::AppId;
use crate::path::FilePath;
use crate::path::joined;
use crate::text::{
    byte_count, char_is_control, char_is_space, chars_of, push_variable, split_on, split_once,
    strip_prefix, text_eq, trim_text, Trim,
};
use crate::text::{byte_len, cut_at, is_control, is_space, pairs, split, texts, trim};
use vstd::utf8::{decode_utf8, valid_utf8};

verus! {

/// The only extension that the backend may load.
pub const SAFE_TOOLS_EXTENSION: &'static str =
    "/home/root/apps/remagic/runtime/pi/extensions/remagic-tools.js";

/// The most bytes of a provider's file.
pub const MAX_PROVIDER_FILE_BYTES: usize = 64 * 1024;

/// What is known of a file without following a link.
#[derive(Clone, Copy, Debug, PartialEq, Eq, Structural)]
pub struct FileFacts {
    pub symlink: bool,
    pub regular: bool,
    pub owner: u32,
    pub mode: u32,
}

impl FileFacts {
    /// A regular file of this user that nobody else may write.
    pub open spec fn secure(self, user: u32) -> bool {
        !self.symlink && self.regular && self.owner == user && self.mode & 0o022 == 0
    }

    /// Some may execute the file.
    pub open spec fn executable(self) -> bool {
        self.mode & 0o111 != 0
    }
}

/// Whether a file is a regular one of this user that nobody else may write.
pub fn secure_regular_file(file: Option<FileFacts>, user: u32) -> (r: bool)
    ensures
        r == (file is Some && file->0.secure(user)),
{
    match file {
        Some(file) => !file.symlink && file.regular && file.owner == user && file.mode & 0o022 == 0,
        None => false,
    }
}

/// Whether a file is a regular one of this user that nobody else may read or
/// write. It is looked at twice, the second time through links.
pub fn private_secret_file(file: Option<FileFacts>, behind: Option<FileFacts>, user: u32) -> (r: bool)
    ensures
        r == (file is Some && file->0.secure(user) && behind is Some && behind->0.mode & 0o077
            == 0),
{
    secure_regular_file(file, user) && match behind {
        Some(behind) => behind.mode & 0o077 == 0,
        None => false,
    }
}

/// Whether a file of the packaged runtime is as it was installed.
pub fn secure_packaged_file(file: Option<FileFacts>, user: u32, require_executable: bool) -> (r:
    bool)
    ensures
        r == (file is Some && file->0.secure(user) && (require_executable
            ==> file->0.executable())),
{
    secure_regular_file(file, user) && match file {
        Some(file) => !require_executable || file.mode & 0o111 != 0,
        None => false,
    }
}

/// Where the data of an application's assistant lies.
pub fn app_data_root(app_id: &AppId) -> (r: FilePath)
    ensures
        r@ == joined("/home/root/.local/share/remagic/agent/apps"@, app_id@),
{
    FilePath::new("/home/root/.local/share/remagic/agent/apps").join(app_id.as_str())
}

/// The arguments that decide on tools.
pub open spec fn tool_arguments(tools: bool, extension: Seq<char>) -> Seq<Seq<char>> {
    if tools {
        seq!["--no-builtin-tools"@, "--no-extensions"@, "--extension"@, extension]
    } else {
        seq!["--no-tools"@, "--no-extensions"@]
    }
}

/// Adds one argument.
fn push_argument(arguments: &mut Vec<String>, argument: &str)
    ensures
        texts(final(arguments)@) == texts(old(arguments)@).push(argument@),
{
    let ghost before = texts(arguments@);
    arguments.push(argument.to_owned());
    assert(texts(arguments@) =~= before.push(argument@));
}

/// Adds the arguments that decide on tools. With tools the backend gets the
/// safe extension and nothing else, and without a safe one it is not started.
pub fn configure_tools(
    arguments: &mut Vec<String>,
    profile: &AgentProfile,
    extension: &FilePath,
    extension_is_safe: bool,
) -> (r: Result<(), String>)
    ensures
        match r {
            Ok(_) => {
                &&& profile.tools ==> extension_is_safe
                &&& texts(final(arguments)@) == texts(old(arguments)@) + tool_arguments(
                    profile.tools,
                    extension@,
                )
            },
            Err(message) => {
                &&& profile.tools && !extension_is_safe
                &&& final(arguments)@ == old(arguments)@
                &&& message@ == "ReMagic safe Pi tools extension is unavailable or unsafe"@
            },
        },
{
    let ghost before = texts(arguments@);
    if !profile.tools {
        push_argument(arguments, "--no-tools");
        push_argument(arguments, "--no-extensions");
        assert(texts(arguments@) =~= before + tool_arguments(profile.tools, extension@));
        return Ok(());
    }
    if !extension_is_safe {
        return Err("ReMagic safe Pi tools extension is unavailable or unsafe".to_owned());
    }
    push_argument(arguments, "--no-builtin-tools");
    push_argument(arguments, "--no-extensions");
    push_argument(arguments, "--extension");
    push_argument(arguments, extension.as_str());
    assert(texts(arguments@) =~= before + tool_arguments(profile.tools, extension@));
    Ok(())
}

/// The key of a provider and where it may be reached.
#[derive(Debug, PartialEq, Eq)]
pub struct ProviderSecret {
    pub key_name: &'static str,
    pub value: String,
    pub base_url: Option<String>,
}

/// A provider's key over texts.
pub struct SecretView {
    pub key_name: Seq<char>,
    pub value: Seq<char>,
    pub base_url: Option<Seq<char>>,
}

/// A text that may be missing.
pub open spec fn optional_text(text: Option<String>) -> Option<Seq<char>> {
    match text {
        Some(text) => Some(text@),
        None => None,
    }
}

impl View for ProviderSecret {
    type V = SecretView;

    open spec fn view(&self) -> SecretView {
        SecretView {
            key_name: self.key_name@,
            value: self.value@,
            base_url: optional_text(self.base_url),
        }
    }
}

/// The variable that holds a provider's key, and the name of its file.
pub open spec fn provider_table(provider: Seq<char>) -> Option<(Seq<char>, Seq<char>)> {
    if provider == "deepseek"@ {
        Some(("DEEPSEEK_API_KEY"@, "deepseek.env"@))
    } else if provider == "openai"@ || provider == "openai-codex"@ {
        Some(("OPENAI_API_KEY"@, "openai.env"@))
    } else {
        None
    }
}

/// The variable that holds a provider's key, and the name of its file.
pub fn provider_entry(provider: &str) -> (r: Option<(&'static str, &'static str)>)
    ensures
        match r {
            Some((key, file)) => provider_table(provider@) == Some((key@, file@)),
            None => provider_table(provider@) is None,
        },
{
    if text_eq(provider, "deepseek") {
        Some(("DEEPSEEK_API_KEY", "deepseek.env"))
    } else if text_eq(provider, "openai") || text_eq(provider, "openai-codex") {
        Some(("OPENAI_API_KEY", "openai.env"))
    } else {
        None
    }
}

/// Where a provider's file lies.
pub fn provider_path(filename: &str) -> (r: FilePath)
    ensures
        r@ == joined("/home/root/.config/remagic/secrets/providers"@, filename@),
{
    FilePath::new("/home/root/.config/remagic/secrets/providers").join(filename)
}

/// A usable key: not empty, not too long, and without control characters.
pub open spec fn usable_secret(value: Seq<char>) -> bool {
    &&& value.len() > 0
    &&& byte_len(value) <= 16 * 1024
    &&& forall|i: int| 0 <= i < value.len() ==> !is_control(#[trigger] value[i])
}

/// Whether a key is usable.
pub fn valid_secret_value(value: &str) -> (r: bool)
    ensures
        r == usable_secret(value@),
{
    if value.is_empty() || byte_count(value) > 16 * 1024 {
        return false;
    }
    let x = chars_of(value);
    let mut i: usize = 0;
    while i < x.len()
        invariant
            i <= x.len(),
            x@ == value@,
            forall|j: int| 0 <= j < i ==> !is_control(#[trigger] value@[j]),
        decreases x.len() - i,
    {
        if char_is_control(x[i]) {
            assert(is_control(value@[i as int]));
            return false;
        }
        i = i + 1;
    }
    true
}

/// A text that begins with a scheme and goes on with a host.
pub open spec fn has_host(value: Seq<char>, scheme: Seq<char>) -> bool {
    &&& scheme.is_prefix_of(value)
    &&& value.len() > scheme.len()
    &&& value[scheme.len() as int] != '/'
}

/// A usable address: not too long, without control characters and white
/// space, of one of the two web schemes and with a host.
pub open spec fn usable_url(value: Seq<char>) -> bool {
    &&& byte_len(value) <= 2048
    &&& forall|i: int|
        0 <= i < value.len() ==> !is_control(#[trigger] value[i]) && !is_space(value[i])
    &&& has_host(value, "https://"@) || has_host(value, "http://"@)
}

/// Whether a text begins with a scheme and goes on with a host.
fn names_host(value: &str, scheme: &str) -> (r: bool)
    ensures
        r == has_host(value@, scheme@),
{
    match strip_prefix(value, scheme) {
        Some(rest) => {
            let x = chars_of(rest.as_str());
            assert(rest@.len() > 0 ==> rest@[0] == value@[scheme@.len() as int]);
            x.len() > 0 && x[0] != '/'
        },
        None => false,
    }
}

/// Whether an address is usable.
pub fn valid_base_url(value: &str) -> (r: bool)
    ensures
        r == usable_url(value@),
{
    if byte_count(value) > 2048 {
        return false;
    }
    let x = chars_of(value);
    let mut i: usize = 0;
    while i < x.len()
        invariant
            i <= x.len(),
            x@ == value@,
            forall|j: int|
                0 <= j < i ==> !is_control(#[trigger] value@[j]) && !is_space(value@[j]),
        decreases x.len() - i,
    {
        if char_is_control(x[i]) || char_is_space(x[i]) {
            assert(is_control(value@[i as int]) || is_space(value@[i as int]));
            return false;
        }
        i = i + 1;
    }
    names_host(value, "https://") || names_host(value, "http://")
}

/// What lines of a provider's file say: the key and the address, each as it
/// was said last, or nothing where an address is unusable.
pub open spec fn provider_lines(lines: Seq<Seq<char>>, key: Seq<char>) -> Option<
    (Option<Seq<char>>, Option<Seq<char>>),
>
    decreases lines.len(),
{
    if lines.len() == 0 {
        Some((None, None))
    } else {
        match provider_lines(lines.drop_last(), key) {
            None => None,
            Some((secret, base_url)) => match cut_at(trim(lines.last(), Trim::Space), '=') {
                None => Some((secret, base_url)),
                Some((name, quoted)) => {
                    let value = trim(quoted, Trim::Quotes);
                    if name == key && usable_secret(value) {
                        Some((Some(value), base_url))
                    } else if name == "BASE_URL"@ {
                        if usable_url(value) {
                            Some((secret, Some(value)))
                        } else {
                            None
                        }
                    } else {
                        Some((secret, base_url))
                    }
                },
            },
        }
    }
}

/// What a provider's file says.
pub open spec fn provider_file(text: Seq<char>, key: Seq<char>) -> Result<
    Option<SecretView>,
    Seq<char>,
> {
    if byte_len(text) > MAX_PROVIDER_FILE_BYTES {
        Err("provider configuration exceeds 64 KiB"@)
    } else {
        match provider_lines(split(text, '\n'), key) {
            None => Err("provider BASE_URL must be a valid http(s) URL"@),
            Some((Some(value), base_url)) => Ok(Some(SecretView { key_name: key, value, base_url })),
            Some((None, _)) => Ok(None),
        }
    }
}

/// A key or a complaint, over texts.
pub open spec fn secret_result(r: Result<Option<ProviderSecret>, String>) -> Result<
    Option<SecretView>,
    Seq<char>,
> {
    match r {
        Ok(Some(secret)) => Ok(Some(secret@)),
        Ok(None) => Ok(None),
        Err(message) => Err(message@),
    }
}

/// The first lines that are unusable make the whole file unusable.
proof fn lemma_unusable_lines(lines: Seq<Seq<char>>, n: int, key: Seq<char>)
    requires
        0 <= n <= lines.len(),
        provider_lines(lines.take(n), key) is None,
    ensures
        provider_lines(lines, key) is None,
    decreases lines.len() - n,
{
    if n < lines.len() {
        assert(lines.take(n + 1).drop_last() =~= lines.take(n));
        lemma_unusable_lines(lines, n + 1, key);
    } else {
        assert(lines.take(n) =~= lines);
    }
}

/// Reads the contents of a provider's file.
pub fn provider_secret_from(text: &str, key: &'static str) -> (r: Result<
    Option<ProviderSecret>,
    String,
>)
    ensures
        secret_result(r) == provider_file(text@, key@),
{
    if byte_count(text) > MAX_PROVIDER_FILE_BYTES {
        return Err("provider configuration exceeds 64 KiB".to_owned());
    }
    let lines = split_on(text, '\n');
    let ghost all = texts(lines@);
    let mut secret: Option<String> = None;
    let mut base_url: Option<String> = None;
    let mut i: usize = 0;
    assert(all.take(0) =~= Seq::<Seq<char>>::empty());
    while i < lines.len()
        invariant
            i <= lines@.len(),
            all == texts(lines@),
            all == split(text@, '\n'),
            byte_len(text@) <= MAX_PROVIDER_FILE_BYTES,
            provider_lines(all.take(i as int), key@) == Some(
                (optional_text(secret), optional_text(base_url)),
            ),
        decreases lines@.len() - i,
    {
        assert(all.take(i + 1).drop_last() =~= all.take(i as int));
        assert(all.take(i + 1).last() == lines@[i as int]@);
        let line = trim_text(lines[i].as_str(), Trim::Space);
        if let Some((name, quoted)) = split_once(line.as_str(), '=') {
            let value = trim_text(quoted.as_str(), Trim::Quotes);
            if text_eq(name.as_str(), key) && valid_secret_value(value.as_str()) {
                secret = Some(value);
            } else if text_eq(name.as_str(), "BASE_URL") {
                if !valid_base_url(value.as_str()) {
                    proof {
                        lemma_unusable_lines(all, i + 1, key@);
                    }
                    return Err("provider BASE_URL must be a valid http(s) URL".to_owned());
                }
                base_url = Some(value);
            }
        }
        i = i + 1;
    }
    assert(all.take(i as int) =~= all);
    match secret {
        Some(value) => Ok(Some(ProviderSecret { key_name: key, value, base_url })),
        None => Ok(None),
    }
}

/// What was found of a provider's file.
#[derive(Debug, PartialEq, Eq)]
pub enum SecretFile {
    Missing,
    /// Others may read or replace it.
    Unsafe,
    Unreadable(String),
    Contents(String),
}

/// What is known of a provider's key.
pub open spec fn known_secret(provider: Seq<char>, file: SecretFile) -> Result<
    Option<SecretView>,
    Seq<char>,
> {
    match provider_table(provider) {
        None => Ok(None),
        Some((key, filename)) => match file {
            SecretFile::Missing => Ok(None),
            SecretFile::Unsafe => Err(
                "provider configuration is unsafe: "@ + joined(
                    "/home/root/.config/remagic/secrets/providers"@,
                    filename,
                ),
            ),
            SecretFile::Unreadable(message) => Err(message@),
            SecretFile::Contents(text) => provider_file(text@, key),
        },
    }
}

/// The key of a provider, where it has one.
pub fn provider_secret(provider: &str, file: SecretFile) -> (r: Result<
    Option<ProviderSecret>,
    String,
>)
    ensures
        secret_result(r) == known_secret(provider@, file),
{
    let (key, filename) = match provider_entry(provider) {
        Some(entry) => entry,
        None => return Ok(None),
    };
    match file {
        SecretFile::Missing => Ok(None),
        SecretFile::Unsafe => {
            let mut message = "provider configuration is unsafe: ".to_owned();
            let path = provider_path(filename);
            message.append(path.as_str());
            Err(message)
        },
        SecretFile::Unreadable(message) => Err(message),
        SecretFile::Contents(text) => provider_secret_from(text.as_str(), key),
    }
}

/// Whether a provider has a key.
pub fn provider_configured(provider: &str, file: SecretFile) -> (r: bool)
    ensures
        r == (known_secret(provider@, file) matches Ok(Some(_))),
{
    match provider_secret(provider, file) {
        Ok(Some(_)) => true,
        _ => false,
    }
}

/// The document that sends a provider's traffic to its own address. It names
/// the variable of the key, not the key.
pub open spec fn models_tree(provider: Seq<char>, base_url: Seq<char>, key_name: Seq<char>) -> JsonTree {
    let entry = JsonTree::Object(
        Map::<Seq<char>, JsonTree>::empty().insert("baseUrl"@, JsonTree::Text(base_url)).insert(
            "apiKey"@,
            JsonTree::Text("$"@ + key_name),
        ),
    );
    JsonTree::Object(
        Map::<Seq<char>, JsonTree>::empty().insert(
            "providers"@,
            JsonTree::Object(Map::<Seq<char>, JsonTree>::empty().insert(provider, entry)),
        ),
    )
}

/// The document for a provider's key, where it has an address of its own.
pub open spec fn models_document(provider: Seq<char>, secret: Option<SecretView>) -> Option<
    JsonTree,
> {
    match secret {
        Some(secret) => match secret.base_url {
            Some(base_url) => Some(models_tree(provider, base_url, secret.key_name)),
            None => None,
        },
        None => None,
    }
}

/// What becomes of the file with a provider's address.
#[derive(Debug, PartialEq, Eq)]
pub enum ModelsConfig {
    /// There is no address of its own: the file is removed.
    Remove,
    /// The file is written.
    Write(Vec<u8>),
    /// The document cannot be encoded.
    Unencodable,
}

/// What is written of a provider's address: one line with the document.
pub fn models_config(provider: &str, secret: Option<&ProviderSecret>) -> (r: ModelsConfig)
    ensures
        ({
            let known = match secret {
                Some(secret) => Some(secret@),
                None => None,
            };
            match models_document(provider@, known) {
                None => r is Remove,
                Some(tree) => match r {
                    ModelsConfig::Remove => false,
                    ModelsConfig::Write(line) => {
                        let bytes = line@.drop_last();
                        &&& line@.len() > 0 && line@.last() == 10
                        &&& json_encoding(tree) == Some(bytes)
                        &&& valid_utf8(bytes)
                        &&& parsed_json(decode_utf8(bytes)) == Some(tree)
                    },
                    ModelsConfig::Unencodable => json_encoding(tree) is None,
                },
            }
        }),
{
    let secret = match secret {
        Some(secret) => secret,
        None => return ModelsConfig::Remove,
    };
    let base_url = match &secret.base_url {
        Some(base_url) => base_url,
        None => return ModelsConfig::Remove,
    };
    let mut variable = "$".to_owned();
    variable.append(secret.key_name);
    let mut entry = json_empty_object();
    json_put(&mut entry, "baseUrl", json_text_value(base_url.clone()));
    json_put(&mut entry, "apiKey", json_text_value(variable));
    let mut providers = json_empty_object();
    json_put(&mut providers, provider, entry);
    let mut document = json_empty_object();
    json_put(&mut document, "providers", providers);
    proof {
        reveal_with_fuel(JsonTree::textual, 4);
    }
    match json_bytes(&document) {
        Some(bytes) => {
            let mut line = bytes;
            line.push(10);
            assert(line@.drop_last() =~= bytes@);
            ModelsConfig::Write(line)
        },
        None => ModelsConfig::Unencodable,
    }
}

/// What was found where a configuration file is to be removed.
#[derive(Debug, PartialEq, Eq)]
pub enum FoundConfig {
    File(FileFacts),
    Missing,
    Failed(String),
}

/// Whether a configuration file is removed. Only a regular file is; there is
/// nothing to do where it is missing.
pub fn remove_owned_config(path: &FilePath, found: FoundConfig) -> (r: Result<bool, String>)
    ensures
        match found {
            FoundConfig::File(file) => if file.symlink || !file.regular {
                r is Err && r->Err_0@ == "refusing unsafe Pi configuration path: "@ + path@
            } else {
                r == Ok::<bool, String>(true)
            },
            FoundConfig::Missing => r == Ok::<bool, String>(false),
            FoundConfig::Failed(message) => r == Err::<bool, String>(message),
        },
{
    match found {
        FoundConfig::File(file) => if file.symlink || !file.regular {
            let mut message = "refusing unsafe Pi configuration path: ".to_owned();
            message.append(path.as_str());
            Err(message)
        } else {
            Ok(true)
        },
        FoundConfig::Missing => Ok(false),
        FoundConfig::Failed(message) => Err(message),
    }
}

/// How the backend process is started. Nothing else is in its environment.
#[derive(Debug, PartialEq, Eq)]
pub struct BackendCommand {
    pub program: FilePath,
    pub working_dir: FilePath,
    pub environment: Vec<(&'static str, String)>,
    pub arguments: Vec<String>,
}

/// The arguments of the backend before those that decide on tools.
pub open spec fn fixed_arguments(profile: AgentProfile, system_prompt: Seq<char>) -> Seq<Seq<char>> {
    seq![
        "--mode"@,
        "rpc"@,
        "--provider"@,
        profile.provider@,
        "--model"@,
        profile.model@,
        "--thinking"@,
        profile.thinking@,
        "--no-session"@,
        "--no-skills"@,
        "--no-prompt-templates"@,
        "--no-context-files"@,
        "--no-approve"@,
        "--system-prompt"@,
        system_prompt,
    ]
}

/// The environment of the backend before its provider's key.
pub open spec fn fixed_environment(data_root: Seq<char>) -> Seq<(Seq<char>, Seq<char>)> {
    seq![
        ("HOME"@, joined(data_root, "home"@)),
        ("PI_CODING_AGENT_DIR"@, joined(data_root, "config"@)),
        ("PI_SKIP_VERSION_CHECK"@, "1"@),
        ("PI_TELEMETRY"@, "0"@),
        ("PATH"@, "/home/root/apps/remagic/runtime/pi/bin:/usr/bin:/bin"@),
        ("LANG"@, "C.UTF-8"@),
    ]
}

/// The variable of a provider's key, where it has one.
pub open spec fn secret_variable(secret: Option<SecretView>) -> Seq<(Seq<char>, Seq<char>)> {
    match secret {
        Some(secret) => seq![(secret.key_name, secret.value)],
        None => Seq::empty(),
    }
}

/// The arguments of the backend before those that decide on tools.
fn base_arguments(profile: &AgentProfile, system_prompt: &str) -> (r: Vec<String>)
    ensures
        texts(r@) == fixed_arguments(*profile, system_prompt@),
{
    let mut arguments: Vec<String> = Vec::new();
    push_argument(&mut arguments, "--mode");
    push_argument(&mut arguments, "rpc");
    push_argument(&mut arguments, "--provider");
    push_argument(&mut arguments, profile.provider.as_str());
    push_argument(&mut arguments, "--model");
    push_argument(&mut arguments, profile.model.as_str());
    push_argument(&mut arguments, "--thinking");
    push_argument(&mut arguments, profile.thinking.as_str());
    push_argument(&mut arguments, "--no-session");
    push_argument(&mut arguments, "--no-skills");
    push_argument(&mut arguments, "--no-prompt-templates");
    push_argument(&mut arguments, "--no-context-files");
    push_argument(&mut arguments, "--no-approve");
    push_argument(&mut arguments, "--system-prompt");
    push_argument(&mut arguments, system_prompt);
    assert(texts(arguments@) =~= fixed_arguments(*profile, system_prompt@));
    arguments
}

/// The environment of the backend before its provider's key.
fn base_environment(data_root: &FilePath) -> (r: Vec<(&'static str, String)>)
    ensures
        pairs(r@) == fixed_environment(data_root@),
{
    let mut environment: Vec<(&'static str, String)> = Vec::new();
    push_variable(&mut environment, "HOME", data_root.join("home").text);
    push_variable(&mut environment, "PI_CODING_AGENT_DIR", data_root.join("config").text);
    push_variable(&mut environment, "PI_SKIP_VERSION_CHECK", "1".to_owned());
    push_variable(&mut environment, "PI_TELEMETRY", "0".to_owned());
    push_variable(
        &mut environment,
        "PATH",
        "/home/root/apps/remagic/runtime/pi/bin:/usr/bin:/bin".to_owned(),
    );
    push_variable(&mut environment, "LANG", "C.UTF-8".to_owned());
    assert(pairs(environment@) =~= fixed_environment(data_root@));
    environment
}

/// How the backend of an application is started, from what is known of the
/// extension and of the provider's key.
pub fn configured_command(
    pi_binary: &FilePath,
    app_id: &AppId,
    profile: &AgentProfile,
    system_prompt: &str,
    extension_is_safe: bool,
    secret: Result<Option<ProviderSecret>, String>,
) -> (r: Result<BackendCommand, String>)
    ensures
        ({
            let data_root = joined("/home/root/.local/share/remagic/agent/apps"@, app_id@);
            match r {
                Ok(command) => {
                    &&& profile.tools ==> extension_is_safe
                    &&& secret is Ok
                    &&& command.program@ == pi_binary@
                    &&& command.working_dir@ == data_root
                    &&& texts(command.arguments@) == fixed_arguments(*profile, system_prompt@)
                        + tool_arguments(profile.tools, SAFE_TOOLS_EXTENSION@)
                    &&& pairs(command.environment@) == fixed_environment(data_root)
                        + secret_variable(secret_result(secret)->Ok_0)
                },
                Err(message) => if profile.tools && !extension_is_safe {
                    message@ == "ReMagic safe Pi tools extension is unavailable or unsafe"@
                } else {
                    secret is Err && message@ == secret->Err_0@
                },
            }
        }),
{
    let data_root = app_data_root(app_id);
    let mut arguments = base_arguments(profile, system_prompt);
    let mut environment = base_environment(&data_root);
    let extension = FilePath::new(SAFE_TOOLS_EXTENSION);
    match configure_tools(&mut arguments, profile, &extension, extension_is_safe) {
        Ok(_) => {},
        Err(message) => return Err(message),
    }
    let ghost before = pairs(environment@);
    match secret {
        Ok(Some(secret)) => {
            push_variable(&mut environment, secret.key_name, secret.value);
            assert(pairs(environment@) =~= before + seq![(secret.key_name@, secret.value@)]);
        },
        Ok(None) => {
            assert(before =~= before + Seq::<(Seq<char>, Seq<char>)>::empty());
        },
        Err(message) => return Err(message),
    }
    Ok(BackendCommand { program: pi_binary.clone(), working_dir: data_root, environment, arguments })
}

/// The key of a provider does not reach the file with its address: the
/// document is the same whatever the key is.
pub proof fn keys_stay_out_of_the_models_file(
    provider: Seq<char>,
    secret: SecretView,
    other: Seq<char>,
)
    ensures
        models_document(provider, Some(secret)) == models_document(
            provider,
            Some(SecretView { value: other, ..secret }),
        ),
{
}

/// Without tools the backend is told to load none; with tools it is told to
/// load the safe extension and nothing else.
pub proof fn only_the_safe_extension_is_loaded(tools: bool, extension: Seq<char>)
    ensures
        tool_arguments(tools, extension).contains("--no-extensions"@),
        tool_arguments(tools, extension).contains("--extension"@) ==> tools,
        tools ==> tool_arguments(tools, extension).contains("--extension"@),
        forall|i: int|
            0 <= i < tool_arguments(tools, extension).len() - 1 && (#[trigger] tool_arguments(
                tools,
                extension,
            )[i]) == "--extension"@ ==> tool_arguments(tools, extension)[i + 1] == extension,
{
    reveal_strlit("--no-builtin-tools");
    reveal_strlit("--no-extensions");
    reveal_strlit("--extension");
    reveal_strlit("--no-tools");
    assert(tool_arguments(tools, extension)[1] == "--no-extensions"@);
    assert("--no-extensions"@.len() != "--extension"@.len());
    assert("--no-builtin-tools"@.len() != "--extension"@.len());
    assert(tools ==> tool_arguments(tools, extension)[2] == "--extension"@);
    assert("--no-tools"@[2] == 'n');
    assert("--extension"@[2] == 'e');
}

/// A key that is taken from a file is usable, and so is its address.
pub proof fn accepted_secrets_are_usable(text: Seq<char>, key: Seq<char>)
    requires
        provider_file(text, key) matches Ok(Some(_)),
    ensures
        usable_secret(provider_file(text, key)->Ok_0->0.value),
        provider_file(text, key)->Ok_0->0.base_url is Some ==> usable_url(
            provider_file(text, key)->Ok_0->0.base_url->0,
        ),
{
    lemma_usable_lines(split(text, '\n'), key);
}

/// What lines say is usable.
proof fn lemma_usable_lines(lines: Seq<Seq<char>>, key: Seq<char>)
    ensures
        provider_lines(lines, key) matches Some((secret, base_url)) ==> (secret is Some
            ==> usable_secret(secret->0)) && (base_url is Some ==> usable_url(base_url->0)),
    decreases lines.len(),
{
    if lines.len() > 0 {
        lemma_usable_lines(lines.drop_last(), key);
    }
}

/// A file is safe to use where it is a regular file of the user's own, no link, and neither the
/// group nor anyone else may write it.
pub proof fn safe_files_are_written_by_their_owner_alone(file: FileFacts, user: u32)
    ensures
        file.secure(user) <==> !file.symlink && file.regular && file.owner == user && file.mode
            & 0o020 == 0 && file.mode & 0o002 == 0,
        file.executable() <==> file.mode & 0o100 != 0 || file.mode & 0o010 != 0 || file.mode & 0o001
            != 0,
{
    let mode = file.mode;
    assert(mode & 0o022 == 0 <==> mode & 0o020 == 0 && mode & 0o002 == 0) by (bit_vector);
    assert(mode & 0o111 != 0 <==> mode & 0o100 != 0 || mode & 0o010 != 0 || mode & 0o001 != 0)
        by (bit_vector);
}

/// An address is usable where it begins with one of the two schemes and then names a host, holds
/// no space and no control character, and is not too long.
pub proof fn usable_addresses_name_a_host(value: Seq<char>, rest: Seq<char>)
    requires
        byte_len(value) <= 2048,
        forall|i: int|
            0 <= i < value.len() ==> !is_control(#[trigger] value[i]) && !is_space(value[i]),
    ensures
        value == "https://"@ + rest ==> (usable_url(value) <==> rest.len() > 0 && rest[0] != '/'),
        value == "http://"@ + rest ==> (usable_url(value) <==> rest.len() > 0 && rest[0] != '/'),
        usable_url(value) ==> "https://"@.is_prefix_of(value) || "http://"@.is_prefix_of(value),
{
    reveal_strlit("https://");
    reveal_strlit("http://");
    if value == "https://"@ + rest {
        assert("https://"@ =~= value.subrange(0, 8));
        assert(!("http://"@.is_prefix_of(value))) by {
            if "http://"@.is_prefix_of(value) {
                assert(value.subrange(0, 7)[4] == "http://"@[4]);
                assert(value[4] == "https://"@[4]);
            }
        }
        assert(rest.len() > 0 ==> value[8] == rest[0]);
    }
    if value == "http://"@ + rest {
        assert("http://"@ =~= value.subrange(0, 7));
        assert(!("https://"@.is_prefix_of(value))) by {
            if "https://"@.is_prefix_of(value) {
                assert(value.subrange(0, 8)[4] == "https://"@[4]);
                assert(value[4] == "http://"@[4]);
            }
        }
        assert(rest.len() > 0 ==> value[7] == rest[0]);
    }
}

/// In a provider's file the last usable value of its key counts, and the last address. An address
/// that cannot be used spoils the file; lines about anything else do not matter.
pub proof fn the_last_line_of_a_provider_file_counts(
    lines: Seq<Seq<char>>,
    line: Seq<char>,
    key: Seq<char>,
    name: Seq<char>,
    quoted: Seq<char>,
)
    requires
        provider_lines(lines, key) is Some,
        key != "BASE_URL"@,
    ensures
        ({
            let (secret, base_url) = provider_lines(lines, key)->0;
            let value = trim(quoted, Trim::Quotes);
            let cut = cut_at(trim(line, Trim::Space), '=');
            let next = provider_lines(lines.push(line), key);
            &&& cut is None ==> next == Some((secret, base_url))
            &&& cut == Some((name, quoted)) && name == key && usable_secret(value) ==> next == Some(
                (Some(value), base_url),
            )
            &&& cut == Some((name, quoted)) && name == key && !usable_secret(value) ==> next
                == Some((secret, base_url))
            &&& cut == Some((name, quoted)) && name == "BASE_URL"@ && usable_url(value) ==> next
                == Some((secret, Some(value)))
            &&& cut == Some((name, quoted)) && name == "BASE_URL"@ && !usable_url(value)
                ==> next is None
            &&& cut == Some((name, quoted)) && name != key && name != "BASE_URL"@ ==> next == Some(
                (secret, base_url),
            )
        }),
{
    assert(lines.push(line).drop_last() =~= lines);
}

/// Only two keys are known: that of DeepSeek, and that of OpenAI, which also serves its coding
/// agent. Each has a file of its own.
pub proof fn known_providers_have_a_key_and_a_file(provider: Seq<char>)
    ensures
        provider_table(provider) is Some <==> provider == "deepseek"@ || provider == "openai"@
            || provider == "openai-codex"@,
        provider == "deepseek"@ ==> provider_table(provider) == Some(
            ("DEEPSEEK_API_KEY"@, "deepseek.env"@),
        ),
        provider == "openai"@ || provider == "openai-codex"@ ==> provider_table(provider) == Some(
            ("OPENAI_API_KEY"@, "openai.env"@),
        ),
{
    reveal_strlit("deepseek");
    reveal_strlit("openai");
    reveal_strlit("openai-codex");
    assert("deepseek"@.len() == 8 && "openai"@.len() == 6 && "openai-codex"@.len() == 12);
}

/// The secret of a known provider is what its file holds; a missing file means that there is
/// none, and one that others may change is never read.
pub proof fn secrets_come_from_safe_files(provider: Seq<char>, text: String)
    ensures
        provider_table(provider) is None ==> known_secret(provider, SecretFile::Contents(text))
            == Ok::<Option<SecretView>, Seq<char>>(None),
        known_secret(provider, SecretFile::Missing) == Ok::<Option<SecretView>, Seq<char>>(None),
        provider_table(provider) is Some ==> known_secret(provider, SecretFile::Unsafe) is Err,
        known_secret(provider, SecretFile::Contents(text)) matches Ok(Some(secret)) ==> Some(
            secret.key_name,
        ) == (match provider_table(provider) {
            Some((key, _)) => Some(key),
            None => None,
        }),
{
}

/// The models file gives the provider its address and names the variable that holds its key.
pub proof fn the_models_file_points_to_the_variable(
    provider: Seq<char>,
    base_url: Seq<char>,
    key_name: Seq<char>,
)
    ensures
        ({
            let tree = models_tree(provider, base_url, key_name);
            &&& tree.get("providers"@) is Some
            &&& tree.get("providers"@)->0.get(provider) is Some
            &&& tree.get("providers"@)->0.get(provider)->0.text_at("baseUrl"@) == Some(base_url)
            &&& tree.get("providers"@)->0.get(provider)->0.text_at("apiKey"@) == Some(
                "$"@ + key_name,
            )
            &&& forall|other: Seq<char>|
                other != provider ==> (#[trigger] tree.get("providers"@)->0.get(other)) is None
        }),
{
    reveal_strlit("baseUrl");
    reveal_strlit("apiKey");
    assert("baseUrl"@.len() == 7 && "apiKey"@.len() == 6);
}

/// A models file is written exactly where the secret comes with an address of its own.
pub proof fn models_files_need_an_address(provider: Seq<char>, secret: Option<SecretView>)
    ensures
        models_document(provider, secret) is Some <==> secret is Some && secret->0.base_url is Some,
        secret is Some && secret->0.base_url is Some ==> models_document(provider, secret) == Some(
            models_tree(provider, secret->0.base_url->0, secret->0.key_name),
        ),
{
}

/// Whether a flag is followed by its value.
pub open spec fn passes(arguments: Seq<Seq<char>>, flag: Seq<char>, value: Seq<char>) -> bool {
    exists|i: int|
        0 <= i < arguments.len() - 1 && #[trigger] arguments[i] == flag && arguments[i + 1] == value
}

/// The backend is told the profile and the system prompt it was started for, speaks its protocol
/// and keeps nothing of its own.
pub proof fn backends_are_told_their_profile(profile: AgentProfile, system_prompt: Seq<char>)
    ensures
        ({
            let arguments = fixed_arguments(profile, system_prompt);
            &&& passes(arguments, "--mode"@, "rpc"@)
            &&& passes(arguments, "--provider"@, profile.provider@)
            &&& passes(arguments, "--model"@, profile.model@)
            &&& passes(arguments, "--thinking"@, profile.thinking@)
            &&& passes(arguments, "--system-prompt"@, system_prompt)
            &&& arguments.contains("--no-session"@)
            &&& arguments.contains("--no-skills"@)
            &&& arguments.contains("--no-prompt-templates"@)
            &&& arguments.contains("--no-context-files"@)
            &&& arguments.contains("--no-approve"@)
        }),
{
    let arguments = fixed_arguments(profile, system_prompt);
    assert(arguments[0] == "--mode"@ && arguments[1] == "rpc"@);
    assert(arguments[2] == "--provider"@ && arguments[3] == profile.provider@);
    assert(arguments[4] == "--model"@ && arguments[5] == profile.model@);
    assert(arguments[6] == "--thinking"@ && arguments[7] == profile.thinking@);
    assert(arguments[8] == "--no-session"@);
    assert(arguments[9] == "--no-skills"@);
    assert(arguments[10] == "--no-prompt-templates"@);
    assert(arguments[11] == "--no-context-files"@);
    assert(arguments[12] == "--no-approve"@);
    assert(arguments[13] == "--system-prompt"@ && arguments[14] == system_prompt);
}

/// The backend's home and configuration lie below the application's own directory, and it gets
/// the provider's key in a variable, where there is one.
pub proof fn backends_live_in_their_applications_directory(
    data_root: Seq<char>,
    secret: Option<SecretView>,
)
    ensures
        ({
            let environment = fixed_environment(data_root) + secret_variable(secret);
            &&& environment.contains(("HOME"@, joined(data_root, "home"@)))
            &&& environment.contains(("PI_CODING_AGENT_DIR"@, joined(data_root, "config"@)))
            &&& environment.contains(("PI_TELEMETRY"@, "0"@))
            &&& environment.contains(("PI_SKIP_VERSION_CHECK"@, "1"@))
            &&& secret is Some ==> environment.last() == (secret->0.key_name, secret->0.value)
            &&& secret is None ==> environment == fixed_environment(data_root)
        }),
{
    let fixed = fixed_environment(data_root);
    let environment = fixed + secret_variable(secret);
    assert(environment[0] == ("HOME"@, joined(data_root, "home"@)));
    assert(environment[1] == ("PI_CODING_AGENT_DIR"@, joined(data_root, "config"@)));
    assert(environment[2] == ("PI_SKIP_VERSION_CHECK"@, "1"@));
    assert(environment[3] == ("PI_TELEMETRY"@, "0"@));
    if secret is None {
        assert(environment =~= fixed);
    }
}

} // verus!
