//! Where the application keeps its files, and how a stored configuration is brought up
//! to date when it is loaded.
use crate::models::{
    default_session_user_prompt, default_system_prompt, default_user_prompt,
    lemma_default_prompts_not_blank, spec_default_batch_times,
    spec_default_session_user_prompt, spec_default_system_prompt, spec_default_user_prompt,
    strings_view, AppConfig, DEFAULT_CAPTURE_INTERVAL_SECS,
};
use crate::text::{chars_of, extend_chars, spec_trim, str_trim, string_from_chars, text_eq};
use crate::vlm::server::{spec_vlm_message, VlmError};
use vstd::prelude::*;

verus! {

/// The name of the configuration file inside the data directory.
pub const CONFIG_FILE_NAME: &'static str = "config.json";

/// The name of the database file inside the data directory.
pub const DB_FILE_NAME: &'static str = "kiroku.db";

/// A single path component naming a file or directory: not empty, free of separators and
/// drive colons, and neither `.` nor `..`.
pub open spec fn is_plain_file_name(name: Seq<char>) -> bool {
    &&& name.len() > 0
    &&& forall|i: int| 0 <= i < name.len() ==> name[i] != '/' && name[i] != '\\' && name[i] != ':'
    &&& name != seq!['.']
    &&& name != seq!['.', '.']
}

/// The path that `Path::join` gives for a base and a single-component name, read back as
/// text.
pub uninterp spec fn spec_path_join(base: Seq<char>, name: Seq<char>) -> Seq<char>;

/// Whether a path starts with the verbatim Windows prefix `\\?\`, after which the
/// standard library normalises a path it extends.
pub open spec fn has_verbatim_prefix(path: Seq<char>) -> bool {
    path.len() >= 4 && path[0] == '\\' && path[1] == '\\' && path[2] == '?' && path[3] == '\\'
}

/// The spellings that appending a name to a base can take: the base and the name, with a
/// slash, a backslash or nothing between them.
pub open spec fn appends_name(path: Seq<char>, base: Seq<char>, name: Seq<char>) -> bool {
    path == base + name || path == base + seq!['/'] + name || path == base + seq!['\\'] + name
}

/// `Path::join` with a relative single-component name, read back with `to_string_lossy`.
/// The contract names the result, which the base and the name decide on a given platform.
/// The documentation also promises that, unless the base has a verbatim prefix (which
/// makes the whole path normalised), the name is appended after the base, with the
/// platform's separator unless the base is empty or already ends with one; the separator
/// is not said, so the contract gives the three spellings.
#[verifier::external_body]
pub(crate) fn path_join(base: &str, name: &str) -> (joined: String)
    requires
        is_plain_file_name(name@),
    ensures
        joined@ == spec_path_join(base@, name@),
        !has_verbatim_prefix(base@) ==> appends_name(joined@, base@, name@),
{
    std::path::Path::new(base).join(name).to_string_lossy().into_owned()
}

/// Why the configuration could not be loaded or saved.
#[derive(Debug, Clone, PartialEq, Eq)]
pub enum ConfigError {
    PathResolution(String),
    Io(String),
    Serde(String),
    Vlm(VlmError),
}

/// The message shown for each configuration error; an inference error shows its own.
pub open spec fn spec_config_message(e: ConfigError) -> Seq<char> {
    match e {
        ConfigError::PathResolution(_) => "failed to resolve app local data directory"@,
        ConfigError::Io(_) => "failed to read or write config file"@,
        ConfigError::Serde(_) => "failed to parse config file"@,
        ConfigError::Vlm(v) => spec_vlm_message(v),
    }
}

impl ConfigError {
    /// The message shown for the error.
    pub fn message(&self) -> (text: String)
        ensures
            text@ == spec_config_message(*self),
    {
        match self {
            ConfigError::PathResolution(_) => "failed to resolve app local data directory".to_owned(),
            ConfigError::Io(_) => "failed to read or write config file".to_owned(),
            ConfigError::Serde(_) => "failed to parse config file".to_owned(),
            ConfigError::Vlm(v) => v.message(),
        }
    }
}

/// The files of the application.
#[derive(Debug, Clone, PartialEq, Eq)]
pub struct AppPaths {
    pub data_dir: String,
    pub config_path: String,
    pub db_path: String,
    pub resource_dir: Option<String>,
}

/// `path` names the file `name` inside `dir`: it is what joining them gives, and, for a
/// directory without a verbatim prefix, the two with at most a separator between them.
pub open spec fn names_file_in(path: Seq<char>, dir: Seq<char>, name: Seq<char>) -> bool {
    &&& path == spec_path_join(dir, name)
    &&& !has_verbatim_prefix(dir) ==> appends_name(path, dir, name)
}

impl AppPaths {
    /// The paths of the configuration file and the database inside `data_dir`.
    pub fn new(data_dir: String) -> (paths: Self)
        ensures
            paths.data_dir@ == data_dir@,
            names_file_in(paths.config_path@, data_dir@, CONFIG_FILE_NAME@),
            names_file_in(paths.db_path@, data_dir@, DB_FILE_NAME@),
            paths.resource_dir is None,
    {
        proof {
            reveal_strlit("config.json");
            reveal_strlit("kiroku.db");
            assert(DB_FILE_NAME@.len() == 9);
            assert(CONFIG_FILE_NAME@.len() == 11);
        }
        let config_path = path_join(data_dir.as_str(), CONFIG_FILE_NAME);
        let db_path = path_join(data_dir.as_str(), DB_FILE_NAME);
        AppPaths { data_dir, config_path, db_path, resource_dir: None }
    }

    /// The same paths, with the given resource directory.
    pub fn with_resource_dir(self, resource_dir: Option<String>) -> (paths: Self)
        ensures
            paths == (AppPaths { resource_dir, ..self }),
    {
        let mut paths = self;
        paths.resource_dir = resource_dir;
        paths
    }
}

/// The system prompt that older versions wrote into their configuration.
pub open spec fn spec_legacy_system_prompt() -> Seq<char> {
    "あなたは経理部門向けの業務記録アシスタントです。画面上で確認できる事実を優先し、\
     日本語で簡潔に記述してください。SAP GUI、Excel、Outlook、Teams などの画面を対象とし、\
     連結PKG、内部取引消去、UPI、月次決算、メール確認、会議参加などの業務文脈が明確な場合のみ用語を使ってください。\
     推測は控えめにし、不確実な場合は一般的な表現に留めてください。"@
}

/// The user prompt that older versions wrote into their configuration.
pub open spec fn spec_legacy_user_prompt() -> Seq<char> {
    "このスクリーンショットに写っている業務操作を1から3文で説明してください。\
     必ず次の観点を含めてください: 使用中のアプリケーション、実行している操作、表示されているデータや対象。\
     出力は自然な日本語の文章のみとし、箇条書きやJSONは使わないでください。"@
}

/// The first session prompt that older versions wrote into their configuration.
pub open spec fn spec_legacy_session_user_prompt() -> Seq<char> {
    "これは {start_time} から {end_time} の間（{duration_min}分間）の\
     業務画面の流れです。{frame_count} 枚のスクリーンショットを\
     時系列順に並べたコラージュを見て、この間に行っていた業務操作を\
     1〜3文で説明してください。必ず次の観点を含めてください: \
     使用中のアプリケーション、実行している操作の流れ、表示されているデータや対象。\
     出力は自然な日本語の文章のみとし、箇条書きや JSON は使わないでください。"@
}

/// The second session prompt that older versions wrote into their configuration.
pub open spec fn spec_previous_session_user_prompt() -> Seq<char> {
    "これは {start_time} から {end_time} の間（{duration_min}分間）の\
     業務画面の流れです。{frame_count} 枚のスクリーンショットを\
     時系列順に並べたコラージュを見て、この間に行っていた業務操作を\
     1〜3文で説明してください。必ず次の観点を含めてください: \
     使用中のアプリケーション、実行している操作の流れ、\
     表示されているデータや対象、画面内で読み取れる固有ラベルや表題。\
     入力内容や意図は画面から裏付けられる範囲に限定し、\
     単に画面を追っているだけに見える場合は確認・閲覧の流れとして記述してください。\
     出力は自然な日本語の文章のみとし、箇条書きや JSON は使わないでください。"@
}

fn legacy_system_prompt() -> (p: &'static str)
    ensures
        p@ == spec_legacy_system_prompt(),
{
    "あなたは経理部門向けの業務記録アシスタントです。画面上で確認できる事実を優先し、\
     日本語で簡潔に記述してください。SAP GUI、Excel、Outlook、Teams などの画面を対象とし、\
     連結PKG、内部取引消去、UPI、月次決算、メール確認、会議参加などの業務文脈が明確な場合のみ用語を使ってください。\
     推測は控えめにし、不確実な場合は一般的な表現に留めてください。"
}

fn legacy_user_prompt() -> (p: &'static str)
    ensures
        p@ == spec_legacy_user_prompt(),
{
    "このスクリーンショットに写っている業務操作を1から3文で説明してください。\
     必ず次の観点を含めてください: 使用中のアプリケーション、実行している操作、表示されているデータや対象。\
     出力は自然な日本語の文章のみとし、箇条書きやJSONは使わないでください。"
}

fn legacy_session_user_prompt() -> (p: &'static str)
    ensures
        p@ == spec_legacy_session_user_prompt(),
{
    "これは {start_time} から {end_time} の間（{duration_min}分間）の\
     業務画面の流れです。{frame_count} 枚のスクリーンショットを\
     時系列順に並べたコラージュを見て、この間に行っていた業務操作を\
     1〜3文で説明してください。必ず次の観点を含めてください: \
     使用中のアプリケーション、実行している操作の流れ、表示されているデータや対象。\
     出力は自然な日本語の文章のみとし、箇条書きや JSON は使わないでください。"
}

fn previous_session_user_prompt() -> (p: &'static str)
    ensures
        p@ == spec_previous_session_user_prompt(),
{
    "これは {start_time} から {end_time} の間（{duration_min}分間）の\
     業務画面の流れです。{frame_count} 枚のスクリーンショットを\
     時系列順に並べたコラージュを見て、この間に行っていた業務操作を\
     1〜3文で説明してください。必ず次の観点を含めてください: \
     使用中のアプリケーション、実行している操作の流れ、\
     表示されているデータや対象、画面内で読み取れる固有ラベルや表題。\
     入力内容や意図は画面から裏付けられる範囲に限定し、\
     単に画面を追っているだけに見える場合は確認・閲覧の流れとして記述してください。\
     出力は自然な日本語の文章のみとし、箇条書きや JSON は使わないでください。"
}

/// The capture interval that older versions stored by default.
pub const LEGACY_CAPTURE_INTERVAL_SECS: u64 = 30;

/// A prompt that should be replaced by the current default: blank, or one of the
/// retired texts.
pub open spec fn prompt_is_stale(prompt: Seq<char>, retired: Set<Seq<char>>) -> bool {
    spec_trim(prompt).len() == 0 || retired.contains(prompt)
}

/// What bringing a stored configuration up to date does to it.
pub open spec fn spec_migrated(old: AppConfig, new: AppConfig) -> bool {
    &&& new.capture_interval_secs == (if old.capture_interval_secs == LEGACY_CAPTURE_INTERVAL_SECS {
        DEFAULT_CAPTURE_INTERVAL_SECS
    } else {
        old.capture_interval_secs
    })
    &&& strings_view(new.batch_times@) == (if old.batch_times@.len() == 0 {
        spec_default_batch_times()
    } else {
        strings_view(old.batch_times@)
    })
    &&& new.system_prompt@ == (if prompt_is_stale(
        old.system_prompt@,
        set![spec_legacy_system_prompt()],
    ) {
        spec_default_system_prompt()
    } else {
        old.system_prompt@
    })
    &&& new.user_prompt@ == (if prompt_is_stale(old.user_prompt@, set![spec_legacy_user_prompt()]) {
        spec_default_user_prompt()
    } else {
        old.user_prompt@
    })
    &&& new.session_user_prompt@ == (if prompt_is_stale(
        old.session_user_prompt@,
        set![spec_legacy_session_user_prompt(), spec_previous_session_user_prompt()],
    ) {
        spec_default_session_user_prompt()
    } else {
        old.session_user_prompt@
    })
    &&& new == AppConfig {
        capture_interval_secs: new.capture_interval_secs,
        batch_times: new.batch_times,
        system_prompt: new.system_prompt,
        user_prompt: new.user_prompt,
        session_user_prompt: new.session_user_prompt,
        ..old
    }
}

/// Replaces settings that older versions stored by default with the current defaults.
pub fn migrate_default_prompts(config: &mut AppConfig)
    ensures
        spec_migrated(*old(config), *final(config)),
{
    if config.capture_interval_secs == LEGACY_CAPTURE_INTERVAL_SECS {
        config.capture_interval_secs = AppConfig::default().capture_interval_secs;
    }
    if config.batch_times.len() == 0 {
        config.batch_times = AppConfig::default().batch_times;
    }
    if str_trim(config.system_prompt.as_str()).is_empty() || text_eq(
        config.system_prompt.as_str(),
        legacy_system_prompt(),
    ) {
        config.system_prompt = default_system_prompt();
    }
    if str_trim(config.user_prompt.as_str()).is_empty() || text_eq(
        config.user_prompt.as_str(),
        legacy_user_prompt(),
    ) {
        config.user_prompt = default_user_prompt();
    }
    if str_trim(config.session_user_prompt.as_str()).is_empty() || text_eq(
        config.session_user_prompt.as_str(),
        legacy_session_user_prompt(),
    ) || text_eq(config.session_user_prompt.as_str(), previous_session_user_prompt()) {
        config.session_user_prompt = default_session_user_prompt();
    }
}

/// The Edge debugging port that older versions stored by default; it clashes with other
/// tools that drive Edge.
pub const LEGACY_EDGE_CDP_PORT: u16 = 9222;

/// The Edge debugging port that replaces the old default.
pub const EDGE_CDP_PORT: u16 = 9333;

/// The debugging port a loaded configuration uses: the old default is moved to the new one.
pub open spec fn spec_migrated_cdp_port(port: u16) -> u16 {
    if port == LEGACY_EDGE_CDP_PORT {
        EDGE_CDP_PORT
    } else {
        port
    }
}

/// What loading does to a stored configuration: a blank data directory becomes the
/// default one, the engine is set to Copilot, the old debugging port is moved, and retired
/// defaults are replaced.
pub open spec fn spec_loaded(stored: AppConfig, default_data_dir: Seq<char>, loaded: AppConfig) -> bool {
    let with_dir = if spec_trim(stored.data_dir@).len() == 0 {
        default_data_dir
    } else {
        stored.data_dir@
    };
    &&& loaded.data_dir@ == with_dir
    &&& loaded.vlm_engine@ == "copilot"@
    &&& loaded.edge_cdp_port == spec_migrated_cdp_port(stored.edge_cdp_port)
    &&& spec_migrated(
        AppConfig {
            data_dir: loaded.data_dir,
            vlm_engine: loaded.vlm_engine,
            edge_cdp_port: loaded.edge_cdp_port,
            ..stored
        },
        loaded,
    )
}

/// Brings a configuration read from disk up to date.
pub fn prepare_loaded_config(config: &mut AppConfig, default_data_dir: &str)
    ensures
        spec_loaded(*old(config), default_data_dir@, *final(config)),
{
    config.ensure_data_dir(default_data_dir);
    config.vlm_engine = "copilot".to_owned();
    if config.edge_cdp_port == LEGACY_EDGE_CDP_PORT {
        config.edge_cdp_port = EDGE_CDP_PORT;
    }
    migrate_default_prompts(config);
}

/// A configuration that has been brought up to date stays the same when brought up to
/// date again.
pub proof fn lemma_migration_idempotent(a: AppConfig, b: AppConfig, c: AppConfig)
    requires
        spec_migrated(a, b),
        spec_migrated(b, c),
    ensures
        c.capture_interval_secs == b.capture_interval_secs,
        strings_view(c.batch_times@) == strings_view(b.batch_times@),
        c.system_prompt@ == b.system_prompt@,
        c.user_prompt@ == b.user_prompt@,
        c.session_user_prompt@ == b.session_user_prompt@,
{
}

/// Bringing a configuration up to date keeps the default prompts that it holds, and a
/// default prompt is never blank.
pub proof fn lemma_migration_keeps_default_prompts(old: AppConfig, new: AppConfig)
    requires
        spec_migrated(old, new),
    ensures
        old.system_prompt@ == spec_default_system_prompt() ==> new.system_prompt@
            == spec_default_system_prompt(),
        old.user_prompt@ == spec_default_user_prompt() ==> new.user_prompt@
            == spec_default_user_prompt(),
        old.session_user_prompt@ == spec_default_session_user_prompt()
            ==> new.session_user_prompt@ == spec_default_session_user_prompt(),
        spec_trim(new.system_prompt@).len() > 0,
        spec_trim(new.user_prompt@).len() > 0,
        spec_trim(new.session_user_prompt@).len() > 0,
{
    lemma_default_prompts_not_blank();
}

/// The configuration the application starts with: the stored one, brought up to date, when
/// the configuration file exists (`stored` holds what was read from it), and otherwise a
/// default one that keeps its data in `default_data_dir`.  The result is written back.
pub fn load_or_create_config(stored: Option<AppConfig>, default_data_dir: &str) -> (config: AppConfig)
    ensures
        match stored {
            Some(s) => spec_loaded(s, default_data_dir@, config),
            None => config.has_default_settings() && config.data_dir@ == default_data_dir@,
        },
{
    match stored {
        Some(mut config) => {
            prepare_loaded_config(&mut config, default_data_dir);
            config
        },
        None => AppConfig::with_data_dir(default_data_dir.to_owned()),
    }
}

/// What saving a configuration from the settings screen stores: a blank data directory
/// becomes the application's one, and the engine is set to Copilot; nothing else changes.
pub fn prepare_submitted_config(config: &mut AppConfig, default_data_dir: &str)
    ensures
        spec_trim(old(config).data_dir@).len() == 0 ==> final(config).data_dir@ == default_data_dir@,
        spec_trim(old(config).data_dir@).len() != 0 ==> final(config).data_dir@ == old(
            config,
        ).data_dir@,
        final(config).vlm_engine@ == "copilot"@,
        *final(config) == (AppConfig {
            data_dir: final(config).data_dir,
            vlm_engine: final(config).vlm_engine,
            ..*old(config)
        }),
{
    config.ensure_data_dir(default_data_dir);
    config.vlm_engine = "copilot".to_owned();
}

} // verus!
