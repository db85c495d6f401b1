//! The records and settings that the rest of the library works on.
use crate::text::{lemma_trim_unpadded, spec_trim, str_trim};
use vstd::prelude::*;

verus! {

/// The text of an optional string.
pub open spec fn opt_view(o: Option<String>) -> Option<Seq<char>> {
    match o {
        Some(s) => Some(s@),
        None => None,
    }
}

/// The texts of a list of strings.
pub open spec fn strings_view(v: Seq<String>) -> Seq<Seq<char>> {
    v.map_values(|s: String| s@)
}

/// One screenshot and what is known of it.
#[derive(Debug, Clone, PartialEq, Eq)]
pub struct CaptureRecord {
    pub id: String,
    pub timestamp: String,
    pub app: String,
    pub window_title: String,
    pub image_path: Option<String>,
    pub description: Option<String>,
    pub dhash: Option<String>,
}

/// A rule that hides sensitive text on export.
#[derive(Debug, Clone, PartialEq, Eq)]
pub struct MaskRule {
    pub pattern: String,
    pub replacement: String,
    pub is_regex: bool,
}

impl Default for MaskRule {
    fn default() -> (rule: Self)
        ensures
            rule.pattern@ == Seq::<char>::empty(),
            rule.replacement@ == "[MASKED]"@,
            !rule.is_regex,
    {
        MaskRule { pattern: String::new(), replacement: "[MASKED]".to_owned(), is_regex: false }
    }
}

/// The application's settings.
#[derive(Debug, Clone, PartialEq, Eq)]
pub struct AppConfig {
    pub capture_interval_secs: u64,
    pub dhash_threshold: u32,
    pub auto_delete_images: bool,
    pub scheduler_enabled: bool,
    pub setup_complete: bool,
    pub batch_time: String,
    pub batch_times: Vec<String>,
    pub vlm_host: String,
    pub vlm_max_tokens: u32,
    pub vlm_engine: String,
    pub data_dir: String,
    pub system_prompt: String,
    pub user_prompt: String,
    pub session_user_prompt: String,
    pub hourly_summary_prompt: String,
    pub daily_record_prompt: String,
    pub session_gap_secs: u64,
    pub session_window_secs: u64,
    pub max_frames_per_collage: u32,
    pub copilot_port: u16,
    pub edge_cdp_port: u16,
    pub mask_rules: Vec<MaskRule>,
}

/// The interval between screenshots that a fresh configuration uses.
pub const DEFAULT_CAPTURE_INTERVAL_SECS: u64 = 10;

/// The batch times that a fresh configuration uses.
pub open spec fn spec_default_batch_times() -> Seq<Seq<char>> {
    seq!["12:00"@, "17:30"@]
}

fn default_batch_times() -> (times: Vec<String>)
    ensures
        strings_view(times@) == spec_default_batch_times(),
{
    let mut times: Vec<String> = Vec::new();
    times.push("12:00".to_owned());
    times.push("17:30".to_owned());
    assert(strings_view(times@) =~= spec_default_batch_times());
    times
}

impl AppConfig {
    /// Every setting holds its default value, but for the data directory.
    pub open spec fn has_default_settings(self) -> bool {
        &&& self.capture_interval_secs == DEFAULT_CAPTURE_INTERVAL_SECS
        &&& self.dhash_threshold == 10
        &&& self.auto_delete_images
        &&& self.scheduler_enabled
        &&& !self.setup_complete
        &&& self.batch_time@ == "22:00"@
        &&& strings_view(self.batch_times@) == spec_default_batch_times()
        &&& self.vlm_host@ == "127.0.0.1:8080"@
        &&& self.vlm_max_tokens == 256
        &&& self.vlm_engine@ == "copilot"@
        &&& self.system_prompt@ == spec_default_system_prompt()
        &&& self.user_prompt@ == spec_default_user_prompt()
        &&& self.session_user_prompt@ == spec_default_session_user_prompt()
        &&& self.hourly_summary_prompt@ == spec_default_hourly_summary_prompt()
        &&& self.daily_record_prompt@ == spec_default_daily_record_prompt()
        &&& self.session_gap_secs == 300
        &&& self.session_window_secs == 900
        &&& self.max_frames_per_collage == 6
        &&& self.copilot_port == 18080
        &&& self.edge_cdp_port == 9333
        &&& self.mask_rules@.len() == 0
    }

    /// A default configuration that stores its data under `data_dir`.
    pub fn with_data_dir(data_dir: String) -> (config: Self)
        ensures
            config.has_default_settings(),
            config.data_dir@ == data_dir@,
    {
        AppConfig { data_dir, ..Self::default() }
    }

    /// Fills in the data directory when it is blank; reports whether it did.
    pub fn ensure_data_dir(&mut self, data_dir: &str) -> (changed: bool)
        ensures
            changed == (spec_trim(old(self).data_dir@).len() == 0),
            changed ==> final(self).data_dir@ == data_dir@,
            !changed ==> final(self).data_dir@ == old(self).data_dir@,
            final(self).same_except_data_dir(*old(self)),
    {
        if str_trim(self.data_dir.as_str()).is_empty() {
            self.data_dir = data_dir.to_owned();
            true
        } else {
            false
        }
    }

    /// Two configurations agree on every setting but the data directory.
    pub open spec fn same_except_data_dir(self, other: Self) -> bool {
        self == AppConfig { data_dir: self.data_dir, ..other }
    }
}

impl Default for AppConfig {
    fn default() -> (config: Self)
        ensures
            config.has_default_settings(),
            config.data_dir@ == Seq::<char>::empty(),
    {
        AppConfig {
            capture_interval_secs: DEFAULT_CAPTURE_INTERVAL_SECS,
            dhash_threshold: 10,
            auto_delete_images: true,
            scheduler_enabled: true,
            setup_complete: false,
            batch_time: "22:00".to_owned(),
            batch_times: default_batch_times(),
            vlm_host: "127.0.0.1:8080".to_owned(),
            vlm_max_tokens: 256,
            vlm_engine: "copilot".to_owned(),
            data_dir: String::new(),
            system_prompt: default_system_prompt(),
            user_prompt: default_user_prompt(),
            session_user_prompt: default_session_user_prompt(),
            hourly_summary_prompt: default_hourly_summary_prompt(),
            daily_record_prompt: default_daily_record_prompt(),
            session_gap_secs: 300,
            session_window_secs: 900,
            max_frames_per_collage: 6,
            copilot_port: 18080,
            edge_cdp_port: 9333,
            mask_rules: Vec::new(),
        }
    }
}

/// The system prompt that a fresh configuration uses.
pub open spec fn spec_default_system_prompt() -> Seq<char> {
    "あなたは経理部門向けの業務記録アシスタントです。画面上で確認できる事実を優先し、\
     日本語で簡潔に記述してください。SAP GUI、Excel、Outlook、Teams などの画面を対象とし、\
     連結PKG、内部取引消去、UPI、月次決算、メール確認、会議参加などの業務文脈が明確な場合のみ用語を使ってください。\
     推測は控えめにし、不確実な場合は一般的な表現に留めてください。"@
}

/// The per-screenshot user prompt that a fresh configuration uses.
pub open spec fn spec_default_user_prompt() -> Seq<char> {
    "このスクリーンショットに写っている業務操作を1から3文で説明してください。\
     必ず次の観点を含めてください: 使用中のアプリケーション、実行している操作、表示されているデータや対象。\
     出力は自然な日本語の文章のみとし、箇条書きやJSONは使わないでください。"@
}

/// The per-session user prompt that a fresh configuration uses.
pub open spec fn spec_default_session_user_prompt() -> Seq<char> {
    "これは {start_time} から {end_time} の間（{duration_min}分間）の\
     業務画面の流れです。{frame_count} 枚のスクリーンショットを\
     時系列順に並べたコラージュを見て、この間に行っていた業務操作を\
     1〜3文で説明してください。必ず次の観点を含めてください: \
     使用中のアプリケーション、実行している操作の流れ、\
     表示されているデータや対象、画面内で読み取れる固有ラベルや表題。\
     入力内容や意図は画面から裏付けられる範囲に限定し、\
     画面から読み取れない内容は推測しないでください。\
     出力は自然な日本語の文章のみとし、箇条書きや JSON は使わないでください。"@
}

/// The prompt that asks for an hourly summary of sessions.
pub open spec fn spec_default_hourly_summary_prompt() -> Seq<char> {
    "{start_time} から {end_time} までの業務セッションの記録です。\n{sessions}\n\
     この1時間に行っていた業務を1〜3文で要約してください。"@
}

/// The prompt that asks for a half-day record from hourly summaries.
pub open spec fn spec_default_daily_record_prompt() -> Seq<char> {
    "{date} の{period}の業務要約です。\n{summaries}\n\
     この時間帯の業務内容を日報として簡潔にまとめてください。"@
}

/// The default prompts are not blank: trimming leaves text in each.
pub proof fn lemma_default_prompts_not_blank()
    ensures
        spec_trim(spec_default_system_prompt()).len() > 0,
        spec_trim(spec_default_user_prompt()).len() > 0,
        spec_trim(spec_default_session_user_prompt()).len() > 0,
        spec_trim(spec_default_hourly_summary_prompt()).len() > 0,
        spec_trim(spec_default_daily_record_prompt()).len() > 0,
{
    reveal_strlit("あなたは経理部門向けの業務記録アシスタントです。画面上で確認できる事実を優先し、\
     日本語で簡潔に記述してください。SAP GUI、Excel、Outlook、Teams などの画面を対象とし、\
     連結PKG、内部取引消去、UPI、月次決算、メール確認、会議参加などの業務文脈が明確な場合のみ用語を使ってください。\
     推測は控えめにし、不確実な場合は一般的な表現に留めてください。");
    reveal_strlit("このスクリーンショットに写っている業務操作を1から3文で説明してください。\
     必ず次の観点を含めてください: 使用中のアプリケーション、実行している操作、表示されているデータや対象。\
     出力は自然な日本語の文章のみとし、箇条書きやJSONは使わないでください。");
    reveal_strlit("これは {start_time} から {end_time} の間（{duration_min}分間）の\
     業務画面の流れです。{frame_count} 枚のスクリーンショットを\
     時系列順に並べたコラージュを見て、この間に行っていた業務操作を\
     1〜3文で説明してください。必ず次の観点を含めてください: \
     使用中のアプリケーション、実行している操作の流れ、\
     表示されているデータや対象、画面内で読み取れる固有ラベルや表題。\
     入力内容や意図は画面から裏付けられる範囲に限定し、\
     画面から読み取れない内容は推測しないでください。\
     出力は自然な日本語の文章のみとし、箇条書きや JSON は使わないでください。");
    reveal_strlit("{start_time} から {end_time} までの業務セッションの記録です。\n{sessions}\n\
     この1時間に行っていた業務を1〜3文で要約してください。");
    reveal_strlit("{date} の{period}の業務要約です。\n{summaries}\n\
     この時間帯の業務内容を日報として簡潔にまとめてください。");
    lemma_trim_unpadded(spec_default_system_prompt());
    lemma_trim_unpadded(spec_default_user_prompt());
    lemma_trim_unpadded(spec_default_session_user_prompt());
    lemma_trim_unpadded(spec_default_hourly_summary_prompt());
    lemma_trim_unpadded(spec_default_daily_record_prompt());
}

/// The default system prompt.
pub fn default_system_prompt() -> (prompt: String)
    ensures
        prompt@ == spec_default_system_prompt(),
{
    "あなたは経理部門向けの業務記録アシスタントです。画面上で確認できる事実を優先し、\
     日本語で簡潔に記述してください。SAP GUI、Excel、Outlook、Teams などの画面を対象とし、\
     連結PKG、内部取引消去、UPI、月次決算、メール確認、会議参加などの業務文脈が明確な場合のみ用語を使ってください。\
     推測は控えめにし、不確実な場合は一般的な表現に留めてください。".to_owned()
}

/// The default per-screenshot user prompt.
pub fn default_user_prompt() -> (prompt: String)
    ensures
        prompt@ == spec_default_user_prompt(),
{
    "このスクリーンショットに写っている業務操作を1から3文で説明してください。\
     必ず次の観点を含めてください: 使用中のアプリケーション、実行している操作、表示されているデータや対象。\
     出力は自然な日本語の文章のみとし、箇条書きやJSONは使わないでください。".to_owned()
}

/// The default per-session user prompt.
pub fn default_session_user_prompt() -> (prompt: String)
    ensures
        prompt@ == spec_default_session_user_prompt(),
{
    "これは {start_time} から {end_time} の間（{duration_min}分間）の\
     業務画面の流れです。{frame_count} 枚のスクリーンショットを\
     時系列順に並べたコラージュを見て、この間に行っていた業務操作を\
     1〜3文で説明してください。必ず次の観点を含めてください: \
     使用中のアプリケーション、実行している操作の流れ、\
     表示されているデータや対象、画面内で読み取れる固有ラベルや表題。\
     入力内容や意図は画面から裏付けられる範囲に限定し、\
     画面から読み取れない内容は推測しないでください。\
     出力は自然な日本語の文章のみとし、箇条書きや JSON は使わないでください。".to_owned()
}

/// The default hourly summary prompt.
pub fn default_hourly_summary_prompt() -> (prompt: String)
    ensures
        prompt@ == spec_default_hourly_summary_prompt(),
{
    "{start_time} から {end_time} までの業務セッションの記録です。\n{sessions}\n\
     この1時間に行っていた業務を1〜3文で要約してください。".to_owned()
}

/// The default half-day record prompt.
pub fn default_daily_record_prompt() -> (prompt: String)
    ensures
        prompt@ == spec_default_daily_record_prompt(),
{
    "{date} の{period}の業務要約です。\n{summaries}\n\
     この時間帯の業務内容を日報として簡潔にまとめてください。".to_owned()
}

/// Counters of the recording loop.
#[derive(Debug, Clone, Default, PartialEq, Eq)]
pub struct CaptureStats {
    pub total_captures: u64,
    pub effective_captures: u64,
    pub skipped_captures: u64,
    pub last_capture_at: Option<String>,
}

/// What is known of the inference server and the batch.
#[derive(Debug, Clone, Default, PartialEq, Eq)]
pub struct VlmState {
    pub server_running: bool,
    pub batch_running: bool,
    pub last_error: Option<String>,
}

/// Progress of a description batch.
#[derive(Debug, Clone, Default, PartialEq, Eq)]
pub struct VlmBatchProgress {
    pub total: usize,
    pub completed: usize,
    pub failed: usize,
    pub current_id: Option<String>,
    pub estimated_remaining_secs: Option<u64>,
}

} // verus!
