//! DashScope speech recognition: endpoints, backend choice, request pieces
//! and the decisions of the task polling loop.

use base64::Engine;
use vstd::prelude::*;

use crate::text::{concat, owned, seq_contains, str_contains, strip_suffixes, to_lowercase, trim_end_matches, unicode_lowercase};

verus! {

/// Connection settings of DashScope.
#[derive(Debug)]
pub struct DashScopeConfig {
    pub base_url: String,
    pub api_key: String,
    pub model: String,
}

impl Clone for DashScopeConfig {
    fn clone(&self) -> (r: Self)
        ensures
            r == *self,
    {
        DashScopeConfig { base_url: self.base_url.clone(), api_key: self.api_key.clone(), model: self.model.clone() }
    }
}

impl Default for DashScopeConfig {
    fn default() -> (r: Self)
        ensures
            r.base_url@ == "https://dashscope.aliyuncs.com"@,
            r.api_key@ == Seq::<char>::empty(),
            r.model@ == "paraformer-v2"@,
    {
        DashScopeConfig {
            base_url: owned("https://dashscope.aliyuncs.com"),
            api_key: String::new(),
            model: owned("paraformer-v2"),
        }
    }
}

/// The service root: `base_url` without trailing '/', then without trailing
/// "/compatible-mode/v1", then without trailing '/' again.
pub open spec fn service_base(base_url: Seq<char>) -> Seq<char> {
    strip_suffixes(strip_suffixes(strip_suffixes(base_url, "/"@), "/compatible-mode/v1"@), "/"@)
}

/// A (lower-cased) model name that holds both "qwen" and "asr".
pub open spec fn mentions_qwen_asr(name: Seq<char>) -> bool {
    seq_contains(name, "qwen"@) && seq_contains(name, "asr"@)
}

/// The model is a Qwen ASR model: its lower-cased name holds both "qwen" and "asr".
pub open spec fn is_qwen_asr_model(model: Seq<char>) -> bool {
    mentions_qwen_asr(unicode_lowercase(model))
}

/// Whether a lower-cased model name names a Qwen ASR model.
pub fn names_qwen_asr(lowered: &str) -> (r: bool)
    ensures
        r == mentions_qwen_asr(lowered@),
{
    str_contains(lowered, "qwen") && str_contains(lowered, "asr")
}

impl DashScopeConfig {
    /// The service root, so that a workspace URL ending in
    /// "/compatible-mode/v1" works as well.
    pub fn base(&self) -> (r: String)
        ensures
            r@ == service_base(self.base_url@),
    {
        proof {
            reveal_strlit("/");
            reveal_strlit("/compatible-mode/v1");
        }
        let a = trim_end_matches(self.base_url.as_str(), "/");
        let b = trim_end_matches(a.as_str(), "/compatible-mode/v1");
        trim_end_matches(b.as_str(), "/")
    }

    /// File upload endpoint.
    pub fn files_url(&self) -> (r: String)
        ensures
            r@ == service_base(self.base_url@) + "/api/v1/files"@,
    {
        concat(self.base().as_str(), "/api/v1/files")
    }

    /// Endpoint describing one uploaded file.
    pub fn file_detail_url(&self, file_id: &str) -> (r: String)
        ensures
            r@ == service_base(self.base_url@) + "/api/v1/files/"@ + file_id@,
    {
        let a = concat(self.base().as_str(), "/api/v1/files/");
        concat(a.as_str(), file_id)
    }

    /// Paraformer asynchronous transcription endpoint.
    pub fn paraformer_transcription_url(&self) -> (r: String)
        ensures
            r@ == service_base(self.base_url@) + "/api/v1/services/audio/asr/transcription"@,
    {
        concat(self.base().as_str(), "/api/v1/services/audio/asr/transcription")
    }

    /// Endpoint of one asynchronous task.
    pub fn task_url(&self, task_id: &str) -> (r: String)
        ensures
            r@ == service_base(self.base_url@) + "/api/v1/tasks/"@ + task_id@,
    {
        let a = concat(self.base().as_str(), "/api/v1/tasks/");
        concat(a.as_str(), task_id)
    }

    /// Qwen ASR (synchronous, multimodal generation) endpoint.
    pub fn qwen_asr_url(&self) -> (r: String)
        ensures
            r@ == service_base(self.base_url@)
                + "/api/v1/services/aigc/multimodal-generation/generation"@,
    {
        concat(self.base().as_str(), "/api/v1/services/aigc/multimodal-generation/generation")
    }

    /// Model listing endpoint (used to test a key).
    pub fn models_url(&self) -> (r: String)
        ensures
            r@ == service_base(self.base_url@) + "/compatible-mode/v1/models"@,
    {
        concat(self.base().as_str(), "/compatible-mode/v1/models")
    }

    /// Whether the configured model is a Qwen ASR model.
    pub fn is_qwen_asr(&self) -> (r: bool)
        ensures
            r == is_qwen_asr_model(self.model@),
    {
        let m = to_lowercase(self.model.as_str());
        names_qwen_asr(m.as_str())
    }
}

/// How a recording is transcribed.
#[derive(Debug, Clone, Copy, PartialEq, Eq, Structural)]
pub enum AsrBackend {
    /// One synchronous request carrying the audio inline.
    QwenAsr,
    /// Upload, asynchronous task, polling.
    Paraformer,
}

/// Chooses the backend: refused without an API key; Qwen ASR models use the
/// synchronous endpoint, every other model the Paraformer task flow.
pub fn transcription_backend(config: &DashScopeConfig) -> (r: Result<AsrBackend, String>)
    ensures
        config.api_key@.len() == 0 <==> r is Err,
        r matches Err(m) ==> m@ == "DashScope API Key 未配置"@,
        r matches Ok(b) ==> (b == AsrBackend::QwenAsr <==> is_qwen_asr_model(config.model@)),
{
    if config.api_key.as_str().is_empty() {
        return Err(owned("DashScope API Key 未配置"));
    }
    if config.is_qwen_asr() {
        Ok(AsrBackend::QwenAsr)
    } else {
        Ok(AsrBackend::Paraformer)
    }
}

/// The key check of a connection test: the models URL, or the error for an empty key.
pub fn connection_check_url(config: &DashScopeConfig) -> (r: Result<String, String>)
    ensures
        config.api_key@.len() == 0 <==> r is Err,
        r matches Err(m) ==> m@ == "API Key 为空"@,
        r matches Ok(u) ==> u@ == service_base(config.base_url@) + "/compatible-mode/v1/models"@,
{
    if config.api_key.as_str().is_empty() {
        return Err(owned("API Key 为空"));
    }
    Ok(config.models_url())
}

/// Standard base64 alphabet.
pub open spec fn base64_digit(v: int) -> char {
    "ABCDEFGHIJKLMNOPQRSTUVWXYZabcdefghijklmnopqrstuvwxyz0123456789+/"@[v]
}

/// Standard base64 (RFC 4648, with '=' padding) of `b`.
pub open spec fn base64_standard(b: Seq<u8>) -> Seq<char>
    decreases b.len(),
{
    if b.len() == 0 {
        seq![]
    } else {
        let x0 = b[0] as int;
        let x1 = if b.len() > 1 { b[1] as int } else { 0 };
        let x2 = if b.len() > 2 { b[2] as int } else { 0 };
        let c0 = base64_digit(x0 / 4);
        let c1 = base64_digit((x0 % 4) * 16 + x1 / 16);
        let c2 = base64_digit((x1 % 16) * 4 + x2 / 64);
        let c3 = base64_digit(x2 % 64);
        if b.len() == 1 {
            seq![c0, c1, '=', '=']
        } else if b.len() == 2 {
            seq![c0, c1, c2, '=']
        } else {
            seq![c0, c1, c2, c3] + base64_standard(b.skip(3))
        }
    }
}

/// The length of the padded base64 text of `n` bytes fits in `usize` (the
/// encoder panics otherwise).
pub open spec fn base64_len_fits(n: int) -> bool {
    if n % 3 == 0 {
        (n / 3) * 4 <= usize::MAX
    } else {
        (n / 3) * 4 + 4 <= usize::MAX
    }
}

/// Calls `base64::engine::general_purpose::STANDARD.encode`: standard
/// alphabet with padding, as RFC 4648 defines it.
#[verifier::external_body]
fn encode_base64(bytes: &[u8]) -> (r: String)
    requires
        base64_len_fits(bytes@.len() as int),
    ensures
        r@ == base64_standard(bytes@),
{
    base64::engine::general_purpose::STANDARD.encode(bytes)
}

/// The inline audio of a Qwen ASR request: a data URL holding the WAV bytes in base64.
pub fn audio_data_url(wav: &[u8]) -> (r: String)
    requires
        base64_len_fits(wav@.len() as int),
    ensures
        r@ == "data:audio/wav;base64,"@ + base64_standard(wav@),
{
    let b = encode_base64(wav);
    concat("data:audio/wav;base64,", b.as_str())
}

/// The Qwen ASR recognition request: an empty system text, the audio inline
/// as a data URL, inverse text normalisation off, language Chinese.
#[derive(Debug)]
pub struct QwenAsrRequest {
    pub url: String,
    pub model: String,
    pub system_text: String,
    pub audio: String,
    pub enable_itn: bool,
    pub language: String,
}

/// Builds the Qwen ASR request for a WAV recording.
pub fn qwen_asr_request(config: &DashScopeConfig, wav: &[u8]) -> (r: QwenAsrRequest)
    requires
        base64_len_fits(wav@.len() as int),
    ensures
        r.url@ == service_base(config.base_url@) + "/api/v1/services/aigc/multimodal-generation/generation"@,
        r.model@ == config.model@,
        r.system_text@ == Seq::<char>::empty(),
        r.audio@ == "data:audio/wav;base64,"@ + base64_standard(wav@),
        !r.enable_itn,
        r.language@ == "zh"@,
{
    QwenAsrRequest {
        url: config.qwen_asr_url(),
        model: config.model.clone(),
        system_text: String::new(),
        audio: audio_data_url(wav),
        enable_itn: false,
        language: owned("zh"),
    }
}

/// The transcript of a Qwen ASR reply, given the texts of each choice's
/// contents: the first content of the first choice, or empty.
pub fn qwen_asr_text(choices: &Vec<Vec<String>>) -> (r: String)
    ensures
        choices@.len() > 0 && choices@[0]@.len() > 0 ==> r@ == choices@[0]@[0]@,
        !(choices@.len() > 0 && choices@[0]@.len() > 0) ==> r@ == Seq::<char>::empty(),
{
    if choices.len() > 0 && choices[0].len() > 0 {
        choices[0][0].clone()
    } else {
        String::new()
    }
}

/// The id of an uploaded file: the first one the upload reply lists.
pub fn uploaded_file_id(file_ids: &Vec<String>) -> (r: Result<String, String>)
    ensures
        file_ids@.len() > 0 <==> r is Ok,
        r matches Ok(id) ==> id@ == file_ids@[0]@,
        r matches Err(m) ==> m@ == "文件上传响应中未找到 file_id"@,
{
    if file_ids.len() > 0 {
        Ok(file_ids[0].clone())
    } else {
        Err(owned("文件上传响应中未找到 file_id"))
    }
}

/// A Paraformer transcription task: the uploaded file's URL, Chinese as the
/// language hint, submitted asynchronously.
#[derive(Debug)]
pub struct ParaformerTask {
    pub url: String,
    pub model: String,
    pub file_urls: Vec<String>,
    pub language_hints: Vec<String>,
}

/// Builds the task that transcribes the uploaded file at `file_url`.
pub fn paraformer_task(config: &DashScopeConfig, file_url: &str) -> (r: ParaformerTask)
    ensures
        r.url@ == service_base(config.base_url@) + "/api/v1/services/audio/asr/transcription"@,
        r.model@ == config.model@,
        r.file_urls@.len() == 1 && r.file_urls@[0]@ == file_url@,
        r.language_hints@.len() == 1 && r.language_hints@[0]@ == "zh"@,
{
    let mut file_urls: Vec<String> = Vec::new();
    file_urls.push(owned(file_url));
    let mut language_hints: Vec<String> = Vec::new();
    language_hints.push(owned("zh"));
    ParaformerTask { url: config.paraformer_transcription_url(), model: config.model.clone(), file_urls, language_hints }
}

/// Polls of one transcription task before giving up.
pub const MAX_POLL_ATTEMPTS: u32 = 60;

/// Before each poll: the new attempt count, or `None` (time out) once
/// `MAX_POLL_ATTEMPTS` polls were made.
pub fn next_poll_attempt(attempts: u32) -> (r: Option<u32>)
    ensures
        attempts >= MAX_POLL_ATTEMPTS <==> r is None,
        r matches Some(n) ==> n == attempts + 1,
{
    if attempts >= MAX_POLL_ATTEMPTS {
        None
    } else {
        Some(attempts + 1)
    }
}

/// The texts of one result, non-empty ones concatenated in order.
pub open spec fn joined_texts(texts: Seq<String>) -> Seq<char>
    decreases texts.len(),
{
    if texts.len() == 0 {
        seq![]
    } else {
        joined_texts(texts.drop_last()) + texts.last()@
    }
}

/// All results' texts concatenated in order.
pub open spec fn joined_results(results: Seq<Vec<String>>) -> Seq<char>
    decreases results.len(),
{
    if results.len() == 0 {
        seq![]
    } else {
        joined_results(results.drop_last()) + joined_texts(results.last()@)
    }
}

/// A transcript is the in-order concatenation of its segment texts:
/// joining two lists one after the other is joining each and concatenating,
/// one segment gives its own text, and no segment gives nothing.
pub proof fn law_segments_join_in_order(a: Seq<String>, b: Seq<String>, x: String)
    ensures
        joined_texts(a + b) == joined_texts(a) + joined_texts(b),
        joined_texts(seq![x]) == x@,
        joined_texts(Seq::<String>::empty()) == Seq::<char>::empty(),
    decreases b.len(),
{
    if b.len() == 0 {
        assert(a + b =~= a);
        assert(joined_texts(a) + Seq::<char>::empty() =~= joined_texts(a));
    } else {
        law_segments_join_in_order(a, b.drop_last(), x);
        assert((a + b).drop_last() =~= a + b.drop_last());
        assert((a + b).last() == b.last());
        assert(joined_texts(a) + joined_texts(b.drop_last()) + b.last()@ =~= joined_texts(a) + (joined_texts(
            b.drop_last(),
        ) + b.last()@));
    }
    assert(joined_texts(Seq::<String>::empty()) == Seq::<char>::empty());
    assert(seq![x].drop_last() =~= Seq::<String>::empty());
    assert(seq![x].last() == x);
    assert(Seq::<char>::empty() + x@ =~= x@);
    assert(joined_texts(seq![x]) == joined_texts(seq![x].drop_last()) + seq![x].last()@);
}

/// The transcript of all results is the in-order concatenation of each
/// result's transcript.
pub proof fn law_results_join_in_order(a: Seq<Vec<String>>, b: Seq<Vec<String>>, v: Vec<String>)
    ensures
        joined_results(a + b) == joined_results(a) + joined_results(b),
        joined_results(seq![v]) == joined_texts(v@),
        joined_results(Seq::<Vec<String>>::empty()) == Seq::<char>::empty(),
    decreases b.len(),
{
    if b.len() == 0 {
        assert(a + b =~= a);
        assert(joined_results(a) + Seq::<char>::empty() =~= joined_results(a));
    } else {
        law_results_join_in_order(a, b.drop_last(), v);
        assert((a + b).drop_last() =~= a + b.drop_last());
        assert((a + b).last() == b.last());
        assert(joined_results(a) + joined_results(b.drop_last()) + joined_texts(b.last()@) =~= joined_results(a)
            + (joined_results(b.drop_last()) + joined_texts(b.last()@)));
    }
    assert(joined_results(Seq::<Vec<String>>::empty()) == Seq::<char>::empty());
    assert(seq![v].drop_last() =~= Seq::<Vec<String>>::empty());
    assert(seq![v].last() == v);
    assert(Seq::<char>::empty() + joined_texts(v@) =~= joined_texts(v@));
    assert(joined_results(seq![v]) == joined_results(seq![v].drop_last()) + joined_texts(seq![v].last()@));
}

/// State of a transcription task after one poll.
#[derive(Debug)]
pub enum TaskState {
    /// Finished, with the transcript.
    Succeeded(String),
    /// Failed, with the service's message.
    Failed(String),
    /// Still running: poll again later.
    Running,
}

/// Interprets one poll answer: "SUCCEEDED" gives the segment texts of all
/// results joined in order; "FAILED" gives the service message or a default
/// one; any other status means the task is still running.
pub fn task_state(status: &str, results: &Vec<Vec<String>>, message: Option<String>) -> (r: TaskState)
    ensures
        status@ == "SUCCEEDED"@ ==> (r matches TaskState::Succeeded(t) && t@ == joined_results(results@)),
        status@ != "SUCCEEDED"@ && status@ == "FAILED"@ ==> (r matches TaskState::Failed(m) && m@ == match message {
            Some(x) => x@,
            None => "转写任务失败"@,
        }),
        status@ != "SUCCEEDED"@ && status@ != "FAILED"@ ==> r is Running,
{
    let sv = crate::text::chars_of(status);
    if crate::text::chars_are(&sv, "SUCCEEDED") {
        let mut out = String::new();
        let mut i: usize = 0;
        while i < results.len()
            invariant
                i <= results@.len(),
                out@ == joined_results(results@.take(i as int)),
            decreases results@.len() - i,
        {
            assert(results@.take(i + 1).drop_last() =~= results@.take(i as int));
            let texts = &results[i];
            let ghost before = out@;
            let mut j: usize = 0;
            while j < texts.len()
                invariant
                    j <= texts@.len(),
                    out@ == before + joined_texts(texts@.take(j as int)),
                decreases texts@.len() - j,
            {
                assert(texts@.take(j + 1).drop_last() =~= texts@.take(j as int));
                out.append(texts[j].as_str());
                assert(out@ =~= before + joined_texts(texts@.take(j + 1)));
                j = j + 1;
            }
            assert(texts@.take(j as int) =~= texts@);
            i = i + 1;
        }
        assert(results@.take(i as int) =~= results@);
        TaskState::Succeeded(out)
    } else if crate::text::chars_are(&sv, "FAILED") {
        match message {
            Some(m) => TaskState::Failed(m),
            None => TaskState::Failed(owned("转写任务失败")),
        }
    } else {
        TaskState::Running
    }
}

/// Retries of fetching an uploaded file's URL.
pub const MAX_FILE_URL_RETRIES: u32 = 5;

/// After a failed attempt to fetch a file URL (with `failures` failures
/// before it): retry only when the error mentions HTTP 429 and fewer than
/// `MAX_FILE_URL_RETRIES` retries were made; the answer is the new failure
/// count and the wait in milliseconds (500 per failure so far).
pub fn file_url_retry(failures: u32, error_text: &str) -> (r: Option<(u32, u64)>)
    ensures
        r is Some <==> failures < MAX_FILE_URL_RETRIES && seq_contains(error_text@, "429"@),
        r matches Some(p) ==> p.0 == failures + 1 && p.1 == 500 * (failures + 1),
{
    if failures >= MAX_FILE_URL_RETRIES {
        return None;
    }
    let attempt = failures + 1;
    if str_contains(error_text, "429") {
        Some((attempt, 500 * (attempt as u64)))
    } else {
        None
    }
}

} // verus!
