//! Cloud speech-to-text: provider names, where API keys are kept, how provider
//! replies and errors are read, and the in-memory WAV upload.
use vstd::prelude::*;

use crate::text::{
    append_chars, append_str, chars_eq_str, chars_of, decimal, decimal_of, lemma_case_chars,
    lemma_lower_idempotent, lemma_trim_fixed, lemma_trim_shape, lower, lower_char, string_of, to_lower, trim,
    trim_chars,
};

verus! {

/// Sample rate of uploaded audio.
pub const SAMPLE_RATE: u32 = 16_000;

/// Cloud request timeout, in seconds.
pub const REQUEST_TIMEOUT_SECS: u64 = 25;

/// A cloud transcription provider.
#[derive(Debug, Clone, Copy, PartialEq, Eq, Structural)]
pub enum CloudProviderKind {
    OpenAi,
    Groq,
    Deepgram,
}

/// A provider that transcribes an uploaded WAV file.
pub trait CloudProvider {
    fn transcribe(&self, wav: Vec<u8>) -> Result<String, String>;
}

/// API keys of the cloud providers, kept in the credential store.
pub struct CloudCredentials;

/// One write to the credential store: `secret` under the entry `target`.
#[derive(Debug, PartialEq, Eq)]
pub struct SecretWrite {
    pub target: String,
    pub secret: String,
}

/// Error details in an OpenAI-style reply.
#[derive(Debug)]
pub struct ApiError {
    pub message: Option<String>,
    pub error_type: Option<String>,
    pub code: Option<String>,
}

/// An OpenAI-style (OpenAI, Groq) transcription reply.
#[derive(Debug)]
pub struct OpenAiLikeResponse {
    pub text: Option<String>,
    pub error: Option<ApiError>,
}

/// A Deepgram transcription reply.
#[derive(Debug)]
pub struct DeepgramResponse {
    pub results: Option<DeepgramResults>,
    pub err_msg: Option<String>,
}

#[derive(Debug)]
pub struct DeepgramResults {
    pub channels: Vec<DeepgramChannel>,
}

#[derive(Debug)]
pub struct DeepgramChannel {
    pub alternatives: Vec<DeepgramAlternative>,
}

#[derive(Debug)]
pub struct DeepgramAlternative {
    pub transcript: String,
}

// ---------------------------------------------------------------------------
// Models of the values

/// The provider named by a configuration value: `groq` and `deepgram`
/// case-insensitively and ignoring surrounding whitespace, OpenAI for anything else.
pub open spec fn provider_named(value: Seq<char>) -> CloudProviderKind {
    let l = lower(trim(value));
    if l == "groq"@ {
        CloudProviderKind::Groq
    } else if l == "deepgram"@ {
        CloudProviderKind::Deepgram
    } else {
        CloudProviderKind::OpenAi
    }
}

pub open spec fn credential_name_of(kind: CloudProviderKind) -> Seq<char> {
    match kind {
        CloudProviderKind::OpenAi => "openai"@,
        CloudProviderKind::Groq => "groq"@,
        CloudProviderKind::Deepgram => "deepgram"@,
    }
}

pub open spec fn env_key_of(kind: CloudProviderKind) -> Seq<char> {
    match kind {
        CloudProviderKind::OpenAi => "OPENAI_API_KEY"@,
        CloudProviderKind::Groq => "GROQ_API_KEY"@,
        CloudProviderKind::Deepgram => "DEEPGRAM_API_KEY"@,
    }
}

/// The credential-store entry that holds a provider's API key.
pub open spec fn credential_target_of(kind: CloudProviderKind) -> Seq<char> {
    "WisprType/cloud/"@ + credential_name_of(kind)
}

/// An HTTP status in the 2xx range.
pub open spec fn is_success(status: u16) -> bool {
    200 <= status <= 299
}

/// The error text for a failed request, by status: a rejected key (401, 403), an
/// exceeded quota (429, 402), or a failed transcription.
pub open spec fn status_message(provider: Seq<char>, status: u16, message: Seq<char>) -> Seq<char> {
    if status == 401 || status == 403 {
        provider + " rejected the API key: "@ + message
    } else if status == 429 || status == 402 {
        provider + " quota exceeded: "@ + message
    } else {
        provider + " transcription failed: "@ + message
    }
}

/// `HTTP <status>`.
pub open spec fn http_status_text(status: u16) -> Seq<char> {
    "HTTP "@ + decimal(status as nat)
}

/// The message of an OpenAI-style error: its message, else its code, else its
/// type, else the HTTP status.
pub open spec fn api_error_message(status: u16, error: Option<ApiError>) -> Seq<char> {
    match error {
        Some(e) => match e.message {
            Some(m) => m@,
            None => match e.code {
                Some(c) => c@,
                None => match e.error_type {
                    Some(t) => t@,
                    None => http_status_text(status),
                },
            },
        },
        None => http_status_text(status),
    }
}

/// The reply text that counts as a transcript: present and not blank.
pub open spec fn usable_text(text: Option<String>) -> Option<Seq<char>> {
    match text {
        Some(t) => if trim(t@).len() > 0 {
            Some(t@)
        } else {
            None
        },
        None => None,
    }
}

/// The outcome of an OpenAI-style reply.
pub open spec fn openai_like_outcome(
    provider: Seq<char>,
    status: u16,
    payload: Result<OpenAiLikeResponse, String>,
) -> Result<Seq<char>, Seq<char>> {
    match payload {
        Err(e) => Err(provider + " returned an unreadable response: "@ + e@),
        Ok(p) => if !is_success(status) {
            Err(status_message(provider, status, api_error_message(status, p.error)))
        } else {
            match usable_text(p.text) {
                Some(t) => Ok(t),
                None => Err(provider + " returned an empty transcript"@),
            }
        },
    }
}

/// The transcript of the first alternative of the first channel of a Deepgram reply.
pub open spec fn deepgram_first_transcript(results: Option<DeepgramResults>) -> Option<String> {
    match results {
        Some(r) => if r.channels@.len() > 0 && r.channels@[0].alternatives@.len() > 0 {
            Some(r.channels@[0].alternatives@[0].transcript)
        } else {
            None
        },
        None => None,
    }
}

/// The outcome of a Deepgram reply.
pub open spec fn deepgram_outcome(status: u16, payload: Result<DeepgramResponse, String>) -> Result<
    Seq<char>,
    Seq<char>,
> {
    match payload {
        Err(e) => Err("Deepgram returned an unreadable response: "@ + e@),
        Ok(p) => if !is_success(status) {
            let message = match p.err_msg {
                Some(m) => m@,
                None => http_status_text(status),
            };
            Err(status_message("Deepgram"@, status, message))
        } else {
            match usable_text(deepgram_first_transcript(p.results)) {
                Some(t) => Ok(t),
                None => Err("Deepgram returned an empty transcript"@),
            }
        },
    }
}

/// The view of a result of strings.
pub open spec fn result_view(r: Result<String, String>) -> Result<Seq<char>, Seq<char>> {
    match r {
        Ok(s) => Ok(s@),
        Err(e) => Err(e@),
    }
}

/// Little-endian bytes of a 16-bit value.
pub open spec fn le16(x: int) -> Seq<u8> {
    seq![(x % 256) as u8, (x / 256 % 256) as u8]
}

/// Little-endian bytes of a 32-bit value.
pub open spec fn le32(x: int) -> Seq<u8> {
    seq![(x % 256) as u8, (x / 256 % 256) as u8, (x / 65536 % 256) as u8, (x / 16777216 % 256) as u8]
}

/// The 16-bit PCM bytes of the samples, little-endian two's complement.
pub open spec fn pcm_bytes(samples: Seq<i16>) -> Seq<u8>
    decreases samples.len(),
{
    if samples.len() == 0 {
        Seq::empty()
    } else {
        let s = samples.last() as int;
        let u = if s < 0 { s + 65536 } else { s };
        pcm_bytes(samples.drop_last()) + le16(u)
    }
}

/// The 44-byte header of a mono 16-bit PCM WAV file with `n` samples.
pub open spec fn wav_header(n: int, sample_rate: int) -> Seq<u8> {
    seq![0x52u8, 0x49, 0x46, 0x46] + le32(36 + 2 * n) + seq![0x57u8, 0x41, 0x56, 0x45, 0x66, 0x6d,
        0x74, 0x20] + le32(16) + le16(1) + le16(1) + le32(sample_rate) + le32(sample_rate * 2)
        + le16(2) + le16(16) + seq![0x64u8, 0x61, 0x74, 0x61] + le32(2 * n)
}

// ---------------------------------------------------------------------------
// Executable code

impl CloudProviderKind {
    /// The provider named by `value`.
    pub fn parse(value: &str) -> (r: Self)
        ensures
            r == provider_named(value@),
    {
        let v = chars_of(value);
        let t = trim_chars(v.as_slice());
        let l = to_lower(t.as_slice());
        if chars_eq_str(l.as_slice(), "groq") {
            CloudProviderKind::Groq
        } else if chars_eq_str(l.as_slice(), "deepgram") {
            CloudProviderKind::Deepgram
        } else {
            CloudProviderKind::OpenAi
        }
    }

    /// The provider named by the configuration value, OpenAI when it is absent.
    pub fn from_env_value(value: Option<String>) -> (r: Self)
        ensures
            r == match value {
                Some(v) => provider_named(v@),
                None => provider_named("openai"@),
            },
    {
        match value {
            Some(v) => Self::parse(v.as_str()),
            None => Self::parse("openai"),
        }
    }

    /// The provider's name in credential-store entries.
    pub fn credential_name(self) -> (r: &'static str)
        ensures
            r@ == credential_name_of(self),
    {
        match self {
            CloudProviderKind::OpenAi => "openai",
            CloudProviderKind::Groq => "groq",
            CloudProviderKind::Deepgram => "deepgram",
        }
    }

    /// The environment variable that may hold the provider's API key.
    pub fn env_key(self) -> (r: &'static str)
        ensures
            r@ == env_key_of(self),
    {
        match self {
            CloudProviderKind::OpenAi => "OPENAI_API_KEY",
            CloudProviderKind::Groq => "GROQ_API_KEY",
            CloudProviderKind::Deepgram => "DEEPGRAM_API_KEY",
        }
    }
}

/// The credential-store entry for a provider's API key.
pub fn credential_target(kind: CloudProviderKind) -> (r: String)
    ensures
        r@ == credential_target_of(kind),
{
    let mut out: Vec<char> = Vec::new();
    append_str(&mut out, "WisprType/cloud/");
    append_str(&mut out, kind.credential_name());
    string_of(out.as_slice())
}

/// The credential store of builds without the Windows Credential Manager: nothing
/// is ever stored, so a read finds nothing.
pub fn read_secret(_target: &str) -> (r: Result<Option<String>, String>)
    ensures
        r == Ok::<Option<String>, String>(None),
{
    Ok(None)
}

/// Writing to the credential store of builds without the Windows Credential
/// Manager always fails.
pub fn write_secret(_target: &str, _secret: &str) -> (r: Result<(), String>)
    ensures
        r matches Err(e) && e@ == "Windows Credential Manager is only available on Windows"@,
{
    Err(string_of(chars_of("Windows Credential Manager is only available on Windows").as_slice()))
}

/// Deleting from the credential store of builds without the Windows Credential
/// Manager: there is nothing to delete.
pub fn delete_secret(_target: &str) -> (r: Result<(), String>)
    ensures
        r == Ok::<(), String>(()),
{
    Ok(())
}

impl CloudCredentials {
    /// The stored API key of `kind`: what `read` (the credential store's read)
    /// returns for the provider's credential target.
    pub fn read_api_key<R: Fn(&str) -> Result<Option<String>, String>>(
        kind: CloudProviderKind,
        read: R,
    ) -> (r: Result<Option<String>, String>)
        requires
            forall|t: &str| read.requires((t,)),
        ensures
            exists|t: &str|
                #![trigger read.ensures((t,), r)]
                t@ == credential_target_of(kind) && read.ensures((t,), r),
    {
        let target = credential_target(kind);
        read(target.as_str())
    }

    /// The write that stores the API key of `kind`: the key itself, under the
    /// provider's credential target. A blank key is refused and produces no write at
    /// all, so the store is never touched for it.
    pub fn write_api_key(kind: CloudProviderKind, api_key: &str) -> (r: Result<SecretWrite, String>)
        ensures
            trim(api_key@).len() == 0 ==> (r matches Err(e) && e@ == "API key cannot be empty"@),
            trim(api_key@).len() > 0 ==> (r matches Ok(w) && w.target@ == credential_target_of(kind)
                && w.secret@ == api_key@),
    {
        let key = chars_of(api_key);
        if trim_chars(key.as_slice()).len() == 0 {
            return Err(string_of(chars_of("API key cannot be empty").as_slice()));
        }
        Ok(SecretWrite { target: credential_target(kind), secret: string_of(key.as_slice()) })
    }

    /// Removes the stored API key of `kind` through `delete`.
    pub fn delete_api_key<D: Fn(&str) -> Result<(), String>>(kind: CloudProviderKind, delete: D) -> (r:
        Result<(), String>)
        requires
            forall|t: &str| delete.requires((t,)),
        ensures
            exists|t: &str|
                #![trigger delete.ensures((t,), r)]
                t@ == credential_target_of(kind) && delete.ensures((t,), r),
    {
        let target = credential_target(kind);
        delete(target.as_str())
    }
}

/// The `Debug` name of a provider.
pub open spec fn kind_debug_name(kind: CloudProviderKind) -> Seq<char> {
    match kind {
        CloudProviderKind::OpenAi => "OpenAi"@,
        CloudProviderKind::Groq => "Groq"@,
        CloudProviderKind::Deepgram => "Deepgram"@,
    }
}

/// The API key a cloud transcriber of `kind` uses: the one in the credential store
/// (`stored`, the store's answer), else the one in the provider's environment
/// variable (`from_env`); a failed store lookup is passed on, and having neither
/// is an error.
pub fn choose_api_key(kind: CloudProviderKind, stored: Result<Option<String>, String>, from_env: Option<
    String,
>) -> (r: Result<String, String>)
    ensures
        match stored {
            Err(e) => r == Err::<String, String>(e),
            Ok(Some(k)) => r == Ok::<String, String>(k),
            Ok(None) => match from_env {
                Some(k) => r == Ok::<String, String>(k),
                None => r matches Err(m) && m@ == "Missing API key for "@ + kind_debug_name(kind),
            },
        },
{
    match stored {
        Err(e) => Err(e),
        Ok(Some(k)) => Ok(k),
        Ok(None) => match from_env {
            Some(k) => Ok(k),
            None => {
                let name = match kind {
                    CloudProviderKind::OpenAi => "OpenAi",
                    CloudProviderKind::Groq => "Groq",
                    CloudProviderKind::Deepgram => "Deepgram",
                };
                let mut out: Vec<char> = Vec::new();
                append_str(&mut out, "Missing API key for ");
                append_str(&mut out, name);
                Err(string_of(out.as_slice()))
            },
        },
    }
}

/// Whether a provider's API key is configured.
#[derive(Debug)]
pub struct CloudApiKeyStatus {
    pub provider: String,
    pub configured: bool,
}

/// Whether the provider named `provider` has a stored API key: the answer of
/// `read` for that provider's credential target, with its error passed on.
pub fn cloud_api_key_status<R: Fn(&str) -> Result<Option<String>, String>>(
    provider: String,
    read: R,
) -> (r: Result<CloudApiKeyStatus, String>)
    requires
        forall|t: &str| read.requires((t,)),
    ensures
        exists|t: &str, out: Result<Option<String>, String>|
            #![trigger read.ensures((t,), out)]
            t@ == credential_target_of(provider_named(provider@)) && read.ensures((t,), out)
                && match out {
                Ok(key) => r matches Ok(s) && s.provider == provider && s.configured == key.is_some(),
                Err(e) => r == Err::<CloudApiKeyStatus, String>(e),
            },
{
    let kind = CloudProviderKind::parse(provider.as_str());
    match CloudCredentials::read_api_key(kind, read) {
        Ok(key) => Ok(CloudApiKeyStatus { provider, configured: key.is_some() }),
        Err(e) => Err(e),
    }
}

/// The write that stores the API key of the provider named `provider` (see
/// `CloudCredentials::write_api_key`).
pub fn store_cloud_api_key(provider: String, api_key: String) -> (r: Result<SecretWrite, String>)
    ensures
        trim(api_key@).len() == 0 ==> (r matches Err(e) && e@ == "API key cannot be empty"@),
        trim(api_key@).len() > 0 ==> (r matches Ok(w) && w.target@ == credential_target_of(
            provider_named(provider@),
        ) && w.secret@ == api_key@),
{
    CloudCredentials::write_api_key(CloudProviderKind::parse(provider.as_str()), api_key.as_str())
}

/// Removes the API key of the provider named `provider` through `delete`.
pub fn delete_cloud_api_key<D: Fn(&str) -> Result<(), String>>(provider: String, delete: D) -> (r:
    Result<(), String>)
    requires
        forall|t: &str| delete.requires((t,)),
    ensures
        exists|t: &str|
            #![trigger delete.ensures((t,), r)]
            t@ == credential_target_of(provider_named(provider@)) && delete.ensures((t,), r),
{
    CloudCredentials::delete_api_key(CloudProviderKind::parse(provider.as_str()), delete)
}

fn http_status(status: u16) -> (r: Vec<char>)
    ensures
        r@ == http_status_text(status),
{
    let mut out: Vec<char> = Vec::new();
    append_str(&mut out, "HTTP ");
    let d = decimal_of(status as u64);
    append_chars(&mut out, d.as_slice());
    out
}

/// The error text for a failed request with `status` and `message`.
pub fn classify_status(provider: &str, status: u16, message: String) -> (r: String)
    ensures
        r@ == status_message(provider@, status, message@),
{
    let mut out: Vec<char> = Vec::new();
    append_str(&mut out, provider);
    if status == 401 || status == 403 {
        append_str(&mut out, " rejected the API key: ");
    } else if status == 429 || status == 402 {
        append_str(&mut out, " quota exceeded: ");
    } else {
        append_str(&mut out, " transcription failed: ");
    }
    append_str(&mut out, message.as_str());
    string_of(out.as_slice())
}

/// The error text for an OpenAI-style error reply.
pub fn classify_api_error(provider: &str, status: u16, error: Option<ApiError>) -> (r: String)
    ensures
        r@ == status_message(provider@, status, api_error_message(status, error)),
{
    let message: String = match error {
        Some(e) => match e.message {
            Some(m) => m,
            None => match e.code {
                Some(c) => c,
                None => match e.error_type {
                    Some(t) => t,
                    None => string_of(http_status(status).as_slice()),
                },
            },
        },
        None => string_of(http_status(status).as_slice()),
    };
    classify_status(provider, status, message)
}

/// The error text for a request that got no reply: a timeout, or the transport error.
pub fn classify_transport_error(provider: &str, is_timeout: bool, error: &str) -> (r: String)
    ensures
        is_timeout ==> r@ == provider@ + " transcription timed out"@,
        !is_timeout ==> r@ == provider@ + " transcription request failed: "@ + error@,
{
    let mut out: Vec<char> = Vec::new();
    append_str(&mut out, provider);
    if is_timeout {
        append_str(&mut out, " transcription timed out");
    } else {
        append_str(&mut out, " transcription request failed: ");
        append_str(&mut out, error);
    }
    string_of(out.as_slice())
}

fn usable(text: Option<String>) -> (r: Option<String>)
    ensures
        match r {
            Some(t) => usable_text(text) == Some(t@),
            None => usable_text(text) is None,
        },
{
    match text {
        Some(t) => {
            let v = chars_of(t.as_str());
            if trim_chars(v.as_slice()).len() > 0 {
                Some(t)
            } else {
                None
            }
        },
        None => None,
    }
}

/// Reads an OpenAI-style reply with HTTP `status`; `payload` is the decoded JSON
/// body, or the decoding error.
pub fn parse_openai_like_response(
    provider: &str,
    status: u16,
    payload: Result<OpenAiLikeResponse, String>,
) -> (r: Result<String, String>)
    ensures
        result_view(r) == openai_like_outcome(provider@, status, payload),
{
    match payload {
        Err(e) => {
            let mut out: Vec<char> = Vec::new();
            append_str(&mut out, provider);
            append_str(&mut out, " returned an unreadable response: ");
            append_str(&mut out, e.as_str());
            Err(string_of(out.as_slice()))
        },
        Ok(p) => {
            if !(200 <= status && status <= 299) {
                return Err(classify_api_error(provider, status, p.error));
            }
            match usable(p.text) {
                Some(t) => Ok(t),
                None => {
                    let mut out: Vec<char> = Vec::new();
                    append_str(&mut out, provider);
                    append_str(&mut out, " returned an empty transcript");
                    Err(string_of(out.as_slice()))
                },
            }
        },
    }
}

/// Reads a Deepgram reply with HTTP `status`; `payload` is the decoded JSON body,
/// or the decoding error.
pub fn parse_deepgram_response(status: u16, payload: Result<DeepgramResponse, String>) -> (r:
    Result<String, String>)
    ensures
        result_view(r) == deepgram_outcome(status, payload),
{
    match payload {
        Err(e) => {
            let mut out: Vec<char> = Vec::new();
            append_str(&mut out, "Deepgram returned an unreadable response: ");
            append_str(&mut out, e.as_str());
            Err(string_of(out.as_slice()))
        },
        Ok(p) => {
            if !(200 <= status && status <= 299) {
                let message = match p.err_msg {
                    Some(m) => m,
                    None => string_of(http_status(status).as_slice()),
                };
                return Err(classify_status("Deepgram", status, message));
            }
            let first: Option<String> = match p.results {
                Some(results) => {
                    if results.channels.len() > 0 && results.channels[0].alternatives.len() > 0 {
                        Some(results.channels[0].alternatives[0].transcript.clone())
                    } else {
                        None
                    }
                },
                None => None,
            };
            match usable(first) {
                Some(t) => Ok(t),
                None => Err(string_of(chars_of("Deepgram returned an empty transcript").as_slice())),
            }
        },
    }
}

fn push_le16(out: &mut Vec<u8>, x: u16)
    ensures
        final(out)@ == old(out)@ + le16(x as int),
{
    out.push((x % 256) as u8);
    out.push((x / 256) as u8);
    assert(final(out)@ =~= old(out)@ + le16(x as int)) by {
        assert((x / 256 % 256) == x / 256);
    }
}

fn push_le32(out: &mut Vec<u8>, x: u32)
    ensures
        final(out)@ == old(out)@ + le32(x as int),
{
    out.push((x % 256) as u8);
    out.push((x / 256 % 256) as u8);
    out.push((x / 65536 % 256) as u8);
    out.push((x / 16777216 % 256) as u8);
    assert(final(out)@ =~= old(out)@ + le32(x as int));
}

/// A mono 16-bit PCM WAV file of `samples` at `sample_rate`, built in memory.
pub fn encode_wav_pcm(samples: &[i16], sample_rate: u32) -> (r: Vec<u8>)
    requires
        36 + 2 * samples@.len() <= u32::MAX,
        2 * sample_rate <= u32::MAX,
    ensures
        r@ == wav_header(samples@.len() as int, sample_rate as int) + pcm_bytes(samples@),
{
    let data_bytes = samples.len() as u32 * 2;
    let mut wav: Vec<u8> = Vec::new();
    wav.push(0x52);
    wav.push(0x49);
    wav.push(0x46);
    wav.push(0x46);
    push_le32(&mut wav, 36 + data_bytes);
    wav.push(0x57);
    wav.push(0x41);
    wav.push(0x56);
    wav.push(0x45);
    wav.push(0x66);
    wav.push(0x6d);
    wav.push(0x74);
    wav.push(0x20);
    push_le32(&mut wav, 16);
    push_le16(&mut wav, 1);
    push_le16(&mut wav, 1);
    push_le32(&mut wav, sample_rate);
    push_le32(&mut wav, sample_rate * 2);
    push_le16(&mut wav, 2);
    push_le16(&mut wav, 16);
    wav.push(0x64);
    wav.push(0x61);
    wav.push(0x74);
    wav.push(0x61);
    push_le32(&mut wav, data_bytes);
    let ghost header = wav@;
    assert(header =~= wav_header(samples@.len() as int, sample_rate as int));
    let mut i: usize = 0;
    while i < samples.len()
        invariant
            i <= samples@.len(),
            header == wav_header(samples@.len() as int, sample_rate as int),
            wav@ == header + pcm_bytes(samples@.take(i as int)),
        decreases samples@.len() - i,
    {
        let s = samples[i];
        let u: u16 = if s < 0 {
            (s as i32 + 65536) as u16
        } else {
            s as u16
        };
        push_le16(&mut wav, u);
        proof {
            assert(samples@.take(i + 1).drop_last() =~= samples@.take(i as int));
            assert(samples@.take(i + 1).last() == s);
            assert(wav@ =~= header + pcm_bytes(samples@.take(i + 1)));
        }
        i += 1;
    }
    assert(samples@.take(samples@.len() as int) =~= samples@);
    wav
}

// ---------------------------------------------------------------------------
// Laws of provider names and credential entries

/// A provider name means the same once trimmed and lowercased: only `groq` and
/// `deepgram`, in any ASCII case and with any surrounding whitespace, name a
/// provider other than OpenAI.
pub proof fn law_provider_name_normalized(value: Seq<char>)
    ensures
        provider_named(lower(trim(value))) == provider_named(value),
        provider_named(value) != CloudProviderKind::OpenAi <==> (lower(trim(value)) == "groq"@
            || lower(trim(value)) == "deepgram"@),
{
    let t = trim(value);
    lemma_trim_shape(value);
    lemma_lower_idempotent(t);
    if t.len() > 0 {
        lemma_case_chars(t[0]);
        lemma_case_chars(t.last());
        assert(lower(t)[0] == lower_char(t[0]));
        assert(lower(t).last() == lower_char(t.last()));
    }
    lemma_trim_fixed(lower(t));
}

/// A provider's credential name names that provider again, so a command that is
/// given the name reaches the provider's own credential entry.
pub proof fn law_credential_name_round_trip(kind: CloudProviderKind)
    ensures
        provider_named(credential_name_of(kind)) == kind,
        credential_target_of(provider_named(credential_name_of(kind))) == credential_target_of(kind),
{
    reveal_strlit("openai");
    reveal_strlit("groq");
    reveal_strlit("deepgram");
    let n = credential_name_of(kind);
    lemma_trim_fixed(n);
    assert(lower(n) =~= n);
}

/// Each provider's key has an entry of its own: the entry a key is written to for
/// one provider (`CloudCredentials::write_api_key`) is the entry read and removed
/// for a provider (`read_api_key`, `delete_api_key`) exactly when the two are the
/// same provider, so storing or removing one provider's key never touches another's.
pub proof fn law_credential_targets_distinct(a: CloudProviderKind, b: CloudProviderKind)
    ensures
        (credential_target_of(a) == credential_target_of(b)) <==> a == b,
{
    reveal_strlit("openai");
    reveal_strlit("groq");
    reveal_strlit("deepgram");
    if credential_target_of(a) == credential_target_of(b) {
        assert(credential_target_of(a).len() == credential_target_of(b).len());
    }
}

/// The little-endian 16-bit value at `i` in `b`.
pub open spec fn u16_at(b: Seq<u8>, i: int) -> int {
    b[i] as int + 256 * b[i + 1] as int
}

/// The little-endian 32-bit value at `i` in `b`.
pub open spec fn u32_at(b: Seq<u8>, i: int) -> int {
    u16_at(b, i) + 65536 * u16_at(b, i + 2)
}

proof fn lemma_le16_reads_back(x: int)
    requires
        0 <= x < 65536,
    ensures
        le16(x).len() == 2,
        u16_at(le16(x), 0) == x,
{
}

proof fn lemma_le32_reads_back(x: int)
    requires
        0 <= x <= u32::MAX,
    ensures
        le32(x).len() == 4,
        u32_at(le32(x), 0) == x,
{
    let q1 = x / 256;
    let q2 = q1 / 256;
    let q3 = q2 / 256;
    vstd::arithmetic::div_mod::lemma_div_denominator(x, 256, 256);
    vstd::arithmetic::div_mod::lemma_div_denominator(x, 65536, 256);
    assert(x / 65536 == q2);
    assert(x / 16777216 == q3);
    assert(x == x % 256 + 256 * q1);
    assert(q1 == q1 % 256 + 256 * q2);
    assert(q2 == q2 % 256 + 256 * q3);
    assert(q3 < 256);
    assert(q3 % 256 == q3);
}

proof fn lemma_pcm_len(samples: Seq<i16>)
    ensures
        pcm_bytes(samples).len() == 2 * samples.len(),
        forall|i: int|
            0 <= i < samples.len() ==> u16_at(pcm_bytes(samples), 2 * i) == (#[trigger] samples[i] as int
                + 65536) % 65536,
    decreases samples.len(),
{
    if samples.len() > 0 {
        let init = samples.drop_last();
        lemma_pcm_len(init);
        let x = samples.last() as int;
        let u = if x < 0 { x + 65536 } else { x };
        lemma_le16_reads_back(u);
        let p = pcm_bytes(init);
        let q = pcm_bytes(samples);
        assert(q == p + le16(u));
        assert forall|i: int| 0 <= i < samples.len() implies u16_at(q, 2 * i) == (
            #[trigger] samples[i] as int + 65536) % 65536 by {
            if i < init.len() {
                assert(init[i] == samples[i]);
                assert(q[2 * i] == p[2 * i] && q[2 * i + 1] == p[2 * i + 1]);
            } else {
                assert(samples[i] == samples.last());
                assert(q[2 * i] == le16(u)[0] && q[2 * i + 1] == le16(u)[1]);
            }
        }
    }
}

/// An uploaded WAV file is a standard mono 16-bit PCM file that holds exactly the
/// samples: the RIFF, WAVE, fmt and data tags in place, a 16-byte PCM format
/// chunk (format 1) declaring one channel of 16-bit samples at the sample rate,
/// with the block alignment and byte rate that follow from those, RIFF and data
/// sizes that match the bytes that follow them, and then each sample in order as a
/// little-endian 16-bit two's-complement value.
#[verifier::spinoff_prover]
#[verifier::rlimit(30)]
pub proof fn law_wav_is_mono_pcm16(samples: Seq<i16>, sample_rate: int)
    requires
        0 <= sample_rate,
        2 * sample_rate <= u32::MAX,
        36 + 2 * samples.len() <= u32::MAX,
    ensures
        ({
            let w = wav_header(samples.len() as int, sample_rate) + pcm_bytes(samples);
            &&& w.len() == 44 + 2 * samples.len()
            &&& w.subrange(0, 4) == seq![0x52u8, 0x49, 0x46, 0x46]
            &&& u32_at(w, 4) == w.len() - 8
            &&& w.subrange(8, 16) == seq![0x57u8, 0x41, 0x56, 0x45, 0x66, 0x6d, 0x74, 0x20]
            &&& u32_at(w, 16) == 16
            &&& u16_at(w, 20) == 1
            &&& u16_at(w, 22) == 1
            &&& u32_at(w, 24) == sample_rate
            &&& u16_at(w, 34) == 16
            &&& u16_at(w, 32) == u16_at(w, 22) * u16_at(w, 34) / 8
            &&& u32_at(w, 28) == u32_at(w, 24) * u16_at(w, 32)
            &&& w.subrange(36, 40) == seq![0x64u8, 0x61, 0x74, 0x61]
            &&& u32_at(w, 40) == w.len() - 44
            &&& w.subrange(44, w.len() as int) == pcm_bytes(samples)
            &&& forall|i: int|
                0 <= i < samples.len() ==> u16_at(w, 44 + 2 * i) == (#[trigger] samples[i] as int
                    + 65536) % 65536
        }),
{
    let n = samples.len() as int;
    let h = wav_header(n, sample_rate);
    let w = h + pcm_bytes(samples);
    lemma_pcm_len(samples);
    lemma_le32_reads_back(36 + 2 * n);
    lemma_le32_reads_back(16);
    lemma_le16_reads_back(1);
    lemma_le16_reads_back(2);
    lemma_le16_reads_back(16);
    lemma_le32_reads_back(sample_rate);
    lemma_le32_reads_back(sample_rate * 2);
    lemma_le32_reads_back(2 * n);
    assert(h.len() == 44);
    assert(h =~= seq![0x52u8, 0x49, 0x46, 0x46] + le32(36 + 2 * n) + seq![0x57u8, 0x41, 0x56,
        0x45, 0x66, 0x6d, 0x74, 0x20] + le32(16) + le16(1) + le16(1) + le32(sample_rate) + le32(
        sample_rate * 2) + le16(2) + le16(16) + seq![0x64u8, 0x61, 0x74, 0x61] + le32(2 * n));
    assert(w.subrange(0, 4) =~= seq![0x52u8, 0x49, 0x46, 0x46]);
    assert(w.subrange(8, 16) =~= seq![0x57u8, 0x41, 0x56, 0x45, 0x66, 0x6d, 0x74, 0x20]);
    assert(w.subrange(36, 40) =~= seq![0x64u8, 0x61, 0x74, 0x61]);
    assert(w.subrange(44, w.len() as int) =~= pcm_bytes(samples));
    assert(u32_at(w, 4) == u32_at(le32(36 + 2 * n), 0));
    assert(u32_at(w, 16) == u32_at(le32(16), 0));
    assert(u16_at(w, 20) == u16_at(le16(1), 0));
    assert(u16_at(w, 22) == u16_at(le16(1), 0));
    assert(u32_at(w, 24) == u32_at(le32(sample_rate), 0));
    assert(u32_at(w, 28) == u32_at(le32(sample_rate * 2), 0));
    assert(u16_at(w, 32) == u16_at(le16(2), 0));
    assert(u16_at(w, 34) == u16_at(le16(16), 0));
    assert(u32_at(w, 40) == u32_at(le32(2 * n), 0));
    assert forall|i: int| 0 <= i < samples.len() implies u16_at(w, 44 + 2 * i) == (
        #[trigger] samples[i] as int + 65536) % 65536 by {
        assert(w[44 + 2 * i] == pcm_bytes(samples)[2 * i]);
        assert(w[44 + 2 * i + 1] == pcm_bytes(samples)[2 * i + 1]);
    }
}

} // verus!
