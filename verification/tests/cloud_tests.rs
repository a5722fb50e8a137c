use std::cell::RefCell;
use wisprtype::cloud::{
    classify_api_error, classify_status, classify_transport_error, cloud_api_key_status,
    choose_api_key, credential_target, delete_cloud_api_key, delete_secret, encode_wav_pcm,
    parse_deepgram_response, parse_openai_like_response, read_secret, store_cloud_api_key,
    write_secret, ApiError, SecretWrite, CloudCredentials, CloudProviderKind, DeepgramAlternative,
    DeepgramChannel, DeepgramResponse, DeepgramResults, OpenAiLikeResponse,
};

#[test]
fn parses_cloud_provider_names() {
    assert_eq!(CloudProviderKind::parse("groq"), CloudProviderKind::Groq);
    assert_eq!(CloudProviderKind::parse("deepgram"), CloudProviderKind::Deepgram);
    assert_eq!(CloudProviderKind::parse("anything"), CloudProviderKind::OpenAi);
}

#[test]
fn provider_names_ignore_case_and_spaces() {
    assert_eq!(CloudProviderKind::parse("  GROQ \n"), CloudProviderKind::Groq);
    assert_eq!(CloudProviderKind::parse("DeepGram"), CloudProviderKind::Deepgram);
    assert_eq!(CloudProviderKind::from_env_value(None), CloudProviderKind::OpenAi);
    assert_eq!(
        CloudProviderKind::from_env_value(Some("deepgram".to_string())),
        CloudProviderKind::Deepgram
    );
}

#[test]
fn credential_targets_and_env_keys() {
    assert_eq!(credential_target(CloudProviderKind::OpenAi), "WisprType/cloud/openai");
    assert_eq!(credential_target(CloudProviderKind::Groq), "WisprType/cloud/groq");
    assert_eq!(credential_target(CloudProviderKind::Deepgram), "WisprType/cloud/deepgram");
    assert_eq!(CloudProviderKind::Groq.env_key(), "GROQ_API_KEY");
    assert_eq!(CloudProviderKind::Deepgram.env_key(), "DEEPGRAM_API_KEY");
    assert_eq!(CloudProviderKind::OpenAi.env_key(), "OPENAI_API_KEY");
}

#[test]
fn provider_names_read_the_same_once_normalised() {
    for v in ["  GROQ ", "Deepgram\t", "openai", " Whisper ", "", "g roq"] {
        let normalised = v.trim().to_ascii_lowercase();
        assert_eq!(CloudProviderKind::parse(v), CloudProviderKind::parse(&normalised));
    }
}

#[test]
fn credential_names_round_trip_and_targets_are_distinct() {
    let kinds = [CloudProviderKind::OpenAi, CloudProviderKind::Groq, CloudProviderKind::Deepgram];
    for k in kinds {
        assert_eq!(CloudProviderKind::parse(k.credential_name()), k);
        for other in kinds {
            assert_eq!(credential_target(k) == credential_target(other), k == other);
        }
    }
}

#[test]
fn wav_encoding_stays_in_memory() {
    let samples: Vec<i16> = [0.0f32, 1.0, -1.0]
        .iter()
        .map(|s| (s.clamp(-1.0, 1.0) * i16::MAX as f32) as i16)
        .collect();
    let wav = encode_wav_pcm(&samples, 16_000);
    assert_eq!(&wav[0..4], b"RIFF");
    assert_eq!(&wav[8..12], b"WAVE");
    assert_eq!(wav.len(), 44 + 6);
}

#[test]
fn wav_header_fields_are_little_endian() {
    let wav = encode_wav_pcm(&[1, -1], 16_000);
    assert_eq!(&wav[4..8], &(36u32 + 4).to_le_bytes());
    assert_eq!(&wav[12..16], b"fmt ");
    assert_eq!(&wav[24..28], &16_000u32.to_le_bytes());
    assert_eq!(&wav[28..32], &32_000u32.to_le_bytes());
    assert_eq!(&wav[36..40], b"data");
    assert_eq!(&wav[40..44], &4u32.to_le_bytes());
    assert_eq!(&wav[44..48], &[1, 0, 0xff, 0xff]);
}

#[test]
fn statuses_are_classified() {
    assert_eq!(classify_status("OpenAI", 401, "bad key".to_string()), "OpenAI rejected the API key: bad key");
    assert_eq!(classify_status("Groq", 403, "no".to_string()), "Groq rejected the API key: no");
    assert_eq!(classify_status("Groq", 429, "slow down".to_string()), "Groq quota exceeded: slow down");
    assert_eq!(classify_status("Groq", 402, "pay".to_string()), "Groq quota exceeded: pay");
    assert_eq!(classify_status("Groq", 500, "boom".to_string()), "Groq transcription failed: boom");
}

#[test]
fn api_error_message_prefers_message_then_code_then_type() {
    let e = |m: Option<&str>, t: Option<&str>, c: Option<&str>| ApiError {
        message: m.map(str::to_string),
        error_type: t.map(str::to_string),
        code: c.map(str::to_string),
    };
    assert_eq!(classify_api_error("OpenAI", 400, Some(e(Some("m"), Some("t"), Some("c")))), "OpenAI transcription failed: m");
    assert_eq!(classify_api_error("OpenAI", 400, Some(e(None, Some("t"), Some("c")))), "OpenAI transcription failed: c");
    assert_eq!(classify_api_error("OpenAI", 400, Some(e(None, Some("t"), None))), "OpenAI transcription failed: t");
    assert_eq!(classify_api_error("OpenAI", 503, None), "OpenAI transcription failed: HTTP 503");
}

#[test]
fn transport_errors() {
    assert_eq!(classify_transport_error("Groq", true, "ignored"), "Groq transcription timed out");
    assert_eq!(
        classify_transport_error("Groq", false, "dns failure"),
        "Groq transcription request failed: dns failure"
    );
}

#[test]
fn openai_like_replies() {
    let ok = OpenAiLikeResponse { text: Some("hello".to_string()), error: None };
    assert_eq!(parse_openai_like_response("OpenAI", 200, Ok(ok)), Ok("hello".to_string()));
    let blank = OpenAiLikeResponse { text: Some("  ".to_string()), error: None };
    assert_eq!(
        parse_openai_like_response("OpenAI", 200, Ok(blank)),
        Err("OpenAI returned an empty transcript".to_string())
    );
    let denied = OpenAiLikeResponse {
        text: None,
        error: Some(ApiError { message: Some("Invalid key".to_string()), error_type: None, code: None }),
    };
    assert_eq!(
        parse_openai_like_response("OpenAI", 401, Ok(denied)),
        Err("OpenAI rejected the API key: Invalid key".to_string())
    );
    assert_eq!(
        parse_openai_like_response("Groq", 200, Err("expected value".to_string())),
        Err("Groq returned an unreadable response: expected value".to_string())
    );
}

fn deepgram(transcript: Option<&str>) -> DeepgramResponse {
    DeepgramResponse {
        results: transcript.map(|t| DeepgramResults {
            channels: vec![DeepgramChannel {
                alternatives: vec![DeepgramAlternative { transcript: t.to_string() }],
            }],
        }),
        err_msg: None,
    }
}

#[test]
fn deepgram_replies() {
    assert_eq!(parse_deepgram_response(200, Ok(deepgram(Some("hi there")))), Ok("hi there".to_string()));
    assert_eq!(
        parse_deepgram_response(200, Ok(deepgram(None))),
        Err("Deepgram returned an empty transcript".to_string())
    );
    assert_eq!(
        parse_deepgram_response(200, Ok(DeepgramResponse { results: Some(DeepgramResults { channels: vec![] }), err_msg: None })),
        Err("Deepgram returned an empty transcript".to_string())
    );
    assert_eq!(
        parse_deepgram_response(429, Ok(DeepgramResponse { results: None, err_msg: Some("limit".to_string()) })),
        Err("Deepgram quota exceeded: limit".to_string())
    );
    assert_eq!(
        parse_deepgram_response(500, Ok(deepgram(None))),
        Err("Deepgram transcription failed: HTTP 500".to_string())
    );
    assert_eq!(
        parse_deepgram_response(200, Err("eof".to_string())),
        Err("Deepgram returned an unreadable response: eof".to_string())
    );
}

#[test]
fn blank_api_keys_are_refused_before_the_store() {
    assert_eq!(store_cloud_api_key("groq".to_string(), "   ".to_string()), Err("API key cannot be empty".to_string()));
    assert_eq!(
        CloudCredentials::write_api_key(CloudProviderKind::OpenAi, " \t"),
        Err("API key cannot be empty".to_string())
    );
}

#[test]
fn api_key_comes_from_the_store_then_the_environment() {
    assert_eq!(choose_api_key(CloudProviderKind::Groq, Ok(Some("s".to_string())), Some("e".to_string())), Ok("s".to_string()));
    assert_eq!(choose_api_key(CloudProviderKind::Groq, Ok(None), Some("e".to_string())), Ok("e".to_string()));
    assert_eq!(choose_api_key(CloudProviderKind::Deepgram, Ok(None), None), Err("Missing API key for Deepgram".to_string()));
    assert_eq!(choose_api_key(CloudProviderKind::OpenAi, Ok(None), None), Err("Missing API key for OpenAi".to_string()));
    assert_eq!(choose_api_key(CloudProviderKind::OpenAi, Err("locked".to_string()), Some("e".to_string())), Err("locked".to_string()));
}

#[test]
fn api_keys_go_to_the_provider_target() {
    let r = store_cloud_api_key("Deepgram".to_string(), "sk-123".to_string());
    assert_eq!(
        r,
        Ok(SecretWrite { target: "WisprType/cloud/deepgram".to_string(), secret: "sk-123".to_string() })
    );

    let status = cloud_api_key_status("groq".to_string(), |t| {
        assert_eq!(t, "WisprType/cloud/groq");
        Ok(Some("key".to_string()))
    })
    .unwrap();
    assert_eq!(status.provider, "groq");
    assert!(status.configured);

    let missing = cloud_api_key_status("openai".to_string(), |_| Ok(None)).unwrap();
    assert!(!missing.configured);

    let failed = cloud_api_key_status("openai".to_string(), |_| Err("locked".to_string()));
    assert_eq!(failed.err(), Some("locked".to_string()));

    let deleted = RefCell::new(String::new());
    assert_eq!(
        delete_cloud_api_key("groq".to_string(), |t| {
            *deleted.borrow_mut() = t.to_string();
            Ok(())
        }),
        Ok(())
    );
    assert_eq!(*deleted.borrow(), "WisprType/cloud/groq");
    assert_eq!(
        CloudCredentials::read_api_key(CloudProviderKind::Groq, |t| Ok(Some(t.to_string()))),
        Ok(Some("WisprType/cloud/groq".to_string()))
    );
}

#[test]
fn store_without_credential_manager() {
    assert_eq!(read_secret("WisprType/cloud/openai"), Ok(None));
    assert_eq!(
        write_secret("WisprType/cloud/openai", "k"),
        Err("Windows Credential Manager is only available on Windows".to_string())
    );
    assert_eq!(delete_secret("WisprType/cloud/openai"), Ok(()));
}
