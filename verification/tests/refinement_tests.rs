use wisprtype::refinement::{strip_char, InferenceOutcome, RefinementEngine, RefinementStep, MODEL_NAME};

#[test]
fn qwen_refinement_model_is_the_configured_default() {
    assert!(MODEL_NAME.contains("qwen2.5"));
}

#[test]
fn prompt_locks_cleanup_to_transcript_refinement() {
    let prompt = RefinementEngine::build_prompt("um this is a test");
    assert!(prompt.contains("Remove filler words"));
    assert!(prompt.contains("Add punctuation and capitalization"));
    assert!(prompt.contains("Preserve wording and meaning"));
    assert!(prompt.contains("Output only the cleaned transcript"));
}

#[test]
fn empty_transcript_is_skipped_before_inference() {
    assert!(RefinementEngine::should_skip(""));
    assert!(RefinementEngine::should_skip("   \n\t  "));
    assert!(!RefinementEngine::should_skip("um this is a test"));
}

#[test]
fn failed_or_empty_generation_falls_back_to_raw() {
    assert_eq!(RefinementEngine::finalize_output("raw text", ""), None);
    assert_eq!(RefinementEngine::finalize_output("raw text", "   "), None);
}

#[test]
fn generated_special_tokens_are_trimmed() {
    assert_eq!(
        RefinementEngine::finalize_output("um hi", "Hi. <|im_end|>"),
        Some("Hi.".to_string())
    );
}

#[test]
fn oversized_generation_is_rejected() {
    let generated = "x".repeat(1000);
    assert_eq!(RefinementEngine::finalize_output("short", &generated), None);
}

#[test]
fn prompt_holds_the_trimmed_transcript() {
    let prompt = RefinementEngine::build_prompt("  hello there \n");
    assert!(prompt.contains("Clean this transcript:\nhello there\n<|im_end|>"));
    assert!(prompt.starts_with("<|im_start|>system\n"));
    assert!(prompt.ends_with("<|im_start|>assistant\n"));
}

#[test]
fn quotes_and_end_of_text_are_removed() {
    assert_eq!(
        RefinementEngine::finalize_output("um hi there", " \"Hi there.\" <|endoftext|> junk"),
        Some("Hi there.".to_string())
    );
}

#[test]
fn output_up_to_three_times_plus_120_bytes_is_kept() {
    let raw = "abcd";
    let ok = "y".repeat(3 * 4 + 120);
    let too_long = "y".repeat(3 * 4 + 121);
    assert_eq!(RefinementEngine::finalize_output(raw, &ok), Some(ok.clone()));
    assert_eq!(RefinementEngine::finalize_output(raw, &too_long), None);
}

#[test]
fn generation_budget_is_clamped() {
    assert_eq!(RefinementEngine::max_new_tokens(""), 32);
    assert_eq!(RefinementEngine::max_new_tokens(&"a".repeat(40)), 34);
    assert_eq!(RefinementEngine::max_new_tokens(&"a".repeat(41)), 35);
    assert_eq!(RefinementEngine::max_new_tokens(&"a".repeat(10_000)), 192);
}

#[test]
fn prompt_must_leave_room_for_generation() {
    assert!(RefinementEngine::prompt_fits_context(100, 192));
    assert!(RefinementEngine::prompt_fits_context(1854, 192));
    assert!(!RefinementEngine::prompt_fits_context(1855, 192));
}

fn refine(raw: &str, outcome: InferenceOutcome) -> String {
    match RefinementEngine::clean(raw.to_string()) {
        RefinementStep::Done(t) => t,
        RefinementStep::Infer(t) => {
            assert_eq!(t, raw);
            RefinementEngine::after_inference(t, outcome)
        }
    }
}

#[test]
fn clean_uses_accepted_output_and_falls_back_otherwise() {
    assert_eq!(refine("um hi", InferenceOutcome::Generated("Hi.".to_string())), "Hi.");
    assert_eq!(refine("um hi", InferenceOutcome::Failed("oom".to_string())), "um hi");
    assert_eq!(refine("um hi", InferenceOutcome::Panicked), "um hi");
    assert_eq!(refine("um hi", InferenceOutcome::Generated("  ".to_string())), "um hi");
}

#[test]
fn blank_transcript_is_returned_without_inference() {
    assert!(matches!(RefinementEngine::clean("  \n".to_string()), RefinementStep::Done(t) if t == "  \n"));
    assert!(matches!(RefinementEngine::clean("um".to_string()), RefinementStep::Infer(t) if t == "um"));
}

#[test]
fn strip_char_trims_only_the_ends() {
    assert_eq!(strip_char(&['"', '"', 'a', '"', 'b', '"'], '"'), vec!['a', '"', 'b']);
    assert_eq!(strip_char(&['"', '"'], '"'), Vec::<char>::new());
}
