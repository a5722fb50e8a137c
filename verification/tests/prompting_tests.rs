use wisprtype::prompting::build_initial_prompt;

#[test]
fn prompt_uses_terms_and_removes_duplicates() {
    let prompt = build_initial_prompt(&[
        "Tauri".to_string(),
        " tauri ".to_string(),
        "Whisper".to_string(),
    ])
    .expect("prompt");

    assert!(prompt.contains("Tauri"));
    assert!(prompt.contains("Whisper"));
    assert_eq!(prompt.matches("Tauri").count(), 1);
}

#[test]
fn empty_terms_do_not_create_prompt() {
    assert_eq!(None, build_initial_prompt(&[" ".to_string()]));
}

#[test]
fn prompt_lists_terms_sorted_ignoring_case() {
    let prompt = build_initial_prompt(&["zeta".to_string(), "Alpha".to_string(), "beta\0".to_string()]).unwrap();
    assert_eq!(prompt, "Use these custom vocabulary terms exactly when heard: Alpha, beta, zeta.");
}

#[test]
fn prompt_stays_within_its_budget() {
    let terms: Vec<String> = (0..200).map(|i| format!("term{:03}", i)).collect();
    let prompt = build_initial_prompt(&terms).unwrap();
    assert!(prompt.len() <= 1201);
    assert!(prompt.matches(", ").count() + 1 <= 80);
    assert!(prompt.contains("term000"));
}
