use gemini_rag::query::{
    checked_prompt, model_alias_notice, prompt_from_args, system_prompt_from_file,
    system_prompt_path,
};
use gemini_rag::util::{normalize_model_name, token_estimate};

#[test]
fn normalize_model_name_strips_prefix_and_handles_alias() {
    assert_eq!(normalize_model_name("models/gemini-flash-3-preview"), "gemini-3-flash-preview");
    assert_eq!(normalize_model_name("gemini-flash-3-preview"), "gemini-3-flash-preview");
    assert_eq!(normalize_model_name("models/gemini-3-flash-preview"), "gemini-3-flash-preview");
}

#[test]
fn system_prompt_file_contents_are_trimmed() {
    assert_eq!(
        system_prompt_from_file("system-prompt.txt", "\n  Be precise.  \n").as_deref(),
        Ok("Be precise.")
    );
    assert_eq!(system_prompt_path(None), None);
    assert_eq!(system_prompt_path(Some("")), None);
    assert_eq!(system_prompt_path(Some("a.txt")).as_deref(), Some("a.txt"));
}

#[test]
fn blank_system_prompt_file_is_refused() {
    let error = system_prompt_from_file("empty.txt", " \n\t").err().expect("empty prompt should fail");
    assert!(error.contains("system prompt file is empty"));
    assert_eq!(error, "system prompt file is empty: empty.txt");
}

#[test]
fn prompt_arguments_are_joined_and_blank_prompts_refused() {
    let args = vec!["What".to_string(), "is".to_string(), "new?".to_string()];
    assert_eq!(prompt_from_args(&args).as_deref(), Some("What is new?"));
    assert_eq!(prompt_from_args(&Vec::new()), None);
    assert_eq!(checked_prompt("  hello \n").as_deref(), Ok("hello"));
    assert_eq!(checked_prompt(" \t\n").err().as_deref(), Some("query prompt is empty"));
}

#[test]
fn model_alias_notice_only_when_the_name_changes() {
    assert_eq!(
        model_alias_notice("gemini-flash-3-preview").as_deref(),
        Some("Using model alias: gemini-flash-3-preview -> gemini-3-flash-preview")
    );
    assert_eq!(model_alias_notice("gemini-3-flash-preview"), None);
    assert_eq!(
        model_alias_notice("models/gemini-2.5-pro").as_deref(),
        Some("Using model alias: models/gemini-2.5-pro -> gemini-2.5-pro")
    );
}

#[test]
fn token_estimates_add_up_over_a_joining_space() {
    assert_eq!(token_estimate(""), 0);
    assert_eq!(token_estimate("  a b\n c "), 3);
    for (a, b) in [("", ""), ("one two", "three"), ("end ", " start"), ("x\t", ""), ("a", "b")] {
        assert_eq!(token_estimate(&format!("{a} {b}")), token_estimate(a) + token_estimate(b));
    }
}
