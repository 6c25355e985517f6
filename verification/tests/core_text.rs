use pheme_va::dictionary::{DictionaryHints, DictionaryPrompt};
use pheme_va::incident::{IncidentAnalyzer, RuleBasedIncidentAnalyzer};
use pheme_va::transcript::{guard_transcript, normalize_transcript, TranscriptGuardDecision};

fn strings(values: &[&str]) -> Vec<String> {
    values.iter().map(|value| value.to_string()).collect()
}

#[test]
fn builds_a_deduplicated_bounded_prompt() {
    let mut hints = DictionaryHints::with_terms(strings(&[" KLASS ", "whisper.cpp", "KLASS"]));
    hints.snippets.push("west entrance".to_owned());
    hints.max_prompt_characters = 30;

    let prompt = hints.prompt().unwrap();
    assert_eq!(prompt.text, "KLASS, whisper.cpp");
    assert!(prompt.text.chars().count() <= 30);
}

#[test]
fn ignores_empty_hints() {
    let hints = DictionaryHints::with_terms(strings(&[" ", "\n"]));
    assert!(hints.prompt().is_none());
}

#[test]
fn dictionary_prompt_joins_terms_then_snippets_within_budget() {
    let mut hints = DictionaryHints::with_terms(strings(&["Alpha", "alpha!", "Beta"]));
    hints.snippets.push("  gamma   delta ".to_owned());
    assert_eq!(hints.prompt().unwrap().text, "Alpha, Beta, gamma delta");
    hints.max_prompt_characters = 5;
    assert_eq!(hints.prompt().unwrap().text, "Alpha");
    hints.max_prompt_characters = 4;
    assert!(hints.prompt().is_none());
}

#[test]
fn extracts_only_explicit_incident_facts() {
    let mut analyzer = RuleBasedIncidentAnalyzer;
    let report = analyzer
        .analyze(
            "A vehicle collided with a barrier near the west entrance. Severity is low. Please notify the site supervisor.",
        )
        .unwrap();
    assert_eq!(report.incident_type, "collision");
    assert_eq!(report.location, "the west entrance");
    assert_eq!(report.severity, "low");
    assert_eq!(report.recommended_action, "Please notify the site supervisor");
}

#[test]
fn keeps_unknown_values_when_facts_are_missing() {
    let mut analyzer = RuleBasedIncidentAnalyzer;
    let report = analyzer.analyze("There is smoke.").unwrap();
    assert_eq!(report.incident_type, "smoke report");
    assert_eq!(report.location, "unknown");
    assert_eq!(report.severity, "unknown");
    assert_eq!(report.recommended_action, "unknown");
}

#[test]
fn blank_transcript_is_an_invalid_report() {
    let mut analyzer = RuleBasedIncidentAnalyzer;
    let error = analyzer.analyze("   ").unwrap_err();
    assert_eq!(error.message(), "incident analysis returned an invalid report");
}

#[test]
fn normalizes_whitespace_without_rewriting_words() {
    assert_eq!(normalize_transcript("  East\n gate   is closed. "), "East gate is closed.");
}

#[test]
fn normalizing_twice_changes_nothing_more() {
    let once = normalize_transcript("\tA  b\u{3000}c \n");
    assert_eq!(once, "A b c");
    assert_eq!(normalize_transcript(&once), once);
}

#[test]
fn rejects_known_silence_markers() {
    assert_eq!(
        guard_transcript(" [BLANK_AUDIO] ", None),
        TranscriptGuardDecision::KnownSilenceMarker
    );
}

#[test]
fn rejects_a_prompt_continuation_but_keeps_legitimate_dictionary_speech() {
    let prompt = DictionaryPrompt { text: "Electron, renderer, west entrance".to_owned() };
    assert_eq!(
        guard_transcript("Electron, renderer, west entrance", Some(&prompt)),
        TranscriptGuardDecision::DictionaryPromptEcho
    );
    assert_eq!(
        guard_transcript("Electron renderer", Some(&prompt)),
        TranscriptGuardDecision::Accept
    );
}

#[test]
fn empty_transcripts_are_discarded() {
    let decision = guard_transcript(" \n ", None);
    assert_eq!(decision, TranscriptGuardDecision::Empty);
    assert!(decision.should_discard());
    assert!(!TranscriptGuardDecision::Accept.should_discard());
}

#[test]
fn normalizing_keeps_every_word_in_order() {
    let text = "  Unit 4\tat\u{a0}the\n\nnorth gate ";
    let normalized = normalize_transcript(text);
    let before: Vec<&str> = text.split_whitespace().collect();
    let after: Vec<&str> = normalized.split_whitespace().collect();
    assert_eq!(before, after);
    assert_eq!(normalized, before.join(" "));
}
