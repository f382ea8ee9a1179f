use delphai::agent::citizen::Emotion;
use delphai::llm::prompt::{
    build_batch_conversation_prompt, build_conversation_prompt, build_divine_voice_prompt,
    format_citizen_block, garble, relationship_line, render_divine_voice, CitizenProfile,
    PairPrompt, VoiceClarity, WorldContext,
};

fn test_world() -> WorldContext {
    WorldContext { era: "Stone Age".into(), setting: "A small tribe near a river".into() }
}

fn make_citizen(name: &str, personality: &[&str], emotion: Emotion) -> CitizenProfile {
    CitizenProfile {
        name: name.into(),
        personality_tags: personality.iter().map(|s| s.to_string()).collect(),
        emotion,
        memory_summary: "nothing notable".into(),
    }
}

fn pair(a: &CitizenProfile, b: &CitizenProfile, heard: Option<String>) -> PairPrompt {
    PairPrompt { initiator: a.clone(), partner: b.clone(), relationship: None, heard }
}

#[test]
fn conversation_prompt_contains_both_names() {
    let world = test_world();
    let a = make_citizen("Kael", &["curious", "young"], Emotion::Happy);
    let b = make_citizen("Elder", &["wise", "cautious"], Emotion::Neutral);
    let prompt = build_conversation_prompt(&world, &a, &b, None, None);
    assert!(prompt.contains("Kael"), "missing initiator name");
    assert!(prompt.contains("Elder"), "missing partner name");
}

#[test]
fn conversation_prompt_contains_era_and_setting() {
    let world = test_world();
    let a = make_citizen("A", &[], Emotion::Neutral);
    let b = make_citizen("B", &[], Emotion::Neutral);
    let prompt = build_conversation_prompt(&world, &a, &b, None, None);
    assert!(prompt.contains("Stone Age"));
    assert!(prompt.contains("river"));
}

#[test]
fn conversation_prompt_contains_personality_tags() {
    let world = test_world();
    let a = make_citizen("A", &["brave", "loyal"], Emotion::Neutral);
    let b = make_citizen("B", &["shy"], Emotion::Neutral);
    let prompt = build_conversation_prompt(&world, &a, &b, None, None);
    assert!(prompt.contains("brave, loyal"));
    assert!(prompt.contains("shy"));
}

#[test]
fn conversation_prompt_includes_relationship() {
    let world = test_world();
    let a = make_citizen("Kael", &[], Emotion::Neutral);
    let b = make_citizen("Elder", &[], Emotion::Neutral);
    // Familiarity 0.7 and trust 0.8, rendered as whole percentages.
    let rel = relationship_line("Elder", "70", "80");
    let prompt = build_conversation_prompt(&world, &a, &b, Some(rel), None);
    assert!(prompt.contains("familiarity 70%"), "missing familiarity: {prompt}");
    assert!(prompt.contains("trust 80%"), "missing trust: {prompt}");
}

#[test]
fn conversation_prompt_includes_divine_voice_when_aware() {
    let world = test_world();
    let a = make_citizen("A", &[], Emotion::Neutral);
    let b = make_citizen("B", &[], Emotion::Neutral);
    // Awareness 0.95 hears the voice verbatim.
    let heard = render_divine_voice("build a fire", VoiceClarity::Verbatim);
    let prompt = build_conversation_prompt(&world, &a, &b, None, heard);
    assert!(prompt.contains("build a fire"));
}

#[test]
fn conversation_prompt_excludes_divine_voice_when_unaware() {
    let world = test_world();
    let a = make_citizen("A", &[], Emotion::Neutral);
    let b = make_citizen("B", &[], Emotion::Neutral);
    // Awareness 0.0 hears nothing.
    let heard = render_divine_voice("build a fire", VoiceClarity::Silent);
    let prompt = build_conversation_prompt(&world, &a, &b, None, heard);
    assert!(!prompt.contains("build a fire"));
    assert!(!prompt.contains("Divine Voice"));
}

#[test]
fn conversation_prompt_contains_json_instruction() {
    let world = test_world();
    let a = make_citizen("A", &[], Emotion::Neutral);
    let b = make_citizen("B", &[], Emotion::Neutral);
    let prompt = build_conversation_prompt(&world, &a, &b, None, None);
    assert!(prompt.contains("speech"));
    assert!(prompt.contains("inner_thought"));
    assert!(prompt.contains("YAML"));
}

#[test]
fn divine_prompt_contains_awareness_percentage() {
    let world = test_world();
    let c = make_citizen("Kael", &["curious"], Emotion::Happy);
    // Awareness 0.65: rendered as 65, heard as an oracle.
    let heard = render_divine_voice("hello", VoiceClarity::Oracle);
    let prompt = build_divine_voice_prompt(&world, &c, "65", heard);
    assert!(prompt.contains("65%"), "missing awareness %: {prompt}");
}

#[test]
fn batch_prompt_contains_all_pair_names() {
    let world = test_world();
    let a = make_citizen("Kael", &["curious"], Emotion::Happy);
    let b = make_citizen("Elder", &["wise"], Emotion::Neutral);
    let c = make_citizen("Hunter", &["brave"], Emotion::Angry);
    let d = make_citizen("Child", &["shy"], Emotion::Sad);
    let prompt =
        build_batch_conversation_prompt(&world, &vec![pair(&a, &b, None), pair(&c, &d, None)]);
    assert!(prompt.contains("Kael"));
    assert!(prompt.contains("Elder"));
    assert!(prompt.contains("Hunter"));
    assert!(prompt.contains("Child"));
}

#[test]
fn batch_prompt_has_pair_separators() {
    let world = test_world();
    let a = make_citizen("A", &[], Emotion::Neutral);
    let b = make_citizen("B", &[], Emotion::Neutral);
    let c = make_citizen("C", &[], Emotion::Neutral);
    let d = make_citizen("D", &[], Emotion::Neutral);
    let prompt =
        build_batch_conversation_prompt(&world, &vec![pair(&a, &b, None), pair(&c, &d, None)]);
    assert!(prompt.contains("Pair 1"));
    assert!(prompt.contains("Pair 2"));
}

#[test]
fn batch_prompt_requests_json_array() {
    let world = test_world();
    let a = make_citizen("A", &[], Emotion::Neutral);
    let b = make_citizen("B", &[], Emotion::Neutral);
    let prompt = build_batch_conversation_prompt(&world, &vec![pair(&a, &b, None)]);
    assert!(prompt.contains("YAML sequence of 1"));
}

#[test]
fn batch_prompt_divine_voice_per_initiator_awareness() {
    let world = test_world();
    let aware = make_citizen("Aware", &[], Emotion::Neutral);
    let unaware = make_citizen("Unaware", &[], Emotion::Neutral);
    let partner1 = make_citizen("P1", &[], Emotion::Neutral);
    let partner2 = make_citizen("P2", &[], Emotion::Neutral);
    let pairs = vec![
        pair(&aware, &partner1, render_divine_voice("build a fire", VoiceClarity::Verbatim)),
        pair(&unaware, &partner2, render_divine_voice("build a fire", VoiceClarity::Silent)),
    ];
    let prompt = build_batch_conversation_prompt(&world, &pairs);
    assert!(prompt.contains("Divine Voice for Aware"));
    assert!(!prompt.contains("Divine Voice for Unaware"));
}

#[test]
fn divine_prompt_unaware_citizen_sees_nothing() {
    let world = test_world();
    let c = make_citizen("A", &[], Emotion::Neutral);
    let heard = render_divine_voice("secret message", VoiceClarity::Silent);
    let prompt = build_divine_voice_prompt(&world, &c, "0", heard);
    assert!(!prompt.contains("secret message"));
    assert!(prompt.contains("nothing reaches"));
}

#[test]
fn render_verbatim_is_the_message() {
    assert_eq!(render_divine_voice("go north", VoiceClarity::Verbatim).unwrap(), "go north");
    assert!(render_divine_voice("hello", VoiceClarity::Silent).is_none());
}

#[test]
fn render_oracle_tags_the_message() {
    assert_eq!(
        render_divine_voice("go north", VoiceClarity::Oracle).unwrap(),
        "(oracle) go north"
    );
}

#[test]
fn render_fragments_keeps_every_third_character() {
    assert_eq!(
        render_divine_voice("go north", VoiceClarity::Fragments).unwrap(),
        "(fragments) g… n……t…"
    );
}

#[test]
fn render_noise_keeps_every_fifth_character() {
    assert_eq!(render_divine_voice("go north", VoiceClarity::Noise).unwrap(), "(noise) g… ……r……");
    assert_eq!(garble("abcdefghijk"), "a…………f…………k");
}

#[test]
fn citizen_block_exact_text() {
    let c = make_citizen("Kael", &["curious", "young"], Emotion::Happy);
    assert_eq!(
        format_citizen_block(&c),
        "[Kael]\nPersonality: curious, young\nEmotion: happy\nMemory: nothing notable"
    );
}

#[test]
fn relationship_line_exact_text() {
    assert_eq!(
        relationship_line("Elder", "70", "80"),
        "Relationship with Elder: familiarity 70%, trust 80%"
    );
}

#[test]
fn conversation_prompt_exact_without_extras() {
    let world = WorldContext { era: "E".into(), setting: "S".into() };
    let a = CitizenProfile {
        name: "A".into(),
        personality_tags: vec![],
        emotion: Emotion::Neutral,
        memory_summary: "m".into(),
    };
    let b = CitizenProfile {
        name: "B".into(),
        personality_tags: vec!["x".into()],
        emotion: Emotion::Sad,
        memory_summary: "".into(),
    };
    let prompt = build_conversation_prompt(&world, &a, &b, None, None);
    let expected = "You are simulating a primitive civilization. Era: E. Setting: S.\nAll speech must be written in Japanese.\n\n[A]\nPersonality: \nEmotion: neutral\nMemory: m\n\n[B]\nPersonality: x\nEmotion: sad\nMemory: \n\nGenerate A's response as YAML (speech must be in Japanese):\nspeech: ...\ninner_thought: ...\naction: ...\nemotion_change: ...\ntech_hint: ~  # null if none";
    assert_eq!(prompt, expected);
}

#[test]
fn batch_prompt_numbers_pairs_and_counts() {
    let world = test_world();
    let a = make_citizen("A", &[], Emotion::Neutral);
    let b = make_citizen("B", &[], Emotion::Neutral);
    let pairs: Vec<PairPrompt> = (0..12).map(|_| pair(&a, &b, None)).collect();
    let prompt = build_batch_conversation_prompt(&world, &pairs);
    assert!(prompt.contains("--- Pair 12 ---"));
    assert!(!prompt.contains("--- Pair 13 ---"));
    assert!(prompt.contains("YAML sequence of 12 mappings"));
}

#[test]
fn first_named_finds_the_first_match() {
    let names = vec!["Elder".to_string(), "Kael".to_string(), "Elder".to_string()];
    assert_eq!(delphai::llm::prompt::first_named(&names, "Elder"), Some(0));
    assert_eq!(delphai::llm::prompt::first_named(&names, "Kael"), Some(1));
    assert_eq!(delphai::llm::prompt::first_named(&names, "Hunter"), None);
    assert_eq!(delphai::llm::prompt::first_named(&vec![], "Elder"), None);
}
