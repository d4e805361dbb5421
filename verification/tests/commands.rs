use steel_recipes::playsound::{
    playsound_result, source_argument_names, PlaySoundError, PlaySoundFeedback, SoundSource, SOUND_SOURCES,
};
use steel_recipes::suggestion::{
    matches_suggestion_substring, matches_suggestion_substring_case_sensitive, FixedSuggestionProvider,
};

#[test]
fn suggestions_match_at_word_starts() {
    assert!(matches_suggestion_substring_case_sensitive("stone", "stone_bricks"));
    assert!(matches_suggestion_substring_case_sensitive("bricks", "stone_bricks"));
    assert!(matches_suggestion_substring_case_sensitive("stone", "minecraft:block/stone"));
    assert!(!matches_suggestion_substring_case_sensitive("tone", "stone"));
    assert!(!matches_suggestion_substring_case_sensitive("Stone", "stone"));
    assert!(matches_suggestion_substring_case_sensitive("", "anything"));
    assert!(matches_suggestion_substring_case_sensitive("", ""));
    assert!(!matches_suggestion_substring_case_sensitive("a", ""));
}

#[test]
fn suggestions_ignore_case() {
    assert!(matches_suggestion_substring("Stone", "STONE_bricks"));
    assert!(matches_suggestion_substring("BRICKS", "stone_bricks"));
    assert!(!matches_suggestion_substring("brick.", "stone_bricks"));
}

#[test]
fn fixed_provider_lists_matching_suggestions_in_order() {
    static SUGGESTIONS: [&str; 4] = ["master", "music", "record", "weather"];
    let provider = FixedSuggestionProvider::new(&SUGGESTIONS);
    assert_eq!(provider.list_suggestions("m"), vec!["master", "music"]);
    assert_eq!(provider.list_suggestions(""), SUGGESTIONS.to_vec());
    assert!(provider.list_suggestions("x").is_empty());
}

#[test]
fn playsound_graph_matches_vanilla_shape() {
    let names: Vec<&str> = SOUND_SOURCES.iter().map(|s| s.name()).collect();
    assert_eq!(
        names,
        ["master", "music", "record", "weather", "block", "hostile", "neutral", "player", "ambient", "voice", "ui"]
    );
    assert_eq!(source_argument_names(), ["targets", "pos", "volume", "pitch", "minVolume"]);
    assert_eq!(SoundSource::Players.name(), "player");
}

#[test]
fn playsound_feedback_depends_on_listeners() {
    assert_eq!(playsound_result(0), (None, Err(PlaySoundError::Failed)));
    assert_eq!(playsound_result(1), (Some(PlaySoundFeedback::Single), Ok(1)));
    assert_eq!(playsound_result(5), (Some(PlaySoundFeedback::Multiple), Ok(5)));
    assert_eq!(PlaySoundFeedback::Multiple.translation_key(), "commands.playsound.success.multiple");
}
