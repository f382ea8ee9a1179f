use delphai::agent::citizen::{emotion_label, Emotion};

#[test]
fn citizen_default_emotion_is_neutral() {
    assert_eq!(Emotion::default(), Emotion::Neutral);
}

#[test]
fn emotion_labels_are_lowercase_words() {
    assert_eq!(emotion_label(&Emotion::Neutral), "neutral");
    assert_eq!(emotion_label(&Emotion::Happy), "happy");
    assert_eq!(emotion_label(&Emotion::Anxious), "anxious");
    assert_eq!(emotion_label(&Emotion::Angry), "angry");
    assert_eq!(emotion_label(&Emotion::Sad), "sad");
}
