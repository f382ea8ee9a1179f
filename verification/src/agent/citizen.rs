use vstd::prelude::*;

verus! {

/// A citizen's current mood.
#[derive(Debug, Clone, Copy, PartialEq, Eq, Structural)]
pub enum Emotion {
    Neutral,
    Happy,
    Anxious,
    Angry,
    Sad,
}

impl Default for Emotion {
    /// Citizens start out neutral.
    fn default() -> (e: Emotion)
        ensures
            e == Emotion::Neutral,
    {
        Emotion::Neutral
    }
}

/// The word a prompt uses for an emotion.
pub open spec fn emotion_word(e: Emotion) -> Seq<char> {
    match e {
        Emotion::Neutral => "neutral"@,
        Emotion::Happy => "happy"@,
        Emotion::Anxious => "anxious"@,
        Emotion::Angry => "angry"@,
        Emotion::Sad => "sad"@,
    }
}

/// The word a prompt uses for an emotion.
pub fn emotion_label(emotion: &Emotion) -> (s: &'static str)
    ensures
        s@ == emotion_word(*emotion),
{
    match emotion {
        Emotion::Neutral => "neutral",
        Emotion::Happy => "happy",
        Emotion::Anxious => "anxious",
        Emotion::Angry => "angry",
        Emotion::Sad => "sad",
    }
}

} // verus!
