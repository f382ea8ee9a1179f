//! Prompt text for the language model: citizen profiles, conversations
//! between two citizens, reactions to the divine voice, and batches of
//! conversations in one call. The divine voice reaches a citizen with a
//! clarity that depends on their awareness of the god; percentages and
//! clarity thresholds are floating point and are computed by the caller.
use vstd::prelude::*;

use crate::agent::citizen::{emotion_label, emotion_word, Emotion};
use crate::llm::provider::opt_view;
use crate::text::{chars_of, decimal, decimal_string, join, join_strings, push_char, views};

verus! {

/// World context injected into every prompt.
#[derive(Debug, Clone)]
pub struct WorldContext {
    pub era: String,
    pub setting: String,
}

/// How clearly the divine voice reaches a citizen.
#[derive(Debug, Clone, Copy, PartialEq, Eq, Structural)]
pub enum VoiceClarity {
    /// Nothing gets through.
    Silent,
    /// Garbled noise: every fifth character survives.
    Noise,
    /// Fragments: every third character survives.
    Fragments,
    /// An oracle: the message, marked as such.
    Oracle,
    /// The message word for word.
    Verbatim,
}

/// What a prompt says about one citizen (everything but the numeric
/// traits).
#[derive(Debug, Clone)]
pub struct CitizenProfile {
    pub name: String,
    pub personality_tags: Vec<String>,
    pub emotion: Emotion,
    pub memory_summary: String,
}

/// Noise: spaces and every fifth character stay, the rest become `…`.
pub open spec fn garble_spec(m: Seq<char>) -> Seq<char> {
    Seq::new(
        m.len(),
        |i: int|
            if m[i] == ' ' {
                ' '
            } else if i % 5 == 0 {
                m[i]
            } else {
                '…'
            },
    )
}

/// Fragments: spaces and every third character stay, the rest become `…`.
pub open spec fn fragment_spec(m: Seq<char>) -> Seq<char> {
    Seq::new(m.len(), |i: int| if i % 3 == 0 || m[i] == ' ' { m[i] } else { '…' })
}

/// What of `message` reaches a citizen at the given clarity.
pub open spec fn heard_spec(message: Seq<char>, clarity: VoiceClarity) -> Option<Seq<char>> {
    match clarity {
        VoiceClarity::Silent => None,
        VoiceClarity::Verbatim => Some(message),
        VoiceClarity::Oracle => Some("(oracle) "@ + message),
        VoiceClarity::Fragments => Some("(fragments) "@ + fragment_spec(message)),
        VoiceClarity::Noise => Some("(noise) "@ + garble_spec(message)),
    }
}

fn keep_every(message: &str, step: usize) -> (s: String)
    requires
        step == 3 || step == 5,
    ensures
        step == 5 ==> s@ == garble_spec(message@),
        step == 3 ==> s@ == fragment_spec(message@),
{
    let v = chars_of(message);
    let mut out = String::new();
    let mut i: usize = 0;
    while i < v.len()
        invariant
            step == 3 || step == 5,
            v@ == message@,
            i <= v@.len(),
            step == 5 ==> out@ == garble_spec(message@).take(i as int),
            step == 3 ==> out@ == fragment_spec(message@).take(i as int),
        decreases v@.len() - i,
    {
        let c = v[i];
        let kept = if c == ' ' || i % step == 0 {
            c
        } else {
            '…'
        };
        push_char(&mut out, kept);
        i = i + 1;
        assert(step == 5 ==> out@ =~= garble_spec(message@).take(i as int));
        assert(step == 3 ==> out@ =~= fragment_spec(message@).take(i as int));
    }
    assert(garble_spec(message@).take(v@.len() as int) =~= garble_spec(message@));
    assert(fragment_spec(message@).take(v@.len() as int) =~= fragment_spec(message@));
    out
}

/// Garbled noise of a message: spaces and every fifth character survive.
pub fn garble(message: &str) -> (s: String)
    ensures
        s@ == garble_spec(message@),
{
    keep_every(message, 5)
}

fn with_tag(tag: &str, body: &str) -> (s: String)
    ensures
        s@ == tag@ + body@,
{
    let mut s = String::from_str(tag);
    s.append(body);
    s
}

/// What of the divine `message` reaches a citizen at `clarity`: nothing
/// when silent, else the message verbatim, marked as an oracle, reduced to
/// fragments, or garbled to noise.
pub fn render_divine_voice(message: &str, clarity: VoiceClarity) -> (r: Option<String>)
    ensures
        opt_view(r) == heard_spec(message@, clarity),
{
    match clarity {
        VoiceClarity::Silent => None,
        VoiceClarity::Verbatim => Some(String::from_str(message)),
        VoiceClarity::Oracle => Some(with_tag("(oracle) ", message)),
        VoiceClarity::Fragments => {
            let f = keep_every(message, 3);
            Some(with_tag("(fragments) ", f.as_str()))
        },
        VoiceClarity::Noise => {
            let g = keep_every(message, 5);
            Some(with_tag("(noise) ", g.as_str()))
        },
    }
}

/// `[name]`, personality tags, emotion and memory, one per line.
pub open spec fn citizen_block(c: CitizenProfile) -> Seq<char> {
    "["@ + c.name@ + "]\nPersonality: "@ + join(views(c.personality_tags@), ", "@)
        + "\nEmotion: "@ + emotion_word(c.emotion) + "\nMemory: "@ + c.memory_summary@
}

/// Format a single citizen's profile block for inclusion in a prompt.
pub fn format_citizen_block(c: &CitizenProfile) -> (s: String)
    ensures
        s@ == citizen_block(*c),
{
    let mut s = String::from_str("[");
    s.append(c.name.as_str());
    s.append("]\nPersonality: ");
    let tags = join_strings(&c.personality_tags, ", ");
    s.append(tags.as_str());
    s.append("\nEmotion: ");
    s.append(emotion_label(&c.emotion));
    s.append("\nMemory: ");
    s.append(c.memory_summary.as_str());
    assert(s@ =~= citizen_block(*c));
    s
}

/// The relationship line for a partner, with percentages as the caller
/// rendered them.
pub open spec fn relationship_text(partner: Seq<char>, familiarity: Seq<char>, trust: Seq<char>) -> Seq<
    char,
> {
    "Relationship with "@ + partner + ": familiarity "@ + familiarity + "%, trust "@ + trust
        + "%"@
}

/// `Relationship with <partner>: familiarity <f>%, trust <t>%`.
pub fn relationship_line(partner_name: &str, familiarity_percent: &str, trust_percent: &str) -> (s:
    String)
    ensures
        s@ == relationship_text(partner_name@, familiarity_percent@, trust_percent@),
{
    let mut s = String::from_str("Relationship with ");
    s.append(partner_name);
    s.append(": familiarity ");
    s.append(familiarity_percent);
    s.append("%, trust ");
    s.append(trust_percent);
    s.append("%");
    assert(s@ =~= relationship_text(partner_name@, familiarity_percent@, trust_percent@));
    s
}

/// Index of the first name in `names` equal to `name`: the relationship a
/// citizen holds toward a partner of that name.
pub fn first_named(names: &Vec<String>, name: &str) -> (r: Option<usize>)
    ensures
        r matches Some(i) ==> i < names@.len() && names@[i as int]@ == name@ && forall|j: int|
            0 <= j < i ==> (#[trigger] names@[j])@ != name@,
        r is None ==> forall|j: int| 0 <= j < names@.len() ==> (#[trigger] names@[j])@ != name@,
{
    let target = String::from_str(name);
    let mut i: usize = 0;
    while i < names.len()
        invariant
            i <= names@.len(),
            target@ == name@,
            forall|j: int| 0 <= j < i ==> (#[trigger] names@[j])@ != name@,
        decreases names@.len() - i,
    {
        if names[i].eq(&target) {
            return Some(i);
        }
        i = i + 1;
    }
    None
}

/// First line of every prompt.
pub open spec fn setting_line(w: WorldContext) -> Seq<char> {
    "You are simulating a primitive civilization. Era: "@ + w.era@ + ". Setting: "@ + w.setting@
        + "."@
}

fn setting_string(w: &WorldContext) -> (s: String)
    ensures
        s@ == setting_line(*w),
{
    let mut s = String::from_str("You are simulating a primitive civilization. Era: ");
    s.append(w.era.as_str());
    s.append(". Setting: ");
    s.append(w.setting.as_str());
    s.append(".");
    assert(s@ =~= setting_line(*w));
    s
}

/// The supernatural-event paragraph of a conversation prompt.
pub open spec fn voice_event_text(initiator: Seq<char>, partner: Seq<char>, heard: Seq<char>) -> Seq<
    char,
> {
    "\n[SUPERNATURAL EVENT — respond to this NOW]\nJust this moment, "@ + initiator
        + " heard a mysterious disembodied voice say: \""@ + heard
        + "\"\nThis was sudden and inexplicable — "@ + initiator
        + " must react with surprise and share what they heard with "@ + partner
        + ". Do NOT treat this as a topic or theme. It is a real event that just happened."@
}

/// The closing instruction of a conversation prompt.
pub open spec fn conversation_instruction(initiator: Seq<char>) -> Seq<char> {
    "\nGenerate "@ + initiator
        + "'s response as YAML (speech must be in Japanese):\nspeech: ...\ninner_thought: ...\naction: ...\nemotion_change: ...\ntech_hint: ~  # null if none"@
}

/// The parts of a conversation prompt, joined by newlines.
pub open spec fn conversation_parts(
    w: WorldContext,
    initiator: CitizenProfile,
    partner: CitizenProfile,
    relationship: Option<Seq<char>>,
    heard: Option<Seq<char>>,
) -> Seq<Seq<char>> {
    let head = seq![
        setting_line(w) + "\nAll speech must be written in Japanese."@,
        "\n"@ + citizen_block(initiator),
    ];
    let rel = match relationship {
        Some(r) => seq![r],
        None => Seq::empty(),
    };
    let voice = match heard {
        Some(t) => seq![voice_event_text(initiator.name@, partner.name@, t)],
        None => Seq::empty(),
    };
    head + rel + seq!["\n"@ + citizen_block(partner)] + voice + seq![
        conversation_instruction(initiator.name@),
    ]
}

fn newline_then(body: String) -> (s: String)
    ensures
        s@ == "\n"@ + body@,
{
    let mut s = String::from_str("\n");
    s.append(body.as_str());
    s
}

/// A conversation prompt between two citizens. `relationship` is the
/// initiator's relationship line about the partner, if any; `heard` is what
/// reached the initiator of a divine voice, if anything.
pub fn build_conversation_prompt(
    world: &WorldContext,
    initiator: &CitizenProfile,
    partner: &CitizenProfile,
    relationship: Option<String>,
    heard: Option<String>,
) -> (s: String)
    ensures
        s@ == join(
            conversation_parts(*world, *initiator, *partner, opt_view(relationship), opt_view(heard)),
            "\n"@,
        ),
{
    let ghost expected = conversation_parts(
        *world,
        *initiator,
        *partner,
        opt_view(relationship),
        opt_view(heard),
    );
    let mut parts: Vec<String> = Vec::new();
    let mut first = setting_string(world);
    first.append("\nAll speech must be written in Japanese.");
    parts.push(first);
    parts.push(newline_then(format_citizen_block(initiator)));
    if let Some(line) = relationship {
        parts.push(line);
    }
    parts.push(newline_then(format_citizen_block(partner)));
    if let Some(text) = heard {
        let mut e = String::from_str(
            "\n[SUPERNATURAL EVENT — respond to this NOW]\nJust this moment, ",
        );
        e.append(initiator.name.as_str());
        e.append(" heard a mysterious disembodied voice say: \"");
        e.append(text.as_str());
        e.append("\"\nThis was sudden and inexplicable — ");
        e.append(initiator.name.as_str());
        e.append(" must react with surprise and share what they heard with ");
        e.append(partner.name.as_str());
        e.append(
            ". Do NOT treat this as a topic or theme. It is a real event that just happened.",
        );
        assert(e@ =~= voice_event_text(initiator.name@, partner.name@, text@));
        parts.push(e);
    }
    let mut last = String::from_str("\nGenerate ");
    last.append(initiator.name.as_str());
    last.append(
        "'s response as YAML (speech must be in Japanese):\nspeech: ...\ninner_thought: ...\naction: ...\nemotion_change: ...\ntech_hint: ~  # null if none",
    );
    parts.push(last);
    assert(views(parts@) =~= expected);
    join_strings(&parts, "\n")
}

/// The parts of a divine-voice prompt, joined by newlines.
pub open spec fn divine_parts(
    w: WorldContext,
    c: CitizenProfile,
    awareness_percent: Seq<char>,
    heard: Option<Seq<char>>,
) -> Seq<Seq<char>> {
    seq![
        setting_line(w),
        "\n["@ + c.name@ + "]\nPersonality: "@ + join(views(c.personality_tags@), ", "@)
            + "\nEmotion: "@ + emotion_word(c.emotion) + "\nMemory: "@ + c.memory_summary@
            + "\nDivine awareness: "@ + awareness_percent + "%"@,
        match heard {
            Some(t) => "\n[Divine Voice]: "@ + t,
            None => "\n[Divine Voice]: (nothing reaches this citizen)"@,
        },
        "\nGenerate "@ + c.name@
            + "'s response as YAML:\nspeech: ...\ninner_thought: ...\naction: ...\nemotion_change: ...\ntech_hint: ~  # null if none"@,
    ]
}

/// A divine-voice prompt has four parts; its third carries what the
/// citizen heard after `[Divine Voice]: `, and says that nothing reaches
/// the citizen exactly when nothing was heard.
pub proof fn lemma_divine_prompt_carries_heard(
    w: WorldContext,
    c: CitizenProfile,
    awareness_percent: Seq<char>,
    heard: Option<Seq<char>>,
)
    ensures
        divine_parts(w, c, awareness_percent, heard).len() == 4,
        heard matches Some(t) ==> divine_parts(w, c, awareness_percent, heard)[2] == seq![
            '\n',
            '[',
            'D',
            'i',
            'v',
            'i',
            'n',
            'e',
            ' ',
            'V',
            'o',
            'i',
            'c',
            'e',
            ']',
            ':',
            ' ',
        ] + t,
        heard is None ==> divine_parts(w, c, awareness_percent, heard)[2]
            == "\n[Divine Voice]: (nothing reaches this citizen)"@,
{
    reveal_strlit("\n[Divine Voice]: ");
}

/// A prompt for one citizen reacting to the divine voice. `heard` is what
/// reached them, if anything; `awareness_percent` is their awareness as the
/// caller rendered it.
pub fn build_divine_voice_prompt(
    world: &WorldContext,
    citizen: &CitizenProfile,
    awareness_percent: &str,
    heard: Option<String>,
) -> (s: String)
    ensures
        s@ == join(divine_parts(*world, *citizen, awareness_percent@, opt_view(heard)), "\n"@),
{
    let mut parts: Vec<String> = Vec::new();
    parts.push(setting_string(world));
    let mut b = String::from_str("\n[");
    b.append(citizen.name.as_str());
    b.append("]\nPersonality: ");
    let tags = join_strings(&citizen.personality_tags, ", ");
    b.append(tags.as_str());
    b.append("\nEmotion: ");
    b.append(emotion_label(&citizen.emotion));
    b.append("\nMemory: ");
    b.append(citizen.memory_summary.as_str());
    b.append("\nDivine awareness: ");
    b.append(awareness_percent);
    b.append("%");
    parts.push(b);
    match heard {
        Some(t) => {
            let mut v = String::from_str("\n[Divine Voice]: ");
            v.append(t.as_str());
            parts.push(v);
        },
        None => {
            parts.push(String::from_str("\n[Divine Voice]: (nothing reaches this citizen)"));
        },
    }
    let mut last = String::from_str("\nGenerate ");
    last.append(citizen.name.as_str());
    last.append(
        "'s response as YAML:\nspeech: ...\ninner_thought: ...\naction: ...\nemotion_change: ...\ntech_hint: ~  # null if none",
    );
    parts.push(last);
    assert(views(parts@) =~= divine_parts(*world, *citizen, awareness_percent@, opt_view(heard)));
    join_strings(&parts, "\n")
}

/// One conversation pair of a batch prompt.
#[derive(Debug, Clone)]
pub struct PairPrompt {
    pub initiator: CitizenProfile,
    pub partner: CitizenProfile,
    /// The initiator's relationship line about the partner, if any.
    pub relationship: Option<String>,
    /// What reached the initiator of a divine voice, if anything.
    pub heard: Option<String>,
}

/// The parts one pair contributes to a batch prompt (pairs numbered from 1).
pub open spec fn pair_parts(number: nat, p: PairPrompt) -> Seq<Seq<char>> {
    seq!["\n--- Pair "@ + decimal(number) + " ---"@, citizen_block(p.initiator)] + match opt_view(
        p.relationship,
    ) {
        Some(r) => seq![r],
        None => Seq::empty(),
    } + seq![citizen_block(p.partner)] + match opt_view(p.heard) {
        Some(t) => seq!["[Divine Voice for "@ + p.initiator.name@ + "]: "@ + t],
        None => Seq::empty(),
    }
}

/// The parts of all pairs from the first, in order.
pub open spec fn all_pair_parts(pairs: Seq<PairPrompt>) -> Seq<Seq<char>>
    decreases pairs.len(),
{
    if pairs.len() == 0 {
        Seq::empty()
    } else {
        all_pair_parts(pairs.drop_last()) + pair_parts(pairs.len() as nat, pairs.last())
    }
}

/// The closing instruction of a batch prompt.
pub open spec fn batch_instruction(n: nat) -> Seq<char> {
    "\nRespond with a YAML sequence of "@ + decimal(n)
        + " mappings, one per pair:\n- speech: ...\n  inner_thought: ...\n  action: ...\n  emotion_change: ...\n  tech_hint: ~"@
}

/// A single prompt containing several conversation pairs; the model is
/// asked for a YAML sequence with one mapping per pair.
pub fn build_batch_conversation_prompt(world: &WorldContext, pairs: &Vec<PairPrompt>) -> (s: String)
    ensures
        s@ == join(
            seq![setting_line(*world)] + all_pair_parts(pairs@) + seq![
                batch_instruction(pairs@.len()),
            ],
            "\n"@,
        ),
{
    let mut parts: Vec<String> = Vec::new();
    parts.push(setting_string(world));
    let mut i: usize = 0;
    while i < pairs.len()
        invariant
            i <= pairs@.len(),
            views(parts@) == seq![setting_line(*world)] + all_pair_parts(pairs@.take(i as int)),
        decreases pairs@.len() - i,
    {
        let p = &pairs[i];
        let ghost before = views(parts@);
        let mut sep = String::from_str("\n--- Pair ");
        let num = decimal_string((i as u64) + 1);
        sep.append(num.as_str());
        sep.append(" ---");
        parts.push(sep);
        parts.push(format_citizen_block(&p.initiator));
        if let Some(line) = &p.relationship {
            parts.push(line.clone());
        }
        parts.push(format_citizen_block(&p.partner));
        if let Some(t) = &p.heard {
            let mut v = String::from_str("[Divine Voice for ");
            v.append(p.initiator.name.as_str());
            v.append("]: ");
            v.append(t.as_str());
            parts.push(v);
        }
        proof {
            assert(pairs@.take(i + 1).drop_last() =~= pairs@.take(i as int));
            assert(pairs@.take(i + 1).last() == pairs@[i as int]);
            assert(views(parts@) =~= before + pair_parts((i + 1) as nat, pairs@[i as int]));
        }
        i = i + 1;
    }
    assert(pairs@.take(pairs@.len() as int) =~= pairs@);
    let mut last = String::from_str("\nRespond with a YAML sequence of ");
    let n = decimal_string(pairs.len() as u64);
    last.append(n.as_str());
    last.append(
        " mappings, one per pair:\n- speech: ...\n  inner_thought: ...\n  action: ...\n  emotion_change: ...\n  tech_hint: ~",
    );
    parts.push(last);
    assert(views(parts@) =~= seq![setting_line(*world)] + all_pair_parts(pairs@) + seq![
        batch_instruction(pairs@.len()),
    ]);
    join_strings(&parts, "\n")
}

} // verus!
