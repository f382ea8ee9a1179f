//! Reading model replies into `CitizenResponse`s, from JSON or YAML text
//! that may be wrapped in a markdown code fence.
use vstd::prelude::*;

use crate::llm::document::{
    debug_text, json_document, read_json, read_yaml, str_debug, yaml_document, JsonValue,
    YamlValue,
};
use crate::llm::provider::{
    empty_fields, opt_view, CitizenResponse, LlmError, LlmErrorView, ResponseFields,
};
use crate::text::{
    chars_of, decimal, decimal_string, ends_with, has_at, lemma_trim_padded, starts_with,
    string_of_range, trim, trim_bounds, trim_end, trim_start, is_ws, lemma_trim_idempotent,
    lemma_trim_ws_padded,
};

verus! {

// ----- markdown fences -----

/// Three backticks.
pub open spec fn fence_ticks() -> Seq<char> {
    seq!['`', '`', '`']
}

/// The opening of a JSON code fence.
pub open spec fn fence_json() -> Seq<char> {
    seq!['`', '`', '`', 'j', 's', 'o', 'n']
}

/// The opening of a YAML code fence.
pub open spec fn fence_yaml() -> Seq<char> {
    seq!['`', '`', '`', 'y', 'a', 'm', 'l']
}

/// The trimmed body of `t` when `t` opens with `open` and, after that,
/// ends with three backticks.
pub open spec fn fence_body(t: Seq<char>, open: Seq<char>) -> Option<Seq<char>> {
    let rest = t.skip(open.len() as int);
    if starts_with(t, open) && ends_with(rest, fence_ticks()) {
        Some(trim(rest.take(rest.len() - 3)))
    } else {
        None
    }
}

/// `text` trimmed, and unwrapped from a ```` ```json ````, ```` ```yaml ````
/// or bare ```` ``` ```` fence when one encloses it (tried in that order).
pub open spec fn strip_fence(text: Seq<char>) -> Seq<char> {
    let t = trim(text);
    match fence_body(t, fence_json()) {
        Some(b) => b,
        None => match fence_body(t, fence_yaml()) {
            Some(b) => b,
            None => match fence_body(t, fence_ticks()) {
                Some(b) => b,
                None => t,
            },
        },
    }
}

/// The text a parser reads from a reply.
pub open spec fn cleaned(text: Seq<char>) -> Seq<char> {
    strip_fence(trim(text))
}

/// A reply wrapped in a ```` ```json ````, ```` ```yaml ```` or bare
/// ```` ``` ```` fence, each fence on a line of its own, is read as the
/// trimmed text between the fences.
pub proof fn lemma_fenced_reply(body: Seq<char>, open: Seq<char>)
    requires
        open == fence_json() || open == fence_yaml() || open == fence_ticks(),
    ensures
        cleaned(open + seq!['\n'] + body + seq!['\n'] + fence_ticks()) == trim(body),
{
    let f = open + seq!['\n'] + body + seq!['\n'] + fence_ticks();
    assert(f[0] == '`');
    assert(f[f.len() - 1] == '`');
    assert(trim_start(f) == f);
    assert(trim_end(f) == f);
    assert(trim(f) == f);
    let padded = seq!['\n'] + body + seq!['\n'];
    lemma_trim_padded(body);
    let rest_j = f.skip(7);
    let rest_t = f.skip(3);
    if open == fence_json() {
        assert(f.take(7) =~= fence_json());
        assert(rest_j =~= padded + fence_ticks());
        assert(rest_j.skip(rest_j.len() - 3) =~= fence_ticks());
        assert(rest_j.take(rest_j.len() - 3) =~= padded);
    } else if open == fence_yaml() {
        assert(f[3] == 'y');
        assert(f.take(7) != fence_json());
        assert(f.take(7) =~= fence_yaml());
        assert(rest_j =~= padded + fence_ticks());
        assert(rest_j.skip(rest_j.len() - 3) =~= fence_ticks());
        assert(rest_j.take(rest_j.len() - 3) =~= padded);
    } else {
        assert(f[3] == '\n');
        assert(f.len() < 7 || f.take(7)[3] == '\n');
        assert(f.len() < 7 || f.take(7) != fence_json());
        assert(f.len() < 7 || f.take(7) != fence_yaml());
        assert(f.take(3) =~= fence_ticks());
        assert(rest_t =~= padded + fence_ticks());
        assert(rest_t.skip(rest_t.len() - 3) =~= fence_ticks());
        assert(rest_t.take(rest_t.len() - 3) =~= padded);
    }
}

/// A reply that is not itself fenced reads the same bare, wrapped in a
/// ```` ```json ```` or bare ```` ``` ```` fence (each fence on a line of its
/// own), or padded with white space: the text the parsers read is the same,
/// so every parser gives the same outcome.
pub proof fn lemma_reply_wrappers_read_alike(s: Seq<char>)
    requires
        !starts_with(trim(s), fence_ticks()),
    ensures
        ({
            let f1 = fence_json() + seq!['\n'] + s + seq!['\n'] + fence_ticks();
            let f2 = fence_ticks() + seq!['\n'] + s + seq!['\n'] + fence_ticks();
            let f3 = seq![' ', ' ', '\n', ' '] + s + seq![' ', '\n', ' ', ' '];
            &&& cleaned(f1) == cleaned(s)
            &&& cleaned(f2) == cleaned(s)
            &&& cleaned(f3) == cleaned(s)
            &&& json_parse(f1) == json_parse(s)
            &&& json_parse(f2) == json_parse(s)
            &&& json_parse(f3) == json_parse(s)
            &&& yaml_parse(f1) == yaml_parse(s)
            &&& yaml_parse(f2) == yaml_parse(s)
            &&& yaml_parse(f3) == yaml_parse(s)
            &&& forall|n: nat|
                #![trigger json_parse_batch(f1, n)]
                #![trigger json_parse_batch(f2, n)]
                #![trigger json_parse_batch(f3, n)]
                json_parse_batch(f1, n) == json_parse_batch(s, n) && json_parse_batch(f2, n)
                    == json_parse_batch(s, n) && json_parse_batch(f3, n) == json_parse_batch(s, n)
            &&& forall|n: nat|
                #![trigger yaml_parse_batch(f1, n)]
                #![trigger yaml_parse_batch(f2, n)]
                #![trigger yaml_parse_batch(f3, n)]
                yaml_parse_batch(f1, n) == yaml_parse_batch(s, n) && yaml_parse_batch(f2, n)
                    == yaml_parse_batch(s, n) && yaml_parse_batch(f3, n) == yaml_parse_batch(s, n)
        }),
{
    let f3 = seq![' ', ' ', '\n', ' '] + s + seq![' ', '\n', ' ', ' '];
    lemma_fenced_reply(s, fence_json());
    lemma_fenced_reply(s, fence_ticks());
    let a = seq![' ', ' ', '\n', ' '];
    let b = seq![' ', '\n', ' ', ' '];
    assert forall|i: int| 0 <= i < a.len() implies is_ws(#[trigger] a[i]) by {}
    assert forall|i: int| 0 <= i < b.len() implies is_ws(#[trigger] b[i]) by {}
    lemma_trim_ws_padded(a, s, b);
    lemma_trim_idempotent(s);
    let t = trim(s);
    assert(trim(t) == t);
    if starts_with(t, fence_json()) {
        assert(t.take(7) == fence_json());
        assert(t.take(3) =~= t.take(7).take(3));
        assert(fence_json().take(3) =~= fence_ticks());
        assert(starts_with(t, fence_ticks()));
    }
    if starts_with(t, fence_yaml()) {
        assert(t.take(7) == fence_yaml());
        assert(t.take(3) =~= t.take(7).take(3));
        assert(fence_yaml().take(3) =~= fence_ticks());
        assert(starts_with(t, fence_ticks()));
    }
    assert(fence_body(trim(t), fence_json()) is None);
    assert(fence_body(trim(t), fence_yaml()) is None);
    assert(fence_body(trim(t), fence_ticks()) is None);
    assert(cleaned(s) == t);
}

fn try_fence(v: &Vec<char>, lo: usize, hi: usize, open: &Vec<char>) -> (r: Option<String>)
    requires
        lo <= hi <= v@.len(),
    ensures
        match fence_body(v@.subrange(lo as int, hi as int), open@) {
            Some(b) => r is Some && r->0@ == b,
            None => r is None,
        },
{
    let ghost t = v@.subrange(lo as int, hi as int);
    let ghost rest = t.skip(open@.len() as int);
    let plen = open.len();
    if plen > hi - lo {
        return None;
    }
    if !has_at(v, lo, open) {
        assert(t.take(open@.len() as int) =~= v@.subrange(lo as int, lo + open@.len()));
        return None;
    }
    assert(t.take(open@.len() as int) =~= v@.subrange(lo as int, lo + open@.len()));
    let start = lo + plen;
    assert(rest =~= v@.subrange(start as int, hi as int));
    if hi - start < 3 {
        return None;
    }
    let ticks: Vec<char> = vec!['`', '`', '`'];
    if !has_at(v, hi - 3, &ticks) {
        assert(rest.skip(rest.len() - 3) =~= v@.subrange(hi - 3, hi as int));
        return None;
    }
    assert(rest.skip(rest.len() - 3) =~= v@.subrange(hi - 3, hi as int));
    assert(rest.take(rest.len() - 3) =~= v@.subrange(start as int, hi - 3));
    let (a, b) = trim_bounds(v, start, hi - 3);
    Some(string_of_range(v, a, b))
}

fn strip_fence_range(v: &Vec<char>, lo: usize, hi: usize) -> (s: String)
    requires
        lo <= hi <= v@.len(),
    ensures
        s@ == strip_fence(v@.subrange(lo as int, hi as int)),
{
    let (a, b) = trim_bounds(v, lo, hi);
    assert(v@.subrange(a as int, b as int) == trim(v@.subrange(lo as int, hi as int)));
    let json: Vec<char> = vec!['`', '`', '`', 'j', 's', 'o', 'n'];
    let yaml: Vec<char> = vec!['`', '`', '`', 'y', 'a', 'm', 'l'];
    let ticks: Vec<char> = vec!['`', '`', '`'];
    assert(json@ == fence_json());
    assert(yaml@ == fence_yaml());
    assert(ticks@ == fence_ticks());
    if let Some(body) = try_fence(v, a, b, &json) {
        return body;
    }
    if let Some(body) = try_fence(v, a, b, &yaml) {
        return body;
    }
    if let Some(body) = try_fence(v, a, b, &ticks) {
        return body;
    }
    string_of_range(v, a, b)
}

/// Strip markdown code fences if present: the trimmed text, or the trimmed
/// inside of a ```` ```json ````, ```` ```yaml ```` or bare ```` ``` ````
/// fence that encloses it.
pub fn strip_markdown_fence(text: &str) -> (s: String)
    ensures
        s@ == strip_fence(text@),
{
    let v = chars_of(text);
    assert(v@.subrange(0, v@.len() as int) == v@);
    strip_fence_range(&v, 0, v.len())
}

fn clean_text(text: &str) -> (s: String)
    ensures
        s@ == cleaned(text@),
{
    let v = chars_of(text);
    assert(v@.subrange(0, v@.len() as int) == v@);
    let (lo, hi) = trim_bounds(&v, 0, v.len());
    strip_fence_range(&v, lo, hi)
}

// ----- from document values to a response -----

/// Whether a number's text is an integer (digits, possibly signed), as
/// opposed to a floating-point number.
pub open spec fn integer_text(t: Seq<char>) -> bool {
    forall|i: int| 0 <= i < t.len() ==> ('0' <= #[trigger] t[i] <= '9' || t[i] == '-')
}

/// `true` or `false`.
pub open spec fn bool_text(b: bool) -> Seq<char> {
    if b {
        "true"@
    } else {
        "false"@
    }
}

/// How a number is described in a type error: `integer `…`` or
/// `floating point `…``.
pub open spec fn number_desc(t: Seq<char>) -> Seq<char> {
    if integer_text(t) {
        "integer `"@ + t + "`"@
    } else {
        "floating point `"@ + t + "`"@
    }
}

/// How a boolean is described in a type error.
pub open spec fn bool_desc(b: bool) -> Seq<char> {
    "boolean `"@ + bool_text(b) + "`"@
}

fn integer_text_exec(t: &String) -> (b: bool)
    ensures
        b == integer_text(t@),
{
    let v = chars_of(t.as_str());
    let mut i: usize = 0;
    while i < v.len()
        invariant
            v@ == t@,
            i <= v@.len(),
            forall|j: int| 0 <= j < i ==> ('0' <= #[trigger] v@[j] <= '9' || v@[j] == '-'),
        decreases v@.len() - i,
    {
        let c = v[i];
        if !(('0' <= c && c <= '9') || c == '-') {
            return false;
        }
        i = i + 1;
    }
    true
}

fn number_desc_exec(t: &String) -> (s: String)
    ensures
        s@ == number_desc(t@),
{
    let mut s = if integer_text_exec(t) {
        String::from_str("integer `")
    } else {
        String::from_str("floating point `")
    };
    s.append(t.as_str());
    s.append("`");
    s
}

fn bool_desc_exec(b: bool) -> (s: String)
    ensures
        s@ == bool_desc(b),
{
    let mut s = String::from_str("boolean `");
    if b {
        s.append("true");
    } else {
        s.append("false");
    }
    s.append("`");
    s
}

/// A mapping key as a response field reads it: a name, or a non-text key
/// with its description.
pub enum KeyView {
    Name(Seq<char>),
    Other(Seq<char>),
}

/// A value as a response field reads it: text, null, or something else,
/// with the description a type error gives (null is described differently
/// by each format).
pub enum ValView {
    Text(Seq<char>),
    Null(Seq<char>),
    Other(Seq<char>),
}

/// Exec form of `KeyView`.
pub enum FieldKey {
    Name(String),
    Other(String),
}

/// Exec form of `ValView`.
pub enum FieldValue {
    Text(String),
    Null(String),
    Other(String),
}

impl View for FieldKey {
    type V = KeyView;

    open spec fn view(&self) -> KeyView {
        match self {
            FieldKey::Name(s) => KeyView::Name(s@),
            FieldKey::Other(d) => KeyView::Other(d@),
        }
    }
}

impl View for FieldValue {
    type V = ValView;

    open spec fn view(&self) -> ValView {
        match self {
            FieldValue::Text(s) => ValView::Text(s@),
            FieldValue::Null(d) => ValView::Null(d@),
            FieldValue::Other(d) => ValView::Other(d@),
        }
    }
}

/// Slot of a response field name: 0 speech, 1 inner_thought, 2 action,
/// 3 emotion_change, 4 tech_hint; -1 for any other name.
pub open spec fn slot_of(name: Seq<char>) -> int {
    if name == "speech"@ {
        0
    } else if name == "inner_thought"@ {
        1
    } else if name == "action"@ {
        2
    } else if name == "emotion_change"@ {
        3
    } else if name == "tech_hint"@ {
        4
    } else {
        -1
    }
}

/// Field name of a slot.
pub open spec fn slot_name(i: int) -> Seq<char> {
    if i == 0 {
        "speech"@
    } else if i == 1 {
        "inner_thought"@
    } else if i == 2 {
        "action"@
    } else if i == 3 {
        "emotion_change"@
    } else {
        "tech_hint"@
    }
}

/// `invalid type: <kind>, expected <what>`.
pub open spec fn invalid_type_msg(kind: Seq<char>, what: Seq<char>) -> Seq<char> {
    "invalid type: "@ + kind + ", expected "@ + what
}

/// Reading a value into slot `i`: slots 0-3 need text; slot 4 (the tech
/// hint) also takes null as "no hint".
pub open spec fn slot_value(i: int, v: ValView) -> Result<Option<Seq<char>>, Seq<char>> {
    match v {
        ValView::Text(s) => Ok(Some(s)),
        ValView::Null(d) => if i == 4 {
            Ok(None)
        } else {
            Err(invalid_type_msg(d, "a string"@))
        },
        ValView::Other(d) => Err(invalid_type_msg(d, "a string"@)),
    }
}

/// Five slots, each unset or holding the field's value.
pub type Slots = Seq<Option<Option<Seq<char>>>>;

pub open spec fn empty_slots() -> Slots {
    seq![None, None, None, None, None]
}

/// One mapping entry: unknown names are skipped; a known name fills its
/// slot unless it is already filled.
pub open spec fn visit_entry(slots: Slots, key: KeyView, v: ValView) -> Result<Slots, Seq<char>> {
    match key {
        KeyView::Other(d) => Err(invalid_type_msg(d, "field identifier"@)),
        KeyView::Name(n) => {
            let i = slot_of(n);
            if i < 0 {
                Ok(slots)
            } else if slots[i] is Some {
                Err("duplicate field `"@ + slot_name(i) + "`"@)
            } else {
                match slot_value(i, v) {
                    Ok(x) => Ok(slots.update(i, Some(x))),
                    Err(e) => Err(e),
                }
            }
        },
    }
}

/// The entries of a mapping, in order, stopping at the first error.
pub open spec fn visit_entries(slots: Slots, es: Seq<(KeyView, ValView)>) -> Result<
    Slots,
    Seq<char>,
>
    decreases es.len(),
{
    if es.len() == 0 {
        Ok(slots)
    } else {
        match visit_entry(slots, es[0].0, es[0].1) {
            Err(e) => Err(e),
            Ok(s2) => visit_entries(s2, es.drop_first()),
        }
    }
}

/// The response from filled slots; the four text fields are required, in
/// declaration order, and a missing tech hint is none.
pub open spec fn finish_slots(slots: Slots) -> Result<ResponseFields, Seq<char>> {
    if slots[0] is None {
        Err("missing field `speech`"@)
    } else if slots[1] is None {
        Err("missing field `inner_thought`"@)
    } else if slots[2] is None {
        Err("missing field `action`"@)
    } else if slots[3] is None {
        Err("missing field `emotion_change`"@)
    } else {
        Ok(
            ResponseFields {
                speech: slots[0]->0->0,
                inner_thought: slots[1]->0->0,
                action: slots[2]->0->0,
                emotion_change: slots[3]->0->0,
                tech_hint: match slots[4] {
                    Some(x) => x,
                    None => None,
                },
            },
        )
    }
}

/// A response from a mapping's entries.
pub open spec fn fields_from_map(es: Seq<(KeyView, ValView)>) -> Result<ResponseFields, Seq<char>> {
    match visit_entries(empty_slots(), es) {
        Err(e) => Err(e),
        Ok(s) => finish_slots(s),
    }
}

/// `invalid length <n>, expected <what>`.
pub open spec fn invalid_length_msg(n: nat, what: Seq<char>) -> Seq<char> {
    "invalid length "@ + decimal(n) + ", expected "@ + what
}

/// Slots `i..5` filled from the elements of a sequence, in order.
pub open spec fn visit_elements(slots: Slots, vs: Seq<ValView>, i: nat) -> Result<Slots, Seq<char>>
    decreases 5 - i,
{
    if i >= 5 {
        Ok(slots)
    } else if i >= vs.len() {
        Err(invalid_length_msg(i, "struct CitizenResponse with 5 elements"@))
    } else {
        match slot_value(i as int, vs[i as int]) {
            Err(e) => Err(e),
            Ok(x) => visit_elements(slots.update(i as int, Some(x)), vs, i + 1),
        }
    }
}

/// A response from a sequence of exactly five elements in field order.
pub open spec fn fields_from_elements(vs: Seq<ValView>) -> Result<ResponseFields, Seq<char>> {
    match visit_elements(empty_slots(), vs, 0) {
        Err(e) => Err(e),
        Ok(s) => if vs.len() > 5 {
            Err(invalid_length_msg(vs.len(), "fewer elements in array"@))
        } else {
            finish_slots(s)
        },
    }
}

/// The error for a value that cannot hold a response at all.
pub open spec fn not_a_response_msg(d: Seq<char>) -> Seq<char> {
    invalid_type_msg(d, "struct CitizenResponse"@)
}

struct SlotsExec {
    speech: Option<String>,
    inner_thought: Option<String>,
    action: Option<String>,
    emotion_change: Option<String>,
    tech_hint: Option<Option<String>>,
}

spec fn text_slot(o: Option<String>) -> Option<Option<Seq<char>>> {
    match o {
        Some(s) => Some(Some(s@)),
        None => None,
    }
}

impl View for SlotsExec {
    type V = Slots;

    closed spec fn view(&self) -> Slots {
        seq![
            text_slot(self.speech),
            text_slot(self.inner_thought),
            text_slot(self.action),
            text_slot(self.emotion_change),
            match self.tech_hint {
                Some(o) => Some(opt_view(o)),
                None => None,
            },
        ]
    }
}

fn text_eq(a: &String, b: &str) -> (r: bool)
    ensures
        r == (a@ == b@),
{
    let bs = String::from_str(b);
    *a == bs
}

fn slot_index(n: &String) -> (i: usize)
    ensures
        slot_of(n@) < 0 ==> i == 5,
        slot_of(n@) >= 0 ==> i == slot_of(n@),
{
    if text_eq(n, "speech") {
        0
    } else if text_eq(n, "inner_thought") {
        1
    } else if text_eq(n, "action") {
        2
    } else if text_eq(n, "emotion_change") {
        3
    } else if text_eq(n, "tech_hint") {
        4
    } else {
        5
    }
}

fn slot_name_str(i: usize) -> (s: &'static str)
    ensures
        s@ == slot_name(i as int),
{
    if i == 0 {
        "speech"
    } else if i == 1 {
        "inner_thought"
    } else if i == 2 {
        "action"
    } else if i == 3 {
        "emotion_change"
    } else {
        "tech_hint"
    }
}

fn invalid_type_string(kind: &str, what: &str) -> (s: String)
    ensures
        s@ == invalid_type_msg(kind@, what@),
{
    let mut s = String::from_str("invalid type: ");
    s.append(kind);
    s.append(", expected ");
    s.append(what);
    s
}

fn invalid_length_string(n: usize, what: &str) -> (s: String)
    ensures
        s@ == invalid_length_msg(n as nat, what@),
{
    let mut s = String::from_str("invalid length ");
    let d = decimal_string(n as u64);
    s.append(d.as_str());
    s.append(", expected ");
    s.append(what);
    s
}

fn slot_value_exec(i: usize, v: FieldValue) -> (r: Result<Option<String>, String>)
    requires
        i < 5,
    ensures
        match slot_value(i as int, v@) {
            Ok(x) => r is Ok && opt_view(r->Ok_0) == x,
            Err(e) => r is Err && r->Err_0@ == e,
        },
{
    match v {
        FieldValue::Text(s) => Ok(Some(s)),
        FieldValue::Null(d) => if i == 4 {
            Ok(None)
        } else {
            Err(invalid_type_string(d.as_str(), "a string"))
        },
        FieldValue::Other(d) => Err(invalid_type_string(d.as_str(), "a string")),
    }
}

impl SlotsExec {
    fn new() -> (s: SlotsExec)
        ensures
            s@ == empty_slots(),
    {
        let s = SlotsExec {
            speech: None,
            inner_thought: None,
            action: None,
            emotion_change: None,
            tech_hint: None,
        };
        assert(s@ =~= empty_slots());
        s
    }

    fn is_set(&self, i: usize) -> (b: bool)
        requires
            i < 5,
        ensures
            b == self@[i as int] is Some,
    {
        if i == 0 {
            self.speech.is_some()
        } else if i == 1 {
            self.inner_thought.is_some()
        } else if i == 2 {
            self.action.is_some()
        } else if i == 3 {
            self.emotion_change.is_some()
        } else {
            self.tech_hint.is_some()
        }
    }

    /// Fills slot `i`; text slots always receive text.
    fn fill(&mut self, i: usize, x: Option<String>)
        requires
            i < 5,
            i < 4 ==> x is Some,
        ensures
            final(self)@ == old(self)@.update(i as int, Some(opt_view(x))),
    {
        if i == 0 {
            self.speech = x;
        } else if i == 1 {
            self.inner_thought = x;
        } else if i == 2 {
            self.action = x;
        } else if i == 3 {
            self.emotion_change = x;
        } else {
            self.tech_hint = Some(x);
        }
        assert(final(self)@ =~= old(self)@.update(i as int, Some(opt_view(x))));
    }

    fn visit(&mut self, key: FieldKey, v: FieldValue) -> (r: Result<(), String>)
        ensures
            match visit_entry(old(self)@, key@, v@) {
                Ok(s2) => r is Ok && final(self)@ == s2,
                Err(e) => r is Err && r->Err_0@ == e,
            },
    {
        match key {
            FieldKey::Other(d) => Err(invalid_type_string(d.as_str(), "field identifier")),
            FieldKey::Name(n) => {
                let i = slot_index(&n);
                if i == 5 {
                    return Ok(());
                }
                if self.is_set(i) {
                    let mut m = String::from_str("duplicate field `");
                    m.append(slot_name_str(i));
                    m.append("`");
                    return Err(m);
                }
                match slot_value_exec(i, v) {
                    Ok(x) => {
                        self.fill(i, x);
                        Ok(())
                    },
                    Err(e) => Err(e),
                }
            },
        }
    }

    fn finish(self) -> (r: Result<CitizenResponse, String>)
        ensures
            match finish_slots(self@) {
                Ok(f) => r is Ok && r->Ok_0@ == f,
                Err(e) => r is Err && r->Err_0@ == e,
            },
    {
        let speech = match self.speech {
            Some(s) => s,
            None => {
                return Err(String::from_str("missing field `speech`"));
            },
        };
        let inner_thought = match self.inner_thought {
            Some(s) => s,
            None => {
                return Err(String::from_str("missing field `inner_thought`"));
            },
        };
        let action = match self.action {
            Some(s) => s,
            None => {
                return Err(String::from_str("missing field `action`"));
            },
        };
        let emotion_change = match self.emotion_change {
            Some(s) => s,
            None => {
                return Err(String::from_str("missing field `emotion_change`"));
            },
        };
        let tech_hint = match self.tech_hint {
            Some(t) => t,
            None => None,
        };
        Ok(CitizenResponse { speech, inner_thought, action, emotion_change, tech_hint })
    }
}

/// Sequence elements as the field reader sees them.
pub open spec fn field_views(vs: Seq<FieldValue>) -> Seq<ValView> {
    vs.map_values(|v: FieldValue| v@)
}

/// JSON array elements as the field reader sees them.
pub open spec fn json_views(a: Seq<JsonValue>) -> Seq<ValView> {
    a.map_values(|x: JsonValue| json_val_view(x))
}

/// Fills slots from a sequence's elements, then checks the length.
fn decode_elements(vs: Vec<FieldValue>) -> (r: Result<CitizenResponse, String>)
    ensures
        match fields_from_elements(field_views(vs@)) {
            Ok(f) => r is Ok && r->Ok_0@ == f,
            Err(e) => r is Err && r->Err_0@ == e,
        },
{
    let ghost views = field_views(vs@);
    let n = vs.len();
    let mut slots = SlotsExec::new();
    let mut rest = vs;
    let mut i: usize = 0;
    while i < 5
        invariant
            i <= 5,
            n == views.len(),
            views == field_views(vs@),
            rest@.len() == if n >= i {
                n - i
            } else {
                0
            },
            forall|j: int| 0 <= j < rest@.len() ==> (#[trigger] rest@[j])@ == views[i + j],
            visit_elements(empty_slots(), views, 0) == visit_elements(slots@, views, i as nat),
        decreases 5 - i,
    {
        if i >= n {
            return Err(invalid_length_string(i, "struct CitizenResponse with 5 elements"));
        }
        let v = rest.remove(0);
        assert(v@ == views[i as int]);
        match slot_value_exec(i, v) {
            Ok(x) => {
                slots.fill(i, x);
            },
            Err(e) => {
                return Err(e);
            },
        }
        i = i + 1;
    }
    if n > 5 {
        return Err(invalid_length_string(n, "fewer elements in array"));
    }
    slots.finish()
}

/// The mapping entries as the field reader sees them.
pub open spec fn entry_views(es: Seq<(FieldKey, FieldValue)>) -> Seq<(KeyView, ValView)> {
    es.map_values(|e: (FieldKey, FieldValue)| (e.0@, e.1@))
}

/// Fills slots from mapping entries in order, then requires the text
/// fields.
fn decode_map(es: Vec<(FieldKey, FieldValue)>) -> (r: Result<CitizenResponse, String>)
    ensures
        match fields_from_map(entry_views(es@)) {
            Ok(f) => r is Ok && r->Ok_0@ == f,
            Err(e) => r is Err && r->Err_0@ == e,
        },
{
    let ghost views = entry_views(es@);
    let mut slots = SlotsExec::new();
    let mut rest = es;
    let ghost mut i: int = 0;
    assert(views.skip(0) =~= views);
    while rest.len() > 0
        invariant
            views == entry_views(es@),
            0 <= i <= views.len(),
            entry_views(rest@) == views.skip(i),
            visit_entries(empty_slots(), views) == visit_entries(slots@, views.skip(i)),
        decreases rest@.len(),
    {
        let ghost before = rest@;
        let (k, v) = rest.remove(0);
        assert(views.skip(i)[0] == (k@, v@)) by {
            assert(entry_views(before)[0] == (k@, v@));
        }
        assert(views.skip(i).drop_first() =~= views.skip(i + 1));
        assert(entry_views(rest@) =~= views.skip(i + 1)) by {
            assert(rest@ == before.drop_first());
        }
        match slots.visit(k, v) {
            Ok(()) => {},
            Err(e) => {
                return Err(e);
            },
        }
        proof {
            i = i + 1;
        }
    }
    assert(views.skip(i).len() == 0);
    slots.finish()
}

// ----- JSON -----

/// How a JSON value is described in a type error.
pub open spec fn json_desc(v: JsonValue) -> Seq<char> {
    match v {
        JsonValue::Null => "null"@,
        JsonValue::Bool(b) => bool_desc(b),
        JsonValue::Number(t) => number_desc(t@),
        JsonValue::Str(s) => "string "@ + str_debug(s@),
        JsonValue::Array(_) => "sequence"@,
        JsonValue::Object(_) => "map"@,
    }
}

/// A JSON value read as a response field.
pub open spec fn json_val_view(v: JsonValue) -> ValView {
    match v {
        JsonValue::Null => ValView::Null("null"@),
        JsonValue::Str(s) => ValView::Text(s@),
        _ => ValView::Other(json_desc(v)),
    }
}

/// The members of a JSON object read as response fields.
pub open spec fn json_entries(m: Seq<(String, JsonValue)>) -> Seq<(KeyView, ValView)> {
    m.map_values(|e: (String, JsonValue)| (KeyView::Name(e.0@), json_val_view(e.1)))
}

/// A response from one JSON value: an object by field names, or an array
/// of the five fields in order.
pub open spec fn json_response(v: JsonValue) -> Result<ResponseFields, Seq<char>> {
    match v {
        JsonValue::Object(m) => fields_from_map(json_entries(m@)),
        JsonValue::Array(a) => fields_from_elements(json_views(a@)),
        _ => Err(not_a_response_msg(json_desc(v))),
    }
}

fn json_desc_exec(v: &JsonValue) -> (d: String)
    ensures
        d@ == json_desc(*v),
{
    match v {
        JsonValue::Null => String::from_str("null"),
        JsonValue::Bool(b) => bool_desc_exec(*b),
        JsonValue::Number(t) => number_desc_exec(t),
        JsonValue::Str(x) => {
            let mut d = String::from_str("string ");
            let q = debug_text(x.as_str());
            d.append(q.as_str());
            d
        },
        JsonValue::Array(_) => String::from_str("sequence"),
        JsonValue::Object(_) => String::from_str("map"),
    }
}

fn json_field_value(v: &JsonValue) -> (r: FieldValue)
    ensures
        r@ == json_val_view(*v),
{
    match v {
        JsonValue::Null => FieldValue::Null(String::from_str("null")),
        JsonValue::Str(s) => FieldValue::Text(s.clone()),
        _ => FieldValue::Other(json_desc_exec(v)),
    }
}

/// The response a parsed JSON value holds: an object read by field names
/// (unknown names skipped), or an array of the five fields in order; else
/// the reason it holds none.
pub fn response_from_json(v: &JsonValue) -> (r: Result<CitizenResponse, String>)
    ensures
        match json_response(*v) {
            Ok(f) => r is Ok && r->Ok_0@ == f,
            Err(e) => r is Err && r->Err_0@ == e,
        },
{
    match v {
        JsonValue::Object(m) => {
            let mut es: Vec<(FieldKey, FieldValue)> = Vec::new();
            let mut i: usize = 0;
            while i < m.len()
                invariant
                    i <= m@.len(),
                    es@.len() == i,
                    entry_views(es@) == json_entries(m@).take(i as int),
                decreases m@.len() - i,
            {
                let key = FieldKey::Name(m[i].0.clone());
                let val = json_field_value(&m[i].1);
                let ghost old_es = es@;
                es.push((key, val));
                proof {
                    assert forall|j: int| 0 <= j <= i implies #[trigger] entry_views(es@)[j]
                        == json_entries(m@)[j] by {
                        if j < i {
                            assert(es@[j] == old_es[j]);
                            assert(entry_views(old_es)[j] == json_entries(m@).take(i as int)[j]);
                        }
                    }
                }
                i = i + 1;
                assert(entry_views(es@) =~= json_entries(m@).take(i as int));
            }
            assert(json_entries(m@).take(m@.len() as int) =~= json_entries(m@));
            decode_map(es)
        },
        JsonValue::Array(a) => {
            let mut vs: Vec<FieldValue> = Vec::new();
            let mut i: usize = 0;
            while i < a.len()
                invariant
                    i <= a@.len(),
                    vs@.len() == i,
                    field_views(vs@) == json_views(a@).take(i as int),
                decreases a@.len() - i,
            {
                let ghost old_vs = vs@;
                vs.push(json_field_value(&a[i]));
                proof {
                    assert forall|j: int| 0 <= j <= i implies #[trigger] field_views(vs@)[j]
                        == json_views(a@)[j] by {
                        if j < i {
                            assert(vs@[j] == old_vs[j]);
                            assert(field_views(old_vs)[j] == json_views(a@).take(i as int)[j]);
                        }
                    }
                }
                i = i + 1;
                assert(field_views(vs@) =~= json_views(a@).take(i as int));
            }
            assert(json_views(a@).take(a@.len() as int) =~= json_views(a@));
            decode_elements(vs)
        },
        _ => {
            let d = json_desc_exec(v);
            Err(invalid_type_string(d.as_str(), "struct CitizenResponse"))
        },
    }
}

// ----- YAML -----

/// The value under any tags.
pub open spec fn yaml_untag(v: YamlValue) -> YamlValue
    decreases v,
{
    match v {
        YamlValue::Tagged(b) => yaml_untag(*b),
        _ => v,
    }
}

/// Whether `t` contains a decimal point.
pub open spec fn has_point(t: Seq<char>) -> bool {
    exists|i: int| 0 <= i < t.len() && t[i] == '.'
}

/// How a floating-point number, written by Rust's `Display`, is described
/// in a type error: a finite number always shows a decimal point (`.0` is
/// added when it has none); `NaN`, `inf` and `-inf` stay as they are.
pub open spec fn float_desc(t: Seq<char>) -> Seq<char> {
    if t == "NaN"@ || t == "inf"@ || t == "-inf"@ || has_point(t) {
        "floating point `"@ + t + "`"@
    } else {
        "floating point `"@ + t + ".0`"@
    }
}

fn has_point_exec(t: &String) -> (b: bool)
    ensures
        b == has_point(t@),
{
    let v = chars_of(t.as_str());
    let mut i: usize = 0;
    while i < v.len()
        invariant
            v@ == t@,
            i <= v@.len(),
            forall|j: int| 0 <= j < i ==> v@[j] != '.',
        decreases v@.len() - i,
    {
        if v[i] == '.' {
            return true;
        }
        i = i + 1;
    }
    false
}

fn float_desc_exec(t: &String) -> (s: String)
    ensures
        s@ == float_desc(t@),
{
    let plain = t.eq(&String::from_str("NaN")) || t.eq(&String::from_str("inf")) || t.eq(
        &String::from_str("-inf"),
    ) || has_point_exec(t);
    let mut s = String::from_str("floating point `");
    s.append(t.as_str());
    if plain {
        s.append("`");
    } else {
        s.append(".0`");
    }
    s
}

fn integer_desc_exec(t: &String) -> (s: String)
    ensures
        s@ == "integer `"@ + t@ + "`"@,
{
    let mut s = String::from_str("integer `");
    s.append(t.as_str());
    s.append("`");
    s
}

/// How a YAML value is described in a type error.
pub open spec fn yaml_desc(v: YamlValue) -> Seq<char> {
    match v {
        YamlValue::Null => "unit value"@,
        YamlValue::Bool(b) => bool_desc(b),
        YamlValue::Integer(t) => "integer `"@ + t@ + "`"@,
        YamlValue::Float(t) => float_desc(t@),
        YamlValue::Str(s) => "string "@ + str_debug(s@),
        YamlValue::Sequence(_) => "sequence"@,
        YamlValue::Mapping(_) => "map"@,
        YamlValue::Tagged(_) => "enum"@,
    }
}

/// A YAML value read as a response field: an untagged null is null; other
/// values count as text when they are text under their tags.
pub open spec fn yaml_val_view(v: YamlValue) -> ValView {
    match v {
        YamlValue::Null => ValView::Null("unit value"@),
        _ => match yaml_untag(v) {
            YamlValue::Str(s) => ValView::Text(s@),
            u => ValView::Other(yaml_desc(u)),
        },
    }
}

/// A YAML mapping key read as a field name.
pub open spec fn yaml_key_view(k: YamlValue) -> KeyView {
    match yaml_untag(k) {
        YamlValue::Str(s) => KeyView::Name(s@),
        u => KeyView::Other(yaml_desc(u)),
    }
}

/// The entries of a YAML mapping read as response fields.
pub open spec fn yaml_entries(m: Seq<(YamlValue, YamlValue)>) -> Seq<(KeyView, ValView)> {
    m.map_values(|e: (YamlValue, YamlValue)| (yaml_key_view(e.0), yaml_val_view(e.1)))
}

/// A response from one YAML value: a mapping by field names (null counts as
/// an empty mapping).
pub open spec fn yaml_response(v: YamlValue) -> Result<ResponseFields, Seq<char>> {
    match yaml_untag(v) {
        YamlValue::Mapping(m) => fields_from_map(yaml_entries(m@)),
        YamlValue::Null => fields_from_map(Seq::empty()),
        u => Err(not_a_response_msg(yaml_desc(u))),
    }
}

fn yaml_untag_exec(v: &YamlValue) -> (r: &YamlValue)
    ensures
        *r == yaml_untag(*v),
    decreases v,
{
    match v {
        YamlValue::Tagged(b) => yaml_untag_exec(b),
        _ => v,
    }
}

fn yaml_desc_exec(v: &YamlValue) -> (d: String)
    ensures
        d@ == yaml_desc(*v),
{
    match v {
        YamlValue::Null => String::from_str("unit value"),
        YamlValue::Bool(b) => bool_desc_exec(*b),
        YamlValue::Integer(t) => integer_desc_exec(t),
        YamlValue::Float(t) => float_desc_exec(t),
        YamlValue::Str(x) => {
            let mut d = String::from_str("string ");
            let q = debug_text(x.as_str());
            d.append(q.as_str());
            d
        },
        YamlValue::Sequence(_) => String::from_str("sequence"),
        YamlValue::Mapping(_) => String::from_str("map"),
        YamlValue::Tagged(_) => String::from_str("enum"),
    }
}

fn yaml_field_value(v: &YamlValue) -> (r: FieldValue)
    ensures
        r@ == yaml_val_view(*v),
{
    if let YamlValue::Null = v {
        return FieldValue::Null(String::from_str("unit value"));
    }
    let u = yaml_untag_exec(v);
    match u {
        YamlValue::Str(s) => FieldValue::Text(s.clone()),
        _ => FieldValue::Other(yaml_desc_exec(u)),
    }
}

fn yaml_field_key(k: &YamlValue) -> (r: FieldKey)
    ensures
        r@ == yaml_key_view(*k),
{
    let u = yaml_untag_exec(k);
    match u {
        YamlValue::Str(s) => FieldKey::Name(s.clone()),
        _ => FieldKey::Other(yaml_desc_exec(u)),
    }
}

/// The response a parsed YAML value holds: a mapping read by field names
/// (unknown names skipped, tags looked through, null read as an empty
/// mapping); else the reason it holds none.
pub fn response_from_yaml(v: &YamlValue) -> (r: Result<CitizenResponse, String>)
    ensures
        match yaml_response(*v) {
            Ok(f) => r is Ok && r->Ok_0@ == f,
            Err(e) => r is Err && r->Err_0@ == e,
        },
{
    let u = yaml_untag_exec(v);
    match u {
        YamlValue::Mapping(m) => {
            let mut es: Vec<(FieldKey, FieldValue)> = Vec::new();
            let mut i: usize = 0;
            while i < m.len()
                invariant
                    i <= m@.len(),
                    es@.len() == i,
                    entry_views(es@) == yaml_entries(m@).take(i as int),
                decreases m@.len() - i,
            {
                let key = yaml_field_key(&m[i].0);
                let val = yaml_field_value(&m[i].1);
                let ghost old_es = es@;
                es.push((key, val));
                proof {
                    assert forall|j: int| 0 <= j <= i implies #[trigger] entry_views(es@)[j]
                        == yaml_entries(m@)[j] by {
                        if j < i {
                            assert(es@[j] == old_es[j]);
                            assert(entry_views(old_es)[j] == yaml_entries(m@).take(i as int)[j]);
                        }
                    }
                }
                i = i + 1;
                assert(entry_views(es@) =~= yaml_entries(m@).take(i as int));
            }
            assert(yaml_entries(m@).take(m@.len() as int) =~= yaml_entries(m@));
            decode_map(es)
        },
        YamlValue::Null => {
            let es: Vec<(FieldKey, FieldValue)> = Vec::new();
            assert(entry_views(es@) =~= Seq::<(KeyView, ValView)>::empty());
            decode_map(es)
        },
        _ => {
            let d = yaml_desc_exec(u);
            Err(invalid_type_string(d.as_str(), "struct CitizenResponse"))
        },
    }
}

// ----- whole replies -----

/// A parse outcome in terms of views.
pub open spec fn parse_outcome(r: Result<CitizenResponse, LlmError>) -> Result<
    ResponseFields,
    LlmErrorView,
> {
    match r {
        Ok(c) => Ok(c@),
        Err(e) => Err(e@),
    }
}

/// The contents of a list of responses.
pub open spec fn response_views(v: Seq<CitizenResponse>) -> Seq<ResponseFields> {
    v.map_values(|c: CitizenResponse| c@)
}

/// A batch parse outcome in terms of views.
pub open spec fn batch_outcome(r: Result<Vec<CitizenResponse>, LlmError>) -> Result<
    Seq<ResponseFields>,
    LlmErrorView,
> {
    match r {
        Ok(v) => Ok(response_views(v@)),
        Err(e) => Err(e@),
    }
}

/// A read response, or the empty response in place of a malformed one.
pub open spec fn or_empty(r: Result<ResponseFields, Seq<char>>) -> ResponseFields {
    match r {
        Ok(f) => f,
        Err(_) => empty_fields(),
    }
}

/// A response, or a provider error whose text is `prefix` and the reason.
pub open spec fn with_prefix(prefix: Seq<char>, r: Result<ResponseFields, Seq<char>>) -> Result<
    ResponseFields,
    LlmErrorView,
> {
    match r {
        Ok(f) => Ok(f),
        Err(d) => Err(LlmErrorView::Provider(prefix + d)),
    }
}

/// `expected N responses, got M`.
pub open spec fn count_msg(expected: nat, got: nat) -> Seq<char> {
    "expected "@ + decimal(expected) + " responses, got "@ + decimal(got)
}

/// A batch of responses, refused when empty or of the wrong size.
pub open spec fn checked_batch(rs: Seq<ResponseFields>, expected: nat, empty_msg: Seq<char>) -> Result<
    Seq<ResponseFields>,
    LlmErrorView,
> {
    if rs.len() == 0 {
        Err(LlmErrorView::Provider(empty_msg))
    } else if rs.len() != expected {
        Err(LlmErrorView::Provider(count_msg(expected, rs.len())))
    } else {
        Ok(rs)
    }
}

/// One JSON reply: an object, or the first element of an array.
pub open spec fn json_parse(text: Seq<char>) -> Result<ResponseFields, LlmErrorView> {
    match json_document(cleaned(text)) {
        Err(m) => Err(LlmErrorView::Parse(m)),
        Ok(v) => match v {
            JsonValue::Array(a) => if a@.len() == 0 {
                Err(LlmErrorView::Provider("empty response array"@))
            } else {
                with_prefix("invalid citizen response: "@, json_response(a@[0]))
            },
            _ => with_prefix("invalid citizen response: "@, json_response(v)),
        },
    }
}

/// The responses of a JSON array, malformed entries read as empty.
pub open spec fn json_batch_responses(a: Seq<JsonValue>) -> Seq<ResponseFields> {
    a.map_values(|x: JsonValue| or_empty(json_response(x)))
}

/// A JSON batch reply: an array (or a single object) of exactly `expected`
/// responses; malformed entries become empty responses.
pub open spec fn json_parse_batch(text: Seq<char>, expected: nat) -> Result<
    Seq<ResponseFields>,
    LlmErrorView,
> {
    match json_document(cleaned(text)) {
        Err(m) => Err(LlmErrorView::Parse(m)),
        Ok(v) => match v {
            JsonValue::Array(a) => checked_batch(
                json_batch_responses(a@),
                expected,
                "empty response array"@,
            ),
            JsonValue::Object(_) => checked_batch(
                seq![or_empty(json_response(v))],
                expected,
                "empty response array"@,
            ),
            _ => Err(LlmErrorView::Provider("expected array or object"@)),
        },
    }
}

/// One YAML reply: a mapping of the response fields.
pub open spec fn yaml_parse(text: Seq<char>) -> Result<ResponseFields, LlmErrorView> {
    match yaml_document(cleaned(text)) {
        Err(m) => Err(LlmErrorView::Provider("YAML parse error: "@ + m)),
        Ok(v) => with_prefix("YAML parse error: "@, yaml_response(v)),
    }
}

/// The responses of a YAML sequence, malformed entries read as empty.
pub open spec fn yaml_batch_responses(s: Seq<YamlValue>) -> Seq<ResponseFields> {
    s.map_values(|x: YamlValue| or_empty(yaml_response(x)))
}

/// A YAML batch reply: a sequence of exactly `expected` responses
/// (malformed entries become empty), or a single valid mapping.
pub open spec fn yaml_parse_batch(text: Seq<char>, expected: nat) -> Result<
    Seq<ResponseFields>,
    LlmErrorView,
> {
    match yaml_document(cleaned(text)) {
        Err(m) => Err(LlmErrorView::Provider("YAML parse error: "@ + m)),
        Ok(v) => match v {
            YamlValue::Sequence(s) => checked_batch(
                yaml_batch_responses(s@),
                expected,
                "empty YAML response"@,
            ),
            YamlValue::Mapping(_) => match yaml_response(v) {
                Err(d) => Err(LlmErrorView::Provider("invalid citizen response: "@ + d)),
                Ok(f) => checked_batch(seq![f], expected, "empty YAML response"@),
            },
            _ => Err(LlmErrorView::Provider("expected YAML sequence or mapping"@)),
        },
    }
}

fn prefixed(prefix: &str, d: String) -> (s: String)
    ensures
        s@ == prefix@ + d@,
{
    let mut s = String::from_str(prefix);
    s.append(d.as_str());
    s
}

fn with_prefix_exec(prefix: &str, r: Result<CitizenResponse, String>) -> (out: Result<
    CitizenResponse,
    LlmError,
>)
    ensures
        parse_outcome(out) == with_prefix(
            prefix@,
            match r {
                Ok(c) => Ok(c@),
                Err(d) => Err(d@),
            },
        ),
{
    match r {
        Ok(c) => Ok(c),
        Err(d) => Err(LlmError::Provider(prefixed(prefix, d))),
    }
}

fn or_default(r: Result<CitizenResponse, String>) -> (c: CitizenResponse)
    ensures
        c@ == or_empty(
            match r {
                Ok(c) => Ok(c@),
                Err(d) => Err(d@),
            },
        ),
{
    match r {
        Ok(c) => c,
        Err(_) => CitizenResponse::default(),
    }
}

fn check_batch(rs: Vec<CitizenResponse>, expected: usize, empty_msg: &str) -> (r: Result<
    Vec<CitizenResponse>,
    LlmError,
>)
    ensures
        batch_outcome(r) == checked_batch(response_views(rs@), expected as nat, empty_msg@),
{
    if rs.len() == 0 {
        return Err(LlmError::Provider(String::from_str(empty_msg)));
    }
    if rs.len() != expected {
        let mut m = String::from_str("expected ");
        let e = decimal_string(expected as u64);
        m.append(e.as_str());
        m.append(" responses, got ");
        let g = decimal_string(rs.len() as u64);
        m.append(g.as_str());
        return Err(LlmError::Provider(m));
    }
    Ok(rs)
}

fn parse_json_reply(text: &str) -> (r: Result<CitizenResponse, LlmError>)
    ensures
        parse_outcome(r) == json_parse(text@),
{
    let c = clean_text(text);
    match read_json(c.as_str()) {
        Err(m) => Err(LlmError::Parse(m)),
        Ok(v) => {
            let res = match &v {
                JsonValue::Array(a) => {
                    if a.len() == 0 {
                        return Err(LlmError::Provider(String::from_str("empty response array")));
                    }
                    response_from_json(&a[0])
                },
                _ => response_from_json(&v),
            };
            with_prefix_exec("invalid citizen response: ", res)
        },
    }
}

fn parse_json_batch(text: &str, expected_count: usize) -> (r: Result<
    Vec<CitizenResponse>,
    LlmError,
>)
    ensures
        batch_outcome(r) == json_parse_batch(text@, expected_count as nat),
{
    let c = clean_text(text);
    match read_json(c.as_str()) {
        Err(m) => Err(LlmError::Parse(m)),
        Ok(v) => match &v {
            JsonValue::Array(a) => {
                let mut rs: Vec<CitizenResponse> = Vec::new();
                let mut i: usize = 0;
                while i < a.len()
                    invariant
                        i <= a@.len(),
                        rs@.len() == i,
                        response_views(rs@) == json_batch_responses(a@).take(i as int),
                    decreases a@.len() - i,
                {
                    let ghost old_rs = rs@;
                    rs.push(or_default(response_from_json(&a[i])));
                    proof {
                        assert forall|j: int| 0 <= j <= i implies #[trigger] response_views(
                            rs@,
                        )[j] == json_batch_responses(a@)[j] by {
                            if j < i {
                                assert(rs@[j] == old_rs[j]);
                                assert(response_views(old_rs)[j] == json_batch_responses(
                                    a@,
                                ).take(i as int)[j]);
                            }
                        }
                    }
                    i = i + 1;
                    assert(response_views(rs@) =~= json_batch_responses(a@).take(i as int));
                }
                assert(json_batch_responses(a@).take(a@.len() as int) =~= json_batch_responses(
                    a@,
                ));
                check_batch(rs, expected_count, "empty response array")
            },
            JsonValue::Object(_) => {
                let mut rs: Vec<CitizenResponse> = Vec::new();
                rs.push(or_default(response_from_json(&v)));
                assert(response_views(rs@) =~= seq![or_empty(json_response(v))]);
                check_batch(rs, expected_count, "empty response array")
            },
            _ => Err(LlmError::Provider(String::from_str("expected array or object"))),
        },
    }
}

fn parse_yaml_reply(text: &str) -> (r: Result<CitizenResponse, LlmError>)
    ensures
        parse_outcome(r) == yaml_parse(text@),
{
    let c = clean_text(text);
    match read_yaml(c.as_str()) {
        Err(m) => Err(LlmError::Provider(prefixed("YAML parse error: ", m))),
        Ok(v) => with_prefix_exec("YAML parse error: ", response_from_yaml(&v)),
    }
}

fn parse_yaml_batch(text: &str, expected_count: usize) -> (r: Result<
    Vec<CitizenResponse>,
    LlmError,
>)
    ensures
        batch_outcome(r) == yaml_parse_batch(text@, expected_count as nat),
{
    let c = clean_text(text);
    match read_yaml(c.as_str()) {
        Err(m) => Err(LlmError::Provider(prefixed("YAML parse error: ", m))),
        Ok(v) => match &v {
            YamlValue::Sequence(s) => {
                let mut rs: Vec<CitizenResponse> = Vec::new();
                let mut i: usize = 0;
                while i < s.len()
                    invariant
                        i <= s@.len(),
                        rs@.len() == i,
                        response_views(rs@) == yaml_batch_responses(s@).take(i as int),
                    decreases s@.len() - i,
                {
                    let ghost old_rs = rs@;
                    rs.push(or_default(response_from_yaml(&s[i])));
                    proof {
                        assert forall|j: int| 0 <= j <= i implies #[trigger] response_views(
                            rs@,
                        )[j] == yaml_batch_responses(s@)[j] by {
                            if j < i {
                                assert(rs@[j] == old_rs[j]);
                                assert(response_views(old_rs)[j] == yaml_batch_responses(
                                    s@,
                                ).take(i as int)[j]);
                            }
                        }
                    }
                    i = i + 1;
                    assert(response_views(rs@) =~= yaml_batch_responses(s@).take(i as int));
                }
                assert(yaml_batch_responses(s@).take(s@.len() as int) =~= yaml_batch_responses(
                    s@,
                ));
                check_batch(rs, expected_count, "empty YAML response")
            },
            YamlValue::Mapping(_) => match response_from_yaml(&v) {
                Err(d) => Err(LlmError::Provider(prefixed("invalid citizen response: ", d))),
                Ok(f) => {
                    let mut rs: Vec<CitizenResponse> = Vec::new();
                    rs.push(f);
                    assert(response_views(rs@) =~= seq![rs@[0]@]);
                    check_batch(rs, expected_count, "empty YAML response")
                },
            },
            _ => Err(LlmError::Provider(String::from_str("expected YAML sequence or mapping"))),
        },
    }
}

/// Format-agnostic response parser, for JSON, YAML or another format.
pub trait ResponseParser {
    fn parse_response(&self, text: &str) -> Result<CitizenResponse, LlmError>;

    fn parse_batch_response(&self, text: &str, expected_count: usize) -> Result<
        Vec<CitizenResponse>,
        LlmError,
    >;
}

/// Reads replies written as JSON.
pub struct JsonResponseParser;

/// Reads replies written as YAML.
pub struct YamlResponseParser;

impl ResponseParser for JsonResponseParser {
    /// One response from a JSON object, or from the first element of a JSON
    /// array.
    fn parse_response(&self, text: &str) -> (r: Result<CitizenResponse, LlmError>)
        ensures
            parse_outcome(r) == json_parse(text@),
    {
        parse_json_reply(text)
    }

    /// Exactly `expected_count` responses from a JSON array (or one object);
    /// malformed entries become empty responses.
    fn parse_batch_response(&self, text: &str, expected_count: usize) -> (r: Result<
        Vec<CitizenResponse>,
        LlmError,
    >)
        ensures
            batch_outcome(r) == json_parse_batch(text@, expected_count as nat),
    {
        parse_json_batch(text, expected_count)
    }
}

impl ResponseParser for YamlResponseParser {
    /// One response from a YAML mapping.
    fn parse_response(&self, text: &str) -> (r: Result<CitizenResponse, LlmError>)
        ensures
            parse_outcome(r) == yaml_parse(text@),
    {
        parse_yaml_reply(text)
    }

    /// Exactly `expected_count` responses from a YAML sequence (malformed
    /// entries become empty), or one from a mapping.
    fn parse_batch_response(&self, text: &str, expected_count: usize) -> (r: Result<
        Vec<CitizenResponse>,
        LlmError,
    >)
        ensures
            batch_outcome(r) == yaml_parse_batch(text@, expected_count as nat),
    {
        parse_yaml_batch(text, expected_count)
    }
}

/// Reads one JSON reply, as `JsonResponseParser` does.
pub fn parse_response(text: &str) -> (r: Result<CitizenResponse, LlmError>)
    ensures
        parse_outcome(r) == json_parse(text@),
{
    parse_json_reply(text)
}

/// Reads a JSON batch reply, as `JsonResponseParser` does.
pub fn parse_batch_response(text: &str, expected_count: usize) -> (r: Result<
    Vec<CitizenResponse>,
    LlmError,
>)
    ensures
        batch_outcome(r) == json_parse_batch(text@, expected_count as nat),
{
    parse_json_batch(text, expected_count)
}

} // verus!
