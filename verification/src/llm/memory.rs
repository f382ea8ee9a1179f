//! Citizen memory: a log of timestamped entries whose oldest part is
//! periodically replaced by a language-model summary.
use vstd::prelude::*;

use crate::text::{decimal, decimal_string, join, lemma_join_take, lemma_take_all};

verus! {

/// More entries than this call for compression.
pub const COMPRESS_THRESHOLD: usize = 64;

/// Number of oldest entries replaced by one summary.
pub const COMPRESS_OLDEST_COUNT: usize = 48;

/// A single memory entry for a citizen.
#[derive(Debug, PartialEq)]
pub struct MemoryEntry {
    pub tick: u64,
    pub content: String,
}

impl Clone for MemoryEntry {
    fn clone(&self) -> (r: MemoryEntry)
        ensures
            r == *self,
    {
        MemoryEntry { tick: self.tick, content: self.content.clone() }
    }
}

/// Citizen memory buffer with compression support.
#[derive(Debug, Clone)]
pub struct MemoryBuffer {
    entries: Vec<MemoryEntry>,
}

/// Result of checking whether compression is needed.
#[derive(Debug, Clone, PartialEq)]
pub enum CompressionCheck {
    /// No compression needed.
    NotNeeded,
    /// These entries should be summarized, then passed to `apply_compression`.
    NeedsCompression { entries_to_compress: Vec<MemoryEntry> },
}

impl View for MemoryBuffer {
    type V = Seq<MemoryEntry>;

    closed spec fn view(&self) -> Seq<MemoryEntry> {
        self.entries@
    }
}

/// One entry as a prompt line: `[tick N] content`.
pub open spec fn entry_line(e: MemoryEntry) -> Seq<char> {
    "[tick "@ + decimal(e.tick as nat) + "] "@ + e.content@
}

/// The prompt lines of a sequence of entries.
pub open spec fn entry_lines(es: Seq<MemoryEntry>) -> Seq<Seq<char>> {
    es.map_values(|e: MemoryEntry| entry_line(e))
}

/// Instruction line that opens a compression prompt.
pub open spec fn compression_header() -> Seq<char> {
    "Summarize the following memory entries into a single concise paragraph. Preserve key facts, relationships, and emotional events. Respond with just the summary text."@
}

/// The compression prompt: the instruction, an empty line, then one line
/// per entry, joined by newlines.
pub open spec fn compression_prompt(es: Seq<MemoryEntry>) -> Seq<char> {
    join(seq![compression_header(), Seq::empty()] + entry_lines(es), "\n"@)
}

/// The entry that replaces the compressed ones.
pub open spec fn summary_entry(tick: u64, summary: Seq<char>, e: MemoryEntry) -> bool {
    e.tick == tick && e.content@ == "[summary] "@ + summary
}

/// Appends `[tick N] content` to `out`.
fn push_entry_line(out: &mut String, e: &MemoryEntry)
    ensures
        final(out)@ == old(out)@ + entry_line(*e),
{
    out.append("[tick ");
    let digits = decimal_string(e.tick);
    out.append(digits.as_str());
    out.append("] ");
    out.append(e.content.as_str());
    assert(final(out)@ =~= old(out)@ + entry_line(*e));
}

impl MemoryBuffer {
    pub fn new() -> (b: MemoryBuffer)
        ensures
            b@ == Seq::<MemoryEntry>::empty(),
    {
        MemoryBuffer { entries: Vec::new() }
    }

    /// Record `content` at `tick`, after all earlier entries.
    pub fn push(&mut self, tick: u64, content: String)
        ensures
            final(self)@.len() == old(self)@.len() + 1,
            final(self)@.drop_last() == old(self)@,
            final(self)@.last().tick == tick,
            final(self)@.last().content == content,
    {
        self.entries.push(MemoryEntry { tick, content });
        assert(self@.drop_last() =~= old(self)@);
    }

    pub fn len(&self) -> (n: usize)
        ensures
            n == self@.len(),
    {
        self.entries.len()
    }

    pub fn is_empty(&self) -> (b: bool)
        ensures
            b == (self@.len() == 0),
    {
        self.entries.len() == 0
    }

    pub fn entries(&self) -> (es: &[MemoryEntry])
        ensures
            es@ == self@,
    {
        self.entries.as_slice()
    }

    /// All entries as `[tick N] content` lines joined by newlines.
    pub fn to_prompt_text(&self) -> (s: String)
        ensures
            s@ == join(entry_lines(self@), "\n"@),
    {
        let ghost lines = entry_lines(self@);
        let mut out = String::new();
        let mut i: usize = 0;
        while i < self.entries.len()
            invariant
                i <= self.entries@.len(),
                lines == entry_lines(self.entries@),
                out@ == join(lines.take(i as int), "\n"@),
            decreases self.entries@.len() - i,
        {
            if i > 0 {
                out.append("\n");
                proof {
                    lemma_join_take(lines, "\n"@, i as int);
                }
            } else {
                assert(lines.take(1) =~= seq![lines[0]]);
            }
            push_entry_line(&mut out, &self.entries[i]);
            i = i + 1;
        }
        proof {
            lemma_take_all(lines);
        }
        out
    }

    /// `NeedsCompression` with the `COMPRESS_OLDEST_COUNT` oldest entries
    /// when there are more than `COMPRESS_THRESHOLD` entries, else
    /// `NotNeeded`.
    pub fn check_compression(&self) -> (c: CompressionCheck)
        ensures
            self@.len() <= COMPRESS_THRESHOLD ==> c is NotNeeded,
            self@.len() > COMPRESS_THRESHOLD ==> (c matches CompressionCheck::NeedsCompression {
                entries_to_compress,
            } && entries_to_compress@ == self@.take(COMPRESS_OLDEST_COUNT as int)),
    {
        if self.entries.len() <= COMPRESS_THRESHOLD {
            return CompressionCheck::NotNeeded;
        }
        let mut out: Vec<MemoryEntry> = Vec::new();
        let mut i: usize = 0;
        while i < COMPRESS_OLDEST_COUNT
            invariant
                i <= COMPRESS_OLDEST_COUNT < self.entries@.len(),
                out@ == self.entries@.take(i as int),
            decreases COMPRESS_OLDEST_COUNT - i,
        {
            out.push(self.entries[i].clone());
            i = i + 1;
            assert(out@ =~= self.entries@.take(i as int));
        }
        CompressionCheck::NeedsCompression { entries_to_compress: out }
    }

    /// Replace the `COMPRESS_OLDEST_COUNT` oldest entries with one
    /// `[summary] ...` entry stamped with the tick of the newest replaced
    /// entry. Does nothing when there are no more entries than that.
    pub fn apply_compression(&mut self, summary: String)
        ensures
            old(self)@.len() <= COMPRESS_OLDEST_COUNT ==> final(self)@ == old(self)@,
            old(self)@.len() > COMPRESS_OLDEST_COUNT ==> {
                &&& final(self)@.len() == old(self)@.len() - COMPRESS_OLDEST_COUNT + 1
                &&& summary_entry(
                    old(self)@[COMPRESS_OLDEST_COUNT - 1].tick,
                    summary@,
                    final(self)@[0],
                )
                &&& final(self)@.drop_first() == old(self)@.skip(COMPRESS_OLDEST_COUNT as int)
            },
    {
        if self.entries.len() <= COMPRESS_OLDEST_COUNT {
            return ;
        }
        let summary_tick = self.entries[COMPRESS_OLDEST_COUNT - 1].tick;
        let mut remaining = self.entries.split_off(COMPRESS_OLDEST_COUNT);
        let mut content = String::from_str("[summary] ");
        content.append(summary.as_str());
        let mut fresh: Vec<MemoryEntry> = Vec::new();
        fresh.push(MemoryEntry { tick: summary_tick, content });
        fresh.append(&mut remaining);
        self.entries = fresh;
        assert(self@.drop_first() =~= old(self)@.skip(COMPRESS_OLDEST_COUNT as int));
    }

    /// Prompt asking the language model to summarize `entries`.
    pub fn build_compression_prompt(entries: &[MemoryEntry]) -> (s: String)
        ensures
            s@ == compression_prompt(entries@),
    {
        let ghost parts = seq![compression_header(), Seq::<char>::empty()] + entry_lines(entries@);
        let mut out = String::from_str(
            "Summarize the following memory entries into a single concise paragraph. Preserve key facts, relationships, and emotional events. Respond with just the summary text.",
        );
        out.append("\n");
        proof {
            assert(parts.take(1) =~= seq![compression_header()]);
            lemma_join_take(parts, "\n"@, 1);
            assert(out@ =~= join(parts.take(2), "\n"@));
        }
        let mut i: usize = 0;
        while i < entries.len()
            invariant
                i <= entries@.len(),
                parts == seq![compression_header(), Seq::<char>::empty()] + entry_lines(entries@),
                out@ == join(parts.take(i + 2), "\n"@),
            decreases entries@.len() - i,
        {
            out.append("\n");
            push_entry_line(&mut out, &entries[i]);
            proof {
                lemma_join_take(parts, "\n"@, i + 2);
            }
            i = i + 1;
        }
        proof {
            lemma_take_all(parts);
        }
        out
    }
}

impl Default for MemoryBuffer {
    fn default() -> (b: MemoryBuffer)
        ensures
            b@ == Seq::<MemoryEntry>::empty(),
    {
        MemoryBuffer::new()
    }
}

/// Compressing what `check_compression` selected: when a buffer needs
/// compression, `apply_compression` replaces exactly the selected entries
/// with one summary entry stamped with the last selected entry's tick, and
/// keeps every later entry in order.
pub proof fn lemma_compression_replaces_selected(
    before: Seq<MemoryEntry>,
    selected: Seq<MemoryEntry>,
    after: Seq<MemoryEntry>,
    summary: Seq<char>,
)
    requires
        before.len() > COMPRESS_THRESHOLD,
        selected == before.take(COMPRESS_OLDEST_COUNT as int),
        after.len() == before.len() - COMPRESS_OLDEST_COUNT + 1,
        summary_entry(before[COMPRESS_OLDEST_COUNT - 1].tick, summary, after[0]),
        after.drop_first() == before.skip(COMPRESS_OLDEST_COUNT as int),
    ensures
        before == selected + after.drop_first(),
        summary_entry(selected.last().tick, summary, after[0]),
        after.len() == before.len() - selected.len() + 1,
{
    assert(before =~= selected + after.drop_first());
}

} // verus!
