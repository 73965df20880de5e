//! The history store: the ordered log of entered lines and its transcript.
//!
//! An entry is a line that is not empty and holds no line feed. The transcript
//! holds one entry per line, in the order of entry, each ended by a line feed.
//! Nothing is deduplicated and nothing is capped.

use vstd::prelude::*;
use vstd::string::*;
use crate::split::{
    all_pieces, is_piece, lemma_runs_are_pieces, lemma_runs_of_piece,
    lemma_runs_split_at_separator, runs_of, split_runs, Separator,
};
use crate::text::{chars_of, lemma_views_push, push_char, views};

verus! {

/// Whether `line` can be an entry: not empty, and free of line feeds.
pub open spec fn is_entry(line: Seq<char>) -> bool {
    is_piece(Separator::LineFeed, line)
}

/// The transcript of `entries`: each entry followed by a line feed.
pub open spec fn transcript(entries: Seq<Seq<char>>) -> Seq<char>
    decreases entries.len(),
{
    if entries.len() == 0 {
        Seq::empty()
    } else {
        entries[0] + seq!['\n'] + transcript(entries.drop_first())
    }
}

/// The entries that a transcript holds: its non-empty lines, in order.
pub open spec fn entries_of(text: Seq<char>) -> Seq<Seq<char>> {
    runs_of(Separator::LineFeed, text)
}

/// Reading back a transcript gives the entries it was written from, in the same
/// order and with every repetition.
pub proof fn lemma_transcript_round_trip(entries: Seq<Seq<char>>)
    requires
        all_pieces(Separator::LineFeed, entries),
    ensures
        entries_of(transcript(entries)) == entries,
    decreases entries.len(),
{
    if entries.len() == 0 {
        assert(entries_of(transcript(entries)) =~= entries);
    } else {
        let rest = entries.drop_first();
        assert(all_pieces(Separator::LineFeed, rest)) by {
            assert forall|i: int| 0 <= i < rest.len() implies is_piece(
                Separator::LineFeed,
                #[trigger] rest[i],
            ) by {
                assert(rest[i] == entries[i + 1]);
            }
        }
        lemma_transcript_round_trip(rest);
        lemma_runs_split_at_separator(Separator::LineFeed, entries[0], '\n', transcript(rest));
        lemma_runs_of_piece(Separator::LineFeed, entries[0]);
        assert(seq![entries[0]] + rest =~= entries);
    }
}

/// Whatever text is read back, each entry found is a valid one.
pub proof fn lemma_entries_of_are_entries(text: Seq<char>)
    ensures
        all_pieces(Separator::LineFeed, entries_of(text)),
{
    lemma_runs_are_pieces(Separator::LineFeed, text);
}

/// Whether `line` is not empty and free of line feeds.
pub fn is_entry_line(line: &str) -> (b: bool)
    ensures
        b == is_entry(line@),
{
    let chars: Vec<char> = chars_of(line);
    if chars.len() == 0 {
        return false;
    }
    let mut i: usize = 0;
    while i < chars.len()
        invariant
            i <= chars@.len(),
            chars@ == line@,
            forall|k: int| 0 <= k < i ==> #[trigger] chars@[k] != '\n',
        decreases chars@.len() - i,
    {
        if chars[i] == '\n' {
            assert(Separator::LineFeed.separates(line@[i as int]));
            return false;
        }
        i += 1;
    }
    true
}

/// The ordered log of entered lines.
#[derive(Debug)]
pub struct History {
    entries: Vec<String>,
}

impl View for History {
    type V = Seq<Seq<char>>;

    closed spec fn view(&self) -> Seq<Seq<char>> {
        views(self.entries@)
    }
}

impl History {
    #[verifier::type_invariant]
    spec fn well_formed(&self) -> bool {
        all_pieces(Separator::LineFeed, views(self.entries@))
    }

    /// The empty history.
    pub fn new() -> (history: History)
        ensures
            history@ == Seq::<Seq<char>>::empty(),
    {
        let history = History { entries: Vec::new() };
        assert(history@ =~= Seq::<Seq<char>>::empty());
        history
    }

    /// The number of entries.
    pub fn len(&self) -> (n: usize)
        ensures
            n == self@.len(),
    {
        self.entries.len()
    }

    /// Appends `line` where it is a valid entry, and says whether it was.
    pub fn record(&mut self, line: &str) -> (recorded: bool)
        ensures
            recorded == is_entry(line@),
            recorded ==> final(self)@ == old(self)@.push(line@),
            !recorded ==> final(self)@ == old(self)@,
    {
        proof {
            use_type_invariant(&*self);
        }
        if !is_entry_line(line) {
            return false;
        }
        let entry: String = String::from_str(line);
        let mut taken: History = History { entries: Vec::new() };
        std::mem::swap(self, &mut taken);
        let mut entries: Vec<String> = taken.entries;
        proof {
            lemma_views_push(entries@, entry);
        }
        entries.push(entry);
        *self = History { entries };
        true
    }

    /// A copy of the entries, oldest first. Each is a valid entry.
    pub fn entries(&self) -> (out: Vec<String>)
        ensures
            views(out@) == self@,
            all_pieces(Separator::LineFeed, self@),
    {
        proof {
            use_type_invariant(self);
        }
        let mut out: Vec<String> = Vec::new();
        let mut i: usize = 0;
        while i < self.entries.len()
            invariant
                i <= self.entries@.len(),
                views(out@) == views(self.entries@).subrange(0, i as int),
            decreases self.entries@.len() - i,
        {
            let entry: String = self.entries[i].clone();
            proof {
                lemma_views_push(out@, entry);
                assert(entry@ == views(self.entries@)[i as int]);
                assert(views(out@).push(entry@) =~= views(self.entries@).subrange(0, i + 1));
            }
            out.push(entry);
            i += 1;
        }
        assert(views(self.entries@).subrange(0, self.entries@.len() as int) =~= views(
            self.entries@,
        ));
        out
    }

    /// The transcript of this history. Reading it back gives the same entries.
    pub fn render(&self) -> (text: String)
        ensures
            text@ == transcript(self@),
            entries_of(text@) == self@,
    {
        proof {
            use_type_invariant(self);
            lemma_transcript_round_trip(self@);
        }
        let mut text: String = String::new();
        let mut i: usize = 0;
        let ghost all = views(self.entries@);
        assert(all.skip(0) =~= all);
        while i < self.entries.len()
            invariant
                i <= self.entries@.len(),
                all == views(self.entries@),
                text@ + transcript(all.skip(i as int)) == transcript(all),
            decreases self.entries@.len() - i,
        {
            let ghost before = text@;
            text.append(self.entries[i].as_str());
            push_char(&mut text, '\n');
            proof {
                let rest = all.skip(i as int);
                assert(rest[0] == self.entries@[i as int]@);
                assert(rest.drop_first() =~= all.skip(i + 1));
                assert(text@ + transcript(all.skip(i + 1)) =~= before + (rest[0] + seq!['\n']
                    + transcript(rest.drop_first())));
            }
            i += 1;
        }
        assert(text@ + Seq::<char>::empty() =~= text@);
        text
    }

    /// Reads a transcript back: its non-empty lines, in order. A last line
    /// without a line feed counts too.
    pub fn parse(text: &str) -> (history: History)
        ensures
            history@ == entries_of(text@),
    {
        let entries: Vec<String> = split_runs(text, Separator::LineFeed);
        proof {
            lemma_runs_are_pieces(Separator::LineFeed, text@);
        }
        History { entries }
    }
}

} // verus!
