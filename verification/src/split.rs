//! Cutting a text into the pieces that lie between separator characters.
//!
//! Both the tokens of an input line and the entries of a history transcript are
//! such pieces: maximal runs of characters that are not separators. Empty pieces
//! do not exist: two separators in a row have nothing between them.

use vstd::prelude::*;
use vstd::string::*;
use crate::text::{chars_of, push_char, string_of, views};

verus! {

/// Which characters separate the pieces of a text.
#[derive(Clone, Copy, Debug, PartialEq, Eq, Structural)]
pub enum Separator {
    /// ASCII whitespace: space, tab, line feed, form feed, carriage return.
    Whitespace,
    /// The line feed alone.
    LineFeed,
}

/// ASCII whitespace: space, tab, line feed, form feed, carriage return.
pub open spec fn is_space(c: char) -> bool {
    c == ' ' || c == '\t' || c == '\n' || c == '\x0C' || c == '\r'
}

impl Separator {
    /// Whether `c` is a separator.
    pub open spec fn separates(self, c: char) -> bool {
        match self {
            Separator::Whitespace => is_space(c),
            Separator::LineFeed => c == '\n',
        }
    }

    /// Whether `c` is a separator.
    pub fn test(self, c: char) -> (b: bool)
        ensures
            b == self.separates(c),
    {
        match self {
            Separator::Whitespace => c == ' ' || c == '\t' || c == '\n' || c == '\x0C' || c
                == '\r',
            Separator::LineFeed => c == '\n',
        }
    }
}

/// A piece: at least one character, none of them a separator.
pub open spec fn is_piece(sep: Separator, w: Seq<char>) -> bool {
    w.len() > 0 && forall|i: int| 0 <= i < w.len() ==> !sep.separates(#[trigger] w[i])
}

/// Whether every element of `ws` is a piece.
pub open spec fn all_pieces(sep: Separator, ws: Seq<Seq<char>>) -> bool {
    forall|i: int| 0 <= i < ws.len() ==> is_piece(sep, #[trigger] ws[i])
}

/// Whether every character of `s` is a separator (true of the empty text).
pub open spec fn only_separators(sep: Separator, s: Seq<char>) -> bool {
    forall|i: int| 0 <= i < s.len() ==> sep.separates(#[trigger] s[i])
}

/// The length of the run of non-separator characters at the start of `s`.
pub open spec fn run_len(sep: Separator, s: Seq<char>) -> nat
    decreases s.len(),
{
    if s.len() == 0 || sep.separates(s[0]) {
        0
    } else {
        1 + run_len(sep, s.drop_first())
    }
}

/// The pieces of `s`: its maximal runs of non-separator characters, in order.
pub open spec fn runs_of(sep: Separator, s: Seq<char>) -> Seq<Seq<char>>
    decreases s.len(),
{
    if s.len() == 0 {
        Seq::empty()
    } else if sep.separates(s[0]) {
        runs_of(sep, s.drop_first())
    } else {
        proof {
            lemma_run_len_bounds(sep, s);
        }
        seq![s.subrange(0, run_len(sep, s) as int)] + runs_of(
            sep,
            s.subrange(run_len(sep, s) as int, s.len() as int),
        )
    }
}

/// The leading run never exceeds the text, and is not empty when the text starts
/// with a character that is no separator.
pub proof fn lemma_run_len_bounds(sep: Separator, s: Seq<char>)
    ensures
        run_len(sep, s) <= s.len(),
        s.len() > 0 && !sep.separates(s[0]) ==> run_len(sep, s) >= 1,
    decreases s.len(),
{
    if s.len() > 0 && !sep.separates(s[0]) {
        lemma_run_len_bounds(sep, s.drop_first());
    }
}

/// The leading run is exactly `k` long when the first `k` characters are no
/// separators and the text ends there or goes on with a separator.
pub proof fn lemma_run_len_is(sep: Separator, s: Seq<char>, k: int)
    requires
        0 <= k <= s.len(),
        forall|i: int| 0 <= i < k ==> !sep.separates(#[trigger] s[i]),
        k == s.len() || sep.separates(s[k]),
    ensures
        run_len(sep, s) == k,
    decreases k,
{
    if k > 0 {
        let rest = s.drop_first();
        assert forall|i: int| 0 <= i < k - 1 implies !sep.separates(#[trigger] rest[i]) by {
            assert(rest[i] == s[i + 1]);
        }
        lemma_run_len_is(sep, rest, k - 1);
    }
}

/// No character of the leading run is a separator, and the run stops at the end
/// of the text or at a separator.
pub proof fn lemma_run_len_run(sep: Separator, s: Seq<char>)
    ensures
        run_len(sep, s) <= s.len(),
        forall|i: int| 0 <= i < run_len(sep, s) ==> !sep.separates(#[trigger] s[i]),
        run_len(sep, s) == s.len() || sep.separates(s[run_len(sep, s) as int]),
    decreases s.len(),
{
    if s.len() > 0 && !sep.separates(s[0]) {
        let rest = s.drop_first();
        lemma_run_len_run(sep, rest);
        assert forall|i: int| 0 <= i < run_len(sep, s) implies !sep.separates(
            #[trigger] s[i],
        ) by {
            if i > 0 {
                assert(s[i] == rest[i - 1]);
            }
        }
        if run_len(sep, s) < s.len() {
            assert(s[run_len(sep, s) as int] == rest[run_len(sep, rest) as int]);
        }
    }
}

/// Every element of `runs_of` is a piece: not empty, and free of separators.
pub proof fn lemma_runs_are_pieces(sep: Separator, s: Seq<char>)
    ensures
        all_pieces(sep, runs_of(sep, s)),
    decreases s.len(),
{
    if s.len() == 0 {
        assert(runs_of(sep, s).len() == 0);
    } else if sep.separates(s[0]) {
        lemma_runs_are_pieces(sep, s.drop_first());
        assert(runs_of(sep, s) == runs_of(sep, s.drop_first()));
    } else {
        lemma_run_len_bounds(sep, s);
        lemma_run_len_run(sep, s);
        let n = run_len(sep, s) as int;
        let rest = s.subrange(n, s.len() as int);
        lemma_runs_are_pieces(sep, rest);
        let head = s.subrange(0, n);
        assert(is_piece(sep, head)) by {
            assert forall|i: int| 0 <= i < head.len() implies !sep.separates(
                #[trigger] head[i],
            ) by {
                assert(head[i] == s[i]);
            }
        }
        assert(runs_of(sep, s) == seq![head] + runs_of(sep, rest));
        assert forall|i: int| 0 <= i < runs_of(sep, s).len() implies is_piece(
            sep,
            #[trigger] runs_of(sep, s)[i],
        ) by {
            if i > 0 {
                assert(runs_of(sep, s)[i] == runs_of(sep, rest)[i - 1]);
            } else {
                assert(runs_of(sep, s)[0] == head);
            }
        }
    }
}

/// A text has no piece exactly when it holds separators only.
pub proof fn lemma_no_runs_iff_only_separators(sep: Separator, s: Seq<char>)
    ensures
        runs_of(sep, s).len() == 0 <==> only_separators(sep, s),
    decreases s.len(),
{
    if s.len() == 0 {
    } else if sep.separates(s[0]) {
        let rest = s.drop_first();
        lemma_no_runs_iff_only_separators(sep, rest);
        if only_separators(sep, rest) {
            assert forall|i: int| 0 <= i < s.len() implies sep.separates(#[trigger] s[i]) by {
                if i > 0 {
                    assert(s[i] == rest[i - 1]);
                }
            }
        }
        if only_separators(sep, s) {
            assert forall|i: int| 0 <= i < rest.len() implies sep.separates(
                #[trigger] rest[i],
            ) by {
                assert(rest[i] == s[i + 1]);
            }
        }
    } else {
        lemma_run_len_bounds(sep, s);
        assert(!sep.separates(s[0]));
    }
}

/// A piece is its own single run.
pub proof fn lemma_runs_of_piece(sep: Separator, w: Seq<char>)
    requires
        is_piece(sep, w),
    ensures
        runs_of(sep, w) == seq![w],
{
    lemma_run_len_is(sep, w, w.len() as int);
    assert(w.subrange(0, w.len() as int) =~= w);
    assert(w.subrange(w.len() as int, w.len() as int) =~= Seq::<char>::empty());
    assert(runs_of(sep, Seq::<char>::empty()) =~= Seq::<Seq<char>>::empty());
    assert(seq![w] + Seq::<Seq<char>>::empty() =~= seq![w]);
}

/// Cutting at a separator: the pieces of `a`, the separator `c` and `b` together
/// are the pieces of `a` followed by those of `b`.
pub proof fn lemma_runs_split_at_separator(sep: Separator, a: Seq<char>, c: char, b: Seq<char>)
    requires
        sep.separates(c),
    ensures
        runs_of(sep, a + seq![c] + b) == runs_of(sep, a) + runs_of(sep, b),
    decreases a.len(),
{
    let s = a + seq![c] + b;
    if a.len() == 0 {
        assert(s[0] == c);
        assert(s.drop_first() =~= b);
        assert(runs_of(sep, a) =~= Seq::<Seq<char>>::empty());
        assert(runs_of(sep, a) + runs_of(sep, b) =~= runs_of(sep, b));
    } else if sep.separates(a[0]) {
        assert(s[0] == a[0]);
        assert(s.drop_first() =~= a.drop_first() + seq![c] + b);
        lemma_runs_split_at_separator(sep, a.drop_first(), c, b);
    } else {
        lemma_run_len_bounds(sep, a);
        lemma_run_len_run(sep, a);
        let k = run_len(sep, a) as int;
        assert(s[0] == a[0]);
        assert forall|i: int| 0 <= i < k implies !sep.separates(#[trigger] s[i]) by {
            assert(s[i] == a[i]);
        }
        if k == a.len() {
            assert(s[k] == c);
        } else {
            assert(s[k] == a[k]);
        }
        lemma_run_len_is(sep, s, k);
        let a_rest = a.subrange(k, a.len() as int);
        assert(s.subrange(0, k) =~= a.subrange(0, k));
        assert(s.subrange(k, s.len() as int) =~= a_rest + seq![c] + b);
        lemma_runs_split_at_separator(sep, a_rest, c, b);
        assert(runs_of(sep, s) == seq![a.subrange(0, k)] + runs_of(sep, a_rest + seq![c] + b));
        assert(runs_of(sep, a) == seq![a.subrange(0, k)] + runs_of(sep, a_rest));
        assert(seq![a.subrange(0, k)] + (runs_of(sep, a_rest) + runs_of(sep, b)) =~= (seq![
            a.subrange(0, k),
        ] + runs_of(sep, a_rest)) + runs_of(sep, b));
    }
}

/// `words` written one after the other with a single space between neighbours.
pub open spec fn joined(words: Seq<Seq<char>>) -> Seq<char>
    decreases words.len(),
{
    if words.len() == 0 {
        Seq::empty()
    } else if words.len() == 1 {
        words[0]
    } else {
        words[0] + seq![' '] + joined(words.drop_first())
    }
}

/// Joining words with spaces and splitting the text at whitespace gives the
/// words back.
pub proof fn lemma_split_of_joined(words: Seq<Seq<char>>)
    requires
        all_pieces(Separator::Whitespace, words),
    ensures
        runs_of(Separator::Whitespace, joined(words)) == words,
    decreases words.len(),
{
    let sep = Separator::Whitespace;
    if words.len() == 0 {
        assert(runs_of(sep, joined(words)) =~= words);
    } else if words.len() == 1 {
        lemma_runs_of_piece(sep, words[0]);
        assert(seq![words[0]] =~= words);
    } else {
        let rest = words.drop_first();
        assert(all_pieces(sep, rest)) by {
            assert forall|i: int| 0 <= i < rest.len() implies is_piece(sep, #[trigger] rest[i]) by {
                assert(rest[i] == words[i + 1]);
            }
        }
        lemma_split_of_joined(rest);
        lemma_runs_split_at_separator(sep, words[0], ' ', joined(rest));
        lemma_runs_of_piece(sep, words[0]);
        assert(seq![words[0]] + rest =~= words);
    }
}

/// Joins `words[from..]` with single spaces.
pub fn join_from(words: &Vec<String>, from: usize) -> (text: String)
    requires
        from <= words@.len(),
    ensures
        text@ == joined(views(words@).skip(from as int)),
{
    let ghost all = views(words@);
    let mut text: String = String::new();
    if from == words.len() {
        assert(all.skip(from as int) =~= Seq::<Seq<char>>::empty());
        return text;
    }
    text.append(words[from].as_str());
    let mut i: usize = from + 1;
    assert(text@ =~= all[from as int]);
    proof {
        let tail = all.skip(from as int);
        assert(tail[0] == all[from as int]);
        assert(tail.drop_first() =~= all.skip(from + 1));
    }
    while i < words.len()
        invariant
            from < i <= words@.len(),
            all == views(words@),
            text@ + (if i < all.len() {
                seq![' '] + joined(all.skip(i as int))
            } else {
                Seq::<char>::empty()
            }) == joined(all.skip(from as int)),
        decreases words@.len() - i,
    {
        let ghost before = text@;
        push_char(&mut text, ' ');
        text.append(words[i].as_str());
        proof {
            let tail = all.skip(i as int);
            assert(tail[0] == words@[i as int]@);
            assert(tail.drop_first() =~= all.skip(i + 1));
            if i + 1 < all.len() {
                assert(text@ + (seq![' '] + joined(all.skip(i + 1))) =~= before + (seq![' '] + (
                tail[0] + seq![' '] + joined(tail.drop_first()))));
            } else {
                assert(text@ + Seq::<char>::empty() =~= before + (seq![' '] + tail[0]));
            }
        }
        i += 1;
    }
    assert(text@ + Seq::<char>::empty() =~= text@);
    text
}

/// Splits `text` into its pieces.
pub fn split_runs(text: &str, sep: Separator) -> (pieces: Vec<String>)
    ensures
        views(pieces@) == runs_of(sep, text@),
{
    let chars: Vec<char> = chars_of(text);
    let n: usize = chars.len();
    let mut pieces: Vec<String> = Vec::new();
    let mut i: usize = 0;
    assert(chars@.subrange(0, n as int) =~= chars@);
    while i < n
        invariant
            n == chars@.len(),
            i <= n,
            views(pieces@) + runs_of(sep, chars@.subrange(i as int, n as int)) == runs_of(
                sep,
                chars@,
            ),
        decreases n - i,
    {
        let ghost tail = chars@.subrange(i as int, n as int);
        if sep.test(chars[i]) {
            assert(tail.drop_first() =~= chars@.subrange(i + 1, n as int));
            i += 1;
        } else {
            let mut j: usize = i + 1;
            while j < n && !sep.test(chars[j])
                invariant
                    n == chars@.len(),
                    i < j <= n,
                    forall|k: int| i <= k < j ==> !sep.separates(#[trigger] chars@[k]),
                decreases n - j,
            {
                j += 1;
            }
            let piece: String = string_of(&chars, i, j);
            proof {
                assert forall|k: int| 0 <= k < j - i implies !sep.separates(
                    #[trigger] tail[k],
                ) by {
                    assert(tail[k] == chars@[i + k]);
                }
                lemma_run_len_is(sep, tail, j - i);
                assert(tail.subrange(0, j - i) =~= chars@.subrange(i as int, j as int));
                assert(tail.subrange(j - i, tail.len() as int) =~= chars@.subrange(
                    j as int,
                    n as int,
                ));
                let rest = runs_of(sep, chars@.subrange(j as int, n as int));
                assert(runs_of(sep, tail) == seq![piece@] + rest);
                assert(views(pieces@.push(piece)) =~= views(pieces@).push(piece@));
                assert(views(pieces@).push(piece@) + rest =~= views(pieces@) + (seq![piece@]
                    + rest));
            }
            pieces.push(piece);
            i = j;
        }
    }
    assert(chars@.subrange(n as int, n as int) =~= Seq::<char>::empty());
    assert(views(pieces@) + Seq::<Seq<char>>::empty() =~= views(pieces@));
    pieces
}

} // verus!
