//! Padding text to a width, and the box that `help` draws around the registry.
//!
//! Widths count characters, not bytes.

use vstd::prelude::*;
use vstd::string::*;
use crate::text::{lemma_views_push, push_char, views};

verus! {

/// Where a text stands in the width it is padded to.
#[derive(Clone, Copy, Debug, PartialEq, Eq, Structural)]
pub enum Alignment {
    Left,
    Center,
    Right,
}

/// The width of the help box, borders included.
pub const BOX_WIDTH: usize = 76;

/// `n` times the character `c`.
pub open spec fn repeated(c: char, n: nat) -> Seq<char> {
    Seq::new(n, |i: int| c)
}

/// `s` followed by spaces up to `width` characters; `s` itself where it is that
/// long already.
pub open spec fn padded(s: Seq<char>, width: nat) -> Seq<char> {
    if s.len() >= width {
        s
    } else {
        s + repeated(' ', (width - s.len()) as nat)
    }
}

/// `s` padded with spaces according to `alignment`; `s` itself where it is
/// `width` characters long already. Centred text gets half of the missing
/// width, rounded down, on either side, and so may stay one short of `width`.
pub open spec fn aligned(s: Seq<char>, width: nat, alignment: Alignment) -> Seq<char> {
    if s.len() >= width {
        s
    } else {
        match alignment {
            Alignment::Left => s + repeated(' ', (width - s.len()) as nat),
            Alignment::Center => repeated(' ', ((width - s.len()) / 2) as nat) + s + repeated(
                ' ',
                ((width - s.len()) / 2) as nat,
            ),
            Alignment::Right => repeated(' ', (width - s.len()) as nat) + s,
        }
    }
}

/// Padding never shortens, and fills up to the width but for the one character
/// that centring may leave out.
pub proof fn lemma_aligned_len(s: Seq<char>, width: nat, alignment: Alignment)
    ensures
        aligned(s, width, alignment).len() >= s.len(),
        s.len() >= width ==> aligned(s, width, alignment) == s,
        s.len() < width && alignment != Alignment::Center ==> aligned(s, width, alignment).len()
            == width,
        s.len() < width && alignment == Alignment::Center ==> width - 1 <= aligned(
            s,
            width,
            alignment,
        ).len() <= width,
        aligned(s, width, Alignment::Left) == padded(s, width),
{
}

/// Appends `n` times the character `c` to `out`.
fn push_repeated(out: &mut String, c: char, n: usize)
    ensures
        final(out)@ == old(out)@ + repeated(c, n as nat),
{
    let mut i: usize = 0;
    assert(out@ =~= old(out)@ + repeated(c, 0));
    while i < n
        invariant
            i <= n,
            out@ == old(out)@ + repeated(c, i as nat),
        decreases n - i,
    {
        push_char(out, c);
        assert(out@ =~= old(out)@ + repeated(c, (i + 1) as nat));
        i += 1;
    }
}

/// Text that can be padded to a width.
pub trait PadToWidth {
    fn pad_to_width(&self, width: usize) -> String;

    fn pad_to_width_with_alignment(&self, width: usize, alignment: Alignment) -> String;
}

impl PadToWidth for str {
    /// Pads with spaces on the right.
    fn pad_to_width(&self, width: usize) -> (out: String)
        ensures
            out@ == padded(self@, width as nat),
    {
        let len: usize = self.unicode_len();
        let mut out: String = String::from_str(self);
        if len < width {
            push_repeated(&mut out, ' ', width - len);
        }
        out
    }

    /// Pads with spaces according to `alignment`.
    fn pad_to_width_with_alignment(&self, width: usize, alignment: Alignment) -> (out: String)
        ensures
            out@ == aligned(self@, width as nat, alignment),
    {
        let len: usize = self.unicode_len();
        if len >= width {
            return String::from_str(self);
        }
        match alignment {
            Alignment::Center => {
                let mut out: String = String::new();
                push_repeated(&mut out, ' ', (width - len) / 2);
                out.append(self);
                push_repeated(&mut out, ' ', (width - len) / 2);
                assert(out@ =~= aligned(self@, width as nat, alignment));
                out
            },
            Alignment::Left => self.pad_to_width(width),
            Alignment::Right => {
                let mut out: String = String::new();
                push_repeated(&mut out, ' ', width - len);
                out.append(self);
                assert(out@ =~= aligned(self@, width as nat, alignment));
                out
            },
        }
    }
}

/// The lines of the help box, without the colours and without the left and
/// right borders of the inner lines, which the caller draws.
#[derive(Clone, Debug, PartialEq, Eq)]
pub struct HelpBox {
    /// The top border.
    pub top: String,
    /// The centred title.
    pub title: String,
    /// One padded line for each command, in the order of the registry.
    pub commands: Vec<String>,
    /// The centred hint on how to leave.
    pub footer: String,
    /// The bottom border.
    pub bottom: String,
}

/// A border of the box: a corner, the horizontal line, a corner.
pub open spec fn border(left: char, right: char) -> Seq<char> {
    seq![left] + repeated('═', (BOX_WIDTH - 2) as nat) + seq![right]
}

/// The lines for the commands: each name padded to the inner width.
pub open spec fn command_lines(names: Seq<Seq<char>>) -> Seq<Seq<char>> {
    Seq::new(names.len(), |i: int| padded(names[i], (BOX_WIDTH - 6) as nat))
}

/// One border of the box.
fn border_line(left: char, right: char) -> (line: String)
    ensures
        line@ == border(left, right),
{
    let mut line: String = String::new();
    push_char(&mut line, left);
    push_repeated(&mut line, '═', BOX_WIDTH - 2);
    push_char(&mut line, right);
    assert(line@ =~= border(left, right));
    line
}

/// The help box for the commands `names`.
pub fn print_help(names: &Vec<String>) -> (help: HelpBox)
    ensures
        help.top@ == border('╭', '╮'),
        help.title@ == aligned("Available commands:"@, (BOX_WIDTH - 5) as nat, Alignment::Center),
        views(help.commands@) == command_lines(views(names@)),
        help.footer@ == aligned(
            "Type 'exit' to quit the program."@,
            (BOX_WIDTH - 3) as nat,
            Alignment::Center,
        ),
        help.bottom@ == border('╰', '╯'),
{
    let mut commands: Vec<String> = Vec::new();
    let mut i: usize = 0;
    while i < names.len()
        invariant
            i <= names@.len(),
            views(commands@) == command_lines(views(names@)).subrange(0, i as int),
        decreases names@.len() - i,
    {
        let line: String = names[i].as_str().pad_to_width(BOX_WIDTH - 6);
        proof {
            lemma_views_push(commands@, line);
            assert(views(names@)[i as int] == names@[i as int]@);
            assert(views(commands@).push(line@) =~= command_lines(views(names@)).subrange(
                0,
                i + 1,
            ));
        }
        commands.push(line);
        i += 1;
    }
    assert(command_lines(views(names@)).subrange(0, names@.len() as int) =~= command_lines(
        views(names@),
    ));
    HelpBox {
        top: border_line('╭', '╮'),
        title: "Available commands:".pad_to_width_with_alignment(BOX_WIDTH - 5, Alignment::Center),
        commands,
        footer: "Type 'exit' to quit the program.".pad_to_width_with_alignment(
            BOX_WIDTH - 3,
            Alignment::Center,
        ),
        bottom: border_line('╰', '╯'),
    }
}

} // verus!
