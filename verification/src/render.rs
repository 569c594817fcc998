//! The line renderer: one line of text in, the same line out with a colour
//! set before each of its characters.

use crate::colors::{ansi_sequence, escape, RGB};
use crate::gradient::{
    interpolate_linear_gradient, lemma_gradient_ends, linear_gradient, GradientMode,
};
use crate::text::to_chars;
use vstd::prelude::*;
use vstd::string::StringExecFns;

verus! {

/// What the renderer needs to know of a run: the kind of gradient, the two
/// colours of the linear one, and whether colour is off.
pub struct RenderConfig {
    /// The kind of gradient.
    pub mode: GradientMode,
    /// Where the linear gradient starts.
    pub start_color: RGB<u8>,
    /// Where the linear gradient ends.
    pub end_color: RGB<u8>,
    /// With this set, lines pass through without any escape sequence.
    pub no_color: bool,
}

/// The characters of `line`, each right behind the escape sequence of its
/// colour, with nothing between them.
pub open spec fn painted(line: Seq<char>, colors: Seq<RGB<u8>>) -> Seq<char>
    recommends
        colors.len() == line.len(),
    decreases line.len(),
{
    if line.len() == 0 {
        Seq::<char>::empty()
    } else {
        let color = colors.last();
        painted(line.drop_last(), colors.drop_last()) + ansi_sequence(color.0, color.1, color.2)
            + seq![line.last()]
    }
}

/// A line in colour: its painted characters, then a new line.
pub open spec fn styled_line(line: Seq<char>, colors: Seq<RGB<u8>>) -> Seq<char> {
    painted(line, colors).push('\n')
}

/// A line without colour: its characters, then a new line.
pub open spec fn plain_line(line: Seq<char>) -> Seq<char> {
    line.push('\n')
}

/// The colours of a line of `len` characters under the linear gradient:
/// the character at column `i` has the colour at the factor `i / (len - 1)`,
/// and the one character of a line of length 1 has the factor zero.
pub open spec fn linear_colors(start: RGB<u8>, end: RGB<u8>, len: nat) -> Seq<RGB<u8>> {
    Seq::new(len, |i: int| linear_gradient(start, end, i as nat, (len - 1) as nat))
}

/// Whether `colors` are colours that `pick` may return for the columns
/// `0, 1, ...` of the row `row`.
pub open spec fn picked_by<F: Fn(usize, usize) -> RGB<u8>>(
    pick: &F,
    row: usize,
    colors: Seq<RGB<u8>>,
) -> bool {
    forall|i: int|
        0 <= i < colors.len() ==> call_ensures(*pick, (i as usize, row), #[trigger] colors[i])
}

/// The sequence that puts a terminal back into its default style.
pub open spec fn reset_sequence() -> Seq<char> {
    seq![escape(), '[', '0', 'm']
}

/// Appends one character in the given colour.
fn push_painted(out: &mut String, color: &RGB<u8>, c: char)
    ensures
        final(out)@ == old(out)@ + ansi_sequence(color.0, color.1, color.2) + seq![c],
{
    let code = color.ansi_code();
    out.append(code.as_str());
    out.push(c);
}

/// The colours of a line of `len` characters under the linear gradient
/// from `start` to `end`.
pub fn linear_palette(start: &RGB<u8>, end: &RGB<u8>, len: usize) -> (out: Vec<RGB<u8>>)
    ensures
        out@ == linear_colors(*start, *end, len as nat),
{
    let mut out: Vec<RGB<u8>> = Vec::new();
    let mut i: usize = 0;
    while i < len
        invariant
            i <= len,
            out@ == linear_colors(*start, *end, len as nat).take(i as int),
        decreases len - i,
    {
        out.push(interpolate_linear_gradient(start, end, i, len - 1));
        i += 1;
    }
    out
}

/// The colours that `pick` gives for the columns `0` to `len - 1` of the
/// row `row`.
pub fn picked_palette<F: Fn(usize, usize) -> RGB<u8>>(pick: &F, row: usize, len: usize) -> (out:
    Vec<RGB<u8>>)
    requires
        forall|column: usize, row: usize| call_requires(*pick, (column, row)),
    ensures
        out.len() == len,
        picked_by(pick, row, out@),
{
    let mut out: Vec<RGB<u8>> = Vec::new();
    let mut i: usize = 0;
    while i < len
        invariant
            i <= len,
            forall|column: usize, row: usize| call_requires(*pick, (column, row)),
            out.len() == i,
            picked_by(pick, row, out@),
        decreases len - i,
    {
        out.push(pick(i, row));
        i += 1;
    }
    out
}

/// The characters in the given colours, one colour for each character, and
/// a new line after them. Colours that are not as many as the characters
/// paint nothing.
pub fn paint(chars: &Vec<char>, colors: &Vec<RGB<u8>>) -> (out: Option<String>)
    ensures
        colors.len() == chars.len() ==> (out matches Some(text) && text@ == styled_line(
            chars@,
            colors@,
        )),
        colors.len() != chars.len() ==> out is None,
{
    let len = chars.len();
    if colors.len() != len {
        return None;
    }
    let mut text = String::new();
    let mut i: usize = 0;
    while i < len
        invariant
            i <= len == chars.len() == colors.len(),
            text@ == painted(chars@.take(i as int), colors@.take(i as int)),
        decreases len - i,
    {
        push_painted(&mut text, &colors[i], chars[i]);
        proof {
            assert(chars@.take(i + 1).drop_last() == chars@.take(i as int));
            assert(colors@.take(i + 1).drop_last() == colors@.take(i as int));
        }
        i += 1;
    }
    proof {
        assert(chars@.take(len as int) == chars@);
        assert(colors@.take(len as int) == colors@);
    }
    text.push('\n');
    Some(text)
}

/// Renders one line of text. With colour off the line passes through,
/// followed by a new line. Otherwise each character follows the escape
/// sequence of its colour: under the linear gradient the colour at the
/// factor `column / (length - 1)` between the two colours of `config`, and
/// under the rainbow the colour that `rainbow` gives for the column and the
/// row.
pub fn render_line<F: Fn(usize, usize) -> RGB<u8>>(
    line: &str,
    row: usize,
    config: &RenderConfig,
    rainbow: &F,
) -> (out: String)
    requires
        forall|column: usize, row: usize| call_requires(*rainbow, (column, row)),
    ensures
        config.no_color ==> out@ == plain_line(line@),
        !config.no_color && config.mode == GradientMode::Linear ==> out@ == styled_line(
            line@,
            linear_colors(config.start_color, config.end_color, line@.len()),
        ),
        !config.no_color && config.mode == GradientMode::Rainbow ==> exists|colors: Seq<RGB<u8>>|
            colors.len() == line@.len() && picked_by(rainbow, row, colors) && out@ == styled_line(
                line@,
                colors,
            ),
{
    if config.no_color {
        let mut out = line.to_owned();
        out.push('\n');
        return out;
    }
    let chars = to_chars(line);
    let colors = match config.mode {
        GradientMode::Linear => linear_palette(
            &config.start_color,
            &config.end_color,
            chars.len(),
        ),
        GradientMode::Rainbow => picked_palette(rainbow, row, chars.len()),
    };
    match paint(&chars, &colors) {
        Some(text) => text,
        None => String::new(),
    }
}

/// What closes the output once all input is rendered: the reset sequence,
/// or nothing where colour is off.
pub fn end_of_stream(config: &RenderConfig) -> (out: String)
    ensures
        out@ == if config.no_color {
            Seq::<char>::empty()
        } else {
            reset_sequence()
        },
{
    let mut out = String::new();
    if !config.no_color {
        out.push('\x1b');
        out.push('[');
        out.push('0');
        out.push('m');
    }
    out
}

/// A line of one character under the linear gradient has the start colour:
/// its factor is zero, and nothing is divided by the zero that is one less
/// than its length.
pub proof fn lemma_single_character_line(start: RGB<u8>, end: RGB<u8>, c: char)
    ensures
        linear_colors(start, end, 1) == seq![start],
        styled_line(seq![c], linear_colors(start, end, 1)) == ansi_sequence(
            start.0,
            start.1,
            start.2,
        ) + seq![c, '\n'],
{
    let colors = linear_colors(start, end, 1);
    let line = seq![c];
    assert(painted(line, colors) == painted(line.drop_last(), colors.drop_last())
        + ansi_sequence(start.0, start.1, start.2) + seq![c]);
}

/// A longer line under the linear gradient runs from the start colour at
/// its first character to the end colour at its last.
pub proof fn lemma_linear_line_runs_from_start_to_end(start: RGB<u8>, end: RGB<u8>, len: nat)
    requires
        len >= 2,
    ensures
        linear_colors(start, end, len).first() == start,
        linear_colors(start, end, len).last() == end,
{
    lemma_gradient_ends(start, end, (len - 1) as nat);
}

/// Without colour nothing is added to a line but the new line at its end:
/// an escape character is in the output only where the line itself has one.
pub proof fn lemma_plain_line_adds_no_escape(line: Seq<char>)
    ensures
        plain_line(line).drop_last() == line,
        plain_line(line).last() == '\n',
        !line.contains(escape()) ==> !plain_line(line).contains(escape()),
{
    if !line.contains(escape()) && plain_line(line).contains(escape()) {
        let i = choose|i: int| 0 <= i < plain_line(line).len() && plain_line(line)[i] == escape();
        assert(line[i] == escape());
    }
}

} // verus!
