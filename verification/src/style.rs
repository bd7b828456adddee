//! Styled text: colours, looks, and runs of characters that share a look.
use vstd::prelude::*;
use crate::text::push_char;
use crate::text::push_str;
use crate::text::to_owned_string;

verus! {

/// A foreground colour.
#[derive(Clone, Copy, Debug, PartialEq, Eq, Structural)]
pub enum Tone {
    Unset,
    Gray,
    DarkGray,
    White,
    Cyan,
    Yellow,
    Green,
    Red,
    Magenta,
    Rgb(u8, u8, u8),
}

/// How a run of text is drawn: its colour, and whether it is bold or italic.
#[derive(Clone, Copy, Debug, PartialEq, Eq, Structural)]
pub struct Look {
    pub fg: Tone,
    pub bold: bool,
    pub italic: bool,
}

/// The look with no colour and no emphasis.
pub open spec fn plain_look() -> Look {
    Look { fg: Tone::Unset, bold: false, italic: false }
}

/// The look with colour `fg` and no emphasis.
pub open spec fn tone_look(fg: Tone) -> Look {
    Look { fg, bold: false, italic: false }
}

/// `l` made bold.
pub open spec fn bold_look(l: Look) -> Look {
    Look { fg: l.fg, bold: true, italic: l.italic }
}

/// `l` made italic.
pub open spec fn italic_look(l: Look) -> Look {
    Look { fg: l.fg, bold: l.bold, italic: true }
}

impl Look {
    /// No colour, no emphasis.
    pub fn plain() -> (r: Look)
        ensures
            r == plain_look(),
    {
        Look { fg: Tone::Unset, bold: false, italic: false }
    }

    /// Colour `fg`, no emphasis.
    pub fn toned(fg: Tone) -> (r: Look)
        ensures
            r == tone_look(fg),
    {
        Look { fg, bold: false, italic: false }
    }

    /// This look, bold.
    pub fn bolded(self) -> (r: Look)
        ensures
            r == bold_look(self),
    {
        Look { fg: self.fg, bold: true, italic: self.italic }
    }

    /// This look, italic.
    pub fn italicized(self) -> (r: Look)
        ensures
            r == italic_look(self),
    {
        Look { fg: self.fg, bold: self.bold, italic: true }
    }
}

/// A run of text drawn in one look.
pub struct Run {
    pub text: String,
    pub look: Look,
}

/// A run as its characters and its look.
pub type RunView = (Seq<char>, Look);

impl View for Run {
    type V = RunView;

    open spec fn view(&self) -> RunView {
        (self.text@, self.look)
    }
}

/// The views of a sequence of runs.
pub open spec fn runs_view(v: Seq<Run>) -> Seq<RunView> {
    v.map_values(|r: Run| r@)
}

/// The views of a sequence of lines of runs.
pub open spec fn lines_view(v: Seq<Vec<Run>>) -> Seq<Seq<RunView>> {
    v.map_values(|l: Vec<Run>| runs_view(l@))
}

impl Run {
    /// A run of `text` in `look`.
    pub fn new(text: String, look: Look) -> (r: Run)
        ensures
            r@ == (text@, look),
    {
        Run { text, look }
    }

    /// A run holding a copy of `text`, in `look`.
    pub fn of(text: &str, look: Look) -> (r: Run)
        ensures
            r@ == (text@, look),
    {
        Run { text: to_owned_string(text), look }
    }
}

/// Appending one run to runs already merged: an empty run changes nothing,
/// a run in the look of the last one joins it, any other is added.
pub open spec fn merge_one(acc: Seq<RunView>, r: RunView) -> Seq<RunView> {
    if r.0.len() == 0 {
        acc
    } else if acc.len() > 0 && acc.last().1 == r.1 {
        acc.update(acc.len() - 1, (acc.last().0 + r.0, r.1))
    } else {
        acc.push(r)
    }
}

/// Runs with the empty ones dropped and neighbours of one look joined.
pub open spec fn merged(s: Seq<RunView>) -> Seq<RunView>
    decreases s.len(),
{
    if s.len() == 0 {
        Seq::empty()
    } else {
        merge_one(merged(s.drop_last()), s.last())
    }
}

/// Each character in a run of its own.
pub open spec fn single_runs(cs: Seq<(char, Look)>) -> Seq<RunView> {
    cs.map_values(|c: (char, Look)| (seq![c.0], c.1))
}

/// Characters with their looks, grouped into runs of one look.
pub open spec fn grouped(cs: Seq<(char, Look)>) -> Seq<RunView> {
    merged(single_runs(cs))
}

/// Adds `text` in `look` to `out` as `merge_one` says.
pub fn push_merged(out: &mut Vec<Run>, text: String, look: Look)
    ensures
        runs_view(final(out)@) == merge_one(runs_view(old(out)@), (text@, look)),
{
    let ghost before = runs_view(out@);
    if text.as_str().is_empty() {
        proof {
            assert(text@.len() == 0);
        }
        return;
    }
    let n = out.len();
    if n > 0 && out[n - 1].look == look {
        let last = out.pop().unwrap();
        let mut t = last.text;
        push_str(&mut t, text.as_str());
        out.push(Run { text: t, look });
        proof {
            assert(before.last() == last@);
            assert(runs_view(out@) =~= before.update(before.len() - 1, (before.last().0 + text@, look)));
        }
    } else {
        out.push(Run { text, look });
        proof {
            assert(runs_view(out@) =~= before.push((text@, look)));
        }
    }
}

/// Drops empty runs and joins neighbouring runs of one look.
pub fn merge_spans(runs: &Vec<Run>) -> (r: Vec<Run>)
    ensures
        runs_view(r@) == merged(runs_view(runs@)),
{
    let mut out: Vec<Run> = Vec::new();
    let mut i: usize = 0;
    while i < runs.len()
        invariant
            i <= runs.len(),
            runs_view(out@) == merged(runs_view(runs@).take(i as int)),
        decreases runs.len() - i,
    {
        let ghost s = runs_view(runs@).take(i as int + 1);
        assert(s.drop_last() =~= runs_view(runs@).take(i as int));
        push_merged(&mut out, to_owned_string(runs[i].text.as_str()), runs[i].look);
        i = i + 1;
    }
    assert(runs_view(runs@).take(runs.len() as int) =~= runs_view(runs@));
    out
}

/// Groups characters with their looks into runs of one look.
pub fn chars_to_line(chars: &Vec<(char, Look)>) -> (r: Vec<Run>)
    ensures
        runs_view(r@) == grouped(chars@),
{
    let mut out: Vec<Run> = Vec::new();
    let mut i: usize = 0;
    while i < chars.len()
        invariant
            i <= chars.len(),
            runs_view(out@) == merged(single_runs(chars@).take(i as int)),
        decreases chars.len() - i,
    {
        let ghost s = single_runs(chars@).take(i as int + 1);
        assert(s.drop_last() =~= single_runs(chars@).take(i as int));
        let (c, look) = chars[i];
        let mut t = String::new();
        push_char(&mut t, c);
        assert(t@ =~= seq![c]);
        push_merged(&mut out, t, look);
        i = i + 1;
    }
    assert(single_runs(chars@).take(chars.len() as int) =~= single_runs(chars@));
    out
}

} // verus!
