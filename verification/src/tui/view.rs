//! What a screen shows: lines made of runs of text, each drawn in a tone.
//! The driver turns tones into terminal styles.
use crate::text::{chars_of, push_str, string_from_chars};
use vstd::prelude::*;

verus! {

/// How a run of text is drawn.
#[derive(Debug, Clone, Copy, PartialEq, Eq, Structural)]
pub enum Tone {
    Plain,
    Dim,
    Bold,
    Accent,
    Good,
    Bad,
}

/// A run of text drawn in one tone.
#[derive(Debug, Clone, PartialEq)]
pub struct Seg {
    pub text: String,
    pub tone: Tone,
}

/// A run as its characters and tone.
pub open spec fn seg_view(s: Seg) -> (Seq<char>, Tone) {
    (s.text@, s.tone)
}

/// A line as its runs.
pub open spec fn line_view(l: Seq<Seg>) -> Seq<(Seq<char>, Tone)> {
    l.map_values(|s: Seg| seg_view(s))
}

/// A screen as its lines.
pub open spec fn lines_view(v: Seq<Vec<Seg>>) -> Seq<Seq<(Seq<char>, Tone)>> {
    v.map_values(|l: Vec<Seg>| line_view(l@))
}

/// `n` spaces.
pub open spec fn spaces(n: nat) -> Seq<char> {
    Seq::new(n, |_i: int| ' ')
}

/// `s` filled with spaces on the right up to `width` characters (as `{:<width}` does).
pub open spec fn pad(s: Seq<char>, width: nat) -> Seq<char> {
    if s.len() < width {
        s + spaces((width - s.len()) as nat)
    } else {
        s
    }
}

/// The text of a line: its runs one after another.
pub open spec fn line_text_spec(l: Seq<(Seq<char>, Tone)>) -> Seq<char>
    decreases l.len(),
{
    if l.len() == 0 {
        Seq::empty()
    } else {
        line_text_spec(l.drop_last()) + l.last().0
    }
}

/// The text of a screen: its lines, each ended by a newline.
pub open spec fn screen_text_spec(v: Seq<Seq<(Seq<char>, Tone)>>) -> Seq<char>
    decreases v.len(),
{
    if v.len() == 0 {
        Seq::empty()
    } else {
        screen_text_spec(v.drop_last()) + line_text_spec(v.last()) + seq!['\n']
    }
}

/// The cursor marker of a row.
pub open spec fn marker(here: bool) -> Seq<char> {
    if here {
        "▸ "@
    } else {
        "  "@
    }
}

/// The cursor marker of a row.
pub fn marker_str(here: bool) -> (s: &'static str)
    ensures
        s@ == marker(here),
{
    if here {
        "▸ "
    } else {
        "  "
    }
}

/// A line of one run.
pub fn one(text: String, tone: Tone) -> (l: Vec<Seg>)
    ensures
        line_view(l@) == seq![(text@, tone)],
{
    let mut l: Vec<Seg> = Vec::new();
    l.push(Seg { text, tone });
    assert(line_view(l@) =~= seq![(l@[0].text@, tone)]);
    l
}

/// A line of two runs.
pub fn two(a: String, ta: Tone, b: String, tb: Tone) -> (l: Vec<Seg>)
    ensures
        line_view(l@) == seq![(a@, ta), (b@, tb)],
{
    let mut l: Vec<Seg> = Vec::new();
    l.push(Seg { text: a, tone: ta });
    l.push(Seg { text: b, tone: tb });
    assert(line_view(l@) =~= seq![(l@[0].text@, ta), (l@[1].text@, tb)]);
    l
}

/// A line of three runs.
pub fn three(a: String, ta: Tone, b: String, tb: Tone, c: String, tc: Tone) -> (l: Vec<Seg>)
    ensures
        line_view(l@) == seq![(a@, ta), (b@, tb), (c@, tc)],
{
    let mut l: Vec<Seg> = Vec::new();
    l.push(Seg { text: a, tone: ta });
    l.push(Seg { text: b, tone: tb });
    l.push(Seg { text: c, tone: tc });
    assert(line_view(l@) =~= seq![(l@[0].text@, ta), (l@[1].text@, tb), (l@[2].text@, tc)]);
    l
}

/// A line of four runs.
pub fn four(a: String, ta: Tone, b: String, tb: Tone, c: String, tc: Tone, d: String, td: Tone) -> (l: Vec<Seg>)
    ensures
        line_view(l@) == seq![(a@, ta), (b@, tb), (c@, tc), (d@, td)],
{
    let mut l: Vec<Seg> = Vec::new();
    l.push(Seg { text: a, tone: ta });
    l.push(Seg { text: b, tone: tb });
    l.push(Seg { text: c, tone: tc });
    l.push(Seg { text: d, tone: td });
    assert(line_view(l@) =~= seq![(l@[0].text@, ta), (l@[1].text@, tb), (l@[2].text@, tc), (l@[3].text@, td)]);
    l
}

/// An empty line.
pub fn blank() -> (l: Vec<Seg>)
    ensures
        line_view(l@) == Seq::<(Seq<char>, Tone)>::empty(),
{
    let l: Vec<Seg> = Vec::new();
    assert(line_view(l@) =~= Seq::<(Seq<char>, Tone)>::empty());
    l
}

/// Appends a line to a screen.
pub fn push_line(lines: &mut Vec<Vec<Seg>>, l: Vec<Seg>)
    ensures
        lines_view(final(lines)@) == lines_view(old(lines)@).push(line_view(l@)),
{
    let ghost lv = line_view(l@);
    lines.push(l);
    assert(lines_view(lines@) =~= lines_view(old(lines)@).push(lv));
}

/// A `String` from a string slice.
pub fn text_of(s: &str) -> (r: String)
    ensures
        r@ == s@,
{
    crate::text::to_string(s)
}

/// A `String` from characters.
pub fn text_from(v: &Vec<char>) -> (r: String)
    ensures
        r@ == v@,
{
    string_from_chars(v)
}

/// Appends `s` filled with spaces up to `width` characters.
pub fn push_padded(v: &mut Vec<char>, s: &str, width: usize)
    ensures
        final(v)@ == old(v)@ + pad(s@, width as nat),
{
    let cs = chars_of(s);
    push_str(v, s);
    if cs.len() < width {
        let mut k: usize = cs.len();
        while k < width
            invariant
                cs@ == s@,
                cs@.len() <= k <= width,
                v@ == old(v)@ + s@ + spaces((k - cs@.len()) as nat),
            decreases width - k,
        {
            v.push(' ');
            assert(spaces((k + 1 - cs@.len()) as nat) =~= spaces((k - cs@.len()) as nat).push(' '));
            k = k + 1;
        }
    }
    assert(v@ =~= old(v)@ + pad(s@, width as nat));
}

/// A field's label: dim, padded to fifteen characters and followed by a space.
pub open spec fn field_label(t: Seq<char>) -> (Seq<char>, Tone) {
    (pad(t, 15) + " "@, Tone::Dim)
}

/// The text of a field's label (see `field_label`).
pub fn field_label_text(t: &str) -> (r: String)
    ensures
        (r@, Tone::Dim) == field_label(t@),
{
    let mut v: Vec<char> = Vec::new();
    push_padded(&mut v, t, 15);
    push_str(&mut v, " ");
    string_from_chars(&v)
}

/// The text of a line (see `line_text_spec`).
pub fn line_text(l: &Vec<Seg>) -> (s: String)
    ensures
        s@ == line_text_spec(line_view(l@)),
{
    let mut v: Vec<char> = Vec::new();
    let mut i: usize = 0;
    while i < l.len()
        invariant
            0 <= i <= l@.len(),
            v@ == line_text_spec(line_view(l@.take(i as int))),
        decreases l@.len() - i,
    {
        push_str(&mut v, l[i].text.as_str());
        assert(line_view(l@.take(i + 1)).drop_last() =~= line_view(l@.take(i as int)));
        i = i + 1;
    }
    assert(l@.take(i as int) =~= l@);
    string_from_chars(&v)
}

/// The text of a screen (see `screen_text_spec`).
pub fn screen_text(lines: &Vec<Vec<Seg>>) -> (s: String)
    ensures
        s@ == screen_text_spec(lines_view(lines@)),
{
    let mut v: Vec<char> = Vec::new();
    let mut i: usize = 0;
    while i < lines.len()
        invariant
            0 <= i <= lines@.len(),
            v@ == screen_text_spec(lines_view(lines@.take(i as int))),
        decreases lines@.len() - i,
    {
        let t = line_text(&lines[i]);
        push_str(&mut v, t.as_str());
        v.push('\n');
        assert(lines_view(lines@.take(i + 1)).drop_last() =~= lines_view(lines@.take(i as int)));
        i = i + 1;
    }
    assert(lines@.take(i as int) =~= lines@);
    string_from_chars(&v)
}

} // verus!
