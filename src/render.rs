//! What the files of a slide deck hold: each slide's file name and text, and
//! the consolidated speaker notes.
use vstd::prelude::*;
use pad::PadStr;
use crate::segment::{Slide, SlideView, slides_view};
use crate::text::{extend_chars, string_of, string_of_range, trim, trim_range};

verus! {

pub open spec fn digits() -> Seq<char> {
    seq!['0', '1', '2', '3', '4', '5', '6', '7', '8', '9']
}

/// The decimal digits of `n`, most significant first, without leading zeros.
pub open spec fn decimal(n: nat) -> Seq<char>
    decreases n,
{
    if n < 10 {
        seq![digits()[n as int]]
    } else {
        decimal(n / 10).push(digits()[(n % 10) as int])
    }
}

pub open spec fn is_digit(c: char) -> bool {
    '0' <= c && c <= '9'
}

/// `s` preceded by as many `c` as bring it to `width` characters.
pub open spec fn pad_left(s: Seq<char>, width: nat, c: char) -> Seq<char> {
    if s.len() >= width {
        s
    } else {
        Seq::new((width - s.len()) as nat, |_i: int| c) + s
    }
}

/// The identifier of the slide at 1-based `position`: its decimal digits,
/// padded with zeros to at least three.
pub open spec fn slide_id_of(position: nat) -> Seq<char> {
    pad_left(decimal(position), 3, '0')
}

/// The name of the file of the slide at 1-based `position`.
pub open spec fn slide_file_name_of(position: nat) -> Seq<char> {
    slide_id_of(position) + seq!['.', 'm', 'd']
}

fn digit_char(d: usize) -> (c: char)
    requires
        d < 10,
    ensures
        c == digits()[d as int],
{
    match d {
        0 => '0',
        1 => '1',
        2 => '2',
        3 => '3',
        4 => '4',
        5 => '5',
        6 => '6',
        7 => '7',
        8 => '8',
        _ => '9',
    }
}

proof fn lemma_decimal_digits(n: nat)
    ensures
        forall|i: int| 0 <= i < decimal(n).len() ==> is_digit(#[trigger] decimal(n)[i]),
    decreases n,
{
    assert forall|d: int| 0 <= d < 10 implies is_digit(#[trigger] digits()[d]) by {}
    if n >= 10 {
        lemma_decimal_digits(n / 10);
        let p = decimal(n / 10);
        assert forall|i: int| 0 <= i < decimal(n).len() implies is_digit(
            #[trigger] decimal(n)[i],
        ) by {
            if i < p.len() {
                assert(decimal(n)[i] == p[i]);
            }
        }
    }
}

fn decimal_chars(n: usize) -> (r: Vec<char>)
    ensures
        r@ == decimal(n as nat),
    decreases n,
{
    if n < 10 {
        let mut r: Vec<char> = Vec::new();
        r.push(digit_char(n));
        assert(r@ =~= decimal(n as nat));
        r
    } else {
        let mut r = decimal_chars(n / 10);
        r.push(digit_char(n % 10));
        r
    }
}

/// The decimal representation of `n`.
pub fn decimal_string(n: usize) -> (r: String)
    ensures
        r@ == decimal(n as nat),
{
    let v = decimal_chars(n);
    string_of(&v)
}

/// Relies on pad's `PadStr::pad` with right alignment and no truncation: a
/// string of ASCII digits, one column each, is preceded by copies of `c` up
/// to `width` columns, and is left whole when it is already as wide.
#[verifier::external_body]
fn pad_right_aligned(s: &str, width: usize, c: char) -> (r: String)
    requires
        forall|i: int| 0 <= i < s@.len() ==> is_digit(#[trigger] s@[i]),
    ensures
        r@ == pad_left(s@, width as nat, c),
{
    s.pad(width, c, pad::Alignment::Right, false)
}

/// The identifier of the slide at 1-based `position`: `"001"`, `"002"`, ...;
/// positions of four digits or more are not cut.
pub fn slide_id(position: usize) -> (r: String)
    ensures
        r@ == slide_id_of(position as nat),
{
    let digits = decimal_string(position);
    proof {
        lemma_decimal_digits(position as nat);
    }
    pad_right_aligned(digits.as_str(), 3, '0')
}

/// The name of the file of the slide at 1-based `position`: its identifier
/// followed by `.md`.
pub fn slide_file_name(position: usize) -> (r: String)
    ensures
        r@ == slide_file_name_of(position as nat),
{
    let id = slide_id(position);
    let mut buf: Vec<char> = Vec::new();
    extend_chars(&mut buf, id.as_str());
    buf.push('.');
    buf.push('m');
    buf.push('d');
    assert(buf@ =~= slide_file_name_of(position as nat));
    string_of(&buf)
}


/// The lines joined by `'\n'`.
pub open spec fn join_lines(ls: Seq<Seq<char>>) -> Seq<char>
    decreases ls.len(),
{
    if ls.len() == 0 {
        seq![]
    } else if ls.len() == 1 {
        ls[0]
    } else {
        join_lines(ls.drop_last()) + seq!['\n'] + ls.last()
    }
}

/// The text of a slide's file: its title, a line break and its body lines
/// joined by line breaks, with the whitespace around the whole trimmed.
pub open spec fn slide_text(s: SlideView) -> Seq<char> {
    trim(s.title + seq!['\n'] + join_lines(s.content))
}

/// Appends `lines` joined by `'\n'` to `buf`.
fn extend_joined(buf: &mut Vec<char>, lines: &Vec<String>)
    ensures
        final(buf)@ == old(buf)@ + join_lines(lines@.map_values(|l: String| l@)),
{
    let ghost start = buf@;
    let ghost ls = lines@.map_values(|l: String| l@);
    let mut i: usize = 0;
    assert(ls.take(0) =~= seq![]);
    assert(buf@ =~= start + join_lines(ls.take(0)));
    while i < lines.len()
        invariant
            i <= lines.len(),
            ls == lines@.map_values(|l: String| l@),
            buf@ == start + join_lines(ls.take(i as int)),
        decreases lines.len() - i,
    {
        assert(ls.take(i + 1).drop_last() =~= ls.take(i as int));
        if i > 0 {
            buf.push('\n');
        }
        extend_chars(buf, lines[i].as_str());
        proof {
            if i == 0 {
                assert(ls.take(1) =~= seq![ls[0]]);
            }
        }
        i += 1;
        assert(buf@ =~= start + join_lines(ls.take(i as int)));
    }
    assert(ls.take(i as int) =~= ls);
}

/// The text of the file of `slide`.
pub fn slide_text_of(slide: &Slide) -> (r: String)
    ensures
        r@ == slide_text(slide@),
{
    let mut buf: Vec<char> = Vec::new();
    extend_chars(&mut buf, slide.title.as_str());
    buf.push('\n');
    extend_joined(&mut buf, &slide.content);
    assert(buf@ =~= slide@.title + seq!['\n'] + join_lines(slide@.content));
    let (a, b) = trim_range(&buf, 0, buf.len());
    assert(buf@.subrange(0, buf.len() as int) =~= buf@);
    string_of_range(&buf, a, b)
}

/// The first line of the notes document.
pub open spec fn notes_header() -> Seq<char> {
    seq!['#', ' ', 'S', 'p', 'e', 'a', 'k', 'e', 'r', ' ', 'n', 'o', 't', 'e', 's']
}

/// What stands in place of the notes of a slide that has none.
pub open spec fn no_notes() -> Seq<char> {
    seq!['e', 'm', 'p', 't', 'y']
}

pub open spec fn slide_label() -> Seq<char> {
    seq!['(', 's', 'l', 'i', 'd', 'e', ' ']
}

/// Each note followed by a blank line.
pub open spec fn note_lines(notes: Seq<Seq<char>>) -> Seq<char>
    decreases notes.len(),
{
    if notes.len() == 0 {
        seq![]
    } else {
        note_lines(notes.drop_last()) + notes.last() + seq!['\n', '\n']
    }
}

/// The section of the notes document for the slide `s` at 1-based
/// `position`: a line `<title>(slide <position>)`, then its notes, or the
/// placeholder line when it has none, then a blank line.
pub open spec fn notes_section(s: SlideView, position: nat) -> Seq<char> {
    s.title + slide_label() + decimal(position) + seq![')', '\n'] + (if s.comments.len() == 0 {
        no_notes() + seq!['\n']
    } else {
        note_lines(s.comments)
    }) + seq!['\n']
}

/// The sections of `slides`, in order.
pub open spec fn notes_sections(slides: Seq<SlideView>) -> Seq<char>
    decreases slides.len(),
{
    if slides.len() == 0 {
        seq![]
    } else {
        notes_sections(slides.drop_last()) + notes_section(slides.last(), slides.len())
    }
}

/// The consolidated speaker notes of `slides`: the header line, then one
/// section per slide.
pub open spec fn notes_document(slides: Seq<SlideView>) -> Seq<char> {
    notes_header() + seq!['\n'] + notes_sections(slides)
}

fn extend_section(buf: &mut Vec<char>, slide: &Slide, position: usize)
    ensures
        final(buf)@ == old(buf)@ + notes_section(slide@, position as nat),
{
    let ghost start = buf@;
    proof {
        reveal_strlit("(slide ");
        reveal_strlit("empty");
    }
    extend_chars(buf, slide.title.as_str());
    extend_chars(buf, "(slide ");
    let digits = decimal_chars(position);
    let mut k: usize = 0;
    let ghost mid = buf@;
    while k < digits.len()
        invariant
            k <= digits.len(),
            buf@ == mid + digits@.take(k as int),
        decreases digits.len() - k,
    {
        buf.push(digits[k]);
        k += 1;
        assert(buf@ =~= mid + digits@.take(k as int));
    }
    assert(digits@.take(k as int) =~= digits@);
    buf.push(')');
    buf.push('\n');
    let ghost head = buf@;
    assert(head =~= start + slide@.title + slide_label() + decimal(position as nat) + seq![
        ')',
        '\n',
    ]);
    if slide.comments.len() == 0 {
        extend_chars(buf, "empty");
        buf.push('\n');
        assert(buf@ =~= head + (no_notes() + seq!['\n']));
    } else {
        let ghost ns = slide@.comments;
        let mut i: usize = 0;
        assert(ns.take(0) =~= seq![]);
        assert(buf@ =~= head + note_lines(ns.take(0)));
        while i < slide.comments.len()
            invariant
                i <= slide.comments.len(),
                ns == slide@.comments,
                ns.len() == slide.comments.len(),
                buf@ == head + note_lines(ns.take(i as int)),
            decreases slide.comments.len() - i,
        {
            assert(ns.take(i + 1).drop_last() =~= ns.take(i as int));
            extend_chars(buf, slide.comments[i].as_str());
            buf.push('\n');
            buf.push('\n');
            i += 1;
            assert(buf@ =~= head + note_lines(ns.take(i as int)));
        }
        assert(ns.take(i as int) =~= ns);
    }
    buf.push('\n');
    assert(buf@ =~= start + notes_section(slide@, position as nat));
}

/// The consolidated speaker notes of `slides`.
pub fn notes_document_of(slides: &Vec<Slide>) -> (r: String)
    ensures
        r@ == notes_document(slides_view(slides@)),
{
    proof {
        reveal_strlit("# Speaker notes");
    }
    let ghost sv = slides_view(slides@);
    let mut buf: Vec<char> = Vec::new();
    extend_chars(&mut buf, "# Speaker notes");
    buf.push('\n');
    let ghost head = buf@;
    assert(head =~= notes_header() + seq!['\n']);
    let mut i: usize = 0;
    assert(sv.take(0) =~= seq![]);
    assert(buf@ =~= head + notes_sections(sv.take(0)));
    while i < slides.len()
        invariant
            i <= slides.len(),
            sv == slides_view(slides@),
            buf@ == head + notes_sections(sv.take(i as int)),
        decreases slides.len() - i,
    {
        assert(sv.take(i + 1).drop_last() =~= sv.take(i as int));
        extend_section(&mut buf, &slides[i], i + 1);
        i += 1;
        assert(buf@ =~= head + notes_sections(sv.take(i as int)));
    }
    assert(sv.take(i as int) =~= sv);
    string_of(&buf)
}

} // verus!
