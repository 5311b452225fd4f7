//! Splitting a document into slides: each heading line opens a slide, the
//! lines after it form its body, and single-line comments become its notes.
use vstd::prelude::*;
use crate::text::{
    chars_of, string_of_range, trim, trim_end, trim_end_range, trim_range, starts_with,
    ends_with,
};

verus! {

/// One unit of presentable content.
pub struct Slide {
    pub title: String,
    pub content: Vec<String>,
    pub comments: Vec<String>,
}

/// A slide as plain values.
pub struct SlideView {
    pub title: Seq<char>,
    pub content: Seq<Seq<char>>,
    pub comments: Seq<Seq<char>>,
}

pub open spec fn strings_view(v: Seq<String>) -> Seq<Seq<char>> {
    v.map_values(|s: String| s@)
}

impl View for Slide {
    type V = SlideView;

    open spec fn view(&self) -> SlideView {
        SlideView {
            title: self.title@,
            content: strings_view(self.content@),
            comments: strings_view(self.comments@),
        }
    }
}

pub open spec fn slides_view(v: Seq<Slide>) -> Seq<SlideView> {
    v.map_values(|s: Slide| s@)
}

pub open spec fn empty_slide() -> SlideView {
    SlideView { title: seq![], content: seq![], comments: seq![] }
}

impl Slide {
    /// A slide with no title, body or notes.
    pub fn new() -> (r: Slide)
        ensures
            r@ == empty_slide(),
    {
        let r = Slide { title: String::new(), content: Vec::new(), comments: Vec::new() };
        assert(r@.content =~= seq![]);
        assert(r@.comments =~= seq![]);
        r
    }
}

// ---------------------------------------------------------------------------
// Lines

/// Splitting into lines, read from the left: the lines completed so far and
/// the line still open.
pub open spec fn lines_acc(s: Seq<char>) -> (Seq<Seq<char>>, Seq<char>)
    decreases s.len(),
{
    if s.len() == 0 {
        (seq![], seq![])
    } else {
        let (done, open) = lines_acc(s.drop_last());
        if s.last() == '\n' {
            (done.push(open), seq![])
        } else {
            (done, open.push(s.last()))
        }
    }
}

/// The lines of `s`, split at each `'\n'`; a final terminator opens no
/// further empty line.
pub open spec fn lines_of(s: Seq<char>) -> Seq<Seq<char>> {
    let (done, open) = lines_acc(s);
    if open.len() > 0 {
        done.push(open)
    } else {
        done
    }
}

// ---------------------------------------------------------------------------
// Classifying lines

pub open spec fn comment_open() -> Seq<char> {
    seq!['<', '!', '-', '-']
}

pub open spec fn comment_close() -> Seq<char> {
    seq!['-', '-', '>']
}

/// A heading line: once trimmed, it starts with `#`.
pub open spec fn is_heading(line: Seq<char>) -> bool {
    trim(line).len() > 0 && trim(line)[0] == '#'
}

/// A note line: not a heading, and once trimmed it starts with `<!--`.
pub open spec fn is_note(line: Seq<char>) -> bool {
    !is_heading(line) && starts_with(trim(line), comment_open())
}

/// The text of a note line: what follows `<!--`, without a closing `-->`
/// on the same line, trimmed.
pub open spec fn note_text(line: Seq<char>) -> Seq<char> {
    let rest = trim(line).subrange(4, trim(line).len() as int);
    if ends_with(rest, comment_close()) {
        trim(rest.subrange(0, rest.len() - 3))
    } else {
        trim(rest)
    }
}

// ---------------------------------------------------------------------------
// Segmenting

/// The slides finished so far and the slide still open.
pub struct Segmenting {
    pub done: Seq<SlideView>,
    pub current: SlideView,
}

pub open spec fn seg_start() -> Segmenting {
    Segmenting { done: seq![], current: empty_slide() }
}

/// What one line does to the state. A heading closes the open slide (kept
/// only if it has a title) and opens a new one; a note line adds a note;
/// any other line adds itself, without trailing whitespace, to the body.
pub open spec fn seg_step(st: Segmenting, line: Seq<char>) -> Segmenting {
    if is_heading(line) {
        Segmenting {
            done: if st.current.title.len() > 0 {
                st.done.push(st.current)
            } else {
                st.done
            },
            current: SlideView { title: trim(line), content: seq![], comments: seq![] },
        }
    } else if is_note(line) {
        Segmenting {
            done: st.done,
            current: SlideView {
                comments: st.current.comments.push(note_text(line)),
                ..st.current
            },
        }
    } else {
        Segmenting {
            done: st.done,
            current: SlideView { content: st.current.content.push(trim_end(line)), ..st.current },
        }
    }
}

/// The state after reading `lines` from `st`.
pub open spec fn seg_from(st: Segmenting, lines: Seq<Seq<char>>) -> Segmenting
    decreases lines.len(),
{
    if lines.len() == 0 {
        st
    } else {
        seg_step(seg_from(st, lines.drop_last()), lines.last())
    }
}

/// The finished slides of a state, with the open one if it has a title.
pub open spec fn seg_finish(st: Segmenting) -> Seq<SlideView> {
    if st.current.title.len() > 0 {
        st.done.push(st.current)
    } else {
        st.done
    }
}

/// The slides of a sequence of lines.
pub open spec fn segment_lines(lines: Seq<Seq<char>>) -> Seq<SlideView> {
    seg_finish(seg_from(seg_start(), lines))
}

/// The slides of a document.
pub open spec fn segment(s: Seq<char>) -> Seq<SlideView> {
    segment_lines(lines_of(s))
}


// ---------------------------------------------------------------------------
// Executable segmenter

pub open spec fn seg_state(done: Seq<Slide>, current: Slide) -> Segmenting {
    Segmenting { done: slides_view(done), current: current@ }
}

/// Reads the line `v[from..to]` into the state held by `done` and `current`.
fn apply_line(done: &mut Vec<Slide>, current: &mut Slide, v: &Vec<char>, from: usize, to: usize)
    requires
        from <= to <= v.len(),
    ensures
        seg_state(final(done)@, *final(current)) == seg_step(
            seg_state(old(done)@, *old(current)),
            v@.subrange(from as int, to as int),
        ),
{
    let ghost line = v@.subrange(from as int, to as int);
    let (a, b) = trim_range(v, from, to);
    let ghost t = trim(line);
    assert(t == v@.subrange(a as int, b as int));
    if b > a && v[a] == '#' {
        assert(is_heading(line));
        if !current.title.as_str().is_empty() {
            let mut fresh = Slide::new();
            std::mem::swap(current, &mut fresh);
            done.push(fresh);
            assert(slides_view(done@) =~= slides_view(old(done)@).push(old(current)@));
        }
        let title = string_of_range(v, a, b);
        current.title = title;
        current.content = Vec::new();
        current.comments = Vec::new();
        assert(current@.content =~= seq![]);
        assert(current@.comments =~= seq![]);
    } else if b - a >= 4 && v[a] == '<' && v[a + 1] == '!' && v[a + 2] == '-' && v[a + 3] == '-' {
        assert(t.subrange(0, 4) =~= comment_open());
        assert(is_note(line));
        let ghost rest = t.subrange(4, t.len() as int);
        assert(rest =~= v@.subrange(a + 4, b as int));
        let inner_end: usize = if b - (a + 4) >= 3 && v[b - 3] == '-' && v[b - 2] == '-' && v[b
            - 1] == '>' {
            assert(rest.subrange(rest.len() - 3, rest.len() as int) =~= comment_close());
            assert(rest.subrange(0, rest.len() - 3) =~= v@.subrange(a + 4, b - 3));
            b - 3
        } else {
            assert(!ends_with(rest, comment_close())) by {
                if ends_with(rest, comment_close()) {
                    assert(rest.subrange(rest.len() - 3, rest.len() as int)[0] == v@[b - 3]);
                    assert(rest.subrange(rest.len() - 3, rest.len() as int)[1] == v@[b - 2]);
                    assert(rest.subrange(rest.len() - 3, rest.len() as int)[2] == v@[b - 1]);
                }
            }
            b
        };
        let (na, nb) = trim_range(v, a + 4, inner_end);
        let note = string_of_range(v, na, nb);
        let ghost before = current@.comments;
        current.comments.push(note);
        assert(current@.comments =~= before.push(note_text(line)));
    } else {
        assert(!is_note(line)) by {
            if starts_with(t, comment_open()) {
                assert(t.subrange(0, 4)[0] == v@[a as int]);
                assert(t.subrange(0, 4)[1] == v@[a + 1]);
                assert(t.subrange(0, 4)[2] == v@[a + 2]);
                assert(t.subrange(0, 4)[3] == v@[a + 3]);
            }
        }
        let e = trim_end_range(v, from, to);
        let body = string_of_range(v, from, e);
        let ghost before = current@.content;
        current.content.push(body);
        assert(current@.content =~= before.push(trim_end(line)));
    }
}


proof fn lemma_lines_acc_take(s: Seq<char>, i: int)
    requires
        0 <= i < s.len(),
    ensures
        lines_acc(s.take(i + 1)) == ({
            let (done, open) = lines_acc(s.take(i));
            if s[i] == '\n' {
                (done.push(open), seq![])
            } else {
                (done, open.push(s[i]))
            }
        }),
{
    assert(s.take(i + 1).drop_last() =~= s.take(i));
}

/// Splits `contents` into slides: a new slide opens at each line whose
/// trimmed text starts with `#`, that trimmed text being its title. Lines
/// before the first heading belong to no slide.
pub fn split_to_slides(contents: &str) -> (r: Vec<Slide>)
    ensures
        slides_view(r@) == segment(contents@),
{
    let v = chars_of(contents);
    let mut done: Vec<Slide> = Vec::new();
    let mut current = Slide::new();
    let mut start: usize = 0;
    let mut i: usize = 0;
    let ghost mut lines: Seq<Seq<char>> = seq![];
    assert(slides_view(done@) =~= seq![]);
    while i < v.len()
        invariant
            v@ == contents@,
            start <= i <= v.len(),
            lines_acc(v@.take(i as int)) == (lines, v@.subrange(start as int, i as int)),
            seg_state(done@, current) == seg_from(seg_start(), lines),
        decreases v.len() - i,
    {
        proof {
            lemma_lines_acc_take(v@, i as int);
        }
        if v[i] == '\n' {
            apply_line(&mut done, &mut current, &v, start, i);
            proof {
                let line = v@.subrange(start as int, i as int);
                assert(lines.push(line).drop_last() =~= lines);
                lines = lines.push(line);
            }
            start = i + 1;
            assert(v@.subrange(start as int, i + 1) =~= seq![]);
        } else {
            assert(v@.subrange(start as int, i + 1) =~= v@.subrange(start as int, i as int).push(
                v@[i as int],
            ));
        }
        i += 1;
    }
    assert(v@.take(i as int) =~= v@);
    if start < i {
        apply_line(&mut done, &mut current, &v, start, i);
        proof {
            let line = v@.subrange(start as int, i as int);
            assert(lines.push(line).drop_last() =~= lines);
        }
    }
    if !current.title.as_str().is_empty() {
        let ghost before = done@;
        let ghost last = current@;
        done.push(current);
        assert(slides_view(done@) =~= slides_view(before).push(last));
    }
    done
}

} // verus!
