//! Properties of the segmenter, proved over its specification.
use vstd::prelude::*;
use crate::segment::{
    Segmenting, SlideView, is_heading, is_note, lines_acc, lines_of, seg_finish, seg_from,
    seg_start, seg_step, segment,
};
use crate::text::{trim, trim_end};

verus! {

/// The number of heading lines in `lines`.
pub open spec fn heading_count(lines: Seq<Seq<char>>) -> nat
    decreases lines.len(),
{
    if lines.len() == 0 {
        0
    } else {
        heading_count(lines.drop_last()) + if is_heading(lines.last()) {
            1nat
        } else {
            0nat
        }
    }
}

proof fn lemma_count_from_start(lines: Seq<Seq<char>>)
    ensures
        ({
            let st = seg_from(seg_start(), lines);
            &&& st.done.len() + (if st.current.title.len() > 0 {
                1nat
            } else {
                0nat
            }) == heading_count(lines)
            &&& (st.current.title.len() > 0 <==> heading_count(lines) > 0)
        }),
    decreases lines.len(),
{
    if lines.len() > 0 {
        lemma_count_from_start(lines.drop_last());
    }
}

/// A document without heading lines has no slides.
pub proof fn lemma_no_heading_no_slides(s: Seq<char>)
    requires
        forall|i: int| 0 <= i < lines_of(s).len() ==> !is_heading(#[trigger] lines_of(s)[i]),
    ensures
        segment(s).len() == 0,
{
    assert(heading_count(lines_of(s)) == 0) by {
        lemma_zero_count(lines_of(s));
    }
    lemma_count_from_start(lines_of(s));
}

proof fn lemma_zero_count(lines: Seq<Seq<char>>)
    requires
        forall|i: int| 0 <= i < lines.len() ==> !is_heading(#[trigger] lines[i]),
    ensures
        heading_count(lines) == 0,
    decreases lines.len(),
{
    if lines.len() > 0 {
        assert(!is_heading(lines[lines.len() - 1]));
        lemma_zero_count(lines.drop_last());
    }
}

/// A document has exactly one slide per heading line; lines before the
/// first heading give none.
pub proof fn lemma_one_slide_per_heading(s: Seq<char>)
    ensures
        segment(s).len() == heading_count(lines_of(s)),
{
    lemma_count_from_start(lines_of(s));
}


/// The document whose lines are `lines`, each ended by `'\n'`.
pub open spec fn document(lines: Seq<Seq<char>>) -> Seq<char>
    decreases lines.len(),
{
    if lines.len() == 0 {
        seq![]
    } else {
        document(lines.drop_last()) + lines.last() + seq!['\n']
    }
}

/// The lines of `groups`, one group after another.
pub open spec fn flatten(groups: Seq<Seq<Seq<char>>>) -> Seq<Seq<char>>
    decreases groups.len(),
{
    if groups.len() == 0 {
        seq![]
    } else {
        flatten(groups.drop_last()) + groups.last()
    }
}

pub open spec fn no_newline(line: Seq<char>) -> bool {
    forall|j: int| 0 <= j < line.len() ==> line[j] != '\n'
}

/// A body line: neither a heading nor a note.
pub open spec fn is_plain(line: Seq<char>) -> bool {
    !is_heading(line) && !is_note(line)
}

/// A heading line followed by `k` body lines, none holding a line break.
pub open spec fn is_section(g: Seq<Seq<char>>, k: nat) -> bool {
    &&& g.len() == k + 1
    &&& is_heading(g[0])
    &&& forall|j: int| 1 <= j < g.len() ==> is_plain(#[trigger] g[j])
    &&& forall|j: int| 0 <= j < g.len() ==> no_newline(#[trigger] g[j])
}

/// The slide that a section gives.
pub open spec fn section_slide(g: Seq<Seq<char>>) -> SlideView {
    SlideView {
        title: trim(g[0]),
        content: g.drop_first().map_values(|l: Seq<char>| trim_end(l)),
        comments: seq![],
    }
}

proof fn lemma_lines_acc_append(p: Seq<char>, l: Seq<char>)
    requires
        no_newline(l),
    ensures
        lines_acc(p + l) == (lines_acc(p).0, lines_acc(p).1 + l),
    decreases l.len(),
{
    if l.len() == 0 {
        assert(p + l =~= p);
        assert(lines_acc(p).1 + l =~= lines_acc(p).1);
    } else {
        assert((p + l).drop_last() =~= p + l.drop_last());
        lemma_lines_acc_append(p, l.drop_last());
        assert(lines_acc(p).1 + l.drop_last() + seq![l.last()] =~= lines_acc(p).1 + l);
    }
}

proof fn lemma_lines_of_document(lines: Seq<Seq<char>>)
    requires
        forall|j: int| 0 <= j < lines.len() ==> no_newline(#[trigger] lines[j]),
    ensures
        lines_acc(document(lines)) == (lines, Seq::<char>::empty()),
        lines_of(document(lines)) == lines,
    decreases lines.len(),
{
    if lines.len() > 0 {
        let prev = lines.drop_last();
        assert forall|j: int| 0 <= j < prev.len() implies no_newline(#[trigger] prev[j]) by {
            assert(prev[j] == lines[j]);
        }
        lemma_lines_of_document(prev);
        assert(no_newline(lines[lines.len() - 1]));
        lemma_lines_acc_append(document(prev), lines.last());
        let d = document(lines);
        assert(d.drop_last() =~= document(prev) + lines.last());
        assert(Seq::<char>::empty() + lines.last() =~= lines.last());
        assert(prev.push(lines.last()) =~= lines);
    } else {
        assert(lines =~= Seq::<Seq<char>>::empty());
    }
}

proof fn lemma_seg_from_append(st: Segmenting, a: Seq<Seq<char>>, b: Seq<Seq<char>>)
    ensures
        seg_from(st, a + b) == seg_from(seg_from(st, a), b),
    decreases b.len(),
{
    if b.len() == 0 {
        assert(a + b =~= a);
    } else {
        assert((a + b).drop_last() =~= a + b.drop_last());
        lemma_seg_from_append(st, a, b.drop_last());
    }
}

proof fn lemma_body_lines(st: Segmenting, body: Seq<Seq<char>>)
    requires
        forall|j: int| 0 <= j < body.len() ==> is_plain(#[trigger] body[j]),
    ensures
        seg_from(st, body) == (Segmenting {
            done: st.done,
            current: SlideView {
                content: st.current.content + body.map_values(|l: Seq<char>| trim_end(l)),
                ..st.current
            },
        }),
    decreases body.len(),
{
    if body.len() == 0 {
        assert(st.current.content + body.map_values(|l: Seq<char>| trim_end(l))
            =~= st.current.content);
    } else {
        let prev = body.drop_last();
        assert forall|j: int| 0 <= j < prev.len() implies is_plain(#[trigger] prev[j]) by {
            assert(prev[j] == body[j]);
        }
        lemma_body_lines(st, prev);
        assert(is_plain(body[body.len() - 1]));
        assert(st.current.content + prev.map_values(|l: Seq<char>| trim_end(l)).push(
            trim_end(body.last()),
        ) =~= st.current.content + body.map_values(|l: Seq<char>| trim_end(l)));
    }
}

proof fn lemma_section(st: Segmenting, g: Seq<Seq<char>>, k: nat)
    requires
        is_section(g, k),
    ensures
        seg_from(st, g) == (Segmenting { done: seg_finish(st), current: section_slide(g) }),
{
    assert(g =~= seq![g[0]] + g.drop_first());
    lemma_seg_from_append(st, seq![g[0]], g.drop_first());
    assert(seq![g[0]].drop_last() =~= Seq::<Seq<char>>::empty());
    assert(seg_from(st, seq![g[0]].drop_last()) == st);
    assert(seq![g[0]].last() == g[0]);
    let st1 = seg_step(st, g[0]);
    assert(seg_from(st, seq![g[0]]) == st1);
    assert forall|j: int| 0 <= j < g.drop_first().len() implies is_plain(
        #[trigger] g.drop_first()[j],
    ) by {
        assert(g.drop_first()[j] == g[j + 1]);
    }
    lemma_body_lines(st1, g.drop_first());
    assert(Seq::<Seq<char>>::empty() + g.drop_first().map_values(|l: Seq<char>| trim_end(l))
        =~= g.drop_first().map_values(|l: Seq<char>| trim_end(l)));
}

proof fn lemma_sections(groups: Seq<Seq<Seq<char>>>, k: nat)
    requires
        groups.len() > 0,
        forall|i: int| 0 <= i < groups.len() ==> is_section(#[trigger] groups[i], k),
    ensures
        seg_from(seg_start(), flatten(groups)) == (Segmenting {
            done: groups.drop_last().map_values(|g: Seq<Seq<char>>| section_slide(g)),
            current: section_slide(groups.last()),
        }),
    decreases groups.len(),
{
    let prev = groups.drop_last();
    let last = groups.last();
    assert(is_section(groups[groups.len() - 1], k));
    lemma_seg_from_append(seg_start(), flatten(prev), last);
    if prev.len() == 0 {
        assert(flatten(prev) =~= Seq::<Seq<char>>::empty());
        lemma_section(seg_start(), last, k);
        assert(prev.map_values(|g: Seq<Seq<char>>| section_slide(g)) =~= seq![]);
    } else {
        assert forall|i: int| 0 <= i < prev.len() implies is_section(#[trigger] prev[i], k) by {
            assert(prev[i] == groups[i]);
        }
        lemma_sections(prev, k);
        let st = seg_from(seg_start(), flatten(prev));
        lemma_section(st, last, k);
        assert(is_section(prev[prev.len() - 1], k));
        assert(trim(prev.last()[0]).len() > 0);
        assert(prev.drop_last().map_values(|g: Seq<Seq<char>>| section_slide(g)).push(
            section_slide(prev.last()),
        ) =~= prev.map_values(|g: Seq<Seq<char>>| section_slide(g)));
    }
}

/// A document made of `N` sections, each a heading line followed by `k`
/// body lines, gives exactly `N` slides: one per section, titled by its
/// trimmed heading, with its `k` body lines as content and no notes.
pub proof fn lemma_sections_round_trip(groups: Seq<Seq<Seq<char>>>, k: nat)
    requires
        forall|i: int| 0 <= i < groups.len() ==> is_section(#[trigger] groups[i], k),
    ensures
        segment(document(flatten(groups))) == groups.map_values(
            |g: Seq<Seq<char>>| section_slide(g),
        ),
        segment(document(flatten(groups))).len() == groups.len(),
        forall|i: int|
            0 <= i < groups.len() ==> (#[trigger] segment(document(flatten(groups)))[i]).content.len()
                == k,
{
    lemma_flatten_no_newline(groups, k);
    lemma_lines_of_document(flatten(groups));
    if groups.len() == 0 {
        assert(flatten(groups) =~= Seq::<Seq<char>>::empty());
        assert(groups.map_values(|g: Seq<Seq<char>>| section_slide(g)) =~= seq![]);
    } else {
        lemma_sections(groups, k);
        assert(is_section(groups[groups.len() - 1], k));
        assert(groups.drop_last().map_values(|g: Seq<Seq<char>>| section_slide(g)).push(
            section_slide(groups.last()),
        ) =~= groups.map_values(|g: Seq<Seq<char>>| section_slide(g)));
    }
    assert forall|i: int| 0 <= i < groups.len() implies (#[trigger] segment(
        document(flatten(groups)),
    )[i]).content.len() == k by {
        assert(is_section(groups[i], k));
    }
}

proof fn lemma_flatten_no_newline(groups: Seq<Seq<Seq<char>>>, k: nat)
    requires
        forall|i: int| 0 <= i < groups.len() ==> is_section(#[trigger] groups[i], k),
    ensures
        forall|j: int|
            0 <= j < flatten(groups).len() ==> no_newline(#[trigger] flatten(groups)[j]),
    decreases groups.len(),
{
    if groups.len() > 0 {
        let prev = groups.drop_last();
        assert forall|i: int| 0 <= i < prev.len() implies is_section(#[trigger] prev[i], k) by {
            assert(prev[i] == groups[i]);
        }
        lemma_flatten_no_newline(prev, k);
        assert(is_section(groups[groups.len() - 1], k));
        let f = flatten(groups);
        let fp = flatten(prev);
        assert forall|j: int| 0 <= j < f.len() implies no_newline(#[trigger] f[j]) by {
            if j < fp.len() {
                assert(f[j] == fp[j]);
            } else {
                assert(f[j] == groups.last()[j - fp.len()]);
            }
        }
    }
}


proof fn lemma_titles_from_start(lines: Seq<Seq<char>>)
    ensures
        ({
            let st = seg_from(seg_start(), lines);
            &&& forall|i: int|
                0 <= i < st.done.len() ==> (#[trigger] st.done[i]).title.len() > 0
                    && st.done[i].title[0] == '#'
            &&& st.current.title.len() > 0 ==> st.current.title[0] == '#'
        }),
    decreases lines.len(),
{
    if lines.len() > 0 {
        lemma_titles_from_start(lines.drop_last());
        let prev = seg_from(seg_start(), lines.drop_last());
        let st = seg_from(seg_start(), lines);
        assert forall|i: int| 0 <= i < st.done.len() implies (#[trigger] st.done[i]).title.len()
            > 0 && st.done[i].title[0] == '#' by {
            if i < prev.done.len() {
                assert(st.done[i] == prev.done[i]);
            }
        }
    }
}

/// Every slide is titled by a heading line, trimmed: its title is not empty
/// and starts with `#`.
pub proof fn lemma_titles_are_headings(s: Seq<char>)
    ensures
        forall|i: int|
            0 <= i < segment(s).len() ==> (#[trigger] segment(s)[i]).title.len() > 0
                && segment(s)[i].title[0] == '#',
{
    lemma_titles_from_start(lines_of(s));
    let st = seg_from(seg_start(), lines_of(s));
    assert forall|i: int| 0 <= i < segment(s).len() implies (#[trigger] segment(s)[i]).title.len()
        > 0 && segment(s)[i].title[0] == '#' by {
        if i < st.done.len() {
            assert(segment(s)[i] == st.done[i]);
        }
    }
}

} // verus!
