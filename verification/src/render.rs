//! The incremental text-diff renderer: projects a target text and the length
//! of the correctly typed prefix into display-ready lines, each line split
//! into a typed and a remaining segment, with glyph substitution for spaces
//! and tabs and a vertical scroll position derived from the typed prefix.

use vstd::prelude::*;

verus! {

/// How a segment of rendered text is to be styled.
#[derive(Clone, Copy, Debug, PartialEq, Eq, Structural)]
pub enum StyleTag {
    Typed,
    Remaining,
}

/// Index of the first newline in `s`, or `s.len()` when there is none.
pub open spec fn first_newline(s: Seq<char>) -> nat
    decreases s.len(),
{
    if s.len() == 0 {
        0
    } else if s[0] == '\n' {
        0
    } else {
        1 + first_newline(s.drop_first())
    }
}

/// Splits `s` on newline characters, the way the renderer walks the text:
/// `"ab\ncd"` gives `["ab", "cd"]`, a trailing newline gives a final empty
/// line, and the empty text gives one empty line.
pub open spec fn spec_split_lines(s: Seq<char>) -> Seq<Seq<char>>
    decreases s.len(),
{
    let i = first_newline(s);
    if i >= s.len() {
        seq![s]
    } else {
        seq![s.subrange(0, i as int)] + spec_split_lines(s.subrange(i as int + 1, s.len() as int))
    }
}

/// Joins lines with a newline between each adjacent pair: the inverse of
/// `spec_split_lines`.
pub open spec fn spec_join_lines(lines: Seq<Seq<char>>) -> Seq<char>
    decreases lines.len(),
{
    if lines.len() == 0 {
        Seq::empty()
    } else if lines.len() == 1 {
        lines[0]
    } else {
        lines[0] + seq!['\n'] + spec_join_lines(lines.drop_first())
    }
}

/// The character offset at which line `i` of `lines` starts within the
/// joined text: every earlier line contributes its length plus one for the
/// newline that was split away.
pub open spec fn spec_line_start(lines: Seq<Seq<char>>, i: int) -> int
    decreases i,
{
    if i <= 0 {
        0
    } else {
        spec_line_start(lines, i - 1) + lines[i - 1].len() + 1
    }
}

/// How one raw line is cut into tagged segments, given the offset `pos` at
/// which the line starts and the length `typed_len` of the typed prefix:
/// wholly before the boundary, wholly after it, or split at it.
pub open spec fn spec_tag_line(line: Seq<char>, pos: int, typed_len: int) -> Seq<
    (Seq<char>, StyleTag),
> {
    if pos + line.len() <= typed_len {
        seq![(line, StyleTag::Typed)]
    } else if pos >= typed_len {
        seq![(line, StyleTag::Remaining)]
    } else {
        seq![
            (line.subrange(0, typed_len - pos), StyleTag::Typed),
            (line.subrange(typed_len - pos, line.len() as int), StyleTag::Remaining),
        ]
    }
}

/// Glyph substitution: each space becomes `space_display`, each tab becomes
/// `tab_display`, every other character stands unchanged.
pub open spec fn spec_substitute(
    raw: Seq<char>,
    tab_display: Seq<char>,
    space_display: Seq<char>,
) -> Seq<char>
    decreases raw.len(),
{
    if raw.len() == 0 {
        Seq::empty()
    } else {
        let head = if raw[0] == ' ' {
            space_display
        } else if raw[0] == '\t' {
            tab_display
        } else {
            seq![raw[0]]
        };
        head + spec_substitute(raw.drop_first(), tab_display, space_display)
    }
}

/// The number of newline characters in `s`; the renderer's vertical scroll
/// position.
pub open spec fn count_newlines(s: Seq<char>) -> nat
    decreases s.len(),
{
    if s.len() == 0 {
        0
    } else {
        count_newlines(s.drop_last()) + if s.last() == '\n' {
            1nat
        } else {
            0nat
        }
    }
}

/// A run of characters within one rendered line that shares one style.
/// `raw` is the slice of the target text itself; `display` is `raw` after
/// glyph substitution.
#[derive(Debug)]
pub struct Segment {
    pub raw: Vec<char>,
    pub display: Vec<char>,
    pub tag: StyleTag,
}

/// One rendered line: its segments in order, at most one `Typed` run
/// followed by at most one `Remaining` run.
#[derive(Debug)]
pub struct RenderLine {
    pub segments: Vec<Segment>,
}

impl View for RenderLine {
    type V = Seq<(Seq<char>, StyleTag)>;

    open spec fn view(&self) -> Seq<(Seq<char>, StyleTag)> {
        self.segments@.map_values(|s: Segment| (s.raw@, s.tag))
    }
}

/// `first_newline` names the first newline: everything before it is not a
/// newline, and it is a newline unless the text has none at all.
pub proof fn lemma_first_newline(s: Seq<char>)
    ensures
        first_newline(s) <= s.len(),
        first_newline(s) < s.len() ==> s[first_newline(s) as int] == '\n',
        forall|k: int| 0 <= k < first_newline(s) ==> s[k] != '\n',
    decreases s.len(),
{
    if s.len() == 0 {
    } else if s[0] == '\n' {
    } else {
        lemma_first_newline(s.drop_first());
        assert forall|k: int| 0 <= k < first_newline(s) implies s[k] != '\n' by {
            if k > 0 {
                assert(s.drop_first()[k - 1] == s[k]);
            }
        }
    }
}

/// Conversely, a position before which there is no newline, and which holds
/// a newline or is the end of the text, is `first_newline`.
pub proof fn lemma_first_newline_is(s: Seq<char>, j: nat)
    requires
        j <= s.len(),
        forall|k: int| 0 <= k < j ==> s[k] != '\n',
        j < s.len() ==> s[j as int] == '\n',
    ensures
        first_newline(s) == j,
    decreases s.len(),
{
    if j == 0 {
    } else {
        assert(s[0] != '\n');
        assert forall|k: int| 0 <= k < j - 1 implies s.drop_first()[k] != '\n' by {
            assert(s.drop_first()[k] == s[k + 1]);
        }
        assert((j - 1) < s.drop_first().len() ==> s.drop_first()[j - 1] == s[j as int]);
        lemma_first_newline_is(s.drop_first(), (j - 1) as nat);
    }
}

/// Splitting yields at least one line, even of the empty text.
pub proof fn lemma_split_lines_nonempty(s: Seq<char>)
    ensures
        spec_split_lines(s).len() >= 1,
{
}

/// Joining the split lines gives the text back: nothing is lost or invented
/// by cutting at newlines.
pub proof fn lemma_split_join(s: Seq<char>)
    ensures
        spec_join_lines(spec_split_lines(s)) == s,
    decreases s.len(),
{
    lemma_first_newline(s);
    let i = first_newline(s);
    if i >= s.len() {
    } else {
        let rest = s.subrange(i as int + 1, s.len() as int);
        lemma_split_join(rest);
        lemma_split_lines_nonempty(rest);
        let ls = spec_split_lines(s);
        assert(ls == seq![s.subrange(0, i as int)] + spec_split_lines(rest));
        assert(ls.drop_first() =~= spec_split_lines(rest));
        assert(ls.len() >= 2);
        assert(spec_join_lines(ls) == ls[0] + seq!['\n'] + spec_join_lines(ls.drop_first()));
        assert(s.subrange(0, i as int) + seq!['\n'] + rest =~= s);
    }
}

/// The raw text of a line's segments, concatenated in order.
pub open spec fn spec_segments_raw(segs: Seq<(Seq<char>, StyleTag)>) -> Seq<char>
    decreases segs.len(),
{
    if segs.len() == 0 {
        Seq::empty()
    } else {
        segs[0].0 + spec_segments_raw(segs.drop_first())
    }
}

/// Cutting a line into tagged segments loses nothing: the raw segment texts
/// concatenate back to the line, wherever the typed boundary falls.
pub proof fn lemma_tag_line_reconstructs(line: Seq<char>, pos: int, typed_len: int)
    ensures
        spec_segments_raw(spec_tag_line(line, pos, typed_len)) == line,
{
    let segs = spec_tag_line(line, pos, typed_len);
    if pos + line.len() <= typed_len || pos >= typed_len {
        assert(segs.drop_first().len() == 0);
        assert(spec_segments_raw(segs.drop_first()) == Seq::<char>::empty());
        assert(spec_segments_raw(segs) =~= line);
    } else {
        let tail = segs.drop_first();
        assert(tail =~= seq![
            (line.subrange(typed_len - pos, line.len() as int), StyleTag::Remaining),
        ]);
        assert(tail.drop_first().len() == 0);
        assert(spec_segments_raw(tail.drop_first()) == Seq::<char>::empty());
        assert(spec_segments_raw(tail) =~= line.subrange(typed_len - pos, line.len() as int));
        assert(spec_segments_raw(segs) =~= line);
    }
}

/// The full rendered text of a target, raw side only: every line rendered at
/// its own starting offset, joined back with newlines.
pub open spec fn spec_rendered_raw(content: Seq<char>, typed_len: int) -> Seq<char> {
    let ls = spec_split_lines(content);
    spec_join_lines(
        Seq::new(
            ls.len(),
            |i: int| spec_segments_raw(spec_tag_line(ls[i], spec_line_start(ls, i), typed_len)),
        ),
    )
}

/// The renderer reconstructs its input: concatenating every raw segment of
/// every rendered line, with the split newlines put back, gives the target
/// text exactly, for every position of the typed boundary.
pub proof fn lemma_render_reconstructs(content: Seq<char>, typed_len: int)
    ensures
        spec_rendered_raw(content, typed_len) == content,
{
    let ls = spec_split_lines(content);
    let rendered = Seq::new(
        ls.len(),
        |i: int| spec_segments_raw(spec_tag_line(ls[i], spec_line_start(ls, i), typed_len)),
    );
    assert forall|i: int| 0 <= i < ls.len() implies rendered[i] == ls[i] by {
        lemma_tag_line_reconstructs(ls[i], spec_line_start(ls, i), typed_len);
    }
    assert(rendered =~= ls);
    lemma_split_join(content);
}

/// Appends every character of `src` to `dst`.
fn append_chars(dst: &mut Vec<char>, src: &Vec<char>)
    ensures
        final(dst)@ == old(dst)@ + src@,
{
    let mut k: usize = 0;
    while k < src.len()
        invariant
            k <= src@.len(),
            dst@ == old(dst)@ + src@.subrange(0, k as int),
        decreases src@.len() - k,
    {
        dst.push(src[k]);
        proof {
            assert(old(dst)@ + src@.subrange(0, k as int) + seq![src@[k as int]] =~= old(dst)@
                + src@.subrange(0, k as int + 1));
        }
        k += 1;
    }
    proof {
        assert(old(dst)@ + src@.subrange(0, src@.len() as int) =~= old(dst)@ + src@);
    }
}

/// Copies the characters of `src` between `from` and `to` into a fresh
/// vector.
fn copy_range(src: &Vec<char>, from: usize, to: usize) -> (r: Vec<char>)
    requires
        from <= to <= src@.len(),
    ensures
        r@ == src@.subrange(from as int, to as int),
{
    let mut r: Vec<char> = Vec::new();
    let mut k: usize = from;
    while k < to
        invariant
            from <= k <= to <= src@.len(),
            r@ == src@.subrange(from as int, k as int),
        decreases to - k,
    {
        r.push(src[k]);
        proof {
            assert(src@.subrange(from as int, k as int) + seq![src@[k as int]] =~= src@.subrange(
                from as int,
                k as int + 1,
            ));
        }
        k += 1;
    }
    r
}

/// Finds the first newline at or after `start`, or the end of the text.
fn find_newline(content: &Vec<char>, start: usize) -> (j: usize)
    requires
        start <= content@.len(),
    ensures
        start <= j <= content@.len(),
        forall|k: int| start <= k < j ==> content@[k] != '\n',
        j < content@.len() ==> content@[j as int] == '\n',
{
    let mut j: usize = start;
    while j < content.len()
        invariant
            start <= j <= content@.len(),
            forall|k: int| start <= k < j ==> content@[k] != '\n',
        decreases content@.len() - j,
    {
        if content[j] == '\n' {
            return j;
        }
        j += 1;
    }
    j
}

/// Applies glyph substitution to one raw run of characters.
pub fn substitute(raw: &Vec<char>, tab_display: &Vec<char>, space_display: &Vec<char>) -> (r: Vec<
    char,
>)
    ensures
        r@ == spec_substitute(raw@, tab_display@, space_display@),
{
    let mut r: Vec<char> = Vec::new();
    let mut i: usize = 0;
    proof {
        assert(raw@.skip(0) =~= raw@);
        assert(r@ + spec_substitute(raw@, tab_display@, space_display@) =~= spec_substitute(
            raw@,
            tab_display@,
            space_display@,
        ));
    }
    while i < raw.len()
        invariant
            i <= raw@.len(),
            r@ + spec_substitute(raw@.skip(i as int), tab_display@, space_display@)
                == spec_substitute(raw@, tab_display@, space_display@),
        decreases raw@.len() - i,
    {
        let ghost prev = r@;
        let ghost suffix = raw@.skip(i as int);
        proof {
            assert(suffix[0] == raw@[i as int]);
            assert(suffix.drop_first() =~= raw@.skip(i as int + 1));
        }
        let c = raw[i];
        if c == ' ' {
            append_chars(&mut r, space_display);
        } else if c == '\t' {
            append_chars(&mut r, tab_display);
        } else {
            r.push(c);
        }
        proof {
            let head = if raw@[i as int] == ' ' {
                space_display@
            } else if raw@[i as int] == '\t' {
                tab_display@
            } else {
                seq![raw@[i as int]]
            };
            assert(r@ =~= prev + head);
            assert(spec_substitute(suffix, tab_display@, space_display@) == head
                + spec_substitute(suffix.drop_first(), tab_display@, space_display@));
            assert(r@ + spec_substitute(raw@.skip(i as int + 1), tab_display@, space_display@)
                =~= prev + spec_substitute(suffix, tab_display@, space_display@));
        }
        i += 1;
    }
    proof {
        assert(raw@.skip(raw@.len() as int).len() == 0);
        assert(r@ + spec_substitute(raw@.skip(raw@.len() as int), tab_display@, space_display@)
            =~= r@);
    }
    r
}

/// Renders one raw line as tagged, substituted segments, given the offset at
/// which it starts in the target text.
pub fn tag_line(
    line: &Vec<char>,
    pos: usize,
    typed_len: usize,
    tab_display: &Vec<char>,
    space_display: &Vec<char>,
) -> (r: RenderLine)
    requires
        pos + line@.len() <= usize::MAX,
    ensures
        r@ == spec_tag_line(line@, pos as int, typed_len as int),
        forall|j: int|
            0 <= j < r.segments@.len() ==> (#[trigger] r.segments@[j].display)@ == spec_substitute(
                r.segments@[j].raw@,
                tab_display@,
                space_display@,
            ),
{
    let mut segments: Vec<Segment> = Vec::new();
    if pos + line.len() <= typed_len {
        let raw = copy_range(line, 0, line.len());
        proof {
            assert(raw@ =~= line@);
        }
        let display = substitute(&raw, tab_display, space_display);
        segments.push(Segment { raw, display, tag: StyleTag::Typed });
    } else if pos >= typed_len {
        let raw = copy_range(line, 0, line.len());
        proof {
            assert(raw@ =~= line@);
        }
        let display = substitute(&raw, tab_display, space_display);
        segments.push(Segment { raw, display, tag: StyleTag::Remaining });
    } else {
        let split = typed_len - pos;
        let raw_done = copy_range(line, 0, split);
        let display_done = substitute(&raw_done, tab_display, space_display);
        segments.push(Segment { raw: raw_done, display: display_done, tag: StyleTag::Typed });
        let raw_rest = copy_range(line, split, line.len());
        let display_rest = substitute(&raw_rest, tab_display, space_display);
        segments.push(
            Segment { raw: raw_rest, display: display_rest, tag: StyleTag::Remaining },
        );
    }
    let r = RenderLine { segments };
    proof {
        assert(r@ =~= spec_tag_line(line@, pos as int, typed_len as int));
    }
    r
}

/// Renders the whole target text against the typed boundary: the text is
/// split at newlines, each line is tagged and substituted at its own offset.
pub fn render_lines(
    content: &Vec<char>,
    typed_len: usize,
    tab_display: &Vec<char>,
    space_display: &Vec<char>,
) -> (lines: Vec<RenderLine>)
    ensures
        lines@.len() == spec_split_lines(content@).len(),
        forall|i: int|
            0 <= i < lines@.len() ==> (#[trigger] lines@[i])@ == spec_tag_line(
                spec_split_lines(content@)[i],
                spec_line_start(spec_split_lines(content@), i),
                typed_len as int,
            ),
        forall|i: int, j: int|
            0 <= i < lines@.len() && 0 <= j < lines@[i].segments@.len() ==> (
            #[trigger] lines@[i].segments@[j].display)@ == spec_substitute(
                lines@[i].segments@[j].raw@,
                tab_display@,
                space_display@,
            ),
{
    let ghost ls = spec_split_lines(content@);
    let mut lines: Vec<RenderLine> = Vec::new();
    let mut start: usize = 0;
    proof {
        assert(content@.skip(0) =~= content@);
        assert(ls.skip(0) =~= ls);
    }
    loop
        invariant_except_break
            spec_split_lines(content@.skip(start as int)) == ls.skip(lines@.len() as int),
            spec_line_start(ls, lines@.len() as int) == start,
            lines@.len() < ls.len(),
        invariant
            start <= content@.len(),
            ls == spec_split_lines(content@),
            lines@.len() <= ls.len(),
            forall|i: int|
                0 <= i < lines@.len() ==> (#[trigger] lines@[i])@ == spec_tag_line(
                    ls[i],
                    spec_line_start(ls, i),
                    typed_len as int,
                ),
            forall|i: int, j: int|
                0 <= i < lines@.len() && 0 <= j < lines@[i].segments@.len() ==> (
                #[trigger] lines@[i].segments@[j].display)@ == spec_substitute(
                    lines@[i].segments@[j].raw@,
                    tab_display@,
                    space_display@,
                ),
        ensures
            lines@.len() == ls.len(),
            forall|i: int|
                0 <= i < lines@.len() ==> (#[trigger] lines@[i])@ == spec_tag_line(
                    ls[i],
                    spec_line_start(ls, i),
                    typed_len as int,
                ),
            forall|i: int, j: int|
                0 <= i < lines@.len() && 0 <= j < lines@[i].segments@.len() ==> (
                #[trigger] lines@[i].segments@[j].display)@ == spec_substitute(
                    lines@[i].segments@[j].raw@,
                    tab_display@,
                    space_display@,
                ),
        decreases content@.len() - start,
    {
        let ghost m = lines@.len() as int;
        let ghost suffix = content@.skip(start as int);
        let j = find_newline(content, start);
        proof {
            assert forall|k: int| 0 <= k < j - start implies suffix[k] != '\n' by {
                assert(suffix[k] == content@[start + k]);
            }
            assert(j - start < suffix.len() ==> suffix[j - start] == content@[j as int]);
            lemma_first_newline_is(suffix, (j - start) as nat);
        }
        let line = copy_range(content, start, j);
        proof {
            assert(line@ =~= suffix.subrange(0, (j - start) as int));
            if j < content.len() {
                assert(spec_split_lines(suffix) == seq![suffix.subrange(0, (j - start) as int)]
                    + spec_split_lines(suffix.subrange(j - start + 1, suffix.len() as int)));
            } else {
                assert(line@ =~= suffix);
                assert(spec_split_lines(suffix) == seq![suffix]);
            }
        }
        let rendered = tag_line(&line, start, typed_len, tab_display, space_display);
        lines.push(rendered);
        if j == content.len() {
            proof {
                assert(ls.skip(m) == seq![suffix]);
                assert(ls[m] == ls.skip(m)[0]);
                assert(ls.skip(m).len() == ls.len() - m);
                assert(ls.len() == m + 1);
            }
            break ;
        }
        proof {
            let rest = suffix.subrange(j - start + 1, suffix.len() as int);
            assert(ls.skip(m) == seq![line@] + spec_split_lines(rest));
            assert(ls[m] == ls.skip(m)[0]);
            assert(rest =~= content@.skip(j as int + 1));
            assert(ls.skip(m + 1) =~= spec_split_lines(rest)) by {
                assert forall|k: int| 0 <= k < ls.len() - m - 1 implies ls.skip(m + 1)[k]
                    == spec_split_lines(rest)[k] by {
                    assert(ls.skip(m + 1)[k] == ls.skip(m)[k + 1]);
                }
            }
            assert(spec_line_start(ls, m + 1) == spec_line_start(ls, m) + ls[m].len() + 1);
        }
        start = j + 1;
    }
    lines
}

/// The vertical scroll position: how many completed lines the typed prefix
/// spans, as the number of newline characters it contains.
pub fn scroll_row(typed: &Vec<char>) -> (r: u16)
    requires
        typed@.len() <= u16::MAX,
    ensures
        r == count_newlines(typed@),
{
    let mut r: u16 = 0;
    let mut i: usize = 0;
    while i < typed.len()
        invariant
            i <= typed@.len() <= u16::MAX,
            r <= i,
            r == count_newlines(typed@.subrange(0, i as int)),
        decreases typed@.len() - i,
    {
        let ghost prefix = typed@.subrange(0, i as int + 1);
        proof {
            assert(prefix.drop_last() =~= typed@.subrange(0, i as int));
            assert(prefix.last() == typed@[i as int]);
        }
        if typed[i] == '\n' {
            r += 1;
        }
        i += 1;
    }
    proof {
        assert(typed@.subrange(0, typed@.len() as int) =~= typed@);
    }
    r
}

} // verus!
