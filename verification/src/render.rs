use vstd::prelude::*;
use crate::app::{App, ordered};
use crate::screen::{AppView, InputMode, clamp_col, sat_dec, screen_lines};
use crate::text::{append_range, string_of, views};

verus! {

/// A piece of a line of text on the screen, shown plainly or highlighted.
pub struct Segment {
    pub text: String,
    pub highlighted: bool,
}

/// A piece of a line, as values.
pub struct SegmentView {
    pub text: Seq<char>,
    pub highlighted: bool,
}

impl View for Segment {
    type V = SegmentView;

    open spec fn view(&self) -> SegmentView {
        SegmentView { text: self.text@, highlighted: self.highlighted }
    }
}

/// The views of the pieces of a line.
pub open spec fn segment_views(s: Seq<Segment>) -> Seq<SegmentView> {
    s.map_values(|g: Segment| g@)
}

/// The views of the lines of a text, each cut in pieces.
pub open spec fn rendered_views(r: Seq<Vec<Segment>>) -> Seq<Seq<SegmentView>> {
    r.map_values(|l: Vec<Segment>| segment_views(l@))
}

/// A plain piece.
pub open spec fn plain(t: Seq<char>) -> SegmentView {
    SegmentView { text: t, highlighted: false }
}

/// A highlighted piece.
pub open spec fn marked(t: Seq<char>) -> SegmentView {
    SegmentView { text: t, highlighted: true }
}

/// The first line shown of an article `height` lines high: the scroll
/// position moved just far enough to show the cursor's line.
pub open spec fn scroll_for(cursor: int, scroll: int, height: int) -> int {
    if cursor < scroll {
        cursor
    } else if cursor >= scroll + height {
        if cursor >= height - 1 {
            cursor - (height - 1)
        } else {
            0
        }
    } else {
        scroll
    }
}

/// The character selection, its earlier end first, while one is made.
pub open spec fn char_selection(v: AppView) -> Option<((usize, usize), (usize, usize))> {
    if v.input_mode == InputMode::VisualSelect && v.visual_select_start is Some
        && v.visual_select_end is Some {
        Some(ordered(v.visual_select_start->0, v.visual_select_end->0))
    } else {
        None
    }
}

/// The line selection, its first line first, while one is made.
pub open spec fn line_selection(v: AppView) -> Option<(usize, usize)> {
    if v.input_mode == InputMode::VisualLine && v.visual_line_start is Some
        && v.visual_line_end is Some {
        let s = v.visual_line_start->0;
        let e = v.visual_line_end->0;
        if s <= e {
            Some((s, e))
        } else {
            Some((e, s))
        }
    } else {
        None
    }
}

/// A line with columns `start` to `end` (both included, `end` kept on the
/// line) highlighted, the rest plain.
pub open spec fn selected_part(c: Seq<char>, start: int, end: int) -> Seq<SegmentView> {
    let n = c.len() as int;
    let e = clamp_col(end, n);
    let before = if start > 0 {
        seq![plain(c.take(start))]
    } else {
        Seq::empty()
    };
    let mid = if start <= e && n > 0 {
        seq![marked(c.subrange(start, e + 1))]
    } else {
        Seq::empty()
    };
    let after = if e + 1 < n {
        seq![plain(c.skip(e + 1))]
    } else {
        Seq::empty()
    };
    let all = before + mid + after;
    if all.len() == 0 {
        seq![plain(Seq::empty())]
    } else {
        all
    }
}

/// A line with the cursor's character highlighted (a highlighted blank on
/// an empty line).
pub open spec fn cursor_part(c: Seq<char>, col: int) -> Seq<SegmentView> {
    let n = c.len() as int;
    if n == 0 {
        seq![marked(seq![' '])]
    } else {
        let k = clamp_col(col, n);
        let before = if k > 0 {
            seq![plain(c.take(k))]
        } else {
            Seq::empty()
        };
        let after = if k + 1 < n {
            seq![plain(c.skip(k + 1))]
        } else {
            Seq::empty()
        };
        before + seq![marked(c.subrange(k, k + 1))] + after
    }
}

/// The columns of line `i` that a character selection from `a` to `b`
/// covers.
pub open spec fn selected_columns(
    c: Seq<char>,
    i: int,
    a: (usize, usize),
    b: (usize, usize),
) -> (int, int) {
    if a.0 == b.0 {
        (a.1 as int, b.1 as int)
    } else if i == a.0 {
        (a.1 as int, sat_dec(c.len() as int))
    } else if i == b.0 {
        (0, b.1 as int)
    } else {
        (0, sat_dec(c.len() as int))
    }
}

/// How line `i` of the article is shown: wholly highlighted in a line
/// selection, partly in a character selection, with the cursor while
/// reading, plainly otherwise.
pub open spec fn line_parts(v: AppView, ls: Seq<Seq<char>>, i: int) -> Seq<SegmentView> {
    let ln = line_selection(v);
    let ch = char_selection(v);
    if ln is Some && (ln->0).0 <= i <= (ln->0).1 {
        seq![marked(ls[i])]
    } else if ch is Some && ((ch->0).0).0 <= i <= ((ch->0).1).0 {
        let (s, e) = selected_columns(ls[i], i, (ch->0).0, (ch->0).1);
        selected_part(ls[i], s, e)
    } else if i == v.article_cursor && v.input_mode == InputMode::ViewingArticle {
        cursor_part(ls[i], v.article_cursor_col as int)
    } else {
        seq![plain(ls[i])]
    }
}

/// The number of lines shown from `first` on, at most `height`.
pub open spec fn shown_count(total: int, first: int, height: int) -> int {
    if first >= total {
        0
    } else if total - first < height {
        total - first
    } else {
        height
    }
}

/// The lines of the open article that a view `height` lines high shows,
/// each cut in pieces.
pub open spec fn article_render(v: AppView, height: int) -> Seq<Seq<SegmentView>> {
    let ls = screen_lines(v);
    let first = scroll_for(v.article_cursor as int, v.article_scroll as int, height);
    Seq::new(
        shown_count(ls.len() as int, first, height) as nat,
        |k: int| line_parts(v, ls, first + k),
    )
}

/// The first line shown can be found without an arithmetic overflow: the
/// view has a line unless the cursor is above the scroll position.
pub open spec fn scroll_defined(v: AppView, height: int) -> bool {
    v.article_cursor >= v.article_scroll ==> height > 0 && v.article_scroll + height <= usize::MAX
}

/// The article can be shown `height` lines high without an arithmetic
/// overflow or a line cut out of range: the view has a line unless the
/// cursor is above the scroll position, and a character selection that
/// starts on a shown line does not start past its end.
pub open spec fn render_defined(v: AppView, height: int) -> bool {
    let ls = screen_lines(v);
    let first = scroll_for(v.article_cursor as int, v.article_scroll as int, height);
    &&& scroll_defined(v, height)
    &&& (char_selection(v) matches Some((a, b)) ==> (first <= a.0 < first + height && a.0
        < ls.len() ==> a.1 <= ls[a.0 as int].len()))
}

fn piece(c: &Vec<char>, start: usize, end: usize, highlighted: bool) -> (r: Segment)
    requires
        start <= end <= c.len(),
    ensures
        r@ == (SegmentView { text: c@.subrange(start as int, end as int), highlighted }),
{
    let mut out: Vec<char> = Vec::new();
    append_range(&mut out, c.as_slice(), start, end);
    Segment { text: string_of(&out), highlighted }
}

fn selected_part_of(c: &Vec<char>, start: usize, end: usize) -> (r: Vec<Segment>)
    requires
        start <= c.len(),
    ensures
        segment_views(r@) == selected_part(c@, start as int, end as int),
{
    let n = c.len();
    let e = if n == 0 {
        0
    } else if end < n - 1 {
        end
    } else {
        n - 1
    };
    assert(e == clamp_col(end as int, n as int));
    let mut r: Vec<Segment> = Vec::new();
    let ghost want = selected_part(c@, start as int, end as int);
    if start > 0 {
        r.push(piece(c, 0, start, false));
    }
    if start <= e && n > 0 {
        r.push(piece(c, start, e + 1, true));
    }
    if e + 1 < n {
        r.push(piece(c, e + 1, n, false));
    }
    if r.len() == 0 {
        let empty: Vec<char> = Vec::new();
        r.push(Segment { text: string_of(&empty), highlighted: false });
    }
    assert(segment_views(r@) =~= want);
    r
}

fn cursor_part_of(c: &Vec<char>, col: usize) -> (r: Vec<Segment>)
    ensures
        segment_views(r@) == cursor_part(c@, col as int),
{
    let n = c.len();
    let mut r: Vec<Segment> = Vec::new();
    if n == 0 {
        let blank = vec![' '];
        assert(blank@ =~= seq![' ']);
        r.push(Segment { text: string_of(&blank), highlighted: true });
        assert(segment_views(r@) =~= cursor_part(c@, col as int));
        return r;
    }
    let k = if col < n - 1 {
        col
    } else {
        n - 1
    };
    assert(k == clamp_col(col as int, n as int));
    if k > 0 {
        r.push(piece(c, 0, k, false));
    }
    r.push(piece(c, k, k + 1, true));
    if k + 1 < n {
        r.push(piece(c, k + 1, n, false));
    }
    assert(segment_views(r@) =~= cursor_part(c@, col as int));
    r
}

/// The lines of text that a full-screen view shows on a terminal `height`
/// rows high: two rows go to the frame.
pub fn view_rows(height: u16) -> (r: usize)
    ensures
        r == if height >= 2 {
            height - 2
        } else {
            0
        },
{
    if height >= 2 {
        (height - 2) as usize
    } else {
        0
    }
}

impl App {
    /// The first line shown of the open article, `height` lines high.
    fn first_shown_line(&self, height: usize) -> (r: usize)
        requires
            scroll_defined(self@, height as int),
        ensures
            r == scroll_for(self.article_cursor as int, self.article_scroll as int, height as int),
    {
        if self.article_cursor < self.article_scroll {
            self.article_cursor
        } else if self.article_cursor >= self.article_scroll + height {
            if self.article_cursor >= height - 1 {
                self.article_cursor - (height - 1)
            } else {
                0
            }
        } else {
            self.article_scroll
        }
    }

    /// Tells whether the open article can be shown `height` lines high (see
    /// `render_defined`).
    pub fn render_defined(&self, height: usize) -> (r: bool)
        ensures
            r == render_defined(self@, height as int),
    {
        if self.article_cursor >= self.article_scroll {
            if height == 0 || self.article_scroll > usize::MAX - height {
                return false;
            }
        }
        let first = self.first_shown_line(height);
        if self.input_mode == InputMode::VisualSelect {
            if let (Some(s), Some(e)) = (self.visual_select_start, self.visual_select_end) {
                let a = if s.0 < e.0 || (s.0 == e.0 && s.1 <= e.1) {
                    s
                } else {
                    e
                };
                let ls = self.content_line_list();
                if first <= a.0 && a.0 - first < height && a.0 < ls.len() {
                    assert(ls@[a.0 as int]@ == screen_lines(self@)[a.0 as int]);
                    return a.1 <= ls[a.0].len();
                }
            }
        }
        true
    }

    /// The lines of the open article that a view `height` lines high shows,
    /// each cut in plain and highlighted pieces.
    pub fn article_lines(&self, height: usize) -> (r: Vec<Vec<Segment>>)
        requires
            render_defined(self@, height as int),
        ensures
            rendered_views(r@) == article_render(self@, height as int),
    {
        let ls = self.content_line_list();
        let ghost lsv = screen_lines(self@);
        let first = self.first_shown_line(height);
        let count: usize = if first >= ls.len() {
            0
        } else if ls.len() - first < height {
            ls.len() - first
        } else {
            height
        };
        assert(count == shown_count(lsv.len() as int, first as int, height as int));
        assert(ls@.len() == lsv.len());
        let line_sel: Option<(usize, usize)> = if self.input_mode == InputMode::VisualLine {
            match (self.visual_line_start, self.visual_line_end) {
                (Some(s), Some(e)) => if s <= e {
                    Some((s, e))
                } else {
                    Some((e, s))
                },
                _ => None,
            }
        } else {
            None
        };
        assert(line_sel == line_selection(self@));
        let char_sel: Option<((usize, usize), (usize, usize))> =
            if self.input_mode == InputMode::VisualSelect {
            match (self.visual_select_start, self.visual_select_end) {
                (Some(s), Some(e)) => if s.0 < e.0 || (s.0 == e.0 && s.1 <= e.1) {
                    Some((s, e))
                } else {
                    Some((e, s))
                },
                _ => None,
            }
        } else {
            None
        };
        assert(char_sel == char_selection(self@));
        let mut out: Vec<Vec<Segment>> = Vec::new();
        let mut k: usize = 0;
        while k < count
            invariant
                k <= count,
                count == shown_count(lsv.len() as int, first as int, height as int),
                count == 0 || first + count <= ls@.len(),
                first == scroll_for(
                    self.article_cursor as int,
                    self.article_scroll as int,
                    height as int,
                ),
                views(ls@) == lsv,
                lsv == screen_lines(self@),
                render_defined(self@, height as int),
                line_sel == line_selection(self@),
                char_sel == char_selection(self@),
                out@.len() == k,
                forall|j: int|
                    0 <= j < k ==> segment_views(#[trigger] out@[j]@) == line_parts(
                        self@,
                        lsv,
                        first + j,
                    ),
            decreases count - k,
        {
            assert(first + k < ls.len());
            let i = first + k;
            let c = &ls[i];
            assert(c@ == lsv[i as int]);
            let mut parts: Vec<Segment> = Vec::new();
            let mut done = false;
            if let Some((s, e)) = line_sel {
                if s <= i && i <= e {
                    parts.push(Segment { text: string_of(c.as_slice()), highlighted: true });
                    assert(segment_views(parts@) =~= seq![marked(lsv[i as int])]);
                    done = true;
                }
            }
            if !done {
                if let Some((a, b)) = char_sel {
                    if a.0 <= i && i <= b.0 {
                        let n = c.len();
                        let (cs, ce) = if a.0 == b.0 {
                            (a.1, b.1)
                        } else if i == a.0 {
                            (a.1, if n > 0 { n - 1 } else { 0 })
                        } else if i == b.0 {
                            (0, b.1)
                        } else {
                            (0, if n > 0 { n - 1 } else { 0 })
                        };
                        assert((cs as int, ce as int) == selected_columns(c@, i as int, a, b));
                        parts = selected_part_of(c, cs, ce);
                        done = true;
                    }
                }
            }
            if !done {
                if i == self.article_cursor && self.input_mode == InputMode::ViewingArticle {
                    parts = cursor_part_of(c, self.article_cursor_col);
                } else {
                    parts.push(Segment { text: string_of(c.as_slice()), highlighted: false });
                    assert(segment_views(parts@) =~= seq![plain(lsv[i as int])]);
                }
            }
            assert(segment_views(parts@) == line_parts(self@, lsv, i as int));
            out.push(parts);
            k += 1;
        }
        assert(rendered_views(out@) =~= article_render(self@, height as int));
        out
    }
}

/// The text of a line's pieces put back together.
pub open spec fn joined_text(s: Seq<SegmentView>) -> Seq<char>
    decreases s.len(),
{
    if s.len() == 0 {
        Seq::empty()
    } else {
        joined_text(s.drop_last()) + s.last().text
    }
}

proof fn lemma_joined_text_3(a: SegmentView, b: SegmentView, c: SegmentView)
    ensures
        joined_text(seq![a]) == a.text,
        joined_text(seq![a, b]) == a.text + b.text,
        joined_text(seq![a, b, c]) == a.text + b.text + c.text,
{
    assert(seq![a].drop_last() =~= Seq::<SegmentView>::empty());
    assert(joined_text(Seq::<SegmentView>::empty()) == Seq::<char>::empty());
    assert(Seq::<char>::empty() + a.text =~= a.text);
    assert(joined_text(seq![a]) == a.text);
    assert(seq![a, b].drop_last() =~= seq![a]);
    assert(seq![a, b].last() == b);
    assert(joined_text(seq![a, b]) == a.text + b.text);
    assert(seq![a, b, c].drop_last() =~= seq![a, b]);
    assert(seq![a, b, c].last() == c);
}

/// Highlighting keeps a line's text: the pieces of a nonempty line with the
/// cursor on it, and those of a line with a selection that does not start
/// past its end, put back together give the line.
pub proof fn law_pieces_keep_text(c: Seq<char>, col: int, start: int, end: int)
    requires
        0 <= col,
        0 <= end,
        0 <= start <= c.len(),
        start <= clamp_col(end, c.len() as int) + 1,
    ensures
        c.len() > 0 ==> joined_text(cursor_part(c, col)) == c,
        joined_text(selected_part(c, start, end)) == c,
{
    let n = c.len() as int;
    if n > 0 {
        let k = clamp_col(col, n);
        let before = if k > 0 {
            seq![plain(c.take(k))]
        } else {
            Seq::empty()
        };
        let after = if k + 1 < n {
            seq![plain(c.skip(k + 1))]
        } else {
            Seq::empty()
        };
        let m = marked(c.subrange(k, k + 1));
        let p = plain(c.take(k));
        let q = plain(c.skip(k + 1));
        lemma_joined_text_3(p, m, q);
        lemma_joined_text_3(m, q, q);
        lemma_joined_text_3(p, m, m);
        assert(cursor_part(c, col) == before + seq![m] + after);
        if k > 0 && k + 1 < n {
            assert(c.take(k) + c.subrange(k, k + 1) + c.skip(k + 1) =~= c);
            assert(before + seq![m] + after =~= seq![p, m, q]);
        } else if k > 0 {
            assert(c.take(k) + c.subrange(k, k + 1) =~= c);
            assert(before + seq![m] + after =~= seq![p, m]);
        } else if k + 1 < n {
            assert(c.subrange(k, k + 1) + c.skip(k + 1) =~= c);
            assert(before + seq![m] + after =~= seq![m, q]);
        } else {
            assert(c.subrange(k, k + 1) =~= c);
            assert(before + seq![m] + after =~= seq![m]);
        }
    }
    let e = clamp_col(end, n);
    let p = plain(c.take(start));
    let m = marked(c.subrange(start, e + 1));
    let q = plain(c.skip(e + 1));
    let before = if start > 0 {
        seq![p]
    } else {
        Seq::empty()
    };
    let mid = if start <= e && n > 0 {
        seq![m]
    } else {
        Seq::empty()
    };
    let after = if e + 1 < n {
        seq![q]
    } else {
        Seq::empty()
    };
    let all = before + mid + after;
    lemma_joined_text_3(p, m, q);
    lemma_joined_text_3(m, q, q);
    lemma_joined_text_3(p, q, q);
    lemma_joined_text_3(plain(Seq::empty()), q, q);
    if n == 0 {
        assert(all =~= Seq::<SegmentView>::empty());
        assert(c =~= Seq::<char>::empty());
    } else if start <= e {
        if start > 0 && e + 1 < n {
            assert(c.take(start) + c.subrange(start, e + 1) + c.skip(e + 1) =~= c);
            assert(all =~= seq![p, m, q]);
        } else if start > 0 {
            assert(c.take(start) + c.subrange(start, e + 1) =~= c);
            assert(all =~= seq![p, m]);
        } else if e + 1 < n {
            assert(c.subrange(start, e + 1) + c.skip(e + 1) =~= c);
            assert(all =~= seq![m, q]);
        } else {
            assert(c.subrange(start, e + 1) =~= c);
            assert(all =~= seq![m]);
        }
    } else {
        assert(start == e + 1);
        assert(c.skip(e + 1) == c.skip(start));
        if e + 1 < n {
            assert(c.take(start) + c.skip(start) =~= c);
            assert(all =~= seq![p, q]);
        } else {
            assert(c.take(start) =~= c);
            assert(all =~= seq![p]);
        }
    }
}

} // verus!
