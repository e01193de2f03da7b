//! Laying text out in a banner: glyphs grouped into words, words filled into lines of a
//! given width, and an ellipsis where the text does not fit.
use vstd::prelude::*;

verus! {

/// A glyph as the font gives it: the character, how far it advances the pen, and whether it
/// is blank (a space between words).
#[derive(Debug, Clone, Copy, PartialEq, Eq, Structural)]
pub struct Glyph {
    pub ch: char,
    pub advance_width: usize,
    pub is_empty: bool,
}

/// The total advance of some glyphs.
pub open spec fn glyphs_width(gs: Seq<Glyph>) -> nat
    decreases gs.len(),
{
    if gs.len() == 0 {
        0
    } else {
        glyphs_width(gs.drop_last()) + gs.last().advance_width as nat
    }
}

/// A word: glyphs drawn next to each other, and their total advance.
#[derive(Debug, Clone, PartialEq, Eq)]
pub struct WordRect {
    pub advance_width: usize,
    pub glyphs: Vec<Glyph>,
}

impl WordRect {
    /// The advance is that of the glyphs.
    pub open spec fn wf(&self) -> bool {
        self.advance_width == glyphs_width(self.glyphs@)
    }

    pub fn new_empty() -> (r: WordRect)
        ensures
            r.wf(),
            r.glyphs@ == Seq::<Glyph>::empty(),
    {
        WordRect { advance_width: 0, glyphs: Vec::new() }
    }

    pub fn from_glyphs(glyphs: Vec<Glyph>) -> (r: WordRect)
        requires
            glyphs_width(glyphs@) <= usize::MAX,
        ensures
            r.wf(),
            r.glyphs@ == glyphs@,
    {
        let mut w: usize = 0;
        let mut i: usize = 0;
        while i < glyphs.len()
            invariant
                i <= glyphs@.len(),
                w == glyphs_width(glyphs@.subrange(0, i as int)),
                glyphs_width(glyphs@) <= usize::MAX,
            decreases glyphs@.len() - i,
        {
            assert(glyphs@.subrange(0, i + 1).drop_last() =~= glyphs@.subrange(0, i as int));
            proof {
                lemma_glyphs_width_prefix(glyphs@, i as int + 1);
            }
            w = w + glyphs[i].advance_width;
            i = i + 1;
        }
        assert(glyphs@.subrange(0, glyphs@.len() as int) =~= glyphs@);
        WordRect { advance_width: w, glyphs }
    }

    pub fn width(&self) -> (r: usize)
        ensures
            r == self.advance_width,
    {
        self.advance_width
    }

    pub fn push_glyph(&mut self, glyph: Glyph)
        requires
            old(self).wf(),
            old(self).advance_width + glyph.advance_width <= usize::MAX,
        ensures
            final(self).wf(),
            final(self).glyphs@ == old(self).glyphs@.push(glyph),
    {
        self.advance_width = self.advance_width + glyph.advance_width;
        self.glyphs.push(glyph);
        assert(self.glyphs@.drop_last() =~= old(self).glyphs@);
    }

    pub fn pop_glyph(&mut self) -> (r: Option<Glyph>)
        requires
            old(self).wf(),
        ensures
            final(self).wf(),
            (r, final(self).glyphs@) == glyph_popped(old(self).glyphs@),
            old(self).glyphs@.len() == 0 ==> r is None && final(self).glyphs@ == old(self).glyphs@,
            old(self).glyphs@.len() > 0 ==> r == Some(old(self).glyphs@.last())
                && final(self).glyphs@ == old(self).glyphs@.drop_last(),
    {
        let last = self.glyphs.pop();
        match last {
            Some(g) => {
                self.advance_width = if self.advance_width >= g.advance_width {
                    self.advance_width - g.advance_width
                } else {
                    0
                };
            },
            None => {},
        }
        last
    }

    pub fn is_blank(&self) -> (r: bool)
        ensures
            r == (self.glyphs@.len() == 0),
    {
        self.glyphs.len() == 0
    }
}

/// The width of a prefix of glyphs is at most that of all of them.
pub proof fn lemma_glyphs_width_prefix(gs: Seq<Glyph>, n: int)
    requires
        0 <= n <= gs.len(),
    ensures
        glyphs_width(gs.subrange(0, n)) <= glyphs_width(gs),
    decreases gs.len() - n,
{
    if n < gs.len() {
        assert(gs.subrange(0, n + 1).drop_last() =~= gs.subrange(0, n));
        lemma_glyphs_width_prefix(gs, n + 1);
    } else {
        assert(gs.subrange(0, n) =~= gs);
    }
}

/// How the words of a line are spread over it.
#[derive(Debug, Clone, Copy, PartialEq, Eq, Structural)]
pub enum TextJustification {
    Center,
    Left,
    Right,
    SpaceBetween,
}

/// Taking the last glyph off some glyphs: the glyph, and the glyphs left; nothing taken from
/// none.
pub open spec fn glyph_popped(gs: Seq<Glyph>) -> (Option<Glyph>, Seq<Glyph>) {
    if gs.len() == 0 {
        (None, gs)
    } else {
        (Some(gs.last()), gs.drop_last())
    }
}

/// Taking a glyph off a word gives back the glyph that was put on it last, and the word
/// as it was before, its width with it; a blank word gives nothing and stays blank.
pub proof fn law_pop_glyph_undoes_push(gs: Seq<Glyph>, g: Glyph)
    ensures
        glyph_popped(gs.push(g)) == (Some(g), gs),
        glyphs_width(gs.push(g)) == glyphs_width(gs) + g.advance_width,
        glyph_popped(Seq::<Glyph>::empty()) == (None::<Glyph>, Seq::<Glyph>::empty()),
{
    assert(gs.push(g).drop_last() =~= gs);
}

/// Where text that does not fit is cut.
#[derive(Debug, Clone, Copy, PartialEq, Eq, Structural)]
pub enum EllipsizeAt {
    Middle,
    End,
}

/// The gap that a word takes before it: a space after another word, nothing first.
pub open spec fn gap_before(words: nat, spacebar_width: usize) -> int {
    if words > 0 {
        spacebar_width as int
    } else {
        0
    }
}

/// A word put at the end of a line's words: the words and the space left after it, which
/// loses the word's advance and the gap before it.
pub open spec fn word_pushed(words: Seq<WordRect>, avail: int, sb: usize, w: WordRect) -> (Seq<WordRect>, int) {
    (words.push(w), avail - w.advance_width - gap_before(words.len(), sb))
}

/// The last word taken off a line's words: the word, the words left and the space left,
/// which gets back the word's advance and the gap before it; nothing taken from no words.
pub open spec fn word_popped(words: Seq<WordRect>, avail: int, sb: usize) -> (Option<WordRect>, Seq<WordRect>, int) {
    if words.len() == 0 {
        (None, words, avail)
    } else {
        (
            Some(words.last()),
            words.drop_last(),
            avail + words.last().advance_width + gap_before((words.len() - 1) as nat, sb),
        )
    }
}

/// Taking a word off a line gives back the word that was put on it last, with the words and
/// the space left as they were before.
pub proof fn law_pop_word_undoes_push(words: Seq<WordRect>, avail: int, sb: usize, w: WordRect)
    ensures
        word_popped(word_pushed(words, avail, sb, w).0, word_pushed(words, avail, sb, w).1, sb)
            == (Some(w), words, avail),
{
    assert(words.push(w).drop_last() =~= words);
}

/// A line of words: its vertical offset, the space left on it (negative where the words
/// overflow it), the width of a space and how the words are spread.
#[derive(Debug, PartialEq, Eq)]
pub struct LineRect {
    pub y_offset: usize,
    pub available_space: isize,
    pub spacebar_width: usize,
    pub justification: TextJustification,
    pub words: Vec<WordRect>,
}

/// Whether every word's advance is that of its glyphs.
pub open spec fn words_wf(words: Seq<WordRect>) -> bool {
    forall|i: int| 0 <= i < words.len() ==> (#[trigger] words[i]).wf()
}

/// What the ellipsization of a line leaves to do: nothing more, or the previous line with
/// the word given.
#[derive(Debug)]
pub enum EllipsizationState {
    Continue(Option<WordRect>),
    Complete,
}

impl LineRect {
    /// An empty line of `width`.
    pub fn new(y_offset: usize, width: isize, spacebar_width: usize, justification: TextJustification) -> (r: LineRect)
        ensures
            r.y_offset == y_offset,
            r.available_space == width,
            r.spacebar_width == spacebar_width,
            r.justification == justification,
            r.words@ == Seq::<WordRect>::empty(),
    {
        LineRect { y_offset, available_space: width, spacebar_width, justification, words: Vec::new() }
    }

    pub fn available_space(&self) -> (r: usize)
        requires
            self.available_space >= 0,
        ensures
            r == self.available_space,
    {
        self.available_space as usize
    }

    /// The space not taken by glyphs: what is left and the spaces between the words.
    pub fn blank_space(&self) -> (r: usize)
        requires
            self.available_space >= 0,
            self.available_space + self.spacebar_width * (if self.words@.len() > 0 {
                self.words@.len() - 1
            } else {
                0
            }) <= usize::MAX,
        ensures
            r == self.available_space + self.spacebar_width * (if self.words@.len() > 0 {
                self.words@.len() - 1
            } else {
                0
            }),
    {
        let gaps = if self.words.len() > 0 {
            self.words.len() - 1
        } else {
            0
        };
        let avail = self.available_space as usize;
        assert(self.spacebar_width * gaps <= usize::MAX) by (nonlinear_arith)
            requires
                avail + self.spacebar_width * gaps <= usize::MAX,
                avail >= 0,
        ;
        avail + self.spacebar_width * gaps
    }

    pub fn len(&self) -> (r: usize)
        ensures
            r == self.words@.len(),
    {
        self.words.len()
    }

    pub fn is_empty(&self) -> (r: bool)
        ensures
            r == (self.words@.len() == 0),
    {
        self.words.len() == 0
    }

    pub fn is_overflow(&self) -> (r: bool)
        ensures
            r == (self.available_space < 0),
    {
        self.available_space < 0
    }

    /// Adds a word at the end: it takes its advance and a space before it.
    pub fn push_word(&mut self, word: WordRect)
        requires
            word.advance_width + gap_before(old(self).words@.len(), old(self).spacebar_width)
                <= isize::MAX,
            old(self).available_space - word.advance_width - gap_before(
                old(self).words@.len(),
                old(self).spacebar_width,
            ) >= isize::MIN,
        ensures
            (final(self).words@, final(self).available_space as int) == word_pushed(
                old(self).words@,
                old(self).available_space as int,
                old(self).spacebar_width,
                word,
            ),
            final(self).words@ == old(self).words@.push(word),
            final(self).available_space == old(self).available_space - word.advance_width
                - gap_before(old(self).words@.len(), old(self).spacebar_width),
            final(self).y_offset == old(self).y_offset,
            final(self).spacebar_width == old(self).spacebar_width,
            final(self).justification == old(self).justification,
    {
        let gap = if self.words.len() > 0 {
            self.spacebar_width
        } else {
            0
        };
        let taken = (word.width() + gap) as isize;
        self.available_space = self.available_space - taken;
        self.words.push(word);
    }

    /// Takes the last word off: its advance and the space before it are free again.
    pub fn pop_word(&mut self) -> (r: Option<WordRect>)
        requires
            old(self).words@.len() > 0 ==> old(self).words@.last().advance_width + gap_before(
                (old(self).words@.len() - 1) as nat,
                old(self).spacebar_width,
            ) + old(self).available_space <= isize::MAX,
            old(self).words@.len() > 0 ==> old(self).words@.last().advance_width + gap_before(
                (old(self).words@.len() - 1) as nat,
                old(self).spacebar_width,
            ) <= isize::MAX,
        ensures
            (r, final(self).words@, final(self).available_space as int) == word_popped(
                old(self).words@,
                old(self).available_space as int,
                old(self).spacebar_width,
            ),
            old(self).words@.len() == 0 ==> r is None && final(self).words@ == old(self).words@
                && final(self).available_space == old(self).available_space,
            old(self).words@.len() > 0 ==> r == Some(old(self).words@.last())
                && final(self).words@ == old(self).words@.drop_last() && final(self).available_space == old(self).available_space + old(self).words@.last().advance_width
                + gap_before((old(self).words@.len() - 1) as nat, old(self).spacebar_width),
            final(self).y_offset == old(self).y_offset,
            final(self).spacebar_width == old(self).spacebar_width,
            final(self).justification == old(self).justification,
    {
        match self.words.pop() {
            None => None,
            Some(last) => {
                let gap = if self.words.len() > 0 {
                    self.spacebar_width
                } else {
                    0
                };
                let freed = (last.width() + gap) as isize;
                self.available_space = self.available_space + freed;
                Some(last)
            },
        }
    }

    /// Appends the ellipsis to the last word, where there is one.
    pub fn push_ellipsis_to_last_word(&mut self, ellipsis: Glyph)
        requires
            words_wf(old(self).words@),
            old(self).words@.len() > 0 ==> old(self).words@.last().advance_width
                + ellipsis.advance_width <= usize::MAX,
            old(self).available_space - ellipsis.advance_width >= isize::MIN,
            ellipsis.advance_width <= isize::MAX,
        ensures
            words_wf(final(self).words@),
            old(self).words@.len() == 0 ==> final(self).words@ == old(self).words@
                && final(self).available_space == old(self).available_space,
            old(self).words@.len() > 0 ==> final(self).words@.len() == old(self).words@.len()
                && final(self).words@.drop_last() == old(self).words@.drop_last() && final(self).words@.last().glyphs@ == old(self).words@.last().glyphs@.push(ellipsis) && final(self).available_space == old(self).available_space - ellipsis.advance_width,
            final(self).y_offset == old(self).y_offset,
            final(self).spacebar_width == old(self).spacebar_width,
            final(self).justification == old(self).justification,
    {
        match self.words.pop() {
            None => {},
            Some(mut last) => {
                assert(old(self).words@[old(self).words@.len() - 1] == last);
                self.available_space = self.available_space - ellipsis.advance_width as isize;
                last.push_glyph(ellipsis);
                self.words.push(last);
                assert(self.words@.drop_last() =~= old(self).words@.drop_last());
            },
        }
    }
}

} // verus!

verus! {

// ---------------------------------------------------------------------------
// Ellipsis
// ---------------------------------------------------------------------------

/// The glyphs of each word of a line.
pub open spec fn line_words(words: Seq<WordRect>) -> Seq<Seq<Glyph>> {
    words.map_values(|w: WordRect| w.glyphs@)
}

/// The room the words of a line take: their advances and a space between each two.
pub open spec fn line_used(ws: Seq<Seq<Glyph>>, spacebar_width: usize) -> nat
    decreases ws.len(),
{
    if ws.len() == 0 {
        0
    } else {
        (line_used(ws.drop_last(), spacebar_width) + glyphs_width(ws.last()) + gap_before(
            (ws.len() - 1) as nat,
            spacebar_width,
        )) as nat
    }
}

/// A line whose arithmetic stays within `isize`: the room its words take, and that room with
/// what is left, fit.
pub open spec fn line_bounded(l: LineRect) -> bool {
    &&& words_wf(l.words@)
    &&& line_used(line_words(l.words@), l.spacebar_width) <= isize::MAX
    &&& l.available_space + line_used(line_words(l.words@), l.spacebar_width) <= isize::MAX
}

/// The ellipsis appended to the last word, where there is one.
pub open spec fn with_ellipsis(ws: Seq<Seq<Glyph>>, avail: int, e: Glyph) -> (Seq<Seq<Glyph>>, int) {
    if ws.len() > 0 {
        (ws.update(ws.len() - 1, ws.last().push(e)), avail - e.advance_width)
    } else {
        (ws, avail)
    }
}

/// Ellipsis at the end of a line: words are taken off the end until the ellipsis fits, and it
/// is appended to the last word left. Where no word is left, the previous line is to be
/// ellipsized (the flag).
pub open spec fn ellipsize_end_spec(ws: Seq<Seq<Glyph>>, avail: int, sb: usize, e: Glyph) -> (Seq<Seq<Glyph>>, int, bool)
    decreases ws.len(),
{
    if e.advance_width <= avail {
        let (w, a) = with_ellipsis(ws, avail, e);
        (w, a, false)
    } else if ws.len() == 0 {
        (ws, avail, true)
    } else {
        ellipsize_end_spec(
            ws.drop_last(),
            avail + glyphs_width(ws.last()) + gap_before((ws.len() - 1) as nat, sb),
            sb,
            e,
        )
    }
}

proof fn lemma_line_used_pop(ws: Seq<Seq<Glyph>>, sb: usize)
    requires
        ws.len() > 0,
    ensures
        line_used(ws, sb) == line_used(ws.drop_last(), sb) + glyphs_width(ws.last()) + gap_before(
            (ws.len() - 1) as nat,
            sb,
        ),
{
}

proof fn lemma_line_words_pop(words: Seq<WordRect>)
    requires
        words.len() > 0,
    ensures
        line_words(words.drop_last()) == line_words(words).drop_last(),
        line_words(words).last() == words.last().glyphs@,
        line_words(words).len() == words.len(),
{
    assert(line_words(words.drop_last()) =~= line_words(words).drop_last());
}

/// The words of a line after the ellipsis was appended to its last word.
proof fn lemma_ellipsis_pushed(before: Seq<WordRect>, after: Seq<WordRect>, e: Glyph, sb: usize)
    requires
        before.len() > 0,
        after.len() == before.len(),
        after.drop_last() == before.drop_last(),
        after.last().glyphs@ == before.last().glyphs@.push(e),
    ensures
        line_words(after) == line_words(before).update(
            before.len() - 1,
            line_words(before).last().push(e),
        ),
        line_used(line_words(after), sb) == line_used(line_words(before), sb) + e.advance_width,
{
    assert forall|i: int| 0 <= i < after.len() - 1 implies after[i] == before[i] by {
        assert(after.drop_last()[i] == after[i]);
        assert(before.drop_last()[i] == before[i]);
    }
    assert(line_words(after) =~= line_words(before).update(
        before.len() - 1,
        line_words(before).last().push(e),
    ));
    lemma_line_words_pop(after);
    lemma_line_words_pop(before);
    assert(line_words(after).drop_last() =~= line_words(before).drop_last());
    assert(line_words(after).last().drop_last() =~= line_words(before).last());
    lemma_line_used_pop(line_words(after), sb);
    lemma_line_used_pop(line_words(before), sb);
}

/// What is left to do after the ellipsis of a line.
pub open spec fn is_continue(s: EllipsizationState) -> bool {
    s is Continue
}

impl LineRect {
    /// Puts the ellipsis at the end of the line (see [`ellipsize_end_spec`]).
    pub fn ellipsize_end(&mut self, ellipsis: Glyph) -> (r: EllipsizationState)
        requires
            line_bounded(*old(self)),
            ellipsis.advance_width <= isize::MAX,
        ensures
            line_bounded(*final(self)),
            (line_words(final(self).words@), final(self).available_space as int, is_continue(r))
                == ellipsize_end_spec(
                line_words(old(self).words@),
                old(self).available_space as int,
                old(self).spacebar_width,
                ellipsis,
            ),
            r matches EllipsizationState::Continue(w) ==> (w matches Some(x) && x.wf()
                && x.glyphs@.len() == 0),
            final(self).spacebar_width == old(self).spacebar_width,
            final(self).y_offset == old(self).y_offset,
            final(self).justification == old(self).justification,
    {
        let ghost target = ellipsize_end_spec(
            line_words(self.words@),
            self.available_space as int,
            self.spacebar_width,
            ellipsis,
        );
        loop
            invariant
                line_bounded(*self),
                ellipsis.advance_width <= isize::MAX,
                self.spacebar_width == old(self).spacebar_width,
                self.y_offset == old(self).y_offset,
                self.justification == old(self).justification,
                ellipsize_end_spec(
                    line_words(self.words@),
                    self.available_space as int,
                    self.spacebar_width,
                    ellipsis,
                ) == target,
                target == ellipsize_end_spec(
                    line_words(old(self).words@),
                    old(self).available_space as int,
                    old(self).spacebar_width,
                    ellipsis,
                ),
            decreases self.words@.len(),
        {
            if ellipsis.advance_width as isize <= self.available_space {
                let ghost before = *self;
                proof {
                    if self.words@.len() > 0 {
                        lemma_line_words_pop(self.words@);
                        lemma_line_used_pop(line_words(self.words@), self.spacebar_width);
                    }
                }
                self.push_ellipsis_to_last_word(ellipsis);
                proof {
                    if before.words@.len() > 0 {
                        lemma_ellipsis_pushed(before.words@, self.words@, ellipsis, self.spacebar_width);
                    }
                    assert(ellipsize_end_spec(
                        line_words(before.words@),
                        before.available_space as int,
                        self.spacebar_width,
                        ellipsis,
                    ) == (line_words(self.words@), self.available_space as int, false));
                }
                return EllipsizationState::Complete;
            }
            let ghost before = *self;
            proof {
                if self.words@.len() > 0 {
                    lemma_line_words_pop(self.words@);
                    lemma_line_used_pop(line_words(self.words@), self.spacebar_width);
                }
            }
            match self.pop_word() {
                None => {
                    assert(ellipsize_end_spec(
                        line_words(before.words@),
                        before.available_space as int,
                        self.spacebar_width,
                        ellipsis,
                    ) == (line_words(self.words@), self.available_space as int, true));
                    return EllipsizationState::Continue(Some(WordRect::new_empty()));
                },
                Some(_) => {
                    proof {
                        assert(self.words@ == before.words@.drop_last());
                        assert(words_wf(self.words@)) by {
                            assert forall|i: int| 0 <= i < self.words@.len() implies (
                            #[trigger] self.words@[i]).wf() by {
                                assert(self.words@[i] == before.words@[i]);
                            }
                        }
                    }
                },
            }
        }
    }
}

} // verus!

verus! {

/// A word shortened from its end, glyph by glyph, while it is not blank and, with `extra`,
/// does not fit in `avail`.
pub open spec fn trim_word(g: Seq<Glyph>, extra: int, avail: int) -> Seq<Glyph>
    decreases g.len(),
{
    if g.len() > 0 && glyphs_width(g) + extra > avail {
        trim_word(g.drop_last(), extra, avail)
    } else {
        g
    }
}

proof fn lemma_trim_word(g: Seq<Glyph>, extra: int, avail: int)
    ensures
        trim_word(g, extra, avail).len() <= g.len(),
        glyphs_width(trim_word(g, extra, avail)) <= glyphs_width(g),
        trim_word(g, extra, avail).len() > 0 ==> glyphs_width(trim_word(g, extra, avail)) + extra
            <= avail,
    decreases g.len(),
{
    if g.len() > 0 && glyphs_width(g) + extra > avail {
        lemma_trim_word(g.drop_last(), extra, avail);
    }
}

/// The last word of a line taken off, shortened until it fits with the ellipsis and put back
/// with it; dropped where nothing of it fits. Nothing where the line has no word.
pub open spec fn middle_tail(ws: Seq<Seq<Glyph>>, avail: int, sb: usize, e: Glyph) -> Option<(Seq<Seq<Glyph>>, int)> {
    if ws.len() == 0 {
        None
    } else {
        let gap = gap_before((ws.len() - 1) as nat, sb);
        let a1 = avail + glyphs_width(ws.last()) + gap;
        let t = trim_word(ws.last(), sb + e.advance_width, a1);
        if t.len() == 0 {
            Some((ws.drop_last(), a1))
        } else {
            Some((ws.drop_last().push(t.push(e)), a1 - glyphs_width(t) - e.advance_width - gap))
        }
    }
}

/// Ellipsis in the middle of the text: the word that did not fit is shortened until it fits
/// with the ellipsis and added to the line; where nothing of it fits the ellipsis goes after
/// the last word, or else the last word itself is shortened (see [`middle_tail`]). Without
/// a word left over, a line that fits is kept. Nothing where a line without words is to lose
/// its last word.
pub open spec fn ellipsize_middle_spec(
    ws: Seq<Seq<Glyph>>,
    avail: int,
    sb: usize,
    last: Option<Seq<Glyph>>,
    e: Glyph,
) -> Option<(Seq<Seq<Glyph>>, int)> {
    match last {
        Some(lw) => {
            let t = trim_word(lw, sb + e.advance_width, avail);
            if t.len() > 0 {
                Some(
                    (
                        ws.push(t.push(e)),
                        avail - glyphs_width(t) - e.advance_width - gap_before(ws.len(), sb),
                    ),
                )
            } else if e.advance_width <= avail {
                Some(with_ellipsis(ws, avail, e))
            } else {
                middle_tail(ws, avail, sb, e)
            }
        },
        None => if avail >= 0 {
            Some((ws, avail))
        } else {
            middle_tail(ws, avail, sb, e)
        },
    }
}

impl WordRect {
    /// Shortens the word from its end while it is not blank and, with `extra`, does not fit
    /// in `avail` (see [`trim_word`]).
    pub fn trim_to_fit(&mut self, extra: usize, avail: isize)
        requires
            old(self).wf(),
            glyphs_width(old(self).glyphs@) + extra <= isize::MAX,
        ensures
            final(self).wf(),
            final(self).glyphs@ == trim_word(old(self).glyphs@, extra as int, avail as int),
    {
        while !self.is_blank() && (self.width() + extra) as isize > avail
            invariant
                self.wf(),
                glyphs_width(self.glyphs@) + extra <= isize::MAX,
                trim_word(self.glyphs@, extra as int, avail as int) == trim_word(
                    old(self).glyphs@,
                    extra as int,
                    avail as int,
                ),
            decreases self.glyphs@.len(),
        {
            let ghost before = self.glyphs@;
            self.pop_glyph();
            proof {
                lemma_glyphs_width_prefix(before, before.len() - 1);
                assert(before.subrange(0, before.len() - 1) =~= before.drop_last());
            }
        }
    }
}

impl LineRect {
    /// Puts the ellipsis in the middle of the text (see [`ellipsize_middle_spec`]).
    pub fn ellipsize_middle(&mut self, last_word: Option<WordRect>, ellipsis: Glyph)
        requires
            line_bounded(*old(self)),
            line_used(line_words(old(self).words@), old(self).spacebar_width)
                + old(self).spacebar_width + ellipsis.advance_width <= isize::MAX,
            last_word matches Some(w) ==> w.wf() && glyphs_width(w.glyphs@)
                + old(self).spacebar_width + ellipsis.advance_width <= isize::MAX,
            ellipsize_middle_spec(
                line_words(old(self).words@),
                old(self).available_space as int,
                old(self).spacebar_width,
                match last_word {
                    Some(w) => Some(w.glyphs@),
                    None => None,
                },
                ellipsis,
            ) is Some,
        ensures
            line_bounded(*final(self)),
            ellipsize_middle_spec(
                line_words(old(self).words@),
                old(self).available_space as int,
                old(self).spacebar_width,
                match last_word {
                    Some(w) => Some(w.glyphs@),
                    None => None,
                },
                ellipsis,
            ) == Some((line_words(final(self).words@), final(self).available_space as int)),
            final(self).spacebar_width == old(self).spacebar_width,
            final(self).y_offset == old(self).y_offset,
            final(self).justification == old(self).justification,
    {
        let ew = ellipsis.advance_width;
        let sb = self.spacebar_width;
        match last_word {
            Some(mut lw) => {
                let ghost orig = lw.glyphs@;
                lw.trim_to_fit(sb + ew, self.available_space);
                proof {
                    lemma_trim_word(orig, (sb + ew) as int, self.available_space as int);
                }
                if !lw.is_blank() {
                    let ghost before = *self;
                    let ghost t = lw.glyphs@;
                    lw.push_glyph(ellipsis);
                    proof {
                        assert(lw.glyphs@.drop_last() =~= t);
                    }
                    self.push_word(lw);
                    proof {
                        lemma_word_pushed(before.words@, self.words@, lw, sb);
                    }
                    return;
                } else if (ew as isize) <= self.available_space {
                    let ghost before = *self;
                    proof {
                        if self.words@.len() > 0 {
                            lemma_line_words_pop(self.words@);
                            lemma_line_used_pop(line_words(self.words@), sb);
                        }
                    }
                    self.push_ellipsis_to_last_word(ellipsis);
                    proof {
                        if before.words@.len() > 0 {
                            lemma_ellipsis_pushed(before.words@, self.words@, ellipsis, sb);
                        }
                    }
                    return;
                }
            },
            None => {
                if self.available_space >= 0 {
                    return;
                }
            },
        }
        let ghost start = *self;
        proof {
            if self.words@.len() > 0 {
                lemma_line_words_pop(self.words@);
                lemma_line_used_pop(line_words(self.words@), sb);
            }
        }
        let mut lw = match self.pop_word() {
            Some(w) => w,
            None => {
                return;
            },
        };
        proof {
            assert(self.words@ == start.words@.drop_last());
            assert(words_wf(self.words@)) by {
                assert forall|i: int| 0 <= i < self.words@.len() implies (
                #[trigger] self.words@[i]).wf() by {
                    assert(self.words@[i] == start.words@[i]);
                }
            }
            assert(lw == start.words@.last());
            assert(lw.wf());
        }
        let ghost popped = *self;
        lw.trim_to_fit(sb + ew, self.available_space);
        proof {
            lemma_trim_word(start.words@.last().glyphs@, (sb + ew) as int, self.available_space as int);
        }
        if lw.is_blank() {
            return;
        }
        let ghost t = lw.glyphs@;
        lw.push_glyph(ellipsis);
        proof {
            assert(lw.glyphs@.drop_last() =~= t);
        }
        self.push_word(lw);
        proof {
            lemma_word_pushed(popped.words@, self.words@, lw, sb);
        }
    }
}

/// The words of a line after a word was added at its end.
proof fn lemma_word_pushed(before: Seq<WordRect>, after: Seq<WordRect>, w: WordRect, sb: usize)
    requires
        after == before.push(w),
    ensures
        line_words(after) == line_words(before).push(w.glyphs@),
        line_used(line_words(after), sb) == line_used(line_words(before), sb) + glyphs_width(
            w.glyphs@,
        ) + gap_before(before.len(), sb),
{
    assert(line_words(after) =~= line_words(before).push(w.glyphs@));
    assert(line_words(after).drop_last() =~= line_words(before));
    lemma_line_used_pop(line_words(after), sb);
}

} // verus!

verus! {

// ---------------------------------------------------------------------------
// Lines of text
// ---------------------------------------------------------------------------

/// The ellipsis of one line: in the middle, or at the end where a word was left over or the
/// line overflows; the flag tells that the previous line is to be ellipsized too. Nothing
/// where the middle ellipsis cannot be put (see [`ellipsize_middle_spec`]).
pub open spec fn line_ellipsize_spec(
    ws: Seq<Seq<Glyph>>,
    avail: int,
    sb: usize,
    last: Option<Seq<Glyph>>,
    e: Glyph,
    at: EllipsizeAt,
) -> Option<(Seq<Seq<Glyph>>, int, bool)> {
    match at {
        EllipsizeAt::Middle => match ellipsize_middle_spec(ws, avail, sb, last, e) {
            Some(p) => Some((p.0, p.1, false)),
            None => None,
        },
        EllipsizeAt::End => if last is Some || avail < 0 {
            Some(ellipsize_end_spec(ws, avail, sb, e))
        } else {
            Some((ws, avail, false))
        },
    }
}

/// The bound on every width of the layout: a quarter of `isize::MAX`.
pub open spec fn width_bound() -> int {
    isize::MAX as int / 4
}

/// Words no wider than the bound.
pub open spec fn words_bounded(ws: Seq<Seq<Glyph>>) -> bool {
    forall|i: int| 0 <= i < ws.len() ==> glyphs_width(#[trigger] ws[i]) <= width_bound()
}

impl LineRect {
    /// Puts the ellipsis on the line (see [`line_ellipsize_spec`]).
    pub fn ellipsize(&mut self, last_word: Option<WordRect>, ellipsis: Glyph, ellipsize_at: EllipsizeAt) -> (r: EllipsizationState)
        requires
            line_bounded(*old(self)),
            line_used(line_words(old(self).words@), old(self).spacebar_width)
                + old(self).spacebar_width + ellipsis.advance_width <= isize::MAX,
            last_word matches Some(w) ==> w.wf() && glyphs_width(w.glyphs@)
                + old(self).spacebar_width + ellipsis.advance_width <= isize::MAX,
            line_ellipsize_spec(
                line_words(old(self).words@),
                old(self).available_space as int,
                old(self).spacebar_width,
                match last_word {
                    Some(w) => Some(w.glyphs@),
                    None => None,
                },
                ellipsis,
                ellipsize_at,
            ) is Some,
        ensures
            line_bounded(*final(self)),
            line_ellipsize_spec(
                line_words(old(self).words@),
                old(self).available_space as int,
                old(self).spacebar_width,
                match last_word {
                    Some(w) => Some(w.glyphs@),
                    None => None,
                },
                ellipsis,
                ellipsize_at,
            ) == Some(
                (line_words(final(self).words@), final(self).available_space as int, is_continue(r)),
            ),
            r matches EllipsizationState::Continue(w) ==> (w matches Some(x) && x.wf()
                && x.glyphs@.len() == 0),
            final(self).spacebar_width == old(self).spacebar_width,
            final(self).y_offset == old(self).y_offset,
            final(self).justification == old(self).justification,
    {
        match ellipsize_at {
            EllipsizeAt::Middle => {
                self.ellipsize_middle(last_word, ellipsis);
                EllipsizationState::Complete
            },
            EllipsizeAt::End => {
                if last_word.is_some() || self.available_space < 0 {
                    self.ellipsize_end(ellipsis)
                } else {
                    EllipsizationState::Complete
                }
            },
        }
    }
}

/// A line seen as its vertical offset, its words and the space left on it.
pub open spec fn line_view(l: LineRect) -> (int, Seq<Seq<Glyph>>, int) {
    (l.y_offset as int, line_words(l.words@), l.available_space as int)
}

pub open spec fn lines_view(ls: Seq<LineRect>) -> Seq<(int, Seq<Seq<Glyph>>, int)> {
    ls.map_values(|l: LineRect| line_view(l))
}

/// A line of `avail` filled from `words[k..]`: words are taken while the line does not
/// overflow; the word that makes it overflow goes back, unless it is alone on the line.
/// Gives the words of the line, the space left and where the next line starts.
pub open spec fn fill_line(words: Seq<Seq<Glyph>>, k: int, line: Seq<Seq<Glyph>>, avail: int, sb: usize) -> (Seq<Seq<Glyph>>, int, int)
    decreases words.len() - k,
{
    if k < 0 || k >= words.len() {
        (line, avail, k)
    } else {
        let a2 = avail - glyphs_width(words[k]) - gap_before(line.len(), sb);
        if a2 < 0 {
            if line.len() > 0 {
                (line, avail, k)
            } else {
                (line.push(words[k]), a2, k + 1)
            }
        } else {
            fill_line(words, k + 1, line.push(words[k]), a2, sb)
        }
    }
}

/// The lines of text from `words[k..]`, the next one at height `y` in a space of `height`,
/// at most `count` more: a line goes where one of `line_height` still fits, lines are
/// `step` apart, no line is empty, and no line follows one that overflows. Gives the lines
/// and where the words left over start.
pub open spec fn fill_lines(
    words: Seq<Seq<Glyph>>,
    k: int,
    y: int,
    height: int,
    count: nat,
    width: int,
    sb: usize,
    line_height: int,
    step: int,
) -> (Seq<(int, Seq<Seq<Glyph>>, int)>, int)
    decreases count,
{
    if count == 0 || y >= height || height - y < line_height {
        (Seq::empty(), k)
    } else {
        let (ws, a, k2) = fill_line(words, k, Seq::empty(), width, sb);
        if ws.len() == 0 {
            (Seq::empty(), k2)
        } else if a < 0 {
            (seq![(y, ws, a)], k2)
        } else {
            let (rest, k3) = fill_lines(words, k2, y + step, height, (count - 1) as nat, width, sb, line_height, step);
            (seq![(y, ws, a)] + rest, k3)
        }
    }
}

/// The ellipsis of the last of `lines` with the word `word`, then, while a line runs out of
/// words, of the line before it.
pub open spec fn ellipsize_lines(
    lines: Seq<(int, Seq<Seq<Glyph>>, int)>,
    word: Option<Seq<Glyph>>,
    e: Glyph,
    at: EllipsizeAt,
    sb: usize,
) -> Option<Seq<(int, Seq<Seq<Glyph>>, int)>>
    decreases lines.len(),
{
    if lines.len() == 0 {
        Some(lines)
    } else {
        let l = lines.last();
        match line_ellipsize_spec(l.1, l.2, sb, word, e, at) {
            None => None,
            Some(p) => if p.2 {
                ellipsize_lines(lines.drop_last(), Some(Seq::empty()), e, at, sb)
            } else {
                Some(lines.update(lines.len() - 1, (l.0, p.0, p.1)))
            },
        }
    }
}

} // verus!

verus! {

proof fn lemma_used_push(ws: Seq<Seq<Glyph>>, w: Seq<Glyph>, sb: usize)
    ensures
        line_used(ws.push(w), sb) == line_used(ws, sb) + glyphs_width(w) + gap_before(ws.len(), sb),
{
    assert(ws.push(w).drop_last() =~= ws);
}

/// What filling a line gives: the words taken, in order; the room they take and the space
/// left make up the width; only a word alone on its line overflows it, by at most its width.
proof fn lemma_fill_line(
    words: Seq<Seq<Glyph>>,
    k: int,
    line: Seq<Seq<Glyph>>,
    avail: int,
    sb: usize,
    total: int,
)
    requires
        0 <= k <= words.len(),
        words_bounded(words),
        words_bounded(line),
        sb <= width_bound(),
        line_used(line, sb) + avail == total,
        0 <= total <= width_bound(),
        avail >= 0,
    ensures
        ({
            let r = fill_line(words, k, line, avail, sb);
            &&& k <= r.2 <= words.len()
            &&& r.0 == line + words.subrange(k, r.2)
            &&& r.1 + line_used(r.0, sb) == total
            &&& r.1 >= -width_bound()
            &&& r.1 < 0 ==> r.0.len() == 1
            &&& (line.len() > 0 || k < words.len()) ==> r.0.len() > 0
            &&& words_bounded(r.0)
        }),
    decreases words.len() - k,
{
    if k < words.len() {
        let w = words[k];
        let a2 = avail - glyphs_width(w) - gap_before(line.len(), sb);
        lemma_used_push(line, w, sb);
        if a2 < 0 {
            if line.len() > 0 {
                assert(words.subrange(k, k) =~= Seq::<Seq<Glyph>>::empty());
                assert(line + words.subrange(k, k) =~= line);
            } else {
                assert(line.push(w) =~= line + words.subrange(k, k + 1));
                assert(line_used(line, sb) == 0);
            }
        } else {
            lemma_fill_line(words, k + 1, line.push(w), a2, sb, total);
            let r = fill_line(words, k + 1, line.push(w), a2, sb);
            assert(line.push(w) + words.subrange(k + 1, r.2) =~= line + words.subrange(k, r.2));
        }
    } else {
        assert(line + words.subrange(k, k) =~= line);
    }
}

/// The lines of a layout: none is empty, each makes up the width with what it leaves, only
/// the last may overflow, and the words left over start after those taken.
proof fn lemma_fill_lines(
    words: Seq<Seq<Glyph>>,
    k: int,
    y: int,
    height: int,
    count: nat,
    width: int,
    sb: usize,
    line_height: int,
    step: int,
)
    requires
        0 <= k <= words.len(),
        words_bounded(words),
        sb <= width_bound(),
        0 <= width <= width_bound(),
    ensures
        ({
            let r = fill_lines(words, k, y, height, count, width, sb, line_height, step);
            &&& k <= r.1 <= words.len()
            &&& forall|i: int|
                0 <= i < r.0.len() ==> (#[trigger] r.0[i]).1.len() > 0 && words_bounded(r.0[i].1)
                    && r.0[i].2 + line_used(r.0[i].1, sb) == width && r.0[i].2 >= -width_bound()
            &&& forall|i: int| 0 <= i < r.0.len() - 1 ==> (#[trigger] r.0[i]).2 >= 0
        }),
    decreases count,
{
    if !(count == 0 || y >= height || height - y < line_height) {
        assert(line_used(Seq::<Seq<Glyph>>::empty(), sb) == 0);
        lemma_fill_line(words, k, Seq::empty(), width, sb, width);
        let (ws, a, k2) = fill_line(words, k, Seq::empty(), width, sb);
        if ws.len() > 0 && a >= 0 {
            lemma_fill_lines(words, k2, y + step, height, (count - 1) as nat, width, sb, line_height, step);
            let (rest, k3) = fill_lines(words, k2, y + step, height, (count - 1) as nat, width, sb, line_height, step);
            let all = seq![(y, ws, a)] + rest;
            assert forall|i: int| 0 <= i < all.len() implies (#[trigger] all[i]).1.len() > 0
                && words_bounded(all[i].1) && all[i].2 + line_used(all[i].1, sb) == width
                && all[i].2 >= -width_bound() by {
                if i > 0 {
                    assert(all[i] == rest[i - 1]);
                }
            }
            assert forall|i: int| 0 <= i < all.len() - 1 implies (#[trigger] all[i]).2 >= 0 by {
                if i > 0 {
                    assert(all[i] == rest[i - 1]);
                }
            }
        }
    }
}

/// A line with words always takes the ellipsis in the middle.
proof fn lemma_middle_some(
    ws: Seq<Seq<Glyph>>,
    avail: int,
    sb: usize,
    last: Option<Seq<Glyph>>,
    e: Glyph,
)
    requires
        ws.len() > 0,
    ensures
        ellipsize_middle_spec(ws, avail, sb, last, e) is Some,
{
}

} // verus!

verus! {

// ---------------------------------------------------------------------------
// A text
// ---------------------------------------------------------------------------

/// The layout of a text in a space of `width` by `height`: the lines filled from the words
/// (see [`fill_lines`]; one line at most where the text does not wrap), then the ellipsis put
/// on the last line with the first word left over (see [`ellipsize_lines`]). Gives the lines
/// and the words left over.
pub open spec fn layout_spec(
    words: Seq<Seq<Glyph>>,
    width: int,
    height: int,
    wrap: bool,
    sb: usize,
    line_height: int,
    step: int,
    e: Glyph,
    at: EllipsizeAt,
) -> (Seq<(int, Seq<Seq<Glyph>>, int)>, Seq<Seq<Glyph>>) {
    let count: nat = if wrap {
        usize::MAX as nat
    } else {
        1
    };
    let (lines, k) = fill_lines(words, 0, 0, height, count, width, sb, line_height, step);
    let rest = words.subrange(k, words.len() as int);
    if lines.len() == 0 {
        (lines, rest)
    } else if rest.len() > 0 {
        (ellipsize_lines(lines, Some(rest[0]), e, at, sb)->0, rest.drop_first())
    } else {
        (ellipsize_lines(lines, None, e, at, sb)->0, rest)
    }
}

/// A text laid out in lines: the words not placed yet (first in front), the lines, whether
/// it wraps, the width it was given, the width of a space, the height of a line and the space
/// between lines, where it is ellipsized and with which glyph, how lines are justified, and
/// its margin.
#[derive(Debug)]
pub struct TextRect {
    pub words: Vec<WordRect>,
    pub lines: Vec<LineRect>,
    pub wrap: bool,
    pub width: usize,
    pub spacebar_width: usize,
    pub line_height: usize,
    pub line_spacing: usize,
    pub ellipsize_at: EllipsizeAt,
    pub ellipsis: Glyph,
    pub justification: TextJustification,
    pub margin: crate::config::spacing::Spacing,
}

/// What a line of the layout satisfies: it has words, its arithmetic stays in range, and its
/// words and the ellipsis leave room in `isize`.
pub open spec fn layout_line_ok(l: LineRect, sb: usize) -> bool {
    &&& line_bounded(l)
    &&& line_words(l.words@).len() > 0
    &&& line_used(line_words(l.words@), sb) <= 2 * width_bound()
    &&& l.spacebar_width == sb
}

proof fn lemma_line_words_subrange(ws: Seq<WordRect>, k: int)
    requires
        0 <= k <= ws.len(),
    ensures
        line_words(ws.subrange(k, ws.len() as int)) == line_words(ws).subrange(k, ws.len() as int),
{
    assert(line_words(ws.subrange(k, ws.len() as int)) =~= line_words(ws).subrange(
        k,
        ws.len() as int,
    ));
}

impl TextRect {
    /// Fills one line from the front of `words` (see [`fill_line`]).
    fn fill_one_line(
        words: &mut Vec<WordRect>,
        y: usize,
        width: isize,
        sb: usize,
        justification: TextJustification,
    ) -> (line: LineRect)
        requires
            words_wf(old(words)@),
            words_bounded(line_words(old(words)@)),
            sb <= width_bound(),
            0 <= width <= width_bound(),
        ensures
            ({
                let r = fill_line(line_words(old(words)@), 0, Seq::empty(), width as int, sb);
                &&& line_words(line.words@) == r.0
                &&& line.available_space == r.1
                &&& 0 <= r.2 <= old(words)@.len()
                &&& final(words)@ == old(words)@.subrange(r.2, old(words)@.len() as int)
            }),
            words_wf(line.words@),
            words_wf(final(words)@),
            line.y_offset == y,
            line.spacebar_width == sb,
            line.justification == justification,
    {
        let ghost all = words@;
        assert(all.len() == words.len());
        let ghost target = fill_line(line_words(all), 0, Seq::empty(), width as int, sb);
        let mut line = LineRect::new(y, width, sb, justification);
        let mut k: usize = 0;
        let mut done = false;
        proof {
            assert(all.subrange(0, all.len() as int) =~= all);
            assert(line_words(line.words@) =~= Seq::<Seq<Glyph>>::empty());
            assert(line_used(Seq::<Seq<Glyph>>::empty(), sb) == 0);
            lemma_fill_line(line_words(all), 0, Seq::empty(), width as int, sb, width as int);
        }
        while !done
            invariant
                all.len() <= usize::MAX,
                words_wf(all),
                words_bounded(line_words(all)),
                sb <= width_bound(),
                0 <= width <= width_bound(),
                k <= all.len(),
                words@ == all.subrange(k as int, all.len() as int),
                words_wf(line.words@),
                words_bounded(line_words(line.words@)),
                line.y_offset == y,
                line.spacebar_width == sb,
                line.justification == justification,
                target == fill_line(line_words(all), 0, Seq::empty(), width as int, sb),
                !done ==> fill_line(
                    line_words(all),
                    k as int,
                    line_words(line.words@),
                    line.available_space as int,
                    sb,
                ) == target,
                !done ==> line.available_space >= 0,
                !done ==> line_used(line_words(line.words@), sb) + line.available_space == width,
                done ==> target == (
                    line_words(line.words@),
                    line.available_space as int,
                    k as int,
                ),
            decreases all.len() - k + (if done {
                0int
            } else {
                1int
            }),
        {
            if words.len() == 0 {
                proof {
                    lemma_line_words_subrange(all, k as int);
                }
                done = true;
            } else {
                proof {
                    lemma_line_words_subrange(all, k as int);
                    lemma_fill_line(
                        line_words(all),
                        k as int,
                        line_words(line.words@),
                        line.available_space as int,
                        sb,
                        width as int,
                    );
                }
                let word = words.remove(0);
                assert(word == all[k as int]);
                assert(line_words(all)[k as int] == word.glyphs@);
                let ghost before = line;
                proof {
                    assert(glyphs_width(word.glyphs@) <= width_bound());
                }
                line.push_word(word);
                proof {
                    lemma_word_pushed(before.words@, line.words@, word, sb);
                }
                if line.is_overflow() {
                    if line.len() > 1 {
                        proof {
                            lemma_line_words_pop(line.words@);
                            lemma_line_used_pop(line_words(line.words@), sb);
                        }
                        let back = line.pop_word();
                        match back {
                            Some(w) => {
                                words.insert(0, w);
                                assert(words@ =~= all.subrange(k as int, all.len() as int));
                            },
                            None => {},
                        }
                        assert(line.words@ =~= before.words@);
                    } else {
                        k = k + 1;
                        assert(words@ =~= all.subrange(k as int, all.len() as int));
                    }
                    done = true;
                } else {
                    k = k + 1;
                    assert(words@ =~= all.subrange(k as int, all.len() as int));
                }
                proof {
                    assert(words_wf(line.words@)) by {
                        assert forall|i: int| 0 <= i < line.words@.len() implies (
                        #[trigger] line.words@[i]).wf() by {
                            if i < before.words@.len() {
                                assert(line.words@[i] == before.words@[i]);
                            }
                        }
                    }
                    assert(words_bounded(line_words(line.words@))) by {
                        assert forall|i: int| 0 <= i < line_words(line.words@).len() implies glyphs_width(
                            #[trigger] line_words(line.words@)[i],
                        ) <= width_bound() by {
                            if i < before.words@.len() {
                                assert(line.words@[i] == before.words@[i]);
                            }
                        }
                    }
                }
            }
        }
        proof {
            lemma_fill_line(line_words(all), 0, Seq::empty(), width as int, sb, width as int);
            assert(words_wf(words@)) by {
                assert forall|i: int| 0 <= i < words@.len() implies (#[trigger] words@[i]).wf() by {
                    assert(words@[i] == all[i + k]);
                }
            }
        }
        line
    }
}

} // verus!

verus! {

/// The glyphs of a word, where there is one.
pub open spec fn opt_glyphs(w: Option<WordRect>) -> Option<Seq<Glyph>> {
    match w {
        Some(x) => Some(x.glyphs@),
        None => None,
    }
}

impl TextRect {
    /// Puts the ellipsis on the lines (see [`ellipsize_lines`]): on the last line, with the
    /// first word left over, then on the line before while a line runs out of words.
    pub fn ellipsize(&mut self)
        requires
            forall|i: int|
                0 <= i < old(self).lines@.len() ==> layout_line_ok(
                    #[trigger] old(self).lines@[i],
                    old(self).spacebar_width,
                ),
            words_wf(old(self).words@),
            words_bounded(line_words(old(self).words@)),
            old(self).spacebar_width <= width_bound(),
            old(self).ellipsis.advance_width <= width_bound(),
        ensures
            old(self).lines@.len() == 0 ==> final(self).lines@ == old(self).lines@
                && final(self).words@ == old(self).words@,
            old(self).lines@.len() > 0 && old(self).words@.len() > 0 ==> Some(
                lines_view(final(self).lines@),
            ) == ellipsize_lines(
                lines_view(old(self).lines@),
                Some(old(self).words@[0].glyphs@),
                old(self).ellipsis,
                old(self).ellipsize_at,
                old(self).spacebar_width,
            ) && final(self).words@ == old(self).words@.drop_first(),
            old(self).lines@.len() > 0 && old(self).words@.len() == 0 ==> Some(
                lines_view(final(self).lines@),
            ) == ellipsize_lines(
                lines_view(old(self).lines@),
                None,
                old(self).ellipsis,
                old(self).ellipsize_at,
                old(self).spacebar_width,
            ) && final(self).words@ == old(self).words@,
            final(self).spacebar_width == old(self).spacebar_width,
            final(self).ellipsis == old(self).ellipsis,
            final(self).ellipsize_at == old(self).ellipsize_at,
            final(self).width == old(self).width,
            final(self).line_height == old(self).line_height,
            final(self).line_spacing == old(self).line_spacing,
            final(self).margin == old(self).margin,
            final(self).wrap == old(self).wrap,
            final(self).justification == old(self).justification,
    {
        if self.lines.len() == 0 {
            return;
        }
        let e = self.ellipsis;
        let at = self.ellipsize_at;
        let sb = self.spacebar_width;
        let first: Option<WordRect> = if self.words.len() > 0 {
            Some(self.words.remove(0))
        } else {
            None
        };
        proof {
            if old(self).words@.len() > 0 {
                assert(first == Some(old(self).words@[0]));
                assert(old(self).words@[0].wf());
                assert(line_words(old(self).words@)[0] == old(self).words@[0].glyphs@);
                assert(self.words@ =~= old(self).words@.drop_first());
            }
        }
        let ghost target = ellipsize_lines(lines_view(self.lines@), opt_glyphs(first), e, at, sb);
        let mut pending: Option<Option<WordRect>> = Some(first);
        loop
            invariant_except_break
                pending is Some,
                forall|i: int|
                    0 <= i < self.lines@.len() ==> layout_line_ok(#[trigger] self.lines@[i], sb),
                pending matches Some(w) ==> ellipsize_lines(lines_view(self.lines@), opt_glyphs(w), e, at, sb)
                    == target,
                pending matches Some(w) ==> (w matches Some(x) ==> x.wf() && glyphs_width(x.glyphs@)
                    <= width_bound()),
            invariant
                sb == self.spacebar_width,
                sb <= width_bound(),
                e.advance_width <= width_bound(),
                self.ellipsis == e,
                self.ellipsize_at == at,
                self.width == old(self).width,
                self.line_height == old(self).line_height,
                self.line_spacing == old(self).line_spacing,
                self.margin == old(self).margin,
                self.wrap == old(self).wrap,
                self.justification == old(self).justification,
                self.words@ == (if old(self).words@.len() > 0 {
                    old(self).words@.drop_first()
                } else {
                    old(self).words@
                }),
            ensures
                target == Some(lines_view(self.lines@)),
                self.words@ == (if old(self).words@.len() > 0 {
                    old(self).words@.drop_first()
                } else {
                    old(self).words@
                }),
                sb == self.spacebar_width,
                self.ellipsis == e,
                self.ellipsize_at == at,
                self.width == old(self).width,
                self.line_height == old(self).line_height,
                self.line_spacing == old(self).line_spacing,
                self.margin == old(self).margin,
            decreases self.lines@.len() + (if pending is Some {
                1int
            } else {
                0int
            }),
        {
            let w = match pending {
                None => {
                    break;
                },
                Some(w) => w,
            };
            if self.lines.len() == 0 {
                assert(lines_view(self.lines@) =~= Seq::<(int, Seq<Seq<Glyph>>, int)>::empty());
                break;
            }
            let ghost lines_before = self.lines@;
            let mut last = match self.lines.pop() {
                Some(l) => l,
                None => {
                    break;
                },
            };
            proof {
                assert(last == lines_before.last());
                assert(layout_line_ok(lines_before[lines_before.len() - 1], sb));
                lemma_middle_some(line_words(last.words@), last.available_space as int, sb, opt_glyphs(w), e);
                assert(lines_view(self.lines@) =~= lines_view(lines_before).drop_last());
                assert(lines_view(lines_before).last() == line_view(last));
            }
            let st = last.ellipsize(w, e, at);
            match st {
                EllipsizationState::Continue(next) => {
                    proof {
                        assert(next->0.glyphs@ =~= Seq::<Glyph>::empty());
                        assert forall|i: int| 0 <= i < self.lines@.len() implies layout_line_ok(
                            #[trigger] self.lines@[i],
                            sb,
                        ) by {
                            assert(self.lines@[i] == lines_before[i]);
                        }
                    }
                    pending = Some(next);
                },
                EllipsizationState::Complete => {
                    let ghost l = line_view(last);
                    self.lines.push(last);
                    proof {
                        assert(lines_view(self.lines@) =~= lines_view(lines_before).update(
                            lines_before.len() - 1,
                            l,
                        ));
                    }
                    pending = None;
                    break;
                },
            }
        }
    }
}

} // verus!

verus! {

impl TextRect {
    /// Lays the words out in the size given, less the margin (see [`layout_spec`]).
    pub fn compile(&mut self, rect_size: crate::layout::RectSize)
        requires
            words_wf(old(self).words@),
            words_bounded(line_words(old(self).words@)),
            old(self).spacebar_width <= width_bound(),
            old(self).ellipsis.advance_width <= width_bound(),
            rect_size.width <= width_bound(),
            0 < old(self).line_height + old(self).line_spacing <= usize::MAX,
        ensures
            final(self).width == rect_size.width,
            final(self).wrap == old(self).wrap,
            final(self).spacebar_width == old(self).spacebar_width,
            final(self).line_height == old(self).line_height,
            final(self).line_spacing == old(self).line_spacing,
            final(self).ellipsize_at == old(self).ellipsize_at,
            final(self).ellipsis == old(self).ellipsis,
            final(self).justification == old(self).justification,
            final(self).margin == old(self).margin,
            ({
                let inner_w = crate::config::spacing::sat_sub(
                    rect_size.width as int,
                    old(self).margin.left + old(self).margin.right,
                );
                let inner_h = crate::config::spacing::sat_sub(
                    rect_size.height as int,
                    old(self).margin.top + old(self).margin.bottom,
                );
                let r = layout_spec(
                    line_words(old(self).words@),
                    inner_w,
                    inner_h,
                    old(self).wrap,
                    old(self).spacebar_width,
                    old(self).line_height as int,
                    old(self).line_height + old(self).line_spacing,
                    old(self).ellipsis,
                    old(self).ellipsize_at,
                );
                &&& lines_view(final(self).lines@) == r.0
                &&& line_words(final(self).words@) == r.1
            }),
    {
        self.width = rect_size.width;
        let mut size = rect_size;
        size.shrink_by(&self.margin);
        let sb = self.spacebar_width;
        let step = self.line_height + self.line_spacing;
        let line_height = self.line_height;
        let height = size.height;
        let width = size.width as isize;
        let count0: usize = if self.wrap {
            usize::MAX
        } else {
            1
        };
        let ghost all = self.words@;
        let total = self.words.len();
        assert(all.len() == total);
        let ghost target = fill_lines(
            line_words(all),
            0,
            0,
            height as int,
            count0 as nat,
            width as int,
            sb,
            line_height as int,
            step as int,
        );
        proof {
            lemma_fill_lines(
                line_words(all),
                0,
                0,
                height as int,
                count0 as nat,
                width as int,
                sb,
                line_height as int,
                step as int,
            );
            assert(all.subrange(0, all.len() as int) =~= all);
            assert(lines_view(Seq::<LineRect>::empty()) + target.0 =~= target.0);
        }
        let mut lines: Vec<LineRect> = Vec::new();
        let mut y: usize = 0;
        let mut count: usize = count0;
        let mut k: usize = 0;
        let mut done = false;
        while !done && count > 0 && y < height && height - y >= line_height
            invariant
                all.len() <= usize::MAX,
                total == all.len(),
                words_wf(all),
                words_bounded(line_words(all)),
                sb <= width_bound(),
                0 <= width <= width_bound(),
                self.spacebar_width == sb,
                k <= all.len(),
                self.words@ == all.subrange(k as int, all.len() as int),
                target == fill_lines(
                    line_words(all),
                    0,
                    0,
                    height as int,
                    count0 as nat,
                    width as int,
                    sb,
                    line_height as int,
                    step as int,
                ),
                !done ==> target == (
                    lines_view(lines@) + fill_lines(
                        line_words(all),
                        k as int,
                        y as int,
                        height as int,
                        count as nat,
                        width as int,
                        sb,
                        line_height as int,
                        step as int,
                    ).0,
                    fill_lines(
                        line_words(all),
                        k as int,
                        y as int,
                        height as int,
                        count as nat,
                        width as int,
                        sb,
                        line_height as int,
                        step as int,
                    ).1,
                ),
                done ==> target == (lines_view(lines@), k as int),
                forall|i: int|
                    0 <= i < lines@.len() ==> (#[trigger] lines@[i]).spacebar_width == sb && words_wf(
                        lines@[i].words@,
                    ),
                self.ellipsis == old(self).ellipsis,
                self.ellipsize_at == old(self).ellipsize_at,
                self.wrap == old(self).wrap,
                self.justification == old(self).justification,
                self.width == rect_size.width,
                self.line_height == line_height,
                self.line_spacing == old(self).line_spacing,
                self.margin == old(self).margin,
            decreases count + (if done {
                0int
            } else {
                1int
            }),
        {
            proof {
                lemma_line_words_subrange(all, k as int);
                assert(words_wf(self.words@)) by {
                    assert forall|i: int| 0 <= i < self.words@.len() implies (#[trigger] self.words@[i]).wf() by {
                        assert(self.words@[i] == all[i + k]);
                    }
                }
                assert(words_bounded(line_words(self.words@))) by {
                    assert forall|i: int| 0 <= i < line_words(self.words@).len() implies glyphs_width(
                        #[trigger] line_words(self.words@)[i],
                    ) <= width_bound() by {
                        assert(line_words(self.words@)[i] == line_words(all)[i + k]);
                    }
                }
            }
            let ghost words_before = self.words@;
            let line = TextRect::fill_one_line(&mut self.words, y, width, sb, self.justification);
            proof {
                let r0 = fill_line(line_words(words_before), 0, Seq::empty(), width as int, sb);
                lemma_fill_line_shift(line_words(all), k as int, width as int, sb);
                assert(line_words(words_before) == line_words(all).subrange(k as int, all.len() as int));
            }
            let ghost k_before = k;
            let ghost count_before = count;
            let ghost lines_before = lines@;
            let ghost r = fill_line(line_words(all), k as int, Seq::empty(), width as int, sb);
            k = total - self.words.len();
            proof {
                assert(self.words@ =~= all.subrange(k as int, all.len() as int));
                assert(k == r.2);
                assert(line_view(line) == (y as int, r.0, r.1));
            }
            let ghost next = fill_lines(
                line_words(all),
                k_before as int,
                y as int,
                height as int,
                count_before as nat,
                width as int,
                sb,
                line_height as int,
                step as int,
            );
            if line.is_empty() {
                done = true;
                proof {
                    assert(r.0.len() == 0);
                    assert(next == (Seq::<(int, Seq<Seq<Glyph>>, int)>::empty(), r.2));
                    assert(lines_view(lines@) + next.0 =~= lines_view(lines@));
                }
            } else {
                let overflow = line.is_overflow();
                let ghost lv = line_view(line);
                lines.push(line);
                proof {
                    assert(lines_view(lines@) =~= lines_view(lines_before).push(lv));
                    assert forall|i: int| 0 <= i < lines@.len() implies (#[trigger] lines@[i]).spacebar_width
                        == sb && words_wf(lines@[i].words@) by {
                        if i < lines_before.len() {
                            assert(lines@[i] == lines_before[i]);
                        }
                    }
                }
                if overflow {
                    done = true;
                    proof {
                        assert(next == (seq![lv], r.2));
                        assert(lines_view(lines_before) + seq![lv] =~= lines_view(lines@));
                    }
                } else {
                    count = count - 1;
                    let ghost rest_at = fill_lines(
                        line_words(all),
                        k as int,
                        y + step,
                        height as int,
                        count as nat,
                        width as int,
                        sb,
                        line_height as int,
                        step as int,
                    );
                    proof {
                        assert(next == (seq![lv] + rest_at.0, rest_at.1));
                    }
                    if y > usize::MAX - step {
                        done = true;
                        proof {
                            assert(rest_at == (Seq::<(int, Seq<Seq<Glyph>>, int)>::empty(), k as int));
                            assert(lines_view(lines_before) + (seq![lv] + rest_at.0) =~= lines_view(lines@));
                        }
                    } else {
                        y = y + step;
                        proof {
                            assert(lines_view(lines_before) + (seq![lv] + rest_at.0) =~= lines_view(lines@)
                                + rest_at.0);
                        }
                    }
                }
            }
        }
        self.lines = lines;
        proof {
            lemma_line_words_subrange(all, k as int);
            assert forall|i: int| 0 <= i < self.lines@.len() implies layout_line_ok(
                #[trigger] self.lines@[i],
                sb,
            ) by {
                lemma_line_props(self.lines@[i], sb, width as int, target.0[i]);
            }
        }
        self.ellipsize();
    }
}

/// Filling from a later word is filling the words that follow it.
proof fn lemma_fill_line_shift(words: Seq<Seq<Glyph>>, k: int, width: int, sb: usize)
    requires
        0 <= k <= words.len(),
    ensures
        ({
            let a = fill_line(words, k, Seq::empty(), width, sb);
            let b = fill_line(words.subrange(k, words.len() as int), 0, Seq::empty(), width, sb);
            a.0 == b.0 && a.1 == b.1 && a.2 == b.2 + k
        }),
{
    lemma_fill_line_shift_from(words, k, k, Seq::empty(), width, sb);
}

proof fn lemma_fill_line_shift_from(
    words: Seq<Seq<Glyph>>,
    k: int,
    j: int,
    line: Seq<Seq<Glyph>>,
    avail: int,
    sb: usize,
)
    requires
        0 <= k <= j <= words.len(),
    ensures
        ({
            let a = fill_line(words, j, line, avail, sb);
            let b = fill_line(words.subrange(k, words.len() as int), j - k, line, avail, sb);
            a.0 == b.0 && a.1 == b.1 && a.2 == b.2 + k
        }),
    decreases words.len() - j,
{
    let sub = words.subrange(k, words.len() as int);
    if j < words.len() {
        assert(sub[j - k] == words[j]);
        let a2 = avail - glyphs_width(words[j]) - gap_before(line.len(), sb);
        if a2 >= 0 {
            lemma_fill_line_shift_from(words, k, j + 1, line.push(words[j]), a2, sb);
        }
    }
}

/// A line of the layout satisfies what the ellipsis needs.
proof fn lemma_line_props(l: LineRect, sb: usize, width: int, v: (int, Seq<Seq<Glyph>>, int))
    requires
        line_view(l) == v,
        l.spacebar_width == sb,
        words_wf(l.words@),
        v.1.len() > 0,
        v.2 + line_used(v.1, sb) == width,
        v.2 >= -width_bound(),
        0 <= width <= width_bound(),
    ensures
        layout_line_ok(l, sb),
{
}

} // verus!

verus! {

/// The words of a run of glyphs: the maximal runs of glyphs that are not blank, in order.
pub open spec fn glyph_runs(gs: Seq<Glyph>) -> Seq<Seq<Glyph>>
    decreases gs.len(),
{
    if gs.len() == 0 {
        Seq::empty()
    } else {
        let prev = glyph_runs(gs.drop_last());
        let g = gs.last();
        if g.is_empty {
            prev
        } else if gs.len() > 1 && !gs[gs.len() - 2].is_empty && prev.len() > 0 {
            prev.update(prev.len() - 1, prev.last().push(g))
        } else {
            prev.push(seq![g])
        }
    }
}

/// Groups glyphs into words (see [`glyph_runs`]).
pub fn convert_to_words(glyphs: &[Glyph]) -> (r: Vec<WordRect>)
    requires
        glyphs_width(glyphs@) <= usize::MAX,
    ensures
        line_words(r@) == glyph_runs(glyphs@),
        words_wf(r@),
{
    let mut words: Vec<WordRect> = Vec::new();
    let mut current = WordRect::new_empty();
    let mut i: usize = 0;
    while i < glyphs.len()
        invariant
            i <= glyphs@.len(),
            glyphs_width(glyphs@) <= usize::MAX,
            current.wf(),
            words_wf(words@),
            glyphs_width(current.glyphs@) <= glyphs_width(glyphs@.subrange(0, i as int)),
            current.glyphs@.len() > 0 <==> (i > 0 && !glyphs@[i - 1].is_empty),
            glyph_runs(glyphs@.subrange(0, i as int)) == (if current.glyphs@.len() > 0 {
                line_words(words@).push(current.glyphs@)
            } else {
                line_words(words@)
            }),
        decreases glyphs@.len() - i,
    {
        let g = glyphs[i];
        let ghost prefix = glyphs@.subrange(0, i + 1);
        proof {
            assert(prefix.drop_last() =~= glyphs@.subrange(0, i as int));
            assert(prefix.last() == g);
            assert(glyphs_width(prefix) == glyphs_width(glyphs@.subrange(0, i as int)) + g.advance_width);
            lemma_glyphs_width_prefix(glyphs@, i + 1);
            if i > 0 {
                assert(prefix[prefix.len() - 2] == glyphs@[i - 1]);
            }
        }
        if g.is_empty {
            if !current.is_blank() {
                let ghost before = words@;
                let done = current;
                words.push(done);
                current = WordRect::new_empty();
                proof {
                    assert(line_words(words@) =~= line_words(before).push(done.glyphs@));
                    assert(words_wf(words@)) by {
                        assert forall|j: int| 0 <= j < words@.len() implies (#[trigger] words@[j]).wf() by {
                            if j < before.len() {
                                assert(words@[j] == before[j]);
                            }
                        }
                    }
                }
            }
        } else {
            let ghost before = current.glyphs@;
            current.push_glyph(g);
            proof {
                assert(current.glyphs@.drop_last() =~= before);
                if before.len() > 0 {
                    assert(line_words(words@).push(before).last() == before);
                    assert(line_words(words@).push(before).update(
                        line_words(words@).len() as int,
                        before.push(g),
                    ) =~= line_words(words@).push(before.push(g)));
                } else {
                    assert(before.push(g) =~= seq![g]);
                }
            }
        }
        i = i + 1;
    }
    if !current.is_blank() {
        let ghost before = words@;
        let done = current;
        words.push(done);
        proof {
            assert(line_words(words@) =~= line_words(before).push(done.glyphs@));
            assert(words_wf(words@)) by {
                assert forall|j: int| 0 <= j < words@.len() implies (#[trigger] words@[j]).wf() by {
                    if j < before.len() {
                        assert(words@[j] == before[j]);
                    }
                }
            }
        }
    }
    assert(glyphs@.subrange(0, glyphs@.len() as int) =~= glyphs@);
    words
}

impl TextRect {
    /// The text of some glyphs, grouped into words, not laid out yet; it wraps, with no space
    /// between lines and no margin.
    pub fn from_glyphs(
        glyphs: &[Glyph],
        spacebar_width: usize,
        line_height: usize,
        ellipsis: Glyph,
        ellipsize_at: EllipsizeAt,
        justification: TextJustification,
    ) -> (r: TextRect)
        requires
            glyphs_width(glyphs@) <= usize::MAX,
        ensures
            line_words(r.words@) == glyph_runs(glyphs@),
            words_wf(r.words@),
            r.lines@ == Seq::<LineRect>::empty(),
            r.wrap,
            r.width == 0,
            r.spacebar_width == spacebar_width,
            r.line_height == line_height,
            r.line_spacing == 0,
            r.ellipsis == ellipsis,
            r.ellipsize_at == ellipsize_at,
            r.justification == justification,
            r.margin == crate::config::spacing::Spacing::zero(),
    {
        TextRect {
            words: convert_to_words(glyphs),
            lines: Vec::new(),
            wrap: true,
            width: 0,
            spacebar_width,
            line_height,
            line_spacing: 0,
            ellipsize_at,
            ellipsis,
            justification,
            margin: crate::config::spacing::Spacing { top: 0, right: 0, bottom: 0, left: 0 },
        }
    }

    pub fn width(&self) -> (r: usize)
        ensures
            r == self.width,
    {
        self.width
    }

    /// The height of the text: its lines, the space between each two, and its margin.
    pub fn height(&self) -> (r: usize)
        requires
            self.lines@.len() * self.line_height + (if self.lines@.len() > 0 {
                self.lines@.len() - 1
            } else {
                0
            }) * self.line_spacing + self.margin.top + self.margin.bottom <= usize::MAX,
        ensures
            r == self.lines@.len() * self.line_height + (if self.lines@.len() > 0 {
                self.lines@.len() - 1
            } else {
                0
            }) * self.line_spacing + self.margin.top + self.margin.bottom,
    {
        let n = self.lines.len();
        let gaps = if n > 0 {
            n - 1
        } else {
            0
        };
        let lh = self.line_height;
        let ls = self.line_spacing;
        let top = self.margin.top as usize;
        let bottom = self.margin.bottom as usize;
        assert(n * lh <= usize::MAX && gaps * ls <= usize::MAX) by (nonlinear_arith)
            requires
                n * lh + gaps * ls + top + bottom <= usize::MAX,
                n >= 0,
                lh >= 0,
                gaps >= 0,
                ls >= 0,
                top >= 0,
                bottom >= 0,
        ;
        n * lh + gaps * ls + top + bottom
    }

    /// Whether nothing of the text is laid out.
    pub fn is_empty(&self) -> (r: bool)
        ensures
            r == (self.lines@.len() == 0 || forall|i: int|
                0 <= i < self.lines@.len() ==> (#[trigger] self.lines@[i]).words@.len() == 0),
    {
        let mut i: usize = 0;
        while i < self.lines.len()
            invariant
                i <= self.lines@.len(),
                forall|j: int| 0 <= j < i ==> (#[trigger] self.lines@[j]).words@.len() == 0,
            decreases self.lines@.len() - i,
        {
            if !self.lines[i].is_empty() {
                return false;
            }
            i = i + 1;
        }
        true
    }
}

} // verus!
