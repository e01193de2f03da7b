//! Parser for the small HTML-like markup that notification bodies may carry.
//!
//! The parser walks the grapheme clusters of the input, removes the supported
//! tags (`<b>`, `<i>`, `<u>`, `<a href="..">`, `<img src=".." alt=".."/>`),
//! decodes HTML character references and records, for every tag, the span of
//! the resulting text that it covers.
use vstd::prelude::*;

use crate::unicode::{
    all_in_class, all_whitespace, char_in_class, chars_in_class, in_class, is_all_whitespace,
    chars_of, lemma_utf8_len_bound, spec_is_whitespace, spec_utf8_len, string_from_chars, trim,
    trim_chars, utf8_len, CharClass,
};

verus! {

// ---------------------------------------------------------------------------
// Outside calls
// ---------------------------------------------------------------------------

/// What `unic_segment::Graphemes` splits a text into: its extended grapheme clusters.
pub uninterp spec fn spec_graphemes(s: Seq<char>) -> Seq<Seq<char>>;

/// What `html_escape::decode_html_entities` turns a text into.
pub uninterp spec fn spec_decode_html_entities(s: Seq<char>) -> Seq<char>;

/// Splits `text` into extended grapheme clusters with `unic_segment::Graphemes`.
///
/// Claims: the result is the segmentation named `spec_graphemes`; the clusters are
/// consecutive, non-empty slices of the text, so that joined in order they give the text back.
#[verifier::external_body]
pub(crate) fn graphemes(text: &[char]) -> (r: Vec<Vec<char>>)
    ensures
        gview(r@) == spec_graphemes(text@),
        joined(gview(r@)) == text@,
        nonempty_clusters(gview(r@)),
{
    let s: String = text.iter().collect();
    unic_segment::Graphemes::new(&s).map(|g| g.chars().collect()).collect()
}

/// Decodes the HTML character references of `text` with `html_escape::decode_html_entities`.
///
/// Claims: the result is the decoding named `spec_decode_html_entities`, and it never holds
/// more characters than the text: every reference (`&` + name or number + `;`, at least four
/// characters long) is replaced by the one or two characters it names, everything else is copied.
#[verifier::external_body]
pub(crate) fn decode_html_entities(text: &[char]) -> (r: Vec<char>)
    ensures
        r@ == spec_decode_html_entities(text@),
        r@.len() <= text@.len(),
{
    let s: String = text.iter().collect();
    html_escape::decode_html_entities(&s).chars().collect()
}

// ---------------------------------------------------------------------------
// Model of the input: a sequence of grapheme clusters
// ---------------------------------------------------------------------------

/// The clusters held in a vector, as character sequences.
pub open spec fn gview(g: Seq<Vec<char>>) -> Seq<Seq<char>> {
    g.map_values(|v: Vec<char>| v@)
}

/// The clusters `g[a..b]` joined into one character sequence.
pub open spec fn concat(g: Seq<Seq<char>>, a: int, b: int) -> Seq<char>
    decreases b - a,
{
    if b <= a {
        Seq::empty()
    } else {
        concat(g, a, b - 1) + g[b - 1]
    }
}

/// All clusters joined.
pub open spec fn joined(g: Seq<Seq<char>>) -> Seq<char> {
    concat(g, 0, g.len() as int)
}

pub open spec fn nonempty_clusters(g: Seq<Seq<char>>) -> bool {
    forall|i: int| 0 <= i < g.len() ==> (#[trigger] g[i]).len() > 0
}

/// The cluster consists of the single character `c`.
pub open spec fn is_glyph(s: Seq<char>, c: char) -> bool {
    s.len() == 1 && s[0] == c
}

/// The cluster is a single ASCII character of the given class.
pub open spec fn is_class_glyph(s: Seq<char>, class: CharClass) -> bool {
    s.len() == 1 && in_class(s[0], class)
}

/// First index at or after `k` whose cluster is not all whitespace (or the end).
pub open spec fn skip_ws(g: Seq<Seq<char>>, k: int) -> int
    decreases g.len() - k,
{
    if k >= g.len() {
        k
    } else if all_whitespace(g[k]) {
        skip_ws(g, k + 1)
    } else {
        k
    }
}

/// First index at or after `k` whose cluster is the character `c` (or the end).
pub open spec fn find_glyph(g: Seq<Seq<char>>, k: int, c: char) -> int
    decreases g.len() - k,
{
    if k >= g.len() {
        k
    } else if is_glyph(g[k], c) {
        k
    } else {
        find_glyph(g, k + 1, c)
    }
}

pub proof fn lemma_skip_ws_bounds(g: Seq<Seq<char>>, k: int)
    requires
        0 <= k <= g.len(),
    ensures
        k <= skip_ws(g, k) <= g.len(),
        skip_ws(g, k) < g.len() ==> !all_whitespace(g[skip_ws(g, k)]),
    decreases g.len() - k,
{
    if k < g.len() && all_whitespace(g[k]) {
        lemma_skip_ws_bounds(g, k + 1);
    }
}

pub proof fn lemma_find_glyph_bounds(g: Seq<Seq<char>>, k: int, c: char)
    requires
        0 <= k <= g.len(),
    ensures
        k <= find_glyph(g, k, c) <= g.len(),
        find_glyph(g, k, c) < g.len() ==> is_glyph(g[find_glyph(g, k, c)], c),
    decreases g.len() - k,
{
    if k < g.len() && !is_glyph(g[k], c) {
        lemma_find_glyph_bounds(g, k + 1, c);
    }
}

// ---------------------------------------------------------------------------
// Public result types
// ---------------------------------------------------------------------------

/// The formatting that a span of text carries.
#[derive(Debug, PartialEq, Eq)]
pub enum EntityKind {
    /// `<b> ... </b>`
    Bold,
    /// `<i> ... </i>`
    Italic,
    /// `<u> ... </u>`
    Underline,
    /// `<a href="hello.com"> ... </a>`
    Link { href: Option<String> },
    /// `<img src="./path/to/image.png" alt="..."/>`
    Image { src: Option<String>, alt: Option<String> },
}

/// A formatted span of the parsed text, counted both in grapheme clusters and in bytes.
#[derive(Debug, PartialEq, Eq)]
pub struct Entity {
    pub offset: usize,
    pub offset_in_byte: usize,
    pub length: usize,
    pub length_in_byte: usize,
    pub kind: EntityKind,
}

/// Plain text together with the formatted spans found in its markup.
#[derive(Debug, PartialEq, Eq)]
pub struct Text {
    pub body: String,
    pub entities: Vec<Entity>,
}

/// Mathematical model of [`EntityKind`].
pub enum KindView {
    Bold,
    Italic,
    Underline,
    Link { href: Option<Seq<char>> },
    Image { src: Option<Seq<char>>, alt: Option<Seq<char>> },
}

/// Mathematical model of [`Entity`].
pub struct EntityView {
    pub offset: int,
    pub offset_in_byte: int,
    pub length: int,
    pub length_in_byte: int,
    pub kind: KindView,
}

/// Mathematical model of [`Text`].
pub struct TextView {
    pub body: Seq<char>,
    pub entities: Seq<EntityView>,
}

pub open spec fn opt_string_view(s: Option<String>) -> Option<Seq<char>> {
    match s {
        Some(s) => Some(s@),
        None => None,
    }
}

impl View for EntityKind {
    type V = KindView;

    open spec fn view(&self) -> KindView {
        match self {
            EntityKind::Bold => KindView::Bold,
            EntityKind::Italic => KindView::Italic,
            EntityKind::Underline => KindView::Underline,
            EntityKind::Link { href } => KindView::Link { href: opt_string_view(*href) },
            EntityKind::Image { src, alt } => KindView::Image {
                src: opt_string_view(*src),
                alt: opt_string_view(*alt),
            },
        }
    }
}

impl View for Entity {
    type V = EntityView;

    open spec fn view(&self) -> EntityView {
        EntityView {
            offset: self.offset as int,
            offset_in_byte: self.offset_in_byte as int,
            length: self.length as int,
            length_in_byte: self.length_in_byte as int,
            kind: self.kind@,
        }
    }
}

impl View for Text {
    type V = TextView;

    open spec fn view(&self) -> TextView {
        TextView { body: self.body@, entities: self.entities@.map_values(|e: Entity| e@) }
    }
}

/// Tags of one kind close each other; links and images match whatever their attributes.
pub open spec fn kind_id(k: KindView) -> u8 {
    match k {
        KindView::Bold => 0,
        KindView::Italic => 1,
        KindView::Underline => 2,
        KindView::Link { .. } => 3,
        KindView::Image { .. } => 4,
    }
}

impl EntityKind {
    pub fn to_id(&self) -> (r: u8)
        ensures
            r == kind_id(self@),
    {
        match self {
            EntityKind::Bold => 0,
            EntityKind::Italic => 1,
            EntityKind::Underline => 2,
            EntityKind::Link { .. } => 3,
            EntityKind::Image { .. } => 4,
        }
    }
}

// ---------------------------------------------------------------------------
// Specification of the parser
// ---------------------------------------------------------------------------

#[derive(Clone, Copy, PartialEq, Eq, Structural, Debug)]
pub enum TagType {
    Opening,
    Closing,
    SelfClosing,
}

/// A tag recognised at some position: what it is and the index right after it.
pub struct TagView {
    pub kind: KindView,
    pub tag_type: TagType,
    pub end: int,
}

/// Ends a tag without attributes (`b`, `i`, `u`) whose name ends before index `k`:
/// optional whitespace, an optional `/` (only for an opening tag, which then closes
/// itself) and `>`. Gives the final tag type and the index after `>`.
pub open spec fn close_plain(g: Seq<Seq<char>>, k: int, tt: TagType) -> Option<(TagType, int)> {
    let n = g.len() as int;
    let k = skip_ws(g, k);
    if k >= n {
        None
    } else if is_glyph(g[k], '/') {
        if tt == TagType::Opening && k + 1 < n && is_glyph(g[k + 1], '>') {
            Some((TagType::SelfClosing, k + 2))
        } else {
            None
        }
    } else if is_glyph(g[k], '>') {
        Some((tt, k + 1))
    } else {
        None
    }
}

pub type Attrs = Seq<(Seq<char>, Seq<char>)>;

/// Reads `name="value"` pairs starting at the cluster `k` up to the `>` or `/` that ends the
/// tag. Gives the index of that cluster and the pairs read, in order.
pub open spec fn attr_loop(g: Seq<Seq<char>>, k: int, attrs: Attrs) -> Option<(int, Attrs)>
    decreases g.len() - k,
{
    let n = g.len() as int;
    if k < 0 || k >= n {
        None
    } else if is_glyph(g[k], '>') || is_glyph(g[k], '/') {
        Some((k, attrs))
    } else {
        let e = find_glyph(g, k + 1, '=');
        let name = trim(concat(g, k, e));
        if !all_in_class(name, CharClass::Alphabetic) || e >= n {
            None
        } else {
            let q1 = find_glyph(g, e + 1, '"');
            if q1 >= n {
                None
            } else {
                let q2 = find_glyph(g, q1 + 1, '"');
                let value = concat(g, q1 + 1, q2);
                let c = if q2 < n {
                    q2 + 1
                } else {
                    n
                };
                let k2 = skip_ws(g, c);
                proof {
                    lemma_find_glyph_bounds(g, k + 1, '=');
                    lemma_find_glyph_bounds(g, e + 1, '"');
                    lemma_find_glyph_bounds(g, q1 + 1, '"');
                    lemma_skip_ws_bounds(g, c);
                }
                attr_loop(g, k2, attrs.push((name, value)))
            }
        }
    }
}

/// Ends a tag with attributes (`a`, `img`) whose name ends before index `k`.
pub open spec fn close_attributed(g: Seq<Seq<char>>, k: int, tt: TagType) -> Option<
    (TagType, int, Attrs),
> {
    let n = g.len() as int;
    match attr_loop(g, skip_ws(g, k), Seq::empty()) {
        None => None,
        Some((t, attrs)) => if is_glyph(g[t], '/') {
            if tt == TagType::Opening && t + 1 < n && is_glyph(g[t + 1], '>') {
                Some((TagType::SelfClosing, t + 2, attrs))
            } else {
                None
            }
        } else {
            Some((tt, t + 1, attrs))
        },
    }
}

/// The value of the last attribute called `name`.
pub open spec fn attr_get(attrs: Attrs, name: Seq<char>) -> Option<Seq<char>>
    decreases attrs.len(),
{
    if attrs.len() == 0 {
        None
    } else if attrs.last().0 == name {
        Some(attrs.last().1)
    } else {
        attr_get(attrs.drop_last(), name)
    }
}

pub open spec fn plain_tag(r: Option<(TagType, int)>, kind: KindView) -> Option<TagView> {
    match r {
        Some((tt, end)) => Some(TagView { kind, tag_type: tt, end }),
        None => None,
    }
}

/// The tag that starts with the `<` at index `i`, if the clusters there form one.
pub open spec fn tag_at(g: Seq<Seq<char>>, i: int) -> Option<TagView> {
    let n = g.len() as int;
    if i + 1 >= n {
        None
    } else {
        let closing = is_glyph(g[i + 1], '/');
        let tt = if closing {
            TagType::Closing
        } else {
            TagType::Opening
        };
        let f = if closing {
            i + 2
        } else {
            i + 1
        };
        let j = f + 1;
        if f >= n {
            None
        } else if is_glyph(g[f], 'b') {
            plain_tag(close_plain(g, j, tt), KindView::Bold)
        } else if is_glyph(g[f], 'u') {
            plain_tag(close_plain(g, j, tt), KindView::Underline)
        } else if is_glyph(g[f], 'i') {
            if j + 1 < n && is_glyph(g[j], 'm') && is_glyph(g[j + 1], 'g') {
                match close_attributed(g, j + 2, tt) {
                    Some((tt2, end, attrs)) => Some(
                        TagView {
                            kind: KindView::Image {
                                src: attr_get(attrs, seq!['s', 'r', 'c']),
                                alt: attr_get(attrs, seq!['a', 'l', 't']),
                            },
                            tag_type: tt2,
                            end,
                        },
                    ),
                    None => None,
                }
            } else {
                plain_tag(close_plain(g, j, tt), KindView::Italic)
            }
        } else if is_glyph(g[f], 'a') {
            match close_attributed(g, j, tt) {
                Some((tt2, end, attrs)) => Some(
                    TagView {
                        kind: KindView::Link { href: attr_get(attrs, seq!['h', 'r', 'e', 'f']) },
                        tag_type: tt2,
                        end,
                    },
                ),
                None => None,
            }
        } else {
            None
        }
    }
}

/// The character reference (`&name;`, `&#123;`, `&#x1F;`) that starts with the `&` at
/// index `i`, if any: the index right after its `;`.
pub open spec fn entity_at(g: Seq<Seq<char>>, i: int) -> Option<int> {
    let n = g.len() as int;
    if i + 1 >= n {
        None
    } else {
        let k: Option<int> = if is_class_glyph(g[i + 1], CharClass::Alphanumeric) {
            let k = find_glyph(g, i + 2, ';');
            if all_in_class(concat(g, i + 1, k), CharClass::Alphanumeric) {
                Some(k)
            } else {
                None
            }
        } else if is_glyph(g[i + 1], '#') {
            if i + 2 >= n {
                None
            } else if is_class_glyph(g[i + 2], CharClass::Digit) {
                let k = find_glyph(g, i + 3, ';');
                if all_in_class(concat(g, i + 2, k), CharClass::Digit) {
                    Some(k)
                } else {
                    None
                }
            } else if is_glyph(g[i + 2], 'x') {
                let k = find_glyph(g, i + 3, ';');
                if all_in_class(concat(g, i + 3, k), CharClass::HexDigit) {
                    Some(k)
                } else {
                    None
                }
            } else {
                None
            }
        } else {
            None
        };
        match k {
            Some(k) => if k >= n {
                None
            } else {
                Some(k + 1)
            },
            None => None,
        }
    }
}

/// A tag that is open, with the position in the text where its span begins.
pub struct OpenTag {
    pub kind: KindView,
    pub begin: int,
    pub begin_byte: int,
}

/// The parser's state after a prefix of the input.
pub struct ParseState {
    /// Clusters emitted so far.
    pub pos: int,
    /// Bytes emitted so far.
    pub byte_pos: int,
    pub body: Seq<char>,
    pub entities: Seq<EntityView>,
    pub stack: Seq<OpenTag>,
}

pub open spec fn initial_state() -> ParseState {
    ParseState {
        pos: 0,
        byte_pos: 0,
        body: Seq::empty(),
        entities: Seq::empty(),
        stack: Seq::empty(),
    }
}

/// Every cluster of `b` from index `k` on is whitespace.
pub open spec fn blank_from(b: Seq<Seq<char>>, k: int) -> bool {
    forall|j: int| k <= j < b.len() ==> all_whitespace(#[trigger] b[j])
}

/// The entities after the tag `open` closes: its span is recorded when it covers at least
/// one cluster and, in the text emitted so far, something that is not whitespace.
pub open spec fn close_span(st: ParseState, open: OpenTag) -> Seq<EntityView> {
    let length = st.pos - open.begin;
    if length > 0 && !blank_from(spec_graphemes(st.body), open.begin) {
        st.entities.push(
            EntityView {
                offset: open.begin,
                offset_in_byte: open.begin_byte,
                length,
                length_in_byte: st.byte_pos - open.begin_byte,
                kind: open.kind,
            },
        )
    } else {
        st.entities
    }
}

/// The state after a tag has been read.
pub open spec fn apply_tag(st: ParseState, tag: TagView) -> ParseState {
    match tag.tag_type {
        TagType::Opening => ParseState {
            stack: st.stack.push(OpenTag { kind: tag.kind, begin: st.pos, begin_byte: st.byte_pos }),
            ..st
        },
        TagType::Closing => if st.stack.len() > 0 && kind_id(st.stack.last().kind) == kind_id(
            tag.kind,
        ) {
            ParseState { entities: close_span(st, st.stack.last()), stack: st.stack.drop_last(), ..st }
        } else {
            st
        },
        TagType::SelfClosing => ParseState {
            entities: st.entities.push(
                EntityView {
                    offset: st.pos,
                    offset_in_byte: st.byte_pos,
                    length: 0,
                    length_in_byte: 0,
                    kind: tag.kind,
                },
            ),
            ..st
        },
    }
}

/// The state after the text `t`, made of `count` clusters, has been emitted.
pub open spec fn emit(st: ParseState, t: Seq<char>, count: int) -> ParseState {
    ParseState {
        pos: st.pos + count,
        byte_pos: st.byte_pos + spec_utf8_len(t),
        body: st.body + t,
        ..st
    }
}

pub proof fn lemma_attr_loop_bounds(g: Seq<Seq<char>>, k: int, attrs: Attrs)
    requires
        attr_loop(g, k, attrs) is Some,
    ensures
        k <= attr_loop(g, k, attrs).unwrap().0 < g.len(),
        is_glyph(g[attr_loop(g, k, attrs).unwrap().0], '>') || is_glyph(
            g[attr_loop(g, k, attrs).unwrap().0],
            '/',
        ),
    decreases g.len() - k,
{
    let n = g.len() as int;
    if !(is_glyph(g[k], '>') || is_glyph(g[k], '/')) {
        let e = find_glyph(g, k + 1, '=');
        let q1 = find_glyph(g, e + 1, '"');
        let q2 = find_glyph(g, q1 + 1, '"');
        let c = if q2 < n {
            q2 + 1
        } else {
            n
        };
        lemma_find_glyph_bounds(g, k + 1, '=');
        lemma_find_glyph_bounds(g, e + 1, '"');
        lemma_find_glyph_bounds(g, q1 + 1, '"');
        lemma_skip_ws_bounds(g, c);
        let name = trim(concat(g, k, e));
        lemma_attr_loop_bounds(g, skip_ws(g, c), attrs.push((name, concat(g, q1 + 1, q2))));
    }
}

pub proof fn lemma_close_plain_bounds(g: Seq<Seq<char>>, k: int, tt: TagType)
    requires
        0 <= k <= g.len(),
        close_plain(g, k, tt) is Some,
    ensures
        k < close_plain(g, k, tt).unwrap().1 <= g.len(),
{
    lemma_skip_ws_bounds(g, k);
}

pub proof fn lemma_close_attributed_bounds(g: Seq<Seq<char>>, k: int, tt: TagType)
    requires
        0 <= k <= g.len(),
        close_attributed(g, k, tt) is Some,
    ensures
        k < close_attributed(g, k, tt).unwrap().1 <= g.len(),
{
    lemma_skip_ws_bounds(g, k);
    lemma_attr_loop_bounds(g, skip_ws(g, k), Seq::empty());
}

pub proof fn lemma_tag_end(g: Seq<Seq<char>>, i: int)
    requires
        0 <= i < g.len(),
        tag_at(g, i) is Some,
    ensures
        i < tag_at(g, i)->0.end <= g.len(),
{
    let n = g.len() as int;
    let closing = is_glyph(g[i + 1], '/');
    let tt = if closing {
        TagType::Closing
    } else {
        TagType::Opening
    };
    let f = if closing {
        i + 2
    } else {
        i + 1
    };
    let j = f + 1;
    if is_glyph(g[f], 'b') || is_glyph(g[f], 'u') {
        lemma_close_plain_bounds(g, j, tt);
    } else if is_glyph(g[f], 'i') {
        if j + 1 < n && is_glyph(g[j], 'm') && is_glyph(g[j + 1], 'g') {
            lemma_close_attributed_bounds(g, j + 2, tt);
        } else {
            lemma_close_plain_bounds(g, j, tt);
        }
    } else {
        lemma_close_attributed_bounds(g, j, tt);
    }
}

pub proof fn lemma_entity_end(g: Seq<Seq<char>>, i: int)
    requires
        0 <= i < g.len(),
        entity_at(g, i) is Some,
    ensures
        i < entity_at(g, i)->0 <= g.len(),
{
    if i + 2 <= g.len() {
        lemma_find_glyph_bounds(g, i + 2, ';');
    }
    if i + 3 <= g.len() {
        lemma_find_glyph_bounds(g, i + 3, ';');
    }
}

/// The state after the clusters from index `i` on have been read.
pub open spec fn run(g: Seq<Seq<char>>, i: int, st: ParseState) -> ParseState
    decreases g.len() - i,
{
    if i < 0 || i >= g.len() {
        st
    } else if is_glyph(g[i], '<') && tag_at(g, i) is Some {
        proof {
            lemma_tag_end(g, i);
        }
        run(g, tag_at(g, i)->0.end, apply_tag(st, tag_at(g, i)->0))
    } else if is_glyph(g[i], '&') && entity_at(g, i) is Some {
        proof {
            lemma_entity_end(g, i);
        }
        let e = entity_at(g, i)->0;
        let d = spec_decode_html_entities(concat(g, i, e));
        run(g, e, emit(st, d, spec_graphemes(d).len() as int))
    } else {
        run(g, i + 1, emit(st, g[i], 1))
    }
}

/// Closes the tags still open at the end of the input, innermost first.
pub open spec fn close_all(st: ParseState) -> ParseState
    decreases st.stack.len(),
{
    if st.stack.len() == 0 {
        st
    } else {
        close_all(
            ParseState { entities: close_span(st, st.stack.last()), stack: st.stack.drop_last(), ..st },
        )
    }
}

/// `a` sorts strictly before `b`: by offset, then by length.
pub open spec fn entity_lt(a: EntityView, b: EntityView) -> bool {
    a.offset < b.offset || (a.offset == b.offset && a.length < b.length)
}

/// Index at which `e` goes into the sorted sequence `s`: before the first entity that does
/// not sort strictly before it.
pub open spec fn insert_index(s: Seq<EntityView>, e: EntityView) -> int
    decreases s.len(),
{
    if s.len() > 0 && entity_lt(s[0], e) {
        1 + insert_index(s.drop_first(), e)
    } else {
        0
    }
}

/// Stable sort of entities by offset, then by length: every entity is put in front of the
/// entities after it that have the same offset and length.
pub open spec fn sort_entities(s: Seq<EntityView>) -> Seq<EntityView>
    decreases s.len(),
{
    if s.len() == 0 {
        s
    } else {
        let sorted = sort_entities(s.drop_first());
        sorted.insert(insert_index(sorted, s[0]), s[0])
    }
}

/// What parsing the clusters `g` gives.
pub open spec fn parse_spec(g: Seq<Seq<char>>) -> TextView {
    let st = close_all(run(g, 0, initial_state()));
    TextView { body: trim(st.body), entities: sort_entities(st.entities) }
}

} // verus!

verus! {

// ---------------------------------------------------------------------------
// Facts about the model
// ---------------------------------------------------------------------------

pub proof fn lemma_concat_split(g: Seq<Seq<char>>, a: int, b: int, c: int)
    requires
        a <= b <= c,
    ensures
        concat(g, a, c) == concat(g, a, b) + concat(g, b, c),
    decreases c - b,
{
    if b < c {
        lemma_concat_split(g, a, b, c - 1);
        assert(concat(g, a, c) =~= concat(g, a, b) + concat(g, b, c));
    } else {
        assert(concat(g, a, c) =~= concat(g, a, b) + concat(g, b, c));
    }
}

pub proof fn lemma_count_le_len(g: Seq<Seq<char>>, k: int)
    requires
        nonempty_clusters(g),
        0 <= k <= g.len(),
    ensures
        k <= concat(g, 0, k).len(),
    decreases k,
{
    if k > 0 {
        lemma_count_le_len(g, k - 1);
        assert(g[k - 1].len() > 0);
    }
}

// ---------------------------------------------------------------------------
// Executable parser
// ---------------------------------------------------------------------------

/// Whether the cluster is the single character `c`.
fn glyph_is(s: &Vec<char>, c: char) -> (r: bool)
    ensures
        r == is_glyph(s@, c),
{
    s.len() == 1 && s[0] == c
}

fn glyph_in_class(s: &Vec<char>, class: CharClass) -> (r: bool)
    ensures
        r == is_class_glyph(s@, class),
{
    s.len() == 1 && char_in_class(s[0], class)
}

fn chars_eq(a: &[char], b: &[char]) -> (r: bool)
    ensures
        r == (a@ == b@),
{
    if a.len() != b.len() {
        return false;
    }
    let mut i: usize = 0;
    while i < a.len()
        invariant
            a@.len() == b@.len(),
            i <= a@.len(),
            forall|j: int| 0 <= j < i ==> a@[j] == b@[j],
        decreases a@.len() - i,
    {
        if a[i] != b[i] {
            return false;
        }
        i = i + 1;
    }
    assert(a@ =~= b@);
    true
}

/// The clusters `g[a..b]` joined.
fn concat_exec(g: &Vec<Vec<char>>, a: usize, b: usize) -> (r: Vec<char>)
    requires
        a <= b <= g@.len(),
    ensures
        r@ == concat(gview(g@), a as int, b as int),
{
    let ghost gv = gview(g@);
    let mut r: Vec<char> = Vec::new();
    let mut k: usize = a;
    assert(r@ =~= concat(gv, a as int, a as int));
    while k < b
        invariant
            a <= k <= b <= g@.len(),
            gv == gview(g@),
            r@ == concat(gv, a as int, k as int),
        decreases b - k,
    {
        let cl = &g[k];
        let ghost before = r@;
        let mut j: usize = 0;
        while j < cl.len()
            invariant
                j <= cl@.len(),
                r@ == before + cl@.subrange(0, j as int),
            decreases cl@.len() - j,
        {
            r.push(cl[j]);
            j = j + 1;
            assert(r@ =~= before + cl@.subrange(0, j as int));
        }
        assert(cl@.subrange(0, cl@.len() as int) =~= cl@);
        assert(gv[k as int] == g@[k as int]@);
        k = k + 1;
    }
    r
}

fn skip_ws_exec(g: &Vec<Vec<char>>, k: usize) -> (r: usize)
    requires
        k <= g@.len(),
    ensures
        r == skip_ws(gview(g@), k as int),
{
    let ghost gv = gview(g@);
    let mut i = k;
    while i < g.len() && is_all_whitespace(&g[i])
        invariant
            k <= i <= g@.len(),
            gv == gview(g@),
            skip_ws(gv, k as int) == skip_ws(gv, i as int),
        decreases g@.len() - i,
    {
        assert(gv[i as int] == g@[i as int]@);
        i = i + 1;
    }
    if i < g.len() {
        assert(gv[i as int] == g@[i as int]@);
    }
    i
}

fn find_glyph_exec(g: &Vec<Vec<char>>, k: usize, c: char) -> (r: usize)
    requires
        k <= g@.len(),
    ensures
        r == find_glyph(gview(g@), k as int, c),
{
    let ghost gv = gview(g@);
    let mut i = k;
    while i < g.len() && !glyph_is(&g[i], c)
        invariant
            k <= i <= g@.len(),
            gv == gview(g@),
            find_glyph(gv, k as int, c) == find_glyph(gv, i as int, c),
        decreases g@.len() - i,
    {
        assert(gv[i as int] == g@[i as int]@);
        i = i + 1;
    }
    if i < g.len() {
        assert(gv[i as int] == g@[i as int]@);
    }
    i
}

fn close_plain_exec(g: &Vec<Vec<char>>, k: usize, tt: TagType) -> (r: Option<(TagType, usize)>)
    requires
        k <= g@.len(),
    ensures
        match r {
            Some((t, e)) => close_plain(gview(g@), k as int, tt) == Some((t, e as int)),
            None => close_plain(gview(g@), k as int, tt) is None,
        },
{
    let ghost gv = gview(g@);
    let k = skip_ws_exec(g, k);
    let n = g.len();
    if k >= n {
        return None;
    }
    assert(gv[k as int] == g@[k as int]@);
    if glyph_is(&g[k], '/') {
        if tt == TagType::Opening && k + 1 < n && glyph_is(&g[k + 1], '>') {
            Some((TagType::SelfClosing, k + 2))
        } else {
            None
        }
    } else if glyph_is(&g[k], '>') {
        Some((tt, k + 1))
    } else {
        None
    }
}

pub open spec fn attrs_view(a: Seq<(Vec<char>, Vec<char>)>) -> Attrs {
    a.map_values(|p: (Vec<char>, Vec<char>)| (p.0@, p.1@))
}

fn attr_loop_exec(g: &Vec<Vec<char>>, k0: usize) -> (r: Option<(usize, Vec<(Vec<char>, Vec<char>)>)>)
    requires
        k0 <= g@.len(),
    ensures
        match r {
            Some((t, attrs)) => attr_loop(gview(g@), k0 as int, Seq::empty()) == Some(
                (t as int, attrs_view(attrs@)),
            ),
            None => attr_loop(gview(g@), k0 as int, Seq::empty()) is None,
        },
{
    let ghost gv = gview(g@);
    let n = g.len();
    let mut attrs: Vec<(Vec<char>, Vec<char>)> = Vec::new();
    let mut k = k0;
    assert(attrs_view(attrs@) =~= Seq::<(Seq<char>, Seq<char>)>::empty());
    loop
        invariant
            k <= n == g@.len(),
            gv == gview(g@),
            attr_loop(gv, k as int, attrs_view(attrs@)) == attr_loop(
                gv,
                k0 as int,
                Seq::empty(),
            ),
        decreases n - k,
    {
        if k >= n {
            return None;
        }
        assert(gv[k as int] == g@[k as int]@);
        if glyph_is(&g[k], '>') || glyph_is(&g[k], '/') {
            return Some((k, attrs));
        }
        proof {
            lemma_find_glyph_bounds(gv, k + 1, '=');
        }
        let e = find_glyph_exec(g, k + 1, '=');
        let raw = concat_exec(g, k, e);
        let name = trim_chars(&raw);
        if !chars_in_class(&name, CharClass::Alphabetic) || e >= n {
            return None;
        }
        proof {
            lemma_find_glyph_bounds(gv, e + 1, '"');
        }
        let q1 = find_glyph_exec(g, e + 1, '"');
        if q1 >= n {
            return None;
        }
        proof {
            lemma_find_glyph_bounds(gv, q1 + 1, '"');
        }
        let q2 = find_glyph_exec(g, q1 + 1, '"');
        let value = concat_exec(g, q1 + 1, q2);
        let c = if q2 < n {
            q2 + 1
        } else {
            n
        };
        proof {
            lemma_skip_ws_bounds(gv, c as int);
        }
        let k2 = skip_ws_exec(g, c);
        let ghost prev = attrs_view(attrs@);
        attrs.push((name, value));
        assert(attrs_view(attrs@) =~= prev.push((name@, value@)));
        k = k2;
    }
}


fn close_attributed_exec(g: &Vec<Vec<char>>, k: usize, tt: TagType) -> (r: Option<
    (TagType, usize, Vec<(Vec<char>, Vec<char>)>),
>)
    requires
        k <= g@.len(),
    ensures
        match r {
            Some((t, e, attrs)) => close_attributed(gview(g@), k as int, tt) == Some(
                (t, e as int, attrs_view(attrs@)),
            ),
            None => close_attributed(gview(g@), k as int, tt) is None,
        },
{
    let ghost gv = gview(g@);
    let n = g.len();
    proof {
        lemma_skip_ws_bounds(gv, k as int);
    }
    let k1 = skip_ws_exec(g, k);
    match attr_loop_exec(g, k1) {
        None => None,
        Some((t, attrs)) => {
            proof {
                lemma_attr_loop_bounds(gv, k1 as int, Seq::empty());
            }
            assert(gv[t as int] == g@[t as int]@);
            if glyph_is(&g[t], '/') {
                if tt == TagType::Opening && t + 1 < n && glyph_is(&g[t + 1], '>') {
                    Some((TagType::SelfClosing, t + 2, attrs))
                } else {
                    None
                }
            } else {
                Some((tt, t + 1, attrs))
            }
        },
    }
}

/// The value of the last attribute called `name`.
fn attr_get_exec(attrs: &Vec<(Vec<char>, Vec<char>)>, name: &[char]) -> (r: Option<String>)
    ensures
        opt_string_view(r) == attr_get(attrs_view(attrs@), name@),
{
    let ghost av = attrs_view(attrs@);
    let mut i = attrs.len();
    assert(av.subrange(0, i as int) =~= av);
    while i > 0
        invariant
            i <= attrs@.len(),
            av == attrs_view(attrs@),
            attr_get(av, name@) == attr_get(av.subrange(0, i as int), name@),
        decreases i,
    {
        let ghost sub = av.subrange(0, i as int);
        assert(sub.last() == av[i - 1]);
        assert(sub.drop_last() =~= av.subrange(0, i - 1));
        if chars_eq(&attrs[i - 1].0, name) {
            return Some(string_from_chars(&attrs[i - 1].1));
        }
        i = i - 1;
    }
    None
}

/// A tag read by [`tag_at_exec`].
pub struct ParsedTag {
    pub kind: EntityKind,
    pub tag_type: TagType,
    pub end: usize,
}

pub open spec fn parsed_tag_view(r: Option<ParsedTag>) -> Option<TagView> {
    match r {
        Some(t) => Some(TagView { kind: t.kind@, tag_type: t.tag_type, end: t.end as int }),
        None => None,
    }
}

fn plain_tag_exec(r: Option<(TagType, usize)>, kind: EntityKind) -> (t: Option<ParsedTag>)
    ensures
        parsed_tag_view(t) == plain_tag(
            match r {
                Some((tt, e)) => Some((tt, e as int)),
                None => None,
            },
            kind@,
        ),
{
    match r {
        Some((tt, e)) => Some(ParsedTag { kind, tag_type: tt, end: e }),
        None => None,
    }
}

/// Reads the tag that starts with the `<` at index `i`.
fn tag_at_exec(g: &Vec<Vec<char>>, i: usize) -> (r: Option<ParsedTag>)
    requires
        i < g@.len(),
    ensures
        parsed_tag_view(r) == tag_at(gview(g@), i as int),
{
    let ghost gv = gview(g@);
    let n = g.len();
    if i + 1 >= n {
        return None;
    }
    assert(gv[i + 1] == g@[i + 1]@);
    let closing = glyph_is(&g[i + 1], '/');
    let tt = if closing {
        TagType::Closing
    } else {
        TagType::Opening
    };
    let f = if closing {
        i + 2
    } else {
        i + 1
    };
    if f >= n {
        return None;
    }
    let j = f + 1;
    assert(gv[f as int] == g@[f as int]@);
    if glyph_is(&g[f], 'b') {
        plain_tag_exec(close_plain_exec(g, j, tt), EntityKind::Bold)
    } else if glyph_is(&g[f], 'u') {
        plain_tag_exec(close_plain_exec(g, j, tt), EntityKind::Underline)
    } else if glyph_is(&g[f], 'i') {
        let image = if j < n && j + 1 < n {
            assert(gv[j as int] == g@[j as int]@);
            assert(gv[j + 1] == g@[j + 1]@);
            glyph_is(&g[j], 'm') && glyph_is(&g[j + 1], 'g')
        } else {
            false
        };
        if image {
            match close_attributed_exec(g, j + 2, tt) {
                Some((tt2, end, attrs)) => {
                    let src_name = vec!['s', 'r', 'c'];
                    let alt_name = vec!['a', 'l', 't'];
                    assert(src_name@ =~= seq!['s', 'r', 'c']);
                    assert(alt_name@ =~= seq!['a', 'l', 't']);
                    let src = attr_get_exec(&attrs, &src_name);
                    let alt = attr_get_exec(&attrs, &alt_name);
                    Some(ParsedTag { kind: EntityKind::Image { src, alt }, tag_type: tt2, end })
                },
                None => None,
            }
        } else {
            plain_tag_exec(close_plain_exec(g, j, tt), EntityKind::Italic)
        }
    } else if glyph_is(&g[f], 'a') {
        match close_attributed_exec(g, j, tt) {
            Some((tt2, end, attrs)) => {
                let href_name = vec!['h', 'r', 'e', 'f'];
                assert(href_name@ =~= seq!['h', 'r', 'e', 'f']);
                let href = attr_get_exec(&attrs, &href_name);
                Some(ParsedTag { kind: EntityKind::Link { href }, tag_type: tt2, end })
            },
            None => None,
        }
    } else {
        None
    }
}

/// Reads the character reference that starts with the `&` at index `i`: the index after it.
fn entity_at_exec(g: &Vec<Vec<char>>, i: usize) -> (r: Option<usize>)
    requires
        i < g@.len(),
    ensures
        match r {
            Some(e) => entity_at(gview(g@), i as int) == Some(e as int),
            None => entity_at(gview(g@), i as int) is None,
        },
{
    let ghost gv = gview(g@);
    let n = g.len();
    if i + 1 >= n {
        return None;
    }
    assert(gv[i + 1] == g@[i + 1]@);
    let k: Option<usize> = if glyph_in_class(&g[i + 1], CharClass::Alphanumeric) {
        let k = find_glyph_exec(g, i + 2, ';');
        proof {
            lemma_find_glyph_bounds(gv, i + 2, ';');
        }
        let run = concat_exec(g, i + 1, k);
        if chars_in_class(&run, CharClass::Alphanumeric) {
            Some(k)
        } else {
            None
        }
    } else if glyph_is(&g[i + 1], '#') {
        if i + 2 >= n {
            None
        } else {
            assert(gv[i + 2] == g@[i + 2]@);
            if glyph_in_class(&g[i + 2], CharClass::Digit) {
                let k = find_glyph_exec(g, i + 3, ';');
                proof {
                    lemma_find_glyph_bounds(gv, i + 3, ';');
                }
                let run = concat_exec(g, i + 2, k);
                if chars_in_class(&run, CharClass::Digit) {
                    Some(k)
                } else {
                    None
                }
            } else if glyph_is(&g[i + 2], 'x') {
                let k = find_glyph_exec(g, i + 3, ';');
                proof {
                    lemma_find_glyph_bounds(gv, i + 3, ';');
                }
                let run = concat_exec(g, i + 3, k);
                if chars_in_class(&run, CharClass::HexDigit) {
                    Some(k)
                } else {
                    None
                }
            } else {
                None
            }
        }
    } else {
        None
    };
    match k {
        Some(k) => if k >= n {
            None
        } else {
            Some(k + 1)
        },
        None => None,
    }
}

/// A tag that is open while the parser reads on.
struct OpenSpan {
    kind: EntityKind,
    begin: usize,
    begin_byte: usize,
}

spec fn open_view(o: OpenSpan) -> OpenTag {
    OpenTag { kind: o.kind@, begin: o.begin as int, begin_byte: o.begin_byte as int }
}

struct Parser {
    pos: usize,
    byte_pos: usize,
    body: Vec<char>,
    entities: Vec<Entity>,
    stack: Vec<OpenSpan>,
}

impl Parser {
    spec fn view(&self) -> ParseState {
        ParseState {
            pos: self.pos as int,
            byte_pos: self.byte_pos as int,
            body: self.body@,
            entities: self.entities@.map_values(|e: Entity| e@),
            stack: self.stack@.map_values(|o: OpenSpan| open_view(o)),
        }
    }

    /// The counters fit: positions never pass the text emitted so far, whose UTF-8 form
    /// stays below `usize::MAX`.
    spec fn bounded(&self) -> bool {
        &&& 4 * self.body@.len() <= usize::MAX
        &&& self.pos <= self.body@.len()
        &&& self.byte_pos <= 4 * self.body@.len()
        &&& forall|k: int|
            0 <= k < self.stack@.len() ==> (#[trigger] self.stack@[k]).begin <= self.pos
                && self.stack@[k].begin_byte <= self.byte_pos
    }

    fn new() -> (p: Parser)
        ensures
            p.view() == initial_state(),
            p.bounded(),
            p.body@.len() == 0,
    {
        let p = Parser {
            pos: 0,
            byte_pos: 0,
            body: Vec::new(),
            entities: Vec::new(),
            stack: Vec::new(),
        };
        assert(p.view().entities =~= Seq::<EntityView>::empty());
        assert(p.view().stack =~= Seq::<OpenTag>::empty());
        p
    }

    /// Appends `text`, which is `count` clusters long, to the body.
    fn emit(&mut self, text: &Vec<char>, count: usize)
        requires
            old(self).bounded(),
            count <= text@.len(),
            4 * (old(self).body@.len() + text@.len()) <= usize::MAX,
        ensures
            final(self).view() == emit(old(self).view(), text@, count as int),
            final(self).bounded(),
            final(self).body@.len() == old(self).body@.len() + text@.len(),
    {
        proof {
            lemma_utf8_len_bound(text@);
        }
        let bytes = utf8_len(text);
        let new_pos = self.pos + count;
        let new_byte_pos = self.byte_pos + bytes;
        let ghost before = self.body@;
        let mut j: usize = 0;
        while j < text.len()
            invariant
                j <= text@.len(),
                self.body@ == before + text@.subrange(0, j as int),
                self.pos == old(self).pos,
                self.byte_pos == old(self).byte_pos,
                self.stack@ == old(self).stack@,
                self.entities@ == old(self).entities@,
            decreases text@.len() - j,
        {
            self.body.push(text[j]);
            j = j + 1;
            assert(self.body@ =~= before + text@.subrange(0, j as int));
        }
        assert(text@.subrange(0, text@.len() as int) =~= text@);
        self.pos = new_pos;
        self.byte_pos = new_byte_pos;
    }

    /// Records the span of the tag `open`, which closes now.
    fn close_span(&mut self, open: OpenSpan)
        requires
            old(self).bounded(),
            open.begin <= old(self).pos,
            open.begin_byte <= old(self).byte_pos,
        ensures
            final(self).view() == (ParseState {
                entities: close_span(old(self).view(), open_view(open)),
                ..old(self).view()
            }),
            final(self).stack@ == old(self).stack@,
            final(self).body@ == old(self).body@,
            final(self).pos == old(self).pos,
            final(self).byte_pos == old(self).byte_pos,
    {
        let length = self.pos - open.begin;
        if length == 0 {
            return;
        }
        let clusters = graphemes(&self.body);
        let ghost b = spec_graphemes(self.body@);
        let mut j = open.begin;
        let mut blank = true;
        while j < clusters.len()
            invariant
                gview(clusters@) == b,
                open.begin <= j,
                j <= clusters@.len() || j == open.begin,
                blank == (forall|k: int| open.begin <= k < j ==> all_whitespace(#[trigger] b[k])),
            decreases clusters@.len() - j,
        {
            assert(b[j as int] == clusters@[j as int]@);
            if !is_all_whitespace(&clusters[j]) {
                blank = false;
            }
            j = j + 1;
        }
        assert(blank == blank_from(b, open.begin as int));
        if !blank {
            let ghost old_entities = self.view().entities;
            let entity = Entity {
                offset: open.begin,
                offset_in_byte: open.begin_byte,
                length,
                length_in_byte: self.byte_pos - open.begin_byte,
                kind: open.kind,
            };
            self.entities.push(entity);
            assert(self.view().entities =~= old_entities.push(entity@));
        }
    }

    /// Applies a tag that has just been read.
    fn apply_tag(&mut self, tag: ParsedTag)
        requires
            old(self).bounded(),
        ensures
            final(self).view() == apply_tag(
                old(self).view(),
                TagView { kind: tag.kind@, tag_type: tag.tag_type, end: tag.end as int },
            ),
            final(self).bounded(),
            final(self).body@ == old(self).body@,
    {
        let ghost st = self.view();
        match tag.tag_type {
            TagType::Opening => {
                let open = OpenSpan { kind: tag.kind, begin: self.pos, begin_byte: self.byte_pos };
                self.stack.push(open);
                assert(self.view().stack =~= st.stack.push(open_view(open)));
            },
            TagType::Closing => {
                let n = self.stack.len();
                if n > 0 && self.stack[n - 1].kind.to_id() == tag.kind.to_id() {
                    assert(st.stack.last() == open_view(self.stack@[n - 1]));
                    let top = self.stack.pop().unwrap();
                    assert(self.view().stack =~= st.stack.drop_last());
                    self.close_span(top);
                }
            },
            TagType::SelfClosing => {
                let entity = Entity {
                    offset: self.pos,
                    offset_in_byte: self.byte_pos,
                    length: 0,
                    length_in_byte: 0,
                    kind: tag.kind,
                };
                self.entities.push(entity);
                assert(self.view().entities =~= st.entities.push(entity@));
            },
        }
    }

    /// Closes the tags still open, innermost first.
    fn close_all(&mut self)
        requires
            old(self).bounded(),
        ensures
            final(self).view() == close_all(old(self).view()),
    {
        while self.stack.len() > 0
            invariant
                self.bounded(),
                close_all(self.view()) == close_all(old(self).view()),
            decreases self.stack@.len(),
        {
            let ghost st = self.view();
            let n = self.stack.len();
            assert(st.stack.last() == open_view(self.stack@[n - 1]));
            let top = self.stack.pop().unwrap();
            assert(self.view().stack =~= st.stack.drop_last());
            self.close_span(top);
        }
    }
}

fn entity_lt_exec(a: &Entity, b: &Entity) -> (r: bool)
    ensures
        r == entity_lt(a@, b@),
{
    a.offset < b.offset || (a.offset == b.offset && a.length < b.length)
}

/// Stable sort by offset, then by length.
fn sort_entities_exec(entities: Vec<Entity>) -> (r: Vec<Entity>)
    ensures
        r@.map_values(|e: Entity| e@) == sort_entities(entities@.map_values(|e: Entity| e@)),
{
    let ghost s = entities@.map_values(|e: Entity| e@);
    let mut rest = entities;
    let mut sorted: Vec<Entity> = Vec::new();
    assert(s.subrange(s.len() as int, s.len() as int) =~= Seq::<EntityView>::empty());
    assert(sorted@.map_values(|e: Entity| e@) =~= Seq::<EntityView>::empty());
    while rest.len() > 0
        invariant
            rest@.len() <= s.len(),
            rest@.map_values(|e: Entity| e@) == s.subrange(0, rest@.len() as int),
            sorted@.map_values(|e: Entity| e@) == sort_entities(
                s.subrange(rest@.len() as int, s.len() as int),
            ),
        decreases rest@.len(),
    {
        let m = rest.len();
        let ghost suffix = s.subrange(m - 1, s.len() as int);
        assert(suffix.drop_first() =~= s.subrange(m as int, s.len() as int));
        assert(suffix[0] == s[m - 1]);
        assert(rest@.map_values(|e: Entity| e@)[m - 1] == rest@[m - 1]@);
        let e = rest.pop().unwrap();
        assert(rest@.map_values(|e: Entity| e@) =~= s.subrange(0, rest@.len() as int));
        let ghost sv = sorted@.map_values(|e: Entity| e@);
        let mut j: usize = 0;
        assert(sv.subrange(0, sv.len() as int) =~= sv);
        while j < sorted.len() && entity_lt_exec(&sorted[j], &e)
            invariant
                j <= sorted@.len(),
                sv == sorted@.map_values(|e: Entity| e@),
                insert_index(sv, e@) == j + insert_index(sv.subrange(j as int, sv.len() as int), e@),
            decreases sorted@.len() - j,
        {
            let ghost sub = sv.subrange(j as int, sv.len() as int);
            assert(sub.drop_first() =~= sv.subrange(j + 1, sv.len() as int));
            assert(sub[0] == sorted@[j as int]@);
            j = j + 1;
        }
        proof {
            let sub = sv.subrange(j as int, sv.len() as int);
            if j < sorted@.len() {
                assert(sub[0] == sorted@[j as int]@);
            }
            assert(insert_index(sub, e@) == 0);
        }
        let ghost ev = e@;
        sorted.insert(j, e);
        assert(sorted@.map_values(|e: Entity| e@) =~= sv.insert(j as int, ev));
    }
    assert(s.subrange(0, s.len() as int) =~= s);
    sorted
}

impl Text {
    /// Parses markup that has already been split into grapheme clusters.
    pub fn parse_graphemes(g: Vec<Vec<char>>) -> (t: Text)
        requires
            nonempty_clusters(gview(g@)),
            4 * joined(gview(g@)).len() <= usize::MAX,
        ensures
            t@ == parse_spec(gview(g@)),
    {
        let ghost gv = gview(g@);
        let n = g.len();
        let mut p = Parser::new();
        let mut i: usize = 0;
        while i < n
            invariant
                i <= n == g@.len(),
                gv == gview(g@),
                nonempty_clusters(gv),
                4 * joined(gv).len() <= usize::MAX,
                p.bounded(),
                p.body@.len() <= concat(gv, 0, i as int).len(),
                run(gv, 0, initial_state()) == run(gv, i as int, p.view()),
            decreases n - i,
        {
            proof {
                lemma_concat_split(gv, 0, i as int, n as int);
            }
            assert(gv[i as int] == g@[i as int]@);
            if glyph_is(&g[i], '<') {
                if let Some(tag) = tag_at_exec(&g, i) {
                    proof {
                        lemma_tag_end(gv, i as int);
                        lemma_concat_split(gv, 0, i as int, tag.end as int);
                    }
                    let end = tag.end;
                    p.apply_tag(tag);
                    i = end;
                    continue;
                }
            }
            if glyph_is(&g[i], '&') {
                if let Some(e) = entity_at_exec(&g, i) {
                    proof {
                        lemma_entity_end(gv, i as int);
                        lemma_concat_split(gv, 0, i as int, e as int);
                        lemma_concat_split(gv, 0, e as int, n as int);
                    }
                    let source = concat_exec(&g, i, e);
                    let decoded = decode_html_entities(&source);
                    let clusters = graphemes(&decoded);
                    proof {
                        lemma_count_le_len(gview(clusters@), clusters@.len() as int);
                    }
                    p.emit(&decoded, clusters.len());
                    i = e;
                    continue;
                }
            }
            proof {
                lemma_concat_split(gv, 0, i + 1, n as int);
                assert(concat(gv, 0, i + 1) == concat(gv, 0, i as int) + gv[i as int]);
            }
            p.emit(&g[i], 1);
            i = i + 1;
        }
        p.close_all();
        let body = trim_chars(&p.body);
        let entities = sort_entities_exec(p.entities);
        let t = Text { body: string_from_chars(&body), entities };
        assert(t@.entities == sort_entities(close_all(run(gv, 0, initial_state())).entities));
        t
    }

    /// Parses notification markup: strips the supported tags, decodes character references,
    /// trims the text and records the formatted spans.
    pub fn parse(input: String) -> (t: Text)
        requires
            4 * input@.len() <= usize::MAX,
        ensures
            t@ == parse_spec(spec_graphemes(input@)),
    {
        let chars = chars_of(input.as_str());
        let g = graphemes(&chars);
        Self::parse_graphemes(g)
    }
}
} // verus!

verus! {

// ---------------------------------------------------------------------------
// Laws of parsing
// ---------------------------------------------------------------------------

/// Entities in order: none sorts strictly before one that comes earlier.
pub open spec fn entities_sorted(s: Seq<EntityView>) -> bool {
    forall|i: int, j: int| 0 <= i < j < s.len() ==> !entity_lt(s[j], s[i])
}

proof fn lemma_insert_index(s: Seq<EntityView>, e: EntityView)
    ensures
        0 <= insert_index(s, e) <= s.len(),
        forall|i: int| 0 <= i < insert_index(s, e) ==> entity_lt(#[trigger] s[i], e),
        insert_index(s, e) < s.len() ==> !entity_lt(s[insert_index(s, e)], e),
    decreases s.len(),
{
    if s.len() > 0 && entity_lt(s[0], e) {
        lemma_insert_index(s.drop_first(), e);
        assert forall|i: int| 1 <= i < insert_index(s, e) implies entity_lt(#[trigger] s[i], e) by {
            assert(s.drop_first()[i - 1] == s[i]);
        }
    }
}

/// The entities of a parse are sorted by offset, then by length, and none is lost.
pub proof fn law_entities_sorted(s: Seq<EntityView>)
    ensures
        entities_sorted(sort_entities(s)),
        sort_entities(s).len() == s.len(),
    decreases s.len(),
{
    if s.len() > 0 {
        let rest = sort_entities(s.drop_first());
        law_entities_sorted(s.drop_first());
        let e = s[0];
        let k = insert_index(rest, e);
        lemma_insert_index(rest, e);
        let r = rest.insert(k, e);
        assert forall|i: int, j: int| 0 <= i < j < r.len() implies !entity_lt(r[j], r[i]) by {
            if j < k {
                assert(r[i] == rest[i] && r[j] == rest[j]);
            } else if j == k {
                assert(r[i] == rest[i]);
            } else if i < k {
                assert(r[i] == rest[i] && r[j] == rest[j - 1]);
                assert(entity_lt(rest[i], e));
                assert(!entity_lt(rest[k], e));
                if j - 1 > k {
                    assert(!entity_lt(rest[j - 1], rest[k]));
                }
            } else if i == k {
                assert(r[j] == rest[j - 1]);
                assert(!entity_lt(rest[k], e));
                if j - 1 > k {
                    assert(!entity_lt(rest[j - 1], rest[k]));
                }
            } else {
                assert(r[i] == rest[i - 1] && r[j] == rest[j - 1]);
            }
        }
    }
}

/// Whatever the input, the entities that parsing gives are sorted.
pub proof fn law_parse_sorted(g: Seq<Seq<char>>)
    ensures
        entities_sorted(parse_spec(g).entities),
{
    law_entities_sorted(close_all(run(g, 0, initial_state())).entities);
}

proof fn lemma_concat_first(g: Seq<Seq<char>>, i: int, n: int)
    requires
        0 <= i < n <= g.len(),
    ensures
        concat(g, i, n) == g[i] + concat(g, i + 1, n),
{
    lemma_concat_split(g, i, i + 1, n);
    assert(concat(g, i, i) =~= Seq::<char>::empty());
    assert(concat(g, i, i + 1) =~= g[i]);
}

proof fn lemma_run_plain(g: Seq<Seq<char>>, i: int, st: ParseState)
    requires
        0 <= i <= g.len(),
        forall|j: int| i <= j < g.len() ==> !is_glyph(#[trigger] g[j], '<') && !is_glyph(g[j], '&'),
    ensures
        run(g, i, st).body == st.body + concat(g, i, g.len() as int),
        run(g, i, st).entities == st.entities,
        run(g, i, st).stack == st.stack,
    decreases g.len() - i,
{
    if i < g.len() {
        assert(!is_glyph(g[i], '<') && !is_glyph(g[i], '&'));
        lemma_run_plain(g, i + 1, emit(st, g[i], 1));
        lemma_concat_first(g, i, g.len() as int);
        assert(st.body + g[i] + concat(g, i + 1, g.len() as int) =~= st.body + concat(
            g,
            i,
            g.len() as int,
        ));
    } else {
        assert(st.body + concat(g, i, g.len() as int) =~= st.body);
    }
}

/// Each character of a cluster is a character of the joined clusters.
proof fn lemma_cluster_in_joined(g: Seq<Seq<char>>, i: int, k: int)
    requires
        0 <= i < g.len(),
        0 <= k < g[i].len(),
    ensures
        joined(g).contains(g[i][k]),
{
    lemma_concat_split(g, 0, i, g.len() as int);
    lemma_concat_first(g, i, g.len() as int);
    let pre = concat(g, 0, i);
    assert(joined(g) == pre + (g[i] + concat(g, i + 1, g.len() as int)));
    assert(joined(g)[pre.len() + k] == g[i][k]);
}

/// Text with no `<` and no `&` has no markup: its body is the text trimmed, and it has no
/// entities.
pub proof fn law_plain_text(g: Seq<Seq<char>>)
    requires
        !joined(g).contains('<'),
        !joined(g).contains('&'),
    ensures
        parse_spec(g).body == trim(joined(g)),
        parse_spec(g).entities == Seq::<EntityView>::empty(),
{
    assert forall|j: int| 0 <= j < g.len() implies !is_glyph(#[trigger] g[j], '<') && !is_glyph(
        g[j],
        '&',
    ) by {
        if g[j].len() == 1 {
            lemma_cluster_in_joined(g, j, 0);
        }
    }
    lemma_run_plain(g, 0, initial_state());
    let st = run(g, 0, initial_state());
    assert(st.body =~= joined(g));
    assert(close_all(st) == st);
}

} // verus!
