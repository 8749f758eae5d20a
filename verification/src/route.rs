//! The path router: byte-level matching of a path against route patterns.
//!
//! A pattern is a list of segments, each written after a `/`:
//! a literal word, which a path segment must equal byte for byte;
//! a variable `{name}`, which stands for any one non-empty path segment and
//! binds it under `name`; or the wildcard `*`, which takes whatever is left
//! of the path, leading slash included, as the raw remainder.
//! A router holds patterns in registration order; the first that matches wins.

use vstd::prelude::*;
use vstd::slice::{slice_subrange, slice_to_vec};
use crate::text::{bytes_eq, parse_decimal, parse_u32};

verus! {

/// ASCII code of `/`, which separates the segments of a path.
pub const SLASH: u8 = 47;

/// ASCII code of `*`, the wildcard segment.
pub const STAR: u8 = 42;

/// ASCII code of `{`, which opens a variable segment.
pub const OPEN_BRACE: u8 = 123;

/// ASCII code of `}`, which closes a variable segment.
pub const CLOSE_BRACE: u8 = 125;

/// One segment of a route pattern.
#[derive(Debug, PartialEq, Eq)]
pub enum Segment {
    /// A word that the path segment must equal.
    Literal(Vec<u8>),
    /// A variable: any one non-empty path segment, bound under this name.
    Param(Vec<u8>),
    /// Everything that is left of the path.
    Wildcard,
}

/// The mathematical value of a pattern segment.
pub enum SegmentView {
    Literal(Seq<u8>),
    Param(Seq<u8>),
    Wildcard,
}

impl View for Segment {
    type V = SegmentView;

    open spec fn view(&self) -> SegmentView {
        match self {
            Segment::Literal(word) => SegmentView::Literal(word@),
            Segment::Param(name) => SegmentView::Param(name@),
            Segment::Wildcard => SegmentView::Wildcard,
        }
    }
}

/// A route pattern: its segments, first to last.
#[derive(Debug, PartialEq, Eq)]
pub struct Pattern {
    pub segments: Vec<Segment>,
}

impl View for Pattern {
    type V = Seq<SegmentView>;

    open spec fn view(&self) -> Seq<SegmentView> {
        self.segments@.map_values(|s: Segment| s@)
    }
}

/// A path segment captured by a variable of the pattern.
#[derive(Debug, PartialEq, Eq)]
pub struct Binding {
    pub name: Vec<u8>,
    pub value: Vec<u8>,
}

/// The mathematical value of a binding.
pub struct BindingView {
    pub name: Seq<u8>,
    pub value: Seq<u8>,
}

impl View for Binding {
    type V = BindingView;

    open spec fn view(&self) -> BindingView {
        BindingView { name: self.name@, value: self.value@ }
    }
}

/// What a successful match extracted from the path.
#[derive(Debug, PartialEq, Eq)]
pub struct RouteMatch {
    /// The captured variables, in the order of the pattern.
    pub bindings: Vec<Binding>,
    /// What the wildcard took, where the pattern has one.
    pub remainder: Option<Vec<u8>>,
}

/// The mathematical value of a match.
pub struct MatchView {
    pub bindings: Seq<BindingView>,
    pub remainder: Option<Seq<u8>>,
}

impl View for RouteMatch {
    type V = MatchView;

    open spec fn view(&self) -> MatchView {
        MatchView {
            bindings: self.bindings@.map_values(|b: Binding| b@),
            remainder: match self.remainder {
                Some(rest) => Some(rest@),
                None => None,
            },
        }
    }
}

/// Length of the first segment of `bytes`: the number of bytes before the
/// first slash, or all of them where there is no slash.
pub open spec fn segment_len(bytes: Seq<u8>) -> nat
    decreases bytes.len(),
{
    if bytes.len() == 0 || bytes[0] == SLASH {
        0
    } else {
        1 + segment_len(bytes.drop_first())
    }
}

/// The first segment of `bytes`: everything before the first slash.
pub open spec fn first_segment(bytes: Seq<u8>) -> Seq<u8> {
    bytes.take(segment_len(bytes) as int)
}

/// The segment that a word of a pattern text denotes.
pub open spec fn classify(word: Seq<u8>) -> SegmentView {
    if word.len() == 1 && word[0] == STAR {
        SegmentView::Wildcard
    } else if word.len() > 2 && word[0] == OPEN_BRACE && word.last() == CLOSE_BRACE {
        SegmentView::Param(word.subrange(1, word.len() - 1))
    } else {
        SegmentView::Literal(word)
    }
}

/// The segments of a run of words separated by slashes.
pub open spec fn segments_of(body: Seq<u8>) -> Seq<SegmentView>
    decreases body.len(),
{
    let word = first_segment(body);
    if word.len() >= body.len() {
        seq![classify(word)]
    } else {
        seq![classify(word)] + segments_of(body.skip(word.len() + 1int))
    }
}

/// The pattern that a pattern text denotes. The empty text is the pattern
/// without segments, which only the empty path matches; the slash before
/// the first word may be left out.
pub open spec fn parse_pattern(pattern_text: Seq<u8>) -> Seq<SegmentView> {
    if pattern_text.len() == 0 {
        Seq::empty()
    } else if pattern_text[0] == SLASH {
        segments_of(pattern_text.drop_first())
    } else {
        segments_of(pattern_text)
    }
}

/// A match that captured nothing.
pub open spec fn empty_match() -> MatchView {
    MatchView { bindings: Seq::empty(), remainder: None }
}

/// A match with earlier bindings put in front of its own.
pub open spec fn with_bindings(earlier: Seq<BindingView>, later: Option<MatchView>) -> Option<
    MatchView,
> {
    match later {
        Some(m) => Some(MatchView { bindings: earlier + m.bindings, remainder: m.remainder }),
        None => None,
    }
}

/// The result of matching a path against the segments of a pattern.
///
/// Without segments only the empty path matches. A wildcard matches any
/// path and takes all of it. A literal or a variable needs a slash and then
/// a path segment: for a literal the very word, for a variable any
/// non-empty segment; what follows that segment is matched against the
/// remaining segments of the pattern.
pub open spec fn match_segments(segments: Seq<SegmentView>, path: Seq<u8>) -> Option<MatchView>
    decreases segments.len(),
{
    if segments.len() == 0 {
        if path.len() == 0 {
            Some(empty_match())
        } else {
            None
        }
    } else {
        match segments[0] {
            SegmentView::Wildcard => Some(
                MatchView { bindings: Seq::empty(), remainder: Some(path) },
            ),
            SegmentView::Literal(word) => {
                if path.len() > 0 && path[0] == SLASH && first_segment(path.drop_first()) == word {
                    match_segments(segments.drop_first(), path.skip(1int + word.len()))
                } else {
                    None
                }
            },
            SegmentView::Param(name) => {
                let value = first_segment(path.drop_first());
                if path.len() > 0 && path[0] == SLASH && value.len() > 0 {
                    with_bindings(
                        seq![BindingView { name, value }],
                        match_segments(segments.drop_first(), path.skip(1int + value.len())),
                    )
                } else {
                    None
                }
            },
        }
    }
}

/// The value bound to the first variable called `name`, if there is one.
pub open spec fn bound_value(bindings: Seq<BindingView>, name: Seq<u8>) -> Option<Seq<u8>>
    decreases bindings.len(),
{
    if bindings.len() == 0 {
        None
    } else if bindings[0].name == name {
        Some(bindings[0].value)
    } else {
        bound_value(bindings.drop_first(), name)
    }
}

/// The value bound to `name`, read as an unsigned decimal number.
pub open spec fn bound_number(bindings: Seq<BindingView>, name: Seq<u8>) -> Option<u32> {
    match bound_value(bindings, name) {
        Some(value) => parse_decimal(value),
        None => None,
    }
}

/// The first pattern of a table that matches the path, with what it
/// extracted: patterns are tried in order, and the first match wins.
pub open spec fn first_match(table: Seq<Seq<SegmentView>>, path: Seq<u8>) -> Option<
    (int, MatchView),
>
    decreases table.len(),
{
    if table.len() == 0 {
        None
    } else {
        match first_match(table.drop_last(), path) {
            Some(earlier) => Some(earlier),
            None => match match_segments(table.last(), path) {
                Some(m) => Some((table.len() - 1, m)),
                None => None,
            },
        }
    }
}

/// A run of `n` bytes without a slash that ends at a slash or at the end of
/// the string is the first segment.
pub proof fn lemma_segment_len(bytes: Seq<u8>, n: int)
    requires
        0 <= n <= bytes.len(),
        forall|k: int| 0 <= k < n ==> bytes[k] != SLASH,
        n == bytes.len() || bytes[n] == SLASH,
    ensures
        segment_len(bytes) == n,
    decreases n,
{
    if n > 0 {
        let rest = bytes.drop_first();
        assert forall|k: int| 0 <= k < n - 1 implies rest[k] != SLASH by {}
        lemma_segment_len(rest, n - 1);
    }
}

/// The first segment holds no slash and ends at a slash or at the end.
pub proof fn lemma_first_segment(bytes: Seq<u8>)
    ensures
        segment_len(bytes) <= bytes.len(),
        forall|k: int| 0 <= k < segment_len(bytes) ==> bytes[k] != SLASH,
        segment_len(bytes) == bytes.len() || bytes[segment_len(bytes) as int] == SLASH,
    decreases bytes.len(),
{
    if bytes.len() > 0 && bytes[0] != SLASH {
        let rest = bytes.drop_first();
        lemma_first_segment(rest);
        assert forall|k: int| 0 <= k < segment_len(bytes) implies bytes[k] != SLASH by {
            if k > 0 {
                assert(rest[k - 1] == bytes[k]);
            }
        }
    }
}

/// Where the segment that starts at `start` ends.
pub fn segment_end(bytes: &[u8], start: usize) -> (end: usize)
    requires
        start <= bytes.len(),
    ensures
        start <= end <= bytes.len(),
        end - start == segment_len(bytes@.skip(start as int)),
        bytes@.subrange(start as int, end as int) == first_segment(bytes@.skip(start as int)),
{
    let mut end: usize = start;
    while end < bytes.len() && bytes[end] != SLASH
        invariant
            start <= end <= bytes.len(),
            forall|k: int| start <= k < end ==> bytes@[k] != SLASH,
        decreases bytes.len() - end,
    {
        end = end + 1;
    }
    proof {
        let rest = bytes@.skip(start as int);
        assert forall|k: int| 0 <= k < end - start implies rest[k] != SLASH by {}
        lemma_segment_len(rest, end - start);
    }
    end
}

/// The segment that a word of a pattern text denotes.
pub fn classify_word(word: &[u8]) -> (segment: Segment)
    ensures
        segment@ == classify(word@),
{
    let n: usize = word.len();
    if n == 1 && word[0] == STAR {
        Segment::Wildcard
    } else if n > 2 && word[0] == OPEN_BRACE && word[n - 1] == CLOSE_BRACE {
        Segment::Param(slice_to_vec(slice_subrange(word, 1, n - 1)))
    } else {
        Segment::Literal(slice_to_vec(word))
    }
}

impl Pattern {
    /// Compiles a pattern text such as `/task/{id}` or `/files/*`.
    pub fn parse(pattern_text: &[u8]) -> (pattern: Pattern)
        ensures
            pattern@ == parse_pattern(pattern_text@),
    {
        let mut segments: Vec<Segment> = Vec::new();
        if pattern_text.len() == 0 {
            return Pattern { segments };
        }
        let mut pos: usize = if pattern_text[0] == SLASH {
            1
        } else {
            0
        };
        let ghost start = pos as int;
        assert(pattern_text@.skip(0) =~= pattern_text@);
        let mut done: bool = false;
        while !done
            invariant
                pos <= pattern_text.len(),
                !done ==> segments@.map_values(|s: Segment| s@) + segments_of(
                    pattern_text@.skip(pos as int),
                ) == segments_of(pattern_text@.skip(start)),
                done ==> segments@.map_values(|s: Segment| s@) == segments_of(
                    pattern_text@.skip(start),
                ),
            decreases pattern_text.len() - pos + (if done { 0int } else { 1int }),
        {
            let end: usize = segment_end(pattern_text, pos);
            let segment = classify_word(slice_subrange(pattern_text, pos, end));
            let ghost before = segments@.map_values(|s: Segment| s@);
            let ghost body = pattern_text@.skip(pos as int);
            segments.push(segment);
            assert(segments@.map_values(|s: Segment| s@) =~= before.push(
                classify(first_segment(body)),
            ));
            if end == pattern_text.len() {
                done = true;
            } else {
                pos = end + 1;
                assert(body.skip(first_segment(body).len() + 1int) =~= pattern_text@.skip(pos as int));
                assert(before.push(classify(first_segment(body))) + segments_of(
                    pattern_text@.skip(pos as int),
                ) =~= before + segments_of(body));
            }
        }
        Pattern { segments }
    }

    /// Matches a path against this pattern.
    pub fn matches(&self, path: &[u8]) -> (found: Option<RouteMatch>)
        ensures
            match found {
                Some(m) => match_segments(self@, path@) == Some(m@),
                None => match_segments(self@, path@) is None,
            },
    {
        let mut bindings: Vec<Binding> = Vec::new();
        let mut pos: usize = 0;
        let mut i: usize = 0;
        assert(self@.skip(0) =~= self@);
        assert(path@.skip(0) =~= path@);
        assert(with_bindings(Seq::empty(), match_segments(self@, path@)) =~= match_segments(
            self@,
            path@,
        )) by {
            match match_segments(self@, path@) {
                Some(m) => {
                },
                None => {},
            }
        }
        while i < self.segments.len()
            invariant
                i <= self.segments.len(),
                pos <= path.len(),
                match_segments(self@, path@) == with_bindings(
                    bindings@.map_values(|b: Binding| b@),
                    match_segments(self@.skip(i as int), path@.skip(pos as int)),
                ),
            decreases self.segments.len() - i,
        {
            let ghost rest_segments = self@.skip(i as int);
            let ghost rest_path = path@.skip(pos as int);
            let ghost earlier = bindings@.map_values(|b: Binding| b@);
            assert(rest_segments.drop_first() =~= self@.skip(i + 1));
            match &self.segments[i] {
                Segment::Wildcard => {
                    let rest = slice_to_vec(slice_subrange(path, pos, path.len()));
                    let found = RouteMatch { bindings, remainder: Some(rest) };
                    return Some(found);
                },
                Segment::Literal(word) => {
                    if pos >= path.len() || path[pos] != SLASH {
                        return None;
                    }
                    assert(rest_path.drop_first() =~= path@.skip(pos + 1));
                    let end: usize = segment_end(path, pos + 1);
                    if !bytes_eq(slice_subrange(path, pos + 1, end), word.as_slice()) {
                        return None;
                    }
                    assert(rest_path.skip(1int + word@.len()) =~= path@.skip(end as int));
                    pos = end;
                },
                Segment::Param(name) => {
                    if pos >= path.len() || path[pos] != SLASH {
                        return None;
                    }
                    assert(rest_path.drop_first() =~= path@.skip(pos + 1));
                    let end: usize = segment_end(path, pos + 1);
                    if end == pos + 1 {
                        return None;
                    }
                    let value = slice_to_vec(slice_subrange(path, pos + 1, end));
                    assert(rest_path.skip(1int + value@.len()) =~= path@.skip(end as int));
                    let binding = Binding { name: name.clone(), value };
                    bindings.push(binding);
                    proof {
                        let later = match_segments(self@.skip(i + 1), path@.skip(end as int));
                        assert(bindings@.map_values(|b: Binding| b@) =~= earlier.push(binding@));
                        match later {
                            Some(m) => {
                                assert(earlier + (seq![binding@] + m.bindings) =~= earlier.push(
                                    binding@,
                                ) + m.bindings);
                            },
                            None => {},
                        }
                    }
                    pos = end;
                },
            }
            i = i + 1;
        }
        if pos == path.len() {
            let found = RouteMatch { bindings, remainder: None };
            Some(found)
        } else {
            None
        }
    }
}

impl RouteMatch {
    /// The path segment bound to the variable `name`.
    pub fn get_var(&self, name: &[u8]) -> (value: Option<&Vec<u8>>)
        ensures
            match value {
                Some(bytes) => bound_value(self@.bindings, name@) == Some(bytes@),
                None => bound_value(self@.bindings, name@) is None,
            },
    {
        let mut i: usize = 0;
        let ghost all = self@.bindings;
        assert(all.skip(0) =~= all);
        while i < self.bindings.len()
            invariant
                i <= self.bindings.len(),
                all == self@.bindings,
                bound_value(all, name@) == bound_value(all.skip(i as int), name@),
            decreases self.bindings.len() - i,
        {
            assert(all.skip(i as int).drop_first() =~= all.skip(i + 1));
            if bytes_eq(self.bindings[i].name.as_slice(), name) {
                return Some(&self.bindings[i].value);
            }
            i = i + 1;
        }
        None
    }

    /// The variable `name` read as an unsigned decimal number: present when
    /// the variable is bound to a string of digits whose value fits.
    pub fn get_var_u32(&self, name: &[u8]) -> (number: Option<u32>)
        ensures
            number == bound_number(self@.bindings, name@),
    {
        match self.get_var(name) {
            Some(value) => parse_u32(value.as_slice()),
            None => None,
        }
    }

    /// What the wildcard took, where the pattern has one.
    pub fn get_wildcard(&self) -> (rest: Option<&Vec<u8>>)
        ensures
            match rest {
                Some(bytes) => self@.remainder == Some(bytes@),
                None => self@.remainder is None,
            },
    {
        match &self.remainder {
            Some(rest) => Some(rest),
            None => None,
        }
    }
}

/// A table of route patterns in registration order.
#[derive(Debug, PartialEq, Eq)]
pub struct Router {
    pub routes: Vec<Pattern>,
}

impl View for Router {
    type V = Seq<Seq<SegmentView>>;

    open spec fn view(&self) -> Seq<Seq<SegmentView>> {
        self.routes@.map_values(|p: Pattern| p@)
    }
}

impl Router {
    /// A router without routes.
    pub fn new() -> (router: Router)
        ensures
            router@ == Seq::<Seq<SegmentView>>::empty(),
    {
        let router = Router { routes: Vec::new() };
        router
    }

    /// Registers the pattern written as `pattern_text` after those already
    /// registered.
    pub fn handle(&mut self, pattern_text: &[u8])
        ensures
            final(self)@ == old(self)@.push(parse_pattern(pattern_text@)),
    {
        let pattern = Pattern::parse(pattern_text);
        self.routes.push(pattern);
    }

    /// The first registered pattern that matches the path, by its position,
    /// with what it extracted.
    pub fn first_match(&self, path: &[u8]) -> (found: Option<(usize, RouteMatch)>)
        ensures
            match found {
                Some((index, m)) => first_match(self@, path@) == Some((index as int, m@)),
                None => first_match(self@, path@) is None,
            },
    {
        let mut i: usize = 0;
        while i < self.routes.len()
            invariant
                i <= self.routes.len(),
                first_match(self@.take(i as int), path@) is None,
            decreases self.routes.len() - i,
        {
            let attempt = self.routes[i].matches(path);
            proof {
                assert(self@.take(i + 1).drop_last() =~= self@.take(i as int));
            }
            match attempt {
                Some(m) => {
                    proof {
                        lemma_first_match_extends(self@, i + 1, path@);
                    }
                    return Some((i, m));
                },
                None => {},
            }
            i = i + 1;
        }
        assert(self@.take(i as int) =~= self@);
        None
    }
}

/// A match found among the first `n` patterns is the match of the table.
pub proof fn lemma_first_match_extends(table: Seq<Seq<SegmentView>>, n: int, path: Seq<u8>)
    requires
        0 <= n <= table.len(),
        first_match(table.take(n), path) is Some,
    ensures
        first_match(table, path) == first_match(table.take(n), path),
    decreases table.len() - n,
{
    if n < table.len() {
        assert(table.take(n + 1).drop_last() =~= table.take(n));
        lemma_first_match_extends(table, n + 1, path);
    } else {
        assert(table.take(n) =~= table);
    }
}

/// Whether a text holds neither `*` nor `{`, so that every word of it is a
/// literal segment.
pub open spec fn plain(bytes: Seq<u8>) -> bool {
    forall|i: int| 0 <= i < bytes.len() ==> (#[trigger] bytes[i]) != STAR && bytes[i] != OPEN_BRACE
}

/// The segments of a plain run of words match exactly the path made of a
/// slash and that run, and extract nothing from it.
pub proof fn lemma_plain_segments(body: Seq<u8>, path: Seq<u8>)
    requires
        plain(body),
    ensures
        match_segments(segments_of(body), path) is Some <==> path == seq![SLASH] + body,
        match_segments(segments_of(body), path) is Some ==> match_segments(segments_of(body), path)
            == Some(empty_match()),
    decreases body.len(),
{
    let word = first_segment(body);
    let segments = segments_of(body);
    let whole = seq![SLASH] + body;
    lemma_first_segment(body);
    assert(whole.drop_first() =~= body);
    if path.len() > 0 && path[0] == SLASH {
        let tail = path.drop_first();
        let later = path.skip(1int + word.len());
        let inner = match_segments(segments.drop_first(), later);
        lemma_first_segment(tail);
        assert(match_segments(segments, path) == if first_segment(tail) == word {
            inner
        } else {
            None
        });
        if word.len() >= body.len() {
            assert(word =~= body);
            assert(inner == if later.len() == 0 {
                Some(empty_match())
            } else {
                None
            });
            if match_segments(segments, path) is Some {
                assert(path =~= whole);
            }
        } else {
            let rest = body.skip(word.len() + 1int);
            assert forall|i: int| 0 <= i < rest.len() implies (#[trigger] rest[i]) != STAR
                && rest[i] != OPEN_BRACE by {}
            assert(segments.drop_first() =~= segments_of(rest));
            lemma_plain_segments(rest, later);
            if path == whole {
                assert(later =~= seq![SLASH] + rest);
            }
            if match_segments(segments, path) is Some {
                assert forall|k: int| 0 <= k < path.len() implies path[k] == whole[k] by {
                    if 1 <= k <= word.len() {
                        assert(tail[k - 1] == first_segment(tail)[k - 1]);
                    } else if k > word.len() {
                        assert(path[k] == later[k - 1 - word.len()]);
                    }
                }
                assert(path =~= whole);
            }
        }
    }
}

/// A pattern without variable and wildcard matches its own text, byte for
/// byte, and no other path.
pub proof fn lemma_literal_pattern(pattern_text: Seq<u8>, path: Seq<u8>)
    requires
        pattern_text.len() > 0,
        pattern_text[0] == SLASH,
        plain(pattern_text),
    ensures
        match_segments(parse_pattern(pattern_text), path) is Some <==> path == pattern_text,
        match_segments(parse_pattern(pattern_text), path) is Some ==> match_segments(
            parse_pattern(pattern_text),
            path,
        ) == Some(empty_match()),
{
    let body = pattern_text.drop_first();
    assert forall|i: int| 0 <= i < body.len() implies (#[trigger] body[i]) != STAR && body[i]
        != OPEN_BRACE by {}
    lemma_plain_segments(body, path);
    assert(seq![SLASH] + body =~= pattern_text);
}

/// First match wins: a pattern that matches, with none before it that
/// does, is the one that the table selects.
pub proof fn lemma_first_match_at(table: Seq<Seq<SegmentView>>, path: Seq<u8>, index: int)
    requires
        0 <= index < table.len(),
        match_segments(table[index], path) is Some,
        forall|j: int| 0 <= j < index ==> match_segments(#[trigger] table[j], path) is None,
    ensures
        first_match(table, path) == Some((index, match_segments(table[index], path)->0)),
{
    lemma_first_match_none(table.take(index), path);
    assert(table.take(index + 1).drop_last() =~= table.take(index));
    lemma_first_match_extends(table, index + 1, path);
}

/// A table in which no pattern matches the path selects nothing.
pub proof fn lemma_first_match_none(table: Seq<Seq<SegmentView>>, path: Seq<u8>)
    requires
        forall|j: int| 0 <= j < table.len() ==> match_segments(#[trigger] table[j], path) is None,
    ensures
        first_match(table, path) is None,
    decreases table.len(),
{
    if table.len() > 0 {
        assert forall|j: int| 0 <= j < table.len() - 1 implies match_segments(
            #[trigger] table.drop_last()[j],
            path,
        ) is None by {}
        lemma_first_match_none(table.drop_last(), path);
    }
}

} // verus!
