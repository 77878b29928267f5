//! The header's grammar: a line reader that numbers lines, and a parser
//! that checks the order of keywords and builds the header.
use vstd::prelude::*;

use crate::error::{HeaderError, HeaderErrorView};
use crate::header::{
    Element, ElementView, Format, FormatView, Header, HeaderView, elements_view, properties_view,
    texts_view,
};
use crate::lines::{
    HeaderKey, HeaderLine, element_line, format_line, keyword_of, line_key, parse_comment_line,
    parse_element_line, parse_format_line, parse_header_line, parse_property_line, property_line,
    remainder_of,
};
use crate::utils::{ensure_empty, trimmed, words};

verus! {

/// A header error with the 1-based number of the line it was found on (the
/// number of lines read, where the input ended early).
#[derive(Clone, Debug, PartialEq, Eq)]
pub struct ParseError {
    pub line: usize,
    pub error: HeaderError,
}

pub ghost struct ParseErrorView {
    pub line: nat,
    pub error: HeaderErrorView,
}

impl View for ParseError {
    type V = ParseErrorView;

    open spec fn view(&self) -> ParseErrorView {
        ParseErrorView { line: self.line as nat, error: self.error@ }
    }
}

pub open spec fn opt_view(line: Option<&str>) -> Option<Seq<char>> {
    match line {
        Some(l) => Some(l@),
        None => None,
    }
}

/// What reading one more line gives, after `count` lines: the line's
/// keyword and the rest of it, or an error numbered with the lines read.
pub open spec fn read_result(count: nat, line: Option<Seq<char>>) -> Result<
    (HeaderKey, Seq<char>),
    ParseErrorView,
> {
    match line {
        None => Err(ParseErrorView { line: count, error: HeaderErrorView::BrokenHeader }),
        Some(l) => match line_key(l) {
            Some(k) => Ok((k, remainder_of(l))),
            None => Err(
                ParseErrorView {
                    line: count + 1,
                    error: HeaderErrorView::InvalidKeyword(keyword_of(l)),
                },
            ),
        },
    }
}

/// Classifies header lines one at a time and counts them.
pub struct HeaderReader {
    line_count: usize,
}

impl HeaderReader {
    /// The number of lines read so far.
    pub closed spec fn lines_read(&self) -> nat {
        self.line_count as nat
    }

    pub fn new() -> (r: Self)
        ensures
            r.lines_read() == 0,
    {
        HeaderReader { line_count: 0 }
    }

    pub fn line_count(&self) -> (r: usize)
        ensures
            r == self.lines_read(),
    {
        self.line_count
    }

    /// Takes the next line of the input, or `None` where the input has
    /// ended, and splits it into its keyword and the rest.
    pub fn read_line<'a>(&mut self, line: Option<&'a str>) -> (r: Result<HeaderLine<'a>, ParseError>)
        requires
            line is Some ==> old(self).lines_read() < usize::MAX,
        ensures
            final(self).lines_read() == old(self).lines_read() + (if line is Some {
                1nat
            } else {
                0nat
            }),
            match r {
                Ok((key, keyword, value)) => line is Some && read_result(
                    old(self).lines_read(),
                    opt_view(line),
                ) == Ok::<(HeaderKey, Seq<char>), ParseErrorView>((key, value@)) && keyword@
                    == keyword_of(line->0@),
                Err(e) => read_result(old(self).lines_read(), opt_view(line)) == Err::<
                    (HeaderKey, Seq<char>),
                    ParseErrorView,
                >(e@),
            },
    {
        match line {
            None => Err(ParseError { line: self.line_count, error: HeaderError::BrokenHeader }),
            Some(l) => {
                self.line_count = self.line_count + 1;
                match parse_header_line(l) {
                    Ok(parsed) => Ok(parsed),
                    Err(e) => Err(ParseError { line: self.line_count, error: e }),
                }
            },
        }
    }
}

/// The state of a header parse: lines read, the keyword of the last line
/// accepted, and what has been declared so far.
pub ghost struct ParserView {
    pub line_count: nat,
    pub prev: HeaderKey,
    pub format: Option<FormatView>,
    pub comments: Seq<Seq<char>>,
    pub elements: Seq<ElementView>,
}

/// Whether the format line has been accepted.
pub open spec fn past_format(k: HeaderKey) -> bool {
    !(k is Initial) && !(k is Start)
}

/// Where `rest` holds a word, the error for a `keyword` line that must hold none.
pub open spec fn blank_error(rest: Seq<char>, keyword: Seq<char>) -> Option<HeaderErrorView> {
    if words(rest).len() == 0 {
        None
    } else {
        Some(HeaderErrorView::ExtraCharacters(keyword, words(rest)[0]))
    }
}

/// Accepting a line with keyword `key` and text `rest` in state `s`.
pub open spec fn grammar_step(s: ParserView, key: HeaderKey, rest: Seq<char>) -> Result<
    ParserView,
    HeaderErrorView,
> {
    match key {
        HeaderKey::Start => if !(s.prev is Initial) {
            Err(HeaderErrorView::PlyExpected)
        } else if blank_error(rest, "ply"@) is Some {
            Err(blank_error(rest, "ply"@)->0)
        } else {
            Ok(ParserView { prev: key, ..s })
        },
        HeaderKey::Format => if !(s.prev is Start) {
            Err(HeaderErrorView::FormatExpected)
        } else {
            match format_line(rest) {
                Ok(f) => Ok(ParserView { prev: key, format: Some(f), ..s }),
                Err(e) => Err(e),
            }
        },
        HeaderKey::Comment => if !past_format(s.prev) {
            Err(HeaderErrorView::KeywordsExpected)
        } else {
            Ok(ParserView { prev: key, comments: s.comments.push(trimmed(rest)), ..s })
        },
        HeaderKey::Element => if !past_format(s.prev) {
            Err(HeaderErrorView::KeywordsExpected)
        } else {
            match element_line(rest) {
                Ok(e) => Ok(ParserView { prev: key, elements: s.elements.push(e), ..s }),
                Err(e) => Err(e),
            }
        },
        HeaderKey::Property => if !past_format(s.prev) {
            Err(HeaderErrorView::KeywordsExpected)
        } else if s.elements.len() == 0 {
            Err(HeaderErrorView::PropertyWithoutElement)
        } else {
            match property_line(rest) {
                Ok(p) => {
                    let last = s.elements.last();
                    let grown = ElementView { properties: last.properties.push(p), ..last };
                    Ok(
                        ParserView {
                            prev: key,
                            elements: s.elements.update(s.elements.len() - 1, grown),
                            ..s
                        },
                    )
                },
                Err(e) => Err(e),
            }
        },
        HeaderKey::End => if !past_format(s.prev) {
            Err(HeaderErrorView::KeywordsExpected)
        } else if blank_error(rest, "end_header"@) is Some {
            Err(blank_error(rest, "end_header"@)->0)
        } else {
            Ok(ParserView { prev: key, ..s })
        },
        HeaderKey::Initial => Err(HeaderErrorView::KeywordsExpected),
    }
}

/// Reading and accepting one more line (`None` where the input has ended).
pub open spec fn feed(s: ParserView, line: Option<Seq<char>>) -> Result<ParserView, ParseErrorView> {
    match read_result(s.line_count, line) {
        Err(e) => Err(e),
        Ok((k, rest)) => match grammar_step(s, k, rest) {
            Ok(t) => Ok(ParserView { line_count: s.line_count + 1, ..t }),
            Err(e) => Err(ParseErrorView { line: s.line_count + 1, error: e }),
        },
    }
}

/// The state before any line.
pub open spec fn initial_state() -> ParserView {
    ParserView {
        line_count: 0,
        prev: HeaderKey::Initial,
        format: None,
        comments: seq![],
        elements: seq![],
    }
}

/// Feeding `lines[i..]` to `s` until `end_header` has been accepted.
pub open spec fn run_from(s: ParserView, lines: Seq<Seq<char>>, i: int) -> Result<
    ParserView,
    ParseErrorView,
>
    decreases lines.len() - i,
{
    if s.prev is End {
        Ok(s)
    } else if i >= lines.len() {
        feed(s, None)
    } else {
        match feed(s, Some(lines[i])) {
            Ok(t) => run_from(t, lines, i + 1),
            Err(e) => Err(e),
        }
    }
}

/// The header that `lines` begin with; lines after `end_header` are not read.
pub open spec fn header_of_lines(lines: Seq<Seq<char>>) -> Result<HeaderView, ParseErrorView> {
    match run_from(initial_state(), lines, 0) {
        Ok(s) => Ok(HeaderView { format: s.format->0, comments: s.comments, elements: s.elements }),
        Err(e) => Err(e),
    }
}

/// Every state reached from the initial one declares a format once it is
/// past the format line.
pub open spec fn consistent(s: ParserView) -> bool {
    past_format(s.prev) ==> s.format is Some
}

/// A header parse in progress, fed one line at a time.
pub struct HeaderParser {
    reader: HeaderReader,
    prev: HeaderKey,
    format: Option<Format>,
    comments: Vec<String>,
    elements: Vec<Element>,
}

pub open spec fn format_view(f: Option<Format>) -> Option<FormatView> {
    match f {
        Some(f) => Some(f@),
        None => None,
    }
}

impl View for HeaderParser {
    type V = ParserView;

    closed spec fn view(&self) -> ParserView {
        ParserView {
            line_count: self.reader.lines_read(),
            prev: self.prev,
            format: format_view(self.format),
            comments: texts_view(self.comments@),
            elements: elements_view(self.elements@),
        }
    }
}

impl HeaderParser {
    pub fn new() -> (r: Self)
        ensures
            r@ == initial_state(),
    {
        let r = HeaderParser {
            reader: HeaderReader::new(),
            prev: HeaderKey::Initial,
            format: None,
            comments: Vec::new(),
            elements: Vec::new(),
        };
        assert(r@.comments =~= seq![]);
        assert(r@.elements =~= seq![]);
        r
    }

    /// The number of lines read so far.
    pub fn line_count(&self) -> (r: usize)
        ensures
            r == self@.line_count,
    {
        self.reader.line_count()
    }

    /// Whether `end_header` has been accepted.
    pub fn is_done(&self) -> (r: bool)
        ensures
            r == self@.prev is End,
    {
        self.prev == HeaderKey::End
    }

    fn accept(&mut self, key: HeaderKey, value: &str) -> (r: Result<(), HeaderError>)
        ensures
            match grammar_step(old(self)@, key, value@) {
                Ok(t) => r is Ok && final(self)@ == t,
                Err(e) => r is Err && r->Err_0@ == e && final(self)@ == old(self)@,
            },
    {
        let past = match self.prev {
            HeaderKey::Initial | HeaderKey::Start => false,
            _ => true,
        };
        match key {
            HeaderKey::Start => {
                if self.prev != HeaderKey::Initial {
                    return Err(HeaderError::PlyExpected);
                }
                ensure_empty(value, "ply")?;
            },
            HeaderKey::Format => {
                if self.prev != HeaderKey::Start {
                    return Err(HeaderError::FormatExpected);
                }
                let f = parse_format_line(value)?;
                self.format = Some(f);
            },
            HeaderKey::Comment => {
                if !past {
                    return Err(HeaderError::KeywordsExpected);
                }
                let c = parse_comment_line(value);
                self.comments.push(c);
                assert(texts_view(self.comments@) =~= old(self)@.comments.push(trimmed(value@)));
            },
            HeaderKey::Element => {
                if !past {
                    return Err(HeaderError::KeywordsExpected);
                }
                let e = parse_element_line(value)?;
                self.elements.push(e);
                assert(elements_view(self.elements@) =~= old(self)@.elements.push(e@));
            },
            HeaderKey::Property => {
                if !past {
                    return Err(HeaderError::KeywordsExpected);
                }
                if self.elements.len() == 0 {
                    return Err(HeaderError::PropertyWithoutElement);
                }
                let p = parse_property_line(value)?;
                match self.elements.pop() {
                    Some(mut last) => {
                        let ghost before = last;
                        last.properties.push(p);
                        assert(properties_view(last.properties@) =~= properties_view(
                            before.properties@,
                        ).push(p@));
                        self.elements.push(last);
                        assert(elements_view(self.elements@) =~= old(self)@.elements.update(
                            old(self)@.elements.len() - 1,
                            ElementView {
                                properties: old(self)@.elements.last().properties.push(p@),
                                ..old(self)@.elements.last()
                            },
                        ));
                    },
                    None => {
                        return Err(HeaderError::PropertyWithoutElement);
                    },
                }
            },
            HeaderKey::End => {
                if !past {
                    return Err(HeaderError::KeywordsExpected);
                }
                ensure_empty(value, "end_header")?;
            },
            HeaderKey::Initial => {
                return Err(HeaderError::KeywordsExpected);
            },
        }
        self.prev = key;
        Ok(())
    }

    /// Reads and accepts the next line of the input, or `None` where the
    /// input has ended. Gives whether the header is complete.
    pub fn feed_line(&mut self, line: Option<&str>) -> (r: Result<bool, ParseError>)
        requires
            !(old(self)@.prev is End),
            line is Some ==> old(self)@.line_count < usize::MAX,
            consistent(old(self)@),
        ensures
            consistent(final(self)@),
            match feed(old(self)@, opt_view(line)) {
                Ok(t) => r == Ok::<bool, ParseError>(t.prev is End) && final(self)@ == t,
                Err(e) => r is Err && r->Err_0@ == e && final(self)@ == (ParserView {
                    line_count: e.line,
                    ..old(self)@
                }),
            },
    {
        let (key, _keyword, value) = match self.reader.read_line(line) {
            Ok(parsed) => parsed,
            Err(e) => {
                return Err(e);
            },
        };
        match self.accept(key, value) {
            Ok(()) => Ok(self.prev == HeaderKey::End),
            Err(error) => Err(ParseError { line: self.reader.line_count(), error }),
        }
    }

    /// The header, once `end_header` has been accepted.
    pub fn into_header(self) -> (r: Header)
        requires
            self@.prev is End,
            consistent(self@),
        ensures
            r@ == (HeaderView {
                format: self@.format->0,
                comments: self@.comments,
                elements: self@.elements,
            }),
    {
        let HeaderParser { reader: _, prev: _, format, comments, elements } = self;
        Header { format: format.unwrap(), comments, elements }
    }
}

/// Parses the header that `lines` begin with; what follows `end_header` is
/// not read.
pub fn parse_header(lines: &Vec<String>) -> (r: Result<Header, ParseError>)
    ensures
        match r {
            Ok(h) => header_of_lines(texts_view(lines@)) == Ok::<HeaderView, ParseErrorView>(h@),
            Err(e) => header_of_lines(texts_view(lines@)) == Err::<HeaderView, ParseErrorView>(e@),
        },
{
    let ghost ls = texts_view(lines@);
    let mut parser = HeaderParser::new();
    let mut i: usize = 0;
    while i < lines.len() && !parser.is_done()
        invariant
            i <= lines@.len(),
            ls == texts_view(lines@),
            parser@.line_count == i,
            consistent(parser@),
            run_from(initial_state(), ls, 0) == run_from(parser@, ls, i as int),
        decreases lines.len() - i,
    {
        match parser.feed_line(Some(lines[i].as_str())) {
            Ok(_) => {},
            Err(e) => {
                return Err(e);
            },
        }
        i = i + 1;
    }
    if !parser.is_done() {
        match parser.feed_line(None) {
            Ok(_) => {},
            Err(e) => {
                return Err(e);
            },
        }
    }
    Ok(parser.into_header())
}

/// Line `i` of a header body is a comment, an element declaration, or a
/// property declaration after some element line, with text that parses.
pub open spec fn body_line_ok(lines: Seq<Seq<char>>, i: int) -> bool {
    let rest = remainder_of(lines[i]);
    match line_key(lines[i]) {
        Some(HeaderKey::Comment) => true,
        Some(HeaderKey::Element) => element_line(rest) is Ok,
        Some(HeaderKey::Property) => property_line(rest) is Ok && exists|e: int|
            2 <= e < i && line_key(#[trigger] lines[e]) == Some(HeaderKey::Element),
        _ => false,
    }
}

/// `lines` begin with a header whose `end_header` line is line `k`: a blank
/// `ply` line, a valid `format` line, body lines, then a blank `end_header` line.
pub open spec fn header_ends_at(lines: Seq<Seq<char>>, k: int) -> bool {
    &&& 2 <= k < lines.len()
    &&& line_key(lines[0]) == Some(HeaderKey::Start)
    &&& blank_error(remainder_of(lines[0]), "ply"@) is None
    &&& line_key(lines[1]) == Some(HeaderKey::Format)
    &&& format_line(remainder_of(lines[1])) is Ok
    &&& forall|i: int| 2 <= i < k ==> body_line_ok(lines, i)
    &&& line_key(lines[k]) == Some(HeaderKey::End)
    &&& blank_error(remainder_of(lines[k]), "end_header"@) is None
}

/// Some element line stands in `lines[2..j]`.
pub open spec fn element_before(lines: Seq<Seq<char>>, j: int) -> bool {
    exists|e: int| 2 <= e < j && line_key(#[trigger] lines[e]) == Some(HeaderKey::Element)
}

proof fn lemma_body_accepted(s: ParserView, lines: Seq<Seq<char>>, k: int, j: int)
    requires
        header_ends_at(lines, k),
        2 <= j <= k,
        past_format(s.prev),
        !(s.prev is End),
        element_before(lines, j) ==> s.elements.len() > 0,
    ensures
        run_from(s, lines, j) is Ok,
    decreases k - j,
{
    let l = lines[j];
    let t = feed(s, Some(l));
    if j < k {
        assert(body_line_ok(lines, j));
        if line_key(l) == Some(HeaderKey::Property) {
            let e = choose|e: int| 2 <= e < j && line_key(#[trigger] lines[e]) == Some(HeaderKey::Element);
            assert(element_before(lines, j));
        }
        assert(t is Ok);
        let u = t->Ok_0;
        assert(u.elements.len() >= s.elements.len());
        if element_before(lines, j + 1) {
            let e = choose|e: int| 2 <= e < j + 1 && line_key(#[trigger] lines[e]) == Some(HeaderKey::Element);
            if e < j {
                assert(element_before(lines, j));
            }
        }
        lemma_body_accepted(u, lines, k, j + 1);
    } else {
        assert(t is Ok);
        assert(run_from(t->Ok_0, lines, j + 1) is Ok);
    }
}

proof fn lemma_body_ordered(s: ParserView, lines: Seq<Seq<char>>, j: int)
    requires
        2 <= j,
        past_format(s.prev),
        !(s.prev is End),
        s.elements.len() > 0 ==> element_before(lines, j),
        run_from(s, lines, j) is Ok,
    ensures
        exists|k: int|
            j <= k < lines.len() && line_key(#[trigger] lines[k]) == Some(HeaderKey::End)
                && blank_error(remainder_of(lines[k]), "end_header"@) is None && forall|i: int|
                j <= i < k ==> body_line_ok(lines, i),
    decreases lines.len() - j,
{
    let l = lines[j];
    let t = feed(s, Some(l));
    assert(j < lines.len());
    assert(t is Ok);
    let u = t->Ok_0;
    if line_key(l) == Some(HeaderKey::End) {
        assert(forall|i: int| j <= i < j ==> body_line_ok(lines, i));
    } else {
        if line_key(l) == Some(HeaderKey::Property) {
            assert(element_before(lines, j));
            let e = choose|e: int| 2 <= e < j && line_key(#[trigger] lines[e]) == Some(HeaderKey::Element);
            assert(body_line_ok(lines, j));
        }
        assert(body_line_ok(lines, j));
        if u.elements.len() > 0 {
            if line_key(l) == Some(HeaderKey::Element) {
                assert(2 <= j < j + 1 && line_key(lines[j]) == Some(HeaderKey::Element));
            } else {
                let e = choose|e: int| 2 <= e < j && line_key(#[trigger] lines[e]) == Some(HeaderKey::Element);
            }
            assert(element_before(lines, j + 1));
        }
        lemma_body_ordered(u, lines, j + 1);
        let k = choose|k: int|
            j + 1 <= k < lines.len() && line_key(#[trigger] lines[k]) == Some(HeaderKey::End)
                && blank_error(remainder_of(lines[k]), "end_header"@) is None && forall|i: int|
                j + 1 <= i < k ==> body_line_ok(lines, i);
        assert(forall|i: int| j <= i < k ==> body_line_ok(lines, i));
    }
}

/// A header is accepted exactly when its lines come in order: one blank `ply`
/// line, one valid `format` line, any number of comment, element and property
/// lines (each property after some element), and one blank `end_header` line.
pub proof fn lemma_header_accepted_iff_ordered(lines: Seq<Seq<char>>)
    ensures
        header_of_lines(lines) is Ok <==> exists|k: int| header_ends_at(lines, k),
{
    let s0 = initial_state();
    if header_of_lines(lines) is Ok {
        assert(run_from(s0, lines, 0) is Ok);
        assert(0 < lines.len());
        assert(feed(s0, Some(lines[0])) is Ok);
        let s1 = feed(s0, Some(lines[0]))->Ok_0;
        assert(run_from(s0, lines, 0) == run_from(s1, lines, 1));
        assert(s1.prev == HeaderKey::Start);
        assert(run_from(s1, lines, 1) is Ok);
        assert(1 < lines.len());
        assert(feed(s1, Some(lines[1])) is Ok);
        let s2 = feed(s1, Some(lines[1]))->Ok_0;
        assert(s2.prev == HeaderKey::Format);
        assert(run_from(s1, lines, 1) == run_from(s2, lines, 2));
        assert(run_from(s2, lines, 2) is Ok);
        lemma_body_ordered(s2, lines, 2);
        let k = choose|k: int|
            2 <= k < lines.len() && line_key(#[trigger] lines[k]) == Some(HeaderKey::End)
                && blank_error(remainder_of(lines[k]), "end_header"@) is None && forall|i: int|
                2 <= i < k ==> body_line_ok(lines, i);
        assert(header_ends_at(lines, k));
    }
    if exists|k: int| header_ends_at(lines, k) {
        let k = choose|k: int| header_ends_at(lines, k);
        assert(feed(s0, Some(lines[0])) is Ok);
        let s1 = feed(s0, Some(lines[0]))->Ok_0;
        assert(run_from(s0, lines, 0) == run_from(s1, lines, 1));
        assert(feed(s1, Some(lines[1])) is Ok);
        let s2 = feed(s1, Some(lines[1]))->Ok_0;
        assert(run_from(s1, lines, 1) == run_from(s2, lines, 2));
        assert(!(s2.elements.len() > 0));
        lemma_body_accepted(s2, lines, k, 2);
    }
}

} // verus!
