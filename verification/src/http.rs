//! Reading an HTTP response: status line, headers and body.

use vstd::prelude::*;
use crate::error::Error;
use crate::text::{
    blank_line, chars_of, decimal_u32, find, find_blank_line, fold_line_ends, folded_line_ends,
    index_of, lemma_blank_line_is_first, lemma_index_of_is_first, lemma_no_blank_line, parse_u32,
    piece_views, slice_of, split, split_at_each, string_from, trim, trim_start, trimmed,
    trimmed_start,
};

verus! {

/// What a [`Header`] holds.
pub struct HeaderView {
    pub name: Seq<char>,
    pub value: Seq<char>,
}

/// What an [`HttpResponse`] holds.
pub struct ResponseView {
    pub version: Seq<char>,
    pub status_code: u32,
    pub reason: Seq<char>,
    pub headers: Seq<HeaderView>,
    pub body: Seq<char>,
}

/// The status code that stands for one that cannot be read.
pub const UNREADABLE_STATUS: u32 = 404;

/// The raw text as it is taken apart: without leading white space, and with
/// a line feed for every line feed that a carriage return follows.
pub open spec fn preprocess(raw: Seq<char>) -> Seq<char> {
    fold_line_ends(trim_start(raw))
}

/// The status code that `s` writes, or 404 where it writes none.
pub open spec fn status_code_of(s: Seq<char>) -> u32 {
    match decimal_u32(s) {
        Some(code) => code,
        None => UNREADABLE_STATUS,
    }
}

/// The header that `line` writes: name and value are what stands before and
/// after the first colon, without white space at their ends. `None` for a
/// line without a colon.
pub open spec fn header_of(line: Seq<char>) -> Option<HeaderView> {
    let colon = index_of(line, ':') as int;
    if colon < line.len() {
        Some(HeaderView { name: trim(line.take(colon)), value: trim(line.skip(colon + 1)) })
    } else {
        None
    }
}

/// The headers that `lines` write, in order; `None` where one of the lines
/// writes no header.
pub open spec fn headers_of(lines: Seq<Seq<char>>) -> Option<Seq<HeaderView>>
    decreases lines.len(),
{
    if lines.len() == 0 {
        Some(Seq::empty())
    } else {
        match (headers_of(lines.drop_last()), header_of(lines.last())) {
            (Some(headers), Some(header)) => Some(headers.push(header)),
            _ => None,
        }
    }
}

/// The lines of the header block of `rest`, the text after the status line:
/// what stands before the first blank line of `rest`, cut at each line feed.
/// Where `rest` has no blank line of its own there is no header block.
pub open spec fn header_lines(rest: Seq<char>) -> Seq<Seq<char>> {
    let blank = blank_line(rest) as int;
    if blank < rest.len() {
        split(rest.take(blank), '\n')
    } else {
        Seq::empty()
    }
}

/// The body of `rest`, the text after the status line: what follows the
/// first blank line of `rest`, or all of `rest` where it has none of its
/// own.
pub open spec fn body_of(rest: Seq<char>) -> Seq<char> {
    let blank = blank_line(rest) as int;
    if blank < rest.len() {
        rest.skip(blank + 2)
    } else {
        rest
    }
}

/// The response that the raw text `raw` writes. `None` where the text, once
/// preprocessed, has no blank line, where its first line has fewer than
/// three parts between single spaces, or where a line of its header block
/// has no colon.
///
/// The first line ends at the first line feed. Where the blank line begins
/// with that very line feed, nothing is left for a header block: the
/// response has no headers, and its body is all that follows the first line.
pub open spec fn response_of(raw: Seq<char>) -> Option<ResponseView> {
    let text = preprocess(raw);
    if blank_line(text) >= text.len() {
        None
    } else {
        let end = index_of(text, '\n') as int;
        let status = split(text.take(end), ' ');
        let rest = text.skip(end + 1);
        match headers_of(header_lines(rest)) {
            Some(headers) => if status.len() >= 3 {
                Some(
                    ResponseView {
                        version: status[0],
                        status_code: status_code_of(status[1]),
                        reason: status[2],
                        headers,
                        body: body_of(rest),
                    },
                )
            } else {
                None
            },
            None => None,
        }
    }
}

/// A response without a blank line is refused: where no line feed of the
/// preprocessed text has another follow it at once, there is no response,
/// whatever else the text holds. A text without any line feed is such a text.
pub proof fn lemma_without_blank_line_refused(raw: Seq<char>)
    requires
        forall|i: int|
            0 <= i && i + 1 < preprocess(raw).len() ==> !(preprocess(raw)[i] == '\n'
                && #[trigger] preprocess(raw)[i + 1] == '\n'),
    ensures
        response_of(raw) is None,
{
    lemma_no_blank_line(preprocess(raw));
}

/// The words that every refusal begins with.
pub open spec fn refusal_prefix() -> Seq<char> {
    "invalid http response: "@
}

/// The value of the first of `headers` whose name is `name`.
pub open spec fn first_value(headers: Seq<HeaderView>, name: Seq<char>) -> Option<Seq<char>>
    decreases headers.len(),
{
    if headers.len() == 0 {
        None
    } else if headers[0].name == name {
        Some(headers[0].value)
    } else {
        first_value(headers.drop_first(), name)
    }
}

/// One header of a response: a name and a value.
#[derive(Debug)]
pub struct Header {
    name: String,
    value: String,
}

impl View for Header {
    type V = HeaderView;

    closed spec fn view(&self) -> HeaderView {
        HeaderView { name: self.name@, value: self.value@ }
    }
}

impl Clone for Header {
    fn clone(&self) -> (h: Self)
        ensures
            h@ == self@,
    {
        Header { name: self.name.clone(), value: self.value.clone() }
    }
}

impl Header {
    /// The header with the given name and value.
    pub fn new(name: String, value: String) -> (h: Self)
        ensures
            h@ == (HeaderView { name: name@, value: value@ }),
    {
        Self { name, value }
    }
}

/// The views of a list of headers, in the same order.
pub open spec fn header_views(headers: Seq<Header>) -> Seq<HeaderView> {
    headers.map_values(|h: Header| h@)
}

/// A response as read from its raw text.
#[derive(Debug)]
pub struct HttpResponse {
    version: String,
    status_code: u32,
    reason: String,
    headers: Vec<Header>,
    body: String,
}

impl View for HttpResponse {
    type V = ResponseView;

    closed spec fn view(&self) -> ResponseView {
        ResponseView {
            version: self.version@,
            status_code: self.status_code,
            reason: self.reason@,
            headers: header_views(self.headers@),
            body: self.body@,
        }
    }
}

/// A copy of `headers`.
fn copy_of(headers: &Vec<Header>) -> (copy: Vec<Header>)
    ensures
        header_views(copy@) == header_views(headers@),
{
    let mut copy: Vec<Header> = Vec::new();
    let mut i: usize = 0;
    while i < headers.len()
        invariant
            i <= headers.len(),
            copy.len() == i,
            forall|j: int| 0 <= j < i ==> copy@[j]@ == headers@[j]@,
        decreases headers.len() - i,
    {
        copy.push(headers[i].clone());
        i += 1;
    }
    assert(header_views(copy@) =~= header_views(headers@));
    copy
}

/// The headers that `lines` write, or `None` where one of them has no colon.
fn read_headers(lines: &Vec<Vec<char>>) -> (r: Option<Vec<Header>>)
    ensures
        match headers_of(piece_views(lines@)) {
            Some(headers) => r is Some && header_views(r->0@) == headers,
            None => r is None,
        },
{
    let mut headers: Vec<Header> = Vec::new();
    let mut i: usize = 0;
    let ghost all = piece_views(lines@);
    assert(all.take(0) =~= Seq::<Seq<char>>::empty());
    assert(header_views(headers@) =~= Seq::<HeaderView>::empty());
    while i < lines.len()
        invariant
            i <= lines.len(),
            all == piece_views(lines@),
            headers_of(all.take(i as int)) == Some(header_views(headers@)),
        decreases lines.len() - i,
    {
        let line = &lines[i];
        let ghost upto = all.take(i + 1);
        proof {
            assert(upto.drop_last() =~= all.take(i as int));
            assert(upto.last() == line@);
        }
        let colon = find(line, ':');
        if colon >= line.len() {
            proof {
                lemma_headers_of_prefix(all, i + 1);
            }
            return None;
        }
        let name = trimmed(&slice_of(line, 0, colon));
        let value = trimmed(&slice_of(line, colon + 1, line.len()));
        let ghost before = headers@;
        headers.push(Header::new(string_from(&name), string_from(&value)));
        proof {
            assert(line@.take(colon as int) =~= line@.subrange(0, colon as int));
            assert(line@.skip(colon + 1) =~= line@.subrange(colon + 1, line@.len() as int));
            assert(header_views(headers@) =~= header_views(before).push(header_of(line@)->0));
        }
        i += 1;
    }
    assert(all.take(i as int) =~= all);
    Some(headers)
}

/// Where the first lines of `lines` write no list of headers, neither does
/// the whole.
pub proof fn lemma_headers_of_prefix(lines: Seq<Seq<char>>, k: int)
    requires
        0 <= k <= lines.len(),
        headers_of(lines.take(k)) is None,
    ensures
        headers_of(lines) is None,
    decreases lines.len(),
{
    if k == lines.len() {
        assert(lines.take(k) =~= lines);
    } else {
        assert(lines.drop_last().take(k) =~= lines.take(k));
        lemma_headers_of_prefix(lines.drop_last(), k);
    }
}

impl HttpResponse {
    /// Reads a response from its raw text.
    ///
    /// Leading white space is dropped and each line feed that a carriage
    /// return follows stands for the two. A text without a blank line is
    /// refused. The first line holds the version, the status code and the
    /// reason, a single space between them; a code that cannot be read
    /// counts as 404. What follows up to the first blank line is the header
    /// block, one header to the line, and the body is what follows that
    /// blank line. Where the first line itself ends in the blank line, there
    /// are no headers and the body is all that follows the first line.
    pub fn new(raw_response: String) -> (r: Result<Self, Error>)
        ensures
            match response_of(raw_response@) {
                Some(response) => r is Ok && r->Ok_0@ == response,
                None => r matches Err(Error::Network(message)) && message@ == refusal_prefix()
                    + preprocess(raw_response@),
            },
    {
        let raw = chars_of(raw_response.as_str());
        let text = folded_line_ends(&trimmed_start(&raw));
        if find_blank_line(&text) >= text.len() {
            return Err(Self::refusal(&text));
        }
        let end = find(&text, '\n');
        proof {
            lemma_blank_line_is_first(text@);
            lemma_index_of_is_first(text@, '\n');
        }
        let status_line = slice_of(&text, 0, end);
        let rest = slice_of(&text, end + 1, text.len());
        proof {
            assert(status_line@ =~= text@.take(end as int));
            assert(rest@ =~= text@.skip(end + 1));
        }
        let blank = find_blank_line(&rest);
        let (headers, body) = if blank < rest.len() {
            let block = slice_of(&rest, 0, blank);
            let body = slice_of(&rest, blank + 2, rest.len());
            proof {
                assert(block@ =~= rest@.take(blank as int));
                assert(body@ =~= rest@.skip(blank + 2));
            }
            match read_headers(&split_at_each(&block, '\n')) {
                Some(headers) => (headers, body),
                None => {
                    return Err(Self::refusal(&text));
                },
            }
        } else {
            proof {
                assert(header_views(Seq::<Header>::empty()) =~= Seq::<HeaderView>::empty());
            }
            (Vec::new(), rest)
        };
        let statuses = split_at_each(&status_line, ' ');
        if statuses.len() < 3 {
            return Err(Self::refusal(&text));
        }
        let status_code = match parse_u32(&statuses[1]) {
            Some(code) => code,
            None => UNREADABLE_STATUS,
        };
        Ok(
            Self {
                version: string_from(&statuses[0]),
                status_code,
                reason: string_from(&statuses[2]),
                headers,
                body: string_from(&body),
            },
        )
    }

    /// The error for a response whose preprocessed text is `text`.
    fn refusal(text: &Vec<char>) -> (e: Error)
        ensures
            e matches Error::Network(message) && message@ == refusal_prefix() + text@,
    {
        let mut message = String::from_str("invalid http response: ");
        message.append(string_from(text).as_str());
        Error::Network(message)
    }

    /// A copy of the version.
    pub fn version(&self) -> (s: String)
        ensures
            s@ == self@.version,
    {
        self.version.clone()
    }

    /// The status code.
    pub fn status_code(&self) -> (code: u32)
        ensures
            code == self@.status_code,
    {
        self.status_code
    }

    /// A copy of the reason.
    pub fn reason(&self) -> (s: String)
        ensures
            s@ == self@.reason,
    {
        self.reason.clone()
    }

    /// A copy of the headers, in the order of the response.
    pub fn headers(&self) -> (headers: Vec<Header>)
        ensures
            header_views(headers@) == self@.headers,
    {
        copy_of(&self.headers)
    }

    /// A copy of the body.
    pub fn body(&self) -> (s: String)
        ensures
            s@ == self@.body,
    {
        self.body.clone()
    }

    /// The value of the first header whose name is exactly `name`.
    pub fn header_value(&self, name: &str) -> (r: Result<String, String>)
        ensures
            match first_value(self@.headers, name@) {
                Some(value) => r is Ok && r->Ok_0@ == value,
                None => r is Err && r->Err_0@ == "failed to find "@ + name@ + " in headers"@,
            },
    {
        let wanted = String::from_str(name);
        let mut i: usize = 0;
        let ghost all = header_views(self.headers@);
        assert(all.skip(0) =~= all);
        while i < self.headers.len()
            invariant
                i <= self.headers.len(),
                all == header_views(self.headers@),
                wanted@ == name@,
                first_value(all, name@) == first_value(all.skip(i as int), name@),
            decreases self.headers.len() - i,
        {
            let header = &self.headers[i];
            assert(all.skip(i as int)[0] == header@);
            if header.name == wanted {
                return Ok(header.value.clone());
            }
            assert(all.skip(i as int).drop_first() =~= all.skip(i + 1));
            i += 1;
        }
        let mut message = String::from_str("failed to find ");
        message.append(name);
        message.append(" in headers");
        Err(message)
    }
}

impl Clone for HttpResponse {
    fn clone(&self) -> (r: Self)
        ensures
            r@ == self@,
    {
        HttpResponse {
            version: self.version.clone(),
            status_code: self.status_code,
            reason: self.reason.clone(),
            headers: copy_of(&self.headers),
            body: self.body.clone(),
        }
    }
}

} // verus!
