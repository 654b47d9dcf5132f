//! The tokenizer as a mathematical automaton.
//!
//! A [`Machine`] is the whole state of a tokenizer: the text, the cursor, the
//! reconsume flag, the tag under construction, the script look-ahead buffer
//! and the automaton state. [`step`] is one turn of the automaton on one
//! character, [`run`] repeats it until a token comes out, and [`pull`] is what
//! one request for a token amounts to.

use vstd::prelude::*;
use crate::renderer::html::attribute::AttributeView;
use crate::renderer::html::token::State;
use crate::text::{is_alpha, is_upper, lower};

verus! {

/// A token, with its strings as sequences of characters.
pub enum TokenView {
    StartTag { tag: Seq<char>, self_closing: bool, attributes: Seq<AttributeView> },
    EndTag { tag: Seq<char> },
    Char(char),
    Eof,
}

/// The state of a tokenizer.
pub struct Machine {
    pub state: State,
    /// Index of the next character to consume; `input.len() + 1` once the end
    /// of the input has been consumed as well.
    pub pos: nat,
    pub reconsume: bool,
    /// The tag under construction, if any.
    pub pending: Option<TokenView>,
    pub input: Seq<char>,
    pub buf: Seq<char>,
}

/// A start tag with nothing in it yet.
pub open spec fn empty_start_tag() -> TokenView {
    TokenView::StartTag { tag: Seq::empty(), self_closing: false, attributes: Seq::empty() }
}

/// An end tag with nothing in it yet.
pub open spec fn empty_end_tag() -> TokenView {
    TokenView::EndTag { tag: Seq::empty() }
}

/// An attribute with nothing in it yet.
pub open spec fn empty_attribute() -> AttributeView {
    AttributeView { name: Seq::empty(), value: Seq::empty() }
}

/// The pending tag with `c` appended to its name.
pub open spec fn push_tag_char(p: Option<TokenView>, c: char) -> Option<TokenView> {
    match p {
        Some(TokenView::StartTag { tag, self_closing, attributes }) => Some(
            TokenView::StartTag { tag: tag.push(c), self_closing, attributes },
        ),
        Some(TokenView::EndTag { tag }) => Some(TokenView::EndTag { tag: tag.push(c) }),
        _ => p,
    }
}

/// The pending start tag with a fresh attribute at the end of its list. An end
/// tag carries no attributes and stays as it is.
pub open spec fn start_attribute(p: Option<TokenView>) -> Option<TokenView> {
    match p {
        Some(TokenView::StartTag { tag, self_closing, attributes }) => Some(
            TokenView::StartTag { tag, self_closing, attributes: attributes.push(empty_attribute()) },
        ),
        _ => p,
    }
}

/// `a` with `c` appended to its name or to its value.
pub open spec fn attribute_with_char(a: AttributeView, c: char, is_name: bool) -> AttributeView {
    if is_name {
        AttributeView { name: a.name.push(c), value: a.value }
    } else {
        AttributeView { name: a.name, value: a.value.push(c) }
    }
}

/// The pending start tag with `c` appended to its last attribute. An end tag
/// stays as it is.
pub open spec fn push_attribute_char(p: Option<TokenView>, c: char, is_name: bool) -> Option<
    TokenView,
> {
    match p {
        Some(TokenView::StartTag { tag, self_closing, attributes }) => if attributes.len() > 0 {
            Some(
                TokenView::StartTag {
                    tag,
                    self_closing,
                    attributes: attributes.update(
                        attributes.len() - 1,
                        attribute_with_char(attributes.last(), c, is_name),
                    ),
                },
            )
        } else {
            p
        },
        _ => p,
    }
}

/// The pending start tag marked as self-closing. An end tag stays as it is.
pub open spec fn self_closed(p: Option<TokenView>) -> Option<TokenView> {
    match p {
        Some(TokenView::StartTag { tag, self_closing, attributes }) => Some(
            TokenView::StartTag { tag, self_closing: true, attributes },
        ),
        _ => p,
    }
}

/// The two characters that open an end tag.
pub open spec fn end_tag_opener() -> Seq<char> {
    seq!['<', '/']
}

impl Machine {
    /// A tokenizer that has not yet looked at `input`.
    pub open spec fn start(input: Seq<char>) -> Machine {
        Machine {
            state: State::Data,
            pos: 0,
            reconsume: false,
            pending: None,
            input,
            buf: Seq::empty(),
        }
    }

    /// The character at index `i` of the input, `None` outside of it.
    pub open spec fn at(self, i: int) -> Option<char> {
        if 0 <= i < self.input.len() {
            Some(self.input[i])
        } else {
            None
        }
    }

    /// The character that the next turn of the automaton is given: the one
    /// before the cursor when it is to be reconsumed, the one at the cursor
    /// otherwise; `None` stands for the end of the input.
    pub open spec fn current(self) -> Option<char> {
        if self.reconsume {
            self.at(self.pos - 1)
        } else {
            self.at(self.pos as int)
        }
    }

    /// The cursor and the flag after the next turn has been given its
    /// character. Consuming the end of the input moves the cursor one past
    /// the length, and no further.
    pub open spec fn advance(self) -> Machine {
        if self.reconsume {
            Machine { reconsume: false, ..self }
        } else if self.pos <= self.input.len() {
            Machine { pos: self.pos + 1, ..self }
        } else {
            self
        }
    }

    /// Whether the cursor is past the end of the input.
    pub open spec fn is_eof(self) -> bool {
        self.pos > self.input.len()
    }

    /// Whether nothing is left to hand out: the end of the input has been
    /// consumed and is not to be looked at again.
    pub open spec fn exhausted(self) -> bool {
        self.is_eof() && !self.reconsume
    }

    /// The machine in the state `state`.
    pub open spec fn to(self, state: State) -> Machine {
        Machine { state, ..self }
    }

    /// The machine in the state `state`, about to be given once more the
    /// character that it was given last.
    pub open spec fn again(self, state: State) -> Machine {
        Machine { state, reconsume: true, ..self }
    }

    /// The machine with `pending` as its pending token.
    pub open spec fn with_pending(self, pending: Option<TokenView>) -> Machine {
        Machine { pending, ..self }
    }

    /// The machine with `buf` as its buffer.
    pub open spec fn with_buf(self, buf: Seq<char>) -> Machine {
        Machine { buf, ..self }
    }

    /// Hands the pending tag out and goes back to `Data`.
    pub open spec fn release(self) -> (Machine, Option<TokenView>) {
        (Machine { state: State::Data, pending: None, ..self }, self.pending)
    }
}

/// One turn of the automaton: `m` is the machine after its cursor has been
/// advanced, `c` the character it is given. The result is the machine after
/// the turn and the token that the turn emits, if it emits one.
///
/// Malformed text is never refused. A `<` that opens no tag is dropped and
/// the text after it read as data. The end of the input inside a tag drops
/// the tag. Attributes are read in an end tag as in a start tag, and
/// dropped. A `>` straight after an unquoted value or after a closing quote
/// goes back to `Data` and leaves the tag pending, not handed out. In script
/// data, a `<` that opens no end tag comes out as the one character `<`, and
/// the letters of an end tag that is given up are handed out again from the
/// buffer, as they were written.
pub open spec fn transition(m: Machine, c: Option<char>) -> (Machine, Option<TokenView>) {
    match m.state {
        State::Data => match c {
            None => (m, Some(TokenView::Eof)),
            Some(ch) => if ch == '<' {
                (m.to(State::TagOpen), None)
            } else {
                (m, Some(TokenView::Char(ch)))
            },
        },
        State::TagOpen => match c {
            None => (m, Some(TokenView::Eof)),
            Some(ch) => if ch == '/' {
                (m.to(State::EndTagOpen), None)
            } else if is_alpha(ch) {
                (m.again(State::TagName).with_pending(Some(empty_start_tag())), None)
            } else {
                (m.again(State::Data), None)
            },
        },
        State::EndTagOpen => match c {
            None => (m, Some(TokenView::Eof)),
            Some(ch) => if is_alpha(ch) {
                (m.again(State::TagName).with_pending(Some(empty_end_tag())), None)
            } else {
                (m.again(State::Data), None)
            },
        },
        State::TagName => match c {
            None => (m, Some(TokenView::Eof)),
            Some(ch) => if ch == ' ' {
                (m.to(State::BeforeAttributeName), None)
            } else if ch == '/' {
                (m.to(State::SelfClosingStartTag), None)
            } else if ch == '>' {
                m.release()
            } else {
                (m.with_pending(push_tag_char(m.pending, lower(ch))), None)
            },
        },
        State::BeforeAttributeName => if c == Some('/') || c == Some('>') || c is None {
            (m.again(State::AfterAttributeName), None)
        } else {
            (m.again(State::AttributeName).with_pending(start_attribute(m.pending)), None)
        },
        State::AttributeName => match c {
            None => (m.again(State::AfterAttributeName), None),
            Some(ch) => if ch == ' ' || ch == '/' || ch == '>' {
                (m.again(State::AfterAttributeName), None)
            } else if ch == '=' {
                (m.to(State::BeforeAttributeValue), None)
            } else {
                (m.with_pending(push_attribute_char(m.pending, lower(ch), true)), None)
            },
        },
        State::AfterAttributeName => match c {
            None => (m, Some(TokenView::Eof)),
            Some(ch) => if ch == ' ' {
                (m, None)
            } else if ch == '/' {
                (m.to(State::SelfClosingStartTag), None)
            } else if ch == '=' {
                (m.to(State::BeforeAttributeValue), None)
            } else if ch == '>' {
                m.release()
            } else {
                (m.again(State::AttributeName).with_pending(start_attribute(m.pending)), None)
            },
        },
        State::BeforeAttributeValue => if c == Some(' ') {
            (m, None)
        } else if c == Some('"') {
            (m.to(State::AttributeValueDoubleQuoted), None)
        } else if c == Some('\'') {
            (m.to(State::AttributeValueSingleQuoted), None)
        } else {
            (m.again(State::AttributeValueUnquoted), None)
        },
        State::AttributeValueDoubleQuoted => match c {
            None => (m, Some(TokenView::Eof)),
            Some(ch) => if ch == '"' {
                (m.to(State::AfterAttributeValueQuoted), None)
            } else {
                (m.with_pending(push_attribute_char(m.pending, ch, false)), None)
            },
        },
        State::AttributeValueSingleQuoted => match c {
            None => (m, Some(TokenView::Eof)),
            Some(ch) => if ch == '\'' {
                (m.to(State::AfterAttributeValueQuoted), None)
            } else {
                (m.with_pending(push_attribute_char(m.pending, ch, false)), None)
            },
        },
        State::AttributeValueUnquoted => match c {
            None => (m, Some(TokenView::Eof)),
            Some(ch) => if ch == ' ' {
                (m.to(State::BeforeAttributeName), None)
            } else if ch == '>' {
                (m.to(State::Data), None)
            } else {
                (m.with_pending(push_attribute_char(m.pending, ch, false)), None)
            },
        },
        State::AfterAttributeValueQuoted => match c {
            None => (m, Some(TokenView::Eof)),
            Some(ch) => if ch == ' ' {
                (m.to(State::BeforeAttributeName), None)
            } else if ch == '/' {
                (m.to(State::SelfClosingStartTag), None)
            } else if ch == '>' {
                (m.to(State::Data), None)
            } else {
                (m.again(State::BeforeAttributeValue), None)
            },
        },
        State::SelfClosingStartTag => match c {
            None => (m, Some(TokenView::Eof)),
            Some(ch) => if ch == '>' {
                m.with_pending(self_closed(m.pending)).release()
            } else {
                (m, None)
            },
        },
        State::ScriptData => match c {
            None => (m, Some(TokenView::Eof)),
            Some(ch) => if ch == '<' {
                (m.to(State::ScriptDataLessThanSign), None)
            } else {
                (m, Some(TokenView::Char(ch)))
            },
        },
        State::ScriptDataLessThanSign => if c == Some('/') {
            (m.to(State::ScriptDataEndTagOpen).with_buf(Seq::empty()), None)
        } else {
            (m.again(State::ScriptData), Some(TokenView::Char('<')))
        },
        State::ScriptDataEndTagOpen => if c is Some && is_alpha(c->0) {
            (m.again(State::ScriptDataEndTagName).with_pending(Some(empty_end_tag())), None)
        } else {
            (m.again(State::ScriptData), Some(TokenView::Char('<')))
        },
        State::ScriptDataEndTagName => match c {
            None => (m.to(State::TemporaryBuffer).with_buf(end_tag_opener() + m.buf), None),
            Some(ch) => if ch == '>' {
                m.release()
            } else if is_alpha(ch) {
                (
                    m.with_buf(m.buf.push(ch)).with_pending(push_tag_char(m.pending, lower(ch))),
                    None,
                )
            } else {
                (
                    m.to(State::TemporaryBuffer).with_buf((end_tag_opener() + m.buf).push(ch)),
                    None,
                )
            },
        },
        State::TemporaryBuffer => if m.buf.len() == 0 {
            (m.again(State::ScriptData), None)
        } else {
            (
                Machine { reconsume: true, buf: m.buf.drop_first(), ..m },
                Some(TokenView::Char(m.buf[0])),
            )
        },
    }
}

/// One turn of the automaton, its character taken from the input.
pub open spec fn step(m: Machine) -> (Machine, Option<TokenView>) {
    transition(m.advance(), m.current())
}

/// How many more turns a state may take on the character `c` without the
/// cursor moving.
pub open spec fn rank(state: State, c: Option<char>) -> nat {
    match state {
        State::Data
        | State::TagName
        | State::AttributeValueDoubleQuoted
        | State::AttributeValueSingleQuoted
        | State::AttributeValueUnquoted
        | State::SelfClosingStartTag
        | State::ScriptData => 1,
        State::TagOpen
        | State::EndTagOpen
        | State::BeforeAttributeValue
        | State::ScriptDataLessThanSign
        | State::TemporaryBuffer => 2,
        State::BeforeAttributeName
        | State::AfterAttributeValueQuoted
        | State::ScriptDataEndTagName => 3,
        State::ScriptDataEndTagOpen => 4,
        State::AttributeName => if c is None || c == Some(' ') || c == Some('/') || c == Some(
            '>',
        ) {
            2
        } else {
            1
        },
        State::AfterAttributeName => if c is None || c == Some(' ') || c == Some('/') || c
            == Some('=') || c == Some('>') {
            1
        } else {
            2
        },
    }
}

/// A bound on the number of turns that `m` can still take: five for each
/// character left to consume, the end of the input counted as one, and the
/// rank of the state while the cursor stands still.
pub open spec fn potential(m: Machine) -> nat {
    if m.pos <= m.input.len() {
        let left = (m.input.len() + 1 - m.pos) as nat;
        if m.reconsume {
            5 * left + rank(m.state, m.current())
        } else {
            5 * left
        }
    } else {
        rank(m.state, m.current())
    }
}

/// Every turn that emits nothing brings the machine closer to its end.
pub proof fn lemma_step_decreases(m: Machine)
    requires
        step(m).1 is None,
    ensures
        potential(step(m).0) < potential(m),
{
}

/// The automaton turned until a token comes out: the machine at that point,
/// and the token.
pub open spec fn run(m: Machine) -> (Machine, TokenView)
    decreases potential(m),
{
    let (next, token) = step(m);
    match token {
        Some(t) => (next, t),
        None => {
            proof {
                lemma_step_decreases(m);
            }
            run(next)
        },
    }
}

/// A turn that emits a token leaves the machine exhausted, or closer to its
/// end, or as close with less in its buffer.
pub proof fn lemma_emitting_step_decreases(m: Machine)
    requires
        step(m).1 is Some,
    ensures
        ({
            let n = step(m).0;
            ||| n.exhausted()
            ||| potential(n) < potential(m)
            ||| potential(n) == potential(m) && n.buf.len() < m.buf.len()
        }),
{
}

/// Handing out a token leaves the machine exhausted, or closer to its end, or
/// as close with less in its buffer.
pub proof fn lemma_run_decreases(m: Machine)
    ensures
        ({
            let n = run(m).0;
            ||| n.exhausted()
            ||| potential(n) < potential(m)
            ||| potential(n) == potential(m) && n.buf.len() < m.buf.len()
        }),
    decreases potential(m),
{
    if step(m).1 is Some {
        lemma_emitting_step_decreases(m);
    } else {
        lemma_step_decreases(m);
        lemma_run_decreases(step(m).0);
    }
}

/// Any turn of a machine that is not exhausted leaves it with fewer tokens
/// to hand out at most, or with as many and less in its buffer.
pub proof fn lemma_turn_decreases(m: Machine)
    requires
        !m.exhausted(),
    ensures
        ({
            let n = step(m).0;
            ||| pulls_left(n) < pulls_left(m)
            ||| pulls_left(n) == pulls_left(m) && n.buf.len() < m.buf.len()
        }),
{
    if step(m).1 is Some {
        lemma_emitting_step_decreases(m);
    } else {
        lemma_step_decreases(m);
    }
}

/// A bound on the number of tokens that `m` can still hand out, but for
/// those that come out of its buffer.
pub open spec fn pulls_left(m: Machine) -> nat {
    if m.exhausted() {
        0
    } else {
        potential(m) + 1
    }
}

/// All the tokens that `m` hands out until it is exhausted, in order.
pub open spec fn tokens(m: Machine) -> Seq<TokenView>
    decreases pulls_left(m), m.buf.len(),
{
    if m.exhausted() {
        Seq::empty()
    } else {
        let (next, token) = run(m);
        proof {
            lemma_run_decreases(m);
        }
        seq![token] + tokens(next)
    }
}

/// One request for a token: nothing once the machine is exhausted, the next
/// token otherwise.
pub open spec fn pull(m: Machine) -> (Machine, Option<TokenView>) {
    if m.exhausted() {
        (m, None)
    } else {
        (run(m).0, Some(run(m).1))
    }
}


/// Whether `s` holds no ASCII upper-case letter.
pub open spec fn is_lowercase(s: Seq<char>) -> bool {
    forall|i: int| 0 <= i < s.len() ==> !is_upper(#[trigger] s[i])
}

/// Whether the tag name of `t`, and the name of each of its attributes, holds
/// no ASCII upper-case letter. Character and end-of-input tokens have no name.
pub open spec fn names_lowercase(t: TokenView) -> bool {
    match t {
        TokenView::StartTag { tag, self_closing, attributes } => {
            &&& is_lowercase(tag)
            &&& forall|i: int|
                0 <= i < attributes.len() ==> is_lowercase((#[trigger] attributes[i]).name)
        },
        TokenView::EndTag { tag } => is_lowercase(tag),
        _ => true,
    }
}

/// The states in which a tag is under construction.
pub open spec fn builds_tag(state: State) -> bool {
    match state {
        State::TagName
        | State::BeforeAttributeName
        | State::AttributeName
        | State::AfterAttributeName
        | State::BeforeAttributeValue
        | State::AttributeValueDoubleQuoted
        | State::AttributeValueSingleQuoted
        | State::AttributeValueUnquoted
        | State::AfterAttributeValueQuoted
        | State::SelfClosingStartTag
        | State::ScriptDataEndTagName => true,
        _ => false,
    }
}

/// The states in which characters go to the last attribute of the tag.
pub open spec fn fills_attribute(state: State) -> bool {
    match state {
        State::AttributeName
        | State::BeforeAttributeValue
        | State::AttributeValueDoubleQuoted
        | State::AttributeValueSingleQuoted
        | State::AttributeValueUnquoted
        | State::AfterAttributeValueQuoted => true,
        _ => false,
    }
}

/// Whether `p` is a start tag without any attribute.
pub open spec fn lacks_attribute(p: Option<TokenView>) -> bool {
    p matches Some(TokenView::StartTag { attributes, .. }) && attributes.len() == 0
}

/// What holds of every machine that a tokenizer can be in.
///
/// The cursor stays within one past the input. The pending token is a tag
/// whose names are in lower case; it exists wherever a tag is being built, and
/// has an attribute wherever characters go to one. `AfterAttributeName` is
/// entered without an attribute only when a `/`, a `>` or the end of the input
/// comes next.
pub open spec fn well_formed(m: Machine) -> bool {
    &&& m.pos <= m.input.len() + 1
    &&& m.reconsume ==> m.pos >= 1
    &&& m.pending matches Some(t) ==> (t is StartTag || t is EndTag) && names_lowercase(t)
    &&& builds_tag(m.state) ==> m.pending is Some
    &&& fills_attribute(m.state) ==> !lacks_attribute(m.pending)
    &&& m.state == State::AfterAttributeName && lacks_attribute(m.pending) ==> {
        ||| m.current() is None
        ||| m.current() == Some('/')
        ||| m.current() == Some('>')
    }
}

/// Whether the turn that `m` takes next asks nothing impossible of the
/// pending token: it hands out a tag only if there is one, and appends to a
/// tag name or to an attribute only if there is one to append to.
pub open spec fn turn_is_sound(m: Machine) -> bool {
    let c = m.current();
    match m.state {
        State::TagName | State::ScriptDataEndTagName => m.pending is Some,
        State::AfterAttributeName => c == Some('>') ==> m.pending is Some,
        State::SelfClosingStartTag => c == Some('>') ==> m.pending is Some,
        State::AttributeName
        | State::AttributeValueDoubleQuoted
        | State::AttributeValueSingleQuoted
        | State::AttributeValueUnquoted => !lacks_attribute(m.pending),
        _ => true,
    }
}

/// A machine that has not yet looked at its input is well formed.
pub proof fn lemma_start_well_formed(input: Seq<char>)
    ensures
        well_formed(Machine::start(input)),
{
}

/// A turn of the automaton keeps a well-formed machine well formed, asks
/// nothing impossible of the pending token, leaves the input alone, moves
/// the cursor forward by one character or not at all, and emits only tokens
/// whose names are in lower case.
pub proof fn lemma_step_well_formed(m: Machine)
    requires
        well_formed(m),
    ensures
        turn_is_sound(m),
        well_formed(step(m).0),
        step(m).0.input == m.input,
        m.pos <= step(m).0.pos <= m.pos + 1,
        step(m).1 matches Some(t) ==> names_lowercase(t),
{
}


/// A turn of a well-formed machine emits the end-of-input token exactly when
/// it leaves the machine exhausted.
pub proof fn lemma_step_eof(m: Machine)
    requires
        well_formed(m),
        step(m).1 is Some,
    ensures
        step(m).1 == Some(TokenView::Eof) <==> step(m).0.exhausted(),
{
}

/// Handing out a token keeps a well-formed machine well formed, leaves the
/// input alone and never moves the cursor back. The token has its names in
/// lower case, and it is the end-of-input token exactly when the machine is
/// exhausted afterwards.
pub proof fn lemma_run_well_formed(m: Machine)
    requires
        well_formed(m),
    ensures
        well_formed(run(m).0),
        run(m).0.input == m.input,
        run(m).0.pos >= m.pos,
        names_lowercase(run(m).1),
        run(m).1 is Eof <==> run(m).0.exhausted(),
    decreases potential(m),
{
    lemma_step_well_formed(m);
    if step(m).1 is Some {
        lemma_step_eof(m);
    } else {
        lemma_step_decreases(m);
        lemma_run_well_formed(step(m).0);
    }
}

/// The tokens of a document end with the end-of-input token, which occurs
/// nowhere else among them, and every tag among them has its names in lower
/// case: whatever the text, taking it apart comes to an end.
pub proof fn lemma_tokens_end_with_eof(m: Machine)
    requires
        well_formed(m),
        !m.exhausted(),
    ensures
        tokens(m).len() > 0,
        tokens(m).last() is Eof,
        forall|i: int| 0 <= i < tokens(m).len() - 1 ==> !((#[trigger] tokens(m)[i]) is Eof),
        forall|i: int| 0 <= i < tokens(m).len() ==> names_lowercase(#[trigger] tokens(m)[i]),
    decreases pulls_left(m), m.buf.len(),
{
    let (next, token) = run(m);
    lemma_run_well_formed(m);
    lemma_run_decreases(m);
    if next.exhausted() {
        assert(tokens(next) =~= Seq::<TokenView>::empty());
        assert(tokens(m) =~= seq![token]);
    } else {
        lemma_tokens_end_with_eof(next);
        let rest = tokens(next);
        assert(tokens(m) =~= seq![token] + rest);
        assert forall|i: int| 0 <= i < tokens(m).len() - 1 implies !((#[trigger] tokens(m)[i])
            is Eof) by {
            if i > 0 {
                assert(tokens(m)[i] == rest[i - 1]);
            }
        }
        assert forall|i: int| 0 <= i < tokens(m).len() implies names_lowercase(
            #[trigger] tokens(m)[i],
        ) by {
            if i > 0 {
                assert(tokens(m)[i] == rest[i - 1]);
            }
        }
    }
}

} // verus!
