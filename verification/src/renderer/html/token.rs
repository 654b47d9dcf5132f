//! Tokens, and the tokenizer that cuts a document into them.

use vstd::prelude::*;
use crate::renderer::html::attribute::{Attribute, AttributeView};
use crate::renderer::html::automaton::{
    attribute_with_char, empty_attribute, empty_end_tag, empty_start_tag, end_tag_opener,
    lemma_start_well_formed, lemma_step_decreases, lemma_step_well_formed, names_lowercase,
    potential, pull, push_attribute_char, push_tag_char, run, self_closed, start_attribute, step,
    well_formed, Machine, TokenView,
};
use crate::text::{
    chars_of, is_ascii_alphabetic, is_ascii_uppercase, string_of, to_ascii_lowercase,
};

verus! {

/// The states of the tokenizer's automaton.
#[derive(Debug, Clone, Copy, PartialEq, Eq, Structural)]
pub enum State {
    Data,
    TagOpen,
    EndTagOpen,
    TagName,
    BeforeAttributeName,
    AttributeName,
    AfterAttributeName,
    BeforeAttributeValue,
    AttributeValueDoubleQuoted,
    AttributeValueSingleQuoted,
    AttributeValueUnquoted,
    AfterAttributeValueQuoted,
    SelfClosingStartTag,
    ScriptData,
    ScriptDataLessThanSign,
    ScriptDataEndTagOpen,
    ScriptDataEndTagName,
    TemporaryBuffer,
}

/// What the tokenizer hands out: a tag, a single character of text, or the
/// end of the input.
#[derive(Debug, Clone, PartialEq, Eq)]
pub enum HtmlToken {
    StartTag { tag: String, self_closing: bool, attributes: Vec<Attribute> },
    EndTag { tag: String },
    Char(char),
    Eof,
}

/// The views of a list of attributes, in the same order.
pub open spec fn attribute_views(attributes: Seq<Attribute>) -> Seq<AttributeView> {
    attributes.map_values(|a: Attribute| a@)
}

impl View for HtmlToken {
    type V = TokenView;

    open spec fn view(&self) -> TokenView {
        match *self {
            HtmlToken::StartTag { tag, self_closing, attributes } => TokenView::StartTag {
                tag: tag@,
                self_closing,
                attributes: attribute_views(attributes@),
            },
            HtmlToken::EndTag { tag } => TokenView::EndTag { tag: tag@ },
            HtmlToken::Char(c) => TokenView::Char(c),
            HtmlToken::Eof => TokenView::Eof,
        }
    }
}

/// The view of a token that may be absent.
pub open spec fn option_view(t: Option<HtmlToken>) -> Option<TokenView> {
    match t {
        Some(t) => Some(t@),
        None => None,
    }
}

/// Cuts a document into tokens, one per call of [`HtmlTokenizer::next`].
#[derive(Debug, Clone, PartialEq, Eq)]
pub struct HtmlTokenizer {
    state: State,
    pos: usize,
    reconsume: bool,
    latest_token: Option<HtmlToken>,
    input: Vec<char>,
    buf: String,
}

impl View for HtmlTokenizer {
    type V = Machine;

    closed spec fn view(&self) -> Machine {
        Machine {
            state: self.state,
            pos: self.pos as nat,
            reconsume: self.reconsume,
            pending: option_view(self.latest_token),
            input: self.input@,
            buf: self.buf@,
        }
    }
}

impl HtmlTokenizer {
    /// Whether the tokenizer is in a state that its own operations can have
    /// brought it to.
    pub closed spec fn wf(&self) -> bool {
        &&& well_formed(self@)
        &&& self.input.len() < usize::MAX
    }

    /// A tokenizer that its own operations have brought about is a
    /// well-formed machine.
    pub proof fn lemma_wf(&self)
        requires
            self.wf(),
        ensures
            well_formed(self@),
    {
    }

    /// Whether the tag under construction is a start tag.
    spec fn pending_start_tag(&self) -> bool {
        self.latest_token matches Some(t) && t is StartTag
    }

    /// Whether a tag is under construction.
    spec fn pending_tag(&self) -> bool {
        self.latest_token matches Some(t) && (t is StartTag || t is EndTag)
    }

    /// A tokenizer at the start of `html`, in the `Data` state. The text
    /// must leave room for a cursor one past its end.
    pub fn new(html: String) -> (t: Self)
        requires
            html@.len() < usize::MAX,
        ensures
            t.wf(),
            t@ == Machine::start(html@),
    {
        proof {
            lemma_start_well_formed(html@);
        }
        Self {
            state: State::Data,
            pos: 0,
            reconsume: false,
            latest_token: None,
            input: chars_of(html.as_str()),
            buf: String::new(),
        }
    }

    /// Puts the automaton into the `ScriptData` state, in which `<` opens no
    /// tag but the end tag that closes the script. Whoever reads the tokens
    /// calls this after the start tag of a script element.
    pub fn switch_to_script_data(&mut self)
        requires
            old(self).wf(),
        ensures
            final(self).wf(),
            final(self)@ == old(self)@.to(State::ScriptData),
    {
        self.state = State::ScriptData;
    }

    /// Whether the cursor is past the end of the input.
    fn is_eof(&self) -> (b: bool)
        ensures
            b == self@.is_eof(),
    {
        self.pos > self.input.len()
    }

    /// Hands out the character at the cursor and moves the cursor past it;
    /// at the end of the input there is no character, and the cursor comes
    /// to stand one past the length, where it stays.
    fn consume_next_input(&mut self) -> (c: Option<char>)
        requires
            old(self).input.len() < usize::MAX,
        ensures
            c == old(self)@.at(old(self)@.pos as int),
            final(self)@ == (Machine {
                pos: if old(self)@.pos <= old(self)@.input.len() {
                    old(self)@.pos + 1
                } else {
                    old(self)@.pos
                },
                ..old(self)@
            }),
    {
        if self.pos < self.input.len() {
            let c = self.input[self.pos];
            self.pos += 1;
            Some(c)
        } else {
            if self.pos == self.input.len() {
                self.pos += 1;
            }
            None
        }
    }

    /// Hands out the character before the cursor once more, if there is
    /// one, and clears the flag that asks for it.
    fn reconsume_input(&mut self) -> (c: Option<char>)
        ensures
            c == old(self)@.at(old(self)@.pos - 1),
            final(self)@ == (Machine { reconsume: false, ..old(self)@ }),
    {
        self.reconsume = false;
        if self.pos >= 1 && self.pos - 1 < self.input.len() {
            Some(self.input[self.pos - 1])
        } else {
            None
        }
    }

    /// Starts an empty start tag or an empty end tag as the pending token.
    fn create_tag(&mut self, start_tag_token: bool)
        ensures
            final(self)@ == old(self)@.with_pending(
                Some(
                    if start_tag_token {
                        empty_start_tag()
                    } else {
                        empty_end_tag()
                    },
                ),
            ),
    {
        if start_tag_token {
            self.latest_token = Some(
                HtmlToken::StartTag {
                    tag: String::new(),
                    self_closing: false,
                    attributes: Vec::new(),
                },
            );
            assert(attribute_views(Seq::<Attribute>::empty()) =~= Seq::<AttributeView>::empty());
        } else {
            self.latest_token = Some(HtmlToken::EndTag { tag: String::new() });
        }
    }

    /// Appends `c` to the name of the pending tag.
    fn append_tag_name(&mut self, c: char)
        requires
            old(self).pending_tag(),
        ensures
            final(self)@ == old(self)@.with_pending(push_tag_char(old(self)@.pending, c)),
    {
        match &mut self.latest_token {
            Some(HtmlToken::StartTag { tag, .. }) => tag.push(c),
            Some(HtmlToken::EndTag { tag }) => tag.push(c),
            _ => {},
        }
    }

    /// Moves the pending tag out, leaving none pending.
    fn take_latest_token(&mut self) -> (t: Option<HtmlToken>)
        requires
            old(self).latest_token is Some,
        ensures
            t is Some,
            option_view(t) == old(self)@.pending,
            final(self)@ == old(self)@.with_pending(None),
    {
        self.latest_token.take()
    }

    /// Adds an empty attribute at the end of the pending start tag's list.
    fn start_new_attribute(&mut self)
        requires
            old(self).pending_start_tag(),
        ensures
            final(self)@ == old(self)@.with_pending(start_attribute(old(self)@.pending)),
    {
        match &mut self.latest_token {
            Some(HtmlToken::StartTag { attributes, .. }) => {
                let ghost before = attributes@;
                attributes.push(Attribute::new());
                assert(attribute_views(attributes@) =~= attribute_views(before).push(
                    empty_attribute(),
                ));
            },
            _ => {},
        }
    }

    /// Appends `c` to the name or to the value of the last attribute of the
    /// pending start tag.
    fn append_attribute(&mut self, c: char, is_name: bool)
        requires
            old(self).latest_token matches Some(HtmlToken::StartTag { attributes, .. })
                && attributes.len() > 0,
        ensures
            final(self)@ == old(self)@.with_pending(
                push_attribute_char(old(self)@.pending, c, is_name),
            ),
    {
        match &mut self.latest_token {
            Some(HtmlToken::StartTag { attributes, .. }) => {
                let len = attributes.len();
                let ghost before = attributes@;
                attributes[len - 1].add_char(c, is_name);
                assert(attribute_views(attributes@) =~= attribute_views(before).update(
                    len - 1,
                    attribute_with_char(before[len - 1]@, c, is_name),
                ));
            },
            _ => {},
        }
    }

    /// Marks the pending start tag as self-closing.
    fn set_self_closing_flag(&mut self)
        requires
            old(self).pending_start_tag(),
        ensures
            final(self)@ == old(self)@.with_pending(self_closed(old(self)@.pending)),
    {
        match &mut self.latest_token {
            Some(HtmlToken::StartTag { self_closing, .. }) => *self_closing = true,
            _ => {},
        }
    }

    /// Whether the pending token is a start tag.
    fn builds_start_tag(&self) -> (b: bool)
        ensures
            b == self.pending_start_tag(),
    {
        match &self.latest_token {
            Some(HtmlToken::StartTag { .. }) => true,
            _ => false,
        }
    }

    /// The next token of the document, or `None` once the end of the input
    /// has been consumed and reported.
    ///
    /// The automaton takes one turn per character, from the state it was
    /// left in, until a turn emits a token. Text that cannot be a tag is
    /// handed out as characters; a tag that the input ends in the middle of
    /// is dropped and the end of the input reported in its place. The names
    /// of tags and attributes come out in lower case. No text makes this
    /// function fail: whenever it changes the pending tag, or hands it out,
    /// there is one.
    pub fn next(&mut self) -> (token: Option<HtmlToken>)
        requires
            old(self).wf(),
        ensures
            final(self).wf(),
            final(self)@ == pull(old(self)@).0,
            option_view(token) == pull(old(self)@).1,
            token matches Some(t) ==> names_lowercase(t@),
    {
        if self.is_eof() && !self.reconsume {
            return None;
        }
        loop
            invariant
                self.wf(),
                !old(self)@.exhausted(),
                run(self@) == run(old(self)@),
            decreases potential(self@),
        {
            let ghost before = self@;
            proof {
                lemma_step_well_formed(before);
                if step(before).1 is None {
                    lemma_step_decreases(before);
                }
            }
            let c = match self.reconsume {
                true => self.reconsume_input(),
                false => self.consume_next_input(),
            };
            match self.state {
                State::Data => {
                    match c {
                        None => {
                            return Some(HtmlToken::Eof);
                        },
                        Some(c) => {
                            if c == '<' {
                                self.state = State::TagOpen;
                                continue ;
                            }
                            return Some(HtmlToken::Char(c));
                        },
                    }
                },
                State::TagOpen => {
                    match c {
                        None => {
                            return Some(HtmlToken::Eof);
                        },
                        Some(c) => {
                            if c == '/' {
                                self.state = State::EndTagOpen;
                                continue ;
                            }
                            if is_ascii_alphabetic(c) {
                                self.reconsume = true;
                                self.state = State::TagName;
                                self.create_tag(true);
                                continue ;
                            }
                            self.reconsume = true;
                            self.state = State::Data;
                        },
                    }
                },
                State::EndTagOpen => {
                    match c {
                        None => {
                            return Some(HtmlToken::Eof);
                        },
                        Some(c) => {
                            if is_ascii_alphabetic(c) {
                                self.reconsume = true;
                                self.state = State::TagName;
                                self.create_tag(false);
                                continue ;
                            }
                            self.reconsume = true;
                            self.state = State::Data;
                        },
                    }
                },
                State::TagName => {
                    match c {
                        None => {
                            return Some(HtmlToken::Eof);
                        },
                        Some(c) => {
                            if c == ' ' {
                                self.state = State::BeforeAttributeName;
                                continue ;
                            }
                            if c == '/' {
                                self.state = State::SelfClosingStartTag;
                                continue ;
                            }
                            if c == '>' {
                                self.state = State::Data;
                                return self.take_latest_token();
                            }
                            if is_ascii_uppercase(c) {
                                self.append_tag_name(to_ascii_lowercase(c));
                                continue ;
                            }
                            self.append_tag_name(c);
                        },
                    }
                },
                State::BeforeAttributeName => {
                    if c == Some('/') || c == Some('>') || c.is_none() {
                        self.reconsume = true;
                        self.state = State::AfterAttributeName;
                        continue ;
                    }
                    self.reconsume = true;
                    self.state = State::AttributeName;
                    if self.builds_start_tag() {
                        self.start_new_attribute();
                    }
                },
                State::AttributeName => {
                    match c {
                        None => {
                            self.reconsume = true;
                            self.state = State::AfterAttributeName;
                        },
                        Some(c) => {
                            if c == ' ' || c == '/' || c == '>' {
                                self.reconsume = true;
                                self.state = State::AfterAttributeName;
                                continue ;
                            }
                            if c == '=' {
                                self.state = State::BeforeAttributeValue;
                                continue ;
                            }
                            if self.builds_start_tag() {
                                if is_ascii_uppercase(c) {
                                    self.append_attribute(to_ascii_lowercase(c), true);
                                    continue ;
                                }
                                self.append_attribute(c, true);
                            }
                        },
                    }
                },
                State::AfterAttributeName => {
                    match c {
                        None => {
                            return Some(HtmlToken::Eof);
                        },
                        Some(c) => {
                            if c == ' ' {
                                continue ;
                            }
                            if c == '/' {
                                self.state = State::SelfClosingStartTag;
                                continue ;
                            }
                            if c == '=' {
                                self.state = State::BeforeAttributeValue;
                                continue ;
                            }
                            if c == '>' {
                                self.state = State::Data;
                                return self.take_latest_token();
                            }
                            self.reconsume = true;
                            self.state = State::AttributeName;
                            if self.builds_start_tag() {
                                self.start_new_attribute();
                            }
                        },
                    }
                },
                State::BeforeAttributeValue => {
                    if c == Some(' ') {
                        continue ;
                    }
                    if c == Some('"') {
                        self.state = State::AttributeValueDoubleQuoted;
                        continue ;
                    }
                    if c == Some('\'') {
                        self.state = State::AttributeValueSingleQuoted;
                        continue ;
                    }
                    self.reconsume = true;
                    self.state = State::AttributeValueUnquoted;
                },
                State::AttributeValueDoubleQuoted => {
                    match c {
                        None => {
                            return Some(HtmlToken::Eof);
                        },
                        Some(c) => {
                            if c == '"' {
                                self.state = State::AfterAttributeValueQuoted;
                                continue ;
                            }
                            if self.builds_start_tag() {
                                self.append_attribute(c, false);
                            }
                        },
                    }
                },
                State::AttributeValueSingleQuoted => {
                    match c {
                        None => {
                            return Some(HtmlToken::Eof);
                        },
                        Some(c) => {
                            if c == '\'' {
                                self.state = State::AfterAttributeValueQuoted;
                                continue ;
                            }
                            if self.builds_start_tag() {
                                self.append_attribute(c, false);
                            }
                        },
                    }
                },
                State::AttributeValueUnquoted => {
                    match c {
                        None => {
                            return Some(HtmlToken::Eof);
                        },
                        Some(c) => {
                            if c == ' ' {
                                self.state = State::BeforeAttributeName;
                                continue ;
                            }
                            if c == '>' {
                                self.state = State::Data;
                                continue ;
                            }
                            if self.builds_start_tag() {
                                self.append_attribute(c, false);
                            }
                        },
                    }
                },
                State::AfterAttributeValueQuoted => {
                    match c {
                        None => {
                            return Some(HtmlToken::Eof);
                        },
                        Some(c) => {
                            if c == ' ' {
                                self.state = State::BeforeAttributeName;
                                continue ;
                            }
                            if c == '/' {
                                self.state = State::SelfClosingStartTag;
                                continue ;
                            }
                            if c == '>' {
                                self.state = State::Data;
                                continue ;
                            }
                            self.reconsume = true;
                            self.state = State::BeforeAttributeValue;
                        },
                    }
                },
                State::SelfClosingStartTag => {
                    match c {
                        None => {
                            return Some(HtmlToken::Eof);
                        },
                        Some(c) => {
                            if c == '>' {
                                if self.builds_start_tag() {
                                    self.set_self_closing_flag();
                                }
                                self.state = State::Data;
                                return self.take_latest_token();
                            }
                        },
                    }
                },
                State::ScriptData => {
                    match c {
                        None => {
                            return Some(HtmlToken::Eof);
                        },
                        Some(c) => {
                            if c == '<' {
                                self.state = State::ScriptDataLessThanSign;
                                continue ;
                            }
                            return Some(HtmlToken::Char(c));
                        },
                    }
                },
                State::ScriptDataLessThanSign => {
                    if c == Some('/') {
                        self.buf = String::new();
                        self.state = State::ScriptDataEndTagOpen;
                        continue ;
                    }
                    self.reconsume = true;
                    self.state = State::ScriptData;
                    return Some(HtmlToken::Char('<'));
                },
                State::ScriptDataEndTagOpen => {
                    if let Some(c) = c {
                        if is_ascii_alphabetic(c) {
                            self.reconsume = true;
                            self.state = State::ScriptDataEndTagName;
                            self.create_tag(false);
                            continue ;
                        }
                    }
                    self.reconsume = true;
                    self.state = State::ScriptData;
                    return Some(HtmlToken::Char('<'));
                },
                State::ScriptDataEndTagName => {
                    if c == Some('>') {
                        self.state = State::Data;
                        return self.take_latest_token();
                    }
                    let mut buf = String::from_str("</");
                    proof {
                        reveal_strlit("</");
                        assert(buf@ =~= end_tag_opener());
                    }
                    match c {
                        None => {
                            buf.append(self.buf.as_str());
                        },
                        Some(c) => {
                            if is_ascii_alphabetic(c) {
                                self.buf.push(c);
                                self.append_tag_name(to_ascii_lowercase(c));
                                continue ;
                            }
                            buf.append(self.buf.as_str());
                            buf.push(c);
                        },
                    }
                    self.state = State::TemporaryBuffer;
                    self.buf = buf;
                },
                State::TemporaryBuffer => {
                    self.reconsume = true;
                    if self.buf.as_str().is_empty() {
                        self.state = State::ScriptData;
                        continue ;
                    }
                    let buffered = chars_of(self.buf.as_str());
                    let c = buffered[0];
                    self.buf = string_of(&buffered, 1, buffered.len());
                    assert(self.buf@ =~= buffered@.drop_first());
                    return Some(HtmlToken::Char(c));
                },
            }
        }
    }
}

} // verus!
