//! Case folding: what the tokens of a document owe to the case of its ASCII
//! letters.
//!
//! Two documents that differ in nothing but the case of ASCII letters have
//! the same tokens up to that case; since the names of tags and attributes
//! come out in lower case, they come out the same. Where the tokens of a
//! document hold no upper-case letter at all, the document in lower case has
//! those very tokens.

use vstd::prelude::*;
use crate::renderer::html::attribute::AttributeView;
use crate::renderer::html::automaton::{
    is_lowercase, lemma_run_decreases, lemma_start_well_formed, lemma_step_decreases,
    lemma_tokens_end_with_eof, names_lowercase, potential, pulls_left, run, step, tokens, Machine,
    TokenView,
};
use crate::text::{is_upper, lower};

verus! {

/// Whether `s` and `t` differ at most in the case of ASCII letters.
pub open spec fn alike(s: Seq<char>, t: Seq<char>) -> bool {
    &&& s.len() == t.len()
    &&& forall|i: int| 0 <= i < s.len() ==> lower(#[trigger] s[i]) == lower(t[i])
}

/// Whether two attributes differ at most in the case of ASCII letters.
pub open spec fn attributes_alike(a: AttributeView, b: AttributeView) -> bool {
    alike(a.name, b.name) && alike(a.value, b.value)
}

/// Whether two tokens differ at most in the case of ASCII letters.
pub open spec fn tokens_alike(t: TokenView, u: TokenView) -> bool {
    match (t, u) {
        (
            TokenView::StartTag { tag: tag_t, self_closing: closing_t, attributes: attributes_t },
            TokenView::StartTag { tag: tag_u, self_closing: closing_u, attributes: attributes_u },
        ) => {
            &&& alike(tag_t, tag_u)
            &&& closing_t == closing_u
            &&& attributes_t.len() == attributes_u.len()
            &&& forall|i: int|
                0 <= i < attributes_t.len() ==> attributes_alike(
                    #[trigger] attributes_t[i],
                    attributes_u[i],
                )
        },
        (TokenView::EndTag { tag: tag_t }, TokenView::EndTag { tag: tag_u }) => alike(tag_t, tag_u),
        (TokenView::Char(c), TokenView::Char(d)) => lower(c) == lower(d),
        (TokenView::Eof, TokenView::Eof) => true,
        _ => false,
    }
}

/// Whether two tokens that may be absent are both absent, or alike.
pub open spec fn options_alike(t: Option<TokenView>, u: Option<TokenView>) -> bool {
    match (t, u) {
        (Some(t), Some(u)) => tokens_alike(t, u),
        (None, None) => true,
        _ => false,
    }
}

/// Whether two lists of tokens are alike token by token.
pub open spec fn sequences_alike(ts: Seq<TokenView>, us: Seq<TokenView>) -> bool {
    &&& ts.len() == us.len()
    &&& forall|i: int| 0 <= i < ts.len() ==> tokens_alike(#[trigger] ts[i], us[i])
}

/// Whether two machines are in the same state at the same place, over texts
/// and with contents that differ at most in the case of ASCII letters.
pub open spec fn machines_alike(m: Machine, n: Machine) -> bool {
    &&& m.state == n.state
    &&& m.pos == n.pos
    &&& m.reconsume == n.reconsume
    &&& options_alike(m.pending, n.pending)
    &&& alike(m.input, n.input)
    &&& alike(m.buf, n.buf)
}

/// Whether `a` holds no ASCII upper-case letter.
pub open spec fn attribute_is_plain(a: AttributeView) -> bool {
    is_lowercase(a.name) && is_lowercase(a.value)
}

/// Whether `t` holds no ASCII upper-case letter: not in a name, not in a
/// value, not as a character.
pub open spec fn token_is_plain(t: TokenView) -> bool {
    match t {
        TokenView::StartTag { tag, self_closing, attributes } => {
            &&& is_lowercase(tag)
            &&& forall|i: int|
                0 <= i < attributes.len() ==> attribute_is_plain(#[trigger] attributes[i])
        },
        TokenView::EndTag { tag } => is_lowercase(tag),
        TokenView::Char(c) => !is_upper(c),
        TokenView::Eof => true,
    }
}

/// Whether none of `ts` holds an ASCII upper-case letter.
pub open spec fn all_plain(ts: Seq<TokenView>) -> bool {
    forall|i: int| 0 <= i < ts.len() ==> token_is_plain(#[trigger] ts[i])
}

/// Whether `m` holds no ASCII upper-case letter: not in its text, not in its
/// buffer, not in its pending token.
pub open spec fn machine_is_plain(m: Machine) -> bool {
    &&& is_lowercase(m.input)
    &&& is_lowercase(m.buf)
    &&& m.pending matches Some(t) ==> token_is_plain(t)
}

/// `s` with its ASCII upper-case letters in lower case.
pub open spec fn lowered(s: Seq<char>) -> Seq<char> {
    s.map_values(|c: char| lower(c))
}

/// Folding to lower case is idempotent, and characters with the same lower
/// case are equal or two forms of one letter.
pub proof fn lemma_lower(c: char, d: char)
    ensures
        lower(lower(c)) == lower(c),
        !is_upper(lower(c)),
        !is_upper(c) ==> lower(c) == c,
        lower(c) == lower(d) && !is_upper(c) && !is_upper(d) ==> c == d,
{
}

/// A text and its lower-case form are alike, and the latter holds no
/// upper-case letter.
pub proof fn lemma_lowered(s: Seq<char>)
    ensures
        alike(lowered(s), s),
        is_lowercase(lowered(s)),
        is_lowercase(s) ==> lowered(s) == s,
{
    assert forall|i: int| 0 <= i < s.len() implies lower(#[trigger] lowered(s)[i]) == lower(
        s[i],
    ) by {
        lemma_lower(s[i], s[i]);
    }
    assert forall|i: int| 0 <= i < s.len() implies !is_upper(#[trigger] lowered(s)[i]) by {
        lemma_lower(s[i], s[i]);
    }
    if is_lowercase(s) {
        assert(lowered(s) =~= s);
    }
}

/// Texts that are alike and hold no upper-case letter are equal.
pub proof fn lemma_alike_plain(s: Seq<char>, t: Seq<char>)
    requires
        alike(s, t),
        is_lowercase(s),
        is_lowercase(t),
    ensures
        s == t,
{
    assert forall|i: int| 0 <= i < s.len() implies s[i] == t[i] by {
        lemma_lower(s[i], t[i]);
    }
    assert(s =~= t);
}

/// Tokens that are alike and hold no upper-case letter are equal.
pub proof fn lemma_tokens_alike_plain(t: TokenView, u: TokenView)
    requires
        tokens_alike(t, u),
        token_is_plain(t),
        token_is_plain(u),
    ensures
        t == u,
{
    match (t, u) {
        (
            TokenView::StartTag { tag: tag_t, self_closing: closing_t, attributes: attributes_t },
            TokenView::StartTag { tag: tag_u, self_closing: closing_u, attributes: attributes_u },
        ) => {
            lemma_alike_plain(tag_t, tag_u);
            assert forall|i: int| 0 <= i < attributes_t.len() implies attributes_t[i]
                == attributes_u[i] by {
                assert(attributes_alike(attributes_t[i], attributes_u[i]));
                assert(attribute_is_plain(attributes_t[i]));
                assert(attribute_is_plain(attributes_u[i]));
                lemma_alike_plain(attributes_t[i].name, attributes_u[i].name);
                lemma_alike_plain(attributes_t[i].value, attributes_u[i].value);
            }
            assert(attributes_t =~= attributes_u);
        },
        (TokenView::EndTag { tag: tag_t }, TokenView::EndTag { tag: tag_u }) => {
            lemma_alike_plain(tag_t, tag_u);
        },
        (TokenView::Char(c), TokenView::Char(d)) => {
            lemma_lower(c, d);
        },
        _ => {},
    }
}

/// Machines that are alike take like turns: they are alike afterwards, and
/// they emit nothing both, or tokens that are alike.
pub proof fn lemma_step_alike(m: Machine, n: Machine)
    requires
        machines_alike(m, n),
    ensures
        machines_alike(step(m).0, step(n).0),
        options_alike(step(m).1, step(n).1),
{
    let c = m.current();
    let d = n.current();
    assert(c is Some <==> d is Some);
    if c is Some {
        lemma_lower(c->0, d->0);
        assert(lower(c->0) == lower(d->0));
    }
}


/// Machines that are alike hand out tokens that are alike, and are alike
/// afterwards.
pub proof fn lemma_run_alike(m: Machine, n: Machine)
    requires
        machines_alike(m, n),
    ensures
        machines_alike(run(m).0, run(n).0),
        tokens_alike(run(m).1, run(n).1),
    decreases potential(m),
{
    lemma_step_alike(m, n);
    if step(m).1 is None {
        lemma_step_decreases(m);
        lemma_run_alike(step(m).0, step(n).0);
    }
}

/// Machines that are alike hand out lists of tokens that are alike.
pub proof fn lemma_tokens_alike(m: Machine, n: Machine)
    requires
        machines_alike(m, n),
    ensures
        sequences_alike(tokens(m), tokens(n)),
    decreases pulls_left(m), m.buf.len(),
{
    if m.exhausted() {
        assert(n.exhausted());
    } else {
        assert(!n.exhausted());
        lemma_run_alike(m, n);
        lemma_run_decreases(m);
        lemma_tokens_alike(run(m).0, run(n).0);
        let ts = tokens(run(m).0);
        let us = tokens(run(n).0);
        assert(tokens(m) =~= seq![run(m).1] + ts);
        assert(tokens(n) =~= seq![run(n).1] + us);
        assert forall|i: int| 0 <= i < tokens(m).len() implies tokens_alike(
            #[trigger] tokens(m)[i],
            tokens(n)[i],
        ) by {
            if i > 0 {
                assert(tokens(m)[i] == ts[i - 1]);
                assert(tokens(n)[i] == us[i - 1]);
            }
        }
    }
}

/// A turn of a machine that holds no upper-case letter leaves it so, and
/// emits no token that holds one.
pub proof fn lemma_step_plain(m: Machine)
    requires
        machine_is_plain(m),
    ensures
        machine_is_plain(step(m).0),
        step(m).1 matches Some(t) ==> token_is_plain(t),
{
    let c = m.current();
    if c is Some {
        lemma_lower(c->0, c->0);
    }
}

/// A machine that holds no upper-case letter hands out no token that holds
/// one, and holds none afterwards.
pub proof fn lemma_run_plain(m: Machine)
    requires
        machine_is_plain(m),
    ensures
        machine_is_plain(run(m).0),
        token_is_plain(run(m).1),
    decreases potential(m),
{
    lemma_step_plain(m);
    if step(m).1 is None {
        lemma_step_decreases(m);
        lemma_run_plain(step(m).0);
    }
}

/// None of the tokens of a machine that holds no upper-case letter holds
/// one.
pub proof fn lemma_tokens_plain(m: Machine)
    requires
        machine_is_plain(m),
    ensures
        all_plain(tokens(m)),
    decreases pulls_left(m), m.buf.len(),
{
    if !m.exhausted() {
        lemma_run_plain(m);
        lemma_run_decreases(m);
        lemma_tokens_plain(run(m).0);
        let ts = tokens(run(m).0);
        assert(tokens(m) =~= seq![run(m).1] + ts);
        assert forall|i: int| 0 <= i < tokens(m).len() implies token_is_plain(
            #[trigger] tokens(m)[i],
        ) by {
            if i > 0 {
                assert(tokens(m)[i] == ts[i - 1]);
            }
        }
    }
}

/// Lists of tokens that are alike and hold no upper-case letter are equal.
pub proof fn lemma_sequences_alike_plain(ts: Seq<TokenView>, us: Seq<TokenView>)
    requires
        sequences_alike(ts, us),
        all_plain(ts),
        all_plain(us),
    ensures
        ts == us,
{
    assert forall|i: int| 0 <= i < ts.len() implies ts[i] == us[i] by {
        lemma_tokens_alike_plain(ts[i], us[i]);
    }
    assert(ts =~= us);
}

/// The names that `t` carries: that of the tag, then those of its
/// attributes in order. Character and end-of-input tokens carry none.
pub open spec fn names_of(t: TokenView) -> Seq<Seq<char>> {
    match t {
        TokenView::StartTag { tag, self_closing, attributes } => seq![tag]
            + attributes.map_values(|a: AttributeView| a.name),
        TokenView::EndTag { tag } => seq![tag],
        _ => Seq::empty(),
    }
}

/// Tokens that are alike and have their names in lower case carry the same
/// names.
pub proof fn lemma_alike_names(t: TokenView, u: TokenView)
    requires
        tokens_alike(t, u),
        names_lowercase(t),
        names_lowercase(u),
    ensures
        names_of(t) == names_of(u),
{
    match (t, u) {
        (
            TokenView::StartTag { tag: tag_t, self_closing: closing_t, attributes: attributes_t },
            TokenView::StartTag { tag: tag_u, self_closing: closing_u, attributes: attributes_u },
        ) => {
            lemma_alike_plain(tag_t, tag_u);
            assert forall|i: int| 0 <= i < attributes_t.len() implies attributes_t[i].name
                == attributes_u[i].name by {
                assert(attributes_alike(attributes_t[i], attributes_u[i]));
                lemma_alike_plain(attributes_t[i].name, attributes_u[i].name);
            }
            assert(names_of(t) =~= names_of(u));
        },
        (TokenView::EndTag { tag: tag_t }, TokenView::EndTag { tag: tag_u }) => {
            lemma_alike_plain(tag_t, tag_u);
        },
        _ => {},
    }
}

/// The tokens of a document and those of the document in lower case differ
/// at most in the case of ASCII letters, and not at all in the names of tags
/// and attributes: whatever the case of a name in the document, it comes out
/// as it is written in lower case. The tokens of the document in lower case
/// hold no upper-case letter.
pub proof fn lemma_tokens_of_lowered(input: Seq<char>)
    ensures
        sequences_alike(tokens(Machine::start(lowered(input))), tokens(Machine::start(input))),
        forall|i: int|
            0 <= i < tokens(Machine::start(input)).len() ==> names_of(
                #[trigger] tokens(Machine::start(input))[i],
            ) == names_of(tokens(Machine::start(lowered(input)))[i]),
        all_plain(tokens(Machine::start(lowered(input)))),
{
    let m = Machine::start(input);
    let n = Machine::start(lowered(input));
    lemma_lowered(input);
    lemma_tokens_alike(n, m);
    lemma_tokens_plain(n);
    lemma_start_well_formed(input);
    lemma_start_well_formed(lowered(input));
    lemma_tokens_end_with_eof(m);
    lemma_tokens_end_with_eof(n);
    assert forall|i: int| 0 <= i < tokens(m).len() implies names_of(#[trigger] tokens(m)[i])
        == names_of(tokens(n)[i]) by {
        assert(tokens_alike(tokens(n)[i], tokens(m)[i]));
        lemma_alike_names(tokens(n)[i], tokens(m)[i]);
    }
}

/// Where the tokens of a document hold no upper-case letter, so that any
/// such letter of the document stood in the name of a tag or of an
/// attribute and came out in lower case, the document in lower case has the
/// very same tokens.
pub proof fn lemma_retokenizing_lowered(input: Seq<char>)
    requires
        all_plain(tokens(Machine::start(input))),
    ensures
        tokens(Machine::start(lowered(input))) == tokens(Machine::start(input)),
{
    lemma_tokens_of_lowered(input);
    lemma_sequences_alike_plain(
        tokens(Machine::start(lowered(input))),
        tokens(Machine::start(input)),
    );
}

/// Folding a document to lower case twice gives what folding it once
/// gives.
pub proof fn lemma_lowered_idempotent(input: Seq<char>)
    ensures
        lowered(lowered(input)) == lowered(input),
{
    lemma_lowered(input);
    lemma_lowered(lowered(input));
}

} // verus!
