//! The case of names: a document keeps its tokens when the ASCII letters of
//! its tag names and attribute names are put in lower case.

use vstd::prelude::*;
use crate::renderer::html::automaton::{
    lemma_run_decreases, lemma_step_decreases, lemma_turn_decreases, potential, pulls_left, run,
    step, tokens, Machine,
};
use crate::renderer::html::folding::{alike, lemma_lower};
use crate::renderer::html::token::State;
use crate::text::lower;

verus! {

/// The index of the character that the next turn of `m` is given, the
/// length of the input standing for its end.
pub open spec fn cursor(m: Machine) -> int {
    let i = if m.reconsume {
        m.pos - 1
    } else {
        m.pos as int
    };
    if i < m.input.len() {
        i
    } else {
        m.input.len() as int
    }
}

/// Whether the next turn of `m` appends the character that it is given to
/// the name of a tag or of an attribute.
pub open spec fn reads_name(m: Machine) -> bool {
    m.current() matches Some(c) && match m.state {
        State::TagName => c != ' ' && c != '/' && c != '>',
        State::AttributeName => c != ' ' && c != '/' && c != '>' && c != '=',
        _ => false,
    }
}

/// The indices of the characters that `m` goes on to read as part of the
/// name of a tag or of an attribute, until it is exhausted. The letters of
/// the end tag that closes a script are not among them: they are kept as
/// written, to be handed out should the tag be given up.
pub open spec fn name_positions(m: Machine) -> Set<int>
    decreases pulls_left(m), m.buf.len(),
{
    if m.exhausted() {
        Set::empty()
    } else {
        proof {
            lemma_turn_decreases(m);
        }
        let later = name_positions(step(m).0);
        if reads_name(m) {
            later.insert(cursor(m))
        } else {
            later
        }
    }
}

/// Whether the cursor of `m` lies within one past its input, and behind its
/// first character where that is asked for again.
pub open spec fn in_bounds(m: Machine) -> bool {
    m.pos <= m.input.len() + 1 && (m.reconsume ==> m.pos >= 1)
}

/// A turn keeps the cursor in bounds and never moves it back.
pub proof fn lemma_cursor_moves_on(m: Machine)
    requires
        in_bounds(m),
    ensures
        in_bounds(step(m).0),
        step(m).0.input == m.input,
        cursor(m) <= cursor(step(m).0) <= cursor(m) + 1,
{
}

/// No character behind the cursor is read as part of a name any more.
pub proof fn lemma_name_positions_ahead(m: Machine, i: int)
    requires
        in_bounds(m),
        name_positions(m).contains(i),
    ensures
        cursor(m) <= i < m.input.len(),
    decreases pulls_left(m), m.buf.len(),
{
    if !m.exhausted() {
        lemma_turn_decreases(m);
        lemma_cursor_moves_on(m);
        if name_positions(step(m).0).contains(i) {
            lemma_name_positions_ahead(step(m).0, i);
        }
    }
}

/// Whether `n` is `m` over a text that differs from that of `m` only in the
/// case of ASCII letters which `m` has behind it or goes on to read as part
/// of a name.
pub open spec fn same_but_names(m: Machine, n: Machine) -> bool {
    &&& n == (Machine { input: n.input, ..m })
    &&& alike(m.input, n.input)
    &&& in_bounds(m)
    &&& forall|i: int|
        0 <= i < m.input.len() && #[trigger] m.input[i] != n.input[i] ==> i < cursor(m)
            || name_positions(m).contains(i)
}

/// Machines that differ only in the case of names take the same turn: they
/// emit the same, and differ afterwards only in the case of names.
pub proof fn lemma_step_same(m: Machine, n: Machine)
    requires
        same_but_names(m, n),
    ensures
        same_but_names(step(m).0, step(n).0),
        step(m).1 == step(n).1,
        reads_name(m) == reads_name(n),
{
    let c = m.current();
    let d = n.current();
    let i0 = cursor(m);
    lemma_cursor_moves_on(m);
    lemma_cursor_moves_on(n);
    assert(in_bounds(n));
    assert(m.advance() == (Machine { input: m.input, ..n.advance() }));
    assert(c is Some <==> d is Some);
    if c is Some {
        assert(c->0 == m.input[i0]);
        assert(d->0 == n.input[i0]);
        assert(lower(m.input[i0]) == lower(n.input[i0]));
        lemma_lower(c->0, d->0);
        if c != d {
            assert(!m.exhausted());
            assert(name_positions(m).contains(i0));
            if !reads_name(m) {
                assert(name_positions(step(m).0).contains(i0));
                lemma_name_positions_ahead(step(m).0, i0);
                assert(step(m).0.reconsume);
            }
        }
    }
    assert(step(m).1 == step(n).1);
    assert(step(n).0 == (Machine { input: n.input, ..step(m).0 }));
    assert forall|i: int|
        0 <= i < m.input.len() && #[trigger] m.input[i] != n.input[i] implies i < cursor(
        step(m).0,
    ) || name_positions(step(m).0).contains(i) by {
        if i < cursor(m) {
        } else {
            assert(name_positions(m).contains(i));
            assert(!m.exhausted());
            if !name_positions(step(m).0).contains(i) {
                assert(reads_name(m) && i == i0);
                assert(!step(m).0.reconsume);
            }
        }
    }
}

/// Machines that differ only in the case of names hand out the same token,
/// and differ afterwards only in the case of names.
pub proof fn lemma_run_same(m: Machine, n: Machine)
    requires
        same_but_names(m, n),
    ensures
        same_but_names(run(m).0, run(n).0),
        run(m).1 == run(n).1,
    decreases potential(m),
{
    lemma_step_same(m, n);
    if step(m).1 is None {
        lemma_step_decreases(m);
        lemma_run_same(step(m).0, step(n).0);
    }
}

/// Machines that differ only in the case of names hand out the same tokens.
pub proof fn lemma_tokens_same(m: Machine, n: Machine)
    requires
        same_but_names(m, n),
    ensures
        tokens(m) == tokens(n),
    decreases pulls_left(m), m.buf.len(),
{
    assert(m.exhausted() == n.exhausted());
    if !m.exhausted() {
        lemma_run_same(m, n);
        lemma_run_decreases(m);
        lemma_tokens_same(run(m).0, run(n).0);
    }
}

/// Machines that differ only in the case of names read the same characters
/// as parts of names.
pub proof fn lemma_name_positions_same(m: Machine, n: Machine)
    requires
        same_but_names(m, n),
    ensures
        name_positions(m) == name_positions(n),
    decreases pulls_left(m), m.buf.len(),
{
    assert(m.exhausted() == n.exhausted());
    if !m.exhausted() {
        lemma_step_same(m, n);
        lemma_turn_decreases(m);
        lemma_name_positions_same(step(m).0, step(n).0);
        assert(cursor(m) == cursor(n));
    }
}

/// `s` with the ASCII upper-case letters of its tag names and attribute
/// names in lower case, and every other character as it is.
pub open spec fn names_lowered(s: Seq<char>) -> Seq<char> {
    Seq::new(
        s.len(),
        |i: int|
            if name_positions(Machine::start(s)).contains(i) {
                lower(s[i])
            } else {
                s[i]
            },
    )
}

/// Two documents that differ only in the case of ASCII letters in the names
/// of tags and attributes have the same tokens.
pub proof fn lemma_same_tokens(s: Seq<char>, t: Seq<char>)
    requires
        alike(s, t),
        forall|i: int|
            0 <= i < s.len() && #[trigger] s[i] != t[i] ==> name_positions(
                Machine::start(s),
            ).contains(i),
    ensures
        tokens(Machine::start(t)) == tokens(Machine::start(s)),
        name_positions(Machine::start(t)) == name_positions(Machine::start(s)),
{
    let m = Machine::start(s);
    let n = Machine::start(t);
    assert(n == (Machine { input: n.input, ..m }));
    lemma_tokens_same(m, n);
    lemma_name_positions_same(m, n);
}

/// A document with the names of its tags and attributes put in lower case
/// has the very tokens of the document as written; and putting the names in
/// lower case once more changes nothing.
pub proof fn lemma_retokenizing_names_lowered(s: Seq<char>)
    ensures
        tokens(Machine::start(names_lowered(s))) == tokens(Machine::start(s)),
        names_lowered(names_lowered(s)) == names_lowered(s),
{
    let t = names_lowered(s);
    assert forall|i: int| 0 <= i < s.len() implies lower(#[trigger] s[i]) == lower(t[i]) by {
        lemma_lower(s[i], s[i]);
    }
    lemma_same_tokens(s, t);
    assert forall|i: int| 0 <= i < t.len() implies names_lowered(t)[i] == t[i] by {
        lemma_lower(s[i], s[i]);
    }
    assert(names_lowered(t) =~= t);
}

} // verus!
