//! Compiled clauses: SQL text interleaved with numbered placeholders, and the
//! parameter values the placeholders stand for.
//!
//! A clause is kept as a sequence of segments rather than as a string, so that
//! renumbering the placeholders of a nested clause is an addition on each
//! placeholder and never a search in text.

use vstd::prelude::*;
use crate::text::{decimal, push_decimal};
use crate::value::{ParamValue, Value, values};

verus! {

/// One piece of a clause template.
pub enum Piece {
    /// Literal SQL text.
    Text(Seq<char>),
    /// The placeholder with the given 1-based index, written `$k`.
    Param(nat),
}

/// The model of a compiled clause: a template and the values of its
/// placeholders.
pub struct Clause {
    pub pieces: Seq<Piece>,
    pub params: Seq<Value>,
}

/// The indices of the placeholders of a template, in order of occurrence.
pub open spec fn slots(pieces: Seq<Piece>) -> Seq<nat>
    decreases pieces.len(),
{
    if pieces.len() == 0 {
        Seq::empty()
    } else {
        match pieces.last() {
            Piece::Param(k) => slots(pieces.drop_last()).push(k),
            Piece::Text(_) => slots(pieces.drop_last()),
        }
    }
}

/// The sequence `1, 2, .., n`.
pub open spec fn numbering(n: nat) -> Seq<nat> {
    Seq::new(n, |i: int| (i + 1) as nat)
}

/// A piece with its placeholder index raised by `by`.
pub open spec fn shift_piece(piece: Piece, by: nat) -> Piece {
    match piece {
        Piece::Param(k) => Piece::Param(k + by),
        Piece::Text(t) => Piece::Text(t),
    }
}

/// A template with every placeholder index raised by `by`.
pub open spec fn shift(pieces: Seq<Piece>, by: nat) -> Seq<Piece> {
    Seq::new(pieces.len(), |i: int| shift_piece(pieces[i], by))
}

/// The SQL text of one piece.
pub open spec fn piece_text(piece: Piece) -> Seq<char> {
    match piece {
        Piece::Text(t) => t,
        Piece::Param(k) => seq!['$'] + decimal(k),
    }
}

/// The SQL text of a template.
pub open spec fn render(pieces: Seq<Piece>) -> Seq<char>
    decreases pieces.len(),
{
    if pieces.len() == 0 {
        Seq::empty()
    } else {
        render(pieces.drop_last()) + piece_text(pieces.last())
    }
}

impl Clause {
    /// The clause that matches everything: no text and no parameters.
    pub open spec fn empty() -> Clause {
        Clause { pieces: Seq::empty(), params: Seq::empty() }
    }

    pub open spec fn is_empty(self) -> bool {
        self.pieces.len() == 0
    }

    /// The k-th placeholder of the template, in order of occurrence, is `$k`,
    /// and there are as many placeholders as parameters.
    pub open spec fn well_formed(self) -> bool {
        slots(self.pieces) == numbering(self.params.len())
    }

    /// The SQL text of the clause.
    pub open spec fn text(self) -> Seq<char> {
        render(self.pieces)
    }
}

/// A single condition: `text` followed by a placeholder for `value`.
pub open spec fn atom(text: Seq<char>, value: Value) -> Clause {
    Clause { pieces: seq![Piece::Text(text), Piece::Param(1)], params: seq![value] }
}

/// A non-empty clause in parentheses; the empty clause stays empty.
pub open spec fn paren(c: Clause) -> Clause {
    if c.is_empty() {
        c
    } else {
        Clause {
            pieces: seq![Piece::Text("("@)] + c.pieces + seq![Piece::Text(")"@)],
            params: c.params,
        }
    }
}

/// `a` and `b` joined by `sep`, the placeholders of `b` renumbered to follow
/// those of `a`. An empty clause on either side leaves the other unchanged.
pub open spec fn conj(a: Clause, sep: Seq<char>, b: Clause) -> Clause {
    if b.is_empty() {
        a
    } else if a.is_empty() {
        b
    } else {
        Clause {
            pieces: a.pieces + seq![Piece::Text(sep)] + shift(b.pieces, a.params.len()),
            params: a.params + b.params,
        }
    }
}

/// The placeholders of a concatenation are those of its parts, in order.
pub proof fn lemma_slots_concat(a: Seq<Piece>, b: Seq<Piece>)
    ensures
        slots(a + b) == slots(a) + slots(b),
    decreases b.len(),
{
    if b.len() == 0 {
        assert(a + b =~= a);
        assert(slots(a) + slots(b) =~= slots(a));
    } else {
        assert((a + b).drop_last() =~= a + b.drop_last());
        assert((a + b).last() == b.last());
        lemma_slots_concat(a, b.drop_last());
        match b.last() {
            Piece::Param(k) => {
                assert((slots(a) + slots(b.drop_last())).push(k) =~= slots(a) + slots(
                    b.drop_last(),
                ).push(k));
            },
            Piece::Text(_) => {},
        }
    }
}

/// Shifting a template raises each of its placeholders, and changes neither
/// their number nor their order.
pub proof fn lemma_slots_shift(pieces: Seq<Piece>, by: nat)
    ensures
        slots(shift(pieces, by)) == Seq::new(
            slots(pieces).len(),
            |i: int| slots(pieces)[i] + by,
        ),
    decreases pieces.len(),
{
    let shifted = shift(pieces, by);
    let expected = Seq::new(slots(pieces).len(), |i: int| slots(pieces)[i] + by);
    if pieces.len() == 0 {
        assert(slots(shifted) =~= expected);
    } else {
        assert(shifted.drop_last() =~= shift(pieces.drop_last(), by));
        assert(shifted.last() == shift_piece(pieces.last(), by));
        lemma_slots_shift(pieces.drop_last(), by);
        assert(slots(shifted) =~= expected);
    }
}

/// Every placeholder of a template occurs among its slots.
pub proof fn lemma_param_in_slots(pieces: Seq<Piece>, i: int)
    requires
        0 <= i < pieces.len(),
        pieces[i] is Param,
    ensures
        slots(pieces).contains(pieces[i]->Param_0),
    decreases pieces.len(),
{
    let k = pieces[i]->Param_0;
    if i == pieces.len() - 1 {
        let s = slots(pieces.drop_last()).push(k);
        assert(s[s.len() - 1] == k);
    } else {
        lemma_param_in_slots(pieces.drop_last(), i);
        let j = choose|j: int|
            0 <= j < slots(pieces.drop_last()).len() && slots(pieces.drop_last())[j] == k;
        match pieces.last() {
            Piece::Param(l) => {
                assert(slots(pieces)[j] == k);
            },
            Piece::Text(_) => {},
        }
    }
}

/// In a well-formed clause every placeholder index lies in `1..=n`, where `n`
/// is the number of parameters.
pub proof fn lemma_param_bound(c: Clause, i: int)
    requires
        c.well_formed(),
        0 <= i < c.pieces.len(),
        c.pieces[i] is Param,
    ensures
        1 <= c.pieces[i]->Param_0 <= c.params.len(),
{
    lemma_param_in_slots(c.pieces, i);
}

/// The text of a concatenation is the concatenation of the texts.
pub proof fn lemma_render_concat(a: Seq<Piece>, b: Seq<Piece>)
    ensures
        render(a + b) == render(a) + render(b),
    decreases b.len(),
{
    if b.len() == 0 {
        assert(a + b =~= a);
        assert(render(a) + render(b) =~= render(a));
    } else {
        assert((a + b).drop_last() =~= a + b.drop_last());
        assert((a + b).last() == b.last());
        lemma_render_concat(a, b.drop_last());
        assert((render(a) + render(b.drop_last())) + piece_text(b.last()) =~= render(a) + (render(
            b.drop_last(),
        ) + piece_text(b.last())));
    }
}

/// A single condition is well formed.
pub proof fn lemma_atom_well_formed(text: Seq<char>, value: Value)
    ensures
        atom(text, value).well_formed(),
{
    let pieces = atom(text, value).pieces;
    assert(pieces.drop_last() =~= seq![Piece::Text(text)]);
    assert(pieces.drop_last().drop_last() =~= Seq::<Piece>::empty());
    reveal_with_fuel(slots, 3);
    assert(slots(pieces) =~= numbering(1));
}

/// Parentheses keep a clause well formed.
pub proof fn lemma_paren_well_formed(c: Clause)
    requires
        c.well_formed(),
    ensures
        paren(c).well_formed(),
        paren(c).params == c.params,
        paren(c).is_empty() == c.is_empty(),
{
    if !c.is_empty() {
        let open = seq![Piece::Text("("@)];
        let close = seq![Piece::Text(")"@)];
        lemma_slots_concat(open + c.pieces, close);
        lemma_slots_concat(open, c.pieces);
        reveal_with_fuel(slots, 2);
        assert(open.drop_last() =~= Seq::<Piece>::empty());
        assert(close.drop_last() =~= Seq::<Piece>::empty());
        assert(slots(open) =~= Seq::<nat>::empty());
        assert(slots(close) =~= Seq::<nat>::empty());
        assert(slots(paren(c).pieces) =~= slots(c.pieces));
    }
}

/// Joining two well-formed clauses gives a well-formed clause that holds the
/// parameters of both, those of the first clause first.
pub proof fn lemma_conj_well_formed(a: Clause, sep: Seq<char>, b: Clause)
    requires
        a.well_formed(),
        b.well_formed(),
    ensures
        conj(a, sep, b).well_formed(),
        conj(a, sep, b).params == a.params + b.params,
        conj(a, sep, b).is_empty() == (a.is_empty() && b.is_empty()),
{
    lemma_empty_has_no_params(a);
    lemma_empty_has_no_params(b);
    if b.is_empty() {
        assert(a.params + b.params =~= a.params);
    } else if a.is_empty() {
        assert(a.params + b.params =~= b.params);
    } else {
        let mid = seq![Piece::Text(sep)];
        let tail = shift(b.pieces, a.params.len());
        lemma_slots_concat(a.pieces + mid, tail);
        lemma_slots_concat(a.pieces, mid);
        lemma_slots_shift(b.pieces, a.params.len());
        reveal_with_fuel(slots, 2);
        assert(mid.drop_last() =~= Seq::<Piece>::empty());
        assert(slots(mid) =~= Seq::<nat>::empty());
        assert(slots(conj(a, sep, b).pieces) =~= numbering((a.params + b.params).len()));
    }
}

/// A well-formed clause without text has no parameters.
pub proof fn lemma_empty_has_no_params(c: Clause)
    requires
        c.well_formed(),
    ensures
        c.is_empty() ==> c.params.len() == 0,
{
    if c.is_empty() {
        assert(slots(c.pieces).len() == 0);
        assert(numbering(c.params.len()).len() == c.params.len());
    }
}

/// One segment of a compiled clause.
#[derive(Debug, PartialEq)]
pub enum Segment {
    /// Literal SQL text.
    Text(String),
    /// The placeholder with the given 1-based index.
    Param(usize),
}

impl View for Segment {
    type V = Piece;

    open spec fn view(&self) -> Piece {
        match self {
            Segment::Text(t) => Piece::Text(t@),
            Segment::Param(k) => Piece::Param(*k as nat),
        }
    }
}

/// The models of a sequence of segments, in order.
pub open spec fn pieces(segments: Seq<Segment>) -> Seq<Piece> {
    segments.map_values(|s: Segment| s@)
}

/// A compiled clause: the segments of its SQL text and its parameter values.
#[derive(Debug, PartialEq)]
pub struct CompiledClause {
    pub segments: Vec<Segment>,
    pub params: Vec<ParamValue>,
}

impl View for CompiledClause {
    type V = Clause;

    open spec fn view(&self) -> Clause {
        Clause { pieces: pieces(self.segments@), params: values(self.params@) }
    }
}

impl CompiledClause {
    /// The empty clause.
    pub fn new() -> (c: CompiledClause)
        ensures
            c@ == Clause::empty(),
            c@.well_formed(),
    {
        let c = CompiledClause { segments: Vec::new(), params: Vec::new() };
        assert(c@.pieces =~= Seq::<Piece>::empty());
        assert(c@.params =~= Seq::<Value>::empty());
        assert(slots(c@.pieces) =~= numbering(0));
        c
    }

    /// Whether the clause has no text.
    pub fn is_empty(&self) -> (r: bool)
        ensures
            r == self@.is_empty(),
    {
        self.segments.len() == 0
    }

    /// Adds the condition `text $k` for `value`, joined to what is there by
    /// `sep`; `k` is the number of parameters after `value` has been added.
    pub fn push_condition(&mut self, sep: &str, text: String, value: ParamValue)
        requires
            old(self)@.well_formed(),
        ensures
            final(self)@ == conj(old(self)@, sep@, atom(text@, value@)),
            final(self)@.well_formed(),
    {
        proof {
            lemma_atom_well_formed(text@, value@);
            lemma_conj_well_formed(old(self)@, sep@, atom(text@, value@));
            lemma_empty_has_no_params(old(self)@);
        }
        let ghost before = self@;
        if self.segments.len() > 0 {
            self.segments.push(Segment::Text(sep.to_owned()));
        }
        self.params.push(value);
        let k = self.params.len();
        self.segments.push(Segment::Text(text));
        self.segments.push(Segment::Param(k));
        proof {
            let after = conj(before, sep@, atom(text@, value@));
            assert(self@.params =~= after.params);
            assert(self@.pieces =~= after.pieces);
        }
    }

    /// Puts a non-empty clause in parentheses.
    pub fn enclose(self) -> (c: CompiledClause)
        requires
            self@.well_formed(),
        ensures
            c@ == paren(self@),
            c@.well_formed(),
    {
        proof {
            lemma_paren_well_formed(self@);
        }
        if self.segments.len() == 0 {
            return self;
        }
        let CompiledClause { segments, params } = self;
        let mut segments = segments;
        let ghost inner = pieces(segments@);
        let mut enclosed: Vec<Segment> = Vec::new();
        enclosed.push(Segment::Text("(".to_owned()));
        enclosed.append(&mut segments);
        enclosed.push(Segment::Text(")".to_owned()));
        let c = CompiledClause { segments: enclosed, params };
        assert(c@.pieces =~= seq![Piece::Text("("@)] + inner + seq![Piece::Text(")"@)]);
        c
    }

    /// Joins `other` to this clause by `sep`, renumbering the placeholders of
    /// `other` by the number of parameters that this clause already has.
    pub fn merge(&mut self, sep: &str, other: CompiledClause)
        requires
            old(self)@.well_formed(),
            other@.well_formed(),
        ensures
            final(self)@ == conj(old(self)@, sep@, other@),
            final(self)@.well_formed(),
    {
        proof {
            lemma_conj_well_formed(old(self)@, sep@, other@);
        }
        if other.segments.len() == 0 {
            return ;
        }
        if self.segments.len() == 0 {
            *self = other;
            return ;
        }
        let ghost a = self@;
        let ghost b = other@;
        let base = self.params.len();
        let CompiledClause { segments, params } = other;
        let mut params = params;
        self.params.append(&mut params);
        let total = self.params.len();
        assert(self@.params =~= a.params + b.params);
        self.segments.push(Segment::Text(sep.to_owned()));
        let ghost head = a.pieces + seq![Piece::Text(sep@)];
        assert(pieces(self.segments@) =~= head);
        for segment in it: segments
            invariant
                it.seq() == segments@,
                pieces(segments@) == b.pieces,
                b.well_formed(),
                base + b.params.len() == total,
                total <= usize::MAX,
                base == a.params.len(),
                values(self.params@) == a.params + b.params,
                pieces(self.segments@) == head + shift(b.pieces.take(it.index() as int), base as nat),
        {
            let ghost i = it.index() as int;
            let ghost done = pieces(self.segments@);
            assert(segment@ == b.pieces[i]);
            match segment {
                Segment::Text(t) => {
                    self.segments.push(Segment::Text(t));
                },
                Segment::Param(k) => {
                    proof {
                        lemma_param_bound(b, i);
                    }
                    self.segments.push(Segment::Param(k + base));
                },
            }
            assert(pieces(self.segments@) =~= done.push(shift_piece(b.pieces[i], base as nat)));
            assert(shift(b.pieces.take(i + 1), base as nat) =~= shift(
                b.pieces.take(i),
                base as nat,
            ).push(shift_piece(b.pieces[i], base as nat)));
        }
        assert(b.pieces.take(segments@.len() as int) =~= b.pieces);
    }

    /// The SQL text of the clause, each placeholder written as `$` and its
    /// decimal index.
    pub fn render(&self) -> (sql: String)
        ensures
            sql@ == self@.text(),
    {
        let mut sql = String::new();
        let mut i: usize = 0;
        while i < self.segments.len()
            invariant
                i <= self.segments.len(),
                sql@ == render(pieces(self.segments@).take(i as int)),
            decreases self.segments.len() - i,
        {
            let ghost before = pieces(self.segments@).take(i as int);
            let ghost after = pieces(self.segments@).take(i + 1);
            assert(after.drop_last() =~= before);
            assert(after.last() == self.segments@[i as int]@);
            match &self.segments[i] {
                Segment::Text(t) => {
                    sql.append(t.as_str());
                },
                Segment::Param(k) => {
                    sql.push('$');
                    push_decimal(&mut sql, *k);
                    assert(sql@ =~= render(before) + (seq!['$'] + decimal(*k as nat)));
                },
            }
            i = i + 1;
        }
        assert(pieces(self.segments@).take(i as int) =~= pieces(self.segments@));
        sql
    }
}

} // verus!
