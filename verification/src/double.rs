//! Double-precision numbers as plain values. Nothing here computes with them:
//! a double is carried as the eight bytes it was read from, as the decimal
//! text that denotes it, or as the integer it was made from.
use crate::text::same;
use vstd::prelude::*;

verus! {

/// A double-precision number.
#[derive(Debug, PartialEq, Eq)]
pub enum Double {
    /// The number whose bit pattern this is.
    Bits(u64),
    /// The double nearest to what this decimal text denotes.
    Text(String),
    /// The double nearest to this integer.
    Int(i64),
}

/// What a [`Double`] holds.
pub enum DoubleV {
    Bits(u64),
    Text(Seq<char>),
    Int(i64),
}

impl View for Double {
    type V = DoubleV;

    open spec fn view(&self) -> DoubleV {
        match self {
            Double::Bits(b) => DoubleV::Bits(*b),
            Double::Text(s) => DoubleV::Text(s@),
            Double::Int(n) => DoubleV::Int(*n),
        }
    }
}

impl Double {
    pub fn copy(&self) -> (r: Double)
        ensures
            r@ == self@,
    {
        match self {
            Double::Bits(b) => Double::Bits(*b),
            Double::Text(s) => Double::Text(s.clone()),
            Double::Int(n) => Double::Int(*n),
        }
    }
}

/// Whether two doubles are given in the same way. Two that are given
/// differently may still be the same number.
fn same_double(a: &Double, b: &Double) -> (r: bool)
    ensures
        r == (a@ == b@),
{
    match (a, b) {
        (Double::Bits(x), Double::Bits(y)) => *x == *y,
        (Double::Text(x), Double::Text(y)) => same(x, y),
        (Double::Int(x), Double::Int(y)) => *x == *y,
        _ => false,
    }
}

/// A computation with doubles that the caller of the library is asked for:
/// the name of an operation, and its operands.
///
/// - `+ - * / %`, `neg`, `abs`, `max`, `min` and the functions of `Math` give
///   [`DoubleAnswer::Bits`], as do the vector functions `dotProduct`,
///   `cosineSimilarity`, `l1norm`, `l2norm` and `hamming`, whose operands are
///   the components of the first vector and then those of the second;
/// - `== < > <= >=`, `nonzero` and `finite` give [`DoubleAnswer::Flag`];
/// - `int`, the integer nearest to zero within reach, gives
///   [`DoubleAnswer::Int`];
/// - `display`, `debug` and `json`, the spellings of Rust's two formats and of
///   JSON, give [`DoubleAnswer::Text`];
/// - `parse` of a text gives [`DoubleAnswer::Bits`], or
///   [`DoubleAnswer::Absent`] if the text denotes no number;
/// - `single` of the bit pattern of a single-precision number, as an integer,
///   gives that number as [`DoubleAnswer::Bits`];
/// - `random` of a count gives the draw of that number from `[0, 1)` as
///   [`DoubleAnswer::Bits`].
#[derive(Debug, PartialEq, Eq)]
pub struct DoubleQuery {
    pub name: String,
    pub args: Vec<Double>,
}

/// What a computation with doubles gave.
#[derive(Debug, PartialEq, Eq)]
pub enum DoubleAnswer {
    Bits(u64),
    Flag(bool),
    Int(i64),
    Text(String),
    Absent,
}

/// What a [`DoubleQuery`] asks.
#[verifier::ext_equal]
pub struct QueryV {
    pub name: Seq<char>,
    pub args: Seq<DoubleV>,
}

/// What a [`DoubleAnswer`] says.
pub enum AnswerV {
    Bits(u64),
    Flag(bool),
    Int(i64),
    Text(Seq<char>),
    Absent,
}

pub open spec fn doubles_view(s: Seq<Double>) -> Seq<DoubleV> {
    s.map_values(|d: Double| d@)
}

impl View for DoubleQuery {
    type V = QueryV;

    open spec fn view(&self) -> QueryV {
        QueryV { name: self.name@, args: doubles_view(self.args@) }
    }
}

impl View for DoubleAnswer {
    type V = AnswerV;

    open spec fn view(&self) -> AnswerV {
        match self {
            DoubleAnswer::Bits(b) => AnswerV::Bits(*b),
            DoubleAnswer::Flag(b) => AnswerV::Flag(*b),
            DoubleAnswer::Int(n) => AnswerV::Int(*n),
            DoubleAnswer::Text(s) => AnswerV::Text(s@),
            DoubleAnswer::Absent => AnswerV::Absent,
        }
    }
}

/// Answers that are already known.
#[derive(Debug, PartialEq, Eq)]
pub struct Answers {
    pub entries: Vec<(DoubleQuery, DoubleAnswer)>,
}

pub type AnswersV = Seq<(QueryV, AnswerV)>;

impl View for Answers {
    type V = AnswersV;

    open spec fn view(&self) -> AnswersV {
        self.entries@.map_values(|e: (DoubleQuery, DoubleAnswer)| (e.0@, e.1@))
    }
}

/// The first answer to a query, from entry `i` on.
pub open spec fn answer_from(t: AnswersV, q: QueryV, i: int) -> Option<AnswerV>
    decreases t.len() - i,
{
    if i >= t.len() {
        None
    } else if t[i].0 == q {
        Some(t[i].1)
    } else {
        answer_from(t, q, i + 1)
    }
}

pub open spec fn query(name: Seq<char>, args: Seq<DoubleV>) -> QueryV {
    QueryV { name, args }
}

/// The answer that must be a bit pattern, or the query that lacks it.
pub open spec fn ask_bits(t: AnswersV, q: QueryV) -> Result<u64, QueryV> {
    match answer_from(t, q, 0) {
        Some(AnswerV::Bits(b)) => Ok(b),
        _ => Err(q),
    }
}

/// The answer that must be yes or no, or the query that lacks it.
pub open spec fn ask_flag(t: AnswersV, q: QueryV) -> Result<bool, QueryV> {
    match answer_from(t, q, 0) {
        Some(AnswerV::Flag(b)) => Ok(b),
        _ => Err(q),
    }
}

/// The answer that must be an integer, or the query that lacks it.
pub open spec fn ask_int(t: AnswersV, q: QueryV) -> Result<i64, QueryV> {
    match answer_from(t, q, 0) {
        Some(AnswerV::Int(n)) => Ok(n),
        _ => Err(q),
    }
}

/// The answer that must be a text, or the query that lacks it.
pub open spec fn ask_text(t: AnswersV, q: QueryV) -> Result<Seq<char>, QueryV> {
    match answer_from(t, q, 0) {
        Some(AnswerV::Text(s)) => Ok(s),
        _ => Err(q),
    }
}

/// What a text denotes as a number, or the query that lacks an answer.
pub open spec fn ask_parse(t: AnswersV, s: Seq<char>) -> Result<Option<u64>, QueryV> {
    let q = query("parse"@, seq![DoubleV::Text(s)]);
    match answer_from(t, q, 0) {
        Some(AnswerV::Bits(b)) => Ok(Some(b)),
        Some(AnswerV::Absent) => Ok(None),
        _ => Err(q),
    }
}

/// A bit pattern that is neither an infinity nor a NaN.
pub open spec fn finite_bits(b: u64) -> bool {
    (b / 0x10_0000_0000_0000) % 2048 != 2047
}

/// Whether a double is finite.
pub open spec fn finite(t: AnswersV, d: DoubleV) -> Result<bool, QueryV> {
    match d {
        DoubleV::Bits(b) => Ok(finite_bits(b)),
        DoubleV::Int(_) => Ok(true),
        DoubleV::Text(_) => ask_flag(t, query("finite"@, seq![d])),
    }
}

/// Whether a double differs from zero. Zero has two bit patterns, which differ in
/// the sign.
pub open spec fn nonzero(t: AnswersV, d: DoubleV) -> Result<bool, QueryV> {
    match d {
        DoubleV::Bits(b) => Ok(b % 0x8000_0000_0000_0000 != 0),
        DoubleV::Int(n) => Ok(n != 0),
        DoubleV::Text(_) => ask_flag(t, query("nonzero"@, seq![d])),
    }
}

/// Whether `r` is the flag or the query `s`.
pub open spec fn gives_flag(r: Result<bool, DoubleQuery>, s: Result<bool, QueryV>) -> bool {
    match (r, s) {
        (Ok(x), Ok(y)) => x == y,
        (Err(x), Err(y)) => x@ == y,
        _ => false,
    }
}

fn same_query(a: &DoubleQuery, b: &DoubleQuery) -> (r: bool)
    ensures
        r == (a@ == b@),
{
    if !same(&a.name, &b.name) || a.args.len() != b.args.len() {
        assert(a@.args.len() == a.args@.len() && b@.args.len() == b.args@.len());
        return false;
    }
    let mut i: usize = 0;
    while i < a.args.len()
        invariant
            i <= a.args@.len() == b.args@.len(),
            forall|k: int| 0 <= k < i ==> (#[trigger] a.args@[k])@ == b.args@[k]@,
        decreases a.args@.len() - i,
    {
        if !same_double(&a.args[i], &b.args[i]) {
            assert(a@.args[i as int] != b@.args[i as int]);
            return false;
        }
        i += 1;
    }
    assert(a@.args =~= b@.args);
    true
}

impl Answers {
    /// No answers yet.
    pub fn new() -> (r: Answers)
        ensures
            r@ == Seq::<(QueryV, AnswerV)>::empty(),
    {
        let r = Answers { entries: Vec::new() };
        assert(r@ =~= Seq::<(QueryV, AnswerV)>::empty());
        r
    }

    /// Adds an answer behind those that are there.
    pub fn add(&mut self, q: DoubleQuery, a: DoubleAnswer)
        ensures
            final(self)@ == old(self)@.push((q@, a@)),
    {
        let ghost before = self@;
        self.entries.push((q, a));
        assert(self@ =~= before.push((q@, a@)));
    }

    fn find(&self, q: &DoubleQuery) -> (r: Option<&DoubleAnswer>)
        ensures
            match r {
                Some(a) => answer_from(self@, q@, 0) == Some(a@),
                None => answer_from(self@, q@, 0) is None,
            },
    {
        let mut i: usize = 0;
        while i < self.entries.len()
            invariant
                i <= self.entries@.len(),
                answer_from(self@, q@, 0) == answer_from(self@, q@, i as int),
            decreases self.entries@.len() - i,
        {
            if same_query(&self.entries[i].0, q) {
                return Some(&self.entries[i].1);
            }
            i += 1;
        }
        None
    }

    pub fn bits(&self, q: DoubleQuery) -> (r: Result<u64, DoubleQuery>)
        ensures
            match r {
                Ok(b) => ask_bits(self@, q@) == Ok::<u64, QueryV>(b),
                Err(w) => w@ == q@ && ask_bits(self@, q@) == Err::<u64, QueryV>(w@),
            },
    {
        match self.find(&q) {
            Some(DoubleAnswer::Bits(b)) => Ok(*b),
            _ => Err(q),
        }
    }

    pub fn flag(&self, q: DoubleQuery) -> (r: Result<bool, DoubleQuery>)
        ensures
            match r {
                Ok(b) => ask_flag(self@, q@) == Ok::<bool, QueryV>(b),
                Err(w) => w@ == q@ && ask_flag(self@, q@) == Err::<bool, QueryV>(w@),
            },
    {
        match self.find(&q) {
            Some(DoubleAnswer::Flag(b)) => Ok(*b),
            _ => Err(q),
        }
    }

    pub fn integer(&self, q: DoubleQuery) -> (r: Result<i64, DoubleQuery>)
        ensures
            match r {
                Ok(b) => ask_int(self@, q@) == Ok::<i64, QueryV>(b),
                Err(w) => w@ == q@ && ask_int(self@, q@) == Err::<i64, QueryV>(w@),
            },
    {
        match self.find(&q) {
            Some(DoubleAnswer::Int(b)) => Ok(*b),
            _ => Err(q),
        }
    }

    pub fn text(&self, q: DoubleQuery) -> (r: Result<String, DoubleQuery>)
        ensures
            match r {
                Ok(b) => ask_text(self@, q@) == Ok::<Seq<char>, QueryV>(b@),
                Err(w) => w@ == q@ && ask_text(self@, q@) == Err::<Seq<char>, QueryV>(w@),
            },
    {
        match self.find(&q) {
            Some(DoubleAnswer::Text(b)) => Ok(b.clone()),
            _ => Err(q),
        }
    }

    /// Whether a double is finite.
    pub fn is_finite(&self, d: &Double) -> (r: Result<bool, DoubleQuery>)
        ensures
            gives_flag(r, finite(self@, d@)),
    {
        match d {
            Double::Bits(b) => Ok((*b / 0x10_0000_0000_0000) % 2048 != 2047),
            Double::Int(_) => Ok(true),
            Double::Text(_) => self.flag(ask1("finite", d.copy())),
        }
    }

    /// Whether a double differs from zero.
    pub fn is_nonzero(&self, d: &Double) -> (r: Result<bool, DoubleQuery>)
        ensures
            gives_flag(r, nonzero(self@, d@)),
    {
        match d {
            Double::Bits(b) => Ok(*b % 0x8000_0000_0000_0000 != 0),
            Double::Int(n) => Ok(*n != 0),
            Double::Text(_) => self.flag(ask1("nonzero", d.copy())),
        }
    }

    /// What a text denotes as a number, if anything.
    pub fn parsed(&self, s: &str) -> (r: Result<Option<u64>, DoubleQuery>)
        ensures
            match r {
                Ok(b) => ask_parse(self@, s@) == Ok::<Option<u64>, QueryV>(b),
                Err(w) => ask_parse(self@, s@) == Err::<Option<u64>, QueryV>(w@),
            },
    {
        let q = ask1("parse", Double::Text(s.to_owned()));
        match self.find(&q) {
            Some(DoubleAnswer::Bits(b)) => Ok(Some(*b)),
            Some(DoubleAnswer::Absent) => Ok(None),
            _ => Err(q),
        }
    }
}

/// A query with one operand.
pub fn ask1(name: &str, a: Double) -> (r: DoubleQuery)
    ensures
        r@ == query(name@, seq![a@]),
{
    let mut args: Vec<Double> = Vec::new();
    args.push(a);
    let r = DoubleQuery { name: name.to_owned(), args };
    assert(r@.args =~= seq![a@]);
    r
}

/// A query with two operands.
pub fn ask2(name: &str, a: Double, b: Double) -> (r: DoubleQuery)
    ensures
        r@ == query(name@, seq![a@, b@]),
{
    let mut args: Vec<Double> = Vec::new();
    args.push(a);
    args.push(b);
    let r = DoubleQuery { name: name.to_owned(), args };
    assert(r@.args =~= seq![a@, b@]);
    r
}

/// An answer stays what it is, whatever is added behind it.
pub proof fn answers_stay(t: AnswersV, more: AnswersV, q: QueryV)
    requires
        answer_from(t, q, 0) is Some,
    ensures
        answer_from(t + more, q, 0) == answer_from(t, q, 0),
{
    lemma_answers_stay(t, more, q, 0);
}

proof fn lemma_answers_stay(t: AnswersV, more: AnswersV, q: QueryV, i: int)
    requires
        0 <= i <= t.len(),
        answer_from(t, q, i) is Some,
    ensures
        answer_from(t + more, q, i) == answer_from(t, q, i),
    decreases t.len() - i,
{
    if t[i].0 != q {
        lemma_answers_stay(t, more, q, i + 1);
    }
}

/// A question that has no answer yet is answered by the first answer that is
/// added for it.
pub proof fn question_is_answered(t: AnswersV, q: QueryV, a: AnswerV)
    requires
        answer_from(t, q, 0) is None,
    ensures
        answer_from(t.push((q, a)), q, 0) == Some(a),
{
    lemma_question_is_answered(t, q, a, 0);
}

proof fn lemma_question_is_answered(t: AnswersV, q: QueryV, a: AnswerV, i: int)
    requires
        0 <= i <= t.len(),
        answer_from(t, q, i) is None,
    ensures
        answer_from(t.push((q, a)), q, i) == Some(a),
    decreases t.len() - i,
{
    if i < t.len() {
        lemma_question_is_answered(t, q, a, i + 1);
    }
}

} // verus!
