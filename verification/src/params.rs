//! `key=value` parameters of a command.
use vstd::prelude::*;

use crate::numbers::{spec_parse_float, spec_parse_u32, parse_float, parse_u32_chars, Scalar, SpecScalar};
use crate::text::{chars_of, concat3, text_is};
use crate::tokens::{tokens_view, SpecToken, Token};

verus! {

// ---------------------------------------------------------------------------
// A map keyed by text
// ---------------------------------------------------------------------------

/// A map from text keys to values; a key occurs at most once.
///
/// It stands where a `HashMap<String, _>` would. vstd specifies `HashMap` only
/// for key types whose hashing and equality it knows to agree
/// (`obeys_key_model`), and `String` is not among them, so a `String`-keyed
/// `HashMap` gives no contract to reason with. vstd's `StringHashMap` assumes
/// that model, but its view keeps the values themselves rather than their
/// views, which the contracts here speak of. So the entries are kept in a
/// `Vec` with distinct keys, verified with no trusted layer, and the map they
/// stand for is their view.
#[derive(Clone)]
pub struct TextMap<Val> {
    entries: Vec<(String, Val)>,
}

/// The map that a list of distinct-key entries stands for.
pub open spec fn entries_map<Val: View>(s: Seq<(String, Val)>) -> Map<Seq<char>, Val::V>
    decreases s.len(),
{
    if s.len() == 0 {
        Map::empty()
    } else {
        entries_map(s.drop_last()).insert(s.last().0@, s.last().1@)
    }
}

/// No key occurs twice.
pub open spec fn distinct_keys<Val>(s: Seq<(String, Val)>) -> bool {
    forall|i: int, j: int| 0 <= i < j < s.len() ==> #[trigger] s[i].0@ != #[trigger] s[j].0@
}

proof fn lemma_entries_map_dom<Val: View>(s: Seq<(String, Val)>, k: Seq<char>)
    ensures
        entries_map(s).dom().contains(k) <==> exists|i: int| 0 <= i < s.len() && #[trigger] s[i].0@
            == k,
    decreases s.len(),
{
    if s.len() > 0 {
        lemma_entries_map_dom(s.drop_last(), k);
        if entries_map(s).dom().contains(k) && s.last().0@ != k {
            let i = choose|i: int| 0 <= i < s.len() - 1 && #[trigger] s.drop_last()[i].0@ == k;
            assert(s[i] == s.drop_last()[i]);
        }
        if exists|i: int| 0 <= i < s.len() && #[trigger] s[i].0@ == k {
            let i = choose|i: int| 0 <= i < s.len() && #[trigger] s[i].0@ == k;
            if i < s.len() - 1 {
                assert(s.drop_last()[i] == s[i]);
            }
        }
    }
}

proof fn lemma_entries_map_at<Val: View>(s: Seq<(String, Val)>, i: int)
    requires
        distinct_keys(s),
        0 <= i < s.len(),
    ensures
        entries_map(s).dom().contains(s[i].0@),
        entries_map(s)[s[i].0@] == s[i].1@,
    decreases s.len(),
{
    if i < s.len() - 1 {
        assert(s.drop_last()[i] == s[i]);
        assert(distinct_keys(s.drop_last())) by {
            assert forall|a: int, b: int| 0 <= a < b < s.len() - 1 implies #[trigger] s.drop_last()[a].0@
                != #[trigger] s.drop_last()[b].0@ by {
                assert(s.drop_last()[a] == s[a]);
                assert(s.drop_last()[b] == s[b]);
            }
        }
        lemma_entries_map_at(s.drop_last(), i);
        assert(s[i].0@ != s[s.len() - 1].0@);
    }
}

proof fn lemma_entries_map_update<Val: View>(s: Seq<(String, Val)>, i: int, e: (String, Val))
    requires
        distinct_keys(s),
        0 <= i < s.len(),
        s[i].0@ == e.0@,
    ensures
        entries_map(s.update(i, e)) == entries_map(s).insert(e.0@, e.1@),
        distinct_keys(s.update(i, e)),
    decreases s.len(),
{
    let u = s.update(i, e);
    assert(distinct_keys(u)) by {
        assert forall|a: int, b: int| 0 <= a < b < u.len() implies #[trigger] u[a].0@
            != #[trigger] u[b].0@ by {
            assert(s[a].0@ != s[b].0@);
        }
    }
    if i == s.len() - 1 {
        assert(u.drop_last() =~= s.drop_last());
        assert(entries_map(u) =~= entries_map(s).insert(e.0@, e.1@));
    } else {
        assert(u.drop_last() =~= s.drop_last().update(i, e));
        assert(distinct_keys(s.drop_last())) by {
            assert forall|a: int, b: int| 0 <= a < b < s.len() - 1 implies #[trigger] s.drop_last()[a].0@
                != #[trigger] s.drop_last()[b].0@ by {
                assert(s.drop_last()[a] == s[a]);
                assert(s.drop_last()[b] == s[b]);
            }
        }
        assert(s.drop_last()[i] == s[i]);
        lemma_entries_map_update(s.drop_last(), i, e);
        assert(s[i].0@ != s.last().0@);
        assert(entries_map(u) =~= entries_map(s).insert(e.0@, e.1@));
    }
}

impl<Val: View> View for TextMap<Val> {
    type V = Map<Seq<char>, Val::V>;

    closed spec fn view(&self) -> Map<Seq<char>, Val::V> {
        entries_map(self.entries@)
    }
}

impl<Val: View> TextMap<Val> {
    /// The representation invariant.
    pub closed spec fn wf(&self) -> bool {
        distinct_keys(self.entries@)
    }

    /// An empty map.
    pub fn new() -> (r: Self)
        ensures
            r.wf(),
            r@ == Map::<Seq<char>, Val::V>::empty(),
    {
        TextMap { entries: Vec::new() }
    }

    fn position(&self, key: &str) -> (r: Option<usize>)
        requires
            self.wf(),
        ensures
            match r {
                Some(i) => i < self.entries@.len() && self.entries@[i as int].0@ == key@,
                None => !self@.dom().contains(key@),
            },
    {
        let mut i: usize = 0;
        while i < self.entries.len()
            invariant
                i <= self.entries@.len(),
                forall|j: int| 0 <= j < i ==> #[trigger] self.entries@[j].0@ != key@,
            decreases self.entries.len() - i,
        {
            if text_is(&self.entries[i].0, key) {
                return Some(i);
            }
            i += 1;
        }
        proof {
            lemma_entries_map_dom(self.entries@, key@);
        }
        None
    }

    /// The value stored under `key`.
    pub fn get(&self, key: &str) -> (r: Option<&Val>)
        requires
            self.wf(),
        ensures
            match r {
                Some(v) => self@.dom().contains(key@) && self@[key@] == v@,
                None => !self@.dom().contains(key@),
            },
    {
        match self.position(key) {
            Some(i) => {
                proof {
                    lemma_entries_map_at(self.entries@, i as int);
                }
                Some(&self.entries[i].1)
            },
            None => None,
        }
    }

    /// Stores `value` under `key`, replacing what was there.
    pub fn insert(&mut self, key: String, value: Val)
        requires
            old(self).wf(),
        ensures
            final(self).wf(),
            final(self)@ == old(self)@.insert(key@, value@),
    {
        let ghost k = key@;
        let ghost v = value@;
        match self.position(key.as_str()) {
            Some(i) => {
                proof {
                    lemma_entries_map_update(self.entries@, i as int, (key, value));
                }
                let ghost e = (key, value);
                self.entries.set(i, (key, value));
                assert(self.entries@ == old(self).entries@.update(i as int, e));
            },
            None => {
                proof {
                    lemma_entries_map_dom(self.entries@, k);
                }
                let ghost e = (key, value);
                self.entries.push((key, value));
                assert(self.entries@.drop_last() =~= old(self).entries@);
                assert(distinct_keys(self.entries@)) by {
                    assert forall|a: int, b: int| 0 <= a < b < self.entries@.len() implies #[trigger] self.entries@[a].0@
                        != #[trigger] self.entries@[b].0@ by {
                        if b == self.entries@.len() - 1 {
                            assert(self.entries@[a] == old(self).entries@[a]);
                        } else {
                            assert(self.entries@[a] == old(self).entries@[a]);
                            assert(self.entries@[b] == old(self).entries@[b]);
                        }
                    }
                }
            },
        }
    }
}

// ---------------------------------------------------------------------------
// Reading parameters from tokens
// ---------------------------------------------------------------------------

/// The parameters of a command, by name.
pub type Params = TextMap<String>;

/// The parameters that `key = value` triples set, read from the front: a
/// word, then two more tokens; the triple counts when those are `=` and a
/// word. A later value replaces an earlier one for the same key. Reading stops
/// at the first token in key position that is not a word.
pub open spec fn spec_params(ts: Seq<SpecToken>, m: Map<Seq<char>, Seq<char>>) -> Map<
    Seq<char>,
    Seq<char>,
>
    decreases ts.len(),
{
    if ts.len() == 0 {
        m
    } else {
        match ts[0] {
            SpecToken::Word(key) => {
                let rest = if ts.len() >= 3 {
                    ts.skip(3)
                } else {
                    Seq::empty()
                };
                let next = if ts.len() >= 3 && ts[1] is Equal && ts[2] is Word {
                    m.insert(key, ts[2]->Word_0)
                } else {
                    m
                };
                spec_params(rest, next)
            },
            _ => m,
        }
    }
}

/// Collects the `key=value` parameters of a list of tokens.
pub fn parse_params(tokens: &[Token]) -> (params: Params)
    ensures
        params.wf(),
        params@ == spec_params(tokens_view(tokens@), Map::empty()),
{
    let mut params: Params = TextMap::new();
    let n = tokens.len();
    let mut i: usize = 0;
    assert(tokens_view(tokens@).skip(0) =~= tokens_view(tokens@));
    while i < n
        invariant
            i <= n == tokens@.len(),
            params.wf(),
            spec_params(tokens_view(tokens@), Map::empty()) == spec_params(
                tokens_view(tokens@).skip(i as int),
                params@,
            ),
        decreases n - i,
    {
        let ghost ts = tokens_view(tokens@).skip(i as int);
        assert(ts[0] == tokens@[i as int]@);
        match &tokens[i] {
            Token::Word(key) => {
                if n - i >= 3 {
                    assert(ts[1] == tokens@[i + 1]@);
                    assert(ts[2] == tokens@[i + 2]@);
                    assert(ts.skip(3) =~= tokens_view(tokens@).skip(i + 3));
                    match (&tokens[i + 1], &tokens[i + 2]) {
                        (Token::Equal, Token::Word(value)) => {
                            params.insert(key.clone(), value.clone());
                        },
                        _ => {},
                    }
                    i += 3;
                } else {
                    assert(tokens_view(tokens@).skip(n as int) =~= Seq::<SpecToken>::empty());
                    i = n;
                }
            },
            _ => {
                return params;
            },
        }
    }
    params
}

/// `ts` is a run of complete `key = value` triples.
pub open spec fn is_assignments(ts: Seq<SpecToken>) -> bool
    decreases ts.len(),
{
    ts.len() == 0 || (ts.len() >= 3 && ts[0] is Word && ts[1] is Equal && ts[2] is Word
        && is_assignments(ts.skip(3)))
}

/// After a run of assignments, one more assignment `key = value` sets `key`
/// to `value` whatever came before, and leaves the other keys as they were:
/// a later value for a key replaces an earlier one.
pub proof fn law_later_assignment_wins(
    ts: Seq<SpecToken>,
    key: Seq<char>,
    value: Seq<char>,
    m: Map<Seq<char>, Seq<char>>,
)
    requires
        is_assignments(ts),
    ensures
        spec_params(ts + seq![SpecToken::Word(key), SpecToken::Equal, SpecToken::Word(value)], m)
            == spec_params(ts, m).insert(key, value),
    decreases ts.len(),
{
    let t = seq![SpecToken::Word(key), SpecToken::Equal, SpecToken::Word(value)];
    if ts.len() == 0 {
        assert(ts + t =~= t);
        assert(t.skip(3) =~= Seq::<SpecToken>::empty());
        assert(spec_params(Seq::<SpecToken>::empty(), m.insert(key, value)) == m.insert(key, value));
        assert(spec_params(ts, m) == m);
    } else {
        let next = m.insert(ts[0]->Word_0, ts[2]->Word_0);
        assert((ts + t).skip(3) =~= ts.skip(3) + t);
        assert((ts + t)[0] == ts[0] && (ts + t)[1] == ts[1] && (ts + t)[2] == ts[2]);
        law_later_assignment_wins(ts.skip(3), key, value, next);
        assert(spec_params(ts + t, m) == spec_params(ts.skip(3) + t, next));
        assert(spec_params(ts, m) == spec_params(ts.skip(3), next));
    }
}

// ---------------------------------------------------------------------------
// Typed parameters
// ---------------------------------------------------------------------------

/// A type that a parameter's text can be read as.
pub trait FromParam: Sized + View {
    /// The value read from `text`, or the message of the error.
    spec fn spec_from_param(text: Seq<char>) -> Result<Self::V, Seq<char>>;

    fn from_param(text: &str) -> (r: Result<Self, String>)
        ensures
            match r {
                Ok(v) => Self::spec_from_param(text@) == Ok::<Self::V, Seq<char>>(v@),
                Err(e) => Self::spec_from_param(text@) == Err::<Self::V, Seq<char>>(e@),
            },
    ;
}

impl FromParam for Scalar {
    /// A float literal (`f64::from_str` accepts it).
    open spec fn spec_from_param(text: Seq<char>) -> Result<SpecScalar, Seq<char>> {
        match spec_parse_float(text) {
            Ok(l) => Ok(SpecScalar::Literal(l)),
            Err(e) => Err(e),
        }
    }

    fn from_param(text: &str) -> (r: Result<Scalar, String>) {
        parse_float(text)
    }
}

impl FromParam for u32 {
    /// As `u32::from_str`.
    open spec fn spec_from_param(text: Seq<char>) -> Result<u32, Seq<char>> {
        spec_parse_u32(text)
    }

    fn from_param(text: &str) -> (r: Result<u32, String>) {
        let cs = chars_of(text);
        parse_u32_chars(&cs)
    }
}

impl FromParam for String {
    /// Any text.
    open spec fn spec_from_param(text: Seq<char>) -> Result<Seq<char>, Seq<char>> {
        Ok(text)
    }

    fn from_param(text: &str) -> (r: Result<String, String>) {
        Ok(text.to_string())
    }
}

/// The message for a parameter that is not there.
pub open spec fn missing_message(key: Seq<char>) -> Seq<char> {
    "missing parameter '"@ + key + "'"@
}

/// The message for a parameter whose text could not be read.
pub open spec fn invalid_message(key: Seq<char>, err: Seq<char>) -> Seq<char> {
    "invalid value for '"@ + key + "': "@ + err
}

/// A parameter that must be present and readable as `T`.
pub open spec fn spec_required<T: FromParam>(m: Map<Seq<char>, Seq<char>>, key: Seq<char>) -> Result<
    T::V,
    Seq<char>,
> {
    if m.dom().contains(key) {
        match T::spec_from_param(m[key]) {
            Ok(v) => Ok(v),
            Err(e) => Err(invalid_message(key, e)),
        }
    } else {
        Err(missing_message(key))
    }
}

/// A parameter that may be absent, but must be readable as `T` when present.
pub open spec fn spec_optional<T: FromParam>(m: Map<Seq<char>, Seq<char>>, key: Seq<char>) -> Result<
    Option<T::V>,
    Seq<char>,
> {
    if m.dom().contains(key) {
        match T::spec_from_param(m[key]) {
            Ok(v) => Ok(Some(v)),
            Err(e) => Err(invalid_message(key, e)),
        }
    } else {
        Ok(None)
    }
}

fn invalid_value(key: &str, err: String) -> (r: String)
    ensures
        r@ == invalid_message(key@, err@),
{
    let mut m = concat3("invalid value for '", key, "': ");
    m.append(err.as_str());
    m
}

/// Fetches an item from the params list and converts it to the given type.
/// Returns error if the item is cannot be converted or does not exist.
pub fn parse_required<T: FromParam>(params: &Params, key: &str) -> (r: Result<T, String>)
    requires
        params.wf(),
    ensures
        match r {
            Ok(v) => spec_required::<T>(params@, key@) == Ok::<T::V, Seq<char>>(v@),
            Err(e) => spec_required::<T>(params@, key@) == Err::<T::V, Seq<char>>(e@),
        },
{
    match params.get(key) {
        Some(s) => match T::from_param(s.as_str()) {
            Ok(v) => Ok(v),
            Err(e) => Err(invalid_value(key, e)),
        },
        None => Err(concat3("missing parameter '", key, "'")),
    }
}

/// Fetches an item from the params list and converts it to the given type.
/// Returns error if the item is cannot be converted or does not exist.
/// The result is returned as an option.
pub fn parse_optional<T: FromParam>(params: &Params, key: &str) -> (r: Result<Option<T>, String>)
    requires
        params.wf(),
    ensures
        match r {
            Ok(Some(v)) => spec_optional::<T>(params@, key@) == Ok::<Option<T::V>, Seq<char>>(Some(v@)),
            Ok(None) => spec_optional::<T>(params@, key@) == Ok::<Option<T::V>, Seq<char>>(None),
            Err(e) => spec_optional::<T>(params@, key@) == Err::<Option<T::V>, Seq<char>>(e@),
        },
{
    match params.get(key) {
        Some(s) => match T::from_param(s.as_str()) {
            Ok(v) => Ok(Some(v)),
            Err(e) => Err(invalid_value(key, e)),
        },
        None => Ok(None),
    }
}

} // verus!
