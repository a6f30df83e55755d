//! Tokens
use vstd::prelude::*;

use crate::text::{alphanumeric, chars_of, is_alphanumeric, string_of};

verus! {

#[derive(Debug, Clone, PartialEq)]
pub enum Token {
    Word(String),
    LParen,
    RParen,
    LBracket,
    RBracket,
    Comma,
    Equal,
}

pub enum SpecToken {
    Word(Seq<char>),
    LParen,
    RParen,
    LBracket,
    RBracket,
    Comma,
    Equal,
}

impl View for Token {
    type V = SpecToken;

    open spec fn view(&self) -> SpecToken {
        match self {
            Token::Word(w) => SpecToken::Word(w@),
            Token::LParen => SpecToken::LParen,
            Token::RParen => SpecToken::RParen,
            Token::LBracket => SpecToken::LBracket,
            Token::RBracket => SpecToken::RBracket,
            Token::Comma => SpecToken::Comma,
            Token::Equal => SpecToken::Equal,
        }
    }
}

/// The views of a sequence of tokens.
pub open spec fn tokens_view(ts: Seq<Token>) -> Seq<SpecToken> {
    ts.map_values(|t: Token| t@)
}

impl Token {
    /// A copy of the token.
    pub fn duplicate(&self) -> (r: Token)
        ensures
            r@ == self@,
    {
        match self {
            Token::Word(w) => Token::Word(w.clone()),
            Token::LParen => Token::LParen,
            Token::RParen => Token::RParen,
            Token::LBracket => Token::LBracket,
            Token::RBracket => Token::RBracket,
            Token::Comma => Token::Comma,
            Token::Equal => Token::Equal,
        }
    }
}

/// The token that a delimiter character stands for.
pub open spec fn delimiter(c: char) -> Option<SpecToken> {
    if c == '=' {
        Some(SpecToken::Equal)
    } else if c == '(' {
        Some(SpecToken::LParen)
    } else if c == ')' {
        Some(SpecToken::RParen)
    } else if c == '[' {
        Some(SpecToken::LBracket)
    } else if c == ']' {
        Some(SpecToken::RBracket)
    } else if c == ',' {
        Some(SpecToken::Comma)
    } else {
        None
    }
}

/// A character that can begin a word.
pub open spec fn starts_word(c: char) -> bool {
    alphanumeric(c) || c == '_' || c == '-'
}

/// A character that can continue a word. The decimal point belongs to the
/// word, so that `6.5` and `-0.25` are single words.
pub open spec fn continues_word(c: char) -> bool {
    alphanumeric(c) || c == '_' || c == '.'
}

/// The number of leading characters of `s` that continue a word.
pub open spec fn word_run(s: Seq<char>) -> nat
    decreases s.len(),
{
    if s.len() > 0 && continues_word(s[0]) {
        1 + word_run(s.drop_first())
    } else {
        0
    }
}

/// The tokens of a line: each delimiter character is a token, a word is a
/// character that starts a word followed by the longest run of characters
/// that continue one, and every other character (white space among them) only
/// separates tokens.
pub open spec fn spec_tokenize(s: Seq<char>) -> Seq<SpecToken>
    decreases s.len(),
{
    if s.len() == 0 {
        seq![]
    } else {
        match delimiter(s[0]) {
            Some(t) => seq![t] + spec_tokenize(s.drop_first()),
            None => if starts_word(s[0]) {
                let n: int = word_run(s.drop_first()) as int + 1;
                proof {
                    lemma_word_run_bound(s.drop_first());
                }
                seq![SpecToken::Word(s.take(n))] + spec_tokenize(s.skip(n))
            } else {
                spec_tokenize(s.drop_first())
            },
        }
    }
}

proof fn lemma_word_run(s: Seq<char>, k: int)
    requires
        0 <= k <= s.len(),
        forall|j: int| 0 <= j < k ==> continues_word(#[trigger] s[j]),
        k == s.len() || !continues_word(s[k]),
    ensures
        word_run(s) == k,
    decreases k,
{
    if k > 0 {
        lemma_word_run(s.drop_first(), k - 1);
    }
}

pub proof fn lemma_word_run_bound(s: Seq<char>)
    ensures
        word_run(s) <= s.len(),
    decreases s.len(),
{
    if s.len() > 0 {
        lemma_word_run_bound(s.drop_first());
    }
}

fn continues(c: char) -> (r: bool)
    ensures
        r == continues_word(c),
{
    is_alphanumeric(c) || c == '_' || c == '.'
}

fn delimiter_token(c: char) -> (r: Option<Token>)
    ensures
        match r {
            Some(t) => delimiter(c) == Some(t@),
            None => delimiter(c) is None,
        },
{
    match c {
        '=' => Some(Token::Equal),
        '(' => Some(Token::LParen),
        ')' => Some(Token::RParen),
        '[' => Some(Token::LBracket),
        ']' => Some(Token::RBracket),
        ',' => Some(Token::Comma),
        _ => None,
    }
}

/// Takes a raw string and splits it into a vector of [`Token`]s.
///
/// These tokens are an intermediate step, before being further passed into the parser.
pub fn tokenizer(line: &str) -> (tokens: Vec<Token>)
    ensures
        tokens_view(tokens@) == spec_tokenize(line@),
{
    let cs = chars_of(line);
    let n = cs.len();
    let mut tokens: Vec<Token> = Vec::new();
    let mut i: usize = 0;
    assert(cs@.skip(0) =~= cs@);
    while i < n
        invariant
            i <= n == cs@.len(),
            cs@ == line@,
            tokens_view(tokens@) + spec_tokenize(cs@.skip(i as int)) == spec_tokenize(line@),
        decreases n - i,
    {
        let ghost rest = cs@.skip(i as int);
        let ghost before = tokens_view(tokens@);
        let c = cs[i];
        assert(rest[0] == c);
        assert(rest.drop_first() =~= cs@.skip(i + 1));
        match delimiter_token(c) {
            Some(t) => {
                tokens.push(t);
                assert(tokens_view(tokens@) =~= before + seq![t@]);
                assert(before + seq![t@] + spec_tokenize(cs@.skip(i + 1)) =~= before + (seq![t@]
                    + spec_tokenize(cs@.skip(i + 1))));
                i += 1;
            },
            None => {
                if is_alphanumeric(c) || c == '_' || c == '-' {
                    let mut j = i + 1;
                    while j < n && continues(cs[j])
                        invariant
                            i < j <= n == cs@.len(),
                            forall|k: int| i + 1 <= k < j ==> continues_word(#[trigger] cs@[k]),
                        decreases n - j,
                    {
                        j += 1;
                    }
                    proof {
                        let tail = cs@.skip(i + 1);
                        assert(tail =~= rest.drop_first());
                        assert forall|k: int| 0 <= k < j - (i + 1) implies continues_word(
                            #[trigger] tail[k],
                        ) by {
                            assert(tail[k] == cs@[i + 1 + k]);
                        }
                        if j < n {
                            assert(tail[j - (i + 1)] == cs@[j as int]);
                        }
                        lemma_word_run(tail, j - (i + 1));
                    }
                    let word = string_of(&cs, i, j);
                    let ghost w = Token::Word(word)@;
                    tokens.push(Token::Word(word));
                    assert(rest.take(j - i) =~= cs@.subrange(i as int, j as int));
                    assert(rest.skip(j - i) =~= cs@.skip(j as int));
                    assert(tokens_view(tokens@) =~= before + seq![w]);
                    assert(before + seq![w] + spec_tokenize(cs@.skip(j as int)) =~= before + (
                    seq![w] + spec_tokenize(cs@.skip(j as int))));
                    i = j;
                } else {
                    i += 1;
                }
            },
        }
    }
    assert(tokens_view(tokens@) + spec_tokenize(cs@.skip(i as int)) =~= tokens_view(tokens@));
    tokens
}

} // verus!

verus! {

/// Every word that the tokenizer produces is non-empty, begins with a
/// character that starts a word and goes on with characters that continue one.
pub proof fn law_words_are_well_formed(s: Seq<char>)
    ensures
        forall|i: int|
            0 <= i < spec_tokenize(s).len() ==> match #[trigger] spec_tokenize(s)[i] {
                SpecToken::Word(w) => w.len() > 0 && starts_word(w[0]) && forall|j: int|
                    1 <= j < w.len() ==> continues_word(#[trigger] w[j]),
                _ => true,
            },
    decreases s.len(),
{
    if s.len() > 0 {
        match delimiter(s[0]) {
            Some(t) => {
                law_words_are_well_formed(s.drop_first());
                let rest = spec_tokenize(s.drop_first());
                assert forall|i: int| 1 <= i < spec_tokenize(s).len() implies spec_tokenize(s)[i]
                    == rest[i - 1] by {}
            },
            None => {
                if starts_word(s[0]) {
                    let n: int = word_run(s.drop_first()) as int + 1;
                    lemma_word_run_bound(s.drop_first());
                    lemma_word_run_prefix(s.drop_first());
                    law_words_are_well_formed(s.skip(n));
                    let rest = spec_tokenize(s.skip(n));
                    let w = s.take(n);
                    assert forall|j: int| 1 <= j < w.len() implies continues_word(#[trigger] w[j]) by {
                        assert(w[j] == s.drop_first()[j - 1]);
                    }
                    assert forall|i: int| 1 <= i < spec_tokenize(s).len() implies spec_tokenize(s)[i]
                        == rest[i - 1] by {}
                } else {
                    law_words_are_well_formed(s.drop_first());
                }
            },
        }
    }
}

/// The characters counted by `word_run` all continue a word.
pub proof fn lemma_word_run_prefix(s: Seq<char>)
    ensures
        forall|j: int| 0 <= j < word_run(s) ==> continues_word(#[trigger] s[j]),
    decreases s.len(),
{
    lemma_word_run_bound(s);
    if s.len() > 0 && continues_word(s[0]) {
        lemma_word_run_prefix(s.drop_first());
        assert forall|j: int| 0 <= j < word_run(s) implies continues_word(#[trigger] s[j]) by {
            if j > 0 {
                assert(s[j] == s.drop_first()[j - 1]);
            }
        }
    }
}

} // verus!

verus! {

/// Where the text after `x` cannot continue a word, the word run of `x` and
/// that text together is the run of `x` alone.
proof fn lemma_word_run_stops(x: Seq<char>, c: char, y: Seq<char>)
    requires
        !continues_word(c),
    ensures
        word_run(x + seq![c] + y) == word_run(x),
    decreases x.len(),
{
    let s = x + seq![c] + y;
    if x.len() == 0 {
        assert(s[0] == c);
    } else {
        assert(s[0] == x[0]);
        if continues_word(x[0]) {
            assert(s.drop_first() =~= x.drop_first() + seq![c] + y);
            lemma_word_run_stops(x.drop_first(), c, y);
        }
    }
}

/// Tokenizing around a character that neither is a delimiter nor starts or
/// continues a word (a space, for instance): the tokens of the two sides.
pub proof fn law_separator_splits(a: Seq<char>, c: char, b: Seq<char>)
    requires
        delimiter(c) is None,
        !starts_word(c),
        !continues_word(c),
    ensures
        spec_tokenize(a + seq![c] + b) == spec_tokenize(a) + spec_tokenize(b),
    decreases a.len(),
{
    let s = a + seq![c] + b;
    if a.len() == 0 {
        assert(s[0] == c);
        assert(s.drop_first() =~= b);
        assert(spec_tokenize(a) =~= Seq::<SpecToken>::empty());
        assert(spec_tokenize(a) + spec_tokenize(b) =~= spec_tokenize(b));
    } else {
        assert(s[0] == a[0]);
        assert(s.drop_first() =~= a.drop_first() + seq![c] + b);
        match delimiter(a[0]) {
            Some(t) => {
                law_separator_splits(a.drop_first(), c, b);
                assert(seq![t] + spec_tokenize(a.drop_first()) + spec_tokenize(b) =~= seq![t] + (
                spec_tokenize(a.drop_first()) + spec_tokenize(b)));
            },
            None => {
                if starts_word(a[0]) {
                    lemma_word_run_stops(a.drop_first(), c, b);
                    lemma_word_run_bound(a.drop_first());
                    let n: int = word_run(a.drop_first()) as int + 1;
                    assert(s.take(n) =~= a.take(n));
                    assert(s.skip(n) =~= a.skip(n) + seq![c] + b);
                    law_separator_splits(a.skip(n), c, b);
                    let w = seq![SpecToken::Word(a.take(n))];
                    assert(w + spec_tokenize(a.skip(n)) + spec_tokenize(b) =~= w + (spec_tokenize(
                        a.skip(n),
                    ) + spec_tokenize(b)));
                } else {
                    law_separator_splits(a.drop_first(), c, b);
                }
            },
        }
    }
}

/// A space separates tokens: the tokens of `a b` are those of `a` followed by
/// those of `b`.
pub proof fn law_space_splits(a: Seq<char>, b: Seq<char>)
    ensures
        spec_tokenize(a + seq![' '] + b) == spec_tokenize(a) + spec_tokenize(b),
{
    law_separator_splits(a, ' ', b);
}

/// A delimiter is a token of its own and ends a word before it: the tokens of
/// `a=b` are those of `a`, `=`, then those of `b` (likewise for `(`, `)`,
/// `[`, `]` and `,`). So spaces around a delimiter change nothing.
pub proof fn law_delimiter_splits(a: Seq<char>, d: char, b: Seq<char>)
    requires
        delimiter(d) is Some,
    ensures
        spec_tokenize(a + seq![d] + b) == spec_tokenize(a) + seq![delimiter(d)->0] + spec_tokenize(b),
    decreases a.len(),
{
    let s = a + seq![d] + b;
    let t = delimiter(d)->0;
    assert(!continues_word(d));
    if a.len() == 0 {
        assert(s[0] == d);
        assert(s.drop_first() =~= b);
        assert(spec_tokenize(a) =~= Seq::<SpecToken>::empty());
        assert(spec_tokenize(a) + seq![t] + spec_tokenize(b) =~= seq![t] + spec_tokenize(b));
    } else {
        assert(s[0] == a[0]);
        assert(s.drop_first() =~= a.drop_first() + seq![d] + b);
        match delimiter(a[0]) {
            Some(t0) => {
                law_delimiter_splits(a.drop_first(), d, b);
                assert(seq![t0] + spec_tokenize(a.drop_first()) + seq![t] + spec_tokenize(b)
                    =~= seq![t0] + (spec_tokenize(a.drop_first()) + seq![t] + spec_tokenize(b)));
            },
            None => {
                if starts_word(a[0]) {
                    lemma_word_run_stops(a.drop_first(), d, b);
                    lemma_word_run_bound(a.drop_first());
                    let n: int = word_run(a.drop_first()) as int + 1;
                    assert(s.take(n) =~= a.take(n));
                    assert(s.skip(n) =~= a.skip(n) + seq![d] + b);
                    law_delimiter_splits(a.skip(n), d, b);
                    let w = seq![SpecToken::Word(a.take(n))];
                    assert(w + spec_tokenize(a.skip(n)) + seq![t] + spec_tokenize(b) =~= w + (
                    spec_tokenize(a.skip(n)) + seq![t] + spec_tokenize(b)));
                } else {
                    law_delimiter_splits(a.drop_first(), d, b);
                }
            },
        }
    }
}

} // verus!
