use crate::model::{text_of, texts, views};
use crate::text::{
    any_names, before_first, contains_text, first_word, first_word_of, holds_text, names_word,
    normalize, normalized, trim, trimmed, until_first,
};
use crate::rank::{
    lemma_bytes_rank_flip, lemma_bytes_rank_trans, lemma_text_rank_same, rank_text, text_rank,
    Rank,
};
use vstd::prelude::*;
use vstd::string::*;
use vstd::utf8::*;

verus! {

/// The letter that a colour adds to a colour code, where the colours name
/// it in any ASCII case.
pub open spec fn color_letter(colors: Seq<Seq<char>>, symbol: Seq<char>, letter: Seq<char>) -> Seq<
    char,
> {
    if names_word(colors, symbol) {
        letter
    } else {
        Seq::empty()
    }
}

/// The colour code of a list of colours: the letters of white, blue, black,
/// red and green, in that order, for the colours that the list names; `c`,
/// for colourless, where it names none of them.
pub open spec fn color_code(colors: Seq<Seq<char>>) -> Seq<char> {
    let letters = color_letter(colors, "W"@, "w"@) + color_letter(colors, "U"@, "u"@)
        + color_letter(colors, "B"@, "b"@) + color_letter(colors, "R"@, "r"@) + color_letter(
        colors,
        "G"@,
        "g"@,
    );
    if letters.len() == 0 {
        "c"@
    } else {
        letters
    }
}

/// Appends a colour's letter to a code where the colours name the colour.
fn push_color(code: &mut String, colors: &Vec<String>, symbol: &str, letter: &str)
    ensures
        final(code)@ == old(code)@ + color_letter(texts(colors@), symbol@, letter@),
{
    if any_names(colors, symbol) {
        code.append(letter);
    } else {
        assert(code@ + Seq::<char>::empty() =~= code@);
    }
}

/// Makes the colour code of a list of colours.
pub fn normalize_color_symbols(colors: &Vec<String>) -> (code: Option<String>)
    ensures
        code is Some,
        code->0@ == color_code(texts(colors@)),
{
    let mut code = String::new();
    let ghost all = texts(colors@);
    push_color(&mut code, colors, "W", "w");
    push_color(&mut code, colors, "U", "u");
    push_color(&mut code, colors, "B", "b");
    push_color(&mut code, colors, "R", "r");
    push_color(&mut code, colors, "G", "g");
    assert(code@ =~= color_letter(all, "W"@, "w"@) + color_letter(all, "U"@, "u"@) + color_letter(
        all,
        "B"@,
        "b"@,
    ) + color_letter(all, "R"@, "r"@) + color_letter(all, "G"@, "g"@));
    if code.as_str().is_empty() {
        Some("c".to_owned())
    } else {
        Some(code)
    }
}

/// The first known card type that a text holds. The types are looked for
/// in this order: artifact, battle, creature, enchantment, instant, land,
/// planeswalker, sorcery, tribal.
pub open spec fn known_type_in(text: Seq<char>) -> Option<Seq<char>> {
    if holds_text(text, "artifact"@) {
        Some("artifact"@)
    } else if holds_text(text, "battle"@) {
        Some("battle"@)
    } else if holds_text(text, "creature"@) {
        Some("creature"@)
    } else if holds_text(text, "enchantment"@) {
        Some("enchantment"@)
    } else if holds_text(text, "instant"@) {
        Some("instant"@)
    } else if holds_text(text, "land"@) {
        Some("land"@)
    } else if holds_text(text, "planeswalker"@) {
        Some("planeswalker"@)
    } else if holds_text(text, "sorcery"@) {
        Some("sorcery"@)
    } else if holds_text(text, "tribal"@) {
        Some("tribal"@)
    } else {
        None
    }
}

/// The primary type of the left part of a type line, trimmed and
/// lower-cased: the first known type that it holds; else its first word;
/// else `unknown`. There is none where the part is empty.
pub open spec fn primary_of(left: Seq<char>) -> Option<Seq<char>> {
    if left.len() == 0 {
        None
    } else {
        match known_type_in(left) {
            Some(name) => Some(name),
            None => match first_word_of(left) {
                Some(word) => Some(word),
                None => Some("unknown"@),
            },
        }
    }
}

/// The left part of a type line, in normal form: what stands in front of
/// the first long dash.
pub open spec fn left_part(type_line: Seq<char>) -> Seq<char> {
    normalized(until_first(trimmed(type_line), '\u{2014}'))
}

/// Looks for one known type in a text.
fn held(left: &str, name: &'static str) -> (found: Option<String>)
    ensures
        match found {
            Some(text) => holds_text(left@, name@) && text@ == name@,
            None => !holds_text(left@, name@),
        },
{
    if contains_text(left, name) {
        Some(name.to_owned())
    } else {
        None
    }
}

/// Classes the left part of a type line, given trimmed and lower-cased.
pub fn primary_type_of(left: &str) -> (out: Option<String>)
    ensures
        text_of(out) == primary_of(left@),
{
    if left.is_empty() {
        return None;
    }
    if let Some(name) = held(left, "artifact") {
        return Some(name);
    }
    if let Some(name) = held(left, "battle") {
        return Some(name);
    }
    if let Some(name) = held(left, "creature") {
        return Some(name);
    }
    if let Some(name) = held(left, "enchantment") {
        return Some(name);
    }
    if let Some(name) = held(left, "instant") {
        return Some(name);
    }
    if let Some(name) = held(left, "land") {
        return Some(name);
    }
    if let Some(name) = held(left, "planeswalker") {
        return Some(name);
    }
    if let Some(name) = held(left, "sorcery") {
        return Some(name);
    }
    if let Some(name) = held(left, "tribal") {
        return Some(name);
    }
    match first_word(left) {
        Some(word) => Some(word.to_owned()),
        None => Some("unknown".to_owned()),
    }
}

/// Classes a card by its type line: takes what stands in front of the long
/// dash, and finds the first known card type in it. A type line without a
/// known type is classed by its first word. There is no class for a card
/// without a type line.
pub fn extract_primary_type(type_line: Option<&str>) -> (out: Option<String>)
    ensures
        text_of(out) == (match type_line {
            Some(line) => if trimmed(line@).len() == 0 {
                None
            } else {
                primary_of(left_part(line@))
            },
            None => None,
        }),
{
    let text = match type_line {
        Some(line) => trim(line),
        None => {
            return None;
        },
    };
    if text.is_empty() {
        return None;
    }
    let left = normalize(before_first(text, '\u{2014}'));
    primary_type_of(left.as_str())
}

/// A token that the search field offers: what is typed, how it is labelled,
/// its kind, where it comes from, and its place among the offers.
#[derive(Debug)]
pub struct FilterToken {
    pub token: String,
    pub label: String,
    pub kind: String,
    pub source: String,
    pub priority: i64,
}

/// The mathematical value of a [`FilterToken`].
pub struct TokenFact {
    pub token: Seq<char>,
    pub label: Seq<char>,
    pub kind: Seq<char>,
    pub source: Seq<char>,
    pub priority: i64,
}

impl View for FilterToken {
    type V = TokenFact;

    open spec fn view(&self) -> TokenFact {
        TokenFact {
            token: self.token@,
            label: self.label@,
            kind: self.kind@,
            source: self.source@,
            priority: self.priority,
        }
    }
}

impl FilterToken {
    /// A copy of the token.
    pub fn duplicate(&self) -> (copy: FilterToken)
        ensures
            copy@ == self@,
    {
        FilterToken {
            token: self.token.clone(),
            label: self.label.clone(),
            kind: self.kind.clone(),
            source: self.source.clone(),
            priority: self.priority,
        }
    }
}

/// The key under which a token is filed: its kind, a colon, and what is
/// typed.
pub open spec fn token_key(token: TokenFact) -> Seq<char> {
    token.kind + ":"@ + token.token
}

/// Whether tokens stand in strictly ascending order of their keys.
pub open spec fn tokens_sorted(tokens: Seq<TokenFact>) -> bool {
    forall|i: int, j: int|
        0 <= i < j < tokens.len() ==> text_rank(
            token_key(#[trigger] tokens[i]),
            token_key(#[trigger] tokens[j]),
        ) == Rank::Before
}

/// The number of leading tokens whose key comes before a key.
pub open spec fn slot(tokens: Seq<TokenFact>, key: Seq<char>) -> int
    decreases tokens.len(),
{
    if tokens.len() == 0 || text_rank(token_key(tokens[0]), key) != Rank::Before {
        0
    } else {
        1 + slot(tokens.drop_first(), key)
    }
}

/// The tokens after one was filed: in the place of the token with the same
/// key where there is one, in its place in the order otherwise.
pub open spec fn filed(tokens: Seq<TokenFact>, token: TokenFact) -> Seq<TokenFact> {
    let at = slot(tokens, token_key(token));
    if at < tokens.len() && token_key(tokens[at]) == token_key(token) {
        tokens.update(at, token)
    } else {
        tokens.insert(at, token)
    }
}

/// The tokens after a token was offered: blanks trimmed, what is typed,
/// kind and source lower-cased. A token of which nothing is typed, or
/// without a label, is not filed.
pub open spec fn offered(
    tokens: Seq<TokenFact>,
    token: Seq<char>,
    label: Seq<char>,
    kind: Seq<char>,
    source: Seq<char>,
    priority: i64,
) -> Seq<TokenFact> {
    if trimmed(token).len() == 0 || trimmed(label).len() == 0 {
        tokens
    } else {
        filed(
            tokens,
            TokenFact {
                token: normalized(token),
                label: trimmed(label),
                kind: normalized(kind),
                source: normalized(source),
                priority,
            },
        )
    }
}

/// `slot` is the first place whose key does not come before the key.
pub proof fn lemma_slot(tokens: Seq<TokenFact>, key: Seq<char>)
    ensures
        0 <= slot(tokens, key) <= tokens.len(),
        forall|j: int|
            0 <= j < slot(tokens, key) ==> text_rank(token_key(#[trigger] tokens[j]), key)
                == Rank::Before,
        slot(tokens, key) < tokens.len() ==> text_rank(token_key(tokens[slot(tokens, key)]), key)
            != Rank::Before,
    decreases tokens.len(),
{
    if tokens.len() == 0 || text_rank(token_key(tokens[0]), key) != Rank::Before {
    } else {
        let rest = tokens.drop_first();
        lemma_slot(rest, key);
        assert forall|j: int| 0 <= j < slot(tokens, key) implies text_rank(
            token_key(#[trigger] tokens[j]),
            key,
        ) == Rank::Before by {
            if j > 0 {
                assert(tokens[j] == rest[j - 1]);
            }
        }
        if slot(tokens, key) < tokens.len() {
            assert(tokens[slot(tokens, key)] == rest[slot(rest, key)]);
        }
    }
}

/// A place that a scan from the front stops at is the `slot`.
pub proof fn lemma_slot_found(tokens: Seq<TokenFact>, key: Seq<char>, at: int)
    requires
        0 <= at <= tokens.len(),
        forall|j: int|
            0 <= j < at ==> text_rank(token_key(#[trigger] tokens[j]), key) == Rank::Before,
        at < tokens.len() ==> text_rank(token_key(tokens[at]), key) != Rank::Before,
    ensures
        slot(tokens, key) == at,
    decreases tokens.len(),
{
    if at > 0 {
        let rest = tokens.drop_first();
        assert(text_rank(token_key(tokens[0]), key) == Rank::Before);
        assert forall|j: int| 0 <= j < at - 1 implies text_rank(
            token_key(#[trigger] rest[j]),
            key,
        ) == Rank::Before by {
            assert(rest[j] == tokens[j + 1]);
        }
        if at - 1 < rest.len() {
            assert(rest[at - 1] == tokens[at]);
        }
        lemma_slot_found(rest, key, at - 1);
    }
}

/// Filing a token into sorted tokens leaves them sorted.
pub proof fn lemma_filed_sorted(tokens: Seq<TokenFact>, token: TokenFact)
    requires
        tokens_sorted(tokens),
    ensures
        tokens_sorted(filed(tokens, token)),
{
    let key = token_key(token);
    let at = slot(tokens, key);
    let out = filed(tokens, token);
    lemma_slot(tokens, key);
    if at < tokens.len() && token_key(tokens[at]) == key {
        assert forall|i: int, j: int| 0 <= i < j < out.len() implies text_rank(
            token_key(#[trigger] out[i]),
            token_key(#[trigger] out[j]),
        ) == Rank::Before by {
            assert(token_key(out[i]) == token_key(tokens[i]));
            assert(token_key(out[j]) == token_key(tokens[j]));
        }
    } else {
        assert forall|i: int, j: int| 0 <= i < j < out.len() implies text_rank(
            token_key(#[trigger] out[i]),
            token_key(#[trigger] out[j]),
        ) == Rank::Before by {
            if j < at {
                assert(out[i] == tokens[i] && out[j] == tokens[j]);
            } else if j == at {
                assert(out[i] == tokens[i]);
            } else if i < at {
                assert(out[i] == tokens[i] && out[j] == tokens[j - 1]);
            } else if i == at {
                assert(out[j] == tokens[j - 1]);
                let here = token_key(tokens[at]);
                lemma_text_rank_same(here, key);
                lemma_bytes_rank_flip(encode_utf8(key), encode_utf8(here));
                lemma_bytes_rank_flip(encode_utf8(here), encode_utf8(key));
                assert(text_rank(key, here) == Rank::Before);
                if at < j - 1 {
                    assert(text_rank(here, token_key(tokens[j - 1])) == Rank::Before);
                    lemma_bytes_rank_trans(
                        encode_utf8(key),
                        encode_utf8(here),
                        encode_utf8(token_key(tokens[j - 1])),
                    );
                }
            } else {
                assert(out[i] == tokens[i - 1] && out[j] == tokens[j - 1]);
            }
        }
    }
}

/// The tokens that are on offer, each filed under its key, in the order of
/// the keys.
pub struct TokenBucket {
    tokens: Vec<FilterToken>,
}

impl View for TokenBucket {
    type V = Seq<TokenFact>;

    closed spec fn view(&self) -> Seq<TokenFact> {
        views(self.tokens@)
    }
}

impl TokenBucket {
    #[verifier::type_invariant]
    spec fn well_formed(self) -> bool {
        tokens_sorted(self@)
    }

    /// A bucket without tokens.
    pub fn new() -> (bucket: TokenBucket)
        ensures
            bucket@ == Seq::<TokenFact>::empty(),
    {
        let bucket = TokenBucket { tokens: Vec::new() };
        assert(bucket@ =~= Seq::<TokenFact>::empty());
        bucket
    }

    /// The number of tokens.
    pub fn len(&self) -> (n: usize)
        ensures
            n == self@.len(),
    {
        self.tokens.len()
    }

    /// The token at a place in key order.
    pub fn token(&self, at: usize) -> (token: &FilterToken)
        requires
            at < self@.len(),
        ensures
            token@ == self@[at as int],
    {
        &self.tokens[at]
    }

    /// Copies of the tokens, in key order.
    pub fn into_values(&self) -> (tokens: Vec<FilterToken>)
        ensures
            views(tokens@) == self@,
    {
        let mut tokens: Vec<FilterToken> = Vec::new();
        let mut i: usize = 0;
        while i < self.tokens.len()
            invariant
                i <= self.tokens@.len(),
                tokens@.len() == i,
                forall|k: int| 0 <= k < i ==> (#[trigger] tokens@[k])@ == self.tokens@[k]@,
            decreases self.tokens@.len() - i,
        {
            tokens.push(self.tokens[i].duplicate());
            i = i + 1;
        }
        assert(views(tokens@) =~= self@);
        tokens
    }

    /// Files a token under its key.
    pub fn file(&mut self, token: FilterToken)
        ensures
            final(self)@ == filed(old(self)@, token@),
    {
        proof {
            use_type_invariant(&*self);
            lemma_filed_sorted(self@, token@);
        }
        let mut key = token.kind.clone();
        key.append(":");
        key.append(token.token.as_str());
        let ghost before = self@;
        let ghost fact = token@;
        assert(key@ == token_key(fact));
        let mut at: usize = 0;
        let mut rank = Rank::After;
        while at < self.tokens.len()
            invariant
                at <= self.tokens@.len(),
                before == self@,
                before.len() == self.tokens@.len(),
                forall|j: int|
                    0 <= j < at ==> text_rank(token_key(#[trigger] before[j]), key@)
                        == Rank::Before,
            ensures
                at <= self.tokens@.len(),
                forall|j: int|
                    0 <= j < at ==> text_rank(token_key(#[trigger] before[j]), key@)
                        == Rank::Before,
                at < self.tokens@.len() ==> rank == text_rank(token_key(before[at as int]), key@)
                    && rank != Rank::Before,
            decreases self.tokens@.len() - at,
        {
            let mut other = self.tokens[at].kind.clone();
            other.append(":");
            other.append(self.tokens[at].token.as_str());
            assert(other@ == token_key(before[at as int]));
            rank = rank_text(other.as_str(), key.as_str());
            if rank != Rank::Before {
                break;
            }
            at = at + 1;
        }
        proof {
            lemma_slot_found(before, key@, at as int);
            if at < before.len() {
                lemma_text_rank_same(token_key(before[at as int]), key@);
            }
        }
        let mut tokens: Vec<FilterToken> = Vec::new();
        assert(views(tokens@) =~= Seq::<TokenFact>::empty());
        let replace = at < self.tokens.len() && rank == Rank::Same;
        core::mem::swap(&mut self.tokens, &mut tokens);
        assert(tokens@.len() == before.len());
        assert(forall|i: int| 0 <= i < tokens@.len() ==> (#[trigger] tokens@[i])@ == before[i]);
        if replace {
            tokens.set(at, token);
        } else {
            tokens.insert(at, token);
        }
        assert(views(tokens@) =~= filed(before, fact));
        core::mem::swap(&mut self.tokens, &mut tokens);
    }
}

/// Offers a token for the search field. Blanks are trimmed, and what is
/// typed, the kind and the source are lower-cased. A token of which nothing
/// is typed, or without a label, is passed over. A token takes the place of
/// one that was filed before under the same kind and text.
pub fn push_filter_token(
    bucket: &mut TokenBucket,
    token: &str,
    label: &str,
    kind: &str,
    source: &str,
    priority: i64,
)
    ensures
        final(bucket)@ == offered(old(bucket)@, token@, label@, kind@, source@, priority),
{
    if trim(token).is_empty() {
        return ;
    }
    let normalized_token = normalize(token);
    let normalized_label = trim(label);
    if normalized_label.is_empty() {
        return ;
    }
    bucket.file(
        FilterToken {
            token: normalized_token,
            label: normalized_label.to_owned(),
            kind: normalize(kind),
            source: normalize(source),
            priority,
        },
    );
}

} // verus!
