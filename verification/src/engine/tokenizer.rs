//! The tokenizer: what turns texts into tokens and back.

use tokenizers::{DecoderWrapper, PreTokenizerWrapper};
use vstd::prelude::*;
use vstd::string::*;

use crate::engine::tokenizer_parts;
use crate::engine::tokenizer_parts::{
    kind_of_decoder, kind_of_splitter, tokenizer_decoder, tokenizer_finisher, tokenizer_model,
    tokenizer_normalizer, tokenizer_splitter, DecoderKind, DecoderView, FinisherKind, ModelKind,
    NormalizerKind, SplitterKind, SplitterView,
};
use crate::error::{ErrorView, RsinferError};
use crate::text;

verus! {

/// The tokens that a tokenizer knows, each with its identifier.
pub uninterp spec fn vocabulary(tokenizer: tokenizers::Tokenizer) -> Map<Seq<char>, u32>;

/// The chance that a byte-pair model leaves a merge out, if it has one, as a single-precision
/// pattern; nothing for a model of another kind.
pub open spec fn merge_dropout(tokenizer: tokenizers::Tokenizer) -> Option<Option<u32>> {
    match tokenizer_parts::model_kind(tokenizer) {
        ModelKind::BytePairs(p) => Some(p),
        _ => None,
    }
}

/// What splits the texts of a tokenizer, one behind the other.  What a sequence within a sequence
/// holds is not looked at.
pub open spec fn splitter_parts(tokenizer: tokenizers::Tokenizer) -> Seq<SplitterView> {
    match tokenizer_parts::splitter(tokenizer) {
        None => Seq::empty(),
        Some(part) => match tokenizer_parts::splitter_kind(part) {
            SplitterView::Sequence(list) => list.map_values(
                |p: PreTokenizerWrapper| tokenizer_parts::splitter_kind(p),
            ),
            one => seq![one],
        },
    }
}

/// What turns the tokens of a tokenizer into texts, one behind the other.  What a sequence within a
/// sequence holds is not looked at.
pub open spec fn decoder_parts(tokenizer: tokenizers::Tokenizer) -> Seq<DecoderView> {
    match tokenizer_parts::decoder(tokenizer) {
        None => Seq::empty(),
        Some(part) => match tokenizer_parts::decoder_kind(part) {
            DecoderView::Sequence(list) => list.map_values(
                |p: DecoderWrapper| tokenizer_parts::decoder_kind(p),
            ),
            one => seq![one],
        },
    }
}

/// The tokens that were added to a tokenizer, each with whether it takes the spaces on its left.
pub uninterp spec fn added_tokens(tokenizer: tokenizers::Tokenizer) -> Map<u32, bool>;

/// The greatest number of tokens, and how many of them the next piece repeats, if there is a limit.
pub uninterp spec fn truncation(tokenizer: tokenizers::Tokenizer) -> Option<(usize, usize)>;

/// Whether short texts are filled up.
pub uninterp spec fn padded(tokenizer: tokenizers::Tokenizer) -> bool;

/// `tokenizers::TokenizerImpl::get_added_tokens_decoder`: the identifiers of the tokens that were
/// added, each with the field `lstrip`.  They come in the order in which a hash map is walked, so
/// the order is left open.
#[verifier::external_body]
fn tokenizer_added(tokenizer: &tokenizers::Tokenizer) -> (r: Vec<(u32, bool)>)
    ensures
        forall|i: int|
            0 <= i < r@.len() ==> added_tokens(*tokenizer).contains_pair(
                (#[trigger] r@[i]).0,
                r@[i].1,
            ),
        forall|k: u32| #[trigger]
            added_tokens(*tokenizer).contains_key(k) ==> exists|i: int|
                0 <= i < r@.len() && (#[trigger] r@[i]).0 == k,
{
    tokenizer.get_added_tokens_decoder().into_iter().map(|(id, token)| (id, token.lstrip)).collect()
}

/// `tokenizers::TokenizerImpl::get_truncation`: the fields `max_length` and `stride`, if texts are
/// cut.
#[verifier::external_body]
fn tokenizer_truncation(tokenizer: &tokenizers::Tokenizer) -> (r: Option<(usize, usize)>)
    ensures
        r == truncation(*tokenizer),
{
    tokenizer.get_truncation().map(|t| (t.max_length, t.stride))
}

/// `tokenizers::TokenizerImpl::get_padding`: whether texts are filled up.
#[verifier::external_body]
fn tokenizer_padded(tokenizer: &tokenizers::Tokenizer) -> (r: bool)
    ensures
        r == padded(*tokenizer),
{
    tokenizer.get_padding().is_some()
}

/// Whether a pattern moves the start of its own match.
pub open spec fn moves_start(pattern: Seq<char>) -> bool {
    exists|i: int|
        0 <= i < pattern.len() - 1 && #[trigger] pattern[i] == '\\' && pattern[i + 1] == 'K'
}

/// Whether a part splits any text.
pub open spec fn splits_any(p: SplitterView) -> bool {
    match p {
        SplitterView::Text(pattern) | SplitterView::Pattern(pattern) => !moves_start(pattern),
        SplitterView::ByteLevel => true,
        _ => false,
    }
}

/// Whether a normalizer, if there is one, brings a text into one of the four Unicode normal forms.
pub open spec fn normalizes_any(n: Option<NormalizerKind>) -> bool {
    match n {
        None => true,
        Some(NormalizerKind::Nfc | NormalizerKind::Nfd) => true,
        Some(NormalizerKind::Nfkc | NormalizerKind::Nfkd) => true,
        Some(_) => false,
    }
}

/// Whether what finishes the tokens of a text, if anything does, adds none.
pub open spec fn finishes_any(f: Option<FinisherKind>) -> bool {
    f is None || f == Some(FinisherKind::ByteLevel)
}

/// Whether a tokenizer takes any text: it merges byte pairs, normalizes to a Unicode normal form at
/// most, splits by patterns that keep the start of their matches and by bytes, adds no tokens, has
/// none added that take the spaces on their left, fills nothing up, and repeats fewer tokens than it
/// keeps where it cuts.  Outside this family there are tokenizers that stop the program, for
/// instance one that splits into pieces of no length, or one with a token that takes the spaces on
/// its right and another that takes those on its left.
pub open spec fn encodes_any(t: tokenizers::Tokenizer) -> bool {
    &&& merge_dropout(t) is Some
    &&& normalizes_any(tokenizer_parts::normalizer_kind(t))
    &&& forall|i: int| 0 <= i < splitter_parts(t).len() ==> splits_any(#[trigger] splitter_parts(t)[i])
    &&& forall|k: u32| #[trigger] added_tokens(t).contains_key(k) ==> !added_tokens(t)[k]
    &&& finishes_any(tokenizer_parts::finisher_kind(t))
    &&& !padded(t)
    &&& truncation(t) matches Some(p) ==> p.0 == 0 || p.1 < p.0
}

/// Whether a part of a decoder takes any tokens.
pub open spec fn decodes_part(p: DecoderView) -> bool {
    match p {
        DecoderView::ByteLevel | DecoderView::WordPiece | DecoderView::Metaspace => true,
        DecoderView::Ctc | DecoderView::Fuse | DecoderView::ByteFallback => true,
        DecoderView::Strip(stop) => stop == 0,
        DecoderView::BytePairs | DecoderView::Sequence(_) | DecoderView::Replace => false,
    }
}

/// Whether a tokenizer turns any tokens into a text.  A decoder that takes characters from the end
/// of a token stops the program on a token that has too few, one that replaces the ends of words may
/// do so where there are no tokens, and one that replaces a pattern where the pattern moves the start
/// of its match.
pub open spec fn decodes_any(t: tokenizers::Tokenizer) -> bool {
    forall|i: int| 0 <= i < decoder_parts(t).len() ==> decodes_part(#[trigger] decoder_parts(t)[i])
}

/// The tokens that a tokenizer finds in texts, with the special ones, where it leaves out no merges
/// at random.
pub uninterp spec fn encodings(tokenizer: tokenizers::Tokenizer) -> Map<Seq<char>, Seq<u32>>;

/// `tokenizers::TokenizerImpl::encode` with special tokens, and the identifiers of its result.  They
/// follow from the tokenizer and the text unless merges are left out at random; of that case, and of
/// the words of the error, nothing is claimed.
#[verifier::external_body]
fn tokenizer_encode(tokenizer: &tokenizers::Tokenizer, text: &str) -> (r: Result<Vec<u32>, String>)
    requires
        encodes_any(*tokenizer),
    ensures
        merge_dropout(*tokenizer) == Some(None::<u32>) ==> match r {
            Ok(ids) => encodings(*tokenizer).contains_pair(text@, ids@),
            Err(_) => !encodings(*tokenizer).contains_key(text@),
        },
{
    tokenizer.encode(text, true).map(|e| e.get_ids().to_vec()).map_err(|e| e.to_string())
}

/// The text that a tokenizer gives, without special tokens, for some identifiers.
pub uninterp spec fn decoding(tokenizer: tokenizers::Tokenizer, ids: Seq<u32>) -> Seq<char>;

/// `tokenizers::TokenizerImpl::decode`, without special tokens: the text of the identifiers.  None
/// of the decoders that are admitted here has an error to give.
#[verifier::external_body]
fn tokenizer_decode(tokenizer: &tokenizers::Tokenizer, ids: &[u32]) -> (r: Result<String, String>)
    requires
        decodes_any(*tokenizer),
    ensures
        r is Ok,
        r->Ok_0@ == decoding(*tokenizer, ids@),
{
    tokenizer.decode(ids, true).map_err(|e| e.to_string())
}

/// `tokenizers::TokenizerImpl::token_to_id`: the identifier of a token, if the tokenizer knows
/// it.
#[verifier::external_body]
fn tokenizer_id(tokenizer: &tokenizers::Tokenizer, token: &str) -> (r: Option<u32>)
    ensures
        match r {
            Some(id) => vocabulary(*tokenizer).contains_pair(token@, id),
            None => !vocabulary(*tokenizer).contains_key(token@),
        },
{
    tokenizer.token_to_id(token)
}

/// The identifier of a token, if a tokenizer knows it.
pub open spec fn known(tokenizer: tokenizers::Tokenizer, token: Seq<char>) -> Option<u32> {
    if vocabulary(tokenizer).contains_key(token) {
        Some(vocabulary(tokenizer)[token])
    } else {
        None
    }
}

/// A result of the tokenizer as a result of the library.
pub fn tokenizer_result<T>(r: Result<T, String>) -> (q: Result<T, RsinferError>)
    ensures
        match (r, q) {
            (Ok(a), Ok(b)) => a == b,
            (Err(e), Err(f)) => f@ == ErrorView::TokenizerError(e@),
            _ => false,
        },
{
    match r {
        Ok(v) => Ok(v),
        Err(e) => Err(RsinferError::TokenizerError(e)),
    }
}

fn keeps_start(pattern: &str) -> (r: bool)
    ensures
        r == !moves_start(pattern@),
{
    let chars = text::chars_of(pattern);
    let mut i: usize = 0;
    while i < chars.len()
        invariant
            i <= chars@.len(),
            chars@ == pattern@,
            forall|j: int|
                0 <= j < i && j < chars@.len() - 1 ==> !((#[trigger] chars@[j]) == '\\' && chars@[j
                    + 1] == 'K'),
        decreases chars@.len() - i,
    {
        if chars[i] == '\\' && chars.len() - i > 1 && chars[i + 1] == 'K' {
            assert(pattern@[i as int] == '\\');
            return false;
        }
        i += 1;
    }
    true
}

fn part_splits(p: &SplitterKind) -> (r: bool)
    ensures
        r == splits_any(p@),
{
    match p {
        SplitterKind::Text(s) => keeps_start(s.as_str()),
        SplitterKind::Pattern(s) => keeps_start(s.as_str()),
        SplitterKind::ByteLevel => true,
        _ => false,
    }
}

fn parts_split(list: &[PreTokenizerWrapper]) -> (r: bool)
    ensures
        r == (forall|i: int|
            0 <= i < list@.len() ==> splits_any(
                tokenizer_parts::splitter_kind(#[trigger] list@[i]),
            )),
{
    let mut i: usize = 0;
    while i < list.len()
        invariant
            i <= list@.len(),
            forall|j: int|
                0 <= j < i ==> splits_any(tokenizer_parts::splitter_kind(#[trigger] list@[j])),
        decreases list@.len() - i,
    {
        if !part_splits(&kind_of_splitter(&list[i])) {
            return false;
        }
        i += 1;
    }
    true
}

fn all_split(tokenizer: &tokenizers::Tokenizer) -> (r: bool)
    ensures
        r == (forall|i: int|
            0 <= i < splitter_parts(*tokenizer).len() ==> splits_any(
                #[trigger] splitter_parts(*tokenizer)[i],
            )),
{
    let ghost parts = splitter_parts(*tokenizer);
    match tokenizer_splitter(tokenizer) {
        None => true,
        Some(part) => match kind_of_splitter(&part) {
            SplitterKind::Sequence(list) => {
                let r = parts_split(list.as_slice());
                proof {
                    assert(parts.len() == list@.len());
                    assert forall|i: int| 0 <= i < parts.len() implies #[trigger] parts[i]
                        == tokenizer_parts::splitter_kind(list@[i]) by {}
                    if !r {
                        let i = choose|i: int|
                            0 <= i < list@.len() && !splits_any(
                                tokenizer_parts::splitter_kind(#[trigger] list@[i]),
                            );
                        assert(!splits_any(parts[i]));
                    }
                }
                r
            },
            one => {
                assert(parts[0] == one@);
                part_splits(&one)
            },
        },
    }
}

fn added_keep_left(tokenizer: &tokenizers::Tokenizer) -> (r: bool)
    ensures
        r == (forall|k: u32| #[trigger]
            added_tokens(*tokenizer).contains_key(k) ==> !added_tokens(*tokenizer)[k]),
{
    let added = tokenizer_added(tokenizer);
    let ghost all = added_tokens(*tokenizer);
    let mut i: usize = 0;
    while i < added.len()
        invariant
            i <= added@.len(),
            all == added_tokens(*tokenizer),
            forall|j: int|
                0 <= j < added@.len() ==> all.contains_pair((#[trigger] added@[j]).0, added@[j].1),
            forall|j: int| 0 <= j < i ==> !(#[trigger] added@[j]).1,
        decreases added@.len() - i,
    {
        if added[i].1 {
            assert(all.contains_pair(added@[i as int].0, added@[i as int].1));
            assert(all.contains_key(added@[i as int].0));
            return false;
        }
        i += 1;
    }
    assert forall|k: u32| #[trigger] all.contains_key(k) implies !all[k] by {
        let j = choose|j: int| 0 <= j < added@.len() && (#[trigger] added@[j]).0 == k;
        assert(all.contains_pair(added@[j].0, added@[j].1));
    }
    true
}

fn part_decodes(p: &DecoderKind) -> (r: bool)
    ensures
        r == decodes_part(p@),
{
    match p {
        DecoderKind::ByteLevel | DecoderKind::WordPiece | DecoderKind::Metaspace => true,
        DecoderKind::Ctc | DecoderKind::Fuse | DecoderKind::ByteFallback => true,
        DecoderKind::Strip(stop) => *stop == 0,
        DecoderKind::BytePairs | DecoderKind::Sequence(_) | DecoderKind::Replace => false,
    }
}

fn parts_decode(list: &[DecoderWrapper]) -> (r: bool)
    ensures
        r == (forall|i: int|
            0 <= i < list@.len() ==> decodes_part(
                tokenizer_parts::decoder_kind(#[trigger] list@[i]),
            )),
{
    let mut i: usize = 0;
    while i < list.len()
        invariant
            i <= list@.len(),
            forall|j: int|
                0 <= j < i ==> decodes_part(tokenizer_parts::decoder_kind(#[trigger] list@[j])),
        decreases list@.len() - i,
    {
        if !part_decodes(&kind_of_decoder(&list[i])) {
            return false;
        }
        i += 1;
    }
    true
}

fn normalizes(n: Option<NormalizerKind>) -> (r: bool)
    ensures
        r == normalizes_any(n),
{
    match n {
        None => true,
        Some(NormalizerKind::Nfc | NormalizerKind::Nfd) => true,
        Some(NormalizerKind::Nfkc | NormalizerKind::Nfkd) => true,
        Some(_) => false,
    }
}

fn finishes(f: Option<FinisherKind>) -> (r: bool)
    ensures
        r == finishes_any(f),
{
    match f {
        None => true,
        Some(FinisherKind::ByteLevel) => true,
        Some(_) => false,
    }
}

/// Whether a tokenizer takes any text.
pub fn can_encode(tokenizer: &tokenizers::Tokenizer) -> (r: bool)
    ensures
        r == encodes_any(*tokenizer),
{
    match tokenizer_model(tokenizer) {
        ModelKind::BytePairs(_) => {},
        _ => {
            return false;
        },
    }
    if !normalizes(tokenizer_normalizer(tokenizer)) || !finishes(tokenizer_finisher(tokenizer)) {
        return false;
    }
    if tokenizer_padded(tokenizer) {
        return false;
    }
    match tokenizer_truncation(tokenizer) {
        Some((most, again)) => {
            if most != 0 && again >= most {
                return false;
            }
        },
        None => {},
    }
    if !added_keep_left(tokenizer) {
        return false;
    }
    all_split(tokenizer)
}

/// Whether a tokenizer turns any tokens into a text.
pub fn can_decode(tokenizer: &tokenizers::Tokenizer) -> (r: bool)
    ensures
        r == decodes_any(*tokenizer),
{
    let ghost parts = decoder_parts(*tokenizer);
    match tokenizer_decoder(tokenizer) {
        None => true,
        Some(part) => match kind_of_decoder(&part) {
            DecoderKind::Sequence(list) => {
                let r = parts_decode(list.as_slice());
                proof {
                    assert(parts.len() == list@.len());
                    assert forall|i: int| 0 <= i < parts.len() implies #[trigger] parts[i]
                        == tokenizer_parts::decoder_kind(list@[i]) by {}
                    if !r {
                        let i = choose|i: int|
                            0 <= i < list@.len() && !decodes_part(
                                tokenizer_parts::decoder_kind(#[trigger] list@[i]),
                            );
                        assert(!decodes_part(parts[i]));
                    }
                }
                r
            },
            one => {
                assert(parts[0] == one@);
                part_decodes(&one)
            },
        },
    }
}

/// What encoding a text gives.
pub open spec fn is_encoded(
    tokenizer: tokenizers::Tokenizer,
    text: Seq<char>,
    r: Result<Vec<u32>, RsinferError>,
) -> bool {
    &&& r matches Err(e) ==> e@ is TokenizerError
    &&& merge_dropout(tokenizer) == Some(None::<u32>) ==> match r {
        Ok(ids) => encodings(tokenizer).contains_pair(text, ids@),
        Err(_) => !encodings(tokenizer).contains_key(text),
    }
}

/// The tokens of a text, with the special ones.  Of a tokenizer that leaves out merges at random it
/// is left unsaid which tokens they are, and whether there is an error.
pub fn encode(tokenizer: &tokenizers::Tokenizer, text: &str) -> (r: Result<Vec<u32>, RsinferError>)
    requires
        encodes_any(*tokenizer),
    ensures
        is_encoded(*tokenizer, text@, r),
{
    tokenizer_result(tokenizer_encode(tokenizer, text))
}

/// The text of some tokens, without the special ones; where the tokenizer turns any tokens into a
/// text, there always is one.
pub fn decode(tokenizer: &tokenizers::Tokenizer, ids: &[u32]) -> (r: Result<String, RsinferError>)
    requires
        decodes_any(*tokenizer),
    ensures
        r matches Ok(s) && s@ == decoding(*tokenizer, ids@),
{
    tokenizer_result(tokenizer_decode(tokenizer, ids))
}

/// The tokens of a text, if the tokenizer takes any text.
pub fn try_encode(tokenizer: &tokenizers::Tokenizer, text: &str) -> (r: Option<
    Result<Vec<u32>, RsinferError>,
>)
    ensures
        match r {
            Some(q) => encodes_any(*tokenizer) && is_encoded(*tokenizer, text@, q),
            None => !encodes_any(*tokenizer),
        },
{
    if can_encode(tokenizer) {
        Some(encode(tokenizer, text))
    } else {
        None
    }
}

/// The text of some tokens, if the tokenizer turns any tokens into a text.
pub fn try_decode(tokenizer: &tokenizers::Tokenizer, ids: &[u32]) -> (r: Option<
    Result<String, RsinferError>,
>)
    ensures
        match r {
            Some(q) => decodes_any(*tokenizer) && (q matches Ok(s) && s@ == decoding(
                *tokenizer,
                ids@,
            )),
            None => !decodes_any(*tokenizer),
        },
{
    if can_decode(tokenizer) {
        Some(decode(tokenizer, ids))
    } else {
        None
    }
}

/// The tokens that end a text: the one of the model, and those of the two special ones that are
/// known, each once.
pub open spec fn stops(eos: u32, im_end: Option<u32>, end_of_text: Option<u32>) -> Seq<u32> {
    with_stop(with_stop(seq![eos], im_end), end_of_text)
}

/// Some tokens with one more, if it is known and new.
pub open spec fn with_stop(s: Seq<u32>, id: Option<u32>) -> Seq<u32> {
    match id {
        Some(i) if !s.contains(i) => s.push(i),
        _ => s,
    }
}

/// Whether a token is among some others.
pub fn has_token(tokens: &[u32], token: u32) -> (r: bool)
    ensures
        r == tokens@.contains(token),
{
    let mut i: usize = 0;
    while i < tokens.len()
        invariant
            i <= tokens@.len(),
            forall|j: int| 0 <= j < i ==> tokens@[j] != token,
        decreases tokens@.len() - i,
    {
        if tokens[i] == token {
            return true;
        }
        i += 1;
    }
    false
}

fn add_stop(tokens: &mut Vec<u32>, id: Option<u32>)
    ensures
        final(tokens)@ == with_stop(old(tokens)@, id),
{
    match id {
        Some(i) => {
            if !has_token(tokens, i) {
                tokens.push(i);
            }
        },
        None => {},
    }
}

/// The tokens that end a text.
pub fn stop_tokens(eos: u32, im_end: Option<u32>, end_of_text: Option<u32>) -> (r: Vec<u32>)
    ensures
        r@ == stops(eos, im_end, end_of_text),
{
    let mut tokens: Vec<u32> = Vec::new();
    tokens.push(eos);
    assert(tokens@ =~= seq![eos]);
    add_stop(&mut tokens, im_end);
    add_stop(&mut tokens, end_of_text);
    tokens
}

/// The tokens that end a text of a model with the given tokenizer.
pub fn tokenizer_stops(tokenizer: &tokenizers::Tokenizer, eos: u32) -> (r: Vec<u32>)
    ensures
        r@ == stops(
            eos,
            known(*tokenizer, "<|im_end|>"@),
            known(*tokenizer, "<|endoftext|>"@),
        ),
{
    let a = tokenizer_id(tokenizer, "<|im_end|>");
    let b = tokenizer_id(tokenizer, "<|endoftext|>");
    stop_tokens(eos, a, b)
}

/// Law: a text ends at the token of the model and at each of the two special ones that are known, and
/// at no other; each stands once, that of the model first.
pub proof fn law_stops_are_those_known(eos: u32, a: Option<u32>, b: Option<u32>, token: u32)
    ensures
        stops(eos, a, b).contains(token) <==> token == eos || a == Some(token) || b == Some(token),
        stops(eos, a, b).len() > 0 && stops(eos, a, b)[0] == eos,
        stops(eos, a, b).no_duplicates(),
{
    let one = seq![eos];
    assert(one[0] == eos);
    assert(one.contains(token) <==> token == eos);
    let two = with_stop(one, a);
    let three = with_stop(two, b);
    lemma_with_stop(one, a, token);
    lemma_with_stop(two, b, token);
}

proof fn lemma_with_stop(s: Seq<u32>, id: Option<u32>, token: u32)
    requires
        s.no_duplicates(),
        s.len() > 0,
    ensures
        with_stop(s, id).contains(token) <==> s.contains(token) || id == Some(token),
        with_stop(s, id).no_duplicates(),
        with_stop(s, id).len() > 0 && with_stop(s, id)[0] == s[0],
{
    match id {
        Some(i) => {
            if !s.contains(i) {
                let t = s.push(i);
                assert(t[s.len() as int] == i);
                if s.contains(token) {
                    let k = choose|k: int| 0 <= k < s.len() && s[k] == token;
                    assert(t[k] == token);
                }
                if t.contains(token) {
                    let k = choose|k: int| 0 <= k < t.len() && t[k] == token;
                    if k < s.len() {
                        assert(s[k] == token);
                    }
                }
            }
        },
        None => {},
    }
}

/// Whether no backslash of a pattern is followed by `K`.
pub open spec fn starts_stay(p: Seq<char>) -> bool {
    forall|j: int| 0 <= j < p.len() - 1 && #[trigger] p[j] == '\\' ==> p[j + 1] != 'K'
}

/// Law: a tokenizer is trusted with any text where it merges byte pairs, changes at most the Unicode
/// form of the text, splits it by bytes and by patterns that keep the start of their matches, adds,
/// fills up and swallows nothing, and repeats less than it keeps where it cuts.
pub proof fn law_what_encodes_any(t: tokenizers::Tokenizer)
    ensures
        encodes_any(t) <==> {
            &&& tokenizer_parts::model_kind(t) is BytePairs
            &&& match tokenizer_parts::normalizer_kind(t) {
                Some(n) => n is Nfc || n is Nfd || n is Nfkc || n is Nfkd,
                None => true,
            }
            &&& match tokenizer_parts::finisher_kind(t) {
                Some(f) => f is ByteLevel,
                None => true,
            }
            &&& !padded(t)
            &&& match truncation(t) {
                Some(p) => p.0 == 0 || p.1 < p.0,
                None => true,
            }
            &&& forall|k: u32| #[trigger] added_tokens(t).contains_key(k) ==> !added_tokens(t)[k]
            &&& forall|i: int|
                0 <= i < splitter_parts(t).len() ==> match #[trigger] splitter_parts(t)[i] {
                    SplitterView::ByteLevel => true,
                    SplitterView::Text(p) => starts_stay(p),
                    SplitterView::Pattern(p) => starts_stay(p),
                    _ => false,
                }
        },
{
    assert forall|i: int| 0 <= i < splitter_parts(t).len() implies splits_any(
        #[trigger] splitter_parts(t)[i],
    ) == (match splitter_parts(t)[i] {
        SplitterView::ByteLevel => true,
        SplitterView::Text(p) => starts_stay(p),
        SplitterView::Pattern(p) => starts_stay(p),
        _ => false,
    }) by {
        match splitter_parts(t)[i] {
            SplitterView::Text(p) => {
                lemma_starts_stay(p);
            },
            SplitterView::Pattern(p) => {
                lemma_starts_stay(p);
            },
            _ => {},
        }
    }
}

proof fn lemma_starts_stay(p: Seq<char>)
    ensures
        starts_stay(p) == !moves_start(p),
{
    if moves_start(p) {
        let i = choose|i: int|
            0 <= i < p.len() - 1 && #[trigger] p[i] == '\\' && p[i + 1] == 'K';
        assert(p[i] == '\\');
    }
}

/// Law: a tokenizer is trusted with any tokens where each part of its decoder works by bytes, joins
/// or spells out tokens, or takes nothing from their ends.
pub proof fn law_what_decodes_any(t: tokenizers::Tokenizer)
    ensures
        decodes_any(t) <==> forall|i: int|
            0 <= i < decoder_parts(t).len() ==> {
                let p = #[trigger] decoder_parts(t)[i];
                ||| p is ByteLevel || p is WordPiece || p is Metaspace
                ||| p is Ctc || p is Fuse || p is ByteFallback
                ||| p == DecoderView::Strip(0)
            },
{
}

} // verus!
