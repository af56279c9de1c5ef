//! The parts of a tokenizer: which kind each of them is.

use tokenizers::pre_tokenizers::split::SplitPattern;
use tokenizers::{
    DecoderWrapper, ModelWrapper, NormalizerWrapper as Normalizer, PostProcessorWrapper,
    PreTokenizerWrapper, PreTokenizerWrapper as Splitter, Tokenizer,
};
use vstd::prelude::*;
use vstd::string::*;

verus! {

/// A tokenizer.
#[verifier::external_type_specification]
#[verifier::external_body]
pub struct ExTokenizer(tokenizers::Tokenizer);

/// What splits a text.
#[verifier::external_type_specification]
#[verifier::external_body]
pub struct ExPreTokenizerWrapper(tokenizers::PreTokenizerWrapper);

/// What turns tokens into texts.
#[verifier::external_type_specification]
#[verifier::external_body]
pub struct ExDecoderWrapper(tokenizers::DecoderWrapper);

/// The kinds of models.
#[derive(Clone, Copy, Debug, PartialEq, Eq)]
pub enum ModelKind {
    /// Merges byte pairs, and leaves out each merge with the given chance, if there is one, as a
    /// single-precision pattern.
    BytePairs(Option<u32>),
    WordPiece,
    WordLevel,
    Unigram,
}

/// The kinds of normalizers.
#[derive(Clone, Copy, Debug, PartialEq, Eq)]
pub enum NormalizerKind {
    Bert,
    Strip,
    StripAccents,
    Nfc,
    Nfd,
    Nfkc,
    Nfkd,
    Sequence,
    Lowercase,
    Nmt,
    Precompiled,
    Replace,
    Prepend,
    ByteLevel,
}

/// The kinds of what splits a text.
#[derive(Clone, Debug)]
pub enum SplitterKind {
    Bert,
    ByteLevel,
    Delimiter,
    Metaspace,
    Whitespace,
    /// Several, one behind the other.
    Sequence(Vec<PreTokenizerWrapper>),
    /// By a text.
    Text(String),
    /// By a pattern, as it is written.
    Pattern(String),
    Punctuation,
    WhitespaceSplit,
    Digits,
    UnicodeScripts,
    FixedLength,
}

/// The mathematical value of a kind of what splits a text.
pub enum SplitterView {
    Bert,
    ByteLevel,
    Delimiter,
    Metaspace,
    Whitespace,
    Sequence(Seq<PreTokenizerWrapper>),
    Text(Seq<char>),
    Pattern(Seq<char>),
    Punctuation,
    WhitespaceSplit,
    Digits,
    UnicodeScripts,
    FixedLength,
}

impl View for SplitterKind {
    type V = SplitterView;

    open spec fn view(&self) -> SplitterView {
        match self {
            SplitterKind::Bert => SplitterView::Bert,
            SplitterKind::ByteLevel => SplitterView::ByteLevel,
            SplitterKind::Delimiter => SplitterView::Delimiter,
            SplitterKind::Metaspace => SplitterView::Metaspace,
            SplitterKind::Whitespace => SplitterView::Whitespace,
            SplitterKind::Sequence(list) => SplitterView::Sequence(list@),
            SplitterKind::Text(s) => SplitterView::Text(s@),
            SplitterKind::Pattern(s) => SplitterView::Pattern(s@),
            SplitterKind::Punctuation => SplitterView::Punctuation,
            SplitterKind::WhitespaceSplit => SplitterView::WhitespaceSplit,
            SplitterKind::Digits => SplitterView::Digits,
            SplitterKind::UnicodeScripts => SplitterView::UnicodeScripts,
            SplitterKind::FixedLength => SplitterView::FixedLength,
        }
    }
}

/// The kinds of what finishes the tokens of a text.
#[derive(Clone, Copy, Debug, PartialEq, Eq)]
pub enum FinisherKind {
    Roberta,
    Bert,
    ByteLevel,
    Template,
    Sequence,
}

/// The kinds of what turns tokens into texts.
#[derive(Clone, Debug)]
pub enum DecoderKind {
    BytePairs,
    ByteLevel,
    WordPiece,
    Metaspace,
    Ctc,
    /// Several, one behind the other.
    Sequence(Vec<DecoderWrapper>),
    Replace,
    Fuse,
    /// Takes up to so many characters from the end of a token.
    Strip(usize),
    ByteFallback,
}

/// The mathematical value of a kind of what turns tokens into texts.
pub enum DecoderView {
    BytePairs,
    ByteLevel,
    WordPiece,
    Metaspace,
    Ctc,
    Sequence(Seq<DecoderWrapper>),
    Replace,
    Fuse,
    Strip(usize),
    ByteFallback,
}

impl View for DecoderKind {
    type V = DecoderView;

    open spec fn view(&self) -> DecoderView {
        match self {
            DecoderKind::BytePairs => DecoderView::BytePairs,
            DecoderKind::ByteLevel => DecoderView::ByteLevel,
            DecoderKind::WordPiece => DecoderView::WordPiece,
            DecoderKind::Metaspace => DecoderView::Metaspace,
            DecoderKind::Ctc => DecoderView::Ctc,
            DecoderKind::Sequence(list) => DecoderView::Sequence(list@),
            DecoderKind::Replace => DecoderView::Replace,
            DecoderKind::Fuse => DecoderView::Fuse,
            DecoderKind::Strip(stop) => DecoderView::Strip(*stop),
            DecoderKind::ByteFallback => DecoderView::ByteFallback,
        }
    }
}

/// The kind of a tokenizer's model.
pub uninterp spec fn model_kind(tokenizer: tokenizers::Tokenizer) -> ModelKind;

/// The kind of a tokenizer's normalizer, if it has one.
pub uninterp spec fn normalizer_kind(tokenizer: tokenizers::Tokenizer) -> Option<NormalizerKind>;

/// What splits the texts of a tokenizer, if anything does.
pub uninterp spec fn splitter(tokenizer: tokenizers::Tokenizer) -> Option<
    tokenizers::PreTokenizerWrapper,
>;

/// The kind of what splits a text.
pub uninterp spec fn splitter_kind(part: tokenizers::PreTokenizerWrapper) -> SplitterView;

/// The kind of what finishes the tokens of a tokenizer's texts, if anything does.
pub uninterp spec fn finisher_kind(tokenizer: tokenizers::Tokenizer) -> Option<FinisherKind>;

/// What turns the tokens of a tokenizer into texts, if anything special does.
pub uninterp spec fn decoder(tokenizer: tokenizers::Tokenizer) -> Option<tokenizers::DecoderWrapper>;

/// The kind of what turns tokens into texts.
pub uninterp spec fn decoder_kind(part: tokenizers::DecoderWrapper) -> DecoderView;

/// `tokenizers::TokenizerImpl::get_model`: which kind of model there is, and the field `dropout` of
/// one that merges byte pairs.
#[verifier::external_body]
pub(crate) fn tokenizer_model(tokenizer: &Tokenizer) -> (r: ModelKind)
    ensures
        r == model_kind(*tokenizer),
{
    match tokenizer.get_model() {
        ModelWrapper::BPE(bpe) => ModelKind::BytePairs(bpe.dropout.map(|p| p.to_bits())),
        ModelWrapper::WordPiece(_) => ModelKind::WordPiece,
        ModelWrapper::WordLevel(_) => ModelKind::WordLevel,
        ModelWrapper::Unigram(_) => ModelKind::Unigram,
    }
}

/// `tokenizers::TokenizerImpl::get_normalizer`: which kind of normalizer there is.
#[verifier::external_body]
pub(crate) fn tokenizer_normalizer(tokenizer: &Tokenizer) -> (r: Option<NormalizerKind>)
    ensures
        r == normalizer_kind(*tokenizer),
{
    tokenizer.get_normalizer().map(|part| match part {
        Normalizer::BertNormalizer(_) => NormalizerKind::Bert,
        Normalizer::StripNormalizer(_) => NormalizerKind::Strip,
        Normalizer::StripAccents(_) => NormalizerKind::StripAccents,
        Normalizer::NFC(_) => NormalizerKind::Nfc, Normalizer::NFD(_) => NormalizerKind::Nfd,
        Normalizer::NFKC(_) => NormalizerKind::Nfkc, Normalizer::NFKD(_) => NormalizerKind::Nfkd,
        Normalizer::Sequence(_) => NormalizerKind::Sequence,
        Normalizer::Lowercase(_) => NormalizerKind::Lowercase,
        Normalizer::Nmt(_) => NormalizerKind::Nmt,
        Normalizer::Precompiled(_) => NormalizerKind::Precompiled,
        Normalizer::Replace(_) => NormalizerKind::Replace,
        Normalizer::Prepend(_) => NormalizerKind::Prepend,
        Normalizer::ByteLevel(_) => NormalizerKind::ByteLevel,
    })
}

/// `tokenizers::TokenizerImpl::get_pre_tokenizer`: what splits a text, if anything does.
#[verifier::external_body]
pub(crate) fn tokenizer_splitter(tokenizer: &Tokenizer) -> (r: Option<PreTokenizerWrapper>)
    ensures
        r == splitter(*tokenizer),
{
    tokenizer.get_pre_tokenizer().cloned()
}

/// The variants of `tokenizers::PreTokenizerWrapper`: which one there is, with the parts of a
/// sequence, or the text or pattern of a split.
#[verifier::external_body]
pub(crate) fn kind_of_splitter(part: &PreTokenizerWrapper) -> (r: SplitterKind)
    ensures
        r@ == splitter_kind(*part),
{
    match part {
        Splitter::BertPreTokenizer(_) => SplitterKind::Bert,
        Splitter::ByteLevel(_) => SplitterKind::ByteLevel,
        Splitter::Delimiter(_) => SplitterKind::Delimiter, Splitter::Metaspace(_) => SplitterKind::Metaspace,
        Splitter::Whitespace(_) => SplitterKind::Whitespace,
        Splitter::Sequence(list) => SplitterKind::Sequence(list.as_ref().to_vec()),
        Splitter::Split(split) => match &split.pattern {
            SplitPattern::String(s) => SplitterKind::Text(s.clone()),
            SplitPattern::Regex(s) => SplitterKind::Pattern(s.clone()),
        },
        Splitter::Punctuation(_) => SplitterKind::Punctuation,
        Splitter::WhitespaceSplit(_) => SplitterKind::WhitespaceSplit,
        Splitter::Digits(_) => SplitterKind::Digits, Splitter::FixedLength(_) => SplitterKind::FixedLength,
        Splitter::UnicodeScripts(_) => SplitterKind::UnicodeScripts,
    }
}

/// `tokenizers::TokenizerImpl::get_post_processor`: which kind of post-processor there is.
#[verifier::external_body]
pub(crate) fn tokenizer_finisher(tokenizer: &Tokenizer) -> (r: Option<FinisherKind>)
    ensures
        r == finisher_kind(*tokenizer),
{
    tokenizer.get_post_processor().map(|part| match part {
        PostProcessorWrapper::Roberta(_) => FinisherKind::Roberta,
        PostProcessorWrapper::Bert(_) => FinisherKind::Bert,
        PostProcessorWrapper::ByteLevel(_) => FinisherKind::ByteLevel,
        PostProcessorWrapper::Template(_) => FinisherKind::Template,
        PostProcessorWrapper::Sequence(_) => FinisherKind::Sequence,
    })
}

/// `tokenizers::TokenizerImpl::get_decoder`: what turns tokens into texts, if anything special does.
#[verifier::external_body]
pub(crate) fn tokenizer_decoder(tokenizer: &Tokenizer) -> (r: Option<DecoderWrapper>)
    ensures
        r == decoder(*tokenizer),
{
    tokenizer.get_decoder().cloned()
}

/// The variants of `tokenizers::DecoderWrapper`: which one there is, with the parts of a sequence,
/// or the field `stop` of one that takes characters away.
#[verifier::external_body]
pub(crate) fn kind_of_decoder(part: &DecoderWrapper) -> (r: DecoderKind)
    ensures
        r@ == decoder_kind(*part),
{
    match part {
        DecoderWrapper::BPE(_) => DecoderKind::BytePairs,
        DecoderWrapper::ByteLevel(_) => DecoderKind::ByteLevel,
        DecoderWrapper::WordPiece(_) => DecoderKind::WordPiece,
        DecoderWrapper::Metaspace(_) => DecoderKind::Metaspace,
        DecoderWrapper::CTC(_) => DecoderKind::Ctc,
        DecoderWrapper::Sequence(list) => DecoderKind::Sequence(list.get_decoders().to_vec()),
        DecoderWrapper::Replace(_) => DecoderKind::Replace,
        DecoderWrapper::Fuse(_) => DecoderKind::Fuse,
        DecoderWrapper::Strip(strip) => DecoderKind::Strip(strip.stop),
        DecoderWrapper::ByteFallback(_) => DecoderKind::ByteFallback,
    }
}

} // verus!
