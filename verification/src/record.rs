//! The input of an indexing run: products, the words of their fields, and
//! lines that could not be read.

use vstd::prelude::*;

verus! {

/// A product as the input gives it.
#[derive(Clone, Debug, PartialEq, Eq)]
pub struct Product {
    pub title: String,
    pub group_id: u64,
    pub ft: String,
}

/// A word of a field and its position among the words of that field.
#[derive(Clone, Debug, PartialEq, Eq)]
pub struct Token {
    pub index: usize,
    pub word: String,
}

/// A product with the words of its two indexed fields.
#[derive(Clone, Debug, PartialEq, Eq)]
pub struct TokenizedProduct {
    pub product: Product,
    pub title_words: Vec<Token>,
    pub description_words: Vec<Token>,
}

/// One line of the input: a product, or a line that could not be read as
/// one.
#[derive(Clone, Debug, PartialEq, Eq)]
pub enum Line {
    Parsed(TokenizedProduct),
    Malformed,
}

/// A product, with its texts as character sequences.
pub ghost struct ProductView {
    pub title: Seq<char>,
    pub group_id: u64,
    pub ft: Seq<char>,
}

/// A word and its position, with the word as a character sequence.
pub ghost struct TokenView {
    pub index: usize,
    pub word: Seq<char>,
}

/// A product with the words of its two indexed fields.
pub ghost struct RecordView {
    pub product: ProductView,
    pub title_words: Seq<TokenView>,
    pub description_words: Seq<TokenView>,
}

impl View for Product {
    type V = ProductView;

    open spec fn view(&self) -> ProductView {
        ProductView { title: self.title@, group_id: self.group_id, ft: self.ft@ }
    }
}

impl View for Token {
    type V = TokenView;

    open spec fn view(&self) -> TokenView {
        TokenView { index: self.index, word: self.word@ }
    }
}

/// The views of a sequence of tokens, in the same order.
pub open spec fn tokens_view(tokens: Seq<Token>) -> Seq<TokenView> {
    tokens.map_values(|t: Token| t@)
}

impl View for TokenizedProduct {
    type V = RecordView;

    open spec fn view(&self) -> RecordView {
        RecordView {
            product: self.product@,
            title_words: tokens_view(self.title_words@),
            description_words: tokens_view(self.description_words@),
        }
    }
}

impl View for Line {
    type V = Option<RecordView>;

    open spec fn view(&self) -> Option<RecordView> {
        match self {
            Line::Parsed(record) => Some(record@),
            Line::Malformed => None,
        }
    }
}

/// The views of a sequence of lines, in the same order.
pub open spec fn lines_view(lines: Seq<Line>) -> Seq<Option<RecordView>> {
    lines.map_values(|l: Line| l@)
}

} // verus!
