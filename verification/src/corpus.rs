//! What an indexing run seals, as a function of its stop words and its
//! lines: the postings of the corpus and the entries of its value store.

use vstd::prelude::*;
use vstd::utf8::encode_utf8;
use crate::entries::ascending;
use crate::entries::entries_map;
use crate::entries::EntryView;
use crate::field_key::field_key;
use crate::field_key::Field;
use crate::normalize::terms_of;
use crate::normalize::Terms;
use crate::posting::DocIndex;
use crate::posting::PostingView;
use crate::record::ProductView;
use crate::record::RecordView;
use crate::record::TokenView;

verus! {

/// The place of a word: the document, the field and the position of the
/// word, cut to 32 bits.
pub open spec fn occurrence(document: u64, attribute: u8, token: TokenView) -> DocIndex {
    DocIndex { document, attribute, attribute_index: token.index as u32 }
}

/// The postings of given terms at a given place: one under the folded term,
/// where there is one, then one under the exact term.
pub open spec fn terms_postings(terms: Terms, place: DocIndex) -> Seq<PostingView> {
    match terms.folded {
        Some(folded) => seq![
            PostingView { term: folded, doc_index: place },
            PostingView { term: terms.exact, doc_index: place },
        ],
        None => seq![PostingView { term: terms.exact, doc_index: place }],
    }
}

/// The postings of one indexed word: one under each of its terms, the folded
/// term first, all at the place of the word.
pub open spec fn word_postings(document: u64, attribute: u8, token: TokenView) -> Seq<
    PostingView,
> {
    terms_postings(terms_of(token.word), occurrence(document, attribute, token))
}

/// The postings of a sequence of indexed words, word after word.
pub open spec fn words_postings(document: u64, attribute: u8, tokens: Seq<TokenView>) -> Seq<
    PostingView,
>
    decreases tokens.len(),
{
    if tokens.len() == 0 {
        Seq::empty()
    } else {
        words_postings(document, attribute, tokens.drop_last()) + word_postings(
            document,
            attribute,
            tokens.last(),
        )
    }
}

/// The postings of a sequence of words that is one word longer are the
/// postings of the sequence, then those of the word.
pub proof fn lemma_words_postings_push(
    document: u64,
    attribute: u8,
    tokens: Seq<TokenView>,
    token: TokenView,
)
    ensures
        words_postings(document, attribute, tokens.push(token)) == words_postings(
            document,
            attribute,
            tokens,
        ) + word_postings(document, attribute, token),
{
    assert(tokens.push(token).drop_last() =~= tokens);
}

/// The postings that one word of a field contributes: none if it is a stop
/// word, else one under each of its terms.
pub open spec fn token_postings(
    common: Set<Seq<char>>,
    document: u64,
    attribute: u8,
    token: TokenView,
) -> Seq<PostingView> {
    if common.contains(token.word) {
        Seq::empty()
    } else {
        word_postings(document, attribute, token)
    }
}

/// The postings of one field of a document: what each of its words
/// contributes, word after word.
pub open spec fn field_postings(
    common: Set<Seq<char>>,
    document: u64,
    attribute: u8,
    tokens: Seq<TokenView>,
) -> Seq<PostingView>
    decreases tokens.len(),
{
    if tokens.len() == 0 {
        Seq::empty()
    } else {
        field_postings(common, document, attribute, tokens.drop_last()) + token_postings(
            common,
            document,
            attribute,
            tokens.last(),
        )
    }
}

/// The words that are not stop words, in their order.
pub open spec fn surviving(common: Set<Seq<char>>, tokens: Seq<TokenView>) -> Seq<TokenView> {
    tokens.filter(|t: TokenView| !common.contains(t.word))
}

/// Indexing the words that survive the stop-word filter gives the postings
/// of the field.
pub proof fn lemma_surviving_postings(
    common: Set<Seq<char>>,
    document: u64,
    attribute: u8,
    tokens: Seq<TokenView>,
)
    ensures
        words_postings(document, attribute, surviving(common, tokens)) == field_postings(
            common,
            document,
            attribute,
            tokens,
        ),
    decreases tokens.len(),
{
    let keep = |t: TokenView| !common.contains(t.word);
    if tokens.len() == 0 {
        assert(tokens.filter(keep) =~= Seq::<TokenView>::empty()) by {
            reveal(Seq::filter);
        }
    } else {
        let front = tokens.drop_last();
        let last = tokens.last();
        lemma_surviving_postings(common, document, attribute, front);
        assert(tokens =~= front.push(last));
        front.lemma_filter_push(last, keep);
        if keep(last) {
            lemma_words_postings_push(document, attribute, front.filter(keep), last);
        } else {
            assert(field_postings(common, document, attribute, front) + Seq::<
                PostingView,
            >::empty() =~= field_postings(common, document, attribute, front));
        }
    }
}

/// The postings of one product: those of its title, then those of its
/// description.
pub open spec fn record_postings(common: Set<Seq<char>>, record: RecordView) -> Seq<PostingView> {
    field_postings(common, record.product.group_id, Field::Title.tag(), record.title_words)
        + field_postings(
        common,
        record.product.group_id,
        Field::Description.tag(),
        record.description_words,
    )
}

/// The postings of a corpus: those of each product, in the order of arrival.
pub open spec fn corpus_postings(common: Set<Seq<char>>, records: Seq<RecordView>) -> Seq<
    PostingView,
>
    decreases records.len(),
{
    if records.len() == 0 {
        Seq::empty()
    } else {
        corpus_postings(common, records.drop_last()) + record_postings(common, records.last())
    }
}

/// The text of a field of a product.
pub open spec fn field_text(product: ProductView, field: Field) -> Seq<char> {
    match field {
        Field::Title => product.title,
        Field::Description => product.ft,
    }
}

/// The entry that a field of a product sends to the value store: the text
/// of the field in UTF-8, under the key of the field.
pub open spec fn field_entry(product: ProductView, field: Field) -> EntryView {
    EntryView {
        key: field_key(product.group_id, field),
        value: encode_utf8(field_text(product, field)),
    }
}

/// The two entries that one product sends to the value store: its title,
/// then its description.
pub open spec fn record_fields(product: ProductView) -> Seq<EntryView> {
    seq![field_entry(product, Field::Title), field_entry(product, Field::Description)]
}

/// The entries that a corpus sends to the value store, in the order of
/// arrival.
pub open spec fn corpus_fields(records: Seq<RecordView>) -> Seq<EntryView>
    decreases records.len(),
{
    if records.len() == 0 {
        Seq::empty()
    } else {
        corpus_fields(records.drop_last()) + record_fields(records.last().product)
    }
}

/// Every line was read as a product.
pub open spec fn all_parsed(lines: Seq<Option<RecordView>>) -> bool {
    forall|i: int| 0 <= i < lines.len() ==> (#[trigger] lines[i]) is Some
}

/// Line `at` is the first that could not be read as a product.
pub open spec fn first_malformed(lines: Seq<Option<RecordView>>, at: int) -> bool {
    &&& 0 <= at < lines.len()
    &&& lines[at] is None
    &&& forall|i: int| 0 <= i < at ==> (#[trigger] lines[i]) is Some
}

/// The products of lines that were all read.
pub open spec fn records_of(lines: Seq<Option<RecordView>>) -> Seq<RecordView> {
    Seq::new(lines.len(), |i: int| lines[i]->0)
}

/// What a run over `lines` seals: the postings of the corpus in the order
/// of their insertion, and the table that lists, in strictly ascending key
/// order, the field values of the corpus, the later product's where two
/// products have one identifier.
pub open spec fn is_index_of(
    common: Set<Seq<char>>,
    lines: Seq<Option<RecordView>>,
    postings: Seq<PostingView>,
    table: Seq<EntryView>,
) -> bool {
    &&& postings == corpus_postings(common, records_of(lines))
    &&& ascending(table)
    &&& entries_map(table) == entries_map(corpus_fields(records_of(lines)))
}

} // verus!
