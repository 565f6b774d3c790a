//! What holds of every indexing run, stated over the models of the
//! library's functions and proved from them.

use vstd::prelude::*;
use vstd::seq_lib::lemma_seq_concat_contains_all_elements;
use crate::entries::ascending;
use crate::entries::entries_map;
use crate::entries::entries_map_after;
use crate::entries::lemma_ascending_listing_unique;
use crate::entries::lemma_entries_map_concat;
use crate::entries::lemma_map_keys;
use crate::entries::lists_key;
use crate::entries::EntryView;
use crate::field_key::lemma_field_key_injective;
use crate::field_key::Field;
use crate::corpus::corpus_fields;
use crate::corpus::corpus_postings;
use crate::corpus::field_entry;
use crate::corpus::field_postings;
use crate::corpus::is_index_of;
use crate::corpus::occurrence;
use crate::corpus::record_fields;
use crate::corpus::record_postings;
use crate::corpus::token_postings;
use crate::corpus::word_postings;
use crate::record::ProductView;
use crate::record::RecordView;
use crate::record::TokenView;
use crate::normalize::exact_term;
use crate::normalize::folded_candidate;
use crate::posting::PostingView;

verus! {

/// An indexed word whose two lowered forms coincide has one posting: its
/// exact term at its place.
pub proof fn lemma_one_posting_when_forms_coincide(document: u64, attribute: u8, token: TokenView)
    requires
        folded_candidate(token.word) == exact_term(token.word),
    ensures
        word_postings(document, attribute, token) == seq![
            PostingView {
                term: exact_term(token.word),
                doc_index: occurrence(document, attribute, token),
            },
        ],
{
}

/// An indexed word whose two lowered forms differ has two postings, under
/// two distinct terms and at one place: the folded term, then the exact one.
pub proof fn lemma_two_postings_when_forms_differ(document: u64, attribute: u8, token: TokenView)
    requires
        folded_candidate(token.word) != exact_term(token.word),
    ensures
        word_postings(document, attribute, token).len() == 2,
        word_postings(document, attribute, token)[0].term == folded_candidate(token.word),
        word_postings(document, attribute, token)[1].term == exact_term(token.word),
        word_postings(document, attribute, token)[0].term != word_postings(
            document,
            attribute,
            token,
        )[1].term,
        word_postings(document, attribute, token)[0].doc_index == occurrence(
            document,
            attribute,
            token,
        ),
        word_postings(document, attribute, token)[1].doc_index == occurrence(
            document,
            attribute,
            token,
        ),
{
}

/// A stop word contributes no posting.
pub proof fn lemma_stop_word_contributes_nothing(
    common: Set<Seq<char>>,
    document: u64,
    attribute: u8,
    token: TokenView,
)
    requires
        common.contains(token.word),
    ensures
        token_postings(common, document, attribute, token).len() == 0,
{
}

/// A word that is no stop word contributes one posting or two, all at its
/// place, the last of them under its exact term.
pub proof fn lemma_surviving_word_contributes(
    common: Set<Seq<char>>,
    document: u64,
    attribute: u8,
    token: TokenView,
)
    requires
        !common.contains(token.word),
    ensures
        1 <= token_postings(common, document, attribute, token).len() <= 2,
        forall|k: int|
            0 <= k < token_postings(common, document, attribute, token).len() ==> (
            #[trigger] token_postings(common, document, attribute, token)[k]).doc_index
                == occurrence(document, attribute, token),
        token_postings(common, document, attribute, token).last() == (PostingView {
            term: exact_term(token.word),
            doc_index: occurrence(document, attribute, token),
        }),
{
}

/// Some word of `tokens` contributes `posting` to the field.
pub open spec fn word_contributes(
    common: Set<Seq<char>>,
    document: u64,
    attribute: u8,
    tokens: Seq<TokenView>,
    posting: PostingView,
) -> bool {
    exists|i: int|
        0 <= i < tokens.len() && token_postings(
            common,
            document,
            attribute,
            #[trigger] tokens[i],
        ).contains(posting)
}

/// Some word of a field of `record` contributes `posting`.
pub open spec fn record_contributes(
    common: Set<Seq<char>>,
    record: RecordView,
    posting: PostingView,
) -> bool {
    ||| word_contributes(
        common,
        record.product.group_id,
        Field::Title.tag(),
        record.title_words,
        posting,
    )
    ||| word_contributes(
        common,
        record.product.group_id,
        Field::Description.tag(),
        record.description_words,
        posting,
    )
}

/// The postings of a field are those that its words contribute, and no
/// others.
pub proof fn lemma_field_postings_by_word(
    common: Set<Seq<char>>,
    document: u64,
    attribute: u8,
    tokens: Seq<TokenView>,
    posting: PostingView,
)
    ensures
        field_postings(common, document, attribute, tokens).contains(posting) <==> word_contributes(
            common,
            document,
            attribute,
            tokens,
            posting,
        ),
    decreases tokens.len(),
{
    if tokens.len() > 0 {
        let front = tokens.drop_last();
        let last = tokens.last();
        lemma_field_postings_by_word(common, document, attribute, front, posting);
        lemma_seq_concat_contains_all_elements(
            field_postings(common, document, attribute, front),
            token_postings(common, document, attribute, last),
            posting,
        );
        if word_contributes(common, document, attribute, front, posting) {
            let i = choose|i: int|
                0 <= i < front.len() && token_postings(
                    common,
                    document,
                    attribute,
                    #[trigger] front[i],
                ).contains(posting);
            assert(tokens[i] == front[i]);
        }
        if token_postings(common, document, attribute, last).contains(posting) {
            assert(tokens[tokens.len() - 1] == last);
        }
        if word_contributes(common, document, attribute, tokens, posting) {
            let i = choose|i: int|
                0 <= i < tokens.len() && token_postings(
                    common,
                    document,
                    attribute,
                    #[trigger] tokens[i],
                ).contains(posting);
            if i < front.len() {
                assert(front[i] == tokens[i]);
            }
        }
    }
}

/// The postings of a corpus are those that the words of its products
/// contribute, and no others: a word that is no stop word contributes at
/// least its exact term, a stop word nothing.
pub proof fn lemma_corpus_postings_by_word(
    common: Set<Seq<char>>,
    records: Seq<RecordView>,
    posting: PostingView,
)
    ensures
        corpus_postings(common, records).contains(posting) <==> exists|r: int|
            0 <= r < records.len() && record_contributes(common, #[trigger] records[r], posting),
    decreases records.len(),
{
    if records.len() > 0 {
        let front = records.drop_last();
        let last = records.last();
        lemma_corpus_postings_by_word(common, front, posting);
        lemma_seq_concat_contains_all_elements(
            corpus_postings(common, front),
            record_postings(common, last),
            posting,
        );
        lemma_seq_concat_contains_all_elements(
            field_postings(common, last.product.group_id, Field::Title.tag(), last.title_words),
            field_postings(
                common,
                last.product.group_id,
                Field::Description.tag(),
                last.description_words,
            ),
            posting,
        );
        lemma_field_postings_by_word(
            common,
            last.product.group_id,
            Field::Title.tag(),
            last.title_words,
            posting,
        );
        lemma_field_postings_by_word(
            common,
            last.product.group_id,
            Field::Description.tag(),
            last.description_words,
            posting,
        );
        if corpus_postings(common, front).contains(posting) {
            let r = choose|r: int|
                0 <= r < front.len() && record_contributes(common, #[trigger] front[r], posting);
            assert(records[r] == front[r]);
        }
        if record_contributes(common, last, posting) {
            assert(records[records.len() - 1] == last);
        }
        if exists|r: int|
            0 <= r < records.len() && record_contributes(common, #[trigger] records[r], posting) {
            let r = choose|r: int|
                0 <= r < records.len() && record_contributes(
                    common,
                    #[trigger] records[r],
                    posting,
                );
            if r < front.len() {
                assert(front[r] == records[r]);
            }
        }
    }
}

/// Record `i` is the last of `records` with its identifier.
pub open spec fn arrives_last(records: Seq<RecordView>, i: int) -> bool {
    &&& 0 <= i < records.len()
    &&& forall|j: int|
        i < j < records.len() ==> (#[trigger] records[j]).product.group_id
            != records[i].product.group_id
}

/// Some identifier of `records` is left with `product`: the last record with
/// that identifier holds it.
pub open spec fn keeps_product(records: Seq<RecordView>, product: ProductView) -> bool {
    exists|i: int| #[trigger] arrives_last(records, i) && records[i].product == product
}

/// After any record comes the last record with its identifier, if it is not
/// that one itself.
pub proof fn lemma_last_arrival(records: Seq<RecordView>, i: int) -> (last: int)
    requires
        0 <= i < records.len(),
    ensures
        i <= last,
        arrives_last(records, last),
        records[last].product.group_id == records[i].product.group_id,
    decreases records.len() - i,
{
    if arrives_last(records, i) {
        i
    } else {
        let j = choose|j: int|
            i < j < records.len() && (#[trigger] records[j]).product.group_id
                == records[i].product.group_id;
        lemma_last_arrival(records, j)
    }
}

/// A corpus sends two entries for each product, in the order of arrival.
pub proof fn lemma_corpus_fields_shape(records: Seq<RecordView>)
    ensures
        corpus_fields(records).len() == 2 * records.len(),
        forall|r: int|
            0 <= r < records.len() ==> corpus_fields(records)[2 * r] == field_entry(
                (#[trigger] records[r]).product,
                Field::Title,
            ) && corpus_fields(records)[2 * r + 1] == field_entry(
                records[r].product,
                Field::Description,
            ),
    decreases records.len(),
{
    if records.len() > 0 {
        let front = records.drop_last();
        lemma_corpus_fields_shape(front);
        assert forall|r: int| 0 <= r < records.len() implies corpus_fields(records)[2 * r]
            == field_entry((#[trigger] records[r]).product, Field::Title) && corpus_fields(
            records,
        )[2 * r + 1] == field_entry(records[r].product, Field::Description) by {
            if r < front.len() {
                assert(front[r] == records[r]);
            }
        }
    }
}

/// The value store of a corpus holds, under the key of each field of each
/// identifier, the text that the last product with that identifier has in
/// that field.
pub proof fn lemma_last_arrival_is_stored(records: Seq<RecordView>)
    ensures
        forall|i: int, field: Field| #[trigger]
            arrives_last(records, i) ==> entries_map(corpus_fields(records)).dom().contains(
                #[trigger] field_entry(records[i].product, field).key,
            ) && entries_map(corpus_fields(records))[field_entry(records[i].product, field).key]
                == field_entry(records[i].product, field).value,
    decreases records.len(),
{
    if records.len() > 0 {
        let front = records.drop_last();
        let last = records.last().product;
        let before = entries_map(corpus_fields(front));
        let title = field_entry(last, Field::Title);
        let description = field_entry(last, Field::Description);
        lemma_last_arrival_is_stored(front);
        lemma_entries_map_concat(corpus_fields(front), record_fields(last));
        assert(entries_map(corpus_fields(records)) == before.insert(title.key, title.value).insert(
            description.key,
            description.value,
        )) by {
            let sent = record_fields(last);
            reveal_with_fuel(entries_map_after, 3);
            assert(sent.drop_last() =~= seq![title]);
            assert(sent.drop_last().drop_last() =~= Seq::<EntryView>::empty());
        }
        assert forall|i: int, field: Field| #[trigger]
            arrives_last(records, i) implies entries_map(corpus_fields(records)).dom().contains(
            #[trigger] field_entry(records[i].product, field).key,
        ) && entries_map(corpus_fields(records))[field_entry(records[i].product, field).key]
            == field_entry(records[i].product, field).value by {
            let product = records[i].product;
            if i == records.len() - 1 {
                if title.key == description.key {
                    lemma_field_key_injective(
                        last.group_id,
                        Field::Title,
                        last.group_id,
                        Field::Description,
                    );
                }
            } else {
                assert(front[i] == records[i]);
                assert(arrives_last(front, i)) by {
                    assert forall|j: int| i < j < front.len() implies (
                    #[trigger] front[j]).product.group_id != front[i].product.group_id by {
                        assert(front[j] == records[j]);
                    }
                }
                assert(records[records.len() - 1].product.group_id != product.group_id);
                if field_entry(product, field).key == title.key {
                    lemma_field_key_injective(
                        product.group_id,
                        field,
                        last.group_id,
                        Field::Title,
                    );
                }
                if field_entry(product, field).key == description.key {
                    lemma_field_key_injective(
                        product.group_id,
                        field,
                        last.group_id,
                        Field::Description,
                    );
                }
            }
        }
    }
}

/// Where every identifier of `first` is left with a product that some
/// identifier of `second` is left with, the value store of `second` holds
/// every entry of the value store of `first`.
proof fn lemma_stored_fields_carried_over(first: Seq<RecordView>, second: Seq<RecordView>)
    requires
        forall|product: ProductView|
            keeps_product(first, product) ==> #[trigger] keeps_product(second, product),
    ensures
        forall|key: Seq<u8>| #[trigger]
            entries_map(corpus_fields(first)).dom().contains(key) ==> entries_map(
                corpus_fields(second),
            ).dom().contains(key) && entries_map(corpus_fields(second))[key] == entries_map(
                corpus_fields(first),
            )[key],
{
    let sent = corpus_fields(first);
    lemma_corpus_fields_shape(first);
    lemma_map_keys(sent);
    lemma_last_arrival_is_stored(first);
    lemma_last_arrival_is_stored(second);
    assert forall|key: Seq<u8>| #[trigger]
        entries_map(sent).dom().contains(key) implies entries_map(
        corpus_fields(second),
    ).dom().contains(key) && entries_map(corpus_fields(second))[key] == entries_map(sent)[key] by {
        assert(lists_key(sent, key));
        let at = choose|at: int| 0 <= at < sent.len() && (#[trigger] sent[at]).key == key;
        let r = at / 2;
        let field = if at % 2 == 0 {
            Field::Title
        } else {
            Field::Description
        };
        assert(sent[at] == sent[2 * r + at % 2]);
        assert(sent[at] == field_entry(first[r].product, field));
        let last = lemma_last_arrival(first, r);
        let product = first[last].product;
        assert(field_entry(product, field).key == key);
        assert(keeps_product(first, product));
        assert(keeps_product(second, product));
        let other = choose|other: int| #[trigger]
            arrives_last(second, other) && second[other].product == product;
        assert(field_entry(second[other].product, field).key == key);
    }
}

/// The sealed table does not depend on the order in which the products
/// arrive, as long as every identifier is left with the same product: two
/// corpora whose identifiers are left with the same products seal the same
/// table. Corpora that hold the same products, each under an identifier of
/// its own, in any order, are such.
pub proof fn lemma_table_independent_of_arrival(
    first: Seq<RecordView>,
    second: Seq<RecordView>,
    first_table: Seq<EntryView>,
    second_table: Seq<EntryView>,
)
    requires
        forall|product: ProductView|
            keeps_product(first, product) <==> keeps_product(second, product),
        ascending(first_table),
        entries_map(first_table) == entries_map(corpus_fields(first)),
        ascending(second_table),
        entries_map(second_table) == entries_map(corpus_fields(second)),
    ensures
        first_table == second_table,
{
    lemma_stored_fields_carried_over(first, second);
    lemma_stored_fields_carried_over(second, first);
    assert(entries_map(corpus_fields(first)) =~= entries_map(corpus_fields(second)));
    lemma_ascending_listing_unique(first_table, second_table);
}

/// A run is a function of its stop words and its lines: two runs over the
/// same lines with the same stop words seal the same postings and the same
/// table.
pub proof fn lemma_rerun_seals_the_same(
    common: Set<Seq<char>>,
    lines: Seq<Option<RecordView>>,
    postings: Seq<PostingView>,
    table: Seq<EntryView>,
    postings_again: Seq<PostingView>,
    table_again: Seq<EntryView>,
)
    requires
        is_index_of(common, lines, postings, table),
        is_index_of(common, lines, postings_again, table_again),
    ensures
        postings == postings_again,
        table == table_again,
{
    lemma_ascending_listing_unique(table, table_again);
}

} // verus!
