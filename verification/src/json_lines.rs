//! The indexing of a corpus of products, one per line of the input: the
//! words of each field go to the posting index, unless they are stop words,
//! and the text of each field goes to the value store.

use vstd::prelude::*;
use vstd::pervasive::unreached;
use vstd::string::StrSliceExecFns;
use crate::common_words::words_set;
use crate::common_words::CommonWords;
use crate::corpus::all_parsed;
use crate::corpus::corpus_fields;
use crate::corpus::corpus_postings;
use crate::corpus::first_malformed;
use crate::corpus::is_index_of;
use crate::corpus::lemma_surviving_postings;
use crate::corpus::lemma_words_postings_push;
use crate::corpus::occurrence;
use crate::corpus::record_fields;
use crate::corpus::record_postings;
use crate::corpus::records_of;
use crate::corpus::surviving;
use crate::corpus::terms_postings;
use crate::corpus::word_postings;
use crate::corpus::words_postings;
use crate::entries::ascending;
use crate::entries::entries_map;
use crate::entries::entries_map_after;
use crate::entries::entries_view;
use crate::entries::lemma_entries_map_concat;
use crate::entries::EntryView;
use crate::error::IndexError;
use crate::field_buffer::FieldBuffer;
use crate::field_key::make_field_key;
use crate::field_key::Field;
use crate::normalize::normalize;
use crate::normalize::NormalizedTerms;
use crate::posting::DocIndex;
use crate::posting::PostingAccumulator;
use crate::posting::PostingIndex;
use crate::posting::PostingView;
use crate::record::lines_view;
use crate::record::tokens_view;
use crate::record::Line;
use crate::record::RecordView;
use crate::record::Token;
use crate::record::TokenView;
use crate::record::TokenizedProduct;
use crate::run::is_drawn_name;
use crate::run::RunContext;
use crate::value_store::FieldValueStoreBuilder;
use crate::value_store::SortedTable;

verus! {

/// What an indexing run is asked to do: where the stop words come from and
/// where the products are.
#[derive(Debug)]
pub struct CommandJsonLines {
    /// The stop words, as loaded.
    pub stop_words: Vec<String>,
    /// The path of the file of products.
    pub products: String,
}

/// The sealed artifacts of a run.
#[derive(Debug)]
pub struct IndexedCorpus {
    pub run: RunContext,
    pub postings: PostingIndex,
    pub table: SortedTable,
}

/// An indexing run that is ready to start.
#[derive(Debug)]
pub struct JsonLinesIndexer {
    common_words: CommonWords,
    products: String,
}

impl JsonLinesIndexer {
    /// The stop words of the run.
    pub closed spec fn stop_words(&self) -> Set<Seq<char>> {
        self.common_words@
    }

    /// The path of the file of products.
    pub closed spec fn products_path(&self) -> Seq<char> {
        self.products@
    }

    /// Prepares the run that `command` asks for.
    pub fn from_command(command: CommandJsonLines) -> (indexer: JsonLinesIndexer)
        ensures
            indexer.stop_words() == words_set(command.stop_words@),
            indexer.products_path() == command.products@,
    {
        let common_words = CommonWords::from_words(command.stop_words);
        let products = command.products;
        JsonLinesIndexer { common_words, products }
    }

    /// The path of the file of products.
    pub fn products(&self) -> (path: &str)
        ensures
            path@ == self.products_path(),
    {
        self.products.as_str()
    }

    /// The stop words of the run.
    pub fn common_words(&self) -> (words: &CommonWords)
        ensures
            words@ == self.stop_words(),
    {
        &self.common_words
    }

    /// The words of a field that are not stop words, in their order.
    pub fn surviving_words(&self, words: &Vec<Token>) -> (kept: Vec<Token>)
        ensures
            tokens_view(kept@) == surviving(self.stop_words(), tokens_view(words@)),
    {
        let ghost tokens = tokens_view(words@);
        let ghost keep = |t: TokenView| !self.stop_words().contains(t.word);
        let mut kept: Vec<Token> = Vec::new();
        assert(tokens_view(kept@) =~= tokens.take(0).filter(keep)) by {
            reveal(Seq::filter);
        }
        let mut i: usize = 0;
        while i < words.len()
            invariant
                i <= words.len(),
                tokens == tokens_view(words@),
                keep == (|t: TokenView| !self.stop_words().contains(t.word)),
                tokens_view(kept@) == tokens.take(i as int).filter(keep),
            decreases words.len() - i,
        {
            let word = &words[i];
            let ghost before = tokens_view(kept@);
            proof {
                assert(tokens[i as int] == word@);
                assert(tokens.take(i + 1) =~= tokens.take(i as int).push(word@));
                tokens.take(i as int).lemma_filter_push(word@, keep);
            }
            if !self.common_words.contains(word.word.as_str()) {
                kept.push(Token { index: word.index, word: word.word.clone() });
                assert(tokens_view(kept@) =~= before.push(word@));
            }
            i += 1;
        }
        assert(tokens.take(i as int) =~= tokens);
        kept
    }

    /// Indexes one product: the words of its title and of its description
    /// that are not stop words go to `builder`, the two texts to `fields`.
    pub fn index_product(
        &self,
        builder: &mut PostingAccumulator,
        fields: &mut FieldBuffer,
        record: &TokenizedProduct,
    )
        ensures
            final(builder)@ == old(builder)@ + record_postings(self.stop_words(), record@),
            final(fields)@ == entries_map_after(old(fields)@, record_fields(record@.product)),
    {
        let group_id = record.product.group_id;
        let ghost common = self.stop_words();
        let ghost before = builder@;

        let title = self.surviving_words(&record.title_words);
        insert_document_words(builder, group_id, Field::Title.attribute(), &title);
        let description = self.surviving_words(&record.description_words);
        insert_document_words(builder, group_id, Field::Description.attribute(), &description);
        proof {
            lemma_surviving_postings(common, group_id, Field::Title.tag(), record@.title_words);
            lemma_surviving_postings(
                common,
                group_id,
                Field::Description.tag(),
                record@.description_words,
            );
            assert(builder@ =~= before + record_postings(common, record@));
        }

        let title_key = make_field_key(group_id, Field::Title);
        fields.insert(title_key, record.product.title.as_str().as_bytes_vec());
        let description_key = make_field_key(group_id, Field::Description);
        fields.insert(description_key, record.product.ft.as_str().as_bytes_vec());
        proof {
            let entries = record_fields(record@.product);
            reveal_with_fuel(entries_map_after, 3);
            assert(entries.drop_last() =~= seq![entries[0]]);
            assert(entries.drop_last().drop_last() =~= Seq::<EntryView>::empty());
        }
    }

    /// Runs the indexing of `lines` under the identity `run`.
    ///
    /// A line that could not be read stops the run: the error names the first
    /// such line, and nothing is sealed. Otherwise the run seals the posting
    /// index and the sorted table of the whole corpus.
    pub fn index_as(self, run: RunContext, lines: &Vec<Line>) -> (r: Result<
        IndexedCorpus,
        IndexError,
    >)
        ensures
            r is Ok <==> all_parsed(lines_view(lines@)),
            r matches Ok(corpus) ==> corpus.run@ == run@ && is_index_of(
                self.stop_words(),
                lines_view(lines@),
                corpus.postings@,
                corpus.table@,
            ),
            r matches Err(e) ==> e matches IndexError::Parse { line } && first_malformed(
                lines_view(lines@),
                line as int,
            ),
    {
        let ghost common = self.stop_words();
        let ghost read = lines_view(lines@);
        let mut builder = PostingAccumulator::new();
        let mut fields = FieldBuffer::new();
        assert(records_of(read.take(0)) =~= Seq::<RecordView>::empty());
        let mut i: usize = 0;
        while i < lines.len()
            invariant
                i <= lines.len(),
                common == self.stop_words(),
                read == lines_view(lines@),
                all_parsed(read.take(i as int)),
                builder@ == corpus_postings(common, records_of(read.take(i as int))),
                fields@ == entries_map(corpus_fields(records_of(read.take(i as int)))),
            decreases lines.len() - i,
        {
            assert(read[i as int] == lines@[i as int]@);
            match &lines[i] {
                Line::Malformed => {
                    assert forall|j: int| 0 <= j < i implies (#[trigger] read[j]) is Some by {
                        assert(read.take(i as int)[j] == read[j]);
                    }
                    return Err(IndexError::Parse { line: i });
                },
                Line::Parsed(record) => {
                    self.index_product(&mut builder, &mut fields, record);
                    proof {
                        let sofar = records_of(read.take(i as int));
                        let now = records_of(read.take(i + 1));
                        assert(now =~= sofar.push(record@));
                        assert(now.drop_last() =~= sofar);
                        lemma_entries_map_concat(
                            corpus_fields(sofar),
                            record_fields(record@.product),
                        );
                        assert forall|j: int| 0 <= j < i + 1 implies (#[trigger] read.take(
                            i + 1,
                        )[j]) is Some by {
                            if j < i {
                                assert(read.take(i as int)[j] == read[j]);
                            }
                        }
                    }
                },
            }
            i += 1;
        }
        assert(read.take(i as int) =~= read);

        let table = flush(&fields);
        let postings = builder.finish();
        Ok(IndexedCorpus { run, postings, table })
    }

    /// Runs the indexing of `lines` under a fresh, randomly drawn identity,
    /// which the sealed corpus reports: a word, a hyphen and a word, in small
    /// letters.
    pub fn index(self, lines: &Vec<Line>) -> (r: Result<IndexedCorpus, IndexError>)
        ensures
            r is Ok <==> all_parsed(lines_view(lines@)),
            r matches Ok(corpus) ==> is_drawn_name(corpus.run@) && is_index_of(
                self.stop_words(),
                lines_view(lines@),
                corpus.postings@,
                corpus.table@,
            ),
            r matches Err(e) ==> e matches IndexError::Parse { line } && first_malformed(
                lines_view(lines@),
                line as int,
            ),
    {
        self.index_as(RunContext::random(), lines)
    }
}

/// Writes the buffered field values to the sorted table, in ascending key
/// order, and seals it. The keys of the buffer rise, so the table takes
/// every entry: no ordering violation can occur.
pub fn flush(fields: &FieldBuffer) -> (table: SortedTable)
    ensures
        ascending(table@),
        entries_map(table@) == fields@,
{
    let listing = fields.listing();
    let ghost sorted = entries_view(listing@);
    let mut store = FieldValueStoreBuilder::new();
    assert(sorted.take(0) =~= Seq::<EntryView>::empty());
    let mut k: usize = 0;
    while k < listing.len()
        invariant
            k <= listing.len(),
            sorted == entries_view(listing@),
            ascending(sorted),
            store@ == sorted.take(k as int),
        decreases listing.len() - k,
    {
        let entry = &listing[k];
        assert(sorted[k as int] == entry@);
        if k > 0 {
            assert(sorted.take(k as int).last() == sorted[k - 1]);
        }
        match store.put(entry.key.as_slice(), entry.value.as_slice()) {
            Ok(()) => {},
            Err(_) => unreached(),
        }
        assert(sorted.take(k + 1) =~= sorted.take(k as int).push(entry@));
        k += 1;
    }
    assert(sorted.take(k as int) =~= sorted);
    store.finish()
}

/// Indexes one word, given its terms and its place: under its folded term,
/// where it has one, then under its exact term.
pub fn insert_terms(builder: &mut PostingAccumulator, terms: NormalizedTerms, place: DocIndex)
    ensures
        final(builder)@ == old(builder)@ + terms_postings(terms@, place),
{
    let ghost before = builder@;
    match terms.folded {
        Some(folded) => {
            builder.insert(folded, place);
        },
        None => {},
    }
    builder.insert(terms.exact, place);
    assert(builder@ =~= before + terms_postings(terms@, place));
}

/// Indexes the words of one field of a document: each word under its exact
/// term, and under its folded term as well where it has one.
pub fn insert_document_words(
    builder: &mut PostingAccumulator,
    doc_index: u64,
    attr: u8,
    words: &Vec<Token>,
)
    ensures
        final(builder)@ == old(builder)@ + words_postings(doc_index, attr, tokens_view(words@)),
{
    let ghost tokens = tokens_view(words@);
    assert(tokens.take(0) =~= Seq::<TokenView>::empty());
    assert(builder@ + Seq::<PostingView>::empty() =~= builder@);
    let mut i: usize = 0;
    while i < words.len()
        invariant
            i <= words.len(),
            tokens == tokens_view(words@),
            builder@ == old(builder)@ + words_postings(doc_index, attr, tokens.take(i as int)),
        decreases words.len() - i,
    {
        let word = &words[i];
        let place = DocIndex {
            document: doc_index,
            attribute: attr,
            attribute_index: #[verifier::truncate] (word.index as u32),
        };
        let ghost before = builder@;
        insert_terms(builder, normalize(word.word.as_str()), place);
        proof {
            let token = tokens[i as int];
            assert(token == word@);
            assert(place == occurrence(doc_index, attr, token));
            assert(builder@ =~= before + word_postings(doc_index, attr, token));
            assert(tokens.take(i + 1) =~= tokens.take(i as int).push(token));
            lemma_words_postings_push(doc_index, attr, tokens.take(i as int), token);
            assert(builder@ =~= old(builder)@ + words_postings(
                doc_index,
                attr,
                tokens.take(i + 1),
            ));
        }
        i += 1;
    }
    assert(tokens.take(i as int) =~= tokens);
}

} // verus!
