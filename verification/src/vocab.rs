//! Vocabulary entries, the field selector, and the single-shuffle table mode.
//!
//! An entry carries two written forms and a gloss.  Single-field rendering
//! picks one of them; when the primary form is absent it falls back to the
//! phonetic form, so that such entries still print something in the
//! primary-form column.  The example-sentence table flattens every entry's
//! sentences into one list and shuffles it exactly once.

use vstd::prelude::*;
use crate::shuffle::fresh_rng;
use crate::shuffle::shuffle_in_place;

verus! {

/// One example sentence attached to a vocabulary entry.
#[derive(Debug, PartialEq, Eq)]
pub struct ExampleSentence {
    /// The sentence in the target script.
    pub source_text: String,
    /// Its gloss.
    pub translation_text: String,
}

impl Clone for ExampleSentence {
    fn clone(&self) -> (r: Self)
        ensures
            r == *self,
    {
        ExampleSentence {
            source_text: self.source_text.clone(),
            translation_text: self.translation_text.clone(),
        }
    }
}

/// One studyable unit: a written form, a phonetic reading, a gloss, and any
/// number of example sentences.  Any of the text fields may be empty.
#[derive(Debug)]
pub struct VocabItem {
    /// Text in the target script; empty means "use the phonetic form".
    pub primary_form: String,
    /// The phonetic reading.
    pub secondary_form: String,
    /// The gloss.
    pub translation: String,
    /// Example sentences, in the order they belong to the entry.
    pub examples: Vec<ExampleSentence>,
}

/// The text a single-field rendering of `item` shows: the primary form, with
/// the phonetic form as fallback when the primary form is empty, or the
/// gloss verbatim when the primary form was not asked for.
pub open spec fn field_for(item: VocabItem, primary_mode: bool) -> Seq<char> {
    if primary_mode {
        if item.primary_form@.len() == 0 {
            item.secondary_form@
        } else {
            item.primary_form@
        }
    } else {
        item.translation@
    }
}

/// Picks the field of `item` that a sheet in the given mode prints.
///
/// When the primary form is asked for but empty, the phonetic form is
/// returned in its place; the gloss is never substituted for in either
/// direction.
pub fn render_field(item: &VocabItem, primary_mode: bool) -> (r: String)
    ensures
        r@ == field_for(*item, primary_mode),
{
    if primary_mode {
        if item.primary_form.as_str().is_empty() {
            item.secondary_form.clone()
        } else {
            item.primary_form.clone()
        }
    } else {
        item.translation.clone()
    }
}

/// The example sentences of all entries as one list: entry order first,
/// within-entry order second.
pub open spec fn flattened_examples(items: Seq<VocabItem>) -> Seq<ExampleSentence>
    decreases items.len(),
{
    if items.len() == 0 {
        Seq::empty()
    } else {
        flattened_examples(items.drop_last()) + items.last().examples@
    }
}

/// Gathers every entry's example sentences into one list, in entry order and
/// then within-entry order.
pub fn flatten_examples(items: &Vec<VocabItem>) -> (r: Vec<ExampleSentence>)
    ensures
        r@ == flattened_examples(items@),
{
    let mut out: Vec<ExampleSentence> = Vec::new();
    let mut i: usize = 0;
    while i < items.len()
        invariant
            i <= items@.len(),
            out@ == flattened_examples(items@.take(i as int)),
        decreases items@.len() - i,
    {
        let mut j: usize = 0;
        while j < items[i].examples.len()
            invariant
                i < items@.len(),
                j <= items@[i as int].examples@.len(),
                out@ == flattened_examples(items@.take(i as int)) + items@[i as int].examples@.take(
                    j as int,
                ),
            decreases items@[i as int].examples@.len() - j,
        {
            out.push(items[i].examples[j].clone());
            j = j + 1;
            proof {
                assert(items@[i as int].examples@.take(j as int) =~= items@[
                    i as int
                ].examples@.take(j - 1).push(items@[i as int].examples@[j - 1]));
                assert(out@ =~= flattened_examples(items@.take(i as int)) + items@[
                    i as int
                ].examples@.take(j as int));
            }
        }
        i = i + 1;
        proof {
            assert(items@.take(i as int).drop_last() =~= items@.take(i - 1));
            assert(items@[i as int - 1].examples@.take(items@[i as int - 1].examples@.len() as int)
                =~= items@[i as int - 1].examples@);
            assert(out@ =~= flattened_examples(items@.take(i as int)));
        }
    }
    proof {
        assert(items@.take(items@.len() as int) =~= items@);
    }
    out
}

/// Permutes the whole list in one fair shuffle: the degenerate form of the
/// filler, with no line layout and no reshuffle on exhaustion.  An empty
/// list is allowed and comes back empty.
pub fn shuffle_once(examples: Vec<ExampleSentence>) -> (r: Vec<ExampleSentence>)
    ensures
        r@.to_multiset() == examples@.to_multiset(),
        r@.len() == examples@.len(),
        examples@.len() == 0 ==> r@ == Seq::<ExampleSentence>::empty(),
{
    let mut working = examples;
    let mut rng = fresh_rng();
    shuffle_in_place(&mut rng, &mut working);
    proof {
        broadcast use vstd::seq_lib::group_to_multiset_ensures;

        assert(working@.len() == working@.to_multiset().len());
        if working@.len() == 0 {
            assert(working@ =~= Seq::<ExampleSentence>::empty());
        }
    }
    working
}

} // verus!
