use drillsheet::filler::EmptyInputError;
use drillsheet::filler::LayoutRequest;
use drillsheet::filler::fill;
use drillsheet::vocab::ExampleSentence;
use drillsheet::vocab::VocabItem;
use drillsheet::vocab::flatten_examples;
use drillsheet::vocab::render_field;
use drillsheet::vocab::shuffle_once;

fn entry(primary: &str, secondary: &str, translation: &str) -> VocabItem {
    VocabItem {
        primary_form: primary.to_string(),
        secondary_form: secondary.to_string(),
        translation: translation.to_string(),
        examples: Vec::new(),
    }
}

fn entries(n: usize) -> Vec<VocabItem> {
    let mut items = Vec::new();
    for i in 0..n {
        let name = format!("item{}", i);
        items.push(entry(&name, &format!("reading{}", i), &format!("gloss{}", i)));
    }
    items
}

fn sentence(source: &str, translation: &str) -> ExampleSentence {
    ExampleSentence {
        source_text: source.to_string(),
        translation_text: translation.to_string(),
    }
}

fn assert_is_full_permutation(slice: &[usize], n: usize) {
    let mut seen = vec![0usize; n];
    assert_eq!(slice.len(), n);
    for &v in slice {
        assert!(v < n);
        seen[v] += 1;
    }
    for count in seen {
        assert_eq!(count, 1);
    }
}

#[test]
fn fill_returns_line_length_times_line_count() {
    let request = LayoutRequest { items: entries(5), line_length: 3, line_count: 4 };
    let out = fill(&request).unwrap();
    assert_eq!(out.len(), 12);
}

#[test]
fn fill_length_for_various_shapes() {
    for &(n, line_length, line_count) in
        &[(1usize, 1usize, 1usize), (2, 1, 7), (4, 4, 26), (9, 5, 11), (14, 14, 26)]
    {
        let request = LayoutRequest { items: entries(n), line_length, line_count };
        let out = fill(&request).unwrap();
        assert_eq!(out.len(), line_length * line_count);
    }
}

#[test]
fn fill_rejects_empty_input() {
    let request = LayoutRequest { items: Vec::new(), line_length: 0, line_count: 26 };
    assert_eq!(fill(&request), Err(EmptyInputError));
}

#[test]
fn fill_single_line_is_a_permutation() {
    let request = LayoutRequest { items: entries(5), line_length: 5, line_count: 1 };
    let out = fill(&request).unwrap();
    assert_is_full_permutation(&out, 5);
}

#[test]
fn fill_every_full_epoch_is_a_permutation() {
    let request = LayoutRequest { items: entries(3), line_length: 2, line_count: 3 };
    let out = fill(&request).unwrap();
    assert_eq!(out.len(), 6);
    assert_is_full_permutation(&out[0..3], 3);
    assert_is_full_permutation(&out[3..6], 3);
}

#[test]
fn fill_single_item_repeats_it_every_draw() {
    let request = LayoutRequest { items: entries(1), line_length: 1, line_count: 5 };
    let out = fill(&request).unwrap();
    assert_eq!(out, vec![0, 0, 0, 0, 0]);
}

#[test]
fn fill_no_duplicate_within_an_epoch() {
    let request = LayoutRequest { items: entries(4), line_length: 3, line_count: 5 };
    let out = fill(&request).unwrap();
    assert_eq!(out.len(), 15);
    for epoch in out.chunks(4) {
        let mut seen = vec![false; 4];
        for &v in epoch {
            assert!(!seen[v]);
            seen[v] = true;
        }
    }
}

#[test]
fn fill_covers_every_item_in_each_full_epoch() {
    let request = LayoutRequest { items: entries(4), line_length: 3, line_count: 5 };
    let out = fill(&request).unwrap();
    assert_is_full_permutation(&out[0..4], 4);
    assert_is_full_permutation(&out[4..8], 4);
    assert_is_full_permutation(&out[8..12], 4);
}

#[test]
fn fill_presents_input_order_until_first_exhaustion() {
    let request = LayoutRequest { items: entries(5), line_length: 3, line_count: 1 };
    let out = fill(&request).unwrap();
    assert_eq!(out, vec![0, 1, 2]);
}

#[test]
fn render_field_returns_primary_form() {
    let item = entry("水", "みず", "water");
    assert_eq!(render_field(&item, true), "水");
}

#[test]
fn render_field_falls_back_to_secondary_form() {
    let item = entry("", "みず", "water");
    assert_eq!(render_field(&item, true), "みず");
}

#[test]
fn render_field_translation_is_verbatim() {
    let item = entry("水", "みず", "water");
    assert_eq!(render_field(&item, false), "water");
    let blank = entry("水", "みず", "");
    assert_eq!(render_field(&blank, false), "");
}

#[test]
fn shuffle_once_of_empty_is_empty() {
    let shuffled = shuffle_once(Vec::new());
    assert!(shuffled.is_empty());
}

#[test]
fn shuffle_once_is_a_permutation_of_its_input() {
    let sentences = vec![
        sentence("a", "1"),
        sentence("b", "2"),
        sentence("c", "3"),
        sentence("d", "4"),
    ];
    let mut shuffled = shuffle_once(sentences.clone());
    assert_eq!(shuffled.len(), 4);
    shuffled.sort_by(|x, y| x.source_text.cmp(&y.source_text));
    assert_eq!(shuffled, sentences);
}

#[test]
fn flatten_examples_keeps_entry_then_sentence_order() {
    let mut first = entry("a", "", "");
    first.examples = vec![sentence("a1", "t1"), sentence("a2", "t2")];
    let mut second = entry("b", "", "");
    second.examples = vec![sentence("b1", "t3")];
    let third = entry("c", "", "");
    let flat = flatten_examples(&vec![first, second, third]);
    assert_eq!(
        flat,
        vec![sentence("a1", "t1"), sentence("a2", "t2"), sentence("b1", "t3")]
    );
}
