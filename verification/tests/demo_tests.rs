use workshop::departments::Registry;
use workshop::fib::fibonacci_series;
use workshop::loops::loop_collection_with_for;
use workshop::loops::loop_range;
use workshop::loops::loop_with_condition;
use workshop::loops::loop_with_labels;
use workshop::loops::loop_with_result;
use workshop::median_mode::count_occurrences;
use workshop::median_mode::median;
use workshop::median_mode::mode;
use workshop::median_mode::sort_ints;
use workshop::pig_latin::pig_latin_text;
use workshop::pig_latin::pig_word;
use workshop::smart::CustomBox;
use workshop::text::ascii_lower;
use workshop::text::parse_usize;
use workshop::text::split_lines;
use workshop::text::split_words;
use workshop::text::str_eq;
use workshop::text::trim;

#[test]
fn loop_demos_compute_their_values() {
    assert_eq!(loop_with_result(), 20);
    assert_eq!(loop_with_labels(), 2);
    assert_eq!(loop_with_condition(), vec![3, 2, 1]);
    assert_eq!(loop_collection_with_for(), vec![10, 20, 30, 40, 50]);
    assert_eq!(loop_range(), vec![3, 2, 1]);
}

#[test]
fn fibonacci_starts_with_a_pair_of_ones() {
    let series = fibonacci_series(10);
    assert_eq!(series, vec![1, 1, 2, 3, 5, 8, 13, 21, 34, 55]);
    assert!(fibonacci_series(0).is_empty());
}

#[test]
fn twenty_fibonacci_numbers_end_at_the_series_end() {
    let series = fibonacci_series(20);
    assert_eq!(series.len(), 20);
    assert_eq!(series[19], 6765);
}

#[test]
fn median_and_mode_of_the_sample_list() {
    let list = vec![1, 2, 45, 21, 3, 4, 7, 0, 10, 2, 3, 2, 2, 7, 1, 21];
    assert_eq!(median(&list), 3);
    assert_eq!(mode(&list), (2, 4));
}

#[test]
fn sorting_orders_without_losing_values() {
    let sorted = sort_ints(vec![3, 1, 2, 1]);
    assert_eq!(sorted, vec![1, 1, 2, 3]);
    assert!(sort_ints(vec![]).is_empty());
}

#[test]
fn counting_occurrences_is_exact() {
    let list = vec![5, 5, 7, 5];
    assert_eq!(count_occurrences(&list, 5), 3);
    assert_eq!(count_occurrences(&list, 7), 1);
    assert_eq!(count_occurrences(&list, 9), 0);
}

#[test]
fn mode_of_an_empty_list_is_zero_seen_never() {
    assert_eq!(mode(&vec![]), (0, 0));
}

#[test]
fn pig_latin_moves_consonants_and_keeps_vowels() {
    assert_eq!(pig_word("this"), "hist-ay");
    assert_eq!(pig_word("is"), "is-hay");
    assert_eq!(pig_word("Apple"), "Apple-hay");
}

#[test]
fn pig_latin_transforms_the_sample_text() {
    let result = pig_latin_text("this is a random text to obtain some results");
    assert_eq!(
        result,
        "hist-ay is-hay a-hay andomr-ay extt-ay ot-ay obtain-hay omes-ay esultsr-ay"
    );
}

#[test]
fn registry_adds_and_shows_employees() {
    let mut registry = Registry::new();
    let (reply, quit) = registry.respond("Add Alice to Sales");
    assert_eq!(reply, "Employee Alice added to the Sales deparment");
    assert!(!quit);
    let (reply, _) = registry.respond("Add Bob to Sales");
    assert_eq!(reply, "Employee Bob added to the Sales deparment");
    let (reply, quit) = registry.respond("Show Sales");
    assert_eq!(reply, "The employees of the Sales department are: Alice, Bob");
    assert!(!quit);
}

#[test]
fn registry_rejects_unknown_actions_and_departments() {
    let mut registry = Registry::new();
    let (reply, quit) = registry.respond("Show Engineering");
    assert_eq!(reply, "The department Engineering does not exists!");
    assert!(!quit);
    let (reply, quit) = registry.respond("fire everyone");
    assert_eq!(reply, "Unknwon action!");
    assert!(!quit);
    let (reply, quit) = registry.respond("Exit");
    assert_eq!(reply, "");
    assert!(quit);
}

#[test]
fn custom_box_owns_its_value() {
    let b = CustomBox::new(5);
    assert_eq!(*b.get(), 5);
    assert_eq!(b.into_inner(), 5);
    let s = CustomBox::new(String::from("World"));
    assert_eq!(s.get(), "World");
}

#[test]
fn text_helpers_behave_like_their_models() {
    assert_eq!(trim("  spaced out \t"), "spaced out");
    assert_eq!(trim("\t \n"), "");
    assert_eq!(split_words(" a  few words "), vec!["a", "few", "words"]);
    assert!(split_words("   ").is_empty());
    assert_eq!(
        split_lines("one\r\ntwo\nthree"),
        vec!["one", "two", "three"]
    );
    assert_eq!(ascii_lower("MiXeD 123!"), "mixed 123!");
    assert!(str_eq("same", "same"));
    assert!(!str_eq("same", "sane"));
    assert_eq!(parse_usize("42"), Some(42));
    assert_eq!(parse_usize("+42"), Some(42));
    assert_eq!(parse_usize(""), None);
    assert_eq!(parse_usize("4x2"), None);
    assert_eq!(parse_usize("99999999999999999999999999"), None);
}
