use parallel_pandas::drain::iterable;
use parallel_pandas::drain::Sink;
use parallel_pandas::lazy::from_generator;
use parallel_pandas::lazy::LazySeq;

#[test]
fn drain_emits_in_order() {
    let mut sink = Sink::new();
    let lines = vec![
        String::from("alpha"),
        String::from("beta"),
        String::from("gamma"),
    ];
    iterable(&mut sink, &lines);
    assert_eq!(sink.emission_count(), 3);
    assert_eq!(sink.lines, lines);
}

#[test]
fn drain_empty_emits_nothing() {
    let mut sink = Sink::new();
    let lines: Vec<String> = vec![];
    iterable(&mut sink, &lines);
    assert_eq!(sink.emission_count(), 0);
}

#[test]
fn drain_appends_after_earlier_emissions() {
    let mut sink = Sink::new();
    iterable(&mut sink, &vec![String::from("first")]);
    iterable(&mut sink, &vec![String::from("second"), String::from("third")]);
    assert_eq!(
        sink.lines,
        vec![
            String::from("first"),
            String::from("second"),
            String::from("third"),
        ]
    );
}

#[test]
fn lazy_count_reports_length_once() {
    let items = vec![String::from("a"), String::from("b"), String::from("c"), String::from("d")];
    let mut gen = LazySeq::from_items(items);
    assert_eq!(from_generator(&mut gen), 4);
}

#[test]
fn lazy_recount_of_exhausted_is_zero() {
    let items = vec![String::from("x"), String::from("y")];
    let mut gen = LazySeq::from_items(items);
    assert_eq!(from_generator(&mut gen), 2);
    assert_eq!(from_generator(&mut gen), 0);
}

#[test]
fn lazy_empty_counts_zero() {
    let mut gen = LazySeq::from_items(vec![]);
    assert_eq!(from_generator(&mut gen), 0);
}

#[test]
fn lazy_next_consumes_in_order() {
    let items = vec![String::from("one"), String::from("two")];
    let mut gen = LazySeq::from_items(items);
    assert_eq!(gen.next(), Some(String::from("one")));
    assert_eq!(gen.next(), Some(String::from("two")));
    assert_eq!(gen.next(), None);
    assert_eq!(from_generator(&mut gen), 0);
}

#[test]
fn lazy_partial_consumption_counts_rest() {
    let items = vec![String::from("one"), String::from("two"), String::from("three")];
    let mut gen = LazySeq::from_items(items);
    assert_eq!(gen.next(), Some(String::from("one")));
    assert_eq!(from_generator(&mut gen), 2);
}
