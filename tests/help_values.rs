use parkour::help::PossibleValues::{OneOf, String};
use parkour::help::{PossibleValue, PossibleValues};

#[test]
fn test_values_iterator() {
    let values = OneOf(vec![
        OneOf(vec![String("A".into())]),
        OneOf(vec![OneOf(vec![String("B".into())])]),
        OneOf(vec![OneOf(vec![String("C".into()), String("D".into())])]),
        OneOf(vec![OneOf(vec![String("E".into()), OneOf(vec![String("F".into())])])]),
        String("G".into()),
        String("H".into()),
        OneOf(vec![OneOf(vec![OneOf(vec![String("I".into())])])]),
        OneOf(vec![OneOf(vec![OneOf(vec![String("J".into()), String("K".into())])])]),
    ]);
    let collected: Vec<_> = values.iter().collect();
    assert_eq!(
        collected,
        vec![
            PossibleValue::String("A"),
            PossibleValue::String("B"),
            PossibleValue::String("C"),
            PossibleValue::String("D"),
            PossibleValue::String("E"),
            PossibleValue::String("F"),
            PossibleValue::String("G"),
            PossibleValue::String("H"),
            PossibleValue::String("I"),
            PossibleValue::String("J"),
            PossibleValue::String("K"),
        ]
    );
}

#[test]
fn values_iterator_next_steps_through() {
    let values = PossibleValues::OneOf(vec![
        PossibleValues::Other("number".into()),
        PossibleValues::String("x".into()),
    ]);
    let mut it = values.iter();
    assert_eq!(it.next(), Some(PossibleValue::Other("number")));
    assert_eq!(it.next(), Some(PossibleValue::String("x")));
    assert_eq!(it.next(), None);
    assert_eq!(it.next(), None);
}

#[test]
fn values_are_shown_as_a_list() {
    let three = PossibleValues::OneOf(vec![
        PossibleValues::String("always".into()),
        PossibleValues::String("auto".into()),
        PossibleValues::String("never".into()),
    ]);
    assert_eq!(three.to_string(), "`always`, `auto` or `never`");
    let two = PossibleValues::OneOf(vec![
        PossibleValues::String("yes".into()),
        PossibleValues::Other("a number".into()),
    ]);
    assert_eq!(two.to_string(), "`yes` or a number");
    assert_eq!(PossibleValues::OneOf(vec![]).to_string(), "nothing");
    assert_eq!(PossibleValues::String("a\"b".into()).to_string(), "`a\\\"b`");
}
