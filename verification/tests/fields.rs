use frame_deserializer::field::{Field, Outcome};

#[test]
fn fresh_field_is_empty() {
    let field = Field::<8>::new();
    assert_eq!(field.capacity(), 8);
    assert_eq!(field.declared_length(), None);
    assert_eq!(field.filled(), 0);
    assert!(!field.is_complete());
    assert!(field.data().is_empty());
}

#[test]
fn field_completes_on_its_last_value_byte() {
    for len in 1u8..=8 {
        let mut field = Field::<8>::new();
        assert_eq!(field.feed(len), Outcome::NeedsMore);
        assert_eq!(field.declared_length(), Some(len));
        assert!(!field.is_complete());
        for k in 1..=len {
            let outcome = field.feed(10 * k);
            assert_eq!(field.filled(), k);
            if k == len {
                assert_eq!(outcome, Outcome::FieldComplete);
                assert!(field.is_complete());
            } else {
                assert_eq!(outcome, Outcome::NeedsMore);
                assert!(!field.is_complete());
            }
        }
        let expected: Vec<u8> = (1..=len).map(|k| 10 * k).collect();
        assert_eq!(field.data(), &expected[..]);
    }
}

#[test]
fn zero_length_field_is_complete_after_its_length_byte() {
    let mut field = Field::<8>::new();
    assert_eq!(field.feed(0), Outcome::NeedsMore);
    assert_eq!(field.declared_length(), Some(0));
    assert_eq!(field.filled(), 0);
    assert!(field.is_complete());
    assert!(field.data().is_empty());
}

#[test]
fn complete_field_takes_no_further_byte() {
    let mut field = Field::<4>::new();
    assert_eq!(field.feed(0), Outcome::NeedsMore);
    assert_eq!(field.feed(77), Outcome::FieldComplete);
    assert_eq!(field.filled(), 0);
    assert_eq!(field.declared_length(), Some(0));
    assert!(field.data().is_empty());

    let mut field = Field::<4>::new();
    assert_eq!(field.feed(2), Outcome::NeedsMore);
    assert_eq!(field.feed(5), Outcome::NeedsMore);
    assert_eq!(field.feed(6), Outcome::FieldComplete);
    assert_eq!(field.feed(7), Outcome::FieldComplete);
    assert_eq!(field.feed(8), Outcome::FieldComplete);
    assert_eq!(field.filled(), 2);
    assert_eq!(field.declared_length(), Some(2));
    assert_eq!(field.data(), &[5u8, 6]);
}

#[test]
fn length_above_capacity_is_refused() {
    for len in [5u8, 6, 100, 255] {
        let mut field = Field::<4>::new();
        assert_eq!(field.feed(len), Outcome::LengthInvalid);
        assert_eq!(field.declared_length(), None);
        assert_eq!(field.filled(), 0);
        assert!(!field.is_complete());
        assert!(field.data().is_empty());
    }
}

#[test]
fn refused_length_leaves_the_field_awaiting_one() {
    let mut field = Field::<4>::new();
    assert_eq!(field.feed(5), Outcome::LengthInvalid);
    assert_eq!(field.feed(4), Outcome::NeedsMore);
    assert_eq!(field.declared_length(), Some(4));
    assert_eq!(field.feed(1), Outcome::NeedsMore);
    assert_eq!(field.feed(2), Outcome::NeedsMore);
    assert_eq!(field.feed(3), Outcome::NeedsMore);
    assert_eq!(field.feed(4), Outcome::FieldComplete);
    assert_eq!(field.data(), &[1u8, 2, 3, 4]);
}

#[test]
fn length_equal_to_capacity_fills_the_whole_buffer() {
    let mut field = Field::<3>::new();
    assert_eq!(field.feed(3), Outcome::NeedsMore);
    assert_eq!(field.feed(255), Outcome::NeedsMore);
    assert_eq!(field.feed(0), Outcome::NeedsMore);
    assert_eq!(field.feed(128), Outcome::FieldComplete);
    assert_eq!(field.data(), &[255u8, 0, 128]);
    assert_eq!(field.data().len(), field.capacity());
}

#[test]
fn field_without_capacity_takes_only_the_length_zero() {
    let mut field = Field::<0>::new();
    assert_eq!(field.feed(1), Outcome::LengthInvalid);
    assert_eq!(field.feed(0), Outcome::NeedsMore);
    assert!(field.is_complete());
    assert!(field.data().is_empty());
}

#[test]
fn field_larger_than_a_length_byte_never_refuses() {
    let mut field = Field::<300>::new();
    assert_eq!(field.feed(255), Outcome::NeedsMore);
    for k in 1..=255u16 {
        let outcome = field.feed((k % 251) as u8);
        if k == 255 {
            assert_eq!(outcome, Outcome::FieldComplete);
        } else {
            assert_eq!(outcome, Outcome::NeedsMore);
        }
    }
    assert_eq!(field.filled(), 255);
    assert_eq!(field.data().len(), 255);
    assert_eq!(field.data()[254], (255u16 % 251) as u8);
}

#[test]
fn data_shows_only_what_has_arrived() {
    let mut field = Field::<6>::new();
    field.feed(4);
    assert!(field.data().is_empty());
    field.feed(11);
    assert_eq!(field.data(), &[11u8]);
    field.feed(12);
    assert_eq!(field.data(), &[11u8, 12]);
}

#[test]
fn reset_field_forgets_length_and_data() {
    let mut field = Field::<4>::new();
    field.feed(2);
    field.feed(9);
    field.feed(9);
    assert!(field.is_complete());
    field.reset();
    assert_eq!(field.declared_length(), None);
    assert_eq!(field.filled(), 0);
    assert!(!field.is_complete());
    assert!(field.data().is_empty());
    assert_eq!(field.feed(1), Outcome::NeedsMore);
    assert_eq!(field.feed(3), Outcome::FieldComplete);
    assert_eq!(field.data(), &[3u8]);
}
