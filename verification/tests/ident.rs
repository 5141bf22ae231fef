use streamlet::ident::{todo_location, uuid_hyphenated};

#[test]
fn hyphenated_form_of_a_known_value() {
    let id: u128 = 0x0123_4567_89ab_cdef_0123_4567_89ab_cdef;
    assert_eq!(uuid_hyphenated(id), "01234567-89ab-cdef-0123-456789abcdef");
}

#[test]
fn hyphenated_form_pads_with_zeroes() {
    assert_eq!(uuid_hyphenated(0), "00000000-0000-0000-0000-000000000000");
    assert_eq!(uuid_hyphenated(0xff), "00000000-0000-0000-0000-0000000000ff");
}

#[test]
fn hyphenated_form_matches_the_uuid_crate() {
    let samples: [u128; 5] = [
        0,
        1,
        0xdead_beef,
        0x0123_4567_89ab_cdef_0123_4567_89ab_cdef,
        u128::MAX,
    ];
    for v in samples {
        assert_eq!(
            uuid_hyphenated(v),
            uuid::Uuid::from_u128(v).hyphenated().to_string()
        );
    }
}

#[test]
fn location_is_the_collection_path_plus_the_identifier() {
    let id: u128 = 0x0123_4567_89ab_cdef_0123_4567_89ab_cdef;
    assert_eq!(
        todo_location(id),
        "/todos/01234567-89ab-cdef-0123-456789abcdef"
    );
}
