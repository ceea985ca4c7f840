use poem::openapi::derive::{
    check_any_of, check_multipart, field_name, mapped, select, skipped, AnyOfVariant, DeriveError,
    MultipartField,
};

fn variant(fields: usize, mapping: Option<&str>) -> AnyOfVariant {
    AnyOfVariant { fields, mapping: mapping.map(String::from) }
}

#[test]
fn any_of_needs_an_enum() {
    assert_eq!(check_any_of(false, &vec![]), Err(DeriveError::AnyOfNeedsEnum));
    assert_eq!(check_any_of(false, &vec![variant(2, None)]), Err(DeriveError::AnyOfNeedsEnum));
    assert_eq!(
        DeriveError::AnyOfNeedsEnum.to_message(),
        "AnyOf can only be applied to an enum."
    );
}

#[test]
fn any_of_takes_variants_of_one_object() {
    assert_eq!(check_any_of(true, &vec![]), Ok(()));
    assert_eq!(check_any_of(true, &vec![variant(1, None), variant(1, Some("b"))]), Ok(()));
}

#[test]
fn any_of_refuses_the_first_variant_that_is_off() {
    let variants = vec![variant(1, None), variant(0, None), variant(1, None), variant(2, None)];
    assert_eq!(check_any_of(true, &variants), Err(DeriveError::IncorrectVariant(1)));
    assert_eq!(check_any_of(true, &vec![variant(3, None)]), Err(DeriveError::IncorrectVariant(0)));
    assert_eq!(DeriveError::IncorrectVariant(1).to_message(), "Incorrect oneof definition.");
}

#[test]
fn multipart_needs_a_struct() {
    assert_eq!(check_multipart(true), Ok(()));
    assert_eq!(check_multipart(false), Err(DeriveError::MultipartNeedsStruct));
    assert_eq!(
        DeriveError::MultipartNeedsStruct.to_message(),
        "Multipart can only be applied to an struct."
    );
}

#[test]
fn select_gives_the_indices_in_rising_order() {
    let flags = vec![true, false, false, true, true, false];
    assert_eq!(select(&flags, true), vec![0, 3, 4]);
    assert_eq!(select(&flags, false), vec![1, 2, 5]);
    assert_eq!(select(&vec![], true), Vec::<usize>::new());
    assert_eq!(select(&vec![false], true), Vec::<usize>::new());
}

#[test]
fn only_variants_with_a_name_are_mapped() {
    let variants = vec![variant(1, Some("a")), variant(1, None), variant(1, Some("c"))];
    assert_eq!(mapped(&variants), vec![true, false, true]);
    assert_eq!(select(&mapped(&variants), true), vec![0, 2]);
}

#[test]
fn skipped_fields_are_kept_apart() {
    let fields = vec![
        MultipartField { skip: false, rename: None },
        MultipartField { skip: true, rename: None },
        MultipartField { skip: false, rename: Some(String::from("file")) },
    ];
    assert_eq!(skipped(&fields), vec![false, true, false]);
    assert_eq!(select(&skipped(&fields), false), vec![0, 2]);
    assert_eq!(select(&skipped(&fields), true), vec![1]);
}

#[test]
fn a_given_name_wins_over_the_rule() {
    assert_eq!(field_name(Some(String::from("file")), String::from("upload_file")), "file");
    assert_eq!(field_name(None, String::from("uploadFile")), "uploadFile");
}
