use lib::interface::match_interfaces;
use lib::{
    EmptyShaderInterfaceDef, Format, ShaderInterfaceDef, ShaderInterfaceDefEntry,
    ShaderInterfaceDefMatch, ShaderInterfaceMismatchError,
};

fn entry(start: u32, end: u32, format: u32) -> ShaderInterfaceDefEntry {
    ShaderInterfaceDefEntry { location: start..end, format: Format(format), name: None }
}

#[test]
fn empty_interfaces_match() {
    assert_eq!(match_interfaces(&vec![], &vec![]), Ok(()));
    assert_eq!(EmptyShaderInterfaceDef.matches(&EmptyShaderInterfaceDef), Ok(()));
    assert_eq!(EmptyShaderInterfaceDef.elements().len(), 0);
}

#[test]
fn identical_interfaces_match() {
    let a = vec![entry(0, 1, 106), entry(1, 3, 109), entry(5, 6, 37)];
    assert_eq!(match_interfaces(&a, &a.clone()), Ok(()));
}

#[test]
fn element_order_does_not_matter() {
    let a = vec![entry(0, 1, 106), entry(1, 3, 109)];
    let b = vec![entry(1, 3, 109), entry(0, 1, 106)];
    assert_eq!(match_interfaces(&a, &b), Ok(()));
}

#[test]
fn locations_may_be_split_differently() {
    let a = vec![entry(0, 2, 106), entry(2, 3, 106)];
    let b = vec![entry(0, 1, 106), entry(1, 3, 106)];
    assert_eq!(match_interfaces(&a, &b), Ok(()));
}

#[test]
fn count_mismatch() {
    let a = vec![entry(0, 1, 106)];
    let b = vec![entry(0, 1, 106), entry(1, 2, 106)];
    assert_eq!(match_interfaces(&a, &b), Err(ShaderInterfaceMismatchError::ElementsCountMismatch));
    assert_eq!(
        match_interfaces(&a, &EmptyShaderInterfaceDef.elements()),
        Err(ShaderInterfaceMismatchError::ElementsCountMismatch)
    );
}

#[test]
fn missing_element_reports_first_uncovered_location() {
    let a = vec![entry(0, 1, 106), entry(3, 6, 106)];
    let b = vec![entry(0, 1, 106), entry(3, 4, 106)];
    assert_eq!(
        match_interfaces(&a, &b),
        Err(ShaderInterfaceMismatchError::MissingElement { location: 4 })
    );
}

#[test]
fn format_mismatch() {
    let a = vec![entry(0, 1, 106), entry(1, 2, 109)];
    let b = vec![entry(0, 1, 106), entry(1, 2, 100)];
    assert_eq!(match_interfaces(&a, &b), Err(ShaderInterfaceMismatchError::FormatMismatch));
}

#[test]
fn first_error_in_order_wins() {
    // The format mismatch at location 0 comes before the missing location 7.
    let a = vec![entry(0, 1, 106), entry(7, 8, 106)];
    let b = vec![entry(0, 1, 100), entry(1, 2, 106)];
    assert_eq!(match_interfaces(&a, &b), Err(ShaderInterfaceMismatchError::FormatMismatch));
    // Swapping the order of the elements reports the missing location first.
    let a = vec![entry(7, 8, 106), entry(0, 1, 106)];
    assert_eq!(
        match_interfaces(&a, &b),
        Err(ShaderInterfaceMismatchError::MissingElement { location: 7 })
    );
}

#[test]
fn first_covering_element_decides_the_format() {
    // Two elements of `b` cover location 0; the first one has the wrong format.
    let a = vec![entry(0, 1, 106), entry(5, 5, 106)];
    let b = vec![entry(0, 1, 100), entry(0, 1, 106)];
    assert_eq!(match_interfaces(&a, &b), Err(ShaderInterfaceMismatchError::FormatMismatch));
    let b = vec![entry(0, 1, 106), entry(0, 1, 100)];
    assert_eq!(match_interfaces(&a, &b), Ok(()));
}

#[test]
fn empty_location_ranges_are_not_checked() {
    let a = vec![entry(4, 4, 106), entry(9, 2, 100)];
    let b = vec![entry(0, 1, 1), entry(1, 2, 2)];
    assert_eq!(match_interfaces(&a, &b), Ok(()));
}

#[test]
fn names_are_not_compared() {
    let mut x = entry(0, 1, 106);
    x.name = Some("position".to_string());
    let mut y = entry(0, 1, 106);
    y.name = Some("color".to_string());
    assert_eq!(match_interfaces(&vec![x], &vec![y]), Ok(()));
}

#[test]
fn high_locations() {
    let a = vec![entry(u32::MAX - 2, u32::MAX, 7)];
    let b = vec![entry(u32::MAX - 3, u32::MAX, 7)];
    assert_eq!(match_interfaces(&a, &b), Ok(()));
    assert_eq!(
        match_interfaces(&b, &a),
        Err(ShaderInterfaceMismatchError::MissingElement { location: u32::MAX - 3 })
    );
}

#[test]
fn error_descriptions() {
    assert_eq!(
        ShaderInterfaceMismatchError::ElementsCountMismatch.description(),
        "the number of elements mismatches"
    );
    assert_eq!(
        ShaderInterfaceMismatchError::MissingElement { location: 3 }.description(),
        "an element is missing"
    );
    assert_eq!(
        ShaderInterfaceMismatchError::FormatMismatch.description(),
        "the format of an element does not match"
    );
}

#[test]
fn entry_clone_keeps_fields() {
    let mut x = entry(2, 5, 44);
    x.name = Some("normal".to_string());
    let y = x.clone();
    assert_eq!(y.location, 2..5);
    assert_eq!(y.format, Format(44));
    assert_eq!(y.name.as_deref(), Some("normal"));
}

#[test]
fn reordering_the_second_interface_keeps_the_result() {
    let a = vec![entry(0, 2, 106), entry(4, 6, 100)];
    let b = vec![entry(0, 2, 106), entry(4, 5, 100)];
    let b2 = vec![entry(4, 5, 100), entry(0, 2, 106)];
    assert_eq!(match_interfaces(&a, &b), match_interfaces(&a, &b2));
    assert_eq!(
        match_interfaces(&a, &b2),
        Err(ShaderInterfaceMismatchError::MissingElement { location: 5 })
    );
}

#[test]
fn reordering_the_first_interface_keeps_success() {
    let a = vec![entry(0, 1, 106), entry(1, 2, 100)];
    let a2 = vec![entry(1, 2, 100), entry(0, 1, 106)];
    let b = vec![entry(0, 1, 106), entry(1, 2, 100)];
    assert_eq!(match_interfaces(&a, &b), Ok(()));
    assert_eq!(match_interfaces(&a2, &b), Ok(()));
    let c = vec![entry(0, 1, 106)];
    assert_eq!(match_interfaces(&a2, &c), Err(ShaderInterfaceMismatchError::ElementsCountMismatch));
    assert_eq!(match_interfaces(&a, &c), Err(ShaderInterfaceMismatchError::ElementsCountMismatch));
}

#[test]
fn reordering_the_first_interface_may_change_which_error_comes_first() {
    let b = vec![entry(0, 1, 100), entry(1, 2, 106)];
    let a = vec![entry(0, 1, 106), entry(7, 8, 106)];
    let a2 = vec![entry(7, 8, 106), entry(0, 1, 106)];
    assert_eq!(match_interfaces(&a, &b), Err(ShaderInterfaceMismatchError::FormatMismatch));
    assert_eq!(
        match_interfaces(&a2, &b),
        Err(ShaderInterfaceMismatchError::MissingElement { location: 7 })
    );
}
