use rust_persian_tools::half_space::{add_half_space, remove_half_space, AddHalfSpace, RemoveHalfSpace};

#[test]
fn test_adding_half_space() {
    assert_eq!(
        add_half_space("\u{646}\u{645}\u{6cc} \u{62e}\u{648}\u{627}\u{647}\u{6cc} \u{62f}\u{631}\u{62e}\u{62a} \u{647}\u{627} \u{631}\u{627} \u{628}\u{628}\u{6cc}\u{646}\u{6cc}\u{645}\u{61f}"),
        "\u{646}\u{645}\u{6cc}\u{200c}\u{62e}\u{648}\u{627}\u{647}\u{6cc} \u{62f}\u{631}\u{62e}\u{62a}\u{200c}\u{647}\u{627} \u{631}\u{627} \u{628}\u{628}\u{6cc}\u{646}\u{6cc}\u{645}\u{61f}".to_string()
    );

    assert_eq!(
        add_half_space("\u{627}\u{6cc} \u{62f}\u{648}\u{633}\u{62a} \u{633}\u{644}\u{627}\u{645} \u{645}\u{646} \u{628}\u{647} \u{62a}\u{648}. \u{646}\u{645}\u{6cc} \u{62e}\u{648}\u{627}\u{647}\u{645}\u{62a} \u{62f}\u{631}\u{62e}\u{62a} \u{647}\u{627}\u{6cc} \u{686}\u{646}\u{627}\u{631} \u{647}\u{627}\u{644}\u{647} \u{635}\u{645}\u{6cc}\u{645}\u{6cc} \u{645}\u{646}"),
        "\u{627}\u{6cc} \u{62f}\u{648}\u{633}\u{62a} \u{633}\u{644}\u{627}\u{645} \u{645}\u{646} \u{628}\u{647} \u{62a}\u{648}. \u{646}\u{645}\u{6cc}\u{200c}\u{62e}\u{648}\u{627}\u{647}\u{645}\u{62a} \u{62f}\u{631}\u{62e}\u{62a}\u{200c}\u{647}\u{627}\u{6cc} \u{686}\u{646}\u{627}\u{631} \u{647}\u{627}\u{644}\u{647} \u{635}\u{645}\u{6cc}\u{645}\u{6cc} \u{645}\u{646}".to_string()
    );
    add_half_space("\u{646}\u{645}\u{6cc}\u{62e}\u{648}\u{627}\u{647}\u{6cc}");
}

#[test]
fn test_removing_half_space() {
    assert_eq!(
        remove_half_space("\u{646}\u{645}\u{6cc}\u{200c}\u{62e}\u{648}\u{627}\u{647}\u{6cc} \u{62f}\u{631}\u{62e}\u{62a}\u{200c}\u{647}\u{627} \u{631}\u{627} \u{628}\u{628}\u{6cc}\u{646}\u{6cc}\u{645}\u{61f}"),
        "\u{646}\u{645}\u{6cc} \u{62e}\u{648}\u{627}\u{647}\u{6cc} \u{62f}\u{631}\u{62e}\u{62a} \u{647}\u{627} \u{631}\u{627} \u{628}\u{628}\u{6cc}\u{646}\u{6cc}\u{645}\u{61f}".to_string()
    );
}

#[test]
fn removing_empty_input_gives_empty_output() {
    assert_eq!(remove_half_space(""), "".to_string());
}

#[test]
fn removing_maps_soft_hyphen_to_space() {
    assert_eq!(remove_half_space("\u{62f}\u{631}\u{62e}\u{62a}\u{ad}\u{647}\u{627}"), "\u{62f}\u{631}\u{62e}\u{62a} \u{647}\u{627}".to_string());
}

#[test]
fn removing_is_idempotent() {
    let once = remove_half_space("\u{646}\u{645}\u{6cc}\u{200c}\u{62e}\u{648}\u{627}\u{647}\u{6cc} \u{62f}\u{631}\u{62e}\u{62a}\u{200c}\u{647}\u{627} \u{631}\u{627} \u{628}\u{628}\u{6cc}\u{646}\u{6cc}\u{645}\u{61f}");
    let twice = remove_half_space(&once);
    assert_eq!(twice, once);
}

#[test]
fn removing_preserves_char_count() {
    let input = "\u{646}\u{645}\u{6cc}\u{200c}\u{62e}\u{648}\u{627}\u{647}\u{6cc} \u{62f}\u{631}\u{62e}\u{62a}\u{200c}\u{647}\u{627} \u{631}\u{627} \u{628}\u{628}\u{6cc}\u{646}\u{6cc}\u{645}\u{61f}";
    let output = remove_half_space(input);
    assert_eq!(output.chars().count(), input.chars().count());
}

#[test]
fn removing_leaves_no_joiner() {
    let output = remove_half_space("\u{646}\u{645}\u{6cc}\u{200c}\u{62e}\u{648}\u{627}\u{647}\u{6cc} \u{62f}\u{631}\u{62e}\u{62a}\u{200c}\u{647}\u{627} \u{631}\u{627} \u{628}\u{628}\u{6cc}\u{646}\u{6cc}\u{645}\u{61f}");
    assert!(output.chars().all(|c| c != '\u{200C}' && c != '\u{00AD}'));
}

#[test]
fn removing_after_adding_leaves_no_joiner_but_need_not_round_trip() {
    let input = "  \u{646}\u{645}\u{6cc} \u{62e}\u{648}\u{627}\u{647}\u{6cc} \u{62f}\u{631}\u{62e}\u{62a} \u{647}\u{627} \u{631}\u{627} \u{628}\u{628}\u{6cc}\u{646}\u{6cc}\u{645}\u{61f}  ";
    let round = remove_half_space(&add_half_space(input));
    assert!(round.chars().all(|c| c != '\u{200C}' && c != '\u{00AD}'));
    assert_ne!(round, remove_half_space(input));
}

#[test]
fn adding_to_single_prefix_word_returns_it_unchanged() {
    assert_eq!(add_half_space("\u{646}\u{645}\u{6cc}\u{62e}\u{648}\u{627}\u{647}\u{6cc}"), "\u{646}\u{645}\u{6cc}\u{62e}\u{648}\u{627}\u{647}\u{6cc}".to_string());
}

#[test]
fn adding_trims_surrounding_whitespace() {
    assert_eq!(add_half_space("  \u{62f}\u{631}\u{62e}\u{62a} \u{647}\u{627}  "), "\u{62f}\u{631}\u{62e}\u{62a} \u{647}\u{627}".to_string());
}

#[test]
fn adding_joins_leading_mi_prefix() {
    assert_eq!(add_half_space("\u{645}\u{6cc} \u{631}\u{648}\u{645}"), "\u{645}\u{6cc}\u{200c}\u{631}\u{648}\u{645}".to_string());
}

#[test]
fn adding_joins_leading_bi_prefix() {
    assert_eq!(add_half_space("\u{628}\u{6cc} \u{62d}\u{648}\u{635}\u{644}\u{647}"), "\u{628}\u{6cc}\u{200c}\u{62d}\u{648}\u{635}\u{644}\u{647}".to_string());
}

#[test]
fn adding_wraps_possessive_suffix_in_joiners() {
    assert_eq!(add_half_space("\u{6a9}\u{62a}\u{627}\u{628} \u{627}\u{645} \u{62e}\u{648}\u{628}"), "\u{6a9}\u{62a}\u{627}\u{628}\u{200c}\u{627}\u{645}\u{200c}\u{62e}\u{648}\u{628}".to_string());
}

#[test]
fn adding_normalizes_existing_joiners_first() {
    assert_eq!(add_half_space("\u{62f}\u{631}\u{62e}\u{62a}\u{200c}\u{647}\u{627}"), "\u{62f}\u{631}\u{62e}\u{62a} \u{647}\u{627}".to_string());
}

#[test]
fn adding_empty_input_gives_empty_output() {
    assert_eq!(add_half_space(""), "".to_string());
}

#[test]
fn remove_trait_methods_match_free_function() {
    let owned: String = "\u{646}\u{645}\u{6cc}\u{200c}\u{62e}\u{648}\u{627}\u{647}\u{6cc} \u{62f}\u{631}\u{62e}\u{62a}\u{200c}\u{647}\u{627} \u{631}\u{627} \u{628}\u{628}\u{6cc}\u{646}\u{6cc}\u{645}\u{61f}".to_string();
    assert_eq!(owned.remove_half_space(), remove_half_space("\u{646}\u{645}\u{6cc}\u{200c}\u{62e}\u{648}\u{627}\u{647}\u{6cc} \u{62f}\u{631}\u{62e}\u{62a}\u{200c}\u{647}\u{627} \u{631}\u{627} \u{628}\u{628}\u{6cc}\u{646}\u{6cc}\u{645}\u{61f}"));
    assert_eq!("\u{646}\u{645}\u{6cc}\u{200c}\u{62e}\u{648}\u{627}\u{647}\u{6cc} \u{62f}\u{631}\u{62e}\u{62a}\u{200c}\u{647}\u{627} \u{631}\u{627} \u{628}\u{628}\u{6cc}\u{646}\u{6cc}\u{645}\u{61f}".remove_half_space(), remove_half_space("\u{646}\u{645}\u{6cc}\u{200c}\u{62e}\u{648}\u{627}\u{647}\u{6cc} \u{62f}\u{631}\u{62e}\u{62a}\u{200c}\u{647}\u{627} \u{631}\u{627} \u{628}\u{628}\u{6cc}\u{646}\u{6cc}\u{645}\u{61f}"));
}

#[test]
fn add_trait_methods_match_free_function() {
    let owned: String = "\u{646}\u{645}\u{6cc} \u{62e}\u{648}\u{627}\u{647}\u{6cc} \u{62f}\u{631}\u{62e}\u{62a} \u{647}\u{627} \u{631}\u{627} \u{628}\u{628}\u{6cc}\u{646}\u{6cc}\u{645}\u{61f}".to_string();
    assert_eq!(owned.add_half_space(), add_half_space("\u{646}\u{645}\u{6cc} \u{62e}\u{648}\u{627}\u{647}\u{6cc} \u{62f}\u{631}\u{62e}\u{62a} \u{647}\u{627} \u{631}\u{627} \u{628}\u{628}\u{6cc}\u{646}\u{6cc}\u{645}\u{61f}"));
    assert_eq!("\u{646}\u{645}\u{6cc} \u{62e}\u{648}\u{627}\u{647}\u{6cc} \u{62f}\u{631}\u{62e}\u{62a} \u{647}\u{627} \u{631}\u{627} \u{628}\u{628}\u{6cc}\u{646}\u{6cc}\u{645}\u{61f}".add_half_space(), add_half_space("\u{646}\u{645}\u{6cc} \u{62e}\u{648}\u{627}\u{647}\u{6cc} \u{62f}\u{631}\u{62e}\u{62a} \u{647}\u{627} \u{631}\u{627} \u{628}\u{628}\u{6cc}\u{646}\u{6cc}\u{645}\u{61f}"));
}

#[test]
fn cow_trait_methods_match_free_functions() {
    let borrowed: std::borrow::Cow<str> = std::borrow::Cow::Borrowed("\u{646}\u{645}\u{6cc}\u{200c}\u{62e}\u{648}\u{627}\u{647}\u{6cc} \u{62f}\u{631}\u{62e}\u{62a}\u{200c}\u{647}\u{627} \u{631}\u{627} \u{628}\u{628}\u{6cc}\u{646}\u{6cc}\u{645}\u{61f}");
    assert_eq!(borrowed.remove_half_space(), remove_half_space("\u{646}\u{645}\u{6cc}\u{200c}\u{62e}\u{648}\u{627}\u{647}\u{6cc} \u{62f}\u{631}\u{62e}\u{62a}\u{200c}\u{647}\u{627} \u{631}\u{627} \u{628}\u{628}\u{6cc}\u{646}\u{6cc}\u{645}\u{61f}"));
    let owned: std::borrow::Cow<str> = std::borrow::Cow::Owned("\u{646}\u{645}\u{6cc} \u{62e}\u{648}\u{627}\u{647}\u{6cc} \u{62f}\u{631}\u{62e}\u{62a} \u{647}\u{627} \u{631}\u{627} \u{628}\u{628}\u{6cc}\u{646}\u{6cc}\u{645}\u{61f}".to_string());
    assert_eq!(owned.add_half_space(), add_half_space("\u{646}\u{645}\u{6cc} \u{62e}\u{648}\u{627}\u{647}\u{6cc} \u{62f}\u{631}\u{62e}\u{62a} \u{647}\u{627} \u{631}\u{627} \u{628}\u{628}\u{6cc}\u{646}\u{6cc}\u{645}\u{61f}"));
}

#[test]
fn adding_joins_mid_string_bi_prefix() {
    assert_eq!(
        add_half_space("\u{627}\u{648} \u{628}\u{6cc} \u{62d}\u{648}\u{635}\u{644}\u{647} \u{627}\u{633}\u{62a}"),
        "\u{627}\u{648} \u{628}\u{6cc}\u{200c}\u{62d}\u{648}\u{635}\u{644}\u{647} \u{627}\u{633}\u{62a}".to_string()
    );
}
