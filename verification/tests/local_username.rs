use frd_vnc::local_username::{trimmed, validate_local_username, InvalidLocalUsername};

#[test]
fn names_are_accepted_as_they_stand() {
    let longest = "u".repeat(255);
    for name in ["u", "John Doe", "用户", longest.as_str()] {
        assert_eq!(validate_local_username(name), Ok(()));
    }
}

#[test]
fn names_with_edges_of_white_space_or_control_characters_are_refused() {
    let longer = "u".repeat(256);
    for name in ["", " u", "u ", "\u{2003}u", "u\u{3000}", "a\u{85}b", "a\tb", "a\u{7f}b", longer.as_str()] {
        assert_eq!(validate_local_username(name), Err(InvalidLocalUsername));
    }
    assert_eq!(InvalidLocalUsername.message(), "本地用户名无效");
}

#[test]
fn white_space_and_control_characters_are_those_of_the_standard_library() {
    for number in 0u32..=0x10_ffff {
        if let Some(character) = char::from_u32(number) {
            let text = format!("a{character}");
            assert_eq!(trimmed(&text), text.trim() == text);
            assert_eq!(
                validate_local_username(&text).is_err(),
                character.is_whitespace() || character.is_control()
            );
        }
    }
}
