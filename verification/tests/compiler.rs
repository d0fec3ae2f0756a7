use tag_rename::fields::FieldName;
use tag_rename::format::FormatToken;
use tag_rename::format::parse_format;

fn field_of(token: &FormatToken) -> Option<FieldName> {
    match token {
        FormatToken::Field(f) => Some(*f),
        FormatToken::Literal(_) => None,
    }
}

fn literal_of(token: &FormatToken) -> Option<String> {
    match token {
        FormatToken::Literal(s) => Some(s.clone()),
        FormatToken::Field(_) => None,
    }
}

#[test]
fn empty_template_compiles_to_no_tokens() {
    let tokens = parse_format("");
    assert_eq!(tokens.len(), 0);
}

#[test]
fn whitespace_only_template_compiles_to_no_tokens() {
    let tokens = parse_format("   ");
    assert_eq!(tokens.len(), 0);
    let tokens = parse_format(" ");
    assert_eq!(tokens.len(), 0);
}

#[test]
fn default_template_compiles_to_track_dash_title() {
    let tokens = parse_format("%n - %t");
    assert_eq!(tokens.len(), 3);
    assert_eq!(field_of(&tokens[0]), Some(FieldName::Track));
    assert_eq!(literal_of(&tokens[1]), Some("-".to_string()));
    assert_eq!(field_of(&tokens[2]), Some(FieldName::Title));
}

#[test]
fn reserved_suffix_letters_become_fields() {
    let tokens = parse_format("%n %t %a %y %b");
    assert_eq!(tokens.len(), 5);
    assert_eq!(field_of(&tokens[0]), Some(FieldName::Track));
    assert_eq!(field_of(&tokens[1]), Some(FieldName::Title));
    assert_eq!(field_of(&tokens[2]), Some(FieldName::Artist));
    assert_eq!(field_of(&tokens[3]), Some(FieldName::Year));
    assert_eq!(field_of(&tokens[4]), Some(FieldName::Album));
}

#[test]
fn unrecognized_words_degrade_to_literals() {
    let tokens = parse_format("foo .. %x");
    assert_eq!(tokens.len(), 3);
    assert_eq!(literal_of(&tokens[0]), Some("foo".to_string()));
    assert_eq!(literal_of(&tokens[1]), Some("..".to_string()));
    assert_eq!(literal_of(&tokens[2]), Some("%x".to_string()));
}

#[test]
fn any_word_ending_in_a_reserved_letter_is_a_field() {
    let tokens = parse_format("ban");
    assert_eq!(tokens.len(), 1);
    assert_eq!(field_of(&tokens[0]), Some(FieldName::Track));
}

#[test]
fn repeated_spaces_produce_no_extra_tokens() {
    let tokens = parse_format("  %n   -   %t  ");
    assert_eq!(tokens.len(), 3);
    assert_eq!(field_of(&tokens[0]), Some(FieldName::Track));
    assert_eq!(literal_of(&tokens[1]), Some("-".to_string()));
    assert_eq!(field_of(&tokens[2]), Some(FieldName::Title));
}
