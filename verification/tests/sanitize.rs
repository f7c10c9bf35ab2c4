use sticker_crawler::sanitize::sanitize_directory_name;

#[test]
fn test_sanitize_directory_name() {
    // Should replace '/' with '_'
    let actual = sanitize_directory_name("Ranma1/2");
    assert_eq!(actual, "Ranma1_2");

    // Should replace ':' with empty string
    let actual = sanitize_directory_name("The Legend of Zelda: Breath of the Wild");
    assert_eq!(actual, "The Legend of Zelda Breath of the Wild");

    // Should not replace anything.
    let actual = sanitize_directory_name("We are NewJeans☆");
    assert_eq!(actual, "We are NewJeans☆");
    let actual = sanitize_directory_name("Pikachu, Switch Out! Come Back!");
    assert_eq!(actual, "Pikachu, Switch Out! Come Back!");
    let actual = sanitize_directory_name("Yarn Yoshi & Poochy Stickers");
    assert_eq!(actual, "Yarn Yoshi & Poochy Stickers");
}

#[test]
fn sanitize_drops_every_reserved_character() {
    assert_eq!(sanitize_directory_name("<>:\"\\|?*"), "");
    assert_eq!(sanitize_directory_name("a<b>c:d\"e\\f|g?h*i"), "abcdefghi");
    assert_eq!(sanitize_directory_name("**a**"), "a");
}

#[test]
fn sanitize_replaces_every_slash() {
    assert_eq!(sanitize_directory_name("/"), "_");
    assert_eq!(sanitize_directory_name("a//b/"), "a__b_");
    assert_eq!(sanitize_directory_name("1/2: 3/4"), "1_2 3_4");
}

#[test]
fn sanitize_keeps_everything_else() {
    assert_eq!(sanitize_directory_name(""), "");
    assert_eq!(sanitize_directory_name("Pokémon ☆ []^$.()+{}-_"), "Pokémon ☆ []^$.()+{}-_");
    assert_eq!(sanitize_directory_name("a\nb\tc"), "a\nb\tc");
}
