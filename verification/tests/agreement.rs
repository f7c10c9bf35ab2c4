use sticker_crawler::asset::path_extension;
use sticker_crawler::crawl::contains_text;
use sticker_crawler::resolve::split_reference;
use sticker_crawler::sanitize::sanitize_directory_name;
use sticker_crawler::title::trim;

/// A small generator of repeatable pseudo-random texts over `alphabet`.
struct Texts {
    state: u64,
    alphabet: Vec<char>,
}

impl Texts {
    fn new(seed: u64, alphabet: &str) -> Texts {
        Texts { state: seed, alphabet: alphabet.chars().collect() }
    }

    fn number(&mut self, below: u64) -> u64 {
        self.state = self.state.wrapping_mul(6364136223846793005).wrapping_add(1442695040888963407);
        (self.state >> 33) % below
    }

    fn text(&mut self, longest: u64) -> String {
        let length = self.number(longest + 1);
        let mut text = String::new();
        for _ in 0..length {
            let at = self.number(self.alphabet.len() as u64) as usize;
            text.push(self.alphabet[at]);
        }
        text
    }
}

#[test]
fn sanitize_agrees_with_a_character_filter() {
    let mut texts = Texts::new(1, "ab/<>:\"\\|?*_ ☆.-[]^");
    for _ in 0..2000 {
        let name = texts.text(12);
        let expected: String = name
            .chars()
            .map(|c| if c == '/' { '_' } else { c })
            .filter(|c| !"<>:\"\\|?*".contains(*c))
            .collect();
        assert_eq!(sanitize_directory_name(&name), expected, "{:?}", name);
    }
}

#[test]
fn sanitized_names_hold_no_reserved_character() {
    let mut texts = Texts::new(2, "ab/<>:\"\\|?*_ ☆");
    for _ in 0..2000 {
        let name = texts.text(16);
        let actual = sanitize_directory_name(&name);
        assert!(!actual.chars().any(|c| "/<>:\"\\|?*".contains(c)), "{:?}", name);
    }
}

#[test]
fn path_extension_agrees_with_splitting_from_the_right() {
    let mut texts = Texts::new(3, "ab/.☆");
    for _ in 0..4000 {
        let path = texts.text(10);
        let expected = path
            .rsplit('/')
            .next()
            .and_then(|filename| filename.rsplit('.').next().filter(|ext| *ext != filename))
            .map(|ext| ext.to_string());
        assert_eq!(path_extension(&path), expected, "{:?}", path);
    }
}

#[test]
fn contains_text_agrees_with_std() {
    let mut texts = Texts::new(4, "ab☆");
    for _ in 0..4000 {
        let text = texts.text(10);
        let needle = texts.text(4);
        assert_eq!(contains_text(&text, &needle), text.contains(&needle), "{:?} {:?}", text, needle);
    }
}

#[test]
fn trim_agrees_with_std_on_random_texts() {
    let mut texts = Texts::new(5, "a \t\n\u{a0}\u{3000}☆\u{200b}");
    for _ in 0..4000 {
        let text = texts.text(10);
        assert_eq!(trim(&text), text.trim(), "{:?}", text);
    }
}

#[test]
fn split_reference_agrees_with_splitting_once() {
    let mut texts = Texts::new(6, "a/?=&");
    for _ in 0..4000 {
        let reference = texts.text(8);
        let parts = split_reference(&reference);
        if reference.starts_with('/') {
            match reference.split_once('?') {
                Some((path, query)) => {
                    assert_eq!(parts.path.as_deref(), Some(path), "{:?}", reference);
                    assert_eq!(parts.query.as_deref(), Some(query), "{:?}", reference);
                }
                None => {
                    assert_eq!(parts.path.as_deref(), Some(reference.as_str()));
                    assert_eq!(parts.query, None);
                }
            }
        } else {
            assert_eq!(parts.path, None, "{:?}", reference);
            let query = reference.strip_prefix('?').unwrap_or(&reference);
            assert_eq!(parts.query.as_deref(), Some(query), "{:?}", reference);
        }
    }
}
