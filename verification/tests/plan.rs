use sticker_crawler::error::CrawlError;
use sticker_crawler::plan::{plan_assets, plan_downloads, plan_product, Download};
use sticker_crawler::sticker::{StickerMap, StickerRecord};

fn record(id: &str, static_url: &str, animation_url: &str, sound_url: &str) -> StickerRecord {
    StickerRecord {
        id: id.to_string(),
        static_url: static_url.to_string(),
        fallback_static_url: String::new(),
        animation_url: animation_url.to_string(),
        popup_url: String::new(),
        sound_url: sound_url.to_string(),
    }
}

fn pairs(downloads: &Vec<Download>) -> Vec<(String, String)> {
    downloads.iter().map(|d| (d.url.clone(), d.id.clone())).collect()
}

fn pair(url: &str, id: &str) -> (String, String) {
    (url.to_string(), id.to_string())
}

#[test]
fn sticker_with_sound_and_animation_gives_both() {
    let plan = plan_assets(&record("7", "s.png", "a.png", "m.m4a"));
    assert_eq!(pairs(&plan), vec![pair("m.m4a", "7"), pair("a.png", "7")]);
}

#[test]
fn sticker_with_animation_does_not_give_the_still_image() {
    let plan = plan_assets(&record("7", "s.png", "a.png", ""));
    assert_eq!(pairs(&plan), vec![pair("a.png", "7")]);
}

#[test]
fn sticker_without_animation_gives_the_still_image() {
    let plan = plan_assets(&record("7", "s.png", "", ""));
    assert_eq!(pairs(&plan), vec![pair("s.png", "7")]);
    let plan = plan_assets(&record("7", "s.png", "", "m.m4a"));
    assert_eq!(pairs(&plan), vec![pair("m.m4a", "7"), pair("s.png", "7")]);
}

#[test]
fn sticker_without_assets_gives_nothing() {
    assert_eq!(plan_assets(&record("7", "", "", "")).len(), 0);
    let plan = plan_assets(&record("7", "", "", "m.m4a"));
    assert_eq!(pairs(&plan), vec![pair("m.m4a", "7")]);
}

#[test]
fn downloads_follow_the_records() {
    let mut map = StickerMap::new();
    assert_eq!(plan_downloads(&map).len(), 0);
    map.insert(record("1", "s1.png", "", "m1.m4a"));
    map.insert(record("2", "", "", ""));
    map.insert(record("3", "s3.png", "a3.png", ""));
    map.insert(record("1", "s1.png", "a1.png", ""));
    let plan = plan_downloads(&map);
    assert_eq!(pairs(&plan), vec![pair("a1.png", "1"), pair("a3.png", "3")]);
}

#[test]
fn product_page_with_sound_and_animation() {
    let document = r#"
        <p class="mdCMN38Item01Ttl" data-test="sticker-name-title">Pokémon Pixel Art: Gold & Silver Edition</p>
        <ul>
            <li class="mdCMN09Li FnStickerPreviewItem animation_sound-sticker " data-preview="{ &quot;type&quot; : &quot;animation_sound&quot;, &quot;id&quot; : &quot;20578551&quot;, &quot;staticUrl&quot; : &quot;https://stickershop.line-scdn.net/stickershop/v1/sticker/20578551/iPhone/sticker@2x.png?v=1&quot;, &quot;fallbackStaticUrl&quot; : &quot;https://stickershop.line-scdn.net/stickershop/v1/sticker/20578551/iPhone/sticker@2x.png?v=1&quot;, &quot;animationUrl&quot; : &quot;https://stickershop.line-scdn.net/stickershop/v1/sticker/20578551/iPhone/sticker_animation@2x.png?v=1&quot;, &quot;popupUrl&quot; : &quot;&quot;, &quot;soundUrl&quot; : &quot;https://stickershop.line-scdn.net/stickershop/v1/sticker/20578551/android/sticker_sound.m4a?v=1&quot; }" data-test="sticker-item"></li>
        </ul>
    "#;
    let plan = plan_product(document).unwrap();
    assert_eq!(plan.title, "Pokémon Pixel Art: Gold & Silver Edition");
    assert_eq!(plan.directory, "Pokémon Pixel Art Gold & Silver Edition");
    assert_eq!(
        pairs(&plan.downloads),
        vec![
            pair(
                "https://stickershop.line-scdn.net/stickershop/v1/sticker/20578551/android/sticker_sound.m4a?v=1",
                "20578551"
            ),
            pair(
                "https://stickershop.line-scdn.net/stickershop/v1/sticker/20578551/iPhone/sticker_animation@2x.png?v=1",
                "20578551"
            ),
        ]
    );
}

#[test]
fn product_page_with_a_still_image() {
    let document = r#"
        <p class="mdCMN38Item01Ttl" data-test="sticker-name-title">THE POWERPUFF GIRLS X NEWJEANS</p>
        <ul>
            <li class="mdCMN09Li FnStickerPreviewItem static-sticker " data-preview="{ &quot;type&quot; : &quot;static&quot;, &quot;id&quot; : &quot;616659318&quot;, &quot;staticUrl&quot; : &quot;https://stickershop.line-scdn.net/stickershop/v1/sticker/616659318/android/sticker.png?v=2&quot;, &quot;fallbackStaticUrl&quot; : &quot;https://stickershop.line-scdn.net/stickershop/v1/sticker/616659318/android/sticker.png?v=2&quot;, &quot;animationUrl&quot; : &quot;&quot;, &quot;popupUrl&quot; : &quot;&quot;, &quot;soundUrl&quot; : &quot;&quot; }" data-test="sticker-item"></li>
        </ul>
    "#;
    let plan = plan_product(document).unwrap();
    assert_eq!(plan.directory, "THE POWERPUFF GIRLS X NEWJEANS");
    assert_eq!(
        pairs(&plan.downloads),
        vec![pair(
            "https://stickershop.line-scdn.net/stickershop/v1/sticker/616659318/android/sticker.png?v=2",
            "616659318"
        )]
    );
}

#[test]
fn product_page_without_stickers_has_no_downloads() {
    let document = r#"
        <p class="mdCMN38Item01Ttl" data-test="sticker-name-title">THE POWERPUFF GIRLS X NEWJEANS</p>
    "#;
    let plan = plan_product(document).unwrap();
    assert_eq!(plan.title, "THE POWERPUFF GIRLS X NEWJEANS");
    assert_eq!(plan.directory, "THE POWERPUFF GIRLS X NEWJEANS");
    assert_eq!(plan.downloads.len(), 0);
}

#[test]
fn product_page_without_title_fails_before_its_stickers_are_read() {
    let document = r#"<ul><li class="FnStickerPreviewItem" data-preview="{ not json"></li></ul>"#;
    assert_eq!(plan_product(document).err(), Some(CrawlError::MissingTitle));
    assert_eq!(plan_product("<div></div>").err(), Some(CrawlError::MissingTitle));
}

#[test]
fn product_page_with_malformed_sticker_fails() {
    let document = r#"
        <p data-test="sticker-name-title">Title</p>
        <ul><li class="FnStickerPreviewItem" data-preview="{ not json"></li></ul>
    "#;
    assert_eq!(plan_product(document).err(), Some(CrawlError::MalformedStickerData));
}
