use homepage::page::nav;

#[test]
fn navbar_links_to_both_pages() {
    let html = nav::render();
    assert_eq!(
        html,
        "<nav class=\"navbar\"><div class=\"nav-container\"><a class=\"nav-button\" href=\"/music\">Music Recs</a><a class=\"nav-button\" href=\"/words\">Words</a></div></nav>"
    );
}
