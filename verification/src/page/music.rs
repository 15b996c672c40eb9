//! The music recommendations: a page that lists them, and the rules by
//! which the list of releases is kept up to date with the configuration.

use crate::text::{
    not_after, same_text, text_not_after, text_order_is_total, text_order_is_transitive,
};
use vstd::prelude::*;
use vstd::string::StringExecFns;

verus! {

/// The path of the page.
pub const PATH: &'static str = "/music";

/// The title of the page.
pub const TITLE: &'static str = "Recommendations";

/// A release group, as far as the page shows it.
#[derive(Debug)]
pub struct Release {
    /// The identifier of the release group at MusicBrainz.
    pub rgid: String,
    /// Whether this is highly recommended.
    pub highly: bool,
    pub title: String,
    pub artwork: Option<String>,
    /// The date of the first release, as MusicBrainz writes it: it may
    /// stop after the year or the month.
    pub release_date: Option<String>,
    pub artist_credit: Option<String>,
    pub genres: Vec<String>,
}

/// A release as plain values.
pub ghost struct ReleaseView {
    pub rgid: Seq<char>,
    pub highly: bool,
    pub title: Seq<char>,
    pub artwork: Option<Seq<char>>,
    pub release_date: Option<Seq<char>>,
    pub artist_credit: Option<Seq<char>>,
    pub genres: Seq<Seq<char>>,
}

impl View for Release {
    type V = ReleaseView;

    open spec fn view(&self) -> ReleaseView {
        ReleaseView {
            rgid: self.rgid@,
            highly: self.highly,
            title: self.title@,
            artwork: self.artwork.deep_view(),
            release_date: self.release_date.deep_view(),
            artist_credit: self.artist_credit.deep_view(),
            genres: self.genres.deep_view(),
        }
    }
}

impl DeepView for Release {
    type V = ReleaseView;

    open spec fn deep_view(&self) -> ReleaseView {
        self@
    }
}

/// One recommendation of the configuration.
#[derive(Debug)]
pub struct Recommendation {
    /// The identifier of the release group at MusicBrainz.
    pub release: String,
    pub highly: bool,
}

/// A recommendation as plain values.
pub ghost struct RecommendationView {
    pub release: Seq<char>,
    pub highly: bool,
}

impl View for Recommendation {
    type V = RecommendationView;

    open spec fn view(&self) -> RecommendationView {
        RecommendationView { release: self.release@, highly: self.highly }
    }
}

impl DeepView for Recommendation {
    type V = RecommendationView;

    open spec fn deep_view(&self) -> RecommendationView {
        self@
    }
}

/// The configuration of the page: what is recommended.
#[derive(Debug)]
pub struct Config {
    pub recs: Vec<Recommendation>,
}

/// What is kept between runs: the releases that were fetched.
#[derive(Debug)]
pub struct Cache {
    pub releases: Vec<Release>,
}

/// The pieces with `separator` between each two of them.
pub open spec fn joined(parts: Seq<Seq<char>>, separator: Seq<char>) -> Seq<char>
    decreases parts.len(),
{
    if parts.len() == 0 {
        Seq::empty()
    } else if parts.len() == 1 {
        parts[0]
    } else {
        joined(parts.drop_last(), separator) + separator + parts.last()
    }
}

/// Writes the pieces with `separator` between each two of them.
pub fn join(parts: &Vec<String>, separator: &str) -> (out: String)
    ensures
        out@ == joined(parts.deep_view(), separator@),
{
    let ghost all = parts.deep_view();
    let mut out = String::new();
    let mut i: usize = 0;
    while i < parts.len()
        invariant
            i <= parts.len(),
            all == parts.deep_view(),
            out@ == joined(all.take(i as int), separator@),
        decreases parts.len() - i,
    {
        proof {
            assert(all.take(i + 1).drop_last() =~= all.take(i as int));
            assert(all.take(i + 1).last() == parts[i as int]@);
        }
        if i > 0 {
            out.append(separator);
        }
        out.append(parts[i].as_str());
        i += 1;
    }
    proof {
        assert(all.take(parts.len() as int) =~= all);
    }
    out
}

/// A line of a release's details: the label and the value.
pub open spec fn detail(label: Seq<char>, value: Seq<char>) -> Seq<char> {
    "<div class=\"label\"><strong>"@ + label + ":</strong></div><div>"@ + value + "</div>\n"@
}

/// A line of a release's details, or nothing where there is no value.
pub open spec fn optional_detail(label: Seq<char>, value: Option<Seq<char>>) -> Seq<char> {
    match value {
        Some(text) => detail(label, text),
        None => Seq::empty(),
    }
}

/// The picture of a release, where it has one.
pub open spec fn picture(artwork: Option<Seq<char>>) -> Seq<char> {
    match artwork {
        Some(address) => "<img src=\""@ + address + "\" />\n"@,
        None => Seq::empty(),
    }
}

/// The line that links a release to its page at MusicBrainz.
pub open spec fn identifier_line(rgid: Seq<char>) -> Seq<char> {
    "<div class=\"label\"><strong>MBID:</strong></div><a style=\"hyphens: manual; overflow-wrap: anywhere;\" href=https://musicbrainz.org/release-group/"@
        + rgid + ">"@ + rgid + "</a>\n"@
}

/// The list item of a release: its picture, if it has one, and its
/// details: identifier, artist if known, title, date if known, genres.
pub open spec fn release_element(release: ReleaseView) -> Seq<char> {
    "<li>\n"@ + "<div class=\"album-grid-container\">\n"@ + picture(release.artwork)
        + "<div class=\"album-grid-info\">\n"@ + identifier_line(release.rgid) + optional_detail(
        "Artist"@,
        release.artist_credit,
    ) + detail("Album"@, release.title) + optional_detail("Release Date"@, release.release_date)
        + detail("Genres"@, joined(release.genres, ", "@)) + "</div>\n"@ + "</div>\n"@ + "</li>\n"@
}

/// Writes a line of a release's details.
fn write_detail(out: &mut String, label: &str, value: &str)
    ensures
        final(out)@ == old(out)@ + detail(label@, value@),
{
    out.append("<div class=\"label\"><strong>");
    out.append(label);
    out.append(":</strong></div><div>");
    out.append(value);
    out.append("</div>\n");
    assert(out@ =~= old(out)@ + detail(label@, value@));
}

/// Writes the list item of a release.
pub fn generate_release_element(release: &Release) -> (out: String)
    ensures
        out@ == release_element(release@),
{
    let mut out = String::new();
    out.append("<li>\n");
    out.append("<div class=\"album-grid-container\">\n");
    match &release.artwork {
        Some(address) => {
            out.append("<img src=\"");
            out.append(address.as_str());
            out.append("\" />\n");
        },
        None => {},
    }
    assert(out@ =~= "<li>\n"@ + "<div class=\"album-grid-container\">\n"@ + picture(release@.artwork));
    out.append("<div class=\"album-grid-info\">\n");
    out.append(
        "<div class=\"label\"><strong>MBID:</strong></div><a style=\"hyphens: manual; overflow-wrap: anywhere;\" href=https://musicbrainz.org/release-group/",
    );
    out.append(release.rgid.as_str());
    out.append(">");
    out.append(release.rgid.as_str());
    out.append("</a>\n");
    assert(out@ =~= "<li>\n"@ + "<div class=\"album-grid-container\">\n"@ + picture(release@.artwork)
        + "<div class=\"album-grid-info\">\n"@ + identifier_line(release@.rgid));
    match &release.artist_credit {
        Some(artist) => {
            write_detail(&mut out, "Artist", artist.as_str());
        },
        None => {},
    }
    write_detail(&mut out, "Album", release.title.as_str());
    match &release.release_date {
        Some(date) => {
            write_detail(&mut out, "Release Date", date.as_str());
        },
        None => {},
    }
    let genres = join(&release.genres, ", ");
    write_detail(&mut out, "Genres", genres.as_str());
    out.append("</div>\n");
    out.append("</div>\n");
    out.append("</li>\n");
    out
}

/// The list items of the releases that are, or are not, highly
/// recommended, in the order of the releases.
pub open spec fn elements(releases: Seq<ReleaseView>, highly: bool) -> Seq<char>
    decreases releases.len(),
{
    if releases.len() == 0 {
        Seq::empty()
    } else if releases.last().highly == highly {
        elements(releases.drop_last(), highly) + release_element(releases.last())
    } else {
        elements(releases.drop_last(), highly)
    }
}

/// The links by which the order of the page is chosen.
pub open spec fn sort_links() -> Seq<char> {
    "<div class=\"music-nav\">\n"@
        + "<div class=\"label\" style=\"display: inline-block\">Sort by:</div>\n"@
        + "<a class=\"button\" href=\""@ + PATH@ + "/?sort=artist\">Artist</a>\n"@
        + "<a class=\"button\" href=\""@ + PATH@ + "/?sort=title\">Album</a>\n"@
        + "<a class=\"button\" href=\""@ + PATH@
        + "/?sort=release_date\">Release Date (Decending)</a>\n"@ + "</div>\n"@
}

/// The content of the page: the links for the order, the list of what is
/// highly recommended, and the list of the rest.
pub open spec fn body(releases: Seq<ReleaseView>) -> Seq<char> {
    sort_links() + "<h2>Highly Recommended</h2>\n"@
        + "<ul id=\"highly-recommended\" class=\"recommendation-list\">\n"@ + elements(
        releases,
        true,
    ) + "</ul>\n"@ + "<h2>Recommended</h2>\n"@
        + "<ul id=\"recommended\" class=\"recommendation-list\">\n"@ + elements(releases, false)
        + "</ul>\n"@
}

/// Writes the list items of the releases that are, or are not, highly recommended.
fn write_elements(out: &mut String, releases: &Vec<&Release>, highly: bool)
    ensures
        final(out)@ == old(out)@ + elements(releases.deep_view(), highly),
{
    let ghost all = releases.deep_view();
    let mut i: usize = 0;
    assert(out@ =~= old(out)@ + elements(all.take(0), highly));
    while i < releases.len()
        invariant
            i <= releases.len(),
            all == releases.deep_view(),
            out@ == old(out)@ + elements(all.take(i as int), highly),
        decreases releases.len() - i,
    {
        proof {
            assert(all.take(i + 1).drop_last() =~= all.take(i as int));
            assert(all.take(i + 1).last() == releases[i as int]@);
        }
        if releases[i].highly == highly {
            let element = generate_release_element(releases[i]);
            out.append(element.as_str());
        }
        i += 1;
        assert(out@ =~= old(out)@ + elements(all.take(i as int), highly));
    }
    proof {
        assert(all.take(releases.len() as int) =~= all);
    }
}

/// Writes the content of the page.
pub fn generate_body(releases: &Vec<&Release>) -> (out: String)
    ensures
        out@ == body(releases.deep_view()),
{
    let mut out = String::new();
    out.append("<div class=\"music-nav\">\n");
    out.append("<div class=\"label\" style=\"display: inline-block\">Sort by:</div>\n");
    out.append("<a class=\"button\" href=\"");
    out.append(PATH);
    out.append("/?sort=artist\">Artist</a>\n");
    out.append("<a class=\"button\" href=\"");
    out.append(PATH);
    out.append("/?sort=title\">Album</a>\n");
    out.append("<a class=\"button\" href=\"");
    out.append(PATH);
    out.append("/?sort=release_date\">Release Date (Decending)</a>\n");
    out.append("</div>\n");
    assert(out@ =~= sort_links());
    out.append("<h2>Highly Recommended</h2>\n");
    out.append("<ul id=\"highly-recommended\" class=\"recommendation-list\">\n");
    write_elements(&mut out, releases, true);
    out.append("</ul>\n");
    out.append("<h2>Recommended</h2>\n");
    out.append("<ul id=\"recommended\" class=\"recommendation-list\">\n");
    write_elements(&mut out, releases, false);
    out.append("</ul>\n");
    out
}

/// The head of the page, as it is written out.
pub open spec fn head(stylesheet: Seq<char>) -> Seq<char> {
    "\n         <head>\n         <meta charset=\"utf-8\" />\n         <meta name=\"viewport\" content=\"width=device-width, initial-scale=1\">\n         <title>"@
        + TITLE@ + "</title>\n         <meta property=\"og:title\" content=\""@ + TITLE@
        + "\" />\n         <style>\n         "@ + stylesheet
        + "\n         </style>\n         </head>\n    \n"@
}

/// The page: the head, the navigation bar and the content.
pub open spec fn page(releases: Seq<ReleaseView>, navbar: Seq<char>, stylesheet: Seq<char>) -> Seq<
    char,
> {
    "<!DOCTYPE html>\n"@ + "<html lang=\"en-US\">\n"@ + head(stylesheet) + navbar
        + "<div id=\"music-page-contents\">"@ + body(releases) + "</div>\n"@ + "</html>\n"@
}

/// Writes the page for releases that are already in order.
pub fn generate_html(releases: &Vec<&Release>, navbar: &str) -> (out: String)
    ensures
        out@ == page(releases.deep_view(), navbar@, crate::style::CSS@),
{
    let mut out = String::new();
    out.append("<!DOCTYPE html>\n");
    out.append("<html lang=\"en-US\">\n");
    let ghost start = out@;
    out.append(
        "\n         <head>\n         <meta charset=\"utf-8\" />\n         <meta name=\"viewport\" content=\"width=device-width, initial-scale=1\">\n         <title>",
    );
    out.append(TITLE);
    out.append("</title>\n         <meta property=\"og:title\" content=\"");
    out.append(TITLE);
    out.append("\" />\n         <style>\n         ");
    out.append(crate::style::CSS);
    out.append("\n         </style>\n         </head>\n    \n");
    assert(out@ =~= start + head(crate::style::CSS@));
    out.append(navbar);
    out.append("<div id=\"music-page-contents\">");
    let body = generate_body(releases);
    out.append(body.as_str());
    out.append("</div>\n");
    out.append("</html>\n");
    out
}

/// The orders in which the page can list the releases.
#[derive(Clone, Copy, Debug)]
pub enum Order {
    /// By title.
    Title,
    /// By artist, releases without a known artist first.
    Artist,
    /// By date of release, latest first, releases without a date last.
    ReleaseDate,
}

/// The day that a release date of MusicBrainz stands for, counted from the
/// start of the calendar, where the year, the month and the day that are
/// given stand in for what the date leaves out; `None` for what is no date.
pub uninterp spec fn release_day(date: Seq<char>, year: int, month: int, day: int) -> Option<int>;

/// `DateString::into_naive_date` of musicbrainz_rs: the day of the date, as
/// `Datelike::num_days_from_ce` counts it, or chrono's error for what is no
/// date.
#[verifier::external_body]
fn read_day(date: &str, year: u32, month: u8, day: u8) -> (read: Result<i32, chrono::ParseError>)
    ensures
        match read {
            Ok(number) => release_day(date@, year as int, month as int, day as int) == Some(
                number as int,
            ),
            Err(_) => release_day(date@, year as int, month as int, day as int) is None,
        },
{
    musicbrainz_rs::entity::date_string::DateString(date.to_owned()).into_naive_date(
        year,
        month,
        day,
    ).map(|date| chrono::Datelike::num_days_from_ce(&date))
}

/// How late a release is, as two numbers of which the first decides: no
/// date is earlier than everything, a date that cannot be read is earlier
/// than every date that can, and a date that stops after the year or the
/// month counts as the first day of that year or month.
pub open spec fn lateness(release_date: Option<Seq<char>>) -> (int, int) {
    match release_date {
        None => (0, 0),
        Some(date) => match release_day(date, 1, 1, 1) {
            None => (1, 0),
            Some(day) => (2, day),
        },
    }
}

/// How late a release is.
pub fn read_lateness(release_date: &Option<String>) -> (rank: (u8, i32))
    ensures
        (rank.0 as int, rank.1 as int) == lateness(release_date.deep_view()),
{
    match release_date {
        None => (0, 0),
        Some(date) => match read_day(date.as_str(), 1, 1, 1) {
            Err(_) => (1, 0),
            Ok(day) => (2, day),
        },
    }
}

/// The order that the value of the `sort` parameter asks for, if it asks
/// for one.
pub open spec fn order_of(sort: Option<Seq<char>>) -> Option<Order> {
    match sort {
        Some(name) => if name == "title"@ {
            Some(Order::Title)
        } else if name == "artist"@ {
            Some(Order::Artist)
        } else if name == "release_date"@ {
            Some(Order::ReleaseDate)
        } else {
            None
        },
        None => None,
    }
}

/// Whether an optional text does not come after another: none comes before
/// every text.
pub open spec fn option_not_after(a: Option<Seq<char>>, b: Option<Seq<char>>) -> bool {
    match (a, b) {
        (None, _) => true,
        (Some(_), None) => false,
        (Some(x), Some(y)) => text_not_after(x, y),
    }
}

/// Whether the release `a` may stand before `b` in an order.
pub open spec fn may_precede(order: Order, a: ReleaseView, b: ReleaseView) -> bool {
    match order {
        Order::Title => text_not_after(a.title, b.title),
        Order::Artist => option_not_after(a.artist_credit, b.artist_credit),
        Order::ReleaseDate => {
            let x = lateness(a.release_date);
            let y = lateness(b.release_date);
            y.0 < x.0 || (y.0 == x.0 && y.1 <= x.1)
        },
    }
}

/// An order as a relation between releases.
pub open spec fn relation(order: Order) -> spec_fn(ReleaseView, ReleaseView) -> bool {
    |a: ReleaseView, b: ReleaseView| may_precede(order, a, b)
}

/// The releases as the page lists them: sorted as the `sort` parameter
/// asks, and as they are kept where it asks for nothing known.
pub open spec fn arranged(releases: Seq<ReleaseView>, sort: Option<Seq<char>>) -> Seq<ReleaseView> {
    match order_of(sort) {
        Some(order) => crate::order::sorted(releases, relation(order)),
        None => releases,
    }
}

/// The page lists the releases in the order that was asked for: sorted,
/// every release may stand before all that follow it, and the releases
/// are those that were given, each as often as it was given.
pub proof fn arranged_is_in_order(releases: Seq<ReleaseView>, order: Order)
    ensures
        crate::order::ordered(crate::order::sorted(releases, relation(order)), relation(order)),
        crate::order::sorted(releases, relation(order)).to_multiset() == releases.to_multiset(),
        crate::order::sorted(releases, relation(order)).len() == releases.len(),
{
    let le = relation(order);
    assert forall|a: ReleaseView, b: ReleaseView| #[trigger] le(a, b) || le(b, a) by {
        text_order_is_total(a.title, b.title);
        if a.artist_credit is Some && b.artist_credit is Some {
            text_order_is_total(a.artist_credit->0, b.artist_credit->0);
        }
    }
    assert forall|a: ReleaseView, b: ReleaseView, c: ReleaseView| #[trigger]
        le(a, b) && #[trigger] le(b, c) implies le(a, c) by {
        match order {
            Order::Title => {
                text_order_is_transitive(a.title, b.title, c.title);
            },
            Order::Artist => {
                if a.artist_credit is Some && b.artist_credit is Some && c.artist_credit is Some {
                    text_order_is_transitive(
                        a.artist_credit->0,
                        b.artist_credit->0,
                        c.artist_credit->0,
                    );
                }
            },
            Order::ReleaseDate => {},
        }
    }
    crate::order::sorted_is_ordered(releases, le);
}

/// Reads the value of the `sort` parameter.
pub fn read_order(sort: Option<&str>) -> (order: Option<Order>)
    ensures
        order == order_of(sort.deep_view()),
{
    match sort {
        Some(name) => if same_text(name, "title") {
            Some(Order::Title)
        } else if same_text(name, "artist") {
            Some(Order::Artist)
        } else if same_text(name, "release_date") {
            Some(Order::ReleaseDate)
        } else {
            None
        },
        None => None,
    }
}

/// Whether the release `a` may stand before `b` in an order.
pub fn precedes(order: Order, a: &Release, b: &Release) -> (holds: bool)
    ensures
        holds == may_precede(order, a@, b@),
{
    match order {
        Order::Title => not_after(a.title.as_str(), b.title.as_str()),
        Order::Artist => match (&a.artist_credit, &b.artist_credit) {
            (None, _) => true,
            (Some(_), None) => false,
            (Some(x), Some(y)) => not_after(x.as_str(), y.as_str()),
        },
        Order::ReleaseDate => {
            let x = read_lateness(&a.release_date);
            let y = read_lateness(&b.release_date);
            y.0 < x.0 || (y.0 == x.0 && y.1 <= x.1)
        },
    }
}

/// The place at which a release goes into a sorted list: behind every
/// release that may stand before it.
fn place(sorted: &Vec<&Release>, item: &Release, order: Order) -> (at: usize)
    ensures
        at <= sorted.len(),
        crate::order::inserted(sorted.deep_view(), item@, relation(order))
            == sorted.deep_view().insert(at as int, item@),
{
    let ghost all = sorted.deep_view();
    let mut at: usize = sorted.len();
    while at > 0 && !precedes(order, sorted[at - 1], item)
        invariant
            at <= sorted.len(),
            all == sorted.deep_view(),
            forall|j: int| at <= j < all.len() ==> !may_precede(order, #[trigger] all[j], item@),
        decreases at,
    {
        at -= 1;
    }
    proof {
        assert forall|j: int| at <= j < all.len() implies !relation(order)(#[trigger] all[j], item@) by {
            assert(!may_precede(order, all[j], item@));
        }
        crate::order::inserted_at(all, item@, relation(order), at as int);
    }
    at
}

/// Sorts the releases for the page, keeping the order of those of which
/// each may stand before the other.
pub fn arrange<'a>(releases: &'a Vec<Release>, order: Order) -> (out: Vec<&'a Release>)
    ensures
        out.deep_view() == crate::order::sorted(releases.deep_view(), relation(order)),
{
    let ghost source = releases.deep_view();
    let mut out: Vec<&Release> = Vec::new();
    let mut i: usize = 0;
    assert(out.deep_view() =~= crate::order::sorted(source.take(0), relation(order)));
    while i < releases.len()
        invariant
            i <= releases.len(),
            source == releases.deep_view(),
            out.deep_view() == crate::order::sorted(source.take(i as int), relation(order)),
        decreases releases.len() - i,
    {
        let item = &releases[i];
        let ghost before = out.deep_view();
        let at = place(&out, item, order);
        proof {
            assert(source.take(i + 1).drop_last() =~= source.take(i as int));
            assert(source.take(i + 1).last() == item@);
        }
        out.insert(at, item);
        assert(out.deep_view() =~= before.insert(at as int, item@));
        i += 1;
    }
    proof {
        assert(source.take(releases.len() as int) =~= source);
    }
    out
}

/// A copy of a list of texts.
fn copy_texts(texts: &Vec<String>) -> (copy: Vec<String>)
    ensures
        copy.deep_view() == texts.deep_view(),
{
    let mut copy: Vec<String> = Vec::new();
    let mut i: usize = 0;
    while i < texts.len()
        invariant
            i <= texts.len(),
            copy.deep_view() == texts.deep_view().take(i as int),
        decreases texts.len() - i,
    {
        let ghost before = copy.deep_view();
        let text = texts[i].clone();
        copy.push(text);
        assert(copy.deep_view() =~= before.push(texts[i as int]@));
        i += 1;
        assert(copy.deep_view() =~= texts.deep_view().take(i as int));
    }
    assert(texts.deep_view().take(texts.len() as int) =~= texts.deep_view());
    copy
}

impl Release {
    /// A copy of this release.
    pub fn duplicate(&self) -> (copy: Release)
        ensures
            copy@ == self@,
    {
        Release {
            rgid: self.rgid.clone(),
            highly: self.highly,
            title: self.title.clone(),
            artwork: match &self.artwork {
                Some(text) => Some(text.clone()),
                None => None,
            },
            release_date: match &self.release_date {
                Some(text) => Some(text.clone()),
                None => None,
            },
            artist_credit: match &self.artist_credit {
                Some(text) => Some(text.clone()),
                None => None,
            },
            genres: copy_texts(&self.genres),
        }
    }
}

/// Sorts the releases by title, as they are kept between runs.
pub fn sort_by_title(releases: Vec<Release>) -> (out: Vec<Release>)
    ensures
        out.deep_view() == crate::order::sorted(releases.deep_view(), relation(Order::Title)),
{
    let sorted = arrange(&releases, Order::Title);
    let mut out: Vec<Release> = Vec::new();
    let mut i: usize = 0;
    while i < sorted.len()
        invariant
            i <= sorted.len(),
            out.deep_view() == sorted.deep_view().take(i as int),
        decreases sorted.len() - i,
    {
        let ghost before = out.deep_view();
        let copy = sorted[i].duplicate();
        out.push(copy);
        assert(out.deep_view() =~= before.push(sorted[i as int]@));
        i += 1;
        assert(out.deep_view() =~= sorted.deep_view().take(i as int));
    }
    assert(sorted.deep_view().take(sorted.len() as int) =~= sorted.deep_view());
    out
}

/// The releases in the order in which they are kept.
fn as_kept<'a>(releases: &'a Vec<Release>) -> (all: Vec<&'a Release>)
    ensures
        all.deep_view() == releases.deep_view(),
{
    let ghost source = releases.deep_view();
    let mut all: Vec<&Release> = Vec::new();
    let mut i: usize = 0;
    assert(all.deep_view() =~= source.take(0));
    while i < releases.len()
        invariant
            i <= releases.len(),
            source == releases.deep_view(),
            all.deep_view() == source.take(i as int),
        decreases releases.len() - i,
    {
        let ghost before = all.deep_view();
        let item = &releases[i];
        all.push(item);
        assert(all.deep_view() =~= before.push(item@));
        assert(source[i as int] == item@);
        i += 1;
        assert(all.deep_view() =~= source.take(i as int));
    }
    assert(source.take(releases.len() as int) =~= source);
    all
}

/// Writes the page of the recommendations, in the order that the value of
/// the `sort` parameter asks for.
pub fn render(releases: &Vec<Release>, sort: Option<&str>, navbar: &str) -> (out: String)
    ensures
        out@ == page(arranged(releases.deep_view(), sort.deep_view()), navbar@, crate::style::CSS@),
{
    let listed = match read_order(sort) {
        Some(order) => arrange(releases, order),
        None => as_kept(releases),
    };
    generate_html(&listed, navbar)
}

/// Whether some recommendation names the release group.
pub open spec fn is_recommended(recs: Seq<RecommendationView>, rgid: Seq<char>) -> bool {
    exists|i: int| 0 <= i < recs.len() && (#[trigger] recs[i]).release == rgid
}

/// Whether one of the releases is the release group.
pub open spec fn holds(releases: Seq<ReleaseView>, rgid: Seq<char>) -> bool {
    exists|i: int| 0 <= i < releases.len() && (#[trigger] releases[i]).rgid == rgid
}

/// The releases that are still recommended, in the order they were in.
pub open spec fn retained(releases: Seq<ReleaseView>, recs: Seq<RecommendationView>) -> Seq<
    ReleaseView,
>
    decreases releases.len(),
{
    if releases.len() == 0 {
        Seq::empty()
    } else if is_recommended(recs, releases.last().rgid) {
        retained(releases.drop_last(), recs).push(releases.last())
    } else {
        retained(releases.drop_last(), recs)
    }
}

/// The releases with the first one that a recommendation names marked as
/// the recommendation says; unchanged where it names none of them.
pub open spec fn marked(releases: Seq<ReleaseView>, rec: RecommendationView) -> Seq<ReleaseView>
    decreases releases.len(),
{
    if releases.len() == 0 {
        releases
    } else if releases.first().rgid == rec.release {
        releases.update(0, ReleaseView { highly: rec.highly, ..releases.first() })
    } else {
        seq![releases.first()] + marked(releases.drop_first(), rec)
    }
}

/// The place of the next recommendation, from `from` on, that names none
/// of the releases: the one to fetch. It is the number of recommendations
/// where there is none.
pub open spec fn next_missing(
    releases: Seq<ReleaseView>,
    recs: Seq<RecommendationView>,
    from: int,
) -> int
    decreases recs.len() - from,
{
    if from < 0 || from >= recs.len() {
        recs.len() as int
    } else if !holds(releases, recs[from].release) {
        from
    } else {
        next_missing(marked(releases, recs[from]), recs, from + 1)
    }
}

/// The releases after every recommendation from `from` up to the next one
/// to fetch has marked its release.
pub open spec fn reconciled(
    releases: Seq<ReleaseView>,
    recs: Seq<RecommendationView>,
    from: int,
) -> Seq<ReleaseView>
    decreases recs.len() - from,
{
    if from < 0 || from >= recs.len() || !holds(releases, recs[from].release) {
        releases
    } else {
        reconciled(marked(releases, recs[from]), recs, from + 1)
    }
}

/// Whether some recommendation names the release group.
pub fn names_release(recs: &Vec<Recommendation>, rgid: &str) -> (found: bool)
    ensures
        found == is_recommended(recs.deep_view(), rgid@),
{
    let mut i: usize = 0;
    while i < recs.len()
        invariant
            i <= recs.len(),
            forall|j: int| 0 <= j < i ==> (#[trigger] recs.deep_view()[j]).release != rgid@,
        decreases recs.len() - i,
    {
        if same_text(recs[i].release.as_str(), rgid) {
            assert(recs.deep_view()[i as int].release == rgid@);
            return true;
        }
        i += 1;
    }
    false
}

/// Drops the releases that are no longer recommended.
pub fn retain_recommended(releases: Vec<Release>, recs: &Vec<Recommendation>) -> (out: Vec<Release>)
    ensures
        out.deep_view() == retained(releases.deep_view(), recs.deep_view()),
{
    let ghost source = releases.deep_view();
    let mut out: Vec<Release> = Vec::new();
    for release in it: releases.into_iter()
        invariant
            it.seq() == releases@,
            source == releases.deep_view(),
            out.deep_view() == retained(source.take(it.index()), recs.deep_view()),
    {
        proof {
            assert(source.take(it.index() + 1).drop_last() =~= source.take(it.index()));
        }
        if names_release(recs, release.rgid.as_str()) {
            let ghost before = out.deep_view();
            out.push(release);
            assert(out.deep_view() =~= before.push(release@));
        }
    }
    proof {
        assert(source.take(source.len() as int) =~= source);
    }
    out
}

/// Marking leaves every release the release group it was.
pub proof fn marked_keeps_identifiers(releases: Seq<ReleaseView>, rec: RecommendationView)
    ensures
        marked(releases, rec).len() == releases.len(),
        forall|i: int| 0 <= i < releases.len() ==> (#[trigger] marked(releases, rec)[i]).rgid
            == releases[i].rgid,
        forall|rgid: Seq<char>| holds(marked(releases, rec), rgid) == holds(releases, rgid),
    decreases releases.len(),
{
    let out = marked(releases, rec);
    if releases.len() > 0 && releases.first().rgid != rec.release {
        marked_keeps_identifiers(releases.drop_first(), rec);
        assert forall|i: int| 0 <= i < releases.len() implies (#[trigger] out[i]).rgid
            == releases[i].rgid by {
            if i > 0 {
                assert(out[i] == marked(releases.drop_first(), rec)[i - 1]);
                assert(releases[i] == releases.drop_first()[i - 1]);
            }
        }
    }
    assert forall|rgid: Seq<char>| holds(out, rgid) == holds(releases, rgid) by {
        if holds(out, rgid) {
            let i = choose|i: int| 0 <= i < out.len() && (#[trigger] out[i]).rgid == rgid;
            assert(releases[i].rgid == rgid);
        }
        if holds(releases, rgid) {
            let i = choose|i: int| 0 <= i < releases.len() && (#[trigger] releases[i]).rgid == rgid;
            assert(out[i].rgid == rgid);
        }
    }
}

/// Marks the first release that the recommendation names as the
/// recommendation says. Returns whether it names one.
pub fn mark(releases: &mut Vec<Release>, rec: &Recommendation) -> (found: bool)
    ensures
        final(releases).deep_view() == marked(old(releases).deep_view(), rec@),
        found == holds(old(releases).deep_view(), rec@.release),
        !found ==> final(releases).deep_view() == old(releases).deep_view(),
{
    let ghost source = releases.deep_view();
    let mut i: usize = 0;
    proof {
        assert(source.skip(0) =~= source);
        assert(source.take(0) + marked(source, rec@) =~= marked(source, rec@));
    }
    while i < releases.len()
        invariant
            i <= releases.len(),
            source == releases.deep_view(),
            source == old(releases).deep_view(),
            marked(source, rec@) == source.take(i as int) + marked(source.skip(i as int), rec@),
            forall|j: int| 0 <= j < i ==> (#[trigger] source[j]).rgid != rec@.release,
        decreases releases.len() - i,
    {
        let ghost rest = source.skip(i as int);
        if same_text(releases[i].rgid.as_str(), rec.release.as_str()) {
            releases[i].highly = rec.highly;
            proof {
                assert(source[i as int].rgid == rec@.release);
                assert(rest.first() == source[i as int]);
                assert(releases.deep_view() =~= source.take(i as int) + marked(rest, rec@));
            }
            return true;
        }
        proof {
            assert(rest.first() == source[i as int]);
            assert(rest.drop_first() =~= source.skip(i + 1));
            assert(source.take(i as int) + (seq![rest.first()] + marked(rest.drop_first(), rec@))
                =~= source.take(i + 1) + marked(source.skip(i + 1), rec@));
        }
        i += 1;
    }
    proof {
        assert(source.take(i as int) + marked(source.skip(i as int), rec@) =~= source);
    }
    false
}

/// Marks the releases of the recommendations from `from` on, up to the
/// first recommendation that names none of the releases. Returns the place
/// of that recommendation, which is the one to fetch next, or the number
/// of recommendations where all of them are there.
pub fn reconcile(releases: &mut Vec<Release>, recs: &Vec<Recommendation>, from: usize) -> (next: usize)
    ensures
        next == next_missing(old(releases).deep_view(), recs.deep_view(), from as int),
        final(releases).deep_view() == reconciled(
            old(releases).deep_view(),
            recs.deep_view(),
            from as int,
        ),
{
    let ghost all = recs.deep_view();
    let ghost source = releases.deep_view();
    let mut i: usize = from;
    while i < recs.len()
        invariant
            all == recs.deep_view(),
            source == old(releases).deep_view(),
            next_missing(source, all, from as int) == next_missing(releases.deep_view(), all, i as int),
            reconciled(source, all, from as int) == reconciled(releases.deep_view(), all, i as int),
        decreases recs.len() - i,
    {
        assert(all[i as int] == recs[i as int]@);
        if !mark(releases, &recs[i]) {
            return i;
        }
        i += 1;
    }
    recs.len()
}

/// What MusicBrainz tells of a release group.
#[derive(Debug)]
pub struct Fetched {
    pub title: String,
    pub first_release_date: Option<String>,
    /// The names of the artists it is credited to.
    pub artists: Vec<String>,
    /// The names of its genres.
    pub genres: Vec<String>,
}

/// The first piece, if there is one.
pub open spec fn first_of(pieces: Seq<Seq<char>>) -> Option<Seq<char>> {
    if pieces.len() > 0 {
        Some(pieces[0])
    } else {
        None
    }
}

/// What was fetched, as plain values.
pub ghost struct FetchedView {
    pub title: Seq<char>,
    pub first_release_date: Option<Seq<char>>,
    pub artists: Seq<Seq<char>>,
    pub genres: Seq<Seq<char>>,
}

impl View for Fetched {
    type V = FetchedView;

    open spec fn view(&self) -> FetchedView {
        FetchedView {
            title: self.title@,
            first_release_date: self.first_release_date.deep_view(),
            artists: self.artists.deep_view(),
            genres: self.genres.deep_view(),
        }
    }
}

/// The release of a recommendation, from what was fetched for it: it is
/// credited to the first of its artists.
pub open spec fn released(
    rec: RecommendationView,
    fetched: FetchedView,
    artwork: Option<Seq<char>>,
) -> ReleaseView {
    ReleaseView {
        rgid: rec.release,
        highly: rec.highly,
        title: fetched.title,
        artwork,
        release_date: fetched.first_release_date,
        artist_credit: first_of(fetched.artists),
        genres: fetched.genres,
    }
}

/// The release of a recommendation, from what was fetched for it.
pub fn release_of(rec: &Recommendation, fetched: Fetched, artwork: Option<String>) -> (release: Release)
    ensures
        release@ == released(rec@, fetched@, artwork.deep_view()),
{
    let artist_credit = if fetched.artists.len() > 0 {
        assert(fetched.artists.deep_view()[0] == fetched.artists[0]@);
        Some(fetched.artists[0].clone())
    } else {
        None
    };
    Release {
        rgid: rec.release.clone(),
        highly: rec.highly,
        title: fetched.title,
        artwork,
        release_date: fetched.first_release_date,
        artist_credit,
        genres: fetched.genres,
    }
}

/// One picture of a release group's cover art.
#[derive(Debug)]
pub struct CoverImage {
    /// Whether it shows the front.
    pub front: bool,
    /// Where the picture is.
    pub image: String,
}

impl DeepView for CoverImage {
    type V = (bool, Seq<char>);

    open spec fn deep_view(&self) -> (bool, Seq<char>) {
        (self.front, self.image@)
    }
}

/// What the cover art archive answers: where the picture is, or a list of
/// pictures.
#[derive(Debug)]
pub enum CoverArt {
    Url(String),
    Images(Vec<CoverImage>),
}

/// The address of the first picture that shows the front, if there is one.
pub open spec fn first_front(images: Seq<(bool, Seq<char>)>) -> Option<Seq<char>>
    decreases images.len(),
{
    if images.len() == 0 {
        None
    } else if images.first().0 {
        Some(images.first().1)
    } else {
        first_front(images.drop_first())
    }
}

/// The address of the first picture that shows the front, if there is one.
pub fn front_image(images: &Vec<CoverImage>) -> (address: Option<String>)
    ensures
        address.deep_view() == first_front(images.deep_view()),
{
    let ghost all = images.deep_view();
    let mut i: usize = 0;
    proof {
        assert(all.skip(0) =~= all);
    }
    while i < images.len()
        invariant
            i <= images.len(),
            all == images.deep_view(),
            first_front(all) == first_front(all.skip(i as int)),
        decreases images.len() - i,
    {
        proof {
            assert(all.skip(i as int).first() == images[i as int].deep_view());
            assert(all.skip(i as int).drop_first() =~= all.skip(i + 1));
        }
        if images[i].front {
            return Some(images[i].image.clone());
        }
        i += 1;
    }
    None
}

/// The picture to show for a release group: the one the archive points
/// to, or the first of its pictures that shows the front.
pub fn artwork_of(art: &CoverArt) -> (address: Option<String>)
    ensures
        address.deep_view() == match art {
            CoverArt::Url(url) => Some(url@),
            CoverArt::Images(images) => first_front(images.deep_view()),
        },
{
    match art {
        CoverArt::Url(url) => Some(url.clone()),
        CoverArt::Images(images) => front_image(images),
    }
}

/// How long to wait before a request, in milliseconds, when the last one
/// ended so many milliseconds ago: as long again as has passed, where less
/// than the full wait has passed, and not at all after that.
pub fn pause_before_fetch(elapsed: u64) -> (pause: u64)
    ensures
        pause == if elapsed < WAIT_SECONDS * 1000 {
            elapsed
        } else {
            0
        },
{
    if elapsed < WAIT_SECONDS * 1000 {
        elapsed
    } else {
        0
    }
}

/// The tries that a request has left when it is first made. A request is
/// made again after a transient failure as long as the tries left are not
/// below zero, and each failure takes one try away: with three tries at
/// first, a request is made up to five times.
pub const TRIES: i32 = 3;

/// The seconds to wait between two requests.
pub const WAIT_SECONDS: u64 = 4;

/// Whether a failed request is worth trying again: the service said it is
/// unavailable, or the request failed before any status came back.
pub fn is_transient(status: Option<u16>, is_request: bool, is_status: bool) -> (transient: bool)
    ensures
        transient == (status == Some(503u16) || (is_request && !is_status)),
{
    let unavailable = match status {
        Some(code) => code == 503,
        None => false,
    };
    unavailable || (is_request && !is_status)
}

/// What to do after a failed request with `tries` tries left: to try again
/// with one try less, after the wait, as long as the failure is transient
/// and the tries are not used up, and to give up otherwise.
pub fn after_failure(tries: i32, transient: bool) -> (left: Option<i32>)
    ensures
        left == if transient && tries >= 0 {
            Some((tries - 1) as i32)
        } else {
            None
        },
{
    if transient && tries >= 0 {
        Some(tries - 1)
    } else {
        None
    }
}

} // verus!
