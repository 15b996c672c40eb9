//! The documents: a page for each, and an index of all of them.

use crate::machine::{has_frontmatter, no_frontmatter_no_metadata, rewrite, rewritten};
use crate::markup::{NodeView, RenderNode};
pub use crate::meta::Meta;
use crate::meta::{check, failure, resolve, resolved, MetaError, MetaView};
use crate::registry::Registry;
use crate::stream::{markdown_tokens, scan, write_html, written_html};
use crate::style::CSS;
use crate::text::{chars_of, contains_char, string_of};
use crate::timestamp::{datetime_text, not_after, Timestamp};
use vstd::prelude::*;
use vstd::string::StringExecFns;

verus! {

/// What every page starts with.
pub const DOCTYPE: &'static str = "<!DOCTYPE html>\n";

/// The title of the index.
pub const INDEX_TITLE: &'static str = "Words";

/// The tags that describe a page to a search engine, if there is a description.
pub open spec fn description_tags(description: Option<Seq<char>>) -> Seq<char> {
    match description {
        Some(text) => {
            let tag = NodeView::new("meta"@).attr("name"@, "description"@).attr("content"@, text).markup();
            tag + tag
        },
        None => Seq::empty(),
    }
}

/// The head of a page: character set, viewport, the title twice, the
/// description tags if there is a description, and the stylesheet.
pub open spec fn head(title: Seq<char>, description: Option<Seq<char>>) -> Seq<char> {
    NodeView::new("head"@).child(NodeView::new("meta"@).attr("charset"@, "utf-8"@).markup()).child(
        NodeView::new("meta"@).attr("name"@, "viewport"@).attr(
            "content"@,
            "width=device-width, initial-scale=1"@,
        ).markup(),
    ).child(NodeView::new("title"@).child(title).markup()).child(
        NodeView::new("meta"@).attr("property"@, "og:title"@).attr("content"@, title).markup(),
    ).child(description_tags(description)).child(NodeView::new("style"@).child(CSS@).markup()).markup()
}

/// The header of a document: its title, and its date at the right.
pub open spec fn article_header(title: Seq<char>, date: Seq<char>) -> Seq<char> {
    NodeView::new("div"@).attr(
        "style"@,
        "display: flex; justify-content: space-between; aligin-items: center; margin: 0"@,
    ).child(
        NodeView::new("h1"@).attr("class"@, "md-title"@).attr(
            "style"@,
            "margin: 0; margin-bottom: 0.17ex"@,
        ).child(title).markup(),
    ).child(
        NodeView::new("span"@).attr("style"@, "font-size: x-small; color: var(--text-alt)"@).child(
            date,
        ).markup(),
    ).markup()
}

/// The page of a document: the head, and in the body the navigation bar
/// and the article, which is the header, a rule and the document's markup.
pub open spec fn page(body: Seq<char>, meta: MetaView, navbar: Seq<char>) -> Seq<char> {
    let article = NodeView::new("article"@).attr("class"@, "md-content-container"@).child(
        article_header(meta.title, datetime_text(meta.datetime.0, meta.datetime.1)->0),
    ).child(NodeView::new("hr"@).attr("style"@, "margin-bottom:2ex"@).markup()).child(body);
    DOCTYPE@ + NodeView::new("html"@).attr("lang"@, "en-US"@).child(
        head(meta.title, meta.description),
    ).child(
        NodeView::new("body"@).attr("class"@, "md-body"@).child(navbar).child(
            article.markup(),
        ).markup(),
    ).markup()
}

/// Writes the tags that describe a page, if there is a description.
fn write_description_tags(description: &Option<String>) -> (out: String)
    ensures
        out@ == description_tags(description.deep_view()),
{
    match description {
        Some(text) => {
            let tag = RenderNode::new("meta").attr("name", "description").attr(
                "content",
                text.as_str(),
            ).render();
            let mut out = tag.clone();
            out.append(tag.as_str());
            out
        },
        None => String::new(),
    }
}

/// Writes the head of a page.
fn write_head(title: &str, description: &Option<String>) -> (out: String)
    ensures
        out@ == head(title@, description.deep_view()),
{
    let charset = RenderNode::new("meta").attr("charset", "utf-8");
    let viewport = RenderNode::new("meta").attr("name", "viewport").attr(
        "content",
        "width=device-width, initial-scale=1",
    );
    let name = RenderNode::new("title").child(title);
    let og_title = RenderNode::new("meta").attr("property", "og:title").attr("content", title);
    let tags = write_description_tags(description);
    let style = RenderNode::new("style").child(CSS);
    RenderNode::new("head").node(&charset).node(&viewport).node(&name).node(&og_title).child(
        tags.as_str(),
    ).node(&style).render()
}

/// Wraps the markup of a document in its page: the head with the title and
/// the description from the metadata, the navigation bar, and the article
/// with title, date and markup.
pub fn apply_document_template(html: &str, meta: &Meta, navbar: &str) -> (out: String)
    ensures
        out@ == page(html@, meta@, navbar@),
{
    let date = meta.datetime.to_text();
    let heading = RenderNode::new("h1").attr("class", "md-title").attr(
        "style",
        "margin: 0; margin-bottom: 0.17ex",
    ).child(meta.title.as_str());
    let stamp = RenderNode::new("span").attr("style", "font-size: x-small; color: var(--text-alt)").child(
        date.as_str(),
    );
    let header = RenderNode::new("div").attr(
        "style",
        "display: flex; justify-content: space-between; aligin-items: center; margin: 0",
    ).node(&heading).node(&stamp);
    let rule = RenderNode::new("hr").attr("style", "margin-bottom:2ex");
    let article = RenderNode::new("article").attr("class", "md-content-container").node(&header).node(
        &rule,
    ).child(html);
    let body = RenderNode::new("body").attr("class", "md-body").child(navbar).node(&article);
    let head = write_head(meta.title.as_str(), &meta.description);
    let root = RenderNode::new("html").attr("lang", "en-US").child(head.as_str()).node(&body);
    let mut out = DOCTYPE.to_owned();
    out.append(root.render().as_str());
    out
}

/// The metadata of the document with this source: what its metadata block
/// gives over the default, and the default where it has no valid block.
pub open spec fn document_meta(source: Seq<char>, default: MetaView) -> MetaView {
    resolved(rewritten(markdown_tokens(source)).1, default)
}

/// The markup of the document with this source, without its page.
pub open spec fn document_body(source: Seq<char>) -> Seq<char> {
    written_html(rewritten(markdown_tokens(source)).0)
}

/// The page of the document with this source.
pub open spec fn document_page(source: Seq<char>, default: MetaView, navbar: Seq<char>) -> Seq<char> {
    page(document_body(source), document_meta(source, default), navbar)
}

/// Why the metadata block of the document with this source is passed over,
/// if it has one and it is invalid.
pub open spec fn document_error(source: Seq<char>) -> Option<MetaError> {
    failure(rewritten(markdown_tokens(source)).1)
}

/// Tells why the metadata block of a document is passed over, if it is,
/// so that the failure can be logged. The document is rendered all the
/// same, with the metadata it has by default.
pub fn metadata_error(contents: &str, registry: &Registry) -> (error: Option<MetaError>)
    ensures
        error == document_error(contents@),
{
    let (_, captured) = rewrite(scan(contents), registry);
    check(&captured)
}

/// Reads the metadata of a document without writing its page.
pub fn read_meta(contents: &str, default: Meta, registry: &Registry) -> (meta: Meta)
    ensures
        meta@ == document_meta(contents@, default@),
{
    let (_, captured) = rewrite(scan(contents), registry);
    resolve(captured, default)
}

/// Renders a document: parses the source, takes the metadata block out,
/// colours the code blocks, and wraps the markup in the page. Returns the
/// page and the metadata.
pub fn markdown_to_document(contents: &str, meta: Meta, registry: &Registry, navbar: &str) -> (result: (
    String,
    Meta,
))
    ensures
        result.0@ == document_page(contents@, meta@, navbar@),
        result.1@ == document_meta(contents@, meta@),
{
    let (outputs, captured) = rewrite(scan(contents), registry);
    let body = write_html(outputs);
    let meta = resolve(captured, meta);
    let html = apply_document_template(body.as_str(), &meta, navbar);
    (html, meta)
}

/// A document without a metadata block keeps the metadata it is given: its
/// title is the one it was asked for under.
pub proof fn no_frontmatter_keeps_default(source: Seq<char>, default: MetaView)
    requires
        !has_frontmatter(markdown_tokens(source)),
    ensures
        document_meta(source, default) == default,
{
    no_frontmatter_no_metadata(markdown_tokens(source));
}

/// One line of the index: a document's title and date.
#[derive(Debug)]
pub struct Entry {
    pub title: String,
    pub datetime: Timestamp,
}

/// An entry as plain values.
pub ghost struct EntryView {
    pub title: Seq<char>,
    pub datetime: (int, int),
}

impl View for Entry {
    type V = EntryView;

    open spec fn view(&self) -> EntryView {
        EntryView { title: self.title@, datetime: self.datetime@ }
    }
}

impl DeepView for Entry {
    type V = EntryView;

    open spec fn deep_view(&self) -> EntryView {
        self@
    }
}

/// A source file of the content directory: its name without the
/// extension, and what it holds.
#[derive(Debug)]
pub struct SourceFile {
    pub stem: String,
    pub contents: String,
}

/// A source file as plain values.
pub ghost struct SourceFileView {
    pub stem: Seq<char>,
    pub contents: Seq<char>,
}

impl View for SourceFile {
    type V = SourceFileView;

    open spec fn view(&self) -> SourceFileView {
        SourceFileView { stem: self.stem@, contents: self.contents@ }
    }
}

impl DeepView for SourceFile {
    type V = SourceFileView;

    open spec fn deep_view(&self) -> SourceFileView {
        self@
    }
}

/// The order of the index: an entry may stand before another that is not
/// earlier.
pub open spec fn by_date() -> spec_fn(EntryView, EntryView) -> bool {
    |a: EntryView, b: EntryView| not_after(a.datetime, b.datetime)
}

/// The entries with `entry` put in by date: behind every entry that is not
/// later than it, before the others.
pub open spec fn inserted(entries: Seq<EntryView>, entry: EntryView) -> Seq<EntryView> {
    crate::order::inserted(entries, entry, by_date())
}

/// The entries by date, earliest first. Entries of one date keep the order
/// they came in.
pub open spec fn sorted(entries: Seq<EntryView>) -> Seq<EntryView> {
    crate::order::sorted(entries, by_date())
}

/// The index is in order of date: of the sorted entries none stands before
/// an earlier one, and they are the entries that were given, each as often
/// as it was given.
pub proof fn index_is_in_order_of_date(entries: Seq<EntryView>)
    ensures
        forall|i: int, j: int|
            0 <= i < j < sorted(entries).len() ==> not_after(
                (#[trigger] sorted(entries)[i]).datetime,
                (#[trigger] sorted(entries)[j]).datetime,
            ),
        sorted(entries).to_multiset() == entries.to_multiset(),
        sorted(entries).len() == entries.len(),
{
    crate::order::sorted_is_ordered(entries, by_date());
    let out = sorted(entries);
    assert forall|i: int, j: int| 0 <= i < j < out.len() implies not_after(
        (#[trigger] out[i]).datetime,
        (#[trigger] out[j]).datetime,
    ) by {
        assert(by_date()(out[i], out[j]));
    }
}

/// Entries of one date keep the order they came in.
pub proof fn index_keeps_the_order_of_one_date(entries: Seq<EntryView>, date: (int, int))
    ensures
        crate::order::those(sorted(entries), |e: EntryView| e.datetime == date)
            == crate::order::those(entries, |e: EntryView| e.datetime == date),
{
    let class = |e: EntryView| e.datetime == date;
    assert forall|a: EntryView, b: EntryView| #[trigger] class(a) && #[trigger] class(b) implies by_date()(
        a,
        b,
    ) by {}
    crate::order::sorted_is_stable(entries, by_date(), class);
}

/// Puts `entry` into a list by date.
pub fn insert_entry(entries: &mut Vec<Entry>, entry: Entry)
    ensures
        final(entries).deep_view() == inserted(old(entries).deep_view(), entry@),
{
    let ghost before = entries.deep_view();
    let mut at: usize = entries.len();
    while at > 0 && !entries[at - 1].datetime.not_after(&entry.datetime)
        invariant
            at <= entries.len(),
            before == entries.deep_view(),
            forall|j: int| at <= j < before.len() ==> !not_after(#[trigger] before[j].datetime, entry@.datetime),
        decreases at,
    {
        at -= 1;
    }
    proof {
        crate::order::inserted_at(before, entry@, by_date(), at as int);
    }
    entries.insert(at, entry);
    assert(entries.deep_view() =~= before.insert(at as int, entry@));
}

/// Sorts entries by date, earliest first, keeping the order of entries of
/// one date.
pub fn sort_entries(entries: Vec<Entry>) -> (out: Vec<Entry>)
    ensures
        out.deep_view() == sorted(entries.deep_view()),
{
    let ghost source = entries.deep_view();
    let mut out: Vec<Entry> = Vec::new();
    for entry in it: entries.into_iter()
        invariant
            it.seq() == entries@,
            source == entries.deep_view(),
            out.deep_view() == sorted(source.take(it.index())),
    {
        proof {
            assert(source.take(it.index() + 1).drop_last() =~= source.take(it.index()));
        }
        insert_entry(&mut out, entry);
    }
    proof {
        assert(source.take(source.len() as int) =~= source);
    }
    out
}

/// One line of the index: a link to the document of that title.
pub open spec fn index_item(title: Seq<char>) -> Seq<char> {
    NodeView::new("li"@).child(
        NodeView::new("a"@).attr("href"@, "/words?title="@ + title).child(title).markup(),
    ).markup()
}

/// The lines of the index, in the order of the entries.
pub open spec fn listing(entries: Seq<EntryView>) -> Seq<char>
    decreases entries.len(),
{
    if entries.len() == 0 {
        Seq::empty()
    } else {
        listing(entries.drop_last()) + index_item(entries.last().title)
    }
}

/// The page of the index: the head, and in the body the navigation bar and
/// the numbered list of the entries.
pub open spec fn index_page(entries: Seq<EntryView>, navbar: Seq<char>) -> Seq<char> {
    DOCTYPE@ + NodeView::new("html"@).attr("lang"@, "en-US"@).child(head(INDEX_TITLE@, None)).child(
        NodeView::new("body"@).child(navbar).child(
            NodeView::new("ol"@).child(listing(entries)).markup(),
        ).markup(),
    ).markup()
}

/// Writes the page of the index for entries that are already in order.
pub fn write_index(entries: &Vec<Entry>, navbar: &str) -> (out: String)
    ensures
        out@ == index_page(entries.deep_view(), navbar@),
{
    let ghost all = entries.deep_view();
    let mut lines = String::new();
    let mut i: usize = 0;
    while i < entries.len()
        invariant
            i <= entries.len(),
            all == entries.deep_view(),
            lines@ == listing(all.take(i as int)),
        decreases entries.len() - i,
    {
        proof {
            assert(all.take(i + 1).drop_last() =~= all.take(i as int));
        }
        let title = entries[i].title.as_str();
        let mut href = "/words?title=".to_owned();
        href.append(title);
        let link = RenderNode::new("a").attr("href", href.as_str()).child(title);
        let item = RenderNode::new("li").node(&link).render();
        lines.append(item.as_str());
        i += 1;
    }
    proof {
        assert(all.take(entries.len() as int) =~= all);
    }
    let list = RenderNode::new("ol").child(lines.as_str());
    let body = RenderNode::new("body").child(navbar).node(&list);
    let head = write_head(INDEX_TITLE, &None);
    let root = RenderNode::new("html").attr("lang", "en-US").child(head.as_str()).node(&body);
    let mut out = DOCTYPE.to_owned();
    out.append(root.render().as_str());
    out
}

/// The entry of a source file: the title and the date that its metadata
/// gives, the title being the file's name where the document gives none.
pub open spec fn entry_of(file: SourceFileView) -> EntryView {
    let meta = document_meta(file.contents, MetaView { title: file.stem, ..crate::meta::blank() });
    EntryView { title: meta.title, datetime: meta.datetime }
}

/// The entries of the source files, in the order of the files.
pub open spec fn entries_of(files: Seq<SourceFileView>) -> Seq<EntryView> {
    Seq::new(files.len(), |i: int| entry_of(files[i]))
}

/// Reads the metadata of every source file.
pub fn collect_entries(files: &Vec<SourceFile>, registry: &Registry) -> (entries: Vec<Entry>)
    ensures
        entries.deep_view() == entries_of(files.deep_view()),
{
    let mut entries: Vec<Entry> = Vec::new();
    let mut i: usize = 0;
    while i < files.len()
        invariant
            i <= files.len(),
            entries.deep_view() == entries_of(files.deep_view()).take(i as int),
        decreases files.len() - i,
    {
        let ghost before = entries.deep_view();
        let default = Meta::titled(files[i].stem.as_str());
        let meta = read_meta(files[i].contents.as_str(), default, registry);
        let entry = Entry { title: meta.title, datetime: meta.datetime };
        proof {
            assert(files.deep_view()[i as int] == files[i as int]@);
            assert(entry@ == entry_of(files[i as int]@));
        }
        entries.push(entry);
        assert(entries.deep_view() =~= before.push(entry@));
        i += 1;
        assert(entries.deep_view() =~= entries_of(files.deep_view()).take(i as int));
    }
    assert(entries.deep_view() =~= entries_of(files.deep_view()));
    entries
}

/// Builds the index of the documents in the source files: one line for
/// each, in order of date.
pub fn render_index(files: &Vec<SourceFile>, registry: &Registry, navbar: &str) -> (out: String)
    ensures
        out@ == index_page(sorted(entries_of(files.deep_view())), navbar@),
{
    let entries = sort_entries(collect_entries(files, registry));
    write_index(&entries, navbar)
}

/// The extension of a source file's name.
pub const EXTENSION: &'static str = ".md";

/// The name of the file that holds the document of this title; `None` for
/// a title with a path separator in it, which names no document.
pub open spec fn file_of(title: Seq<char>) -> Option<Seq<char>> {
    if title.contains('/') {
        None
    } else {
        Some(title + EXTENSION@)
    }
}

/// The name of a source file without its extension; `None` for a name that
/// is not a non-empty stem followed by the extension.
pub open spec fn stem_of(file_name: Seq<char>) -> Option<Seq<char>> {
    let cut = file_name.len() - EXTENSION@.len();
    if cut > 0 && file_name.skip(cut) == EXTENSION@ {
        Some(file_name.take(cut))
    } else {
        None
    }
}

/// The name of the file to read for the document of this title. A title
/// with a path separator in it gets none, so that nothing outside the
/// content directory is ever read.
pub fn document_file(title: &str) -> (name: Option<String>)
    ensures
        name.deep_view() == file_of(title@),
        name is None <==> title@.contains('/'),
        name matches Some(file) ==> !file@.contains('/'),
{
    if contains_char(title, '/') {
        None
    } else {
        let mut name = title.to_owned();
        name.append(EXTENSION);
        proof {
            file_stays_in_directory(title@);
        }
        Some(name)
    }
}

/// The file of a title never leaves the content directory: its name holds
/// no path separator.
pub proof fn file_stays_in_directory(title: Seq<char>)
    ensures
        file_of(title) matches Some(file) ==> !file.contains('/'),
{
    reveal_strlit(".md");
    if let Some(file) = file_of(title) {
        if file.contains('/') {
            let i = choose|i: int| 0 <= i < file.len() && file[i] == '/';
            if i < title.len() {
                assert(title[i] == '/');
            } else {
                assert(file[i] == EXTENSION@[i - title.len()]);
            }
        }
    }
}

/// The title under which a file of the content directory is listed, if it
/// is a source file.
pub fn document_stem(file_name: &str) -> (stem: Option<String>)
    ensures
        stem.deep_view() == stem_of(file_name@),
{
    let name = chars_of(file_name);
    let extension = chars_of(EXTENSION);
    if name.len() <= extension.len() {
        return None;
    }
    let cut = name.len() - extension.len();
    let mut i: usize = 0;
    while i < extension.len()
        invariant
            i <= extension.len(),
            cut + extension.len() == name.len(),
            name@ == file_name@,
            extension@ == EXTENSION@,
            forall|j: int| 0 <= j < i ==> name@[cut + j] == extension@[j],
        decreases extension.len() - i,
    {
        if name[cut + i] != extension[i] {
            assert(file_name@.skip(cut as int)[i as int] != EXTENSION@[i as int]);
            return None;
        }
        i += 1;
    }
    assert(file_name@.skip(cut as int) =~= EXTENSION@);
    assert(file_name@.take(cut as int) =~= name@.subrange(0, cut as int));
    Some(string_of(&name, 0, cut))
}

/// What reading a document's file gave.
#[derive(Debug)]
pub enum Source {
    /// There is no such file.
    Missing,
    /// The file is there and could not be read as text.
    Unreadable,
    /// What the file holds.
    Text(String),
}

/// What reading gave, as plain values.
pub ghost enum SourceView {
    Missing,
    Unreadable,
    Text(Seq<char>),
}

impl View for Source {
    type V = SourceView;

    open spec fn view(&self) -> SourceView {
        match self {
            Source::Missing => SourceView::Missing,
            Source::Unreadable => SourceView::Unreadable,
            Source::Text(text) => SourceView::Text(text@),
        }
    }
}

/// What is answered to a request.
#[derive(Debug)]
pub enum Page {
    /// A page.
    Html(String),
    /// There is nothing under that title.
    NotFound,
    /// The content could not be read.
    ServerError,
}

/// An answer as plain values.
pub ghost enum PageView {
    Html(Seq<char>),
    NotFound,
    ServerError,
}

impl View for Page {
    type V = PageView;

    open spec fn view(&self) -> PageView {
        match self {
            Page::Html(html) => PageView::Html(html@),
            Page::NotFound => PageView::NotFound,
            Page::ServerError => PageView::ServerError,
        }
    }
}

impl Page {
    /// The HTTP status that goes with the answer.
    pub fn status(&self) -> (code: u16)
        ensures
            code == match self@ {
                PageView::Html(_) => 200u16,
                PageView::NotFound => 404u16,
                PageView::ServerError => 500u16,
            },
    {
        match self {
            Page::Html(_) => 200,
            Page::NotFound => 404,
            Page::ServerError => 500,
        }
    }
}

/// The answer to a request for the document of a title, given what
/// reading its file gave: nothing for a title with a path separator in it,
/// whatever was read, and for a file that is missing; an error for a file
/// that cannot be read; the document's page otherwise, with the title as
/// the name the document has until it gives itself another.
pub open spec fn single_page(title: Seq<char>, source: SourceView, navbar: Seq<char>) -> PageView {
    if file_of(title) is None {
        PageView::NotFound
    } else {
        match source {
            SourceView::Missing => PageView::NotFound,
            SourceView::Unreadable => PageView::ServerError,
            SourceView::Text(text) => PageView::Html(
                document_page(text, MetaView { title, ..crate::meta::blank() }, navbar),
            ),
        }
    }
}

/// Answers a request for the document of a title.
pub fn render_document(title: &str, source: &Source, registry: &Registry, navbar: &str) -> (answer: Page)
    ensures
        answer@ == single_page(title@, source@, navbar@),
        title@.contains('/') ==> answer is NotFound,
{
    if contains_char(title, '/') {
        return Page::NotFound;
    }
    match source {
        Source::Missing => Page::NotFound,
        Source::Unreadable => Page::ServerError,
        Source::Text(text) => {
            let (html, _) = markdown_to_document(text.as_str(), Meta::titled(title), registry, navbar);
            Page::Html(html)
        },
    }
}

/// A document without a metadata block is named after its file: asked for
/// under a title, it is answered with a page of that title and nothing
/// else for metadata.
pub proof fn plain_document_is_named_after_its_file(
    title: Seq<char>,
    source: Seq<char>,
    navbar: Seq<char>,
)
    requires
        !title.contains('/'),
        !has_frontmatter(markdown_tokens(source)),
    ensures
        document_meta(source, MetaView { title, ..crate::meta::blank() }).title == title,
        single_page(title, SourceView::Text(source), navbar) == PageView::Html(
            page(document_body(source), MetaView { title, ..crate::meta::blank() }, navbar),
        ),
        entry_of(SourceFileView { stem: title, contents: source }).title == title,
{
    no_frontmatter_keeps_default(source, MetaView { title, ..crate::meta::blank() });
}

/// A request, together with what was read for it.
#[derive(Debug)]
pub enum Query {
    /// The document of a title, and what reading its file gave.
    Document { title: String, source: Source },
    /// The index, and the source files of the content directory, or `None`
    /// where one of them could not be read.
    Index { files: Option<Vec<SourceFile>> },
}

/// A request as plain values.
pub ghost enum QueryView {
    Document { title: Seq<char>, source: SourceView },
    Index { files: Option<Seq<SourceFileView>> },
}

impl View for Query {
    type V = QueryView;

    open spec fn view(&self) -> QueryView {
        match self {
            Query::Document { title, source } => QueryView::Document { title: title@, source: source@ },
            Query::Index { files } => QueryView::Index { files: files.deep_view() },
        }
    }
}

/// The answer to a request: the page of the document, the index, or why
/// there is none. An index of which one file cannot be read is not served
/// in part: it is an error.
pub open spec fn answer_to(query: QueryView, navbar: Seq<char>) -> PageView {
    match query {
        QueryView::Document { title, source } => single_page(title, source, navbar),
        QueryView::Index { files: Some(files) } => PageView::Html(
            index_page(sorted(entries_of(files)), navbar),
        ),
        QueryView::Index { files: None } => PageView::ServerError,
    }
}

/// Answers a request.
pub fn render(query: &Query, registry: &Registry, navbar: &str) -> (answer: Page)
    ensures
        answer@ == answer_to(query@, navbar@),
{
    match query {
        Query::Document { title, source } => render_document(title.as_str(), source, registry, navbar),
        Query::Index { files: Some(files) } => Page::Html(render_index(files, registry, navbar)),
        Query::Index { files: None } => Page::ServerError,
    }
}

} // verus!
