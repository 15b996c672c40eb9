use homepage::machine::{rewrite, Mode, Transformer, CLOSE_WRAPPER, FRONTMATTER, OPEN_WRAPPER};
use homepage::meta::{check, merge, parse, resolve, Field, Meta, MetaError};
use homepage::registry::{fallback, Grammar, Registry, PLAIN_TEXT, THEME};
use homepage::stream::{Output, Token};
use homepage::timestamp::Timestamp;

fn text(s: &str) -> Token {
    Token::Text(s.to_string())
}

fn start(tag: &str) -> Token {
    Token::FencedStart(tag.to_string())
}

fn other() -> Token {
    Token::Other(pulldown_cmark::Event::Rule)
}

fn html(output: Option<Output>) -> String {
    match output {
        Some(Output::Html(markup)) => markup,
        _ => panic!("no fragment"),
    }
}

fn passes(output: Option<Output>) -> Token {
    match output {
        Some(Output::Pass(token)) => token,
        _ => panic!("not passed"),
    }
}

#[test]
fn wrapper_fragments() {
    assert_eq!(FRONTMATTER, "frontmatter");
    assert_eq!(OPEN_WRAPPER, "<div class=\"md-codeblock\">");
    assert_eq!(CLOSE_WRAPPER, "</div>");
}

#[test]
fn normal_mode_passes_everything_but_a_fenced_start() {
    let registry = Registry::load().unwrap();
    let mut machine = Transformer::new(&registry);
    assert!(matches!(machine.mode(), Mode::Normal));
    assert!(matches!(passes(machine.transform(text("hello"))), Token::Text(t) if t == "hello"));
    assert!(matches!(passes(machine.transform(Token::CodeBlockEnd)), Token::CodeBlockEnd));
    assert!(matches!(
        passes(machine.transform(other())),
        Token::Other(pulldown_cmark::Event::Rule)
    ));
    assert!(matches!(machine.mode(), Mode::Normal));
    let (last, captured) = machine.finish();
    assert!(last.is_none());
    assert!(captured.is_none());
}

#[test]
fn metadata_block_is_captured_and_suppressed() {
    let registry = Registry::load().unwrap();
    let mut machine = Transformer::new(&registry);
    assert!(machine.transform(start("frontmatter")).is_none());
    assert!(matches!(machine.mode(), Mode::Meta));
    assert!(machine.transform(text("title = ")).is_none());
    assert!(matches!(
        passes(machine.transform(other())),
        Token::Other(pulldown_cmark::Event::Rule)
    ));
    assert!(matches!(passes(machine.transform(start("rust"))), Token::FencedStart(t) if t == "rust"));
    assert!(matches!(machine.mode(), Mode::Meta));
    assert!(machine.transform(text("\"x\"\n")).is_none());
    assert!(machine.transform(Token::CodeBlockEnd).is_none());
    assert!(matches!(machine.mode(), Mode::Normal));
    let (last, captured) = machine.finish();
    assert!(last.is_none());
    assert_eq!(captured.as_deref(), Some("title = \"x\"\n"));
}

#[test]
fn empty_metadata_block_is_captured_as_empty() {
    let registry = Registry::load().unwrap();
    let mut machine = Transformer::new(&registry);
    assert!(machine.transform(start("frontmatter")).is_none());
    assert!(machine.transform(Token::CodeBlockEnd).is_none());
    let (_, captured) = machine.finish();
    assert_eq!(captured.as_deref(), Some(""));
}

#[test]
fn code_block_becomes_one_fragment() {
    let registry = Registry::load().unwrap();
    let mut machine = Transformer::new(&registry);
    assert_eq!(html(machine.transform(start("nosuchlanguage"))), OPEN_WRAPPER);
    assert!(matches!(machine.mode(), Mode::Highlight));
    assert!(machine.transform(text("a <")).is_none());
    assert!(matches!(
        passes(machine.transform(other())),
        Token::Other(pulldown_cmark::Event::Rule)
    ));
    assert!(machine.transform(text(" b\n")).is_none());
    let fragment = html(machine.transform(Token::CodeBlockEnd));
    assert_eq!(
        fragment,
        "<pre style=\"background-color:#2b303b;\">\n<span style=\"color:#c0c5ce;\">a &lt; b\n</span></pre>\n</div>"
    );
    assert!(matches!(machine.mode(), Mode::Normal));
    assert_eq!(html(machine.transform(start(""))), OPEN_WRAPPER);
    let second = html(machine.transform(Token::CodeBlockEnd));
    assert_eq!(second, "<pre style=\"background-color:#2b303b;\">\n</pre>\n</div>");
}

#[test]
fn unterminated_code_block_is_flushed() {
    let registry = Registry::load().unwrap();
    let mut machine = Transformer::new(&registry);
    assert_eq!(html(machine.transform(start("text"))), OPEN_WRAPPER);
    assert!(machine.transform(text("kept\n")).is_none());
    let (last, captured) = machine.finish();
    let fragment = html(last);
    assert!(fragment.contains("kept"));
    assert!(fragment.ends_with("</div>"));
    assert!(captured.is_none());
}

#[test]
fn unterminated_metadata_block_is_still_metadata() {
    let registry = Registry::load().unwrap();
    let (outputs, captured) = rewrite(vec![start("frontmatter"), text("title = \"x\"")], &registry);
    assert!(outputs.is_empty());
    assert_eq!(captured.as_deref(), Some("title = \"x\""));
}

#[test]
fn rewrite_of_a_whole_stream() {
    let registry = Registry::load().unwrap();
    let tokens = vec![
        start(" frontmatter "),
        text("a"),
        text("b"),
        Token::CodeBlockEnd,
        other(),
        text("prose"),
        start("rust"),
        text("fn f() {}\n"),
        Token::CodeBlockEnd,
        text("more"),
        start("nothing known"),
        text("x"),
    ];
    let (outputs, captured) = rewrite(tokens, &registry);
    assert_eq!(captured.as_deref(), Some("ab"));
    assert_eq!(outputs.len(), 7);
    assert!(matches!(&outputs[0], Output::Pass(Token::Other(pulldown_cmark::Event::Rule))));
    assert!(matches!(&outputs[1], Output::Pass(Token::Text(t)) if t == "prose"));
    assert!(matches!(&outputs[2], Output::Html(h) if h == OPEN_WRAPPER));
    assert!(matches!(&outputs[3], Output::Html(h) if h.ends_with(CLOSE_WRAPPER) && h.contains("fn ")));
    assert!(matches!(&outputs[4], Output::Pass(Token::Text(t)) if t == "more"));
    assert!(matches!(&outputs[5], Output::Html(h) if h == OPEN_WRAPPER));
    assert!(matches!(&outputs[6], Output::Html(h) if h.ends_with(CLOSE_WRAPPER) && h.contains("x")));
}

#[test]
fn rewrite_of_nothing() {
    let registry = Registry::load().unwrap();
    let (outputs, captured) = rewrite(Vec::new(), &registry);
    assert!(outputs.is_empty());
    assert!(captured.is_none());
}

#[test]
fn grammar_lookup_is_total() {
    let registry = Registry::load().unwrap();
    assert_eq!(registry.lookup_grammar("rs").name, "Rust");
    assert_eq!(registry.lookup_grammar("rust").name, "Rust");
    assert_eq!(registry.lookup_grammar("RUST").name, "Rust");
    assert_eq!(registry.lookup_grammar("py").name, "Python");
    assert_eq!(registry.lookup_grammar("").name, "Plain Text");
    assert_eq!(registry.lookup_grammar("nosuchlanguage").name, "Plain Text");
    assert_eq!(registry.lookup_grammar("frontmatter").name, "Plain Text");
    assert_eq!(registry.current_theme().name.as_deref(), Some("Base16 Ocean Dark"));
    assert_eq!(THEME, "base16-ocean.dark");
    assert_eq!(PLAIN_TEXT, "Plain Text");
    let plain = registry.lookup_grammar("");
    assert_eq!(
        registry.highlight(&plain, "a < b\n"),
        "<pre style=\"background-color:#2b303b;\">\n<span style=\"color:#c0c5ce;\">a &lt; b\n</span></pre>\n"
    );
    let set = syntect::parsing::SyntaxSet::load_defaults_newlines();
    assert_eq!(set.find_syntax_plain_text().name, PLAIN_TEXT);
}

#[test]
fn registry_holds_the_bundled_theme() {
    let registry = Registry::load().unwrap();
    let bundled = syntect::highlighting::ThemeSet::load_defaults();
    assert!(*registry.current_theme() == bundled.themes[THEME]);
    assert!(*registry.current_theme() != bundled.themes["InspiredGitHub"]);
    let again = Registry::load().unwrap();
    assert!(*again.current_theme() == *registry.current_theme());
}

#[test]
fn highlight_colors_or_escapes() {
    let registry = Registry::load().unwrap();
    let rust = registry.lookup_grammar("rust");
    let colored = registry.highlight(&rust, "let x = 1;\n");
    assert!(colored.starts_with("<pre style=\"background-color:#2b303b;\">\n<span"));
    assert!(colored.ends_with("</pre>\n"));
    assert_ne!(colored, "let x = 1;\n");
    let unknown = Grammar { name: "No Such Grammar".to_string() };
    assert_eq!(registry.highlight(&unknown, "a < b"), "a &lt; b");
    assert_eq!(fallback("a < b", None), "a &lt; b");
    assert_eq!(fallback("a < b", Some("<pre>x</pre>".to_string())), "<pre>x</pre>");
}

#[test]
fn grammar_names_are_unique() {
    let set = syntect::parsing::SyntaxSet::load_defaults_newlines();
    let mut names: Vec<&str> = set.syntaxes().iter().map(|s| s.name.as_str()).collect();
    let count = names.len();
    names.sort();
    names.dedup();
    assert_eq!(names.len(), count);
}

#[test]
fn timestamps_read_and_write() {
    let t = Timestamp::parse("2015-09-18T23:56:04").unwrap();
    assert_eq!(t.seconds(), 1442620564);
    assert_eq!(t.nanoseconds(), 0);
    assert_eq!(t.to_text(), "2015-09-18 23:56:04");
    let f = Timestamp::parse("2015-09-18T23:56:04.25").unwrap();
    assert_eq!(f.seconds(), 1442620564);
    assert_eq!(f.nanoseconds(), 250_000_000);
    assert_eq!(f.to_text(), "2015-09-18 23:56:04.250");
    let early = Timestamp::parse("1969-12-31T23:59:59").unwrap();
    assert_eq!(early.seconds(), -1);
    let written = Timestamp::parse("2015-09-18 23:56:04").unwrap();
    assert_eq!(written.seconds(), 1442620564);
    assert_eq!(written.nanoseconds(), 0);
    let fraction = Timestamp::parse("2015-09-18 23:56:04.000001").unwrap();
    assert_eq!(fraction.nanoseconds(), 1000);
    assert_eq!(fraction.to_text(), "2015-09-18 23:56:04.000001");
    assert!(Timestamp::parse("2015-09-18").is_none());
    assert!(Timestamp::parse("2015-09-18 23:56").is_none());
    assert!(Timestamp::parse("2015-09-18t23:56:04").is_none());
    assert!(Timestamp::parse("2015-13-18 23:56:04").is_none());
    assert!(Timestamp::parse("yesterday").is_none());
    assert!(Timestamp::parse("").is_none());
    assert_eq!(Timestamp::epoch().seconds(), 0);
    assert_eq!(Timestamp::epoch().nanoseconds(), 0);
    assert_eq!(Timestamp::epoch().to_text(), "1970-01-01 00:00:00");
    assert_eq!(Timestamp::epoch().to_text(), chrono::NaiveDateTime::default().to_string());
}

#[test]
fn written_timestamps_read_back() {
    for text in ["2015-09-18T23:56:04", "1970-01-01T00:00:00", "2024-02-29T12:00:00.123456789", "0001-01-01T00:00:00", "9999-12-31T23:59:59.5", "2015-06-30 23:59:60.5"] {
        let t = Timestamp::parse(text).unwrap();
        let back = Timestamp::parse(&t.to_text()).unwrap();
        assert_eq!(back.seconds(), t.seconds());
        assert_eq!(back.nanoseconds(), t.nanoseconds());
    }
}

#[test]
fn written_dates_read_back_at_the_edges() {
    let pairs: [(i64, u32); 12] = [
        (0, 0),
        (-1, 999_999_999),
        (1, 1),
        (1_435_708_799, 1_500_000_000),
        (59, 1_999_999_999),
        (253_402_300_799, 0),
        (253_402_300_800, 0),
        (-62_135_596_800, 0),
        (-62_135_596_801, 5),
        (-62_167_219_200, 0),
        (8_210_266_876_799, 999_999_999),
        (-8_334_601_228_800, 0),
    ];
    for (secs, nanos) in pairs {
        let datetime = chrono::DateTime::from_timestamp(secs, nanos).unwrap().naive_utc();
        let shown = datetime.to_string();
        let read = Timestamp::parse(&shown).unwrap();
        assert_eq!((read.seconds(), read.nanoseconds()), (secs, nanos), "{}", shown);
        assert_eq!(read.to_text(), shown);
        let with_t = format!("{:?}", datetime);
        let again = Timestamp::parse(&with_t).unwrap();
        assert_eq!((again.seconds(), again.nanoseconds()), (secs, nanos), "{}", with_t);
    }
    assert!(chrono::DateTime::from_timestamp(8_210_266_876_800, 0).is_none());
    assert!(chrono::DateTime::from_timestamp(-8_334_601_228_801, 0).is_none());
    assert!(chrono::DateTime::from_timestamp(58, 1_000_000_000).is_none());
}

#[test]
fn timestamps_are_ordered_by_seconds_then_nanoseconds() {
    let a = Timestamp::parse("2020-01-01T00:00:00").unwrap();
    let b = Timestamp::parse("2020-01-01T00:00:00.000000001").unwrap();
    let c = Timestamp::parse("2020-01-01T00:00:01").unwrap();
    assert!(a.not_after(&a));
    assert!(a.not_after(&b) && !b.not_after(&a));
    assert!(b.not_after(&c) && !c.not_after(&b));
    assert!(Timestamp::epoch().not_after(&a));
    assert!(Timestamp::parse("1960-01-01T00:00:00.9").unwrap().not_after(&Timestamp::epoch()));
}

#[test]
fn blank_and_titled_metadata() {
    let blank = Meta::default();
    assert_eq!(blank.title, "");
    assert_eq!(blank.datetime.seconds(), 0);
    assert!(blank.description.is_none());
    let titled = Meta::titled("name");
    assert_eq!(titled.title, "name");
    assert!(titled.description.is_none());
    let copy = Meta { description: Some("d".to_string()), ..titled }.duplicate();
    assert_eq!(copy.title, "name");
    assert_eq!(copy.description.as_deref(), Some("d"));
}

#[test]
fn parse_overrides_what_is_declared() {
    let default = Meta {
        title: "file".to_string(),
        datetime: Timestamp::parse("2000-01-01T00:00:00").unwrap(),
        description: Some("kept".to_string()),
    };
    let only_title = parse("title = \"Hello\"", &default).unwrap();
    assert_eq!(only_title.title, "Hello");
    assert_eq!(only_title.datetime.seconds(), 946684800);
    assert_eq!(only_title.description.as_deref(), Some("kept"));
    let all = parse(
        "title = \"T\"\ndatetime = \"2024-03-01T12:30:00\"\ndescription = \"D\"\nextra = 5\n",
        &default,
    )
    .unwrap();
    assert_eq!(all.title, "T");
    assert_eq!(all.datetime.seconds(), 1709296200);
    assert_eq!(all.description.as_deref(), Some("D"));
    let nothing = parse("", &default).unwrap();
    assert_eq!(nothing.title, "file");
    assert_eq!(nothing.description.as_deref(), Some("kept"));
}

#[test]
fn parse_errors() {
    let default = Meta::titled("file");
    assert_eq!(parse("title = ", &default).unwrap_err(), MetaError::Syntax);
    assert_eq!(parse("not toml at all", &default).unwrap_err(), MetaError::Syntax);
    assert_eq!(parse("title = 5", &default).unwrap_err(), MetaError::Title);
    assert_eq!(parse("datetime = 5", &default).unwrap_err(), MetaError::Datetime);
    assert_eq!(parse("datetime = \"soon\"", &default).unwrap_err(), MetaError::Datetime);
    assert_eq!(parse("datetime = 2024-03-01T12:30:00", &default).unwrap_err(), MetaError::Datetime);
    assert_eq!(parse("description = true", &default).unwrap_err(), MetaError::Description);
    assert_eq!(parse("title = 5\ndatetime = 5", &default).unwrap_err(), MetaError::Title);
    assert_eq!(parse("description = 1\ndatetime = 5", &default).unwrap_err(), MetaError::Datetime);
}

#[test]
fn merge_of_fields() {
    let default = Meta::titled("file");
    let merged = merge(Field::Text("T".to_string()), Field::Absent, Field::Text("D".to_string()), &default).unwrap();
    assert_eq!(merged.title, "T");
    assert_eq!(merged.datetime.seconds(), 0);
    assert_eq!(merged.description.as_deref(), Some("D"));
    let kept = merge(Field::Absent, Field::Absent, Field::Absent, &default).unwrap();
    assert_eq!(kept.title, "file");
    assert!(kept.description.is_none());
    assert_eq!(merge(Field::Other, Field::Other, Field::Other, &default).unwrap_err(), MetaError::Title);
    assert_eq!(merge(Field::Absent, Field::Other, Field::Other, &default).unwrap_err(), MetaError::Datetime);
    assert_eq!(merge(Field::Absent, Field::Absent, Field::Other, &default).unwrap_err(), MetaError::Description);
    assert_eq!(
        merge(Field::Absent, Field::Text("never".to_string()), Field::Absent, &default).unwrap_err(),
        MetaError::Datetime
    );
}

#[test]
fn resolve_keeps_the_default_on_failure() {
    assert_eq!(resolve(None, Meta::titled("file")).title, "file");
    assert_eq!(resolve(Some("title = \"x\"".to_string()), Meta::titled("file")).title, "x");
    assert_eq!(resolve(Some("title = 1".to_string()), Meta::titled("file")).title, "file");
    assert_eq!(resolve(Some("][".to_string()), Meta::titled("file")).title, "file");
}

#[test]
fn check_tells_why_a_block_is_passed_over() {
    assert_eq!(check(&None), None);
    assert_eq!(check(&Some("title = \"x\"".to_string())), None);
    assert_eq!(check(&Some("".to_string())), None);
    assert_eq!(check(&Some("title = ".to_string())), Some(MetaError::Syntax));
    assert_eq!(check(&Some("title = 1".to_string())), Some(MetaError::Title));
    assert_eq!(check(&Some("datetime = \"x\"".to_string())), Some(MetaError::Datetime));
    assert_eq!(check(&Some("description = []".to_string())), Some(MetaError::Description));
}

#[test]
fn errors_describe_themselves() {
    assert_eq!(MetaError::Syntax.describe(), "the metadata block is no TOML document");
    assert_eq!(MetaError::Title.describe(), "`title` is no string");
    assert_eq!(
        MetaError::Datetime.describe(),
        "`datetime` is no string that spells a date and time"
    );
    assert_eq!(MetaError::Description.describe(), "`description` is no string");
}

#[test]
fn metadata_reads_the_date_in_both_forms() {
    let default = Meta::titled("file");
    let with_t = parse("datetime = \"2024-03-01T12:30:00\"", &default).unwrap();
    let as_shown = parse("datetime = \"2024-03-01 12:30:00\"", &default).unwrap();
    assert_eq!(with_t.datetime.seconds(), 1709296200);
    assert_eq!(as_shown.datetime.seconds(), 1709296200);
    let shown = with_t.datetime.to_text();
    assert_eq!(shown, "2024-03-01 12:30:00");
    let again = parse(&format!("datetime = \"{}\"", shown), &default).unwrap();
    assert_eq!(again.datetime.seconds(), 1709296200);
}
