use texlab::completion::citation::check_acronym;
use texlab::completion::citation::check_citation;
use texlab::completion::citation::citation_text;
use texlab::completion::citation::complete_citations;
use texlab::completion::citation::find_entry_category;
use texlab::completion::citation::make_item;
use texlab::completion::citation::normalize_entry;
use texlab::completion::citation::tidy;
use texlab::completion::citation::BibtexDocument;
use texlab::completion::citation::BibtexEntry;
use texlab::completion::citation::BibtexEntryType;
use texlab::completion::cursor::BibtexEntryTypeCategory;
use texlab::completion::cursor::CurlyGroup;
use texlab::completion::cursor::Cursor;
use texlab::completion::cursor::CursorContext;
use texlab::completion::cursor::GroupParent;
use texlab::completion::cursor::InternalCompletionItem;
use texlab::completion::cursor::InternalCompletionItemData;
use texlab::completion::cursor::KeyValuePair;
use texlab::completion::cursor::LatexToken;
use texlab::completion::cursor::Structure;
use texlab::completion::cursor::TextRange;
use texlab::completion::cursor::TokenKind;
use texlab::completion::cursor::TokenParent;
use texlab::ident::Uri;

fn range(start: u32, end: u32) -> TextRange {
    TextRange { start, end }
}

fn entry(name: Option<&str>, type_token: Option<&str>, code: &str) -> BibtexEntry {
    BibtexEntry {
        name: name.map(|name| name.to_string()),
        type_token: type_token.map(|token| token.to_string()),
        code: code.to_string(),
    }
}

fn types() -> Vec<BibtexEntryType> {
    vec![
        BibtexEntryType { name: "article".to_string(), category: BibtexEntryTypeCategory::Article },
        BibtexEntryType { name: "book".to_string(), category: BibtexEntryTypeCategory::Book },
        BibtexEntryType { name: "article".to_string(), category: BibtexEntryTypeCategory::Thesis },
    ]
}

fn citation(uri: &str, key: &str, text: &str, category: BibtexEntryTypeCategory, range: TextRange) -> InternalCompletionItem {
    InternalCompletionItem {
        range,
        data: InternalCompletionItemData::Citation {
            uri: Uri::parse(uri),
            key: key.to_string(),
            text: text.to_string(),
            ty: Structure::Entry(category),
        },
        preselect: false,
        score: None,
    }
}

fn group(parent: Option<GroupParent>) -> CurlyGroup {
    CurlyGroup { range: range(6, 9), group_range: range(5, 10), parent }
}

fn word(parent: Option<TokenParent>) -> Cursor {
    Cursor::Latex(LatexToken { kind: TokenKind::Word, range: range(6, 9), parent })
}

fn context(cursor: Cursor, list: Option<CurlyGroup>, pair: Option<KeyValuePair>) -> CursorContext {
    CursorContext {
        cursor,
        offset: 7,
        curly_group_word: None,
        curly_group_word_list: list,
        key_value_pair: pair,
    }
}

fn documents() -> Vec<BibtexDocument> {
    vec![
        BibtexDocument {
            uri: Uri::parse("one.bib"),
            entries: vec![
                entry(Some("knuth"), Some("@book"), "@book{knuth, title = {The TeXbook}}"),
                entry(None, Some("@article"), "@article{}"),
            ],
        },
        BibtexDocument { uri: Uri::parse("empty.bib"), entries: Vec::new() },
        BibtexDocument {
            uri: Uri::parse("two.bib"),
            entries: vec![entry(Some("lamport"), Some("@manual"), "@manual{lamport,}")],
        },
    ]
}

#[test]
fn entry_text_loses_punctuation_and_runs_of_whitespace() {
    assert_eq!(
        normalize_entry("@article{foo,\n  author = {A. Author},\n\ttitle={On   B},\n}"),
        "@article foo author A. Author title On B"
    );
    assert_eq!(normalize_entry("  {a}  "), "a");
    assert_eq!(normalize_entry("{,=}"), "");
    assert_eq!(normalize_entry(""), "");
    assert_eq!(normalize_entry("a\u{a0}\u{2003}b"), "a b");
}

#[test]
fn tidy_trims_the_collapsed_text_or_else_the_text() {
    assert_eq!(tidy("  a   b ".to_string(), Some(" a b ".to_string())), "a b");
    assert_eq!(tidy("  a   b ".to_string(), None), "a   b");
}

#[test]
fn citation_text_is_the_key_a_space_and_the_entry() {
    assert_eq!(citation_text("foo", "@article foo"), "foo @article foo");
    assert_eq!(citation_text("", ""), " ");
}

#[test]
fn entry_category_is_that_of_the_first_type_with_the_name() {
    assert_eq!(find_entry_category(&types(), "article"), BibtexEntryTypeCategory::Article);
    assert_eq!(find_entry_category(&types(), "book"), BibtexEntryTypeCategory::Book);
    assert_eq!(find_entry_category(&types(), "Book"), BibtexEntryTypeCategory::Misc);
    assert_eq!(find_entry_category(&types(), ""), BibtexEntryTypeCategory::Misc);
    assert_eq!(find_entry_category(&Vec::new(), "article"), BibtexEntryTypeCategory::Misc);
}

#[test]
fn make_item_needs_a_key_and_a_type() {
    let uri = Uri::parse("refs.bib");
    let full = entry(Some("foo"), Some("@article"), "@article{foo, year = 1999}");
    assert_eq!(
        make_item(&uri, &full, range(1, 2), &types()),
        Some(citation(
            "refs.bib",
            "foo",
            "foo @article foo year 1999",
            BibtexEntryTypeCategory::Article,
            range(1, 2)
        ))
    );
    let unknown = entry(Some("bar"), Some("@online"), "@online{bar}");
    assert_eq!(
        make_item(&uri, &unknown, range(0, 0), &types()),
        Some(citation("refs.bib", "bar", "bar @online bar", BibtexEntryTypeCategory::Misc, range(0, 0)))
    );
    let bare = entry(Some("baz"), Some(""), "x");
    assert_eq!(
        make_item(&uri, &bare, range(0, 0), &types()),
        Some(citation("refs.bib", "baz", "baz x", BibtexEntryTypeCategory::Misc, range(0, 0)))
    );
    assert_eq!(make_item(&uri, &entry(None, Some("@article"), ""), range(0, 0), &types()), None);
    assert_eq!(make_item(&uri, &entry(Some("foo"), None, ""), range(0, 0), &types()), None);
}

#[test]
fn citations_are_completed_in_a_citation() {
    let context = context(
        word(Some(TokenParent::Key { small_range: range(6, 8) })),
        Some(group(Some(GroupParent::Citation))),
        None,
    );
    let mut items = vec![citation("x", "kept", "kept", BibtexEntryTypeCategory::Misc, range(0, 0))];
    assert_eq!(complete_citations(&context, &documents(), &types(), &mut items), Some(()));
    assert_eq!(
        items,
        vec![
            citation("x", "kept", "kept", BibtexEntryTypeCategory::Misc, range(0, 0)),
            citation(
                "one.bib",
                "knuth",
                "knuth @book knuth title The TeXbook",
                BibtexEntryTypeCategory::Book,
                range(6, 8)
            ),
            citation(
                "two.bib",
                "lamport",
                "lamport @manual lamport",
                BibtexEntryTypeCategory::Misc,
                range(6, 8)
            ),
        ]
    );
}

#[test]
fn citations_are_completed_at_the_cursor_where_no_word_is() {
    let brace = Cursor::Latex(LatexToken { kind: TokenKind::Other, range: range(5, 6), parent: None });
    let context = context(brace, Some(group(Some(GroupParent::Citation))), None);
    let mut items = Vec::new();
    assert_eq!(complete_citations(&context, &documents(), &types(), &mut items), Some(()));
    assert_eq!(items.len(), 2);
    assert_eq!(items[0].range, range(7, 7));
    assert_eq!(items[1].range, range(7, 7));
}

#[test]
fn citations_are_completed_in_the_cite_option_of_an_acronym() {
    let pair = KeyValuePair { key: Some("cite".to_string()), in_acronym_declaration: true };
    let context = context(word(Some(TokenParent::Text { small_range: range(6, 9) })), None, Some(pair));
    let mut items = Vec::new();
    assert_eq!(complete_citations(&context, &documents(), &types(), &mut items), Some(()));
    assert_eq!(items.len(), 2);
    assert_eq!(items[0].range, range(6, 9));
}

#[test]
fn citations_are_not_completed_elsewhere() {
    let citation_group = Some(group(Some(GroupParent::Citation)));
    let cases = vec![
        context(Cursor::Bibtex, citation_group, None),
        context(Cursor::Nothing, citation_group, None),
        context(word(Some(TokenParent::Other)), citation_group, None),
        context(word(None), citation_group, None),
        context(word(Some(TokenParent::Key { small_range: range(6, 8) })), None, None),
        context(
            word(Some(TokenParent::Key { small_range: range(6, 8) })),
            Some(group(Some(GroupParent::Other))),
            None,
        ),
        context(word(Some(TokenParent::Key { small_range: range(6, 8) })), Some(group(None)), None),
        context(
            word(Some(TokenParent::Key { small_range: range(6, 8) })),
            None,
            Some(KeyValuePair { key: Some("short".to_string()), in_acronym_declaration: true }),
        ),
        context(
            word(Some(TokenParent::Key { small_range: range(6, 8) })),
            None,
            Some(KeyValuePair { key: Some("cite".to_string()), in_acronym_declaration: false }),
        ),
        context(
            word(Some(TokenParent::Key { small_range: range(6, 8) })),
            None,
            Some(KeyValuePair { key: None, in_acronym_declaration: true }),
        ),
    ];
    for context in cases {
        let mut items = vec![citation("x", "kept", "kept", BibtexEntryTypeCategory::Misc, range(0, 0))];
        assert_eq!(complete_citations(&context, &documents(), &types(), &mut items), None);
        assert_eq!(items.len(), 1);
    }
}

#[test]
fn checks_read_the_group_and_the_pair() {
    let in_citation = context(Cursor::Nothing, Some(group(Some(GroupParent::Citation))), None);
    assert_eq!(check_citation(&in_citation), Some(()));
    assert_eq!(check_acronym(&in_citation), None);
    let pair = KeyValuePair { key: Some("cite".to_string()), in_acronym_declaration: true };
    let in_acronym = context(word(None), None, Some(pair));
    assert_eq!(check_citation(&in_acronym), None);
    assert_eq!(check_acronym(&in_acronym), Some(()));
    let pair = KeyValuePair { key: Some("cite".to_string()), in_acronym_declaration: true };
    assert_eq!(check_acronym(&context(Cursor::Bibtex, None, Some(pair))), None);
}
