use texlab::completion::database::LatexComponent;
use texlab::completion::database::LatexComponentDatabase;
use texlab::completion::syntax::argument;
use texlab::completion::syntax::command;
use texlab::completion::syntax::LatexCommand;
use texlab::completion::syntax::LatexGroup;
use texlab::completion::syntax::LatexWord;
use texlab::completion::syntax::Position;
use texlab::completion::syntax::Range;
use texlab::completion::tikz::CompletionKind;
use texlab::completion::tikz::CompletionRequest;
use texlab::completion::tikz::LanguageData;
use texlab::completion::tikz::LatexPgfLibraryCompletionProvider;
use texlab::completion::tikz::LatexTikzCommandCompletionProvider;
use texlab::completion::tikz::LatexTikzLibraryCompletionProvider;
use texlab::ident::Uri;
use texlab::workspace::Document;
use texlab::workspace::DocumentLanguage;
use texlab::workspace::ParsedTree;
use texlab::workspace::WorkspaceSource;

fn position(line: u32, character: u32) -> Position {
    Position { line, character }
}

fn range(line: u32, start: u32, end: u32) -> Range {
    Range { start: position(line, start), end: position(line, end) }
}

/// Reads the commands of a one-line text: a backslash, letters, and groups
/// in braces that hold words separated by commas.
fn commands_of(text: &str) -> Vec<LatexCommand> {
    let chars: Vec<char> = text.chars().collect();
    let mut commands = Vec::new();
    let mut i = 0;
    while i < chars.len() {
        if chars[i] != '\\' {
            i += 1;
            continue;
        }
        let start = i;
        i += 1;
        while i < chars.len() && chars[i].is_ascii_alphabetic() {
            i += 1;
        }
        let name: String = chars[start..i].iter().collect();
        let name_range = range(0, start as u32, i as u32);
        let mut args = Vec::new();
        while i < chars.len() && chars[i] == '{' {
            let open = i;
            i += 1;
            let mut words = Vec::new();
            let mut word_start = i;
            while i < chars.len() && chars[i] != '}' {
                if chars[i] == ',' {
                    if word_start < i {
                        words.push(LatexWord {
                            text: chars[word_start..i].iter().collect(),
                            range: range(0, word_start as u32, i as u32),
                        });
                    }
                    word_start = i + 1;
                }
                i += 1;
            }
            if word_start < i {
                words.push(LatexWord {
                    text: chars[word_start..i].iter().collect(),
                    range: range(0, word_start as u32, i as u32),
                });
            }
            let closed = i < chars.len();
            if closed {
                i += 1;
            }
            args.push(LatexGroup { range: range(0, open as u32, i as u32), closed, words });
        }
        commands.push(LatexCommand { name, name_range, args });
    }
    commands
}

fn document(name: &str, text: &str, components: Vec<String>) -> Document {
    Document {
        uri: Uri::parse(name),
        text: text.to_string(),
        language: DocumentLanguage::Latex,
        source: WorkspaceSource::Client,
        tree: ParsedTree::new(Vec::new(), components),
    }
}

fn language_data() -> LanguageData {
    LanguageData {
        pgf_libraries: vec!["arrows".to_string(), "plotmarks".to_string()],
        tikz_libraries: vec!["calc".to_string(), "positioning".to_string(), "shapes".to_string()],
        tikz_commands: vec!["draw".to_string(), "node".to_string()],
    }
}

fn request(name: &str, text: &str, line: u32, character: u32) -> CompletionRequest {
    CompletionRequest {
        position: position(line, character),
        commands: commands_of(text),
        related_documents: vec![document(name, text, Vec::new())],
        component_database: LatexComponentDatabase::new(),
        language_data: language_data(),
    }
}

#[test]
fn test_pgf_library() {
    let items =
        LatexPgfLibraryCompletionProvider.execute(&request("foo.tex", "\\usepgflibrary{}", 0, 15));
    assert!(!items.is_empty());
}

#[test]
fn test_tikz_library() {
    let items =
        LatexTikzLibraryCompletionProvider.execute(&request("foo.tex", "\\usetikzlibrary{}", 0, 16));
    assert!(!items.is_empty());
}

#[test]
fn tikz_library_items_are_the_libraries_in_order() {
    let items =
        LatexTikzLibraryCompletionProvider.execute(&request("a", "\\usetikzlibrary{}", 0, 16));
    let labels: Vec<&str> = items.iter().map(|item| item.label.as_str()).collect();
    assert_eq!(labels, vec!["calc", "positioning", "shapes"]);
    for item in &items {
        assert_eq!(item.kind, CompletionKind::TikzLibrary);
        assert_eq!(item.component, None);
        assert_eq!(item.text_edit.range, range(0, 16, 16));
        assert_eq!(item.text_edit.new_text, item.label);
    }
}

#[test]
fn pgf_library_items_replace_the_word_at_the_cursor() {
    let items =
        LatexPgfLibraryCompletionProvider.execute(&request("a", "\\usepgflibrary{arr}", 0, 17));
    assert_eq!(items.len(), 2);
    assert_eq!(items[0].label, "arrows");
    assert_eq!(items[0].kind, CompletionKind::PgfLibrary);
    assert_eq!(items[0].text_edit.range, range(0, 15, 18));
    assert_eq!(items[1].label, "plotmarks");
}

#[test]
fn library_providers_need_their_own_command() {
    let pgf = request("a", "\\usepgflibrary{}", 0, 15);
    let tikz = request("a", "\\usetikzlibrary{}", 0, 16);
    assert!(LatexTikzLibraryCompletionProvider.execute(&pgf).is_empty());
    assert!(LatexPgfLibraryCompletionProvider.execute(&tikz).is_empty());
}

#[test]
fn library_providers_need_the_cursor_between_the_braces() {
    for character in [0, 7, 14, 16, 17] {
        let items = LatexPgfLibraryCompletionProvider
            .execute(&request("a", "\\usepgflibrary{}", 0, character));
        assert!(items.is_empty());
    }
    let other_line = LatexPgfLibraryCompletionProvider.execute(&request("a", "\\usepgflibrary{}", 1, 15));
    assert!(other_line.is_empty());
}

#[test]
fn argument_of_an_open_group_reaches_to_its_end() {
    let commands = commands_of("\\usepgflibrary{ab");
    assert_eq!(commands[0].args[0].closed, false);
    assert_eq!(argument(&commands, "\\usepgflibrary", 0, position(0, 17)), Some(range(0, 15, 17)));
    assert_eq!(argument(&commands, "\\usepgflibrary", 0, position(0, 14)), None);
    assert_eq!(argument(&commands, "\\usepgflibrary", 1, position(0, 16)), None);
}

#[test]
fn argument_takes_the_first_command_that_fits() {
    let mut commands = commands_of("\\usepgflibrary{a,b}");
    let mut second = commands_of("\\usepgflibrary{a,b}");
    second[0].args[0].words.clear();
    commands.append(&mut second);
    assert_eq!(argument(&commands, "\\usepgflibrary", 0, position(0, 17)), Some(range(0, 17, 18)));
    commands.reverse();
    assert_eq!(argument(&commands, "\\usepgflibrary", 0, position(0, 17)), Some(range(0, 17, 17)));
}

#[test]
fn command_gives_the_name_without_the_backslash() {
    let commands = commands_of("\\dra \\node");
    assert_eq!(command(&commands, position(0, 2)), Some(range(0, 1, 4)));
    assert_eq!(command(&commands, position(0, 4)), Some(range(0, 1, 4)));
    assert_eq!(command(&commands, position(0, 0)), None);
    assert_eq!(command(&commands, position(0, 8)), Some(range(0, 6, 10)));
    assert_eq!(command(&commands, position(0, 5)), None);
}

fn tikz_database() -> LatexComponentDatabase {
    LatexComponentDatabase {
        components: vec![
            LatexComponent {
                file_names: vec!["tikz.sty".to_string()],
                references: vec!["pgf.sty".to_string()],
                commands: vec!["draw".to_string()],
                environments: vec!["tikzpicture".to_string()],
            },
            LatexComponent {
                file_names: vec!["pgf.sty".to_string()],
                references: Vec::new(),
                commands: Vec::new(),
                environments: Vec::new(),
            },
            LatexComponent {
                file_names: vec!["wrapper.sty".to_string()],
                references: vec!["tikz.sty".to_string()],
                commands: Vec::new(),
                environments: Vec::new(),
            },
        ],
    }
}

fn command_request(components: Vec<String>, character: u32) -> CompletionRequest {
    CompletionRequest {
        position: position(0, character),
        commands: commands_of("\\dra"),
        related_documents: vec![document("main.tex", "\\dra", components)],
        component_database: tikz_database(),
        language_data: language_data(),
    }
}

#[test]
fn tikz_commands_are_offered_where_tikz_is_loaded() {
    let items = LatexTikzCommandCompletionProvider
        .execute(&command_request(vec!["tikz.sty".to_string()], 3));
    let labels: Vec<&str> = items.iter().map(|item| item.label.as_str()).collect();
    assert_eq!(labels, vec!["draw", "node"]);
    for item in &items {
        assert_eq!(item.kind, CompletionKind::Command);
        assert_eq!(item.component, Some("tikz.sty".to_string()));
        assert_eq!(item.text_edit.range, range(0, 1, 4));
    }
}

#[test]
fn tikz_commands_are_offered_where_tikz_is_referred_to() {
    let items = LatexTikzCommandCompletionProvider
        .execute(&command_request(vec!["wrapper.sty".to_string()], 3));
    assert_eq!(items.len(), 2);
}

#[test]
fn tikz_commands_are_not_offered_without_tikz() {
    let without = LatexTikzCommandCompletionProvider
        .execute(&command_request(vec!["pgf.sty".to_string()], 3));
    assert!(without.is_empty());
    let before_backslash = LatexTikzCommandCompletionProvider
        .execute(&command_request(vec!["tikz.sty".to_string()], 0));
    assert!(before_backslash.is_empty());
}

#[test]
fn tikz_commands_are_not_offered_for_bibtex_documents() {
    let mut request = command_request(vec!["tikz.sty".to_string()], 3);
    request.related_documents[0].language = DocumentLanguage::Bibtex;
    assert!(LatexTikzCommandCompletionProvider.execute(&request).is_empty());
}
