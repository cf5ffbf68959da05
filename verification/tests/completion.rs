use texlab::completion::begin_command::complete_begin_command;
use texlab::completion::color_model::check_color_definition;
use texlab::completion::color_model::check_color_definition_set;
use texlab::completion::color_model::complete_color_models;
use texlab::completion::cursor::CurlyGroup;
use texlab::completion::cursor::Cursor;
use texlab::completion::cursor::CursorContext;
use texlab::completion::cursor::GroupParent;
use texlab::completion::cursor::InternalCompletionItem;
use texlab::completion::cursor::InternalCompletionItemData;
use texlab::completion::cursor::LatexToken;
use texlab::completion::cursor::TextRange;
use texlab::completion::cursor::TokenKind;

fn range(start: u32, end: u32) -> TextRange {
    TextRange { start, end }
}

fn context(cursor: Cursor, offset: u32) -> CursorContext {
    CursorContext {
        cursor,
        offset,
        curly_group_word: None,
        curly_group_word_list: None,
        key_value_pair: None,
    }
}

fn token(kind: TokenKind, start: u32, end: u32) -> Cursor {
    Cursor::Latex(LatexToken { kind, range: range(start, end), parent: None })
}

fn item(range: TextRange, data: InternalCompletionItemData) -> InternalCompletionItem {
    InternalCompletionItem { range, data, preselect: false, score: None }
}

fn group(range: TextRange, group_range: TextRange, parent: Option<GroupParent>) -> Option<CurlyGroup> {
    Some(CurlyGroup { range, group_range, parent })
}

#[test]
fn new_item_is_not_preselected_and_has_no_score() {
    let made = InternalCompletionItem::new(range(1, 2), InternalCompletionItemData::BeginCommand);
    assert_eq!(made, item(range(1, 2), InternalCompletionItemData::BeginCommand));
    assert_eq!(TextRange::empty(5), range(5, 5));
}

#[test]
fn begin_command_is_offered_on_a_command_name() {
    let mut items = Vec::new();
    let on_name = context(token(TokenKind::CommandName, 10, 14), 12);
    assert_eq!(complete_begin_command(&on_name, &mut items), Some(()));
    assert_eq!(items, vec![item(range(11, 14), InternalCompletionItemData::BeginCommand)]);
    let at_end = context(token(TokenKind::CommandName, 10, 14), 14);
    assert_eq!(complete_begin_command(&at_end, &mut items), Some(()));
    assert_eq!(items.len(), 2);
    assert_eq!(on_name.cursor.command_range(12), Some(range(11, 14)));
}

#[test]
fn begin_command_is_not_offered_elsewhere() {
    let cases = vec![
        context(token(TokenKind::CommandName, 10, 14), 10),
        context(token(TokenKind::Word, 10, 14), 12),
        context(token(TokenKind::Other, 10, 14), 12),
        context(token(TokenKind::CommandName, 10, 10), 12),
        context(Cursor::Bibtex, 12),
        context(Cursor::Nothing, 12),
    ];
    for context in cases {
        let mut items = vec![item(range(0, 0), InternalCompletionItemData::BeginCommand)];
        assert_eq!(complete_begin_command(&context, &mut items), None);
        assert_eq!(items.len(), 1);
    }
}

#[test]
fn begin_command_range_does_not_overflow() {
    let last = context(token(TokenKind::CommandName, u32::MAX - 1, u32::MAX), u32::MAX);
    let mut items = Vec::new();
    assert_eq!(complete_begin_command(&last, &mut items), Some(()));
    assert_eq!(items[0].range, range(u32::MAX, u32::MAX));
}

#[test]
fn color_models_are_offered_in_the_model_of_a_color() {
    let mut context = context(Cursor::Nothing, 0);
    context.curly_group_word = group(
        range(21, 23),
        range(20, 24),
        Some(GroupParent::ColorDefinition { model: Some(range(20, 24)) }),
    );
    assert_eq!(check_color_definition(&context), Some(range(21, 23)));
    assert_eq!(check_color_definition_set(&context), None);
    let mut items = vec![item(range(0, 0), InternalCompletionItemData::BeginCommand)];
    assert_eq!(complete_color_models(&context, &mut items), Some(()));
    let names: Vec<String> = items[1..]
        .iter()
        .map(|item| match &item.data {
            InternalCompletionItemData::ColorModel { name } => name.clone(),
            other => panic!("unexpected item {:?}", other),
        })
        .collect();
    assert_eq!(names, vec!["gray", "rgb", "RGB", "HTML", "cmyk"]);
    assert_eq!(items.len(), 6);
    for item in &items[1..] {
        assert_eq!(item.range, range(21, 23));
        assert!(!item.preselect);
        assert_eq!(item.score, None);
    }
}

#[test]
fn color_models_are_offered_in_the_models_of_a_color_set() {
    let mut context = context(Cursor::Nothing, 0);
    context.curly_group_word_list = group(
        range(5, 5),
        range(4, 6),
        Some(GroupParent::ColorSetDefinition { model_list: Some(range(4, 6)) }),
    );
    assert_eq!(check_color_definition(&context), None);
    assert_eq!(check_color_definition_set(&context), Some(range(5, 5)));
    let mut items = Vec::new();
    assert_eq!(complete_color_models(&context, &mut items), Some(()));
    assert_eq!(items.len(), 5);
    assert_eq!(items[4], item(range(5, 5), InternalCompletionItemData::ColorModel { name: "cmyk".to_string() }));
}

#[test]
fn color_definition_goes_before_the_color_set() {
    let mut context = context(Cursor::Nothing, 0);
    context.curly_group_word = group(
        range(1, 2),
        range(0, 3),
        Some(GroupParent::ColorDefinition { model: Some(range(0, 3)) }),
    );
    context.curly_group_word_list = group(
        range(7, 8),
        range(6, 9),
        Some(GroupParent::ColorSetDefinition { model_list: Some(range(6, 9)) }),
    );
    let mut items = Vec::new();
    assert_eq!(complete_color_models(&context, &mut items), Some(()));
    assert_eq!(items[0].range, range(1, 2));
}

#[test]
fn color_models_are_not_offered_elsewhere() {
    let parents = vec![
        None,
        Some(GroupParent::Other),
        Some(GroupParent::Citation),
        Some(GroupParent::ColorDefinition { model: None }),
        Some(GroupParent::ColorDefinition { model: Some(range(30, 34)) }),
        Some(GroupParent::ColorSetDefinition { model_list: Some(range(20, 24)) }),
    ];
    for parent in parents {
        let mut context = context(Cursor::Nothing, 0);
        context.curly_group_word = group(range(21, 23), range(20, 24), parent);
        let mut items = Vec::new();
        assert_eq!(complete_color_models(&context, &mut items), None);
        assert!(items.is_empty());
    }
    let mut items = Vec::new();
    assert_eq!(complete_color_models(&context(Cursor::Nothing, 0), &mut items), None);
    let mut context = context(Cursor::Nothing, 0);
    context.curly_group_word_list = group(
        range(5, 5),
        range(4, 6),
        Some(GroupParent::ColorSetDefinition { model_list: Some(range(4, 7)) }),
    );
    assert_eq!(complete_color_models(&context, &mut items), None);
    assert!(items.is_empty());
}
