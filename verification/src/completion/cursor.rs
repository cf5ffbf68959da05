//! What the completion functions read at the cursor, and the items that
//! they produce.
use vstd::prelude::*;
use crate::ident::Uri;

verus! {

/// A stretch of text between two offsets.
#[derive(Clone, Copy, Debug, PartialEq, Eq, Structural)]
pub struct TextRange {
    pub start: u32,
    pub end: u32,
}

impl TextRange {
    /// The empty range at `offset`.
    pub fn empty(offset: u32) -> (r: TextRange)
        ensures
            r == (TextRange { start: offset, end: offset }),
    {
        TextRange { start: offset, end: offset }
    }

    /// Whether the two ranges are the same stretch.
    pub fn same(self, other: TextRange) -> (r: bool)
        ensures
            r == (self == other),
    {
        self.start == other.start && self.end == other.end
    }
}

/// The kinds of token that the completion functions tell apart.
#[derive(Clone, Copy, Debug, PartialEq, Eq, Structural)]
pub enum TokenKind {
    CommandName,
    Word,
    Other,
}

/// The node above a token, with the range of its text without the
/// whitespace that trails it.
#[derive(Clone, Copy, Debug, PartialEq, Eq, Structural)]
pub enum TokenParent {
    Key { small_range: TextRange },
    Text { small_range: TextRange },
    Other,
}

/// A token of a LaTeX document.
#[derive(Clone, Copy, Debug, PartialEq, Eq, Structural)]
pub struct LatexToken {
    pub kind: TokenKind,
    pub range: TextRange,
    pub parent: Option<TokenParent>,
}

/// The token at the cursor.
#[derive(Clone, Copy, Debug, PartialEq, Eq, Structural)]
pub enum Cursor {
    Latex(LatexToken),
    Bibtex,
    Nothing,
}

/// What stands above a group in braces.
#[derive(Clone, Copy, Debug, PartialEq, Eq, Structural)]
pub enum GroupParent {
    /// The definition of a color, with the range of its model argument.
    ColorDefinition { model: Option<TextRange> },
    /// The definition of a set of colors, with the range of its argument
    /// for the models.
    ColorSetDefinition { model_list: Option<TextRange> },
    /// A citation.
    Citation,
    Other,
}

/// The group in braces around the cursor: the range to complete in, the
/// range of the group, and what stands above it.
#[derive(Clone, Copy, Debug, PartialEq, Eq, Structural)]
pub struct CurlyGroup {
    pub range: TextRange,
    pub group_range: TextRange,
    pub parent: Option<GroupParent>,
}

/// The nearest pair of a key and a value above the cursor.
#[derive(Debug, PartialEq, Eq)]
pub struct KeyValuePair {
    pub key: Option<String>,
    /// Whether the pair is an option of the declaration of an acronym.
    pub in_acronym_declaration: bool,
}

/// What was read at the cursor.
#[derive(Debug, PartialEq, Eq)]
pub struct CursorContext {
    pub cursor: Cursor,
    pub offset: u32,
    /// The group around the cursor that holds one word, if there is one.
    pub curly_group_word: Option<CurlyGroup>,
    /// The group around the cursor that holds a list of words, if there is
    /// one.
    pub curly_group_word_list: Option<CurlyGroup>,
    pub key_value_pair: Option<KeyValuePair>,
}

impl Cursor {
    /// The range of the command name at the cursor, without its backslash;
    /// nothing where the cursor is not on a command name, or stands before
    /// its backslash.
    pub open spec fn command_range_of(self, offset: u32) -> Option<TextRange> {
        match self {
            Cursor::Latex(token) => if token.kind == TokenKind::CommandName && token.range.start
                != offset && token.range.start < token.range.end {
                Some(TextRange { start: (token.range.start + 1) as u32, end: token.range.end })
            } else {
                None
            },
            _ => None,
        }
    }

    /// The range of the command name at the cursor, without its backslash.
    pub fn command_range(&self, offset: u32) -> (r: Option<TextRange>)
        ensures
            r == self.command_range_of(offset),
    {
        match self {
            Cursor::Latex(token) => {
                let named = match token.kind {
                    TokenKind::CommandName => true,
                    _ => false,
                };
                if named && token.range.start != offset && token.range.start < token.range.end {
                    Some(TextRange { start: token.range.start + 1, end: token.range.end })
                } else {
                    None
                }
            },
            _ => None,
        }
    }
}

/// The categories of BibTeX entry types.
#[derive(Clone, Copy, Debug, PartialEq, Eq, Structural)]
pub enum BibtexEntryTypeCategory {
    Misc,
    String,
    Article,
    Book,
    Collection,
    Part,
    Thesis,
}

/// What kind of thing an item stands for.
#[derive(Clone, Copy, Debug, PartialEq, Eq, Structural)]
pub enum Structure {
    Entry(BibtexEntryTypeCategory),
}

/// What an item completes, with what it needs to be shown.
#[derive(Debug, PartialEq, Eq)]
pub enum InternalCompletionItemData {
    BeginCommand,
    ColorModel { name: String },
    Citation { uri: Uri, key: String, text: String, ty: Structure },
}

/// The data of an item as contracts see it.
pub enum ItemDataView {
    BeginCommand,
    ColorModel { name: Seq<char> },
    Citation { uri: Seq<char>, key: Seq<char>, text: Seq<char>, ty: Structure },
}

impl View for InternalCompletionItemData {
    type V = ItemDataView;

    open spec fn view(&self) -> ItemDataView {
        match self {
            InternalCompletionItemData::BeginCommand => ItemDataView::BeginCommand,
            InternalCompletionItemData::ColorModel { name } => ItemDataView::ColorModel {
                name: name@,
            },
            InternalCompletionItemData::Citation { uri, key, text, ty } => ItemDataView::Citation {
                uri: uri@,
                key: key@,
                text: text@,
                ty: *ty,
            },
        }
    }
}

/// A proposal before it is ranked and shown.
#[derive(Debug, PartialEq, Eq)]
pub struct InternalCompletionItem {
    pub range: TextRange,
    pub data: InternalCompletionItemData,
    pub preselect: bool,
    pub score: Option<i64>,
}

/// An item as contracts see it.
pub struct ItemView {
    pub range: TextRange,
    pub data: ItemDataView,
    pub preselect: bool,
    pub score: Option<i64>,
}

impl View for InternalCompletionItem {
    type V = ItemView;

    open spec fn view(&self) -> ItemView {
        ItemView {
            range: self.range,
            data: self.data@,
            preselect: self.preselect,
            score: self.score,
        }
    }
}

/// The item that `new` makes of a range and data.
pub open spec fn fresh(range: TextRange, data: ItemDataView) -> ItemView {
    ItemView { range, data, preselect: false, score: None }
}

impl InternalCompletionItem {
    /// An item that is not preselected and has no score yet.
    pub fn new(range: TextRange, data: InternalCompletionItemData) -> (r: InternalCompletionItem)
        ensures
            r@ == fresh(range, data@),
    {
        InternalCompletionItem { range, data, preselect: false, score: None }
    }
}

/// The views of a sequence of items.
pub open spec fn views(items: Seq<InternalCompletionItem>) -> Seq<ItemView> {
    Seq::new(items.len(), |i: int| items[i]@)
}

} // verus!
