//! Completion of citation keys from the BibTeX entries of the workspace.
use vstd::prelude::*;
use crate::completion::cursor::fresh;
use crate::completion::cursor::views;
use crate::completion::cursor::BibtexEntryTypeCategory;
use crate::completion::cursor::Cursor;
use crate::completion::cursor::CursorContext;
use crate::completion::cursor::GroupParent;
use crate::completion::cursor::InternalCompletionItem;
use crate::completion::cursor::InternalCompletionItemData;
use crate::completion::cursor::ItemDataView;
use crate::completion::cursor::ItemView;
use crate::completion::cursor::Structure;
use crate::completion::cursor::TextRange;
use crate::completion::cursor::TokenKind;
use crate::completion::cursor::TokenParent;
use crate::ident::Uri;
use crate::text::str_is;

verus! {

/// An entry of a BibTeX document: its key, its type as written (with the
/// `@`), and its whole text.
#[derive(Debug, PartialEq, Eq)]
pub struct BibtexEntry {
    pub name: Option<String>,
    pub type_token: Option<String>,
    pub code: String,
}

/// An entry as contracts see it.
pub struct EntryView {
    pub name: Option<Seq<char>>,
    pub type_token: Option<Seq<char>>,
    pub code: Seq<char>,
}

impl View for BibtexEntry {
    type V = EntryView;

    open spec fn view(&self) -> EntryView {
        EntryView {
            name: match self.name {
                Some(name) => Some(name@),
                None => None,
            },
            type_token: match self.type_token {
                Some(token) => Some(token@),
                None => None,
            },
            code: self.code@,
        }
    }
}

/// The entries of one BibTeX document.
#[derive(Debug, PartialEq, Eq)]
pub struct BibtexDocument {
    pub uri: Uri,
    pub entries: Vec<BibtexEntry>,
}

/// A BibTeX document as contracts see it.
pub struct BibtexDocumentView {
    pub uri: Seq<char>,
    pub entries: Seq<EntryView>,
}

impl View for BibtexDocument {
    type V = BibtexDocumentView;

    open spec fn view(&self) -> BibtexDocumentView {
        BibtexDocumentView {
            uri: self.uri@,
            entries: Seq::new(self.entries@.len(), |i: int| self.entries@[i]@),
        }
    }
}

/// The views of a sequence of BibTeX documents.
pub open spec fn bibtex_views(documents: Seq<BibtexDocument>) -> Seq<BibtexDocumentView> {
    Seq::new(documents.len(), |i: int| documents[i]@)
}

/// An entry type that the language data knows.
#[derive(Debug, PartialEq, Eq)]
pub struct BibtexEntryType {
    pub name: String,
    pub category: BibtexEntryTypeCategory,
}

/// An entry type as contracts see it.
pub struct EntryTypeView {
    pub name: Seq<char>,
    pub category: BibtexEntryTypeCategory,
}

impl View for BibtexEntryType {
    type V = EntryTypeView;

    open spec fn view(&self) -> EntryTypeView {
        EntryTypeView { name: self.name@, category: self.category }
    }
}

/// The views of a sequence of entry types.
pub open spec fn type_views(types: Seq<BibtexEntryType>) -> Seq<EntryTypeView> {
    Seq::new(types.len(), |i: int| types[i]@)
}

/// `text` with `to` in the place of every `from`.
pub open spec fn char_replaced(text: Seq<char>, from: char, to: Seq<char>) -> Seq<char>
    decreases text.len(),
{
    if text.len() == 0 {
        Seq::empty()
    } else {
        char_replaced(text.drop_last(), from, to) + (if text.last() == from {
            to
        } else {
            seq![text.last()]
        })
    }
}

/// What `regex::Regex::replace_all` returns for the regular expression
/// `pattern`, the haystack `text` and the replacement `replacement`; nothing
/// where `pattern` is no regular expression.
pub uninterp spec fn regex_replaced(
    pattern: Seq<char>,
    text: Seq<char>,
    replacement: Seq<char>,
) -> Option<Seq<char>>;

/// What `str::trim` returns for `text`.
pub uninterp spec fn trimmed(text: Seq<char>) -> Seq<char>;

/// Calls `str::replace` with a character as the pattern. The contract says
/// what std documents: every occurrence of the character is replaced and
/// the rest of the text stays.
#[verifier::external_body]
fn replace_char(text: &str, from: char, to: &str) -> (r: String)
    ensures
        r@ == char_replaced(text@, from, to@),
{
    text.replace(from, to)
}

/// Compiles `pattern` with `regex::Regex::new` and calls
/// `Regex::replace_all` on `text`. The contract gives the result a name: it
/// depends on the three arguments alone.
#[verifier::external_body]
fn regex_replace_all(pattern: &str, text: &str, replacement: &str) -> (r: Option<String>)
    ensures
        regex_replaced(pattern@, text@, replacement@) == (match r {
            Some(replaced) => Some(replaced@),
            None => None,
        }),
{
    match regex::Regex::new(pattern) {
        Ok(regex) => Some(regex.replace_all(text, replacement).into_owned()),
        Err(_) => None,
    }
}

/// Calls `str::trim`. The contract gives the result a name: it depends on
/// the argument alone.
#[verifier::external_body]
fn trim(text: &str) -> (r: String)
    ensures
        r@ == trimmed(text@),
{
    text.trim().to_owned()
}

/// The text of an entry with a space in the place of every brace, comma and
/// equals sign.
pub open spec fn spaced(code: Seq<char>) -> Seq<char> {
    char_replaced(
        char_replaced(char_replaced(char_replaced(code, '{', " "@), '}', " "@), ',', " "@),
        '=',
        " "@,
    )
}

/// What is left of `text` once each run of whitespace in it has become one
/// space, as `collapsed` gives it, and the ends are trimmed. Where the
/// pattern for whitespace does not compile, the runs stay.
pub open spec fn tidied(text: Seq<char>, collapsed: Option<Seq<char>>) -> Seq<char> {
    trimmed(
        match collapsed {
            Some(replaced) => replaced,
            None => text,
        },
    )
}

/// The text of an entry as it is searched: punctuation taken out, runs of
/// whitespace collapsed, ends trimmed.
pub open spec fn normalized(code: Seq<char>) -> Seq<char> {
    tidied(spaced(code), regex_replaced("\\s+"@, spaced(code), " "@))
}

/// The text by which a citation is searched: its key, a space, and the
/// normalized text of the entry.
pub open spec fn search_text(key: Seq<char>, normalized: Seq<char>) -> Seq<char> {
    key + " "@ + normalized
}

/// The text by which a citation is searched.
pub fn citation_text(key: &str, normalized: &str) -> (r: String)
    ensures
        r@ == search_text(key@, normalized@),
{
    let mut text = String::from_str(key);
    text.append(" ");
    text.append(normalized);
    text
}

/// Trims what the collapsing of whitespace gave for `text`, or `text` itself
/// where it gave nothing.
pub fn tidy(text: String, collapsed: Option<String>) -> (r: String)
    ensures
        r@ == tidied(
            text@,
            match collapsed {
                Some(replaced) => Some(replaced@),
                None => None,
            },
        ),
{
    match collapsed {
        Some(replaced) => trim(replaced.as_str()),
        None => trim(text.as_str()),
    }
}

/// The text of an entry as it is searched.
pub fn normalize_entry(code: &str) -> (r: String)
    ensures
        r@ == normalized(code@),
{
    let a = replace_char(code, '{', " ");
    let b = replace_char(a.as_str(), '}', " ");
    let c = replace_char(b.as_str(), ',', " ");
    let d = replace_char(c.as_str(), '=', " ");
    let collapsed = regex_replace_all("\\s+", d.as_str(), " ");
    tidy(d, collapsed)
}

/// The name of an entry type as written, without the `@` before it.
pub open spec fn kind_name(token: Seq<char>) -> Seq<char> {
    if token.len() >= 1 {
        token.subrange(1, token.len() as int)
    } else {
        token
    }
}

/// Whether `i` is the index of the first of `types` with the name `name`.
pub open spec fn first_type(types: Seq<EntryTypeView>, name: Seq<char>, i: int) -> bool {
    &&& 0 <= i < types.len()
    &&& types[i].name == name
    &&& forall|j: int| 0 <= j < i ==> (#[trigger] types[j]).name != name
}

/// The category of the entry type `name`: that of the first type with this
/// name, or else the category of the miscellaneous.
pub open spec fn entry_category(types: Seq<EntryTypeView>, name: Seq<char>) -> BibtexEntryTypeCategory {
    if exists|i: int| first_type(types, name, i) {
        types[choose|i: int| first_type(types, name, i)].category
    } else {
        BibtexEntryTypeCategory::Misc
    }
}

/// The category of the entry type `name`.
pub fn find_entry_category(types: &Vec<BibtexEntryType>, name: &str) -> (r: BibtexEntryTypeCategory)
    ensures
        r == entry_category(type_views(types@), name@),
{
    let ghost all = type_views(types@);
    let mut i: usize = 0;
    while i < types.len()
        invariant
            i <= types@.len(),
            all == type_views(types@),
            forall|j: int| 0 <= j < i ==> (#[trigger] all[j]).name != name@,
        decreases types@.len() - i,
    {
        if str_is(types[i].name.as_str(), name) {
            proof {
                assert(all[i as int] == types@[i as int]@);
                assert(first_type(all, name@, i as int));
                let other = choose|x: int| first_type(all, name@, x);
                assert(first_type(all, name@, other));
                if other < i {
                    assert(all[other].name != name@);
                } else if i < other {
                    assert(all[i as int].name != name@);
                }
            }
            return types[i].category;
        }
        i += 1;
    }
    BibtexEntryTypeCategory::Misc
}

/// The item of an entry: nothing for an entry without a key or without a
/// type.
pub open spec fn entry_item(
    uri: Seq<char>,
    entry: EntryView,
    range: TextRange,
    types: Seq<EntryTypeView>,
) -> Option<ItemView> {
    match (entry.name, entry.type_token) {
        (Some(key), Some(token)) => Some(
            fresh(
                range,
                ItemDataView::Citation {
                    uri,
                    key,
                    text: search_text(key, normalized(entry.code)),
                    ty: Structure::Entry(entry_category(types, kind_name(token))),
                },
            ),
        ),
        _ => None,
    }
}

/// The items of `entries`, in their order.
pub open spec fn entry_items(
    uri: Seq<char>,
    entries: Seq<EntryView>,
    range: TextRange,
    types: Seq<EntryTypeView>,
) -> Seq<ItemView>
    decreases entries.len(),
{
    if entries.len() == 0 {
        Seq::empty()
    } else {
        let init = entry_items(uri, entries.drop_last(), range, types);
        match entry_item(uri, entries.last(), range, types) {
            Some(item) => init.push(item),
            None => init,
        }
    }
}

/// The items of the entries of `documents`, in the order of the documents.
pub open spec fn citation_items(
    documents: Seq<BibtexDocumentView>,
    range: TextRange,
    types: Seq<EntryTypeView>,
) -> Seq<ItemView>
    decreases documents.len(),
{
    if documents.len() == 0 {
        Seq::empty()
    } else {
        citation_items(documents.drop_last(), range, types) + entry_items(
            documents.last().uri,
            documents.last().entries,
            range,
            types,
        )
    }
}

/// The item of an entry of the document `uri`, to complete in `range`.
pub fn make_item(uri: &Uri, entry: &BibtexEntry, range: TextRange, types: &Vec<BibtexEntryType>) -> (r:
    Option<InternalCompletionItem>)
    ensures
        match r {
            Some(item) => entry_item(uri@, entry@, range, type_views(types@)) == Some(item@),
            None => entry_item(uri@, entry@, range, type_views(types@)).is_none(),
        },
{
    let key = match &entry.name {
        Some(name) => name.clone(),
        None => {
            return None;
        },
    };
    let token = match &entry.type_token {
        Some(token) => token.as_str(),
        None => {
            return None;
        },
    };
    let n = token.unicode_len();
    let name = if n >= 1 {
        token.substring_char(1, n)
    } else {
        token
    };
    let ty = Structure::Entry(find_entry_category(types, name));
    let code = normalize_entry(entry.code.as_str());
    let text = citation_text(key.as_str(), code.as_str());
    Some(
        InternalCompletionItem::new(
            range,
            InternalCompletionItemData::Citation { uri: uri.clone(), key, text, ty },
        ),
    )
}

/// The range in which a citation is completed: for a word at the cursor,
/// the range of the key or text that it belongs to, and nothing where it
/// belongs to neither; for any other token, the empty range at the cursor.
/// Nothing where the cursor is not in LaTeX.
pub open spec fn citation_range(context: &CursorContext) -> Option<TextRange> {
    match context.cursor {
        Cursor::Latex(token) => if token.kind == TokenKind::Word {
            match token.parent {
                Some(TokenParent::Key { small_range }) => Some(small_range),
                Some(TokenParent::Text { small_range }) => Some(small_range),
                _ => None,
            }
        } else {
            Some(TextRange { start: context.offset, end: context.offset })
        },
        _ => None,
    }
}

/// Whether the cursor is in the list of keys of a citation.
pub open spec fn in_citation(context: &CursorContext) -> bool {
    match context.curly_group_word_list {
        Some(group) => group.parent == Some(GroupParent::Citation),
        None => false,
    }
}

/// Whether the cursor is in the `cite` option of the declaration of an
/// acronym.
pub open spec fn in_acronym(context: &CursorContext) -> bool {
    &&& context.cursor is Latex
    &&& match context.key_value_pair {
        Some(pair) => pair.in_acronym_declaration && match pair.key {
            Some(key) => key@ == "cite"@,
            None => false,
        },
        None => false,
    }
}

/// Whether the cursor is in the list of keys of a citation.
pub fn check_citation(context: &CursorContext) -> (r: Option<()>)
    ensures
        r.is_some() == in_citation(context),
{
    match context.curly_group_word_list {
        Some(group) => match group.parent {
            Some(GroupParent::Citation) => Some(()),
            _ => None,
        },
        None => None,
    }
}

/// Whether the cursor is in the `cite` option of the declaration of an
/// acronym.
pub fn check_acronym(context: &CursorContext) -> (r: Option<()>)
    ensures
        r.is_some() == in_acronym(context),
{
    match context.cursor {
        Cursor::Latex(_) => {},
        _ => {
            return None;
        },
    }
    match &context.key_value_pair {
        Some(pair) => match &pair.key {
            Some(key) => {
                if str_is(key.as_str(), "cite") && pair.in_acronym_declaration {
                    Some(())
                } else {
                    None
                }
            },
            None => None,
        },
        None => None,
    }
}

/// Appends the items of the entries of one document.
fn push_entries(
    document: &BibtexDocument,
    range: TextRange,
    types: &Vec<BibtexEntryType>,
    items: &mut Vec<InternalCompletionItem>,
)
    ensures
        views(final(items)@) == views(old(items)@) + entry_items(
            document@.uri,
            document@.entries,
            range,
            type_views(types@),
        ),
{
    let ghost all = document@.entries;
    let ghost kinds = type_views(types@);
    let mut k: usize = 0;
    assert(all.subrange(0, 0) =~= Seq::<EntryView>::empty());
    assert(views(items@) =~= views(old(items)@) + entry_items(
        document@.uri,
        all.subrange(0, 0),
        range,
        kinds,
    ));
    while k < document.entries.len()
        invariant
            k <= document.entries@.len(),
            all == document@.entries,
            kinds == type_views(types@),
            views(items@) == views(old(items)@) + entry_items(
                document@.uri,
                all.subrange(0, k as int),
                range,
                kinds,
            ),
        decreases document.entries@.len() - k,
    {
        proof {
            let upto = all.subrange(0, k + 1);
            assert(upto.drop_last() =~= all.subrange(0, k as int));
            assert(upto.last() == document.entries@[k as int]@);
        }
        let ghost before = items@;
        match make_item(&document.uri, &document.entries[k], range, types) {
            Some(item) => {
                items.push(item);
                assert(views(items@) =~= views(before).push(item@));
            },
            None => {},
        }
        assert(views(items@) =~= views(old(items)@) + entry_items(
            document@.uri,
            all.subrange(0, k + 1),
            range,
            kinds,
        ));
        k += 1;
    }
    assert(all.subrange(0, document.entries@.len() as int) =~= all);
}

/// Where the cursor is in the keys of a citation, or in the `cite` option
/// of the declaration of an acronym, appends one item for each entry with a
/// key and a type of each of `documents`. Elsewhere it appends nothing and
/// returns nothing.
pub fn complete_citations(
    context: &CursorContext,
    documents: &Vec<BibtexDocument>,
    types: &Vec<BibtexEntryType>,
    items: &mut Vec<InternalCompletionItem>,
) -> (r: Option<()>)
    ensures
        r.is_some() == (citation_range(context).is_some() && (in_citation(context) || in_acronym(
            context,
        ))),
        views(final(items)@) == (if r.is_some() {
            views(old(items)@) + citation_items(
                bibtex_views(documents@),
                citation_range(context).unwrap(),
                type_views(types@),
            )
        } else {
            views(old(items)@)
        }),
{
    let token = match context.cursor {
        Cursor::Latex(token) => token,
        _ => {
            return None;
        },
    };
    let word = match token.kind {
        TokenKind::Word => true,
        _ => false,
    };
    let range = if word {
        match token.parent {
            Some(TokenParent::Key { small_range }) => small_range,
            Some(TokenParent::Text { small_range }) => small_range,
            _ => {
                return None;
            },
        }
    } else {
        TextRange::empty(context.offset)
    };
    if check_citation(context).is_none() && check_acronym(context).is_none() {
        return None;
    }
    let ghost all = bibtex_views(documents@);
    let ghost kinds = type_views(types@);
    let mut i: usize = 0;
    assert(all.subrange(0, 0) =~= Seq::<BibtexDocumentView>::empty());
    assert(views(items@) =~= views(old(items)@) + citation_items(all.subrange(0, 0), range, kinds));
    while i < documents.len()
        invariant
            i <= documents@.len(),
            all == bibtex_views(documents@),
            kinds == type_views(types@),
            views(items@) == views(old(items)@) + citation_items(
                all.subrange(0, i as int),
                range,
                kinds,
            ),
        decreases documents@.len() - i,
    {
        proof {
            let upto = all.subrange(0, i + 1);
            assert(upto.drop_last() =~= all.subrange(0, i as int));
            assert(upto.last() == documents@[i as int]@);
        }
        push_entries(&documents[i], range, types, items);
        assert(views(items@) =~= views(old(items)@) + citation_items(
            all.subrange(0, i + 1),
            range,
            kinds,
        ));
        i += 1;
    }
    assert(all.subrange(0, documents@.len() as int) =~= all);
    Some(())
}

} // verus!
