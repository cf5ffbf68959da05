//! Completion of the libraries and commands of PGF and TikZ.
use vstd::prelude::*;
use crate::completion::database::component_views;
use crate::completion::database::loaded_by;
use crate::completion::database::unique_by_file_names;
use crate::completion::database::with_references;
use crate::completion::database::ComponentView;
use crate::completion::database::LatexComponent;
use crate::completion::database::LatexComponentDatabase;
use crate::completion::syntax::argument;
use crate::completion::syntax::argument_site;
use crate::completion::syntax::command;
use crate::completion::syntax::command_site;
use crate::completion::syntax::command_views;
use crate::completion::syntax::LatexCommand;
use crate::completion::syntax::Position;
use crate::completion::syntax::Range;
use crate::text::string_views;
use crate::workspace::document_views;
use crate::workspace::Document;

verus! {

/// The names that the providers offer.
#[derive(Debug, PartialEq, Eq)]
pub struct LanguageData {
    pub pgf_libraries: Vec<String>,
    pub tikz_libraries: Vec<String>,
    pub tikz_commands: Vec<String>,
}

/// What a completion is asked for: the cursor, the commands of the document
/// at hand in the order of its text, the documents related to it, and the
/// data to complete from.
#[derive(Debug, PartialEq, Eq)]
pub struct CompletionRequest {
    pub position: Position,
    pub commands: Vec<LatexCommand>,
    pub related_documents: Vec<Document>,
    pub component_database: LatexComponentDatabase,
    pub language_data: LanguageData,
}

/// What an item completes.
#[derive(Clone, Copy, Debug, PartialEq, Eq, Structural)]
pub enum CompletionKind {
    PgfLibrary,
    TikzLibrary,
    Command,
}

/// The replacement that an item makes.
#[derive(Debug, PartialEq, Eq)]
pub struct TextEdit {
    pub range: Range,
    pub new_text: String,
}

/// A proposal to the user.
#[derive(Debug, PartialEq, Eq)]
pub struct CompletionItem {
    pub label: String,
    pub kind: CompletionKind,
    /// The file of the component that defines a command.
    pub component: Option<String>,
    pub text_edit: TextEdit,
}

/// An item as contracts see it.
pub struct CompletionItemView {
    pub label: Seq<char>,
    pub kind: CompletionKind,
    pub component: Option<Seq<char>>,
    pub range: Range,
    pub new_text: Seq<char>,
}

impl View for CompletionItem {
    type V = CompletionItemView;

    open spec fn view(&self) -> CompletionItemView {
        CompletionItemView {
            label: self.label@,
            kind: self.kind,
            component: match self.component {
                Some(file) => Some(file@),
                None => None,
            },
            range: self.text_edit.range,
            new_text: self.text_edit.new_text@,
        }
    }
}

/// The views of a sequence of items.
pub open spec fn item_views(items: Seq<CompletionItem>) -> Seq<CompletionItemView> {
    Seq::new(items.len(), |i: int| items[i]@)
}

/// One item for each of `names`, in their order: it is labelled with the
/// name and puts the name in the place of `range`.
pub open spec fn items_for(
    kind: CompletionKind,
    names: Seq<Seq<char>>,
    component: Option<Seq<char>>,
    range: Range,
) -> Seq<CompletionItemView> {
    Seq::new(
        names.len(),
        |i: int|
            CompletionItemView { label: names[i], kind, component, range, new_text: names[i] },
    )
}

/// Whether one of `components` is TikZ.
pub open spec fn loads_tikz(components: Seq<ComponentView>) -> bool {
    exists|i: int|
        0 <= i < components.len() && (#[trigger] components[i]).file_names.contains("tikz.sty"@)
}

/// One item for each of `names`.
fn make_items(kind: CompletionKind, names: &Vec<String>, component: Option<&str>, range: Range) -> (r:
    Vec<CompletionItem>)
    ensures
        item_views(r@) == items_for(
            kind,
            string_views(names@),
            match component {
                Some(file) => Some(file@),
                None => None,
            },
            range,
        ),
{
    let mut items: Vec<CompletionItem> = Vec::new();
    let mut i: usize = 0;
    while i < names.len()
        invariant
            i <= names@.len(),
            items@.len() == i,
            forall|j: int|
                0 <= j < i ==> (#[trigger] items@[j])@ == (CompletionItemView {
                    label: names@[j]@,
                    kind,
                    component: match component {
                        Some(file) => Some(file@),
                        None => None,
                    },
                    range,
                    new_text: names@[j]@,
                }),
        decreases names@.len() - i,
    {
        let owner = match component {
            Some(file) => Some(String::from_str(file)),
            None => None,
        };
        items.push(
            CompletionItem {
                label: names[i].clone(),
                kind,
                component: owner,
                text_edit: TextEdit { range, new_text: names[i].clone() },
            },
        );
        i += 1;
    }
    assert(item_views(items@) =~= items_for(
        kind,
        string_views(names@),
        match component {
            Some(file) => Some(file@),
            None => None,
        },
        range,
    ));
    items
}

/// Whether one of `components` is TikZ.
fn any_is_tikz(components: &Vec<LatexComponent>) -> (r: bool)
    ensures
        r == loads_tikz(component_views(components@)),
{
    let tikz = String::from_str("tikz.sty");
    let mut i: usize = 0;
    while i < components.len()
        invariant
            i <= components@.len(),
            tikz@ == "tikz.sty"@,
            forall|j: int|
                0 <= j < i ==> !(#[trigger] component_views(components@)[j]).file_names.contains(
                    "tikz.sty"@,
                ),
        decreases components@.len() - i,
    {
        let names = &components[i].file_names;
        let mut k: usize = 0;
        while k < names.len()
            invariant
                k <= names@.len(),
                i < components@.len(),
                *names == components@[i as int].file_names,
                tikz@ == "tikz.sty"@,
                forall|q: int| 0 <= q < k ==> string_views(names@)[q] != "tikz.sty"@,
            decreases names@.len() - k,
        {
            if names[k] == tikz {
                assert(string_views(names@)[k as int] == "tikz.sty"@);
                assert(component_views(components@)[i as int].file_names.contains("tikz.sty"@));
                return true;
            }
            k += 1;
        }
        assert(!component_views(components@)[i as int].file_names.contains("tikz.sty"@));
        i += 1;
    }
    false
}

/// Completes the names of PGF libraries in the argument of
/// `\usepgflibrary`.
#[derive(Debug, PartialEq, Eq, Clone, Copy)]
pub struct LatexPgfLibraryCompletionProvider;

impl LatexPgfLibraryCompletionProvider {
    /// One item for each PGF library where the cursor is in the first
    /// argument of `\usepgflibrary`, and none elsewhere.
    pub fn execute(&self, request: &CompletionRequest) -> (r: Vec<CompletionItem>)
        ensures
            item_views(r@) == (match argument_site(
                command_views(request.commands@),
                "\\usepgflibrary"@,
                0,
                request.position,
            ) {
                Some(range) => items_for(
                    CompletionKind::PgfLibrary,
                    string_views(request.language_data.pgf_libraries@),
                    None,
                    range,
                ),
                None => Seq::<CompletionItemView>::empty(),
            }),
    {
        match argument(&request.commands, "\\usepgflibrary", 0, request.position) {
            Some(range) => make_items(
                CompletionKind::PgfLibrary,
                &request.language_data.pgf_libraries,
                None,
                range,
            ),
            None => {
                let r: Vec<CompletionItem> = Vec::new();
                assert(item_views(r@) =~= Seq::<CompletionItemView>::empty());
                r
            },
        }
    }
}

/// Completes the names of TikZ libraries in the argument of
/// `\usetikzlibrary`.
#[derive(Debug, PartialEq, Eq, Clone, Copy)]
pub struct LatexTikzLibraryCompletionProvider;

impl LatexTikzLibraryCompletionProvider {
    /// One item for each TikZ library where the cursor is in the first
    /// argument of `\usetikzlibrary`, and none elsewhere.
    pub fn execute(&self, request: &CompletionRequest) -> (r: Vec<CompletionItem>)
        ensures
            item_views(r@) == (match argument_site(
                command_views(request.commands@),
                "\\usetikzlibrary"@,
                0,
                request.position,
            ) {
                Some(range) => items_for(
                    CompletionKind::TikzLibrary,
                    string_views(request.language_data.tikz_libraries@),
                    None,
                    range,
                ),
                None => Seq::<CompletionItemView>::empty(),
            }),
    {
        match argument(&request.commands, "\\usetikzlibrary", 0, request.position) {
            Some(range) => make_items(
                CompletionKind::TikzLibrary,
                &request.language_data.tikz_libraries,
                None,
                range,
            ),
            None => {
                let r: Vec<CompletionItem> = Vec::new();
                assert(item_views(r@) =~= Seq::<CompletionItemView>::empty());
                r
            },
        }
    }
}

/// Completes the commands of TikZ where the documents load it.
#[derive(Debug, PartialEq, Eq, Clone, Copy)]
pub struct LatexTikzCommandCompletionProvider;

impl LatexTikzCommandCompletionProvider {
    /// One item for each TikZ command where the cursor is on the name of a
    /// command and one of the components that the related documents need is
    /// TikZ, and none elsewhere. An item replaces the name after the
    /// backslash.
    pub fn execute(&self, request: &CompletionRequest) -> (r: Vec<CompletionItem>)
        ensures
            item_views(r@) == (match command_site(
                command_views(request.commands@),
                request.position,
            ) {
                Some(range) => if loads_tikz(
                    unique_by_file_names(
                        with_references(
                            request.component_database@,
                            loaded_by(
                                request.component_database@,
                                document_views(request.related_documents@),
                            ),
                        ),
                    ),
                ) {
                    items_for(
                        CompletionKind::Command,
                        string_views(request.language_data.tikz_commands@),
                        Some("tikz.sty"@),
                        range,
                    )
                } else {
                    Seq::<CompletionItemView>::empty()
                },
                None => Seq::<CompletionItemView>::empty(),
            }),
    {
        match command(&request.commands, request.position) {
            Some(range) => {
                let related = request.component_database.related_components(
                    &request.related_documents,
                );
                if any_is_tikz(&related) {
                    make_items(
                        CompletionKind::Command,
                        &request.language_data.tikz_commands,
                        Some("tikz.sty"),
                        range,
                    )
                } else {
                    let r: Vec<CompletionItem> = Vec::new();
                    assert(item_views(r@) =~= Seq::<CompletionItemView>::empty());
                    r
                }
            },
            None => {
                let r: Vec<CompletionItem> = Vec::new();
                assert(item_views(r@) =~= Seq::<CompletionItemView>::empty());
                r
            },
        }
    }
}

} // verus!
