//! The store of documents, keyed by URI.
use vstd::prelude::*;
use crate::ident::Uri;
use crate::table::Table;
use crate::text::clone_strings;
use crate::text::clone_uris;
use crate::text::str_is;
use crate::text::string_views;
use crate::text::uri_views;

verus! {

/// The language of a document.
#[derive(Clone, Copy, Debug, PartialEq, Eq, Structural)]
pub enum DocumentLanguage {
    Latex,
    Bibtex,
}

impl DocumentLanguage {
    /// The language that the editor's language id names.
    pub open spec fn of_id(id: Seq<char>) -> Option<DocumentLanguage> {
        if id == "latex"@ || id == "tex"@ {
            Some(DocumentLanguage::Latex)
        } else if id == "bibtex"@ {
            Some(DocumentLanguage::Bibtex)
        } else {
            None
        }
    }

    /// The language that the editor's language id names, if it names one.
    pub fn by_language_id(language_id: &str) -> (r: Option<DocumentLanguage>)
        ensures
            r == Self::of_id(language_id@),
    {
        if str_is(language_id, "latex") || str_is(language_id, "tex") {
            Some(DocumentLanguage::Latex)
        } else if str_is(language_id, "bibtex") {
            Some(DocumentLanguage::Bibtex)
        } else {
            None
        }
    }
}

/// Who brought a document into the workspace.
#[derive(Clone, Copy, Debug, PartialEq, Eq, Structural)]
pub enum WorkspaceSource {
    /// The editor opened it.
    Client,
    /// The server found it while following an include.
    Server,
}

/// What the workspace reads of a document's syntax tree.
#[derive(Debug, PartialEq, Eq)]
pub struct ParsedTree {
    /// The documents that this one includes, in the order of the text.
    pub includes: Vec<Uri>,
    /// The file names of the packages and classes that this one loads.
    pub components: Vec<String>,
}

impl ParsedTree {
    /// A tree with the given include targets and component names.
    pub fn new(includes: Vec<Uri>, components: Vec<String>) -> (r: ParsedTree)
        ensures
            r.includes == includes,
            r.components == components,
    {
        ParsedTree { includes, components }
    }

    /// The tree of a document that includes and loads nothing.
    pub fn empty() -> (r: ParsedTree)
        ensures
            r.includes@.len() == 0,
            r.components@.len() == 0,
    {
        ParsedTree { includes: Vec::new(), components: Vec::new() }
    }
}

impl Clone for ParsedTree {
    fn clone(&self) -> (r: Self)
        ensures
            uri_views(r.includes@) == uri_views(self.includes@),
            string_views(r.components@) == string_views(self.components@),
    {
        ParsedTree {
            includes: clone_uris(&self.includes),
            components: clone_strings(&self.components),
        }
    }
}

/// A document as contracts see it.
pub struct DocumentView {
    pub uri: Seq<char>,
    pub text: Seq<char>,
    pub language: DocumentLanguage,
    pub source: WorkspaceSource,
    pub includes: Seq<Seq<char>>,
    pub components: Seq<Seq<char>>,
}

/// One revision of a document. A value of this type is a snapshot: nothing
/// that happens to the workspace later changes it.
#[derive(Debug, PartialEq, Eq)]
pub struct Document {
    pub uri: Uri,
    pub text: String,
    pub language: DocumentLanguage,
    pub source: WorkspaceSource,
    pub tree: ParsedTree,
}

impl View for Document {
    type V = DocumentView;

    open spec fn view(&self) -> DocumentView {
        DocumentView {
            uri: self.uri@,
            text: self.text@,
            language: self.language,
            source: self.source,
            includes: uri_views(self.tree.includes@),
            components: string_views(self.tree.components@),
        }
    }
}

impl Clone for Document {
    fn clone(&self) -> (r: Self)
        ensures
            r@ == self@,
    {
        Document {
            uri: self.uri.clone(),
            text: self.text.clone(),
            language: self.language,
            source: self.source,
            tree: self.tree.clone(),
        }
    }
}

/// The handle of a function that wants to hear of every opened document.
#[derive(Clone, Copy, Debug, PartialEq, Eq, Structural)]
pub struct OpenHandler {
    pub number: u64,
}

/// The views of a sequence of documents.
pub open spec fn document_views(docs: Seq<Document>) -> Seq<DocumentView> {
    Seq::new(docs.len(), |i: int| docs[i]@)
}

/// The documents related to one document: itself first, then what it
/// includes, breadth first.
#[derive(Debug, PartialEq, Eq)]
pub struct WorkspaceSubset {
    pub documents: Vec<Document>,
}

impl View for WorkspaceSubset {
    type V = Seq<DocumentView>;

    open spec fn view(&self) -> Seq<DocumentView> {
        document_views(self.documents@)
    }
}

/// No two documents of `list` have one URI.
pub open spec fn distinct_uris(list: Seq<DocumentView>) -> bool {
    forall|a: int, b: int|
        0 <= a < b < list.len() ==> (#[trigger] list[a]).uri != (#[trigger] list[b]).uri
}

/// The document at `j` is included by one that stands before it.
pub open spec fn has_includer(list: Seq<DocumentView>, j: int) -> bool {
    exists|i: int| 0 <= i < j && (#[trigger] list[i]).includes.contains(list[j].uri)
}

/// Each document of `list` but the first is included by one that stands
/// before it.
pub open spec fn reached_in_order(list: Seq<DocumentView>) -> bool {
    forall|j: int| 1 <= j < list.len() ==> #[trigger] has_includer(list, j)
}

/// The documents of the server, the latest revision of each, in the order in
/// which their URIs were first opened.
pub struct Workspace {
    docs: Table<Uri, Document>,
    handlers: Vec<OpenHandler>,
}

impl Workspace {
    /// The documents, in the order in which their URIs were first opened.
    pub closed spec fn view(&self) -> Seq<DocumentView> {
        document_views(self.docs.vals())
    }

    /// The open handlers, in the order of registration.
    pub closed spec fn handlers(&self) -> Seq<OpenHandler> {
        self.handlers@
    }

    /// Validity: each document stands under its own URI, and no URI twice.
    pub closed spec fn wf(&self) -> bool {
        &&& self.docs.wf()
        &&& self.docs.keys().len() == self.docs.vals().len()
        &&& forall|i: int|
            0 <= i < self.docs.vals().len() ==> (#[trigger] self.docs.vals()[i]).uri@
                == self.docs.keys()[i]
    }

    /// The URIs of the documents, in order.
    pub open spec fn uris(&self) -> Seq<Seq<char>> {
        Seq::new(self@.len(), |i: int| self@[i].uri)
    }

    /// Whether a document with this URI is in the workspace.
    pub open spec fn has(&self, uri: Seq<char>) -> bool {
        self.uris().contains(uri)
    }

    /// The latest revision of the document with this URI; meaningful where
    /// `has(uri)`.
    pub open spec fn doc(&self, uri: Seq<char>) -> DocumentView {
        self@[self.uris().index_of(uri)]
    }

    /// In a valid workspace no URI occurs twice.
    pub proof fn lemma_distinct(&self)
        requires
            self.wf(),
        ensures
            crate::table::distinct(self.uris()),
    {
        self.lemma_keys();
        self.docs.lemma_valid();
    }

    proof fn lemma_keys(&self)
        requires
            self.wf(),
        ensures
            self.uris() == self.docs.keys(),
            self@.len() == self.docs.vals().len(),
    {
        self.docs.lemma_valid();
        assert(self.uris() =~= self.docs.keys());
    }

    /// In a valid workspace the document at index `i` is the one that its
    /// URI names.
    pub proof fn lemma_doc_at(&self, i: int)
        requires
            self.wf(),
            0 <= i < self@.len(),
        ensures
            self.has(self@[i].uri),
            self.uris().index_of(self@[i].uri) == i,
            self.doc(self@[i].uri) == self@[i],
    {
        self.lemma_keys();
        self.docs.lemma_index(i);
        assert(self.uris()[i] == self@[i].uri);
    }

    /// A workspace without documents or handlers.
    pub fn new() -> (w: Workspace)
        ensures
            w.wf(),
            w@ == Seq::<DocumentView>::empty(),
            w.handlers() == Seq::<OpenHandler>::empty(),
    {
        let w = Workspace { docs: Table::new(), handlers: Vec::new() };
        assert(w@ =~= Seq::<DocumentView>::empty());
        w
    }

    /// Registers a handler. It is named by every later `open`, after the
    /// handlers that were registered before it.
    pub fn register_open_handler(&mut self, handler: OpenHandler)
        requires
            old(self).wf(),
        ensures
            final(self).wf(),
            final(self)@ == old(self)@,
            final(self).handlers() == old(self).handlers().push(handler),
    {
        self.handlers.push(handler);
    }

    /// Inserts the document, or replaces the revision that stands under the
    /// same URI, which keeps its place. Returns a snapshot of the new revision
    /// and the handlers to notify, in the order of their registration.
    pub fn open(
        &mut self,
        uri: Uri,
        text: String,
        language: DocumentLanguage,
        source: WorkspaceSource,
        tree: ParsedTree,
    ) -> (r: (Document, Vec<OpenHandler>))
        requires
            old(self).wf(),
        ensures
            final(self).wf(),
            r.0@ == (DocumentView {
                uri: uri@,
                text: text@,
                language,
                source,
                includes: uri_views(tree.includes@),
                components: string_views(tree.components@),
            }),
            r.1@ == old(self).handlers(),
            final(self).handlers() == old(self).handlers(),
            old(self).has(uri@) ==> final(self)@ == old(self)@.update(
                old(self).uris().index_of(uri@),
                r.0@,
            ),
            !old(self).has(uri@) ==> final(self)@ == old(self)@.push(r.0@),
            final(self).has(uri@),
            final(self).doc(uri@) == r.0@,
            forall|o: Seq<char>| o != uri@ ==> final(self).has(o) == old(self).has(o),
            forall|o: Seq<char>|
                o != uri@ && old(self).has(o) ==> final(self).doc(o) == old(self).doc(o),
    {
        proof {
            self.lemma_keys();
        }
        let document = Document { uri: uri.clone(), text, language, source, tree };
        let snapshot = document.clone();
        let ghost before = *self;
        let _previous = self.docs.insert(uri, document);
        let notify = self.handlers.clone();
        proof {
            let dv = snapshot@;
            assert(self.wf());
            self.lemma_keys();
            if before.has(uri@) {
                let i = before.uris().index_of(uri@);
                assert(before.uris()[i] == uri@);
                assert(self@ =~= before@.update(i, dv));
                assert(self.uris() =~= before.uris());
                self.lemma_doc_at(i);
            } else {
                assert(self@ =~= before@.push(dv));
                assert(self.uris() =~= before.uris().push(uri@));
                self.lemma_doc_at(before@.len() as int);
            }
            assert forall|o: Seq<char>| o != uri@ implies self.has(o) == before.has(o) by {
                if before.has(o) {
                    let j = before.uris().index_of(o);
                    assert(before.uris()[j] == o);
                    assert(self.uris()[j] == o);
                }
                if self.has(o) {
                    let j = self.uris().index_of(o);
                    assert(self.uris()[j] == o);
                    assert(before.uris()[j] == o);
                }
            }
            assert forall|o: Seq<char>| o != uri@ && before.has(o) implies self.doc(o)
                == before.doc(o) by {
                let j = before.uris().index_of(o);
                assert(before.uris()[j] == o);
                assert(self.uris()[j] == o);
                before.lemma_doc_at(j);
                self.lemma_doc_at(j);
            }
        }
        (snapshot, notify)
    }

    /// A snapshot of the latest revision of the document `uri`.
    pub fn get(&self, uri: &Uri) -> (r: Option<Document>)
        requires
            self.wf(),
        ensures
            r.is_some() == self.has(uri@),
            r.is_some() ==> r.unwrap()@ == self.doc(uri@),
    {
        proof {
            self.lemma_keys();
        }
        match self.docs.find(uri) {
            Some(i) => {
                proof {
                    self.lemma_doc_at(i as int);
                }
                Some(self.docs.value_at(i).clone())
            },
            None => None,
        }
    }

    /// Removes the document `uri` if the client opened it. A document that
    /// the server found stays, and an unknown URI changes nothing.
    pub fn close(&mut self, uri: &Uri)
        requires
            old(self).wf(),
        ensures
            final(self).wf(),
            final(self).handlers() == old(self).handlers(),
            old(self).has(uri@) && old(self).doc(uri@).source == WorkspaceSource::Client
                ==> final(self)@ == old(self)@.remove(old(self).uris().index_of(uri@)),
            !(old(self).has(uri@) && old(self).doc(uri@).source == WorkspaceSource::Client)
                ==> final(self)@ == old(self)@,
    {
        proof {
            self.lemma_keys();
        }
        let ghost before = *self;
        match self.docs.find(uri) {
            Some(i) => {
                proof {
                    self.lemma_doc_at(i as int);
                }
                let client = match self.docs.value_at(i).source {
                    WorkspaceSource::Client => true,
                    WorkspaceSource::Server => false,
                };
                if client {
                    let _gone = self.docs.remove(uri);
                    assert(self@ =~= before@.remove(i as int));
                }
            },
            None => {},
        }
    }

    /// Snapshots of all documents, in the order of the workspace.
    pub fn documents(&self) -> (r: Vec<Document>)
        requires
            self.wf(),
        ensures
            document_views(r@) == self@,
    {
        let mut out: Vec<Document> = Vec::new();
        let mut i: usize = 0;
        let n = self.docs.len();
        while i < n
            invariant
                self.wf(),
                n == self.docs.vals().len(),
                i <= n,
                out@.len() == i,
                forall|j: int| 0 <= j < i ==> out@[j]@ == self.docs.vals()[j]@,
            decreases n - i,
        {
            out.push(self.docs.value_at(i).clone());
            i += 1;
        }
        assert(document_views(out@) =~= self@);
        out
    }

    /// Each element of `list` is the latest revision of a document of the
    /// workspace.
    pub open spec fn holds_revisions(&self, list: Seq<DocumentView>) -> bool {
        forall|j: int|
            0 <= j < list.len() ==> self.has((#[trigger] list[j]).uri) && self.doc(list[j].uri)
                == list[j]
    }

    /// Every document of the workspace that a document of `list` includes is
    /// in `list`.
    pub open spec fn closed_under_includes(&self, list: Seq<DocumentView>) -> bool {
        forall|j: int, k: int|
            0 <= j < list.len() && 0 <= k < list[j].includes.len() && self.has(
                #[trigger] list[j].includes[k],
            ) ==> exists|m: int| 0 <= m < list.len() && (#[trigger] list[m]).uri == list[j].includes[k]
    }

    /// Whether `list` holds the documents related to `uri`: it starts with the
    /// document `uri`, holds latest revisions of the workspace and none twice,
    /// holds every document of the workspace that one of its own includes,
    /// and stands in the order of discovery, breadth first.
    #[verifier::opaque]
    pub open spec fn is_closure(&self, uri: Seq<char>, list: Seq<DocumentView>) -> bool {
        &&& list.len() > 0 && list[0].uri == uri
        &&& self.holds_revisions(list)
        &&& distinct_uris(list)
        &&& self.closed_under_includes(list)
        &&& self.breadth_first(list)
    }

    /// Where include number `b` of the document at `a` names a document of
    /// the workspace, that document is among the first `j` of `list`.
    pub open spec fn include_leads_back(
        &self,
        list: Seq<DocumentView>,
        a: int,
        b: int,
        j: int,
    ) -> bool {
        0 <= a < list.len() && 0 <= b < list[a].includes.len() && self.has(list[a].includes[b])
            ==> exists|m: int|
            0 <= m < j && m < list.len() && (#[trigger] list[m]).uri == list[a].includes[b]
    }

    /// Every include before `bound`, in the order of the documents and of
    /// their includes, names one of the first `j` documents of `list` or
    /// none of the workspace.
    pub open spec fn includes_settled(
        &self,
        list: Seq<DocumentView>,
        bound: (int, int),
        j: int,
    ) -> bool {
        forall|a: int, b: int|
            crate::closure::lex_lt((a, b), bound) ==> #[trigger] self.include_leads_back(
                list,
                a,
                b,
                j,
            )
    }

    /// The document at `j` was found through the include `parents[j]`: an
    /// include of an earlier document that names it, before which every
    /// include names a document before `j` or none of the workspace.
    pub open spec fn included_by(
        &self,
        list: Seq<DocumentView>,
        parents: Seq<(int, int)>,
        j: int,
    ) -> bool {
        &&& 0 <= parents[j].0 < j
        &&& 0 <= parents[j].1 < list[parents[j].0].includes.len()
        &&& list[parents[j].0].includes[parents[j].1] == list[j].uri
        &&& self.includes_settled(list, parents[j], j)
    }

    /// `parents` tells how `list` was discovered: each document but the
    /// first through the first include that names it, and the documents in
    /// the order of these includes.
    pub open spec fn is_discovery(&self, list: Seq<DocumentView>, parents: Seq<(int, int)>) -> bool {
        &&& parents.len() == list.len()
        &&& forall|j: int| 1 <= j < list.len() ==> #[trigger] self.included_by(list, parents, j)
        &&& forall|j: int, k: int|
            1 <= j < k < list.len() ==> crate::closure::lex_lt(
                #[trigger] parents[j],
                #[trigger] parents[k],
            )
    }

    /// The documents of `list` stand in the order of their discovery,
    /// breadth first.
    pub open spec fn breadth_first(&self, list: Seq<DocumentView>) -> bool {
        exists|parents: Seq<(int, int)>| self.is_discovery(list, parents)
    }

    /// The documents related to `uri` contain the document `uri`, are
    /// revisions of the workspace, each once, and are closed under the
    /// includes that the workspace can follow; each but the first is included
    /// by an earlier one.
    pub proof fn lemma_closure(&self, uri: Seq<char>, list: Seq<DocumentView>)
        requires
            self.is_closure(uri, list),
        ensures
            list.len() > 0,
            list[0].uri == uri,
            self.holds_revisions(list),
            distinct_uris(list),
            self.closed_under_includes(list),
            self.breadth_first(list),
            reached_in_order(list),
    {
        assert(list.len() > 0 && list[0].uri == uri && self.holds_revisions(list) && distinct_uris(
            list,
        ) && self.closed_under_includes(list) && self.breadth_first(list)) by {
            reveal(Workspace::is_closure);
        }
        self.lemma_reached(list);
    }

    /// `list` holds the documents related to `uri`, discovered as `parents`
    /// tells.
    #[verifier::opaque]
    spec fn discovered(
        &self,
        uri: Seq<char>,
        list: Seq<DocumentView>,
        parents: Seq<(int, int)>,
    ) -> bool {
        &&& list.len() > 0 && list[0].uri == uri
        &&& self.holds_revisions(list)
        &&& distinct_uris(list)
        &&& self.closed_under_includes(list)
        &&& self.is_discovery(list, parents)
    }

    /// Two discoveries from one document that agree on the first `j`
    /// documents do not take different includes next: the include that the
    /// first took would, in the second, name a document that stands before
    /// `j`, which the first holds there too and so holds twice.
    proof fn lemma_same_include(
        &self,
        uri: Seq<char>,
        first: Seq<DocumentView>,
        p: Seq<(int, int)>,
        second: Seq<DocumentView>,
        q: Seq<(int, int)>,
        j: int,
    )
        requires
            self.discovered(uri, first, p),
            self.discovered(uri, second, q),
            1 <= j < first.len(),
            j < second.len(),
            forall|i: int| 0 <= i < j ==> first[i] == second[i],
        ensures
            !crate::closure::lex_lt(p[j], q[j]),
    {
        reveal(Workspace::discovered);
        if crate::closure::lex_lt(p[j], q[j]) {
            assert(self.included_by(first, p, j));
            assert(self.included_by(second, q, j));
            let a = p[j].0;
            let b = p[j].1;
            assert(first[a] == second[a]);
            assert(self.has(first[j].uri));
            assert(self.include_leads_back(second, a, b, j));
            let m = choose|m: int|
                0 <= m < j && m < second.len() && (#[trigger] second[m]).uri
                    == second[a].includes[b];
            assert(first[m] == second[m]);
            assert(first[m].uri == first[j].uri);
        }
    }

    /// Two discoveries from one document that agree on the first `j`
    /// documents agree on the next.
    proof fn lemma_same_next(
        &self,
        uri: Seq<char>,
        first: Seq<DocumentView>,
        p: Seq<(int, int)>,
        second: Seq<DocumentView>,
        q: Seq<(int, int)>,
        j: int,
    )
        requires
            self.discovered(uri, first, p),
            self.discovered(uri, second, q),
            0 <= j < first.len(),
            j < second.len(),
            forall|i: int| 0 <= i < j ==> first[i] == second[i],
        ensures
            first[j] == second[j],
    {
        reveal(Workspace::discovered);
        if j >= 1 {
            self.lemma_same_include(uri, first, p, second, q, j);
            self.lemma_same_include(uri, second, q, first, p, j);
            assert(p[j] == q[j]);
            assert(self.included_by(first, p, j));
            assert(self.included_by(second, q, j));
            assert(first[p[j].0] == second[p[j].0]);
            assert(first[j].uri == second[j].uri);
        }
        assert(self.doc(first[j].uri) == first[j]);
        assert(self.doc(second[j].uri) == second[j]);
    }

    /// Two discoveries from one document agree on the first `j` documents.
    proof fn lemma_same_prefix(
        &self,
        uri: Seq<char>,
        first: Seq<DocumentView>,
        p: Seq<(int, int)>,
        second: Seq<DocumentView>,
        q: Seq<(int, int)>,
        j: int,
    )
        requires
            self.discovered(uri, first, p),
            self.discovered(uri, second, q),
            0 <= j <= first.len(),
            j <= second.len(),
        ensures
            forall|i: int| 0 <= i < j ==> first[i] == second[i],
        decreases j,
    {
        if j > 0 {
            self.lemma_same_prefix(uri, first, p, second, q, j - 1);
            self.lemma_same_next(uri, first, p, second, q, j - 1);
        }
    }

    /// Of two discoveries from one document none goes on where the other
    /// ends: the next document of the longer is included by one that the
    /// shorter holds, and the shorter holds what its documents include.
    proof fn lemma_same_length(
        &self,
        uri: Seq<char>,
        first: Seq<DocumentView>,
        p: Seq<(int, int)>,
        second: Seq<DocumentView>,
        q: Seq<(int, int)>,
    )
        requires
            self.discovered(uri, first, p),
            self.discovered(uri, second, q),
        ensures
            first.len() <= second.len(),
    {
        if second.len() < first.len() {
            reveal(Workspace::discovered);
            let n = second.len() as int;
            self.lemma_same_prefix(uri, first, p, second, q, n);
            assert(self.included_by(first, p, n));
            let a = p[n].0;
            let b = p[n].1;
            assert(first[a] == second[a]);
            assert(self.has(first[n].uri));
            assert(self.has(second[a].includes[b]));
            let m = choose|m: int|
                0 <= m < second.len() && (#[trigger] second[m]).uri == second[a].includes[b];
            assert(first[m] == second[m]);
            assert(first[m].uri == first[n].uri);
        }
    }

    /// The documents related to a document are determined: two lists that
    /// both hold the documents related to `uri` are one list.
    pub proof fn lemma_closure_unique(
        &self,
        uri: Seq<char>,
        first: Seq<DocumentView>,
        second: Seq<DocumentView>,
    )
        requires
            self.is_closure(uri, first),
            self.is_closure(uri, second),
        ensures
            first == second,
    {
        let p = self.lemma_discovered(uri, first);
        let q = self.lemma_discovered(uri, second);
        self.lemma_same_length(uri, first, p, second, q);
        self.lemma_same_length(uri, second, q, first, p);
        self.lemma_same_prefix(uri, first, p, second, q, first.len() as int);
        assert(first =~= second);
    }

    /// The discovery of the documents related to `uri`.
    proof fn lemma_discovered(&self, uri: Seq<char>, list: Seq<DocumentView>) -> (parents: Seq<
        (int, int),
    >)
        requires
            self.is_closure(uri, list),
        ensures
            self.discovered(uri, list, parents),
    {
        reveal(Workspace::discovered);
        self.lemma_closure(uri, list);
        choose|parents: Seq<(int, int)>| self.is_discovery(list, parents)
    }

    /// Documents in the order of their discovery are each included by an
    /// earlier one.
    pub proof fn lemma_reached(&self, list: Seq<DocumentView>)
        requires
            self.breadth_first(list),
        ensures
            reached_in_order(list),
    {
        let parents = choose|parents: Seq<(int, int)>| self.is_discovery(list, parents);
        assert forall|j: int| 1 <= j < list.len() implies #[trigger] has_includer(list, j) by {
            assert(self.included_by(list, parents, j));
            let i = parents[j].0;
            assert(list[i].includes[parents[j].1] == list[j].uri);
        }
    }

    /// `row` is the row of document `i` in the include graph: one edge for
    /// each include, to the index of the document that it names, or to
    /// nowhere where the workspace does not hold it.
    spec fn row_matches(&self, i: int, row: Seq<Option<usize>>) -> bool {
        &&& row.len() == self@[i].includes.len()
        &&& forall|q: int|
            0 <= q < row.len() ==> (#[trigger] row[q]) == (if self.has(self@[i].includes[q]) {
                Some(self.uris().index_of(self@[i].includes[q]) as usize)
            } else {
                None
            })
    }

    /// `adj` is the include graph of the workspace, by index.
    spec fn edges_match(&self, adj: Seq<Vec<Option<usize>>>) -> bool {
        &&& adj.len() == self@.len()
        &&& forall|i: int| 0 <= i < adj.len() ==> self.row_matches(i, (#[trigger] adj[i])@)
    }

    /// The row of document `i` in the include graph.
    fn resolve_row(&self, i: usize) -> (row: Vec<Option<usize>>)
        requires
            self.wf(),
            i < self@.len(),
        ensures
            self.row_matches(i as int, row@),
            crate::closure::row_ok(row@, self@.len()),
    {
        proof {
            self.lemma_keys();
        }
        let d = self.docs.value_at(i);
        let m = d.tree.includes.len();
        assert(self@[i as int].includes =~= uri_views(d.tree.includes@));
        let mut row: Vec<Option<usize>> = Vec::new();
        let mut k: usize = 0;
        while k < m
            invariant
                self.wf(),
                i < self@.len(),
                self.uris() == self.docs.keys(),
                self@.len() == self.docs.keys().len(),
                *d == self.docs.vals()[i as int],
                self@[i as int].includes == uri_views(d.tree.includes@),
                m == d.tree.includes@.len(),
                k <= m,
                row@.len() == k,
                crate::closure::row_ok(row@, self@.len()),
                forall|q: int|
                    0 <= q < k ==> (#[trigger] row@[q]) == (if self.has(
                        self@[i as int].includes[q],
                    ) {
                        Some(self.uris().index_of(self@[i as int].includes[q]) as usize)
                    } else {
                        None
                    }),
            decreases m - k,
        {
            let ghost before = row@;
            let hit = self.docs.find(&d.tree.includes[k]);
            assert(self@[i as int].includes[k as int] == d.tree.includes@[k as int]@);
            row.push(hit);
            proof {
                assert forall|q: int| 0 <= q < row@.len() && (#[trigger] row@[q]).is_some() implies row@[q].unwrap()
                    < self@.len() by {
                    if q < k {
                        assert(row@[q] == before[q]);
                    }
                }
                assert forall|q: int| 0 <= q < k + 1 implies (#[trigger] row@[q]) == (if self.has(
                    self@[i as int].includes[q],
                ) {
                    Some(self.uris().index_of(self@[i as int].includes[q]) as usize)
                } else {
                    None
                }) by {
                    if q < k {
                        assert(row@[q] == before[q]);
                    }
                }
            }
            k += 1;
        }
        row
    }

    /// The include graph of the workspace, by index.
    fn edges(&self) -> (adj: Vec<Vec<Option<usize>>>)
        requires
            self.wf(),
        ensures
            self.edges_match(adj@),
            crate::closure::graph_ok(adj@),
    {
        let n = self.docs.len();
        let mut adj: Vec<Vec<Option<usize>>> = Vec::new();
        let mut i: usize = 0;
        while i < n
            invariant
                self.wf(),
                n == self@.len(),
                i <= n,
                adj@.len() == i,
                forall|j: int| 0 <= j < i ==> self.row_matches(j, (#[trigger] adj@[j])@),
                forall|j: int| 0 <= j < i ==> crate::closure::row_ok((#[trigger] adj@[j])@, n as nat),
            decreases n - i,
        {
            let row = self.resolve_row(i);
            adj.push(row);
            i += 1;
        }
        adj
    }

    /// What relates a traversal of the include graph to the documents that
    /// it names.
    spec fn reads_as(&self, order: Seq<usize>, list: Seq<DocumentView>) -> bool {
        &&& list.len() == order.len()
        &&& forall|i: int|
            0 <= i < list.len() ==> (#[trigger] order[i]) < self@.len() && list[i]
                == self@[order[i] as int]
    }

    proof fn lemma_closure_revisions(&self, order: Seq<usize>, list: Seq<DocumentView>)
        requires
            self.wf(),
            self.reads_as(order, list),
        ensures
            self.holds_revisions(list),
    {
        assert forall|j: int| 0 <= j < list.len() implies self.has((#[trigger] list[j]).uri)
            && self.doc(list[j].uri) == list[j] by {
            assert(order[j] < self@.len());
            self.lemma_doc_at(order[j] as int);
        }
    }

    proof fn lemma_closure_distinct(&self, order: Seq<usize>, list: Seq<DocumentView>)
        requires
            self.wf(),
            self.reads_as(order, list),
            crate::table::distinct(order),
        ensures
            distinct_uris(list),
    {
        assert forall|a: int, b: int| 0 <= a < b < list.len() implies (#[trigger] list[a]).uri != (
        #[trigger] list[b]).uri by {
            assert(order[a] < self@.len() && order[b] < self@.len());
            assert(order[a] != order[b]);
            self.lemma_doc_at(order[a] as int);
            self.lemma_doc_at(order[b] as int);
        }
    }

    /// An edge of the graph that leads back leads back as an include.
    proof fn lemma_include_leads_back(
        &self,
        adj: Seq<Vec<Option<usize>>>,
        order: Seq<usize>,
        list: Seq<DocumentView>,
        a: int,
        b: int,
        j: int,
    )
        requires
            self.wf(),
            self@.len() <= usize::MAX,
            self.edges_match(adj),
            self.reads_as(order, list),
            crate::closure::leads_back(adj, order, a, b, j),
        ensures
            self.include_leads_back(list, a, b, j),
    {
        if 0 <= a < list.len() && 0 <= b < list[a].includes.len() && self.has(list[a].includes[b]) {
            let at = order[a] as int;
            assert(list[a] == self@[at]);
            assert(self.row_matches(at, adj[at]@));
            let u = self@[at].includes[b];
            let idx = self.uris().index_of(u);
            assert(0 <= idx < self.uris().len() && self.uris()[idx] == u);
            let x = idx as usize;
            assert(x as int == idx);
            assert(adj[at]@[b] == Some(x));
            assert(crate::closure::among(order, x, j));
            let m = choose|m: int| 0 <= m < j && m < order.len() && #[trigger] order[m] == x;
            assert(list[m] == self@[x as int]);
            self.lemma_doc_at(x as int);
            assert(list[m].uri == u);
        }
    }

    /// What is settled in the graph is settled among the includes.
    proof fn lemma_includes_settled(
        &self,
        adj: Seq<Vec<Option<usize>>>,
        order: Seq<usize>,
        list: Seq<DocumentView>,
        bound: (int, int),
        j: int,
    )
        requires
            self.wf(),
            self@.len() <= usize::MAX,
            self.edges_match(adj),
            self.reads_as(order, list),
            crate::closure::settled_before(adj, order, bound, j),
        ensures
            self.includes_settled(list, bound, j),
    {
        assert forall|a: int, b: int|
            crate::closure::lex_lt((a, b), bound) implies #[trigger] self.include_leads_back(
            list,
            a,
            b,
            j,
        ) by {
            assert(crate::closure::leads_back(adj, order, a, b, j));
            self.lemma_include_leads_back(adj, order, list, a, b, j);
        }
    }

    /// A discovery of the graph is a discovery of the documents.
    proof fn lemma_closure_discovery(
        &self,
        adj: Seq<Vec<Option<usize>>>,
        order: Seq<usize>,
        list: Seq<DocumentView>,
        parents: Seq<(int, int)>,
    )
        requires
            self.wf(),
            self@.len() <= usize::MAX,
            self.edges_match(adj),
            self.reads_as(order, list),
            crate::closure::is_discovery(adj, order, parents),
        ensures
            self.is_discovery(list, parents),
    {
        assert forall|j: int| 1 <= j < list.len() implies #[trigger] self.included_by(
            list,
            parents,
            j,
        ) by {
            assert(crate::closure::found_by(adj, order, parents, j));
            let a = parents[j].0;
            let b = parents[j].1;
            let at = order[a] as int;
            assert(list[a] == self@[at]);
            assert(self.row_matches(at, adj[at]@));
            assert(adj[at]@[b] == Some(order[j]));
            let u = self@[at].includes[b];
            assert(self.has(u));
            let idx = self.uris().index_of(u);
            assert(0 <= idx < self.uris().len() && self.uris()[idx] == u);
            assert(idx as usize as int == idx);
            assert(order[j] as int == idx);
            assert(list[j] == self@[idx]);
            self.lemma_doc_at(idx);
            self.lemma_includes_settled(adj, order, list, parents[j], j);
        }
    }

    /// Where every include is settled, the documents are closed under
    /// includes.
    proof fn lemma_closure_closed(&self, list: Seq<DocumentView>)
        requires
            self.includes_settled(list, (list.len() as int, 0int), list.len() as int),
        ensures
            self.closed_under_includes(list),
    {
        assert forall|j: int, k: int|
            0 <= j < list.len() && 0 <= k < list[j].includes.len() && self.has(
                #[trigger] list[j].includes[k],
            ) implies exists|m: int|
            0 <= m < list.len() && (#[trigger] list[m]).uri == list[j].includes[k] by {
            assert(crate::closure::lex_lt((j, k), (list.len() as int, 0int)));
            assert(self.include_leads_back(list, j, k, list.len() as int));
        }
    }

    /// The documents related to `uri`: the document itself and, breadth
    /// first, every document of the workspace that is reached from it over
    /// includes, each once, in the order of discovery. Nothing for a URI that
    /// the workspace does not hold.
    pub fn subset(&self, uri: &Uri) -> (r: Option<WorkspaceSubset>)
        requires
            self.wf(),
        ensures
            r.is_some() == self.has(uri@),
            r.is_some() ==> self.is_closure(uri@, r.unwrap()@),
    {
        proof {
            self.lemma_keys();
        }
        let start = match self.docs.find(uri) {
            Some(i) => i,
            None => {
                return None;
            },
        };
        let adj = self.edges();
        let n = self.docs.len();
        assert(self@.len() == n);
        let order = crate::closure::traverse(&adj, start);
        let mut documents: Vec<Document> = Vec::new();
        let mut j: usize = 0;
        while j < order.len()
            invariant
                self.wf(),
                self@.len() == self.docs.vals().len(),
                crate::closure::in_range(order@, self@.len()),
                j <= order@.len(),
                documents@.len() == j,
                forall|i: int| 0 <= i < j ==> (#[trigger] documents@[i])@ == self@[order@[i] as int],
            decreases order@.len() - j,
        {
            documents.push(self.docs.value_at(order[j]).clone());
            j += 1;
        }
        let result = WorkspaceSubset { documents };
        proof {
            reveal(Workspace::is_closure);
            assert(self@[start as int].uri == uri@);
            assert(self.reads_as(order@, result@));
            self.lemma_closure_revisions(order@, result@);
            self.lemma_closure_distinct(order@, result@);
            self.lemma_includes_settled(
                adj@,
                order@,
                result@,
                (order@.len() as int, 0int),
                order@.len() as int,
            );
            self.lemma_closure_closed(result@);
            let parents = choose|parents: Seq<(int, int)>|
                crate::closure::is_discovery(adj@, order@, parents);
            self.lemma_closure_discovery(adj@, order@, result@, parents);
        }
        Some(result)
    }

    /// The elements of `targets` that the workspace does not hold, in their
    /// order.
    pub open spec fn unheld(&self, targets: Seq<Seq<char>>) -> Seq<Seq<char>>
        decreases targets.len(),
    {
        if targets.len() == 0 {
            Seq::empty()
        } else {
            let init = self.unheld(targets.drop_last());
            if self.has(targets.last()) {
                init
            } else {
                init.push(targets.last())
            }
        }
    }

    /// The include targets of the documents of `list` that the workspace
    /// does not hold, in the order of the documents and of their includes.
    pub open spec fn missing(&self, list: Seq<DocumentView>) -> Seq<Seq<char>>
        decreases list.len(),
    {
        if list.len() == 0 {
            Seq::empty()
        } else {
            self.missing(list.drop_last()) + self.unheld(list.last().includes)
        }
    }

    /// Appends to `out` the elements of `targets` that the workspace does
    /// not hold.
    fn push_unheld(&self, targets: &Vec<Uri>, out: &mut Vec<Uri>)
        requires
            self.wf(),
        ensures
            uri_views(final(out)@) == uri_views(old(out)@) + self.unheld(uri_views(targets@)),
    {
        proof {
            self.lemma_keys();
        }
        let ghost all = uri_views(targets@);
        let mut k: usize = 0;
        assert(all.subrange(0, 0) =~= Seq::<Seq<char>>::empty());
        assert(uri_views(out@) =~= uri_views(old(out)@) + self.unheld(all.subrange(0, 0)));
        while k < targets.len()
            invariant
                self.wf(),
                self.uris() == self.docs.keys(),
                k <= targets@.len(),
                all == uri_views(targets@),
                uri_views(out@) == uri_views(old(out)@) + self.unheld(all.subrange(0, k as int)),
            decreases targets@.len() - k,
        {
            proof {
                let upto = all.subrange(0, k + 1);
                assert(upto.drop_last() =~= all.subrange(0, k as int));
                assert(upto.last() == targets@[k as int]@);
            }
            let ghost before = out@;
            if self.docs.find(&targets[k]).is_none() {
                out.push(targets[k].clone());
                assert(uri_views(out@) =~= uri_views(before).push(targets@[k as int]@));
            }
            assert(uri_views(out@) =~= uri_views(old(out)@) + self.unheld(
                all.subrange(0, k + 1),
            ));
            k += 1;
        }
        assert(all.subrange(0, targets@.len() as int) =~= all);
    }

    /// The documents that `subset` includes and the workspace does not hold:
    /// what is to be looked for on disk. The order is that of the documents
    /// and of their includes, and a document that is included twice is named
    /// twice.
    pub fn missing_includes(&self, subset: &WorkspaceSubset) -> (r: Vec<Uri>)
        requires
            self.wf(),
        ensures
            uri_views(r@) == self.missing(subset@),
    {
        let ghost all = subset@;
        let mut out: Vec<Uri> = Vec::new();
        let mut i: usize = 0;
        assert(all.subrange(0, 0) =~= Seq::<DocumentView>::empty());
        assert(uri_views(out@) =~= self.missing(all.subrange(0, 0)));
        while i < subset.documents.len()
            invariant
                self.wf(),
                i <= subset.documents@.len(),
                all == subset@,
                uri_views(out@) == self.missing(all.subrange(0, i as int)),
            decreases subset.documents@.len() - i,
        {
            proof {
                let upto = all.subrange(0, i + 1);
                assert(upto.drop_last() =~= all.subrange(0, i as int));
                assert(upto.last() == subset.documents@[i as int]@);
            }
            self.push_unheld(&subset.documents[i].tree.includes, &mut out);
            i += 1;
        }
        assert(all.subrange(0, subset.documents@.len() as int) =~= all);
        out
    }

    /// Whether the workspace holds a document `uri`.
    pub fn contains(&self, uri: &Uri) -> (r: bool)
        requires
            self.wf(),
        ensures
            r == self.has(uri@),
    {
        proof {
            self.lemma_keys();
        }
        self.docs.find(uri).is_some()
    }

    /// The number of open handlers.
    pub fn handler_count(&self) -> (n: usize)
        ensures
            n == self.handlers().len(),
    {
        self.handlers.len()
    }

    /// The number of documents.
    pub fn len(&self) -> (n: usize)
        requires
            self.wf(),
        ensures
            n == self@.len(),
    {
        self.docs.len()
    }
}

} // verus!
