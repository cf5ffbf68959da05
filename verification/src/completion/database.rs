//! The database of LaTeX components: packages and classes with the commands
//! and environments that they define.
use vstd::prelude::*;
use itertools::Itertools;
use crate::ident::FileName;
use crate::table::Table;
use crate::text::clone_strings;
use crate::text::string_views;
use crate::workspace::Document;
use crate::workspace::DocumentLanguage;

verus! {

/// A component as contracts see it.
pub struct ComponentView {
    pub file_names: Seq<Seq<char>>,
    pub references: Seq<Seq<char>>,
    pub commands: Seq<Seq<char>>,
    pub environments: Seq<Seq<char>>,
}

/// A package or class: the files that make it up, the files that it loads,
/// and the names that it defines.
#[derive(Debug, PartialEq, Eq)]
pub struct LatexComponent {
    pub file_names: Vec<String>,
    pub references: Vec<String>,
    pub commands: Vec<String>,
    pub environments: Vec<String>,
}

impl View for LatexComponent {
    type V = ComponentView;

    open spec fn view(&self) -> ComponentView {
        ComponentView {
            file_names: string_views(self.file_names@),
            references: string_views(self.references@),
            commands: string_views(self.commands@),
            environments: string_views(self.environments@),
        }
    }
}

impl Clone for LatexComponent {
    fn clone(&self) -> (r: Self)
        ensures
            r@ == self@,
    {
        LatexComponent {
            file_names: clone_strings(&self.file_names),
            references: clone_strings(&self.references),
            commands: clone_strings(&self.commands),
            environments: clone_strings(&self.environments),
        }
    }
}

/// The views of a sequence of components.
pub open spec fn component_views(list: Seq<LatexComponent>) -> Seq<ComponentView> {
    Seq::new(list.len(), |i: int| list[i]@)
}

/// Whether `index` is that of the first component of `list` among whose
/// file names `name` is.
pub open spec fn finds(list: Seq<ComponentView>, name: Seq<char>, index: int) -> bool {
    &&& 0 <= index < list.len()
    &&& list[index].file_names.contains(name)
    &&& forall|j: int| 0 <= j < index ==> !(#[trigger] list[j]).file_names.contains(name)
}

/// Whether no component of `list` has the file name `name`.
pub open spec fn finds_none(list: Seq<ComponentView>, name: Seq<char>) -> bool {
    forall|j: int| 0 <= j < list.len() ==> !(#[trigger] list[j]).file_names.contains(name)
}

/// The component that `name` names in `list`, as a sequence of one or none.
pub open spec fn found(list: Seq<ComponentView>, name: Seq<char>) -> Seq<ComponentView> {
    if exists|i: int| finds(list, name, i) {
        seq![list[choose|i: int| finds(list, name, i)]]
    } else {
        Seq::empty()
    }
}

/// The components that `names` name in `list`, in the order of the names.
pub open spec fn found_all(list: Seq<ComponentView>, names: Seq<Seq<char>>) -> Seq<ComponentView>
    decreases names.len(),
{
    if names.len() == 0 {
        Seq::empty()
    } else {
        found_all(list, names.drop_last()) + found(list, names.last())
    }
}

/// The components that the LaTeX documents among `documents` load, in the
/// order of the documents and of their load commands.
pub open spec fn loaded_by(
    list: Seq<ComponentView>,
    documents: Seq<crate::workspace::DocumentView>,
) -> Seq<ComponentView>
    decreases documents.len(),
{
    if documents.len() == 0 {
        Seq::empty()
    } else {
        loaded_by(list, documents.drop_last()) + (if documents.last().language
            == DocumentLanguage::Latex {
            found_all(list, documents.last().components)
        } else {
            Seq::empty()
        })
    }
}

/// Each component of `start`, followed by the components that it refers to.
pub open spec fn with_references(list: Seq<ComponentView>, start: Seq<ComponentView>) -> Seq<
    ComponentView,
>
    decreases start.len(),
{
    if start.len() == 0 {
        Seq::empty()
    } else {
        with_references(list, start.drop_last()) + seq![start.last()] + found_all(
            list,
            start.last().references,
        )
    }
}

/// `items` without every component whose file names an earlier one has: of
/// components with the same file names the first stays, and what stays keeps
/// its order.
pub open spec fn unique_by_file_names(items: Seq<ComponentView>) -> Seq<ComponentView>
    decreases items.len(),
{
    if items.len() == 0 {
        Seq::empty()
    } else {
        let init = unique_by_file_names(items.drop_last());
        if exists|j: int|
            0 <= j < items.len() - 1 && (#[trigger] items[j]).file_names == items.last().file_names {
            init
        } else {
            init.push(items.last())
        }
    }
}

/// Calls `Itertools::unique_by` on the components with their file names as
/// the key. The contract says what that function documents: an item stays
/// unless an earlier item has an equal key, and the items that stay keep
/// their order.
#[verifier::external_body]
fn unique_components(items: &Vec<LatexComponent>) -> (r: Vec<LatexComponent>)
    ensures
        component_views(r@) == unique_by_file_names(component_views(items@)),
{
    items.iter().unique_by(|component| &component.file_names).map(LatexComponent::clone).collect()
}

/// The known components.
#[derive(Debug, PartialEq, Eq)]
pub struct LatexComponentDatabase {
    pub components: Vec<LatexComponent>,
}

impl View for LatexComponentDatabase {
    type V = Seq<ComponentView>;

    open spec fn view(&self) -> Seq<ComponentView> {
        component_views(self.components@)
    }
}

/// Whether `text` is one of `names`.
fn contains_name(names: &Vec<String>, text: &String) -> (r: bool)
    ensures
        r == string_views(names@).contains(text@),
{
    let mut i: usize = 0;
    while i < names.len()
        invariant
            i <= names@.len(),
            forall|j: int| 0 <= j < i ==> string_views(names@)[j] != text@,
        decreases names@.len() - i,
    {
        if names[i] == *text {
            assert(string_views(names@)[i as int] == text@);
            return true;
        }
        i += 1;
    }
    false
}

impl LatexComponentDatabase {
    /// The database without components.
    pub fn new() -> (r: LatexComponentDatabase)
        ensures
            r@ == Seq::<ComponentView>::empty(),
    {
        let r = LatexComponentDatabase { components: Vec::new() };
        assert(r@ =~= Seq::<ComponentView>::empty());
        r
    }

    /// The index of the first component among whose file names `name` is.
    pub fn find_index(&self, name: &String) -> (r: Option<usize>)
        ensures
            match r {
                Some(i) => finds(self@, name@, i as int),
                None => finds_none(self@, name@),
            },
    {
        let mut i: usize = 0;
        while i < self.components.len()
            invariant
                i <= self.components@.len(),
                forall|j: int| 0 <= j < i ==> !(#[trigger] self@[j]).file_names.contains(name@),
            decreases self.components@.len() - i,
        {
            if contains_name(&self.components[i].file_names, name) {
                return Some(i);
            }
            i += 1;
        }
        None
    }

    /// The first component among whose file names `name` is.
    pub fn find(&self, name: &String) -> (r: Option<LatexComponent>)
        ensures
            match r {
                Some(component) => found(self@, name@) == seq![component@],
                None => found(self@, name@) == Seq::<ComponentView>::empty(),
            },
    {
        match self.find_index(name) {
            Some(i) => {
                proof {
                    lemma_found(self@, name@, i as int);
                }
                Some(self.components[i].clone())
            },
            None => None,
        }
    }

    /// Appends to `out` the components that `names` name.
    fn find_all(&self, names: &Vec<String>, out: &mut Vec<LatexComponent>)
        ensures
            component_views(final(out)@) == component_views(old(out)@) + found_all(
                self@,
                string_views(names@),
            ),
    {
        let ghost all = string_views(names@);
        let mut i: usize = 0;
        assert(all.subrange(0, 0) =~= Seq::<Seq<char>>::empty());
        assert(component_views(out@) =~= component_views(old(out)@) + found_all(
            self@,
            all.subrange(0, 0),
        ));
        while i < names.len()
            invariant
                i <= names@.len(),
                all == string_views(names@),
                component_views(out@) == component_views(old(out)@) + found_all(
                    self@,
                    all.subrange(0, i as int),
                ),
            decreases names@.len() - i,
        {
            let ghost before = out@;
            let hit = self.find(&names[i]);
            proof {
                let upto = all.subrange(0, i + 1);
                assert(upto.drop_last() =~= all.subrange(0, i as int));
                assert(upto.last() == names@[i as int]@);
            }
            match hit {
                Some(component) => {
                    out.push(component);
                    assert(component_views(out@) =~= component_views(before).push(component@));
                },
                None => {},
            }
            assert(component_views(out@) =~= component_views(old(out)@) + found_all(
                self@,
                all.subrange(0, i + 1),
            ));
            i += 1;
        }
        assert(all.subrange(0, names@.len() as int) =~= all);
    }

    /// The components that `documents` need: those that the LaTeX documents
    /// among them load, each followed by the components that it refers to,
    /// without those whose file names an earlier one has.
    pub fn related_components(&self, documents: &Vec<Document>) -> (r: Vec<LatexComponent>)
        ensures
            component_views(r@) == unique_by_file_names(
                with_references(
                    self@,
                    loaded_by(self@, crate::workspace::document_views(documents@)),
                ),
            ),
    {
        let ghost docs = crate::workspace::document_views(documents@);
        let mut start: Vec<LatexComponent> = Vec::new();
        let mut i: usize = 0;
        assert(docs.subrange(0, 0) =~= Seq::<crate::workspace::DocumentView>::empty());
        assert(component_views(start@) =~= loaded_by(self@, docs.subrange(0, 0)));
        while i < documents.len()
            invariant
                i <= documents@.len(),
                docs == crate::workspace::document_views(documents@),
                component_views(start@) == loaded_by(self@, docs.subrange(0, i as int)),
            decreases documents@.len() - i,
        {
            proof {
                let upto = docs.subrange(0, i + 1);
                assert(upto.drop_last() =~= docs.subrange(0, i as int));
                assert(upto.last() == documents@[i as int]@);
            }
            match documents[i].language {
                DocumentLanguage::Latex => {
                    self.find_all(&documents[i].tree.components, &mut start);
                },
                DocumentLanguage::Bibtex => {
                    assert(component_views(start@) =~= component_views(start@)
                        + Seq::<ComponentView>::empty());
                },
            }
            i += 1;
        }
        assert(docs.subrange(0, documents@.len() as int) =~= docs);
        let ghost begun = component_views(start@);
        let mut all: Vec<LatexComponent> = Vec::new();
        let mut k: usize = 0;
        assert(begun.subrange(0, 0) =~= Seq::<ComponentView>::empty());
        assert(component_views(all@) =~= with_references(self@, begun.subrange(0, 0)));
        while k < start.len()
            invariant
                k <= start@.len(),
                begun == component_views(start@),
                component_views(all@) == with_references(self@, begun.subrange(0, k as int)),
            decreases start@.len() - k,
        {
            proof {
                let upto = begun.subrange(0, k + 1);
                assert(upto.drop_last() =~= begun.subrange(0, k as int));
                assert(upto.last() == start@[k as int]@);
            }
            let ghost before = all@;
            all.push(start[k].clone());
            assert(component_views(all@) =~= component_views(before) + seq![start@[k as int]@]);
            self.find_all(&start[k].references, &mut all);
            k += 1;
        }
        assert(begun.subrange(0, start@.len() as int) =~= begun);
        unique_components(&all)
    }
}

/// The first component that has the name is the one that `found` gives.
pub proof fn lemma_found(list: Seq<ComponentView>, name: Seq<char>, index: int)
    requires
        finds(list, name, index),
    ensures
        found(list, name) == seq![list[index]],
{
    let other = choose|i: int| finds(list, name, i);
    assert(finds(list, name, other));
    if other < index {
        assert(!list[other].file_names.contains(name));
    } else if index < other {
        assert(!list[index].file_names.contains(name));
    }
}

/// `index` after a component is recorded: each of its file names leads to
/// it, and every other name leads where it led.
pub open spec fn recorded_index(
    index: Map<Seq<char>, ComponentView>,
    component: ComponentView,
) -> Map<Seq<char>, ComponentView> {
    Map::new(
        |n: Seq<char>| index.contains_key(n) || component.file_names.contains(n),
        |n: Seq<char>|
            if component.file_names.contains(n) {
                component
            } else {
                index[n]
            },
    )
}

/// `names` after `more` are recorded in order: each that is new goes to the
/// end.
pub open spec fn recorded_names(names: Seq<Seq<char>>, more: Seq<Seq<char>>) -> Seq<Seq<char>>
    decreases more.len(),
{
    if more.len() == 0 {
        names
    } else {
        let init = recorded_names(names, more.drop_last());
        if init.contains(more.last()) {
            init
        } else {
            init.push(more.last())
        }
    }
}

/// The index of a database: its components recorded one after the other.
pub open spec fn index_of(components: Seq<ComponentView>) -> Map<Seq<char>, ComponentView>
    decreases components.len(),
{
    if components.len() == 0 {
        Map::empty()
    } else {
        recorded_index(index_of(components.drop_last()), components.last())
    }
}

/// The names of the index of a database, in the order of recording.
pub open spec fn names_of(components: Seq<ComponentView>) -> Seq<Seq<char>>
    decreases components.len(),
{
    if components.len() == 0 {
        Seq::empty()
    } else {
        recorded_names(names_of(components.drop_last()), components.last().file_names)
    }
}

/// The component that stands in for a file that could not be analyzed: it
/// has this one file name and the references that were found, and defines
/// nothing.
pub open spec fn fallback(file_name: Seq<char>, references: Seq<Seq<char>>) -> ComponentView {
    ComponentView {
        file_names: seq![file_name],
        references,
        commands: Seq::empty(),
        environments: Seq::empty(),
    }
}

/// The component that stands in for a file that could not be analyzed.
pub fn fallback_component(file_name: String, references: Vec<String>) -> (r: LatexComponent)
    ensures
        r@ == fallback(file_name@, string_views(references@)),
{
    let mut file_names: Vec<String> = Vec::new();
    file_names.push(file_name);
    let r = LatexComponent {
        file_names,
        references,
        commands: Vec::new(),
        environments: Vec::new(),
    };
    assert(r@.file_names =~= seq![file_name@]);
    assert(r@.commands =~= Seq::<Seq<char>>::empty());
    assert(r@.environments =~= Seq::<Seq<char>>::empty());
    r
}

/// The components of the database by file name, as they are found and
/// recorded while the server runs.
pub struct LatexComponentDatabaseManager {
    components_by_name: Table<FileName, LatexComponent>,
}

impl LatexComponentDatabaseManager {
    /// Validity of the table.
    pub closed spec fn wf(&self) -> bool {
        self.components_by_name.wf()
    }

    /// The recorded file names, in the order of recording.
    pub closed spec fn names(&self) -> Seq<Seq<char>> {
        self.components_by_name.keys()
    }

    /// The component of each recorded file name.
    pub closed spec fn index(&self) -> Map<Seq<char>, ComponentView> {
        Map::new(
            |n: Seq<char>| self.components_by_name.has(n),
            |n: Seq<char>| self.components_by_name.value(n)@,
        )
    }

    /// The recorded names are the names that the index knows.
    pub proof fn lemma_names(&self, name: Seq<char>)
        ensures
            self.names().contains(name) == self.index().contains_key(name),
    {
    }

    /// A manager that knows nothing.
    fn empty() -> (m: Self)
        ensures
            m.wf(),
            m.names() == Seq::<Seq<char>>::empty(),
            m.index() == Map::<Seq<char>, ComponentView>::empty(),
    {
        let m = LatexComponentDatabaseManager { components_by_name: Table::new() };
        assert(m.index() =~= Map::<Seq<char>, ComponentView>::empty());
        m
    }

    /// The manager of `database`: each component is recorded under each of
    /// its file names, a later one in the place of an earlier one with the
    /// same name.
    pub fn new(database: LatexComponentDatabase) -> (m: Self)
        ensures
            m.wf(),
            m.index() == index_of(database@),
            m.names() == names_of(database@),
    {
        let mut m = Self::empty();
        let ghost all = database@;
        let mut i: usize = 0;
        assert(all.subrange(0, 0) =~= Seq::<ComponentView>::empty());
        while i < database.components.len()
            invariant
                m.wf(),
                i <= database.components@.len(),
                all == database@,
                m.index() == index_of(all.subrange(0, i as int)),
                m.names() == names_of(all.subrange(0, i as int)),
            decreases database.components@.len() - i,
        {
            proof {
                let upto = all.subrange(0, i + 1);
                assert(upto.drop_last() =~= all.subrange(0, i as int));
                assert(upto.last() == database.components@[i as int]@);
            }
            m.record(database.components[i].clone());
            i += 1;
        }
        assert(all.subrange(0, database.components@.len() as int) =~= all);
        m
    }

    /// The manager of what was read from the database file: of its
    /// components where the file was there and well formed, of none
    /// otherwise.
    pub fn load_or_create(stored: Option<Vec<LatexComponent>>) -> (m: Self)
        ensures
            m.wf(),
            m.index() == index_of(
                match stored {
                    Some(components) => component_views(components@),
                    None => Seq::<ComponentView>::empty(),
                },
            ),
            m.names() == names_of(
                match stored {
                    Some(components) => component_views(components@),
                    None => Seq::<ComponentView>::empty(),
                },
            ),
    {
        let database = match stored {
            Some(components) => LatexComponentDatabase { components },
            None => LatexComponentDatabase::new(),
        };
        Self::new(database)
    }

    /// The database of the recorded components: for each recorded name, in
    /// the order of recording, the component that it leads to.
    pub fn get(&self) -> (r: LatexComponentDatabase)
        requires
            self.wf(),
        ensures
            r@.len() == self.names().len(),
            forall|i: int| 0 <= i < r@.len() ==> (#[trigger] r@[i]) == self.index()[self.names()[i]],
    {
        let mut components: Vec<LatexComponent> = Vec::new();
        let n = self.components_by_name.len();
        let mut i: usize = 0;
        while i < n
            invariant
                self.wf(),
                n == self.components_by_name.keys().len(),
                n == self.components_by_name.vals().len(),
                i <= n,
                components@.len() == i,
                forall|j: int|
                    0 <= j < i ==> (#[trigger] components@[j])@
                        == self.components_by_name.vals()[j]@,
            decreases n - i,
        {
            components.push(self.components_by_name.value_at(i).clone());
            i += 1;
        }
        let r = LatexComponentDatabase { components };
        proof {
            assert forall|j: int| 0 <= j < r@.len() implies (#[trigger] r@[j])
                == self.index()[self.names()[j]] by {
                self.components_by_name.lemma_index(j);
            }
        }
        r
    }

    /// Whether a component is recorded under `file_name`.
    pub fn is_known(&self, file_name: &str) -> (r: bool)
        requires
            self.wf(),
        ensures
            r == self.index().contains_key(file_name@),
    {
        let key = FileName::new(String::from_str(file_name));
        self.components_by_name.find(&key).is_some()
    }

    /// Whether the file `file_name`, which the resolver found at `resolved`
    /// if it found it, is to be queued for analysis: the file to queue. A
    /// file that is known, or that the resolver did not find, is not queued.
    pub fn enqueue(&self, file_name: &str, resolved: Option<String>) -> (r: Option<String>)
        requires
            self.wf(),
        ensures
            r == (if self.index().contains_key(file_name@) {
                None
            } else {
                resolved
            }),
    {
        if self.is_known(file_name) {
            None
        } else {
            resolved
        }
    }

    /// The recorded components among `references`, in their order.
    pub fn loaded_references(&self, references: &Vec<String>) -> (r: Vec<LatexComponent>)
        requires
            self.wf(),
        ensures
            component_views(r@) == known_among(self.index(), string_views(references@)),
    {
        let ghost all = string_views(references@);
        let mut out: Vec<LatexComponent> = Vec::new();
        let mut i: usize = 0;
        assert(all.subrange(0, 0) =~= Seq::<Seq<char>>::empty());
        assert(component_views(out@) =~= known_among(self.index(), all.subrange(0, 0)));
        while i < references.len()
            invariant
                self.wf(),
                i <= references@.len(),
                all == string_views(references@),
                component_views(out@) == known_among(self.index(), all.subrange(0, i as int)),
            decreases references@.len() - i,
        {
            proof {
                let upto = all.subrange(0, i + 1);
                assert(upto.drop_last() =~= all.subrange(0, i as int));
                assert(upto.last() == references@[i as int]@);
            }
            let ghost before = out@;
            let key = FileName::new(references[i].clone());
            match self.components_by_name.get(&key) {
                Some(component) => {
                    out.push(component.clone());
                    assert(component_views(out@) =~= component_views(before).push(component@));
                },
                None => {},
            }
            i += 1;
        }
        assert(all.subrange(0, references@.len() as int) =~= all);
        out
    }

    /// Records `component` under each of its file names.
    pub fn record(&mut self, component: LatexComponent)
        requires
            old(self).wf(),
        ensures
            final(self).wf(),
            final(self).index() == recorded_index(old(self).index(), component@),
            final(self).names() == recorded_names(old(self).names(), component@.file_names),
    {
        let ghost all = component@.file_names;
        let ghost start = old(self).index();
        let ghost start_names = old(self).names();
        let mut i: usize = 0;
        assert(all.subrange(0, 0) =~= Seq::<Seq<char>>::empty());
        assert(self.index() =~= partly_recorded(start, component@, all.subrange(0, 0)));
        while i < component.file_names.len()
            invariant
                self.wf(),
                i <= component.file_names@.len(),
                all == component@.file_names,
                all == string_views(component.file_names@),
                self.index() == partly_recorded(start, component@, all.subrange(0, i as int)),
                self.names() == recorded_names(start_names, all.subrange(0, i as int)),
            decreases component.file_names@.len() - i,
        {
            let ghost before = self.index();
            let ghost table = self.components_by_name;
            let ghost upto = all.subrange(0, i + 1);
            proof {
                assert(upto.drop_last() =~= all.subrange(0, i as int));
                assert(upto.last() == component.file_names@[i as int]@);
            }
            let key = FileName::new(component.file_names[i].clone());
            let copy = component.clone();
            let _previous = self.components_by_name.insert(key, copy);
            proof {
                let name = component.file_names@[i as int]@;
                assert forall|n: Seq<char>| upto.contains(n) == (all.subrange(
                    0,
                    i as int,
                ).contains(n) || n == name) by {
                    if upto.contains(n) {
                        let j = upto.index_of(n);
                        assert(upto[j] == n);
                        if j < i {
                            assert(all.subrange(0, i as int)[j] == n);
                        }
                    }
                    if all.subrange(0, i as int).contains(n) {
                        let j = all.subrange(0, i as int).index_of(n);
                        assert(upto[j] == n);
                    }
                    if n == name {
                        assert(upto[i as int] == n);
                    }
                }
                let now = self.components_by_name;
                assert forall|n: Seq<char>| now.has(n) == (n == name || table.has(n)) by {
                    assert(now@.contains_key(n) == now.has(n));
                    assert(table@.contains_key(n) == table.has(n));
                }
                assert forall|n: Seq<char>| now.has(n) implies now.value(n)@ == (if n == name {
                    component@
                } else {
                    table.value(n)@
                }) by {
                    assert(now@.contains_key(n));
                    assert(now@[n] == now.value(n));
                    if n != name {
                        assert(table@.contains_key(n));
                        assert(table@[n] == table.value(n));
                    }
                }
                let goal = partly_recorded(start, component@, upto);
                let prefix = all.subrange(0, i as int);
                assert(before == partly_recorded(start, component@, prefix));
                assert forall|n: Seq<char>| self.index().contains_key(n) == goal.contains_key(
                    n,
                ) by {
                    assert(self.index().contains_key(n) == now.has(n));
                    assert(before.contains_key(n) == table.has(n));
                    assert(before.contains_key(n) == (start.contains_key(n) || prefix.contains(n)));
                    assert(upto.contains(n) == (prefix.contains(n) || n == name));
                }
                assert forall|n: Seq<char>| self.index().contains_key(n) implies self.index()[n]
                    == goal[n] by {
                    assert(now.has(n));
                    assert(self.index()[n] == now.value(n)@);
                    assert(upto.contains(n) == (prefix.contains(n) || n == name));
                    if n != name {
                        assert(before.contains_key(n));
                        assert(before[n] == table.value(n)@);
                    }
                }
                assert(self.index() =~= goal);
            }
            i += 1;
        }
        proof {
            assert(all.subrange(0, component.file_names@.len() as int) =~= all);
            assert(partly_recorded(start, component@, all) =~= recorded_index(start, component@));
        }
    }

    /// Records what the analysis of a file gave: the component that was
    /// loaded, or else the one that stands in for the file.
    pub fn store_analysis(
        &mut self,
        file_name: String,
        references: Vec<String>,
        loaded: Option<LatexComponent>,
    )
        requires
            old(self).wf(),
        ensures
            final(self).wf(),
            final(self).index() == recorded_index(
                old(self).index(),
                match loaded {
                    Some(component) => component@,
                    None => fallback(file_name@, string_views(references@)),
                },
            ),
            final(self).names() == recorded_names(
                old(self).names(),
                match loaded {
                    Some(component) => component@.file_names,
                    None => seq![file_name@],
                },
            ),
    {
        let component = match loaded {
            Some(component) => component,
            None => fallback_component(file_name, references),
        };
        self.record(component);
    }
}

/// `index` after `component` is recorded under the names `done`.
pub open spec fn partly_recorded(
    index: Map<Seq<char>, ComponentView>,
    component: ComponentView,
    done: Seq<Seq<char>>,
) -> Map<Seq<char>, ComponentView> {
    Map::new(
        |n: Seq<char>| index.contains_key(n) || done.contains(n),
        |n: Seq<char>|
            if done.contains(n) {
                component
            } else {
                index[n]
            },
    )
}

/// The components that `index` holds for `names`, in the order of the names.
pub open spec fn known_among(index: Map<Seq<char>, ComponentView>, names: Seq<Seq<char>>) -> Seq<
    ComponentView,
>
    decreases names.len(),
{
    if names.len() == 0 {
        Seq::empty()
    } else {
        let init = known_among(index, names.drop_last());
        if index.contains_key(names.last()) {
            init.push(index[names.last()])
        } else {
            init
        }
    }
}

} // verus!
