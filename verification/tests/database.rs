use texlab::completion::database::fallback_component;
use texlab::completion::database::LatexComponent;
use texlab::completion::database::LatexComponentDatabase;
use texlab::completion::database::LatexComponentDatabaseManager;
use texlab::ident::Uri;
use texlab::workspace::Document;
use texlab::workspace::DocumentLanguage;
use texlab::workspace::ParsedTree;
use texlab::workspace::WorkspaceSource;

fn strings(items: &[&str]) -> Vec<String> {
    items.iter().map(|item| item.to_string()).collect()
}

fn component(file_names: &[&str], references: &[&str]) -> LatexComponent {
    LatexComponent {
        file_names: strings(file_names),
        references: strings(references),
        commands: Vec::new(),
        environments: Vec::new(),
    }
}

fn document(name: &str, language: DocumentLanguage, components: &[&str]) -> Document {
    Document {
        uri: Uri::parse(name),
        text: String::new(),
        language,
        source: WorkspaceSource::Client,
        tree: ParsedTree::new(Vec::new(), strings(components)),
    }
}

fn database() -> LatexComponentDatabase {
    LatexComponentDatabase {
        components: vec![
            component(&["article.cls"], &["size10.clo"]),
            component(&["size10.clo"], &[]),
            component(&["tikz.sty", "pgf.sty"], &["xcolor.sty", "size10.clo"]),
            component(&["xcolor.sty"], &[]),
            component(&["pgf.sty"], &[]),
        ],
    }
}

fn first_names(components: &[LatexComponent]) -> Vec<String> {
    components.iter().map(|component| component.file_names[0].clone()).collect()
}

#[test]
fn find_gives_the_first_component_with_the_name() {
    let database = database();
    assert_eq!(database.find_index(&"pgf.sty".to_string()), Some(2));
    assert_eq!(database.find(&"pgf.sty".to_string()), Some(component(
        &["tikz.sty", "pgf.sty"],
        &["xcolor.sty", "size10.clo"],
    )));
    assert_eq!(database.find_index(&"xcolor.sty".to_string()), Some(3));
    assert_eq!(database.find_index(&"missing.sty".to_string()), None);
    assert_eq!(database.find(&"missing.sty".to_string()), None);
    assert_eq!(LatexComponentDatabase::new().find(&"tikz.sty".to_string()), None);
}

#[test]
fn related_components_follow_references_and_drop_repeats() {
    let documents = vec![
        document("main.tex", DocumentLanguage::Latex, &["article.cls", "tikz.sty", "unknown.sty"]),
        document("refs.bib", DocumentLanguage::Bibtex, &["xcolor.sty"]),
        document("part.tex", DocumentLanguage::Latex, &["tikz.sty", "pgf.sty"]),
    ];
    let related = database().related_components(&documents);
    assert_eq!(first_names(&related), vec!["article.cls", "size10.clo", "tikz.sty", "xcolor.sty"]);
    assert_eq!(related[2], component(&["tikz.sty", "pgf.sty"], &["xcolor.sty", "size10.clo"]));
}

#[test]
fn related_components_of_nothing_are_none() {
    assert!(database().related_components(&Vec::new()).is_empty());
    let bibtex = vec![document("refs.bib", DocumentLanguage::Bibtex, &["tikz.sty"])];
    assert!(database().related_components(&bibtex).is_empty());
    let unknown = vec![document("a.tex", DocumentLanguage::Latex, &["unknown.sty"])];
    assert!(database().related_components(&unknown).is_empty());
}

#[test]
fn related_components_keep_the_first_of_equal_file_names() {
    let database = LatexComponentDatabase {
        components: vec![
            component(&["a.sty"], &["b.sty", "b.sty"]),
            component(&["b.sty"], &["a.sty"]),
        ],
    };
    let documents = vec![document("main.tex", DocumentLanguage::Latex, &["a.sty", "b.sty", "a.sty"])];
    let related = database.related_components(&documents);
    assert_eq!(first_names(&related), vec!["a.sty", "b.sty"]);
}

#[test]
fn manager_records_each_component_under_each_file_name() {
    let manager = LatexComponentDatabaseManager::new(database());
    let stored = manager.get();
    assert_eq!(
        first_names(&stored.components),
        vec!["article.cls", "size10.clo", "tikz.sty", "pgf.sty", "xcolor.sty"]
    );
    assert_eq!(stored.components[3], component(&["pgf.sty"], &[]));
    assert!(manager.is_known("tikz.sty"));
    assert!(manager.is_known("pgf.sty"));
    assert!(!manager.is_known("amsmath.sty"));
}

#[test]
fn manager_of_no_stored_database_is_empty() {
    let manager = LatexComponentDatabaseManager::load_or_create(None);
    assert!(manager.get().components.is_empty());
    let loaded = LatexComponentDatabaseManager::load_or_create(Some(vec![component(&["a.sty"], &[])]));
    assert_eq!(loaded.get().components, vec![component(&["a.sty"], &[])]);
}

#[test]
fn enqueue_queues_what_is_unknown_and_resolved() {
    let manager = LatexComponentDatabaseManager::new(database());
    assert_eq!(manager.enqueue("tikz.sty", Some("/tex/tikz.sty".to_string())), None);
    assert_eq!(
        manager.enqueue("amsmath.sty", Some("/tex/amsmath.sty".to_string())),
        Some("/tex/amsmath.sty".to_string())
    );
    assert_eq!(manager.enqueue("amsmath.sty", None), None);
}

#[test]
fn loaded_references_are_the_known_ones_in_order() {
    let manager = LatexComponentDatabaseManager::new(database());
    let loaded = manager.loaded_references(&strings(&["xcolor.sty", "nope.sty", "article.cls", "xcolor.sty"]));
    assert_eq!(first_names(&loaded), vec!["xcolor.sty", "article.cls", "xcolor.sty"]);
    assert!(manager.loaded_references(&Vec::new()).is_empty());
}

#[test]
fn fallback_component_defines_nothing() {
    let fallback = fallback_component("broken.sty".to_string(), strings(&["/tex/a.sty"]));
    assert_eq!(fallback, component(&["broken.sty"], &["/tex/a.sty"]));
}

#[test]
fn store_analysis_records_the_component_or_its_fallback() {
    let mut manager = LatexComponentDatabaseManager::load_or_create(None);
    manager.store_analysis("one.sty".to_string(), strings(&["dep.sty"]), None);
    assert!(manager.is_known("one.sty"));
    assert_eq!(manager.get().components, vec![component(&["one.sty"], &["dep.sty"])]);
    manager.store_analysis(
        "two.sty".to_string(),
        Vec::new(),
        Some(component(&["two.sty", "one.sty"], &[])),
    );
    assert_eq!(
        manager.get().components,
        vec![component(&["two.sty", "one.sty"], &[]), component(&["two.sty", "one.sty"], &[])]
    );
    assert_eq!(manager.enqueue("two.sty", Some("/tex/two.sty".to_string())), None);
}

#[test]
fn record_of_a_component_without_file_names_changes_nothing() {
    let mut manager = LatexComponentDatabaseManager::new(database());
    manager.record(component(&[], &["a.sty"]));
    assert_eq!(manager.get().components.len(), 5);
}
