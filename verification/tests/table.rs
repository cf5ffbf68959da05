use texlab::closure::traverse;
use texlab::ident::FileName;
use texlab::ident::Key;
use texlab::ident::RequestId;
use texlab::ident::Uri;
use texlab::table::Table;

fn uri(text: &str) -> Uri {
    Uri::parse(text)
}

#[test]
fn table_keeps_the_order_of_first_insertion() {
    let mut table: Table<Uri, u32> = Table::new();
    assert_eq!(table.len(), 0);
    assert_eq!(table.insert(uri("b"), 1), None);
    assert_eq!(table.insert(uri("a"), 2), None);
    assert_eq!(table.insert(uri("b"), 3), Some(1));
    assert_eq!(table.len(), 2);
    assert_eq!(table.find(&uri("b")), Some(0));
    assert_eq!(table.find(&uri("a")), Some(1));
    assert_eq!(table.find(&uri("c")), None);
    assert_eq!(*table.value_at(0), 3);
    assert_eq!(table.get(&uri("a")), Some(&2));
    assert_eq!(table.get(&uri("c")), None);
}

#[test]
fn table_remove_keeps_the_order_of_the_rest() {
    let mut table: Table<Uri, u32> = Table::new();
    for (index, name) in ["a", "b", "c", "d"].iter().enumerate() {
        table.insert(uri(name), index as u32);
    }
    assert_eq!(table.remove(&uri("b")), Some(1));
    assert_eq!(table.remove(&uri("b")), None);
    assert_eq!(table.len(), 3);
    assert_eq!(table.find(&uri("a")), Some(0));
    assert_eq!(table.find(&uri("c")), Some(1));
    assert_eq!(table.find(&uri("d")), Some(2));
    assert_eq!(table.insert(uri("b"), 9), None);
    assert_eq!(table.find(&uri("b")), Some(3));
}

#[test]
fn keys_are_compared_by_what_they_name() {
    assert!(uri("a").same(&uri("a")));
    assert!(!uri("a").same(&uri("A")));
    assert!(uri("a").duplicate().same(&uri("a")));
    assert_eq!(uri("file:///a.tex").as_str(), "file:///a.tex");
    assert_eq!(Uri::new("x".to_string()), uri("x"));
    assert!(RequestId::Number(1).same(&RequestId::Number(1)));
    assert!(!RequestId::Number(1).same(&RequestId::Number(2)));
    assert!(!RequestId::Number(1).same(&RequestId::Text("1".to_string())));
    assert!(!RequestId::Text("1".to_string()).same(&RequestId::Number(1)));
    assert!(RequestId::Text("a".to_string()).same(&RequestId::Text("a".to_string())));
    assert!(!RequestId::Text("a".to_string()).same(&RequestId::Text("b".to_string())));
    assert_eq!(RequestId::Text("a".to_string()).duplicate(), RequestId::Text("a".to_string()));
    assert_eq!(RequestId::Number(7).clone(), RequestId::Number(7));
    assert!(FileName::new("a.sty".to_string()).same(&FileName::new("a.sty".to_string())));
    assert!(!FileName::new("a.sty".to_string()).same(&FileName::new("b.sty".to_string())));
}

#[test]
fn traversal_is_breadth_first() {
    let graph = vec![
        vec![Some(2), None, Some(1), Some(2)],
        vec![Some(3), Some(0)],
        vec![Some(4), Some(3)],
        vec![],
        vec![Some(4), Some(5)],
        vec![None],
        vec![Some(0)],
    ];
    assert_eq!(traverse(&graph, 0), vec![0, 2, 1, 4, 3, 5]);
    assert_eq!(traverse(&graph, 3), vec![3]);
    assert_eq!(traverse(&graph, 6), vec![6, 0, 2, 1, 4, 3, 5]);
    assert_eq!(traverse(&graph, 4), vec![4, 5]);
}
