use graffiti::document::{Document, DocumentEvent};
use std::cell::RefCell;
use std::rc::Rc;

#[test]
fn test() {
    let mut d = Document::new(|_| {});

    let div = d.create_element("div");
    let hello = d.create_text_node("hello");

    d.insert_child(d.root(), div, 0);
    d.insert_child(div, hello, 0);
}

fn recording() -> (Document<impl Fn(DocumentEvent)>, Rc<RefCell<Vec<DocumentEvent>>>) {
    let log = Rc::new(RefCell::new(Vec::new()));
    let sink = log.clone();
    let d = Document::new(move |e| sink.borrow_mut().push(e));
    (d, log)
}

#[test]
fn insert_and_remove_emit_two_events_in_order() {
    let (mut d, log) = recording();
    let root = d.root();
    assert_eq!(*log.borrow(), vec![DocumentEvent::ElementCreated(root)]);

    let div = d.create_element("div");
    log.borrow_mut().clear();
    d.insert_child(root, div, 0);
    assert_eq!(
        *log.borrow(),
        vec![DocumentEvent::NodeInserted(root, div, 0), DocumentEvent::ParentChanged(div)]
    );
    assert_eq!(d.parent(div), Some(root));
    assert_eq!(d.children(root), vec![div]);

    log.borrow_mut().clear();
    d.remove_child(root, div);
    assert_eq!(
        *log.borrow(),
        vec![DocumentEvent::NodeRemoved(root, div), DocumentEvent::ParentChanged(div)]
    );
    assert_eq!(d.parent(div), None);
    assert_eq!(d.children(root), Vec::<u32>::new());
}

#[test]
fn children_keep_insertion_index() {
    let (mut d, _log) = recording();
    let root = d.root();
    let a = d.create_element("a");
    let b = d.create_element("b");
    let c = d.create_element("c");
    d.insert_child(root, a, 0);
    d.insert_child(root, b, 1);
    d.insert_child(root, c, 1);
    assert_eq!(d.children(root), vec![a, c, b]);
    d.remove_child(root, c);
    assert_eq!(d.children(root), vec![a, b]);
}

#[test]
fn attributes_and_text() {
    let (mut d, log) = recording();
    let el = d.create_element("button");
    let t = d.create_text_node("hi");
    assert!(d.is_element(el));
    assert!(!d.is_text(el));
    assert!(d.is_text(t));
    assert_eq!(d.local_name(el), "button");
    assert_eq!(d.local_name(d.root()), ":root");
    assert_eq!(d.text(t), "hi");

    log.borrow_mut().clear();
    d.set_attribute(el, "class", "btn");
    d.set_attribute(el, "id", "x");
    d.set_attribute(el, "class", "big");
    assert_eq!(d.attribute(el, "class"), Some("big"));
    assert_eq!(d.attribute(el, "id"), Some("x"));
    d.remove_attribute(el, "class");
    d.remove_attribute(el, "missing");
    assert_eq!(d.attribute(el, "class"), None);
    d.set_text(t, "bye");
    assert_eq!(d.text(t), "bye");
    assert_eq!(
        *log.borrow(),
        vec![
            DocumentEvent::AttributesChanged(el),
            DocumentEvent::AttributesChanged(el),
            DocumentEvent::AttributesChanged(el),
            DocumentEvent::AttributesChanged(el),
            DocumentEvent::AttributesChanged(el),
            DocumentEvent::TextChanged(t)
        ]
    );
}

#[test]
fn freed_slots_are_reused() {
    let (mut d, log) = recording();
    let a = d.create_element("a");
    log.borrow_mut().clear();
    d.free_node(a);
    assert_eq!(*log.borrow(), vec![DocumentEvent::NodeDestroyed(a)]);
    let b = d.create_text_node("b");
    assert_eq!(b, a);
    assert!(d.is_text(b));
}
