use std::sync::{Arc, Mutex};

use cef::codec::{decode_utf16, encode_utf16};
use cef::string::{CefString, CefStringList, RawString, RawStringList, StringVisitor, StringVisitorWrapper};

#[test]
fn encode_decode_round_trip() {
    for text in ["", "hello", "héllo wörld", "日本語", "a😀b", "\u{10FFFF}\u{E000}\u{D7FF}"] {
        let s = CefString::new(text);
        assert_eq!(s.decode(), text);
    }
}

#[test]
fn encode_uses_surrogate_pairs() {
    assert_eq!(encode_utf16("A😀"), vec![0x41, 0xD83D, 0xDE00]);
    assert_eq!(encode_utf16("é"), vec![0xE9]);
    assert_eq!(encode_utf16("\u{10FFFF}"), vec![0xDBFF, 0xDFFF]);
}

#[test]
fn decode_replaces_unpaired_surrogates() {
    assert_eq!(decode_utf16(&[0xD800, 0x41]), "\u{FFFD}A");
    assert_eq!(decode_utf16(&[0x41, 0xDC00]), "A\u{FFFD}");
    assert_eq!(decode_utf16(&[0xDC00, 0xD800]), "\u{FFFD}\u{FFFD}");
    assert_eq!(decode_utf16(&[0xD83D, 0xDE00]), "😀");
    assert_eq!(decode_utf16(&[]), "");
}

#[test]
fn set_string_replaces_contents() {
    let mut s = CefString::new("first");
    s.set_string("second");
    assert_eq!(s.decode(), "second");
    assert!(s.as_ptr().has_dtor);
}

#[test]
fn move_to_leaves_source_inert() {
    let mut source = CefString::new("payload");
    let mut destination = CefString::new("old").into_raw();
    let released = source.move_to(&mut destination);
    assert_eq!(released, 1);
    assert_eq!(source.release(), 0);
    assert!(destination.has_dtor);
    assert_eq!(CefString::from_raw(destination).decode(), "payload");
}

#[test]
fn move_to_unowned_destination_releases_nothing() {
    let mut source = CefString::new("x");
    let mut destination = RawString { units: vec![0x41], has_dtor: false };
    assert_eq!(source.move_to(&mut destination), 0);
    assert_eq!(destination.units, vec![0x78]);
    let moved = CefString::from_raw(destination);
    assert_eq!(moved.release(), 1);
}

#[test]
fn release_counts_destructor_calls() {
    assert_eq!(CefString::new("a").release(), 1);
    assert_eq!(CefString::empty().release(), 0);
    let raw = CefString::new("kept").into_raw();
    assert!(raw.has_dtor);
    assert_eq!(raw.units, vec![0x6B, 0x65, 0x70, 0x74]);
}

#[test]
fn string_list_push_get_len() {
    let mut list = CefStringList::new();
    assert_eq!(list.len(), 0);
    list.push(&CefString::new("one"));
    list.push(&CefString::new("two"));
    assert_eq!(list.len(), 2);
    assert_eq!(list.get(0).unwrap().decode(), "one");
    assert_eq!(list.get(1).unwrap().decode(), "two");
    assert!(list.get(2).is_none());
    assert_eq!(list.to_strings(), vec!["one".to_string(), "two".to_string()]);
}

#[test]
fn string_list_from_and_into_raw() {
    let list = CefStringList::from_strings(&vec!["a".to_string(), "😀".to_string()]);
    let raw = list.into_raw();
    assert_eq!(raw.items, vec![vec![0x61], vec![0xD83D, 0xDE00]]);
    let back = CefStringList::from_raw(RawStringList { items: raw.items });
    assert_eq!(back.to_strings(), vec!["a".to_string(), "😀".to_string()]);
}

#[test]
fn string_list_extend_keeps_order() {
    let mut list = CefStringList::from_strings(&vec!["x".to_string()]);
    list.extend(&vec!["y".to_string(), "z".to_string()]);
    assert_eq!(list.to_strings(), vec!["x".to_string(), "y".to_string(), "z".to_string()]);
    assert_eq!(list.as_ptr().items.len(), 3);
}

struct Recorder {
    calls: Mutex<Vec<String>>,
}

impl StringVisitor for Recorder {
    fn visit(&self, string: &str) {
        self.calls.lock().unwrap().push(string.to_string());
    }
}

#[test]
fn trampoline_dispatches_one_call() {
    let recorder = Arc::new(Recorder { calls: Mutex::new(Vec::new()) });
    let mut object = StringVisitorWrapper::new(recorder.clone()).wrap(42);
    assert_eq!(object.ref_count(), 1);
    let argument = CefString::new("hello");
    object.visit(argument.as_ptr());
    assert_eq!(*recorder.calls.lock().unwrap(), vec!["hello".to_string()]);
    object.add_ref();
    assert_eq!(object.ref_count(), 2);
    assert!(!object.release());
    assert!(object.release());
}

#[test]
fn trampoline_decodes_lossily() {
    let recorder = Arc::new(Recorder { calls: Mutex::new(Vec::new()) });
    let wrapper = StringVisitorWrapper::new(recorder.clone());
    assert!(Arc::ptr_eq(wrapper.borrow(), &recorder));
    wrapper.visit(&RawString { units: vec![0x68, 0xD800], has_dtor: false });
    assert_eq!(*recorder.calls.lock().unwrap(), vec!["h\u{FFFD}".to_string()]);
}

#[test]
fn filled_in_place_then_owned() {
    let mut s = CefString::empty();
    {
        let raw = s.as_ptr_mut();
        raw.units = vec![0x6F, 0x6B];
        raw.has_dtor = true;
    }
    assert_eq!(s.decode(), "ok");
    assert_eq!(s.release(), 1);
}
