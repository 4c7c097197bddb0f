use topal::location::FileLine;
use topal::object_storage::{Handle, Storage};

#[test]
fn test_retrieve() {
    let mut storage = Storage::new();
    let item = "Testing string".to_string();
    let dummy = "Ignore this".to_string();

    let handle1 = storage.get_handle(&item);
    let _handle = storage.get_handle(&dummy);
    let handle2 = storage.get_handle(&item);

    assert_eq!(handle1, handle2);
}

#[test]
fn storage_get() {
    let mut storage = Storage::new();
    let h42 = storage.get_handle(&42i32);
    let h7 = storage.get_handle(&7i32);
    assert_ne!(h42, h7);
    assert_eq!(storage.get(h42), Some(&42));
    assert_eq!(storage.get(h7), Some(&7));
    assert_eq!(usize::from(h42), 0);
    assert_eq!(usize::from(h7), 1);
    assert_eq!(storage.get_handle(&7i32), h7);
}

#[test]
fn storage_get_unknown_handle() {
    let mut big = Storage::new();
    let far = {
        big.get_handle(&1u8);
        big.get_handle(&2u8)
    };
    let small: Storage<u8> = Storage::new();
    let none: Option<&u8> = small.get(far);
    assert_eq!(none, None);
    let h: Handle = big.get_handle(&1u8);
    assert_eq!(big.get(h), Some(&1u8));
}

#[test]
fn file_line_text() {
    let fl = FileLine::new("src/main.rs", 12);
    assert_eq!(fl.to_text(), "src/main.rs: 12");
    assert_eq!(fl.file(), "src/main.rs");
    assert_eq!(fl.line(), 12);
}

#[test]
fn new_item_goes_at_the_end() {
    let mut storage = Storage::new();
    let a = storage.get_handle(&"a".to_string());
    let b = storage.get_handle(&"b".to_string());
    let c = storage.get_handle(&"c".to_string());
    assert_eq!((usize::from(a), usize::from(b), usize::from(c)), (0, 1, 2));
    assert_eq!(storage.get(a), Some(&"a".to_string()));
    assert_eq!(storage.get(b), Some(&"b".to_string()));
    assert_eq!(storage.get_handle(&"b".to_string()), b);
}
