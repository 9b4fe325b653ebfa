use std::sync::atomic::AtomicU8;

use wok_core::any_handle::AnyHandle;

#[derive(Debug, PartialEq, Eq)]
struct SomeStruct {
    value: i32,
}

#[test]
fn basic_reading_writing() {
    let mut handle = AnyHandle::new_any(SomeStruct { value: 12 });

    {
        let handle_one = handle.handle();
        let handle_two = handle.handle();

        assert_eq!(handle_one.get().value, 12);
        assert_eq!(handle_two.get().value, 12);
    }

    {
        let write = handle.handle_mut().expect("mut failed");
        write.0.value = 13;

        assert_eq!(write.0.value, 13);
    }

    assert_eq!(handle.reference_count(), 1);
}

struct DropCounter {
    data: AtomicU8,
}

impl Drop for DropCounter {
    fn drop(&mut self) {
        self.data.fetch_add(1, std::sync::atomic::Ordering::Release);
    }
}

#[test]
fn does_not_drop() {
    let handle = AnyHandle::new_any(DropCounter { data: 0.into() });

    let counter = handle.try_take().expect("take failed");
    assert_eq!(counter.data.load(std::sync::atomic::Ordering::Acquire), 0);
}

#[test]
fn write_is_seen_by_later_reads() {
    let mut handle = AnyHandle::new_any(SomeStruct { value: 1 });
    *handle.get_mut().unwrap() = SomeStruct { value: 5 };
    assert_eq!(handle.handle().get().value, 5);
    assert_eq!(handle.try_take(), Some(SomeStruct { value: 5 }));
}

#[test]
fn writing_and_taking_are_refused_while_a_reader_is_alive() {
    let mut handle = AnyHandle::new_any(SomeStruct { value: 3 });
    let reader = handle.handle();
    assert_eq!(handle.reference_count(), 2);
    assert!(handle.handle_mut().is_none());
    assert!(handle.get_mut().is_none());
    assert_eq!(reader.get().value, 3);
    drop(reader);
    assert_eq!(handle.reference_count(), 1);
    handle.handle_mut().expect("mut failed").0.value = 4;
    let reader = handle.handle();
    assert_eq!(handle.try_take(), None);
    assert_eq!(reader.get().value, 4);
}
