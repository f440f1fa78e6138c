use openapiv3_resolve::{Resolved, ResolvedRefOr, Shared};
use std::sync::Arc;

#[test]
fn a_new_handle_holds_its_value() {
    let handle = Resolved::new(41_u32);
    assert!(handle.is_set());
    assert_eq!(handle.try_get(), Some(&41));
    assert_eq!(*handle, 41);
    assert_eq!(handle.as_ref(), &41);
}

#[test]
fn a_clone_shares_the_allocation() {
    let handle = Resolved::new(String::from("Pet"));
    let copy = handle.clone();
    assert!(Resolved::ptr_eq(&handle, &copy));
    let other = Resolved::new(String::from("Pet"));
    assert!(!Resolved::ptr_eq(&handle, &other));
}

#[test]
fn a_weak_handle_upgrades_while_a_strong_one_lives() {
    let handle = Resolved::new(7_u8);
    let weak = handle.downgrade();
    let strong = weak.upgrade().expect("weak upgrades while the value is alive");
    assert!(Resolved::ptr_eq(&handle, &strong));
    drop(strong);
    drop(handle);
    assert!(weak.upgrade().is_none(), "weak fails to upgrade after the value is dropped");
}

#[test]
fn a_ref_or_tells_items_from_references() {
    let handle = Resolved::new(3_i64);
    let item = ResolvedRefOr::Item(handle.clone());
    let reference = ResolvedRefOr::Reference(handle.downgrade());
    assert!(item.is_item() && !item.is_reference());
    assert!(reference.is_reference() && !reference.is_item());
    assert_eq!(*item.get().expect("an item is always there"), 3);
    assert!(Resolved::ptr_eq(&reference.get().expect("target alive"), &handle));
    assert_eq!(*item.clone().get().unwrap(), 3);
    drop(handle);
    drop(item);
    assert!(reference.get().is_none());
}

#[test]
fn a_shared_item_dereferences_to_the_item_it_was_made_from() {
    let arc = Arc::new(String::from("Pet"));
    let shared = Shared::new(Arc::clone(&arc));
    assert_eq!(&*shared, "Pet");
    assert!(std::ptr::eq(&*shared, Arc::as_ptr(&arc)));
    assert_eq!(shared, Shared::new(Arc::new(String::from("Pet"))));
    assert_ne!(shared, Shared::new(Arc::new(String::from("Owner"))));
}

#[test]
fn an_upgraded_reference_holds_the_downgraded_value() {
    let handle = Resolved::new(String::from("Pet"));
    let reference = ResolvedRefOr::Reference(handle.downgrade());
    assert_eq!(reference.get().expect("target alive").as_str(), "Pet");
    assert_eq!(reference.clone().get().expect("target alive").as_str(), "Pet");
}
