use zarchive::pack::{pack_prep, PackPrep};
use zarchive::path::{child_of, join_with};
use zarchive::ZArchiveError;

#[test]
fn child_paths() {
    assert_eq!(child_of("", "content"), "content");
    assert_eq!(child_of("content", "Pack"), "content/Pack");
    assert_eq!(child_of("content/Pack", "Bootup.pack"), "content/Pack/Bootup.pack");
}

#[test]
fn joined_paths() {
    assert_eq!(join_with(&[], "a"), "a");
    assert_eq!(join_with(&["x".to_string()], "a"), "x/a");
    assert_eq!(join_with(&["x".to_string(), "y".to_string()], "a"), "x/y/a");
}

#[test]
fn pack_preparation() {
    assert!(matches!(pack_prep(false, false, false, true), Err(ZArchiveError::MissingPackInput)));
    assert!(matches!(pack_prep(true, false, true, true), Err(ZArchiveError::MissingPackInput)));
    assert_eq!(pack_prep(true, true, true, true).unwrap(), PackPrep::RemoveExisting);
    assert_eq!(pack_prep(true, true, true, false).unwrap(), PackPrep::RemoveExisting);
    assert_eq!(pack_prep(true, true, false, false).unwrap(), PackPrep::CreateParent);
    assert_eq!(pack_prep(true, true, false, true).unwrap(), PackPrep::Ready);
}
