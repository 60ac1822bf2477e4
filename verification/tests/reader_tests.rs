//! Classification of paths and archive entries by extension.
use mojxml::reader::{classify_entry_name, PathKind};

#[test]
fn test_classify_xml_and_zip() {
    assert_eq!(classify_entry_name("46505-3411-56.xml"), PathKind::Xml);
    assert_eq!(classify_entry_name("46505-3411-1.zip"), PathKind::Zip);
}

#[test]
fn test_classify_is_case_insensitive() {
    assert_eq!(classify_entry_name("UPPER.XML"), PathKind::Xml);
    assert_eq!(classify_entry_name("Mixed.Zip"), PathKind::Zip);
    assert_eq!(classify_entry_name("other.XmL"), PathKind::Xml);
}

#[test]
fn test_classify_nested_entry_names() {
    assert_eq!(classify_entry_name("outer/inner/file.xml"), PathKind::Xml);
    assert_eq!(classify_entry_name("a/b.zip"), PathKind::Zip);
}

#[test]
fn test_classify_ignores_other_files() {
    assert_eq!(classify_entry_name("README.md"), PathKind::Other);
    assert_eq!(classify_entry_name("Cargo.toml"), PathKind::Other);
    assert_eq!(classify_entry_name("non_existent_file.foo"), PathKind::Other);
    assert_eq!(classify_entry_name("noextension"), PathKind::Other);
    assert_eq!(classify_entry_name(""), PathKind::Other);
}

#[test]
fn test_classify_hidden_and_dotted_names() {
    // A name whose only dot is its first character has no extension.
    assert_eq!(classify_entry_name(".xml"), PathKind::Other);
    assert_eq!(classify_entry_name("dir/.zip"), PathKind::Other);
    assert_eq!(classify_entry_name("archive.tar.zip"), PathKind::Zip);
}
