use archive_me_plz::file_handling::processor;
use archive_me_plz::filetypes::{lists_extension, Extensions};

#[test]
fn generate_set_lists_every_kind_once() {
    let set = Extensions::generate_set();
    assert_eq!(
        set,
        vec![
            Extensions::Xlsx,
            Extensions::Csv,
            Extensions::Xls,
            Extensions::Xlsm,
            Extensions::Txt,
            Extensions::Tmp,
            Extensions::Eml,
        ]
    );
}

#[test]
fn spreadsheet_generate_set_lists_four_kinds() {
    let set = processor::Extensions::generate_set();
    assert_eq!(
        set,
        vec![
            processor::Extensions::Xlsx,
            processor::Extensions::Csv,
            processor::Extensions::Xls,
            processor::Extensions::Xlsm,
        ]
    );
}

#[test]
fn from_extension_ignores_letter_case() {
    assert_eq!(Extensions::from_extension("xlsx"), Some(Extensions::Xlsx));
    assert_eq!(Extensions::from_extension("XLSX"), Some(Extensions::Xlsx));
    assert_eq!(Extensions::from_extension("CsV"), Some(Extensions::Csv));
    assert_eq!(Extensions::from_extension("XLS"), Some(Extensions::Xls));
    assert_eq!(Extensions::from_extension("Xlsm"), Some(Extensions::Xlsm));
    assert_eq!(Extensions::from_extension("TXT"), Some(Extensions::Txt));
    assert_eq!(Extensions::from_extension("tmp"), Some(Extensions::Tmp));
    assert_eq!(Extensions::from_extension("EML"), Some(Extensions::Eml));
}

#[test]
fn from_extension_refuses_other_kinds() {
    assert_eq!(Extensions::from_extension("doc"), None);
    assert_eq!(Extensions::from_extension(""), None);
    assert_eq!(Extensions::from_extension("xlsxx"), None);
    assert_eq!(Extensions::from_extension(" csv"), None);
    assert_eq!(processor::Extensions::from_extension("TXT"), None);
    assert_eq!(processor::Extensions::from_extension("XLSM"), Some(processor::Extensions::Xlsm));
}

#[test]
fn from_lowercase_name_takes_the_text_as_it_is() {
    assert_eq!(Extensions::from_lowercase_name("csv"), Some(Extensions::Csv));
    assert_eq!(Extensions::from_lowercase_name("CSV"), None);
}

#[test]
fn lists_extension_finds_members() {
    let set = vec![Extensions::Csv, Extensions::Eml];
    assert!(lists_extension(&set, Extensions::Eml));
    assert!(!lists_extension(&set, Extensions::Xlsx));
    assert!(!lists_extension(&Vec::new(), Extensions::Xlsx));
}

#[test]
fn every_kind_is_reached_by_its_name() {
    for (name, kind) in [
        ("xlsx", Extensions::Xlsx),
        ("csv", Extensions::Csv),
        ("xls", Extensions::Xls),
        ("xlsm", Extensions::Xlsm),
        ("txt", Extensions::Txt),
        ("tmp", Extensions::Tmp),
        ("eml", Extensions::Eml),
    ] {
        assert_eq!(Extensions::from_extension(name), Some(kind));
        assert_eq!(Extensions::from_extension(&name.to_uppercase()), Some(kind));
        assert!(Extensions::generate_set().contains(&kind));
    }
}
