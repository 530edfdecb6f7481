use redscript_doc::doctype::DocumentationType;
use redscript_doc::error::Error;
use redscript_doc::type_enum::Enum;
use redscript_doc::type_enum::EnumField;
use redscript_doc::type_enum::EnumGroup;

#[test]
fn enum_paths_and_links() {
    let fields = vec![
        EnumField { name: "STATUS_INVALID", value: "0" },
        EnumField { name: "STATUS_BOUND", value: "1" },
    ];
    let e = Enum { name: "gameEActionStatus", fields: &fields };
    assert_eq!(Enum::get_root_path(), "/enum");
    assert_eq!(Enum::get_type_name(), "Enum");
    assert_eq!(Enum::get_type_name_plural(), "Enums");
    assert_eq!(Enum::get_type_icon(), ":material-format-list-bulleted:");
    assert_eq!(e.get_path(), "/enum/gameEActionStatus");
    assert_eq!(e.get_link(), "[gameEActionStatus](/enum/gameEActionStatus)");
    assert_eq!(
        Enum::get_type_link(),
        "[:material-format-list-bulleted: Enums](/enum)"
    );
}

#[test]
fn enum_group_paths_and_links() {
    let fields = vec![EnumField { name: "STATUS_READY", value: "2" }];
    let enums = vec![Enum { name: "moveMovementType", fields: &fields }];
    let g = EnumGroup { name: "All Enums", enums: &enums };
    assert_eq!(EnumGroup::get_root_path(), "/enum/group");
    assert_eq!(EnumGroup::get_type_name(), "Enum Group");
    assert_eq!(EnumGroup::get_type_name_plural(), "Enum Groups");
    assert_eq!(EnumGroup::get_type_icon(), ":material-view-list-outline:");
    // group pages hang off the single-enum root, and a group link quotes
    // its path
    assert_eq!(g.get_path(), "/enum/All Enums");
    assert_eq!(g.get_link(), "[All Enums](\"/enum/All Enums\")");
    assert_eq!(
        EnumGroup::get_type_link(),
        "[:material-view-list-outline: Enum Groups](/enum/group)"
    );
}

#[test]
fn type_name_for_quantities() {
    assert_eq!(Enum::get_type_name_for_qty(&1), "Enum");
    assert_eq!(Enum::get_type_name_for_qty(&0), "Enums");
    assert_eq!(Enum::get_type_name_for_qty(&2), "Enums");
    assert_eq!(EnumGroup::get_type_name_for_qty(&1), "Enum Group");
    assert_eq!(EnumGroup::get_type_name_for_qty(&5), "Enum Groups");
}

#[test]
fn error_conversions() {
    let io_err = std::io::Error::from(std::io::ErrorKind::NotFound);
    assert!(matches!(Error::from(io_err), Error::IoError(_)));
    assert!(matches!(Error::from(std::fmt::Error), Error::FormatError(_)));
}
