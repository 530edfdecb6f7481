//! The enum entities handed to the documentation renderer, with their
//! path and link builders.

use vstd::prelude::*;
use vstd::string::StrSliceExecFns;
use vstd::string::StringExecFns;

use crate::doctype::DocumentationType;

verus! {

/// One value of an enum, as the renderer sees it.
#[derive(Debug, Clone, Copy)]
pub struct EnumField<'a> {
    pub name: &'a str,
    pub value: &'a str,
}

/// One enum with its values.
#[derive(Debug, Clone, Copy)]
pub struct Enum<'a> {
    pub name: &'a str,
    pub fields: &'a Vec<EnumField<'a>>,
}

/// A named group of enums.
#[derive(Debug, Clone, Copy)]
pub struct EnumGroup<'a> {
    pub name: &'a str,
    pub enums: &'a Vec<Enum<'a>>,
}

impl<'a> DocumentationType for Enum<'a> {
    open spec fn spec_root_path() -> Seq<char> {
        "/enum"@
    }

    open spec fn spec_type_name() -> Seq<char> {
        "Enum"@
    }

    open spec fn spec_type_name_plural() -> Seq<char> {
        "Enums"@
    }

    open spec fn spec_type_icon() -> Seq<char> {
        ":material-format-list-bulleted:"@
    }

    open spec fn spec_path(&self) -> Seq<char> {
        "/enum"@ + "/"@ + self.name@
    }

    open spec fn spec_link(&self) -> Seq<char> {
        "["@ + self.name@ + "]("@ + self.spec_path() + ")"@
    }

    fn get_root_path() -> (r: String) {
        String::from_str("/enum")
    }

    fn get_type_name() -> (r: String) {
        String::from_str("Enum")
    }

    fn get_type_name_plural() -> (r: String) {
        String::from_str("Enums")
    }

    fn get_type_icon() -> (r: String) {
        String::from_str(":material-format-list-bulleted:")
    }

    fn get_path(&self) -> (r: String) {
        let r = Self::get_root_path().concat("/").concat(self.name);
        proof {
            assert(r@ =~= self.spec_path());
        }
        r
    }

    fn get_link(&self) -> (r: String) {
        let path = self.get_path();
        let r = String::from_str("[").concat(self.name).concat("](").concat(
            path.as_str(),
        ).concat(")");
        proof {
            assert(r@ =~= self.spec_link());
        }
        r
    }
}

impl<'a> DocumentationType for EnumGroup<'a> {
    open spec fn spec_root_path() -> Seq<char> {
        "/enum/group"@
    }

    open spec fn spec_type_name() -> Seq<char> {
        "Enum Group"@
    }

    open spec fn spec_type_name_plural() -> Seq<char> {
        "Enum Groups"@
    }

    open spec fn spec_type_icon() -> Seq<char> {
        ":material-view-list-outline:"@
    }

    /// The page path of a group: built from the single-enum root, as the
    /// renderer has always laid group pages out.
    open spec fn spec_path(&self) -> Seq<char> {
        "/enum"@ + "/"@ + self.name@
    }

    /// A group link quotes its path, so the target appears as a string:
    /// `[<name>]("<path>")`.
    open spec fn spec_link(&self) -> Seq<char> {
        "["@ + self.name@ + "](\""@ + self.spec_path() + "\")"@
    }

    fn get_root_path() -> (r: String) {
        String::from_str("/enum/group")
    }

    fn get_type_name() -> (r: String) {
        String::from_str("Enum Group")
    }

    fn get_type_name_plural() -> (r: String) {
        String::from_str("Enum Groups")
    }

    fn get_type_icon() -> (r: String) {
        String::from_str(":material-view-list-outline:")
    }

    fn get_path(&self) -> (r: String) {
        let r = String::from_str("/enum").concat("/").concat(self.name);
        proof {
            assert(r@ =~= self.spec_path());
        }
        r
    }

    fn get_link(&self) -> (r: String) {
        let path = self.get_path();
        let r = String::from_str("[").concat(self.name).concat("](\"").concat(
            path.as_str(),
        ).concat("\")");
        proof {
            assert(r@ =~= self.spec_link());
        }
        r
    }
}

} // verus!
