//! The capability a documentation renderer needs from an entity kind: a root
//! path segment, singular/plural display names, an icon token, and the
//! path/link builders for one entity.

use vstd::prelude::*;
use vstd::string::StrSliceExecFns;
use vstd::string::StringExecFns;

verus! {

/// The markdown text of a kind-level link: `[<icon> <plural>](<root>)`.
pub open spec fn type_link_text(icon: Seq<char>, plural: Seq<char>, root: Seq<char>) -> Seq<
    char,
> {
    "["@ + icon + " "@ + plural + "]("@ + root + ")"@
}

pub trait DocumentationType: Sized {
    /// The root path segment for this entity kind.
    spec fn spec_root_path() -> Seq<char>;

    /// The singular display name.
    spec fn spec_type_name() -> Seq<char>;

    /// The plural display name.
    spec fn spec_type_name_plural() -> Seq<char>;

    /// The icon token.
    spec fn spec_type_icon() -> Seq<char>;

    /// The path of this entity's page.
    spec fn spec_path(&self) -> Seq<char>;

    /// The markdown link to this entity's page.
    spec fn spec_link(&self) -> Seq<char>;

    fn get_root_path() -> (r: String)
        ensures
            r@ == Self::spec_root_path(),
    ;

    fn get_type_name() -> (r: String)
        ensures
            r@ == Self::spec_type_name(),
    ;

    fn get_type_name_plural() -> (r: String)
        ensures
            r@ == Self::spec_type_name_plural(),
    ;

    fn get_type_icon() -> (r: String)
        ensures
            r@ == Self::spec_type_icon(),
    ;

    fn get_path(&self) -> (r: String)
        ensures
            r@ == self.spec_path(),
    ;

    fn get_link(&self) -> (r: String)
        ensures
            r@ == self.spec_link(),
    ;

    /// The markdown link to the kind's root page, with its icon and plural
    /// name.
    fn get_type_link() -> (r: String)
        ensures
            r@ == type_link_text(
                Self::spec_type_icon(),
                Self::spec_type_name_plural(),
                Self::spec_root_path(),
            ),
    {
        let icon = Self::get_type_icon();
        let plural = Self::get_type_name_plural();
        let root = Self::get_root_path();
        let r = String::from_str("[").concat(icon.as_str()).concat(" ").concat(
            plural.as_str(),
        ).concat("](").concat(root.as_str()).concat(")");
        proof {
            assert(r@ =~= type_link_text(
                Self::spec_type_icon(),
                Self::spec_type_name_plural(),
                Self::spec_root_path(),
            ));
        }
        r
    }

    /// The display name that fits a count: singular for exactly one,
    /// plural otherwise.
    fn get_type_name_for_qty(i: &usize) -> (r: String)
        ensures
            r@ == if *i == 1 {
                Self::spec_type_name()
            } else {
                Self::spec_type_name_plural()
            },
    {
        if *i == 1 {
            Self::get_type_name()
        } else {
            Self::get_type_name_plural()
        }
    }
}

} // verus!
