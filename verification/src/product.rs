//! Product name normalization.
//!
//! A raw installation directory name is usually `<Product><Version>`.
//! Matching it against a fixed, ordered table of known product-family
//! prefixes yields the canonical display name and the lower-case short code
//! used as the vmoptions file prefix. A name matching no known prefix keeps
//! its own text for both, unchanged.

use vstd::prelude::*;
use vstd::string::*;
use crate::chars::{has_prefix, str_has_prefix};

verus! {

/// The canonical `(display name, short code)` pair for a raw directory
/// name: first prefix match in the fixed product table wins, and an
/// unmatched name maps to itself, case untouched.
pub open spec fn product_identity(name: Seq<char>) -> (Seq<char>, Seq<char>) {
    if has_prefix(name, "IntelliJIdea"@) {
        ("IntelliJ IDEA"@, "idea"@)
    } else if has_prefix(name, "WebStorm"@) {
        ("WebStorm"@, "webstorm"@)
    } else if has_prefix(name, "RustRover"@) {
        ("RustRover"@, "rustrover"@)
    } else if has_prefix(name, "CLion"@) {
        ("CLion"@, "clion"@)
    } else if has_prefix(name, "PyCharm"@) {
        ("PyCharm"@, "pycharm"@)
    } else if has_prefix(name, "GoLand"@) {
        ("GoLand"@, "goland"@)
    } else if has_prefix(name, "PhpStorm"@) {
        ("PhpStorm"@, "phpstorm"@)
    } else if has_prefix(name, "Rider"@) {
        ("Rider"@, "rider"@)
    } else if has_prefix(name, "DataGrip"@) {
        ("DataGrip"@, "datagrip"@)
    } else {
        (name, name)
    }
}

/// A name matching no known product prefix maps to itself: both the
/// display name and the short code are the input unchanged, case and all.
pub proof fn lemma_product_identity_fallback(name: Seq<char>)
    requires
        !has_prefix(name, "IntelliJIdea"@),
        !has_prefix(name, "WebStorm"@),
        !has_prefix(name, "RustRover"@),
        !has_prefix(name, "CLion"@),
        !has_prefix(name, "PyCharm"@),
        !has_prefix(name, "GoLand"@),
        !has_prefix(name, "PhpStorm"@),
        !has_prefix(name, "Rider"@),
        !has_prefix(name, "DataGrip"@),
    ensures
        product_identity(name) == (name, name),
{
}

/// The display name and vmoptions short code for the raw directory name
/// `dir_name`, by first prefix match in the product table.
pub fn get_product_info(dir_name: &str) -> (r: (String, String))
    ensures
        r.0@ == product_identity(dir_name@).0,
        r.1@ == product_identity(dir_name@).1,
{
    if str_has_prefix(dir_name, "IntelliJIdea") {
        (String::from_str("IntelliJ IDEA"), String::from_str("idea"))
    } else if str_has_prefix(dir_name, "WebStorm") {
        (String::from_str("WebStorm"), String::from_str("webstorm"))
    } else if str_has_prefix(dir_name, "RustRover") {
        (String::from_str("RustRover"), String::from_str("rustrover"))
    } else if str_has_prefix(dir_name, "CLion") {
        (String::from_str("CLion"), String::from_str("clion"))
    } else if str_has_prefix(dir_name, "PyCharm") {
        (String::from_str("PyCharm"), String::from_str("pycharm"))
    } else if str_has_prefix(dir_name, "GoLand") {
        (String::from_str("GoLand"), String::from_str("goland"))
    } else if str_has_prefix(dir_name, "PhpStorm") {
        (String::from_str("PhpStorm"), String::from_str("phpstorm"))
    } else if str_has_prefix(dir_name, "Rider") {
        (String::from_str("Rider"), String::from_str("rider"))
    } else if str_has_prefix(dir_name, "DataGrip") {
        (String::from_str("DataGrip"), String::from_str("datagrip"))
    } else {
        (String::from_str(dir_name), String::from_str(dir_name))
    }
}

} // verus!
