use vstd::prelude::*;
use vstd::string::StringExecFns;

use crate::text::str_eq;

verus! {

/// Directory that holds the pages.
pub const FOLDER: &'static str = "pages";
pub const AVIONS: &'static str = "/planes";
pub const FLAG: &'static str = "/flag.txt";
pub const WELCOME: &'static str = "/";
pub const GEN_ALEA: &'static str = "/randomgenerator.rs";
pub const USELESS: &'static str = "/uselessfile_lol.html";
pub const LOGS: &'static str = "/logs.txt";

/// The pages that can be asked for by name.
pub const LIST: [&'static str; 6] = [AVIONS, FLAG, WELCOME, GEN_ALEA, USELESS, LOGS];

/// The names of the pages, as character sequences.
pub open spec fn list_view() -> Seq<Seq<char>> {
    seq![AVIONS@, FLAG@, WELCOME@, GEN_ALEA@, USELESS@, LOGS@]
}

/// Whether `name` is one of the names in `LIST`.
pub open spec fn in_list(name: Seq<char>) -> bool {
    list_view().contains(name)
}

/// Whether `get` knows the page `name`: it is listed, or it is the welcome page.
pub open spec fn is_known(name: Seq<char>) -> bool {
    in_list(name) || name == crate::const_::ACCUEIL@
}

/// Where the page `name` is stored.
pub open spec fn page_path(name: Seq<char>) -> Seq<char> {
    FOLDER@ + name
}

/// Builds `std::io::Error::new(std::io::ErrorKind::NotFound, "")`.
/// Nothing is stated of the error that comes back.
#[verifier::external_body]
fn not_found() -> std::io::Error {
    std::io::Error::new(std::io::ErrorKind::NotFound, "")
}

/// Whether `filename` is one of the names in `LIST`.
pub fn list_contains(filename: &str) -> (r: bool)
    ensures
        r == in_list(filename@),
{
    let mut i: usize = 0;
    while i < 6
        invariant
            i <= 6,
            forall|j: int| 0 <= j < i ==> list_view()[j] != filename@,
        decreases 6 - i,
    {
        if str_eq(LIST[i], filename) {
            assert(list_view()[i as int] == filename@);
            return true;
        }
        i = i + 1;
    }
    false
}

/// The path of the page `filename`, when it is a page that the site serves.
pub fn get(filename: &str) -> (r: std::io::Result<String>)
    ensures
        r is Ok <==> is_known(filename@),
        r matches Ok(path) ==> path@ == page_path(filename@),
{
    if !list_contains(filename) && !str_eq(filename, crate::const_::ACCUEIL) {
        return Err(not_found());
    }
    let mut path = String::from_str(FOLDER);
    path.append(filename);
    Ok(path)
}

} // verus!
