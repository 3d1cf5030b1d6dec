//! The catalog service: one high-level command per invocation.
//!
//! A command line is first parsed into a command; applying the command
//! validates its inputs, checks that referenced menus exist, and performs
//! at most one insert. A failed command leaves the catalog unchanged.

use vstd::prelude::*;
use crate::codec::encoded;
use crate::entry::ValidationError;
use crate::entry::build_entry;
use crate::entry::split_char;
use crate::store::StoreError;
use crate::store::create_entry;
use crate::store::create_menu;
use crate::store::entry_rows;
use crate::store::menu_parent;
use crate::store::menu_rows;
use crate::url::valid_url;

verus! {

/// A single catalog command, as the caller hands it over.
#[derive(Debug, PartialEq, Eq)]
pub enum Command {
    /// Create a menu, at the root or under a parent menu.
    AddMenu { name: String, parent: Option<String> },
    /// Validate a raw URL and store it as an entry of a menu.
    AddEntry { url: String, name: String, menu: String },
    /// Export the catalog to a file at the given path.
    Export { target: String },
}

/// Why a command line is rejected before any work is done.
#[derive(Clone, Copy, Debug, PartialEq, Eq, Structural)]
pub enum UsageError {
    /// Fewer arguments than any command needs.
    TooFewArguments,
    /// A known option with the wrong number of arguments.
    WrongArgumentCount,
    /// An option that is none of `-m`, `-e` and `-x`.
    UnknownOption,
}

/// What a completed command reports.
#[derive(Clone, Copy, Debug, PartialEq, Eq, Structural)]
pub enum Outcome {
    /// The insert was performed.
    Done,
    /// Exporting is not implemented; the catalog was not touched.
    ExportNotImplemented,
}

/// Why an accepted command line still fails.
#[derive(Clone, Copy, Debug, PartialEq, Eq, Structural)]
pub enum CatalogError {
    /// An input was rejected before the store was touched.
    Validation(ValidationError),
    /// The store refused the operation.
    Store(StoreError),
}

/// A parse result that is the given usage error.
pub open spec fn usage_err(e: UsageError) -> Result<Command, UsageError> {
    Err(e)
}

/// A command result that is the given outcome.
pub open spec fn cat_ok(o: Outcome) -> Result<Outcome, CatalogError> {
    Ok(o)
}

/// A command result that is the given error.
pub open spec fn cat_err(e: CatalogError) -> Result<Outcome, CatalogError> {
    Err(e)
}

/// Every recorded parent link among the menu rows points at a menu that
/// exists.
pub open spec fn parent_links_resolve(m: Map<Seq<char>, Option<Seq<char>>>) -> bool {
    forall|k: Seq<char>|
        #[trigger] m.contains_key(k) ==> (m[k] matches Some(p) ==> m.contains_key(p))
}

/// Creating a menu the way `apply_command` admits it keeps every parent
/// link resolvable: the menu is new, and its parent, when it names one, is
/// a menu that already exists.
pub proof fn lemma_parent_links_preserved(
    m: Map<Seq<char>, Option<Seq<char>>>,
    name: Seq<char>,
    parent: Option<Seq<char>>,
)
    requires
        parent_links_resolve(m),
        !m.contains_key(name),
        parent matches Some(p) ==> m.contains_key(p),
    ensures
        parent_links_resolve(m.insert(name, parent)),
{
    let grown = m.insert(name, parent);
    assert forall|k: Seq<char>| #[trigger] grown.contains_key(k) implies (grown[k] matches Some(p)
        ==> grown.contains_key(p)) by {
        if k != name {
            assert(m.contains_key(k));
        }
    }
}

/// Turns an argument list, program name first, into a command: `-m` takes
/// a menu name and optionally a parent name, `-e` takes a URL, a display
/// name and a menu name, `-x` takes a target path. Anything shorter than
/// an option with one argument, an unknown option, or a wrong argument
/// count is a usage error.
pub fn parse_command(args: &Vec<String>) -> (r: Result<Command, UsageError>)
    ensures
        r == usage_err(UsageError::TooFewArguments) <==> args.deep_view().len() < 3,
        r == usage_err(UsageError::UnknownOption) <==> (args.deep_view().len() >= 3
            && args.deep_view()[1] != "-m"@ && args.deep_view()[1] != "-e"@ && args.deep_view()[1]
            != "-x"@),
        r == usage_err(UsageError::WrongArgumentCount) <==> (args.deep_view().len() >= 3 && ((
        args.deep_view()[1] == "-m"@ && args.deep_view().len() > 4) || (args.deep_view()[1] == "-e"@
            && args.deep_view().len() != 5) || (args.deep_view()[1] == "-x"@
            && args.deep_view().len() != 3))),
        args.deep_view().len() == 3 && args.deep_view()[1] == "-m"@ ==> (r matches Ok(
            Command::AddMenu { name, parent },
        ) && name@ == args.deep_view()[2] && parent is None),
        args.deep_view().len() == 4 && args.deep_view()[1] == "-m"@ ==> (r matches Ok(
            Command::AddMenu { name, parent },
        ) && name@ == args.deep_view()[2] && (parent matches Some(p) && p@
            == args.deep_view()[3])),
        args.deep_view().len() == 5 && args.deep_view()[1] == "-e"@ ==> (r matches Ok(
            Command::AddEntry { url, name, menu },
        ) && url@ == args.deep_view()[2] && name@ == args.deep_view()[3] && menu@
            == args.deep_view()[4]),
        args.deep_view().len() == 3 && args.deep_view()[1] == "-x"@ ==> (r matches Ok(
            Command::Export { target },
        ) && target@ == args.deep_view()[2]),
{
    proof {
        reveal_strlit("-m");
        reveal_strlit("-e");
        reveal_strlit("-x");
        assert("-m"@ != "-e"@) by {
            assert("-m"@[1] == 'm' && "-e"@[1] == 'e');
        }
        assert("-m"@ != "-x"@) by {
            assert("-m"@[1] == 'm' && "-x"@[1] == 'x');
        }
        assert("-e"@ != "-x"@) by {
            assert("-e"@[1] == 'e' && "-x"@[1] == 'x');
        }
    }
    let n = args.len();
    if n < 3 {
        return Err(UsageError::TooFewArguments);
    }
    let flag = &args[1];
    if flag.eq(&"-m".to_owned()) {
        if n == 3 {
            return Ok(Command::AddMenu { name: args[2].clone(), parent: None });
        }
        if n == 4 {
            return Ok(
                Command::AddMenu { name: args[2].clone(), parent: Some(args[3].clone()) },
            );
        }
        return Err(UsageError::WrongArgumentCount);
    }
    if flag.eq(&"-e".to_owned()) {
        if n == 5 {
            return Ok(
                Command::AddEntry {
                    url: args[2].clone(),
                    name: args[3].clone(),
                    menu: args[4].clone(),
                },
            );
        }
        return Err(UsageError::WrongArgumentCount);
    }
    if flag.eq(&"-x".to_owned()) {
        if n == 3 {
            return Ok(Command::Export { target: args[2].clone() });
        }
        return Err(UsageError::WrongArgumentCount);
    }
    Err(UsageError::UnknownOption)
}

/// Applies one command to the catalog.
///
/// A menu is created only when it is new, when a named parent exists, and
/// when it would not be its own parent. An entry is created only from a
/// raw URL of URL shape, under a menu that exists, and under a stored URL
/// that is new; its row holds the escaped URL and name and the derived
/// host label. Export reports that it is not implemented. Every failure
/// leaves the catalog exactly as it was.
pub fn apply_command(conn: &mut rusqlite::Connection, cmd: &Command) -> (r: Result<
    Outcome,
    CatalogError,
>)
    ensures
        r is Err ==> menu_rows(*final(conn)) == menu_rows(*old(conn)) && entry_rows(*final(conn))
            == entry_rows(*old(conn)),
        cmd matches Command::AddMenu { name, parent } ==> {
            &&& entry_rows(*final(conn)) == entry_rows(*old(conn))
            &&& (r == cat_err(CatalogError::Validation(ValidationError::CyclicParent)) <==> (
            parent matches Some(p) && p@ == name@))
            &&& r == cat_err(CatalogError::Validation(ValidationError::UnknownMenu)) ==> (
            parent matches Some(p) && !menu_rows(*old(conn)).contains_key(p@))
            &&& r == cat_err(CatalogError::Store(StoreError::DuplicateKey)) ==> menu_rows(
                *old(conn),
            ).contains_key(name@)
            &&& r is Ok ==> {
                &&& r == cat_ok(Outcome::Done)
                &&& !menu_rows(*old(conn)).contains_key(name@)
                &&& (parent matches Some(p) ==> menu_rows(*old(conn)).contains_key(p@) && p@
                    != name@)
                &&& menu_rows(*final(conn)) == menu_rows(*old(conn)).insert(
                    name@,
                    match parent {
                        None => None,
                        Some(p) => Some(p@),
                    },
                )
            }
        },
        cmd matches Command::AddEntry { url, name, menu } ==> {
            &&& menu_rows(*final(conn)) == menu_rows(*old(conn))
            &&& (r == cat_err(CatalogError::Validation(ValidationError::MalformedUrl)) <==>
            !valid_url(url@))
            &&& (r == cat_err(CatalogError::Validation(ValidationError::UnparsableHost)) <==> (
            valid_url(url@) && split_char(url@, '/').len() < 3))
            &&& r == cat_err(CatalogError::Validation(ValidationError::UnknownMenu)) ==> (
            valid_url(url@) && !menu_rows(*old(conn)).contains_key(menu@))
            &&& r == cat_err(CatalogError::Store(StoreError::DuplicateKey)) ==> entry_rows(
                *old(conn),
            ).contains_key(encoded(url@))
            &&& r is Ok ==> {
                &&& r == cat_ok(Outcome::Done)
                &&& valid_url(url@)
                &&& menu_rows(*old(conn)).contains_key(menu@)
                &&& !entry_rows(*old(conn)).contains_key(encoded(url@))
                &&& entry_rows(*final(conn)) == entry_rows(*old(conn)).insert(
                    encoded(url@),
                    (encoded(name@), split_char(url@, '/')[2], menu@),
                )
            }
        },
        cmd matches Command::Export { .. } ==> {
            &&& r == cat_ok(Outcome::ExportNotImplemented)
            &&& menu_rows(*final(conn)) == menu_rows(*old(conn))
            &&& entry_rows(*final(conn)) == entry_rows(*old(conn))
        },
{
    match cmd {
        Command::AddMenu { name, parent } => {
            match parent {
                Some(p) => {
                    if p.eq(name) {
                        return Err(CatalogError::Validation(ValidationError::CyclicParent));
                    }
                    match menu_parent(conn, p) {
                        Err(e) => {
                            return Err(CatalogError::Store(e));
                        },
                        Ok(None) => {
                            return Err(CatalogError::Validation(ValidationError::UnknownMenu));
                        },
                        Ok(Some(_)) => {},
                    }
                    match create_menu(conn, name, Some(p)) {
                        Ok(_) => Ok(Outcome::Done),
                        Err(e) => Err(CatalogError::Store(e)),
                    }
                },
                None => {
                    match create_menu(conn, name, None) {
                        Ok(_) => Ok(Outcome::Done),
                        Err(e) => Err(CatalogError::Store(e)),
                    }
                },
            }
        },
        Command::AddEntry { url, name, menu } => {
            let ent = match build_entry(url.as_str(), name.as_str(), menu.as_str()) {
                Err(v) => {
                    return Err(CatalogError::Validation(v));
                },
                Ok(ent) => ent,
            };
            match menu_parent(conn, menu) {
                Err(e) => {
                    return Err(CatalogError::Store(e));
                },
                Ok(None) => {
                    return Err(CatalogError::Validation(ValidationError::UnknownMenu));
                },
                Ok(Some(_)) => {},
            }
            match create_entry(conn, &ent) {
                Ok(_) => Ok(Outcome::Done),
                Err(e) => Err(CatalogError::Store(e)),
            }
        },
        Command::Export { .. } => Ok(Outcome::ExportNotImplemented),
    }
}

} // verus!
