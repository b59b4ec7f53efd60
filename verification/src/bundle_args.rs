//! Arguments of the `measurement bundle` commands that name a bundle by ID
//! or by name.
use vstd::prelude::*;
use crate::text::string_from;

verus! {

/// A command argument that may be a bundle ID or a bundle name, with flags
/// that say which one it is.
pub trait IdNameIdentifier {
    /// The identifier is explicitly an ID.
    fn is_id(&self) -> bool;

    /// The identifier is explicitly a name.
    fn is_name(&self) -> bool;
}

/// Renames the bundle with the given ID or name.
pub struct Rename {
    pub identifier: String,
    pub new_bundle_name: String,
    pub is_id: bool,
    pub is_name: bool,
}

impl IdNameIdentifier for Rename {
    fn is_id(&self) -> (b: bool)
        ensures
            b == self.is_id,
    {
        self.is_id
    }

    fn is_name(&self) -> (b: bool)
        ensures
            b == self.is_name,
    {
        self.is_name
    }
}

/// Shows one bundle (by ID or name) or, without an identifier, all bundles.
pub struct Show {
    pub identifier: Option<String>,
    pub is_id: bool,
    pub is_name: bool,
}

impl IdNameIdentifier for Show {
    fn is_id(&self) -> (b: bool)
        ensures
            b == self.is_id,
    {
        self.is_id
    }

    fn is_name(&self) -> (b: bool)
        ensures
            b == self.is_name,
    {
        self.is_name
    }
}

/// Lists all machines of the bundle with the given ID or name.
pub struct ListMachines {
    pub identifier: String,
    pub is_id: bool,
    pub is_name: bool,
}

impl IdNameIdentifier for ListMachines {
    fn is_id(&self) -> (b: bool)
        ensures
            b == self.is_id,
    {
        self.is_id
    }

    fn is_name(&self) -> (b: bool)
        ensures
            b == self.is_name,
    {
        self.is_name
    }
}

/// Lists all bundles.
pub struct ListAll {}

/// How a command's identifier names a bundle: explicitly by ID, explicitly
/// by name, or to be told apart by whether it reads as a bundle ID.
pub enum IdentifierType {
    ForId,
    ForName,
    Detect,
}

/// What a bundle command selects its bundle by.
pub enum BundleSelection {
    /// The identifier, read as a bundle ID.
    ById,
    /// The identifier, taken as a bundle name.
    ByName,
    /// The identifier was declared an ID but does not read as one; the
    /// command fails with the ID's parse error.
    InvalidId,
}

/// The selection a bundle command (rename, set-state, show, list machines)
/// makes, given whether its identifier reads as a bundle ID: an explicit ID
/// must read as one, an explicit name is taken as it is, and an undeclared
/// identifier is an ID when it reads as one and a name otherwise.
pub fn bundle_selection(kind: &IdentifierType, reads_as_id: bool) -> (r: BundleSelection)
    ensures
        kind is ForId && reads_as_id ==> r is ById,
        kind is ForId && !reads_as_id ==> r is InvalidId,
        kind is ForName ==> r is ByName,
        kind is Detect && reads_as_id ==> r is ById,
        kind is Detect && !reads_as_id ==> r is ByName,
{
    match kind {
        IdentifierType::ForId => if reads_as_id {
            BundleSelection::ById
        } else {
            BundleSelection::InvalidId
        },
        IdentifierType::ForName => BundleSelection::ByName,
        IdentifierType::Detect => if reads_as_id {
            BundleSelection::ById
        } else {
            BundleSelection::ByName
        },
    }
}

/// The identifier a `show` command names its bundle by; the command fails
/// with "identifier expected to be set here" when none was given.
pub fn show_identifier(show: Show) -> (r: Result<String, String>)
    ensures
        show.identifier matches Some(i) ==> r == Ok::<String, String>(i),
        show.identifier is None ==> (r matches Err(m) && m@ == "identifier expected to be set here"@),
{
    match show.identifier {
        Some(i) => Ok(i),
        None => Err(string_from("identifier expected to be set here")),
    }
}

} // verus!
