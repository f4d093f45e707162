//! The routing and guard rules of the catalog manager.
//!
//! The manager resolves a catalog name to the built-in default catalog, to
//! an external catalog from the configuration, or to the metadata service,
//! in that order of precedence. Creating or dropping is refused for the
//! default catalog and for configured external catalogs. The calls into the
//! metadata service themselves are made while plans are built, outside this
//! library; the decisions are what is verified here.

use vstd::prelude::*;

verus! {

/// An error of the catalog rules.
#[derive(Debug)]
pub enum CatalogError {
    /// The request names a catalog the rules refuse.
    BadArguments { message: String },
}

impl CatalogError {
    /// A short description of the error.
    pub fn describe(&self) -> (r: String)
        ensures
            self matches CatalogError::BadArguments { message } ==> r@ == message@,
    {
        match self {
            CatalogError::BadArguments { message } => message.clone(),
        }
    }
}

/// Where a catalog name resolves to.
#[derive(Debug, Clone, Copy, PartialEq, Eq, Structural)]
pub enum CatalogSource {
    /// The built-in default catalog.
    Default,
    /// The external catalog at this position of the configuration.
    External { index: usize },
    /// The metadata service.
    FromMeta,
}

/// Whether a name is the default catalog's.
pub open spec fn spec_is_default(name: Seq<char>) -> bool {
    name == "default"@
}

/// Whether some configured external catalog carries this name.
pub open spec fn spec_is_external(name: Seq<char>, externals: Seq<String>) -> bool {
    exists|i: int| 0 <= i < externals.len() && (#[trigger] externals[i])@ == name
}

/// Resolves a catalog name: the default catalog first, then the external
/// catalogs of the configuration (first match wins), then the metadata
/// service.
pub fn route_catalog(name: &String, externals: &Vec<String>) -> (r: CatalogSource)
    ensures
        spec_is_default(name@) ==> r is Default,
        !spec_is_default(name@) && spec_is_external(name@, externals@) ==> (r matches
            CatalogSource::External { index } && index < externals@.len() && externals@[
            index as int
        ]@ == name@),
        !spec_is_default(name@) && !spec_is_external(name@, externals@) ==> r is FromMeta,
{
    let default_name = String::from_str("default");
    if name.eq(&default_name) {
        return CatalogSource::Default;
    }
    let n = externals.len();
    let mut i: usize = 0;
    while i < n
        invariant
            i <= n,
            n == externals@.len(),
            !spec_is_default(name@),
            forall|j: int| 0 <= j < i ==> (#[trigger] externals@[j])@ != name@,
        decreases n - i,
    {
        if externals[i].eq(name) {
            return CatalogSource::External { index: i };
        }
        i = i + 1;
    }
    proof {
        if spec_is_external(name@, externals@) {
            let w = choose|j: int|
                0 <= j < externals@.len() && (#[trigger] externals@[j])@ == name@;
            assert(externals@[w]@ != name@);
        }
    }
    CatalogSource::FromMeta
}

/// Whether a catalog of this name may be created: not the default catalog,
/// and not one of the configured external catalogs.
pub fn check_create_catalog(name: &String, externals: &Vec<String>) -> (r: Result<
    (),
    CatalogError,
>)
    ensures
        r is Ok <==> !spec_is_default(name@) && !spec_is_external(name@, externals@),
{
    match route_catalog(name, externals) {
        CatalogSource::Default => Err(CatalogError::BadArguments {
            message: String::from_str("default catalog cannot be created"),
        }),
        CatalogSource::External { .. } => Err(CatalogError::BadArguments {
            message: String::from_str("catalog already exists that cannot be created"),
        }),
        CatalogSource::FromMeta => Ok(()),
    }
}

/// Whether a catalog of this name may be dropped: the same rule as for
/// creation.
pub fn check_drop_catalog(name: &String, externals: &Vec<String>) -> (r: Result<(), CatalogError>)
    ensures
        r is Ok <==> !spec_is_default(name@) && !spec_is_external(name@, externals@),
{
    match route_catalog(name, externals) {
        CatalogSource::Default => Err(CatalogError::BadArguments {
            message: String::from_str("default catalog cannot be dropped"),
        }),
        CatalogSource::External { .. } => Err(CatalogError::BadArguments {
            message: String::from_str("catalog already exists that cannot be dropped"),
        }),
        CatalogSource::FromMeta => Ok(()),
    }
}


/// Plans the external catalogs of a configuration: one catalog per
/// configured entry, all of them served by the Hive creator. Fails exactly
/// when entries are configured and no Hive creator is registered.
pub fn plan_external_catalogs(configured: Vec<String>, has_hive_creator: bool) -> (r: Result<
    Vec<String>,
    CatalogError,
>)
    ensures
        r is Ok <==> (configured@.len() == 0 || has_hive_creator),
        r matches Ok(v) ==> v@ == configured@,
        r matches Err(e) ==> e is BadArguments,
{
    if configured.len() > 0 && !has_hive_creator {
        return Err(CatalogError::BadArguments {
            message: String::from_str("unknown catalog type"),
        });
    }
    Ok(configured)
}
} // verus!
