//! The application record: the structured representation of one package.

use vstd::prelude::*;

verus! {

/// Metadata for one installed or discoverable application package.
///
/// A field holding the empty string means "not yet hydrated"; the sentinel
/// `"?"` marks a value known to be absent after hydration.
#[derive(Debug, Clone)]
pub struct FlatpakApp {
    /// extended app id in the format `id/arch/branch`
    pub extid: String,
    pub name: String,
    pub description: String,
    /// app id (in reverse dns form)
    pub id: String,
    /// architecture
    pub arch: String,
    pub branch: String,
    pub version: String,
    pub license: String,
    pub origin: String,
    pub collection: String,
    /// can be `system` or `user`
    pub installation: String,
    pub install_size: String,
    pub runtime: String,
    pub sdk: String,
    pub commit: String,
    pub parent: String,
    pub subject: String,
    pub build_date: String,
    pub install_date: String,
    pub location: String,
    pub url: String,
    pub provides: String,
    pub packager: String,
    pub depends: String,
}

/// Every field of the record is empty.
pub open spec fn app_is_blank(a: FlatpakApp) -> bool {
    &&& a.extid@.len() == 0
    &&& a.name@.len() == 0
    &&& a.description@.len() == 0
    &&& a.id@.len() == 0
    &&& a.arch@.len() == 0
    &&& a.branch@.len() == 0
    &&& a.version@.len() == 0
    &&& a.license@.len() == 0
    &&& a.origin@.len() == 0
    &&& a.collection@.len() == 0
    &&& a.installation@.len() == 0
    &&& a.install_size@.len() == 0
    &&& a.runtime@.len() == 0
    &&& a.sdk@.len() == 0
    &&& a.commit@.len() == 0
    &&& a.parent@.len() == 0
    &&& a.subject@.len() == 0
    &&& a.build_date@.len() == 0
    &&& a.install_date@.len() == 0
    &&& a.location@.len() == 0
    &&& a.url@.len() == 0
    &&& a.provides@.len() == 0
    &&& a.packager@.len() == 0
    &&& a.depends@.len() == 0
}

impl Default for FlatpakApp {
    /// A record with every field still unhydrated.
    fn default() -> (r: Self)
        ensures
            app_is_blank(r),
    {
        FlatpakApp {
            extid: String::new(),
            name: String::new(),
            description: String::new(),
            id: String::new(),
            arch: String::new(),
            branch: String::new(),
            version: String::new(),
            license: String::new(),
            origin: String::new(),
            collection: String::new(),
            installation: String::new(),
            install_size: String::new(),
            runtime: String::new(),
            sdk: String::new(),
            commit: String::new(),
            parent: String::new(),
            subject: String::new(),
            build_date: String::new(),
            install_date: String::new(),
            location: String::new(),
            url: String::new(),
            provides: String::new(),
            packager: String::new(),
            depends: String::new(),
        }
    }
}

impl FlatpakApp {
    /// A field-by-field copy whose value the verifier knows equals the
    /// original.
    pub fn duplicate(&self) -> (r: Self)
        ensures
            r == *self,
    {
        FlatpakApp {
            extid: self.extid.clone(),
            name: self.name.clone(),
            description: self.description.clone(),
            id: self.id.clone(),
            arch: self.arch.clone(),
            branch: self.branch.clone(),
            version: self.version.clone(),
            license: self.license.clone(),
            origin: self.origin.clone(),
            collection: self.collection.clone(),
            installation: self.installation.clone(),
            install_size: self.install_size.clone(),
            runtime: self.runtime.clone(),
            sdk: self.sdk.clone(),
            commit: self.commit.clone(),
            parent: self.parent.clone(),
            subject: self.subject.clone(),
            build_date: self.build_date.clone(),
            install_date: self.install_date.clone(),
            location: self.location.clone(),
            url: self.url.clone(),
            provides: self.provides.clone(),
            packager: self.packager.clone(),
            depends: self.depends.clone(),
        }
    }
}

/// The extended identifier derived from a record's three key components.
pub open spec fn extid_of(id: Seq<char>, arch: Seq<char>, branch: Seq<char>) -> Seq<char> {
    id + "/"@ + arch + "/"@ + branch
}

/// Build the extended identifier `id/arch/branch`.
pub fn make_extid(id: &str, arch: &str, branch: &str) -> (r: String)
    ensures
        r@ == extid_of(id@, arch@, branch@),
{
    let mut r = String::from_str(id);
    r.append("/");
    r.append(arch);
    r.append("/");
    r.append(branch);
    r
}

} // verus!
