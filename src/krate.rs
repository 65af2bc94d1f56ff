use vstd::prelude::*;
use vstd::string::*;

verus! {

/// Where a locked package comes from.
pub enum Source {
    /// Published on the package registry.
    CratesIo,
    /// Checked out from a git repository.
    Git { url: String, ident: String },
}

/// One locked dependency.
pub struct Krate {
    pub name: String,
    pub version: String,
    pub source: Source,
}

/// The suffix of a packed registry archive.
pub open spec fn crate_ext() -> Seq<char> {
    seq!['.', 'c', 'r', 'a', 't', 'e']
}

impl Source {
    pub open spec fn is_git(&self) -> bool {
        self is Git
    }
}

impl Krate {
    /// The filesystem-safe name of this package: `name-version.crate` for a
    /// registry package, `name-ident` for a git checkout.
    pub open spec fn local_id_spec(&self) -> Seq<char> {
        match self.source {
            Source::CratesIo => self.name@ + seq!['-'] + self.version@ + crate_ext(),
            Source::Git { ident, .. } => self.name@ + seq!['-'] + ident@,
        }
    }

    pub fn crates_io(name: String, version: String) -> (r: Krate)
        ensures
            r.name@ == name@,
            r.version@ == version@,
            r.source is CratesIo,
    {
        Krate { name, version, source: Source::CratesIo }
    }

    pub fn git(name: String, version: String, url: String, ident: String) -> (r: Krate)
        ensures
            r.name@ == name@,
            r.version@ == version@,
            r.source matches Source::Git { url: u, ident: i } && u@ == url@ && i@ == ident@,
    {
        Krate { name, version, source: Source::Git { url, ident } }
    }

    pub fn is_git(&self) -> (r: bool)
        ensures
            r == self.source.is_git(),
    {
        match &self.source {
            Source::CratesIo => false,
            Source::Git { .. } => true,
        }
    }

    /// The local identifier: used as the remote key and the local cache name.
    pub fn local_id(&self) -> (r: String)
        ensures
            r@ == self.local_id_spec(),
    {
        let mut r = self.name.clone();
        r.append("-");
        proof {
            reveal_strlit("-");
            reveal_strlit(".crate");
        }
        match &self.source {
            Source::CratesIo => {
                r.append(self.version.as_str());
                r.append(".crate");
            },
            Source::Git { ident, .. } => {
                r.append(ident.as_str());
            },
        }
        r
    }
}

} // verus!
