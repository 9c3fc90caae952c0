//! Repository metadata that takes part in a resolution: package groups and advisories.
use vstd::prelude::*;
use crate::text::{opt_view, str_eq};

verus! {

/// A kind of checksum.
#[derive(Clone, Copy, Debug, PartialEq, Eq, Hash, Structural)]
pub enum ChecksumType {
    Md5,
    Sha1,
    Sha224,
    Sha256,
    Sha384,
    Sha512,
    Unknown,
}

/// The checksum of a metadata file or a package, as the repository states it.
#[derive(Clone, Debug, PartialEq, Eq, Hash)]
pub enum Checksum {
    Md5(String),
    Sha1(String),
    Sha224(String),
    Sha256(String),
    Sha384(String),
    Sha512(String),
    Unknown(String),
    Empty,
}

/// A checksum's kind, if it has one, and its digits.
#[verifier::ext_equal]
pub struct ChecksumModel {
    pub kind: Option<ChecksumType>,
    pub digits: Seq<char>,
}

impl View for Checksum {
    type V = ChecksumModel;

    open spec fn view(&self) -> ChecksumModel {
        match *self {
            Checksum::Md5(s) => ChecksumModel { kind: Some(ChecksumType::Md5), digits: s@ },
            Checksum::Sha1(s) => ChecksumModel { kind: Some(ChecksumType::Sha1), digits: s@ },
            Checksum::Sha224(s) => ChecksumModel { kind: Some(ChecksumType::Sha224), digits: s@ },
            Checksum::Sha256(s) => ChecksumModel { kind: Some(ChecksumType::Sha256), digits: s@ },
            Checksum::Sha384(s) => ChecksumModel { kind: Some(ChecksumType::Sha384), digits: s@ },
            Checksum::Sha512(s) => ChecksumModel { kind: Some(ChecksumType::Sha512), digits: s@ },
            Checksum::Unknown(s) => ChecksumModel { kind: Some(ChecksumType::Unknown), digits: s@ },
            Checksum::Empty => ChecksumModel { kind: None, digits: Seq::empty() },
        }
    }
}

impl ChecksumModel {
    /// The kind of checksum to compute for a comparison, where it is one that can be.
    pub open spec fn computable(self) -> Option<ChecksumType> {
        match self.kind {
            Some(ChecksumType::Unknown) => None,
            kind => kind,
        }
    }
}

impl Checksum {
    /// The kind of checksum to compute for a comparison, where it is one that can be.
    pub fn computable(&self) -> (r: Option<ChecksumType>)
        ensures
            r == self@.computable(),
    {
        match self {
            Checksum::Md5(_) => Some(ChecksumType::Md5),
            Checksum::Sha1(_) => Some(ChecksumType::Sha1),
            Checksum::Sha224(_) => Some(ChecksumType::Sha224),
            Checksum::Sha256(_) => Some(ChecksumType::Sha256),
            Checksum::Sha384(_) => Some(ChecksumType::Sha384),
            Checksum::Sha512(_) => Some(ChecksumType::Sha512),
            Checksum::Unknown(_) => None,
            Checksum::Empty => None,
        }
    }

    /// Whether two checksums are of the same kind and have the same digits.
    pub fn same(&self, other: &Checksum) -> (r: bool)
        ensures
            r == (self@ == other@),
    {
        match (self, other) {
            (Checksum::Md5(a), Checksum::Md5(b)) => str_eq(a.as_str(), b.as_str()),
            (Checksum::Sha1(a), Checksum::Sha1(b)) => str_eq(a.as_str(), b.as_str()),
            (Checksum::Sha224(a), Checksum::Sha224(b)) => str_eq(a.as_str(), b.as_str()),
            (Checksum::Sha256(a), Checksum::Sha256(b)) => str_eq(a.as_str(), b.as_str()),
            (Checksum::Sha384(a), Checksum::Sha384(b)) => str_eq(a.as_str(), b.as_str()),
            (Checksum::Sha512(a), Checksum::Sha512(b)) => str_eq(a.as_str(), b.as_str()),
            (Checksum::Unknown(a), Checksum::Unknown(b)) => str_eq(a.as_str(), b.as_str()),
            (Checksum::Empty, Checksum::Empty) => true,
            _ => false,
        }
    }

    /// A copy of the checksum.
    pub fn copy(&self) -> (r: Checksum)
        ensures
            r@ == self@,
    {
        match self {
            Checksum::Md5(s) => Checksum::Md5(s.clone()),
            Checksum::Sha1(s) => Checksum::Sha1(s.clone()),
            Checksum::Sha224(s) => Checksum::Sha224(s.clone()),
            Checksum::Sha256(s) => Checksum::Sha256(s.clone()),
            Checksum::Sha384(s) => Checksum::Sha384(s.clone()),
            Checksum::Sha512(s) => Checksum::Sha512(s.clone()),
            Checksum::Unknown(s) => Checksum::Unknown(s.clone()),
            Checksum::Empty => Checksum::Empty,
        }
    }
}

/// One package of a group.
#[derive(Clone, Debug)]
pub struct CompsPackageReq {
    pub name: String,
    /// `mandatory`, `default`, `optional` or `conditional`.
    pub reqtype: String,
    /// The package that a conditional entry depends on.
    pub requires: Option<String>,
    pub basearchonly: bool,
}

/// A package group.
#[derive(Clone, Debug)]
pub struct CompsGroup {
    pub id: String,
    pub name: String,
    /// The name in other languages: language code and text.
    pub name_by_lang: Vec<(String, String)>,
    pub description: String,
    /// The description in other languages: language code and text.
    pub desc_by_lang: Vec<(String, String)>,
    pub default: bool,
    pub uservisible: bool,
    pub biarchonly: bool,
    pub langonly: Option<String>,
    pub display_order: Option<u32>,
    pub packages: Vec<CompsPackageReq>,
}

impl Default for CompsGroup {
    fn default() -> (r: Self)
        ensures
            r@ == GroupModel::blank(),
    {
        let r = CompsGroup {
            id: String::new(),
            name: String::new(),
            name_by_lang: Vec::new(),
            description: String::new(),
            desc_by_lang: Vec::new(),
            default: false,
            uservisible: false,
            biarchonly: false,
            langonly: None,
            display_order: None,
            packages: Vec::new(),
        };
        assert(r@ =~= GroupModel::blank());
        r
    }
}

/// A group's entry, with its texts.
#[verifier::ext_equal]
pub struct MemberModel {
    pub name: Seq<char>,
    pub reqtype: Seq<char>,
    pub requires: Option<Seq<char>>,
    pub basearchonly: bool,
}

impl View for CompsPackageReq {
    type V = MemberModel;

    open spec fn view(&self) -> MemberModel {
        MemberModel {
            name: self.name@,
            reqtype: self.reqtype@,
            requires: opt_view(self.requires),
            basearchonly: self.basearchonly,
        }
    }
}

/// A group, with its texts.
#[verifier::ext_equal]
pub struct GroupModel {
    pub id: Seq<char>,
    pub name: Seq<char>,
    pub name_by_lang: Seq<(Seq<char>, Seq<char>)>,
    pub description: Seq<char>,
    pub desc_by_lang: Seq<(Seq<char>, Seq<char>)>,
    pub default: bool,
    pub uservisible: bool,
    pub biarchonly: bool,
    pub langonly: Option<Seq<char>>,
    pub display_order: Option<u32>,
    pub packages: Seq<MemberModel>,
}

/// Pairs of texts.
pub open spec fn text_pairs(list: Seq<(String, String)>) -> Seq<(Seq<char>, Seq<char>)> {
    list.map_values(|p: (String, String)| (p.0@, p.1@))
}

impl View for CompsGroup {
    type V = GroupModel;

    open spec fn view(&self) -> GroupModel {
        GroupModel {
            id: self.id@,
            name: self.name@,
            name_by_lang: text_pairs(self.name_by_lang@),
            description: self.description@,
            desc_by_lang: text_pairs(self.desc_by_lang@),
            default: self.default,
            uservisible: self.uservisible,
            biarchonly: self.biarchonly,
            langonly: opt_view(self.langonly),
            display_order: self.display_order,
            packages: self.packages@.map_values(|p: CompsPackageReq| p@),
        }
    }
}

impl GroupModel {
    /// A group of which nothing is stated.
    pub open spec fn blank() -> GroupModel {
        GroupModel {
            id: Seq::empty(),
            name: Seq::empty(),
            name_by_lang: Seq::empty(),
            description: Seq::empty(),
            desc_by_lang: Seq::empty(),
            default: false,
            uservisible: false,
            biarchonly: false,
            langonly: None,
            display_order: None,
            packages: Seq::empty(),
        }
    }
}

/// One package of an advisory.
#[derive(Clone, Debug)]
pub struct UpdateCollectionPackage {
    pub epoch: String,
    pub filename: String,
    pub name: String,
    pub reboot_suggested: bool,
    pub restart_suggested: bool,
    pub relogin_suggested: bool,
    pub release: String,
    pub src: Option<String>,
    pub arch: String,
    pub checksum: Option<Checksum>,
    pub version: String,
}

impl Default for UpdateCollectionPackage {
    fn default() -> (r: Self)
        ensures
            r.epoch@.len() == 0,
            r.filename@.len() == 0,
            r.name@.len() == 0,
            !r.reboot_suggested,
            !r.restart_suggested,
            !r.relogin_suggested,
            r.release@.len() == 0,
            r.src is None,
            r.arch@.len() == 0,
            r.checksum is None,
            r.version@.len() == 0,
    {
        UpdateCollectionPackage {
            epoch: String::new(),
            filename: String::new(),
            name: String::new(),
            reboot_suggested: false,
            restart_suggested: false,
            relogin_suggested: false,
            release: String::new(),
            src: None,
            arch: String::new(),
            checksum: None,
            version: String::new(),
        }
    }
}

/// The module stream that a collection belongs to.
#[derive(Clone, Debug)]
pub struct UpdateCollectionModule {
    pub name: String,
    pub stream: String,
    pub version: u64,
    pub context: String,
    pub arch: String,
}

/// The packages that an advisory names for one distribution.
#[derive(Clone, Debug)]
pub struct UpdateCollection {
    pub name: String,
    pub shortname: String,
    pub packages: Vec<UpdateCollectionPackage>,
    pub module: Option<UpdateCollectionModule>,
}

impl Default for UpdateCollection {
    fn default() -> (r: Self)
        ensures
            r.name@.len() == 0,
            r.shortname@.len() == 0,
            r.packages@.len() == 0,
            r.module is None,
    {
        UpdateCollection {
            name: String::new(),
            shortname: String::new(),
            packages: Vec::new(),
            module: None,
        }
    }
}

/// A bug report, a CVE or another document that an advisory refers to.
#[derive(Clone, Debug)]
pub struct UpdateReference {
    pub href: String,
    pub id: Option<String>,
    pub title: Option<String>,
    /// `bugzilla`, `cve`, `self` or `other`.
    pub reftype: String,
}

/// An advisory.
#[derive(Clone, Debug)]
pub struct UpdateRecord {
    pub from: String,
    /// `security`, `bugfix`, `enhancement` or another kind.
    pub update_type: String,
    pub status: String,
    pub version: String,
    pub id: String,
    pub title: String,
    pub issued_date: Option<String>,
    pub updated_date: Option<String>,
    pub rights: Option<String>,
    pub release: Option<String>,
    pub pushcount: Option<String>,
    pub severity: Option<String>,
    pub summary: Option<String>,
    pub description: Option<String>,
    pub solution: Option<String>,
    pub references: Vec<UpdateReference>,
    pub pkglist: Vec<UpdateCollection>,
}

impl UpdateRecord {
    /// Whether the record states nothing.
    pub open spec fn is_blank(self) -> bool {
        &&& self.from@.len() == 0
        &&& self.update_type@.len() == 0
        &&& self.status@.len() == 0
        &&& self.version@.len() == 0
        &&& self.id@.len() == 0
        &&& self.title@.len() == 0
        &&& self.issued_date is None
        &&& self.updated_date is None
        &&& self.rights is None
        &&& self.release is None
        &&& self.pushcount is None
        &&& self.severity is None
        &&& self.summary is None
        &&& self.description is None
        &&& self.solution is None
        &&& self.references@.len() == 0
        &&& self.pkglist@.len() == 0
    }
}

impl Default for UpdateRecord {
    fn default() -> (r: Self)
        ensures
            r.is_blank(),
    {
        UpdateRecord {
            from: String::new(),
            update_type: String::new(),
            status: String::new(),
            version: String::new(),
            id: String::new(),
            title: String::new(),
            issued_date: None,
            updated_date: None,
            rights: None,
            release: None,
            pushcount: None,
            severity: None,
            summary: None,
            description: None,
            solution: None,
            references: Vec::new(),
            pkglist: Vec::new(),
        }
    }
}

/// Name, version and architecture of a package.
#[verifier::ext_equal]
pub struct NevraModel {
    pub name: Seq<char>,
    pub epoch: Seq<char>,
    pub version: Seq<char>,
    pub release: Seq<char>,
    pub arch: Seq<char>,
}

impl UpdateCollectionPackage {
    /// The package's name, version and architecture.
    pub open spec fn nevra(self) -> NevraModel {
        NevraModel {
            name: self.name@,
            epoch: self.epoch@,
            version: self.version@,
            release: self.release@,
            arch: self.arch@,
        }
    }

    /// Whether the entry states no more than name, version and architecture.
    pub open spec fn states_nevra_only(self) -> bool {
        &&& self.filename@.len() == 0
        &&& !self.reboot_suggested
        &&& !self.restart_suggested
        &&& !self.relogin_suggested
        &&& self.src is None
        &&& self.checksum is None
    }
}

/// The packages of all collections, in order.
pub open spec fn all_packages(pkglist: Seq<UpdateCollection>) -> Seq<UpdateCollectionPackage>
    decreases pkglist.len(),
{
    if pkglist.len() == 0 {
        Seq::empty()
    } else {
        all_packages(pkglist.drop_last()) + pkglist.last().packages@
    }
}

} // verus!
