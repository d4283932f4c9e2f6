//! Filling the cache of the loop: the folders to make and the files to
//! write, each with what goes into it.
//!
//! The caller makes the folders, gets what goes into the files, and writes
//! them, all in the order given here.

use vstd::prelude::*;

verus! {

/// Where the scripts of the loop are kept.
#[derive(Clone, Debug, PartialEq, Eq)]
pub struct Scripts {
    pub folder: String,
    pub build: String,
    pub deploy: String,
    pub deploy_on_remote: String,
    pub move_to_next_version: String,
    pub playbook: String,
    pub provision: String,
    pub provision_test: String,
}

/// Where the virtual machine for staging is kept.
#[derive(Clone, Debug, PartialEq, Eq)]
pub struct Staging {
    pub folder: String,
    pub vagrantfile: String,
}

/// Where the loop keeps its files.
#[derive(Clone, Debug, PartialEq, Eq)]
pub struct Cache {
    pub scripts: Scripts,
    pub staging: Staging,
    pub workbench: String,
}

/// What filling the cache works with.
#[derive(Clone, Debug, PartialEq, Eq)]
pub struct Main {
    pub cache: Cache,
    /// The description of the virtual machine to use, if not the usual one.
    pub vagrantfile: Option<String>,
}

/// A text that the loop brings along.
#[derive(Clone, Copy, Debug, PartialEq, Eq)]
pub enum Asset {
    Build,
    Deploy,
    DeployOnRemote,
    MoveToNextVersion,
    Playbook,
    Provision,
    ProvisionTest,
    Vagrantfile,
}

/// Where the contents of a file come from, as contracts speak of it.
pub enum Origin {
    Asset(Asset),
    File(Seq<char>),
}

/// Where the contents of a file come from.
#[derive(Clone, Debug, PartialEq, Eq)]
pub enum Source {
    /// A text that the loop brings along.
    Asset(Asset),
    /// The file at this path.
    File(String),
}

impl View for Source {
    type V = Origin;

    open spec fn view(&self) -> Origin {
        match self {
            Source::Asset(asset) => Origin::Asset(*asset),
            Source::File(path) => Origin::File(path@),
        }
    }
}

impl DeepView for Source {
    type V = Origin;

    open spec fn deep_view(&self) -> Origin {
        self@
    }
}

/// What is to be done to fill the cache, as contracts speak of it.
pub struct Filling {
    pub folders: Seq<Seq<char>>,
    pub files: Seq<(Seq<char>, Origin)>,
}

/// What is to be done to fill the cache.
#[derive(Clone, Debug, PartialEq, Eq)]
pub struct Plan {
    /// The folders to make, with those above them, in this order.
    pub folders: Vec<String>,
    /// The files to write, in this order, each with where its contents come
    /// from. All contents are to be had before the first file is written.
    pub files: Vec<(String, Source)>,
}

impl View for Plan {
    type V = Filling;

    open spec fn view(&self) -> Filling {
        Filling { folders: self.folders.deep_view(), files: self.files.deep_view() }
    }
}

/// Where the description of the virtual machine comes from: the file that
/// was named, or the usual text where none was.
pub open spec fn vagrantfile_origin(vagrantfile: Option<String>) -> Origin {
    match vagrantfile {
        None => Origin::Asset(Asset::Vagrantfile),
        Some(path) => Origin::File(path@),
    }
}

/// Where the description of the virtual machine comes from.
pub fn get_vagrantfile_contents(configuration: &Main) -> (source: Source)
    ensures
        source@ == vagrantfile_origin(configuration.vagrantfile),
{
    match &configuration.vagrantfile {
        None => Source::Asset(Asset::Vagrantfile),
        Some(path) => Source::File(path.clone()),
    }
}

/// The folders to make and the files to write for the cache `cache`.
pub open spec fn filling(configuration: Main) -> Filling {
    let cache = configuration.cache;
    Filling {
        folders: seq![cache.scripts.folder@, cache.staging.folder@, cache.workbench@],
        files: seq![
            (cache.scripts.build@, Origin::Asset(Asset::Build)),
            (cache.scripts.deploy@, Origin::Asset(Asset::Deploy)),
            (cache.scripts.deploy_on_remote@, Origin::Asset(Asset::DeployOnRemote)),
            (cache.scripts.move_to_next_version@, Origin::Asset(Asset::MoveToNextVersion)),
            (cache.scripts.playbook@, Origin::Asset(Asset::Playbook)),
            (cache.scripts.provision@, Origin::Asset(Asset::Provision)),
            (cache.scripts.provision_test@, Origin::Asset(Asset::ProvisionTest)),
            (cache.staging.vagrantfile@, vagrantfile_origin(configuration.vagrantfile)),
        ],
    }
}

/// The folders to make and the files to write to fill the cache.
pub fn go(configuration: &Main) -> (plan: Plan)
    ensures
        plan@ == filling(*configuration),
{
    let cache = &configuration.cache;
    let mut folders: Vec<String> = Vec::new();
    folders.push(cache.scripts.folder.clone());
    folders.push(cache.staging.folder.clone());
    folders.push(cache.workbench.clone());
    let mut files: Vec<(String, Source)> = Vec::new();
    files.push((cache.scripts.build.clone(), Source::Asset(Asset::Build)));
    files.push((cache.scripts.deploy.clone(), Source::Asset(Asset::Deploy)));
    files.push((cache.scripts.deploy_on_remote.clone(), Source::Asset(Asset::DeployOnRemote)));
    files.push(
        (cache.scripts.move_to_next_version.clone(), Source::Asset(Asset::MoveToNextVersion)),
    );
    files.push((cache.scripts.playbook.clone(), Source::Asset(Asset::Playbook)));
    files.push((cache.scripts.provision.clone(), Source::Asset(Asset::Provision)));
    files.push((cache.scripts.provision_test.clone(), Source::Asset(Asset::ProvisionTest)));
    files.push((cache.staging.vagrantfile.clone(), get_vagrantfile_contents(configuration)));
    assert(folders.deep_view() =~= filling(*configuration).folders);
    assert(files.deep_view() =~= filling(*configuration).files);
    Plan { folders, files }
}

} // verus!
