//! The registry of IPSO definitions.
//!
//! - A definition is a file that describes one IPSO object.
//! - The registry is made of all definitions under a root directory. The directory `base` there
//!   holds the definitions that came with the gateway image. The directory `fwrolloutd` holds the
//!   definitions that were downloaded and that `base` does not hold.
//! - An archive bundles definitions. Its name holds a fingerprint of what is in it. The name of
//!   the archive that was unpacked last is kept in a file beside the definitions, and is the sign
//!   that they are complete.

use vstd::prelude::*;
use vstd::string::*;
use vstd::utf8::*;
use crate::links;
use crate::paths;
use crate::text::copy_bytes;

verus! {

/// The registry of IPSO definitions under its root directory.
#[derive(Debug)]
pub struct IpsoRegistry {
    registry_root_path: Vec<u8>,
}

/// Why a URL does not name an archive.
#[derive(Clone, Copy, Debug, PartialEq, Eq, Structural)]
pub enum ArchiveNameError {
    /// The URL has no path that is made of segments.
    NoSegments,
    /// The last segment is empty.
    EmptyName,
}

/// A file of an archive.
#[derive(Debug)]
pub struct Definition {
    pub path: Vec<u8>,
    pub content: String,
}

/// What the archive holds next.
#[derive(Debug)]
pub enum ArchiveEntry {
    File(Definition),
    /// Something that cannot be read.
    Broken(EntryError),
    /// Nothing more.
    End,
}

/// What cannot be read of an archive.
#[derive(Clone, Copy, Debug, PartialEq, Eq, Structural)]
pub enum EntryError {
    Header,
    Content,
    Path,
}

/// What is stored.
#[derive(Debug)]
pub enum StoreTarget {
    Definition(Definition),
    /// The name of the archive.
    Name,
}

/// Why a file is not stored.
#[derive(Clone, Copy, Debug, PartialEq, Eq, Structural)]
pub enum StoreError {
    Create,
    Write,
    Sync,
}

/// What has happened to an update of the registry. `name` is the name of the new archive.
#[derive(Debug)]
pub enum RegistryEvent {
    Begin { url: String },
    /// The file with the archive name has been read, or could not be read.
    NameRead { url: String, text: Option<String> },
    /// The answer that carries the archive came, from this URL.
    Reply { status: u16, url: String },
    /// No answer came: whether no connection could be made, and whether it took too long.
    NoReply { connect: bool, timeout: bool },
    /// Whether there is a file with an archive name.
    NameTested { name: String, is_file: bool },
    /// The file with the archive name has been moved away, or not.
    NameHidden { name: String, success: bool },
    /// The directory is gone with all that was in it, or not. One that was never there is gone.
    DirRemoved { name: String, gone: bool },
    /// The directory has been made, or not.
    DirCreated { name: String, success: bool },
    /// The archive can be read, or not.
    ArchiveOpened { name: String, success: bool },
    Entry { name: String, entry: ArchiveEntry },
    /// Whether there is a file of the same name in `base`.
    BaseTested { name: String, file: Definition, is_file: bool },
    /// The file in `base` has been read, or could not be read.
    BaseRead { name: String, file: Definition, text: Option<String> },
    /// A temporary file has been written, or not.
    Stored { name: String, target: StoreTarget, result: Result<(), StoreError> },
    /// The temporary file has been moved to its place, or not.
    Renamed { name: String, target: StoreTarget, success: bool },
    Reloaded,
}

/// What to do next to update the registry. `name` is the name of the new archive.
#[derive(Debug)]
pub enum RegistryStep {
    /// Read the file with the archive name.
    ReadName { path: Vec<u8>, url: String },
    /// Ask for the archive.
    Fetch { url: String },
    /// See whether there is a file with an archive name.
    TestName { path: Vec<u8>, name: String },
    /// Move the file with the archive name away.
    HideName { from: Vec<u8>, to: Vec<u8>, name: String },
    /// Remove the directory and all that is in it.
    RemoveDir { path: Vec<u8>, name: String },
    /// Make the directory.
    CreateDir { path: Vec<u8>, name: String },
    /// Begin to read the archive.
    OpenArchive { name: String },
    /// Read on in the archive.
    NextEntry { name: String },
    /// See whether there is a file in `base`.
    TestBase { path: Vec<u8>, name: String, file: Definition },
    /// Read a file in `base`.
    ReadBase { path: Vec<u8>, name: String, file: Definition },
    /// Write a temporary file, and make sure that it is on the disk.
    Store { path: Vec<u8>, content: String, name: String, target: StoreTarget },
    /// Move the temporary file to its place.
    Rename { from: Vec<u8>, to: Vec<u8>, name: String, target: StoreTarget },
    /// Have the device service load the definitions again.
    Reload,
    Finished(Result<RegistryOutcome, RegistryError>),
}

/// How an update of the registry went.
#[derive(Clone, Copy, Debug, PartialEq, Eq, Structural)]
pub enum RegistryOutcome {
    UpToDate,
    /// The network is not there. That happens, and is accepted.
    Unreachable,
    Updated,
}

/// Why an update of the registry failed.
#[derive(Clone, Copy, Debug, PartialEq, Eq, Structural)]
pub enum RegistryError {
    Status(u16),
    NoReply,
    ArchiveName(ArchiveNameError),
    HideName,
    RemoveDir,
    CreateDir,
    OpenArchive,
    Entry(EntryError),
    Store(StoreError),
    Rename,
}

/// The last segment of a path, which names a file unless it is empty.
pub open spec fn file_name(segments: Option<Seq<Seq<char>>>) -> Result<
    Seq<char>,
    ArchiveNameError,
> {
    match segments {
        None => Err(ArchiveNameError::NoSegments),
        Some(list) => if list.len() == 0 || list.last().len() == 0 {
            Err(ArchiveNameError::EmptyName)
        } else {
            Ok(list.last())
        },
    }
}

/// The text that an optional list of strings holds.
pub open spec fn texts_in(list: Option<Vec<String>>) -> Option<Seq<Seq<char>>> {
    match list {
        Some(l) => Some(links::texts(l@)),
        None => None,
    }
}

/// The text that the result holds.
pub open spec fn text_in(name: Result<String, ArchiveNameError>) -> Result<
    Seq<char>,
    ArchiveNameError,
> {
    match name {
        Ok(n) => Ok(n@),
        Err(e) => Err(e),
    }
}

/// The archive name that a file holds, unless it holds nothing.
pub open spec fn installed(text: Option<Seq<char>>) -> Option<Seq<char>> {
    match text {
        Some(name) => if name.len() == 0 {
            None
        } else {
            Some(name)
        },
        None => None,
    }
}

/// Whether an archive has to be unpacked: unless it is known to be the one that was unpacked
/// last.
pub open spec fn outdated(
    installed: Option<Seq<char>>,
    offered: Result<Seq<char>, ArchiveNameError>,
) -> bool {
    match (installed, offered) {
        (Some(a), Ok(b)) => a != b,
        _ => true,
    }
}

/// The text that an optional string holds.
pub open spec fn text_of(text: Option<String>) -> Option<Seq<char>> {
    match text {
        Some(t) => Some(t@),
        None => None,
    }
}

/// Whether a definition has to be unpacked: unless the file of the same name in `base` reads the
/// same.
pub open spec fn differs(base: Option<Seq<char>>, content: Seq<char>) -> bool {
    base != Some(content)
}

/// The path under which a file is written before it is moved to its place.
pub open spec fn temporary(path: Seq<u8>) -> Seq<u8> {
    path + encode_utf8(".tmp"@)
}

impl IpsoRegistry {
    /// The root directory of the registry.
    pub closed spec fn root(self) -> Seq<u8> {
        self.registry_root_path@
    }

    /// The directory of the definitions that came with the gateway image.
    pub open spec fn base(self) -> Seq<u8> {
        paths::joined(self.root(), encode_utf8("base"@))
    }

    /// The directory of the definitions that were downloaded.
    pub open spec fn downloads(self) -> Seq<u8> {
        paths::joined(self.root(), encode_utf8("fwrolloutd"@))
    }

    /// The file that holds the name of the archive that was unpacked last.
    pub open spec fn name_file(self) -> Seq<u8> {
        paths::joined(self.downloads(), encode_utf8("archive_name"@))
    }

    /// The registry under the given root directory.
    pub fn new(registry_path: &[u8]) -> (r: IpsoRegistry)
        ensures
            r.root() == registry_path@,
    {
        IpsoRegistry { registry_root_path: copy_bytes(registry_path) }
    }

    /// The archive name that a path is made out to have.
    pub fn archive_name_of(segments: &Option<Vec<String>>) -> (r: Result<String, ArchiveNameError>)
        ensures
            text_in(r) == file_name(texts_in(*segments)),
    {
        match segments {
            None => Err(ArchiveNameError::NoSegments),
            Some(list) => {
                if list.len() == 0 {
                    return Err(ArchiveNameError::EmptyName);
                }
                let last = &list[list.len() - 1];
                assert(links::texts(list@).last() == last@);
                if last.as_str().is_empty() {
                    Err(ArchiveNameError::EmptyName)
                } else {
                    Ok(last.clone())
                }
            },
        }
    }

    /// The archive name in a URL: the last segment of its path.
    pub fn archive_name_from_url(url: &str) -> (r: Result<String, ArchiveNameError>)
        ensures
            text_in(r) == file_name(links::path_segments_of(url@)),
    {
        Self::archive_name_of(&links::path_segments(url))
    }

    /// The archive name that was read from its file, unless the file holds nothing.
    pub fn read_archive_name_file(text: Option<String>) -> (r: Option<String>)
        ensures
            text_of(r) == installed(text_of(text)),
    {
        match text {
            Some(name) => if name.as_str().is_empty() {
                None
            } else {
                Some(name)
            },
            None => None,
        }
    }

    /// Whether an archive has to be unpacked, given the name of the one that was unpacked last and
    /// the name of the one that is offered.
    pub fn is_update_needed(
        installed: &Option<String>,
        offered: &Result<String, ArchiveNameError>,
    ) -> (r: bool)
        ensures
            r == outdated(text_of(*installed), text_in(*offered)),
    {
        match (installed, offered) {
            (Some(a), Ok(b)) => !(*a == *b),
            _ => true,
        }
    }

    /// Whether a definition has to be unpacked, given what the file of the same name in `base` reads,
    /// if there is one that can be read.
    pub fn definition_needs_update(base: &Option<String>, content: &String) -> (r: bool)
        ensures
            r == differs(text_of(*base), content@),
    {
        match base {
            Some(text) => !(*text == *content),
            None => true,
        }
    }

    /// The path under which a file is written before it is moved to its place.
    pub fn temp_file_path(&self, file_path: &[u8]) -> (r: Vec<u8>)
        ensures
            r@ == temporary(file_path@),
    {
        let mut path = copy_bytes(file_path);
        paths::append(&mut path, ".tmp".as_bytes());
        path
    }

    /// The directory of the definitions that came with the gateway image.
    pub fn registry_path_base(&self) -> (r: Vec<u8>)
        ensures
            r@ == self.base(),
    {
        paths::join(self.registry_root_path.as_slice(), "base".as_bytes())
    }

    /// The directory of the definitions that were downloaded.
    pub fn registry_path_fwrolloutd(&self) -> (r: Vec<u8>)
        ensures
            r@ == self.downloads(),
    {
        paths::join(self.registry_root_path.as_slice(), "fwrolloutd".as_bytes())
    }

    /// The file that holds the name of the archive that was unpacked last.
    pub fn archive_name_file_path(&self) -> (r: Vec<u8>)
        ensures
            r@ == self.name_file(),
    {
        paths::join(self.registry_path_fwrolloutd().as_slice(), "archive_name".as_bytes())
    }

    /// Where the file with the archive name is moved to when it does not count any more, and where
    /// it is written first.
    pub fn archive_name_file_tmp_path(&self) -> (r: Vec<u8>)
        ensures
            r@ == temporary(self.name_file()),
    {
        self.temp_file_path(self.archive_name_file_path().as_slice())
    }

    /// Where something is stored.
    pub open spec fn place(self, target: StoreTarget) -> Seq<u8> {
        match target {
            StoreTarget::Definition(file) => paths::joined(self.downloads(), file.path@),
            StoreTarget::Name => self.name_file(),
        }
    }

    /// Whether the step stores the target under a temporary name.
    pub open spec fn stores(self, step: RegistryStep, name: String, target: StoreTarget) -> bool {
        &&& step matches RegistryStep::Store { path, content, name: n, target: t }
        &&& path@ == temporary(self.place(target))
        &&& content == match target {
            StoreTarget::Definition(file) => file.content,
            StoreTarget::Name => name,
        }
        &&& n == name
        &&& t == target
    }

    /// Whether the step is what an event leads to. `offered` is the archive name in the URL of
    /// the event, if the event has one.
    pub open spec fn stepped(
        self,
        event: RegistryEvent,
        offered: Result<Seq<char>, ArchiveNameError>,
        step: RegistryStep,
    ) -> bool {
        match event {
            RegistryEvent::Begin { url } => {
                &&& step matches RegistryStep::ReadName { path, url: u }
                &&& path@ == self.name_file()
                &&& u == url
            },
            RegistryEvent::NameRead { url, text } => if outdated(
                installed(text_of(text)),
                offered,
            ) {
                step == (RegistryStep::Fetch { url })
            } else {
                step == RegistryStep::Finished(Ok(RegistryOutcome::UpToDate))
            },
            RegistryEvent::Reply { status, url } => if status != 200 {
                step == RegistryStep::Finished(Err(RegistryError::Status(status)))
            } else {
                match offered {
                    Err(e) => step == RegistryStep::Finished(Err(RegistryError::ArchiveName(e))),
                    Ok(name) => {
                        &&& step matches RegistryStep::TestName { path, name: n }
                        &&& path@ == self.name_file()
                        &&& n@ == name
                    },
                }
            },
            RegistryEvent::NoReply { connect, timeout } => step == RegistryStep::Finished(
                if connect || timeout {
                    Ok(RegistryOutcome::Unreachable)
                } else {
                    Err(RegistryError::NoReply)
                },
            ),
            RegistryEvent::NameTested { name, is_file } => if is_file {
                &&& step matches RegistryStep::HideName { from, to, name: n }
                &&& from@ == self.name_file()
                &&& to@ == temporary(self.name_file())
                &&& n == name
            } else {
                &&& step matches RegistryStep::RemoveDir { path, name: n }
                &&& path@ == self.downloads()
                &&& n == name
            },
            RegistryEvent::NameHidden { name, success } => if success {
                &&& step matches RegistryStep::RemoveDir { path, name: n }
                &&& path@ == self.downloads()
                &&& n == name
            } else {
                step == RegistryStep::Finished(Err(RegistryError::HideName))
            },
            RegistryEvent::DirRemoved { name, gone } => if !gone {
                step == RegistryStep::Finished(Err(RegistryError::RemoveDir))
            } else {
                &&& step matches RegistryStep::CreateDir { path, name: n }
                &&& path@ == self.downloads()
                &&& n == name
            },
            RegistryEvent::DirCreated { name, success } => step == if success {
                RegistryStep::OpenArchive { name }
            } else {
                RegistryStep::Finished(Err(RegistryError::CreateDir))
            },
            RegistryEvent::ArchiveOpened { name, success } => step == if success {
                RegistryStep::NextEntry { name }
            } else {
                RegistryStep::Finished(Err(RegistryError::OpenArchive))
            },
            RegistryEvent::Entry { name, entry } => match entry {
                ArchiveEntry::File(file) => {
                    &&& step matches RegistryStep::TestBase { path, name: n, file: f }
                    &&& path@ == paths::joined(self.base(), file.path@)
                    &&& n == name
                    &&& f == file
                },
                ArchiveEntry::Broken(e) => step == RegistryStep::Finished(
                    Err(RegistryError::Entry(e)),
                ),
                ArchiveEntry::End => self.stores(step, name, StoreTarget::Name),
            },
            RegistryEvent::BaseTested { name, file, is_file } => if is_file {
                &&& step matches RegistryStep::ReadBase { path, name: n, file: f }
                &&& path@ == paths::joined(self.base(), file.path@)
                &&& n == name
                &&& f == file
            } else {
                self.stores(step, name, StoreTarget::Definition(file))
            },
            RegistryEvent::BaseRead { name, file, text } => if differs(
                text_of(text),
                file.content@,
            ) {
                self.stores(step, name, StoreTarget::Definition(file))
            } else {
                step == (RegistryStep::NextEntry { name })
            },
            RegistryEvent::Stored { name, target, result } => match result {
                Ok(_) => {
                    &&& step matches RegistryStep::Rename { from, to, name: n, target: t }
                    &&& from@ == temporary(self.place(target))
                    &&& to@ == self.place(target)
                    &&& n == name
                    &&& t == target
                },
                Err(e) => step == RegistryStep::Finished(Err(RegistryError::Store(e))),
            },
            RegistryEvent::Renamed { name, target, success } => step == if !success {
                RegistryStep::Finished(Err(RegistryError::Rename))
            } else {
                match target {
                    StoreTarget::Definition(_) => RegistryStep::NextEntry { name },
                    StoreTarget::Name => RegistryStep::Reload,
                }
            },
            RegistryEvent::Reloaded => step == RegistryStep::Finished(
                Ok(RegistryOutcome::Updated),
            ),
        }
    }

    fn place_of(&self, target: &StoreTarget) -> (r: Vec<u8>)
        ensures
            r@ == self.place(*target),
    {
        match target {
            StoreTarget::Definition(file) => paths::join(
                self.registry_path_fwrolloutd().as_slice(),
                file.path.as_slice(),
            ),
            StoreTarget::Name => self.archive_name_file_path(),
        }
    }

    /// Begins to store something so that it is either complete or not there: under a temporary
    /// name first, from which it is then moved to its place.
    fn save_file_atomic(&self, name: String, target: StoreTarget) -> (r: RegistryStep)
        ensures
            self.stores(r, name, target),
    {
        let content = match &target {
            StoreTarget::Definition(file) => file.content.clone(),
            StoreTarget::Name => name.clone(),
        };
        RegistryStep::Store {
            path: self.temp_file_path(self.place_of(&target).as_slice()),
            content,
            name,
            target,
        }
    }

    /// Updates the registry where that is needed, one step at a time. `offered` is the archive
    /// name in the URL of the event, if the event has one.
    pub fn update_with(
        &self,
        event: RegistryEvent,
        offered: Result<String, ArchiveNameError>,
    ) -> (r: RegistryStep)
        ensures
            self.stepped(event, text_in(offered), r),
    {
        match event {
            RegistryEvent::Begin { url } => RegistryStep::ReadName {
                path: self.archive_name_file_path(),
                url,
            },
            RegistryEvent::NameRead { url, text } => {
                if Self::is_update_needed(&Self::read_archive_name_file(text), &offered) {
                    RegistryStep::Fetch { url }
                } else {
                    RegistryStep::Finished(Ok(RegistryOutcome::UpToDate))
                }
            },
            RegistryEvent::Reply { status, url: _ } => {
                if status != 200 {
                    return RegistryStep::Finished(Err(RegistryError::Status(status)));
                }
                match offered {
                    Ok(name) => RegistryStep::TestName {
                        path: self.archive_name_file_path(),
                        name,
                    },
                    Err(e) => RegistryStep::Finished(Err(RegistryError::ArchiveName(e))),
                }
            },
            RegistryEvent::NoReply { connect, timeout } => {
                if connect || timeout {
                    RegistryStep::Finished(Ok(RegistryOutcome::Unreachable))
                } else {
                    RegistryStep::Finished(Err(RegistryError::NoReply))
                }
            },
            RegistryEvent::NameTested { name, is_file } => {
                if is_file {
                    RegistryStep::HideName {
                        from: self.archive_name_file_path(),
                        to: self.archive_name_file_tmp_path(),
                        name,
                    }
                } else {
                    RegistryStep::RemoveDir { path: self.registry_path_fwrolloutd(), name }
                }
            },
            RegistryEvent::NameHidden { name, success } => {
                if success {
                    RegistryStep::RemoveDir { path: self.registry_path_fwrolloutd(), name }
                } else {
                    RegistryStep::Finished(Err(RegistryError::HideName))
                }
            },
            RegistryEvent::DirRemoved { name, gone } => {
                if gone {
                    RegistryStep::CreateDir { path: self.registry_path_fwrolloutd(), name }
                } else {
                    // What is left of the old definitions must not pass for the new ones.
                    RegistryStep::Finished(Err(RegistryError::RemoveDir))
                }
            },
            RegistryEvent::DirCreated { name, success } => {
                if success {
                    RegistryStep::OpenArchive { name }
                } else {
                    RegistryStep::Finished(Err(RegistryError::CreateDir))
                }
            },
            RegistryEvent::ArchiveOpened { name, success } => {
                if success {
                    RegistryStep::NextEntry { name }
                } else {
                    RegistryStep::Finished(Err(RegistryError::OpenArchive))
                }
            },
            RegistryEvent::Entry { name, entry } => match entry {
                ArchiveEntry::File(file) => {
                    let path = paths::join(
                        self.registry_path_base().as_slice(),
                        file.path.as_slice(),
                    );
                    RegistryStep::TestBase { path, name, file }
                },
                ArchiveEntry::Broken(e) => RegistryStep::Finished(Err(RegistryError::Entry(e))),
                ArchiveEntry::End => self.save_file_atomic(name, StoreTarget::Name),
            },
            RegistryEvent::BaseTested { name, file, is_file } => {
                if is_file {
                    let path = paths::join(
                        self.registry_path_base().as_slice(),
                        file.path.as_slice(),
                    );
                    RegistryStep::ReadBase { path, name, file }
                } else {
                    self.save_file_atomic(name, StoreTarget::Definition(file))
                }
            },
            RegistryEvent::BaseRead { name, file, text } => {
                if Self::definition_needs_update(&text, &file.content) {
                    self.save_file_atomic(name, StoreTarget::Definition(file))
                } else {
                    RegistryStep::NextEntry { name }
                }
            },
            RegistryEvent::Stored { name, target, result } => match result {
                Ok(_) => {
                    let to = self.place_of(&target);
                    RegistryStep::Rename {
                        from: self.temp_file_path(to.as_slice()),
                        to,
                        name,
                        target,
                    }
                },
                Err(e) => RegistryStep::Finished(Err(RegistryError::Store(e))),
            },
            RegistryEvent::Renamed { name, target, success } => {
                if !success {
                    return RegistryStep::Finished(Err(RegistryError::Rename));
                }
                match target {
                    StoreTarget::Definition(_) => RegistryStep::NextEntry { name },
                    StoreTarget::Name => RegistryStep::Reload,
                }
            },
            RegistryEvent::Reloaded => RegistryStep::Finished(Ok(RegistryOutcome::Updated)),
        }
    }

    /// The archive name in the URL of an event, if the event has one.
    pub open spec fn offered(event: RegistryEvent) -> Result<Seq<char>, ArchiveNameError> {
        match event {
            RegistryEvent::NameRead { url, .. } => file_name(links::path_segments_of(url@)),
            RegistryEvent::Reply { url, .. } => file_name(links::path_segments_of(url@)),
            _ => Err(ArchiveNameError::NoSegments),
        }
    }

    /// Updates the registry where that is needed, one step at a time.
    pub fn update_if_needed(&self, event: RegistryEvent) -> (r: RegistryStep)
        ensures
            self.stepped(event, Self::offered(event), r),
    {
        let offered = match &event {
            RegistryEvent::NameRead { url, .. } => Self::archive_name_from_url(url.as_str()),
            RegistryEvent::Reply { url, .. } => Self::archive_name_from_url(url.as_str()),
            _ => Err(ArchiveNameError::NoSegments),
        };
        self.update_with(event, offered)
    }
}

} // verus!
