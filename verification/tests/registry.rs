use fwrolloutd::registry::{
    ArchiveEntry, ArchiveNameError, Definition, EntryError, IpsoRegistry, RegistryError,
    RegistryEvent, RegistryOutcome, RegistryStep, StoreError, StoreTarget,
};
use std::collections::HashMap;

const ROOT: &str = "/tmp/lwm2m_registry";
const HOST: &str = "http://127.0.0.1:8080/";

const IPSO_ARCHIVE_BASE: [(&str, &str); 3] =
    [("ipso1.xml", "ipso1"), ("ipso2.xml", "ipso2"), ("ipso3.xml", "ipso3")];
const IPSO_ARCHIVE_A: [(&str, &str); 3] = [
    ("ipso1.xml", "ipso1"),
    ("ipso3.xml", "ipso3\nnew additional data"),
    ("ipso4.xml", "ipso4"),
];
const IPSO_ARCHIVE_B: [(&str, &str); 3] = [
    ("ipso1.xml", "ipso1"),
    ("ipso3.xml", "ipso3\nnew additional data\nmore new data"),
    ("ipso5.xml", "ipso5"),
];

const IPSO_ARCHIVE_TEST_NAME_0: &str =
    "ipso_definitions_9630f6ea6a0608b03bfa279b340957fe68afcf4c.tar.gz";
const IPSO_ARCHIVE_TEST_NAME_1: &str =
    "ipso_definitions_ff01234567890abcdef0123456789abcdeffffff.tar.gz";

/// A file system and a web server, both in memory.
struct World {
    files: HashMap<String, String>,
    archive: Vec<(String, String)>,
    status: u16,
    fetched: Vec<String>,
    reloads: u32,
    /// The number of steps after which the power is cut.
    power: usize,
    /// The paths that cannot be written.
    broken: Vec<String>,
    /// The paths that cannot be removed.
    stuck: Vec<String>,
    /// The paths that cannot be read.
    unreadable: Vec<String>,
    steps: Vec<&'static str>,
}

fn text(path: &[u8]) -> String {
    String::from_utf8(path.to_vec()).unwrap()
}

impl World {
    fn new(archive: &[(&str, &str)]) -> World {
        let mut files = HashMap::new();
        for (name, content) in IPSO_ARCHIVE_BASE {
            files.insert(format!("{}/base/{}", ROOT, name), content.to_string());
        }
        World {
            files,
            archive: archive.iter().map(|(n, c)| (n.to_string(), c.to_string())).collect(),
            status: 200,
            fetched: Vec::new(),
            reloads: 0,
            power: usize::MAX,
            broken: Vec::new(),
            stuck: Vec::new(),
            unreadable: Vec::new(),
            steps: Vec::new(),
        }
    }

    fn install_name(&mut self, name: &str) {
        self.files.insert(format!("{}/fwrolloutd/archive_name", ROOT), name.to_string());
    }

    fn rename(&mut self, from: &[u8], to: &[u8]) -> bool {
        match self.files.remove(&text(from)) {
            Some(content) => {
                self.files.insert(text(to), content);
                true
            }
            None => false,
        }
    }

    fn update(&mut self, url: &str) -> Option<Result<RegistryOutcome, RegistryError>> {
        let registry = IpsoRegistry::new(ROOT.as_bytes());
        let mut remaining = self.archive.clone().into_iter();
        let mut event = RegistryEvent::Begin { url: url.to_string() };
        for _ in 0..self.power.min(1000) {
            event = match registry.update_if_needed(event) {
                RegistryStep::ReadName { path, url } => {
                    self.steps.push("read name");
                    RegistryEvent::NameRead { url, text: self.files.get(&text(&path)).cloned() }
                }
                RegistryStep::Fetch { url } => {
                    self.steps.push("fetch");
                    self.fetched.push(url.clone());
                    RegistryEvent::Reply { status: self.status, url }
                }
                RegistryStep::TestName { path, name } => {
                    self.steps.push("test name");
                    RegistryEvent::NameTested {
                        name,
                        is_file: self.files.contains_key(&text(&path)),
                    }
                }
                RegistryStep::HideName { from, to, name } => {
                    self.steps.push("hide name");
                    let success = self.rename(&from, &to);
                    RegistryEvent::NameHidden { name, success }
                }
                RegistryStep::RemoveDir { path, name } => {
                    self.steps.push("remove");
                    let prefix = format!("{}/", text(&path));
                    let stuck = self.stuck.clone();
                    self.files.retain(|path, _| !path.starts_with(&prefix) || stuck.contains(path));
                    RegistryEvent::DirRemoved { name, gone: stuck.is_empty() }
                }
                RegistryStep::CreateDir { path, name } => {
                    self.steps.push("create");
                    assert_eq!(text(&path), format!("{}/fwrolloutd", ROOT));
                    RegistryEvent::DirCreated { name, success: true }
                }
                RegistryStep::OpenArchive { name } => {
                    self.steps.push("open");
                    RegistryEvent::ArchiveOpened { name, success: true }
                }
                RegistryStep::NextEntry { name } => {
                    self.steps.push("next");
                    let entry = match remaining.next() {
                        Some((path, content)) => ArchiveEntry::File(Definition {
                            path: path.into_bytes(),
                            content,
                        }),
                        None => ArchiveEntry::End,
                    };
                    RegistryEvent::Entry { name, entry }
                }
                RegistryStep::TestBase { path, name, file } => {
                    self.steps.push("test base");
                    let is_file = self.files.contains_key(&text(&path));
                    RegistryEvent::BaseTested { name, file, is_file }
                }
                RegistryStep::ReadBase { path, name, file } => {
                    self.steps.push("read base");
                    let text = self
                        .files
                        .get(&text(&path))
                        .filter(|_| !self.unreadable.contains(&text(&path)))
                        .cloned();
                    RegistryEvent::BaseRead { name, file, text }
                }
                RegistryStep::Store { path, content, name, target } => {
                    self.steps.push("store");
                    assert!(text(&path).ends_with(".tmp"));
                    let result = if self.broken.contains(&text(&path)) {
                        Err(StoreError::Create)
                    } else {
                        self.files.insert(text(&path), content);
                        Ok(())
                    };
                    RegistryEvent::Stored { name, target, result }
                }
                RegistryStep::Rename { from, to, name, target } => {
                    self.steps.push("rename");
                    let success = self.rename(&from, &to);
                    RegistryEvent::Renamed { name, target, success }
                }
                RegistryStep::Reload => {
                    self.steps.push("reload");
                    self.reloads += 1;
                    RegistryEvent::Reloaded
                }
                RegistryStep::Finished(result) => return Some(result),
            };
        }
        None
    }

    fn directory(&self, name: &str) -> HashMap<String, String> {
        let prefix = format!("{}/{}/", ROOT, name);
        self.files
            .iter()
            .filter_map(|(path, content)| {
                path.strip_prefix(&prefix).map(|name| (name.to_string(), content.clone()))
            })
            .collect()
    }

    fn assert_base_directory(&self) {
        assert_eq!(self.directory("base"), strings(&IPSO_ARCHIVE_BASE));
    }

    fn assert_fwrollout_directory_content(&self, expected: &[(&str, &str)]) {
        assert_eq!(self.directory("fwrolloutd"), strings(expected));
    }
}

fn strings(pairs: &[(&str, &str)]) -> HashMap<String, String> {
    pairs.iter().map(|(a, b)| (a.to_string(), b.to_string())).collect()
}

fn archive_url(name: &str) -> String {
    format!("{}{}", HOST, name)
}

#[test]
fn test_get_ipso_archive_with_download_ok_overwrite() {
    let mut world = World::new(&IPSO_ARCHIVE_A);
    world.install_name(IPSO_ARCHIVE_TEST_NAME_1);

    let result = world.update(&archive_url(IPSO_ARCHIVE_TEST_NAME_0));
    assert_eq!(result, Some(Ok(RegistryOutcome::Updated)));

    world.assert_fwrollout_directory_content(&[
        ("archive_name", IPSO_ARCHIVE_TEST_NAME_0),
        ("ipso3.xml", "ipso3\nnew additional data"),
        ("ipso4.xml", "ipso4"),
    ]);
    world.assert_base_directory();
}

#[test]
fn test_get_ipso_archive_with_reply_ok_no_previous_registry() {
    let mut world = World::new(&IPSO_ARCHIVE_A);

    let result = world.update(&archive_url(IPSO_ARCHIVE_TEST_NAME_0));
    assert_eq!(result, Some(Ok(RegistryOutcome::Updated)));

    world.assert_fwrollout_directory_content(&[
        ("archive_name", IPSO_ARCHIVE_TEST_NAME_0),
        ("ipso3.xml", "ipso3\nnew additional data"),
        ("ipso4.xml", "ipso4"),
    ]);
    world.assert_base_directory();
}

#[test]
fn test_get_ipso_archive_with_already_up_to_date() {
    let mut world = World::new(&[]);
    world.status = 501;
    world.install_name(IPSO_ARCHIVE_TEST_NAME_1);

    let result = world.update(&archive_url(IPSO_ARCHIVE_TEST_NAME_1));
    assert_eq!(result, Some(Ok(RegistryOutcome::UpToDate)));
    assert!(world.fetched.is_empty());

    world.assert_fwrollout_directory_content(&[("archive_name", IPSO_ARCHIVE_TEST_NAME_1)]);
    world.assert_base_directory();
}

#[test]
fn test_get_ipso_archive_with_reply_ok_then_again() {
    /* get first archive */
    let mut world = World::new(&IPSO_ARCHIVE_A);
    let result = world.update(&archive_url(IPSO_ARCHIVE_TEST_NAME_0));
    assert_eq!(result, Some(Ok(RegistryOutcome::Updated)));

    world.assert_fwrollout_directory_content(&[
        ("archive_name", IPSO_ARCHIVE_TEST_NAME_0),
        ("ipso3.xml", "ipso3\nnew additional data"),
        ("ipso4.xml", "ipso4"),
    ]);
    world.assert_base_directory();

    /* get second archive */
    world.archive =
        IPSO_ARCHIVE_B.iter().map(|(n, c)| (n.to_string(), c.to_string())).collect();
    let result = world.update(&archive_url(IPSO_ARCHIVE_TEST_NAME_1));
    assert_eq!(result, Some(Ok(RegistryOutcome::Updated)));

    world.assert_fwrollout_directory_content(&[
        ("archive_name", IPSO_ARCHIVE_TEST_NAME_1),
        ("ipso3.xml", "ipso3\nnew additional data\nmore new data"),
        ("ipso5.xml", "ipso5"),
    ]);
    world.assert_base_directory();
}

#[test]
fn the_steps_of_an_update_come_in_order() {
    let mut world = World::new(&[("ipso2.xml", "ipso2"), ("new.xml", "new")]);
    world.install_name(IPSO_ARCHIVE_TEST_NAME_1);
    world.update(&archive_url(IPSO_ARCHIVE_TEST_NAME_0));
    assert_eq!(
        world.steps,
        vec![
            "read name", "fetch", "test name", "hide name", "remove", "create", "open", "next",
            "test base", "read base", "next", "test base", "store", "rename", "next", "store",
            "rename", "reload",
        ]
    );
    assert_eq!(world.reloads, 1);
    assert_eq!(world.fetched, vec![archive_url(IPSO_ARCHIVE_TEST_NAME_0)]);
}

#[test]
fn an_archive_is_unpacked_once() {
    let mut world = World::new(&IPSO_ARCHIVE_A);
    world.update(&archive_url(IPSO_ARCHIVE_TEST_NAME_0));
    let result = world.update(&archive_url(IPSO_ARCHIVE_TEST_NAME_0));
    assert_eq!(result, Some(Ok(RegistryOutcome::UpToDate)));
    assert_eq!(world.fetched.len(), 1);
}

#[test]
fn a_power_cut_leaves_no_name_and_is_made_good() {
    for power in 5..20 {
        let mut world = World::new(&IPSO_ARCHIVE_A);
        world.install_name(IPSO_ARCHIVE_TEST_NAME_1);
        world.power = power;
        let cut = world.update(&archive_url(IPSO_ARCHIVE_TEST_NAME_0));
        if world.directory("fwrolloutd").contains_key("archive_name") {
            world.assert_fwrollout_directory_content(&[
                ("archive_name", IPSO_ARCHIVE_TEST_NAME_0),
                ("ipso3.xml", "ipso3\nnew additional data"),
                ("ipso4.xml", "ipso4"),
            ]);
        } else {
            assert_eq!(cut, None);
        }
        world.power = usize::MAX;
        world.update(&archive_url(IPSO_ARCHIVE_TEST_NAME_0));
        world.assert_fwrollout_directory_content(&[
            ("archive_name", IPSO_ARCHIVE_TEST_NAME_0),
            ("ipso3.xml", "ipso3\nnew additional data"),
            ("ipso4.xml", "ipso4"),
        ]);
        world.assert_base_directory();
    }
}

#[test]
fn a_file_that_cannot_be_stored_ends_the_update_without_a_name() {
    let mut world = World::new(&IPSO_ARCHIVE_A);
    world.install_name(IPSO_ARCHIVE_TEST_NAME_1);
    world.broken.push(format!("{}/fwrolloutd/ipso4.xml.tmp", ROOT));
    let result = world.update(&archive_url(IPSO_ARCHIVE_TEST_NAME_0));
    assert_eq!(result, Some(Err(RegistryError::Store(StoreError::Create))));
    assert!(!world.directory("fwrolloutd").contains_key("archive_name"));
    assert_eq!(world.reloads, 0);
}

#[test]
fn an_empty_name_file_does_not_count() {
    let mut world = World::new(&IPSO_ARCHIVE_A);
    world.install_name("");
    let result = world.update(&archive_url(IPSO_ARCHIVE_TEST_NAME_0));
    assert_eq!(result, Some(Ok(RegistryOutcome::Updated)));
}

fn finished(step: RegistryStep) -> Result<RegistryOutcome, RegistryError> {
    match step {
        RegistryStep::Finished(result) => result,
        other => panic!("{:?}", other),
    }
}

fn registry() -> IpsoRegistry {
    IpsoRegistry::new(b"/root")
}

fn file() -> Definition {
    Definition { path: b"a.xml".to_vec(), content: "a".to_string() }
}

#[test]
fn an_answer_other_than_ok_is_an_error() {
    let mut world = World::new(&IPSO_ARCHIVE_A);
    world.status = 404;
    let result = world.update(&archive_url(IPSO_ARCHIVE_TEST_NAME_0));
    assert_eq!(result, Some(Err(RegistryError::Status(404))));
}

#[test]
fn a_missing_network_is_accepted() {
    for (connect, timeout) in [(true, false), (false, true), (true, true)] {
        let step = registry().update_if_needed(RegistryEvent::NoReply { connect, timeout });
        assert_eq!(finished(step), Ok(RegistryOutcome::Unreachable));
    }
    let step =
        registry().update_if_needed(RegistryEvent::NoReply { connect: false, timeout: false });
    assert_eq!(finished(step), Err(RegistryError::NoReply));
}

#[test]
fn failures_end_an_update() {
    let name = "n".to_string();
    let cases = vec![
        (RegistryEvent::NameHidden { name: name.clone(), success: false }, RegistryError::HideName),
        (
            RegistryEvent::DirCreated { name: name.clone(), success: false },
            RegistryError::CreateDir,
        ),
        (RegistryEvent::DirRemoved { name: name.clone(), gone: false }, RegistryError::RemoveDir),
        (
            RegistryEvent::ArchiveOpened { name: name.clone(), success: false },
            RegistryError::OpenArchive,
        ),
        (
            RegistryEvent::Entry {
                name: name.clone(),
                entry: ArchiveEntry::Broken(EntryError::Header),
            },
            RegistryError::Entry(EntryError::Header),
        ),
        (
            RegistryEvent::Entry {
                name: name.clone(),
                entry: ArchiveEntry::Broken(EntryError::Content),
            },
            RegistryError::Entry(EntryError::Content),
        ),
        (
            RegistryEvent::Entry {
                name: name.clone(),
                entry: ArchiveEntry::Broken(EntryError::Path),
            },
            RegistryError::Entry(EntryError::Path),
        ),
        (
            RegistryEvent::Stored {
                name: name.clone(),
                target: StoreTarget::Name,
                result: Err(StoreError::Write),
            },
            RegistryError::Store(StoreError::Write),
        ),
        (
            RegistryEvent::Stored {
                name: name.clone(),
                target: StoreTarget::Definition(file()),
                result: Err(StoreError::Sync),
            },
            RegistryError::Store(StoreError::Sync),
        ),
        (
            RegistryEvent::Renamed { name, target: StoreTarget::Name, success: false },
            RegistryError::Rename,
        ),
        (
            RegistryEvent::Reply { status: 200, url: "http://host/dir/".to_string() },
            RegistryError::ArchiveName(ArchiveNameError::EmptyName),
        ),
        (
            RegistryEvent::Reply { status: 200, url: "mailto:someone@example.com".to_string() },
            RegistryError::ArchiveName(ArchiveNameError::NoSegments),
        ),
    ];
    for (event, error) in cases {
        assert_eq!(finished(registry().update_if_needed(event)), Err(error));
    }
}

#[test]
fn an_unreadable_file_in_base_is_unpacked() {
    let step = registry().update_if_needed(RegistryEvent::BaseRead {
        name: "n".to_string(),
        file: file(),
        text: None,
    });
    match step {
        RegistryStep::Store { path, content, name, target } => {
            assert_eq!(path, b"/root/fwrolloutd/a.xml.tmp");
            assert_eq!(content, "a");
            assert_eq!(name, "n");
            assert!(matches!(target, StoreTarget::Definition(_)));
        }
        other => panic!("{:?}", other),
    }
}

#[test]
fn the_archive_name_is_the_last_segment_of_the_url() {
    let name = IpsoRegistry::archive_name_from_url("https://host/a/b/archive.tar.gz?x=y#z");
    assert_eq!(name, Ok("archive.tar.gz".to_string()));
    let name = IpsoRegistry::archive_name_from_url("https://host/a%20b.tar.gz");
    assert_eq!(name, Ok("a%20b.tar.gz".to_string()));
    let name = IpsoRegistry::archive_name_from_url("https://host");
    assert_eq!(name, Err(ArchiveNameError::EmptyName));
    let name = IpsoRegistry::archive_name_from_url("data:text/plain,hello");
    assert_eq!(name, Err(ArchiveNameError::NoSegments));
    let name = IpsoRegistry::archive_name_of(&Some(Vec::new()));
    assert_eq!(name, Err(ArchiveNameError::EmptyName));
    let name = IpsoRegistry::archive_name_of(&Some(vec!["a".to_string(), "b".to_string()]));
    assert_eq!(name, Ok("b".to_string()));
}

#[test]
fn an_archive_is_compared_by_name() {
    let ok = |name: &str| Ok(name.to_string());
    let some = |name: &str| Some(name.to_string());
    assert!(!IpsoRegistry::is_update_needed(&some("a"), &ok("a")));
    assert!(IpsoRegistry::is_update_needed(&some("a"), &ok("b")));
    assert!(IpsoRegistry::is_update_needed(&None, &ok("a")));
    assert!(IpsoRegistry::is_update_needed(&some("a"), &Err(ArchiveNameError::EmptyName)));
    assert_eq!(IpsoRegistry::read_archive_name_file(some("")), None);
    assert_eq!(IpsoRegistry::read_archive_name_file(some("a")), some("a"));
    assert_eq!(IpsoRegistry::read_archive_name_file(None), None);
}

#[test]
fn a_definition_is_compared_by_content() {
    let content = "x".to_string();
    assert!(!IpsoRegistry::definition_needs_update(&Some("x".to_string()), &content));
    assert!(IpsoRegistry::definition_needs_update(&Some("y".to_string()), &content));
    assert!(IpsoRegistry::definition_needs_update(&None, &content));
}

#[test]
fn the_registry_lies_under_its_root() {
    for root in ["/var/lib/ipso_definitions/", "/var/lib/ipso_definitions"] {
        let registry = IpsoRegistry::new(root.as_bytes());
        assert_eq!(registry.registry_path_base(), b"/var/lib/ipso_definitions/base");
        assert_eq!(registry.registry_path_fwrolloutd(), b"/var/lib/ipso_definitions/fwrolloutd");
        assert_eq!(
            registry.archive_name_file_path(),
            b"/var/lib/ipso_definitions/fwrolloutd/archive_name"
        );
        assert_eq!(
            registry.archive_name_file_tmp_path(),
            b"/var/lib/ipso_definitions/fwrolloutd/archive_name.tmp"
        );
        assert_eq!(registry.temp_file_path(b"/a/b.xml"), b"/a/b.xml.tmp");
    }
}

#[test]
fn the_downloads_complement_base() {
    let mut world = World::new(&[
        ("ipso1.xml", "ipso1"),
        ("ipso2.xml", "changed"),
        ("extra.xml", "extra"),
    ]);
    world.files.insert(format!("{}/fwrolloutd/old.xml", ROOT), "old".to_string());
    world.files.insert("/elsewhere".to_string(), "kept".to_string());
    world.update(&archive_url("a.tar.gz"));
    world.assert_fwrollout_directory_content(&[
        ("archive_name", "a.tar.gz"),
        ("ipso2.xml", "changed"),
        ("extra.xml", "extra"),
    ]);
    world.assert_base_directory();
    assert_eq!(world.files.get("/elsewhere"), Some(&"kept".to_string()));
}

#[test]
fn old_definitions_that_stay_end_the_update_without_a_name() {
    let mut world = World::new(&IPSO_ARCHIVE_A);
    world.install_name(IPSO_ARCHIVE_TEST_NAME_1);
    let old = format!("{}/fwrolloutd/old.xml", ROOT);
    world.files.insert(old.clone(), "old".to_string());
    world.stuck.push(old);
    let result = world.update(&archive_url(IPSO_ARCHIVE_TEST_NAME_0));
    assert_eq!(result, Some(Err(RegistryError::RemoveDir)));
    world.assert_fwrollout_directory_content(&[("old.xml", "old")]);
    assert_eq!(world.reloads, 0);
    world.stuck.clear();
    let result = world.update(&archive_url(IPSO_ARCHIVE_TEST_NAME_0));
    assert_eq!(result, Some(Ok(RegistryOutcome::Updated)));
    world.assert_fwrollout_directory_content(&[
        ("archive_name", IPSO_ARCHIVE_TEST_NAME_0),
        ("ipso3.xml", "ipso3\nnew additional data"),
        ("ipso4.xml", "ipso4"),
    ]);
}

#[test]
fn a_definition_that_base_does_not_let_read_is_unpacked() {
    let mut world = World::new(&IPSO_ARCHIVE_A);
    world.unreadable.push(format!("{}/base/ipso1.xml", ROOT));
    world.update(&archive_url(IPSO_ARCHIVE_TEST_NAME_0));
    world.assert_fwrollout_directory_content(&[
        ("archive_name", IPSO_ARCHIVE_TEST_NAME_0),
        ("ipso1.xml", "ipso1"),
        ("ipso3.xml", "ipso3\nnew additional data"),
        ("ipso4.xml", "ipso4"),
    ]);
}

#[test]
fn an_archive_with_unusual_names_is_unpacked_once() {
    let mut world = World::new(&[("./x.xml", "x"), ("y.tmp", "y")]);
    world.update(&archive_url(IPSO_ARCHIVE_TEST_NAME_0));
    let result = world.update(&archive_url(IPSO_ARCHIVE_TEST_NAME_0));
    assert_eq!(result, Some(Ok(RegistryOutcome::UpToDate)));
    assert_eq!(world.fetched.len(), 1);
    world.assert_base_directory();
}

#[test]
fn a_path_that_comes_back_stays_among_the_downloads() {
    let mut world = World::new(&[("a/../b.xml", "b"), ("./c.xml", "c")]);
    let before = world.directory("base");
    world.update(&archive_url(IPSO_ARCHIVE_TEST_NAME_0));
    assert_eq!(world.directory("base"), before);
    assert_eq!(world.files.len(), before.len() + 3);
}

#[test]
fn a_url_without_a_name_leaves_all_files() {
    let mut world = World::new(&IPSO_ARCHIVE_A);
    world.install_name(IPSO_ARCHIVE_TEST_NAME_1);
    let before = world.files.clone();
    let result = world.update(&archive_url("directory/"));
    assert_eq!(result, Some(Err(RegistryError::ArchiveName(ArchiveNameError::EmptyName))));
    assert_eq!(world.files, before);
}
