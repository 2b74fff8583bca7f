//! What holds of the registry on the disk while it is updated, and afterwards.

use vstd::prelude::*;
use vstd::string::*;
use vstd::utf8::*;
use crate::links;
use crate::paths;
use crate::registry;
use crate::registry::{
    ArchiveEntry,
    ArchiveNameError,
    Definition,
    IpsoRegistry,
    RegistryError,
    RegistryEvent,
    RegistryOutcome,
    RegistryStep,
    StoreError,
    StoreTarget,
};

verus! {

/// The files of a file system: what reads where.
pub type Files = Map<Seq<u8>, Seq<char>>;

/// What a file reads, if there is one.
pub open spec fn text_at(files: Files, path: Seq<u8>) -> Option<Seq<char>> {
    if files.contains_key(path) {
        Some(files[path])
    } else {
        None
    }
}

/// Whether the path leads into the directory.
pub open spec fn inside(directory: Seq<u8>, path: Seq<u8>) -> bool {
    &&& path.len() > directory.len()
    &&& path.take(directory.len() as int) == directory
    &&& path[directory.len() as int] == paths::SEPARATOR
}

/// What a step that goes well or not makes of the files. The removal of a directory that does not
/// go well may still have removed some of its files, and a file that is not stored well may hold
/// anything.
pub open spec fn effect(step: RegistryStep, before: Files, after: Files, success: bool) -> bool {
    match step {
        RegistryStep::HideName { from, to, .. } => moved(from@, to@, before, after, success),
        RegistryStep::Rename { from, to, .. } => moved(from@, to@, before, after, success),
        RegistryStep::RemoveDir { path, .. } => {
            &&& after.submap_of(before)
            &&& forall|p: Seq<u8>|
                #![trigger after.contains_key(p)]
                before.contains_key(p) && !inside(path@, p) ==> after.contains_key(p)
            &&& success ==> forall|p: Seq<u8>| #[trigger] after.contains_key(p) ==> !inside(path@, p)
        },
        RegistryStep::Store { path, content, .. } => if success {
            after == before.insert(path@, content@)
        } else {
            after.remove(path@) == before.remove(path@)
        },
        _ => after == before,
    }
}

/// What moving a file makes of the files.
pub open spec fn moved(
    from: Seq<u8>,
    to: Seq<u8>,
    before: Files,
    after: Files,
    success: bool,
) -> bool {
    if success {
        before.contains_key(from) && after == before.remove(from).insert(to, before[from])
    } else {
        after == before
    }
}

/// Whether the event reports truthfully on a step. A file may turn out not to be readable.
pub open spec fn answers(
    step: RegistryStep,
    event: RegistryEvent,
    files: Files,
    success: bool,
) -> bool {
    match step {
        RegistryStep::ReadName { path, url } => {
            &&& event matches RegistryEvent::NameRead { url: u, text }
            &&& u == url
            &&& text matches Some(t) ==> text_at(files, path@) == Some(t@)
        },
        RegistryStep::Fetch { .. } => event is Reply || event is NoReply,
        RegistryStep::TestName { path, name } => event == (RegistryEvent::NameTested {
            name,
            is_file: files.contains_key(path@),
        }),
        RegistryStep::HideName { name, .. } => event == (RegistryEvent::NameHidden {
            name,
            success,
        }),
        RegistryStep::RemoveDir { name, .. } => event == (RegistryEvent::DirRemoved {
            name,
            gone: success,
        }),
        RegistryStep::CreateDir { name, .. } => event == (RegistryEvent::DirCreated {
            name,
            success,
        }),
        RegistryStep::OpenArchive { name } => event == (RegistryEvent::ArchiveOpened {
            name,
            success,
        }),
        RegistryStep::NextEntry { name } => {
            event matches RegistryEvent::Entry { name: n, .. } && n == name
        },
        RegistryStep::TestBase { path, name, file } => event == (RegistryEvent::BaseTested {
            name,
            file,
            is_file: files.contains_key(path@),
        }),
        RegistryStep::ReadBase { path, name, file } => {
            &&& event matches RegistryEvent::BaseRead { name: n, file: f, text }
            &&& n == name
            &&& f == file
            &&& text matches Some(t) ==> text_at(files, path@) == Some(t@)
        },
        RegistryStep::Store { name, target, .. } => {
            &&& event matches RegistryEvent::Stored { name: n, target: t, result }
            &&& n == name
            &&& t == target
            &&& result is Ok <==> success
        },
        RegistryStep::Rename { name, target, .. } => event == (RegistryEvent::Renamed {
            name,
            target,
            success,
        }),
        RegistryStep::Reload => event == RegistryEvent::Reloaded,
        RegistryStep::Finished(_) => false,
    }
}

/// Whether the path ends like the path of a temporary file.
pub open spec fn ends_temporary(path: Seq<u8>) -> bool {
    let end = encode_utf8(".tmp"@);
    path.len() >= end.len() && path.skip(path.len() - end.len()) == end
}

/// Whether the path leads down from a directory, by names alone: it is not absolute, and has no
/// empty name, no `.` and no `..` in it.
pub open spec fn descends(path: Seq<u8>) -> bool {
    &&& path.len() > 0
    &&& path.first() != paths::SEPARATOR
    &&& path.last() != paths::SEPARATOR
    &&& forall|i: int|
        #![trigger path[i]]
        0 < i < path.len() && path[i] == paths::SEPARATOR ==> path[i - 1] != paths::SEPARATOR
    &&& forall|i: int|
        #![trigger path[i]]
        0 <= i < path.len() && path[i] == DOT && (i == 0 || path[i - 1] == paths::SEPARATOR) ==> {
            &&& i + 1 < path.len() && path[i + 1] != paths::SEPARATOR
            &&& path[i + 1] == DOT ==> i + 2 < path.len() && path[i + 2] != paths::SEPARATOR
        }
}

/// The names that a path is made of.
pub open spec fn names(path: Seq<u8>) -> Seq<Seq<u8>>
    decreases path.len(),
{
    if path.len() == 0 {
        seq![Seq::empty()]
    } else {
        let earlier = names(path.drop_last());
        if path.last() == paths::SEPARATOR {
            earlier.push(Seq::empty())
        } else {
            earlier.drop_last().push(earlier.last().push(path.last()))
        }
    }
}

/// How far below its start a way by these names leads: `..` leads up, an empty name and `.` lead
/// nowhere, and every other name leads down.
pub open spec fn level(names: Seq<Seq<u8>>) -> int
    decreases names.len(),
{
    if names.len() == 0 {
        0
    } else {
        level(names.drop_last()) + if names.last() == seq![DOT, DOT] {
            -1
        } else if names.last().len() == 0 || names.last() == seq![DOT] {
            0
        } else {
            1int
        }
    }
}

/// Whether the path does not lead out of a directory: it is not absolute, and nowhere on the way has
/// it led up more often than down.
pub open spec fn stays(path: Seq<u8>) -> bool {
    &&& path.len() > 0 ==> path.first() != paths::SEPARATOR
    &&& forall|n: int| 0 <= n <= names(path).len() ==> level(#[trigger] names(path).take(n)) >= 0
}

/// The byte of a full stop.
pub const DOT: u8 = 46;

/// Whether a file of an archive has a place of its own: its path leads down from a directory and
/// is not one that a temporary file could have.
pub open spec fn plain(path: Seq<u8>) -> bool {
    descends(path) && !ends_temporary(path)
}

/// The last name in a path.
pub open spec fn last_name(path: Seq<u8>) -> Seq<u8>
    decreases path.len(),
{
    if path.len() == 0 || path.last() == paths::SEPARATOR {
        Seq::empty()
    } else {
        last_name(path.drop_last()).push(path.last())
    }
}

/// Whether a file of an archive is not called like the file with the archive name.
pub open spec fn spares_name(path: Seq<u8>) -> bool {
    last_name(path) != encode_utf8("archive_name"@)
}

/// Whether the file that the event carries out of an archive is one of the accepted.
pub open spec fn accepted(event: RegistryEvent, accepts: spec_fn(Seq<u8>) -> bool) -> bool {
    event matches RegistryEvent::Entry { entry, .. } ==> entry matches ArchiveEntry::File(file)
        ==> accepts(file.path@)
}

/// Whether what is stored is one of the accepted.
pub open spec fn accepted_target(target: StoreTarget, accepts: spec_fn(Seq<u8>) -> bool) -> bool {
    target matches StoreTarget::Definition(file) ==> accepts(file.path@)
}

impl IpsoRegistry {
    /// Whether the paths of a step are those of the registry, and the files it carries are among
    /// the accepted.
    spec fn shaped(self, step: RegistryStep, accepts: spec_fn(Seq<u8>) -> bool) -> bool {
        match step {
            RegistryStep::ReadName { path, .. } => path@ == self.name_file(),
            RegistryStep::TestName { path, .. } => path@ == self.name_file(),
            RegistryStep::HideName { from, to, .. } => from@ == self.name_file() && to@
                == registry::temporary(self.name_file()),
            RegistryStep::RemoveDir { path, .. } => path@ == self.downloads(),
            RegistryStep::CreateDir { path, .. } => path@ == self.downloads(),
            RegistryStep::TestBase { path, file, .. } => path@ == paths::joined(
                self.base(),
                file.path@,
            ) && accepts(file.path@),
            RegistryStep::ReadBase { path, file, .. } => path@ == paths::joined(
                self.base(),
                file.path@,
            ) && accepts(file.path@),
            RegistryStep::Store { path, content, name, target } => {
                &&& path@ == registry::temporary(self.place(target))
                &&& accepted_target(target, accepts)
                &&& content == match target {
                    StoreTarget::Definition(file) => file.content,
                    StoreTarget::Name => name,
                }
            },
            RegistryStep::Rename { from, to, target, .. } => {
                &&& from@ == registry::temporary(self.place(target))
                &&& to@ == self.place(target)
                &&& accepted_target(target, accepts)
            },
            _ => true,
        }
    }

    /// Whether the definitions are taken to be incomplete where the step is all that is left to
    /// do: no file holds an archive name.
    pub open spec fn guarded(self, step: RegistryStep, files: Files) -> bool {
        (match step {
            RegistryStep::RemoveDir { .. } => true,
            RegistryStep::CreateDir { .. } => true,
            RegistryStep::OpenArchive { .. } => true,
            RegistryStep::NextEntry { .. } => true,
            RegistryStep::TestBase { .. } => true,
            RegistryStep::ReadBase { .. } => true,
            RegistryStep::Store { .. } => true,
            RegistryStep::Rename { .. } => true,
            _ => false,
        }) ==> !files.contains_key(self.name_file())
    }
}

proof fn lemma_literals()
    ensures
        encode_utf8("base"@) == seq![98u8, 97, 115, 101],
        encode_utf8("fwrolloutd"@) == seq![102u8, 119, 114, 111, 108, 108, 111, 117, 116, 100],
        encode_utf8("archive_name"@) == seq![
            97u8,
            114,
            99,
            104,
            105,
            118,
            101,
            95,
            110,
            97,
            109,
            101,
        ],
        encode_utf8(".tmp"@) == seq![46u8, 116, 109, 112],
{
    reveal_strlit("base");
    reveal_strlit("fwrolloutd");
    reveal_strlit("archive_name");
    reveal_strlit(".tmp");
    is_ascii_chars_encode_utf8("base"@);
    is_ascii_chars_encode_utf8("fwrolloutd"@);
    is_ascii_chars_encode_utf8("archive_name"@);
    is_ascii_chars_encode_utf8(".tmp"@);
    assert(encode_utf8("base"@) =~= seq![98u8, 97, 115, 101]);
    assert(encode_utf8("fwrolloutd"@) =~= seq![
        102u8,
        119,
        114,
        111,
        108,
        108,
        111,
        117,
        116,
        100,
    ]);
    assert(encode_utf8("archive_name"@) =~= seq![
        97u8,
        114,
        99,
        104,
        105,
        118,
        101,
        95,
        110,
        97,
        109,
        101,
    ]);
    assert(encode_utf8(".tmp"@) =~= seq![46u8, 116, 109, 112]);
}

/// A name in the directory of the downloads.
spec fn in_downloads(registry: IpsoRegistry, name: Seq<u8>) -> Seq<u8> {
    registry.downloads().push(paths::SEPARATOR) + name
}

proof fn lemma_layout(registry: IpsoRegistry, path: Seq<u8>)
    requires
        path.len() > 0 ==> path.first() != paths::SEPARATOR,
    ensures
        paths::joined(registry.downloads(), path) == in_downloads(registry, path),
        inside(registry.downloads(), in_downloads(registry, path)),
        !inside(registry.downloads(), paths::joined(registry.base(), path)),
{
    lemma_literals();
    let root = registry.root();
    let downloads = registry.downloads();
    let base = registry.base();
    let stem = if root.len() == 0 || root.last() == paths::SEPARATOR {
        root
    } else {
        root.push(paths::SEPARATOR)
    };
    assert(downloads == stem + encode_utf8("fwrolloutd"@));
    assert(base == stem + encode_utf8("base"@));
    assert(downloads.last() == 100u8);
    assert(base.last() == 101u8);
    assert(in_downloads(registry, path).take(downloads.len() as int) =~= downloads);
    let other = paths::joined(base, path);
    if inside(downloads, other) {
        let k = stem.len() as int;
        assert(other.take(downloads.len() as int)[k] == downloads[k]);
        assert(downloads[k] == 102u8);
        assert(other[k] == 98u8);
    }
}

proof fn lemma_last_name(directory: Seq<u8>, path: Seq<u8>)
    requires
        directory.len() > 0,
        directory.last() == paths::SEPARATOR,
    ensures
        last_name(directory + path) == last_name(path),
    decreases path.len(),
{
    if path.len() == 0 {
        assert(directory + path =~= directory);
    } else {
        assert((directory + path).drop_last() =~= directory + path.drop_last());
        lemma_last_name(directory, path.drop_last());
    }
}

proof fn lemma_spares_name(registry: IpsoRegistry, path: Seq<u8>)
    requires
        spares_name(path),
    ensures
        paths::joined(registry.downloads(), path) != registry.name_file(),
{
    lemma_literals();
    let downloads = registry.downloads();
    let name = encode_utf8("archive_name"@);
    assert(downloads.last() == 100u8);
    let directory = downloads.push(paths::SEPARATOR);
    lemma_last_name(directory, name);
    lemma_last_name(directory, path);
    lemma_single_name(name);
}

proof fn lemma_single_name(name: Seq<u8>)
    requires
        !name.contains(paths::SEPARATOR),
    ensures
        last_name(name) == name,
    decreases name.len(),
{
    if name.len() > 0 {
        assert(name.contains(name.last()));
        assert forall|b: u8| name.drop_last().contains(b) implies name.contains(b) by {
            let i = choose|i: int| 0 <= i < name.len() - 1 && name.drop_last()[i] == b;
            assert(name[i] == b);
        }
        lemma_single_name(name.drop_last());
        assert(name.drop_last().push(name.last()) =~= name);
    } else {
        assert(last_name(name) =~= name);
    }
}

proof fn lemma_temporary(registry: IpsoRegistry, path: Seq<u8>)
    ensures
        ends_temporary(registry::temporary(path)),
        registry::temporary(path) != registry.name_file(),
        registry::temporary(path) != path,
{
    lemma_literals();
    let temp = registry::temporary(path);
    let end = encode_utf8(".tmp"@);
    assert(temp.skip(temp.len() - end.len()) =~= end);
    assert(temp.last() == 112u8);
    let file = registry.name_file();
    let name = encode_utf8("archive_name"@);
    assert(name.len() > 0);
    assert(file.last() == 101u8);
}

proof fn lemma_shaped(
    registry: IpsoRegistry,
    step: RegistryStep,
    files: Files,
    success: bool,
    event: RegistryEvent,
    next: RegistryStep,
    accepts: spec_fn(Seq<u8>) -> bool,
)
    requires
        registry.shaped(step, accepts),
        answers(step, event, files, success),
        accepted(event, accepts),
        registry.stepped(event, IpsoRegistry::offered(event), next),
    ensures
        registry.shaped(next, accepts),
{
}

proof fn lemma_guarded(registry: IpsoRegistry, turn: Turn, next: RegistryStep)
    requires
        registry.shaped(turn.step, |p: Seq<u8>| spares_name(p)),
        registry.guarded(turn.step, turn.before),
        turn.happens(),
        registry.stepped(turn.event, IpsoRegistry::offered(turn.event), next),
    ensures
        registry.guarded(next, turn.after),
{
    let name_file = registry.name_file();
    match turn.step {
        RegistryStep::HideName { .. } => {
            lemma_temporary(registry, name_file);
        },
        RegistryStep::Store { path, target, .. } => {
            lemma_temporary(registry, registry.place(target));
            if !turn.success {
                assert(turn.after.remove(path@).contains_key(name_file)
                    == turn.before.remove(path@).contains_key(name_file));
            }
        },
        RegistryStep::Rename { target, .. } => {
            match target {
                StoreTarget::Definition(file) => {
                    lemma_spares_name(registry, file.path@);
                },
                StoreTarget::Name => {},
            }
        },
        _ => {},
    }
}

/// One step of an update of the registry: the step, how it went, and what was reported.
pub struct Turn {
    pub step: RegistryStep,
    pub before: Files,
    pub success: bool,
    pub after: Files,
    pub event: RegistryEvent,
}

impl Turn {
    /// Whether the step did to the files what it says, and was reported truthfully.
    pub open spec fn happens(self) -> bool {
        &&& effect(self.step, self.before, self.after, self.success)
        &&& answers(self.step, self.event, self.after, self.success)
    }
}

impl IpsoRegistry {
    /// Whether the turn in the given place goes on where the one before it ended.
    pub open spec fn goes_on(self, run: Seq<Turn>, i: int) -> bool {
        &&& run[i].before == run[i - 1].after
        &&& self.stepped(
            run[i - 1].event,
            IpsoRegistry::offered(run[i - 1].event),
            run[i].step,
        )
    }

    /// Whether the turns are the beginning of an update, or all of it.
    pub open spec fn is_run(self, url: String, run: Seq<Turn>) -> bool {
        &&& run.len() > 0
        &&& self.stepped(
            RegistryEvent::Begin { url },
            IpsoRegistry::offered(RegistryEvent::Begin { url }),
            run[0].step,
        )
        &&& forall|i: int| 0 <= i < run.len() ==> (#[trigger] run[i]).happens()
        &&& forall|i: int| 0 < i < run.len() ==> #[trigger] self.goes_on(run, i)
    }
}

/// Whether all files that the archive held so far are among the accepted.
pub open spec fn all_accepted(run: Seq<Turn>, accepts: spec_fn(Seq<u8>) -> bool) -> bool {
    forall|i: int| 0 <= i < run.len() ==> accepted((#[trigger] run[i]).event, accepts)
}

proof fn lemma_part(
    registry: IpsoRegistry,
    url: String,
    run: Seq<Turn>,
    part: Seq<Turn>,
    accepts: spec_fn(Seq<u8>) -> bool,
)
    requires
        registry.is_run(url, run),
        all_accepted(run, accepts),
        0 < part.len() <= run.len(),
        part == run.take(part.len() as int),
    ensures
        registry.is_run(url, part),
        all_accepted(part, accepts),
{
    assert forall|i: int| 0 <= i < part.len() implies #[trigger] part[i] == run[i] by {}
    assert forall|i: int| 0 < i < part.len() implies #[trigger] registry.goes_on(part, i) by {
        assert(registry.goes_on(run, i));
    }
}

proof fn lemma_run_shaped(
    registry: IpsoRegistry,
    url: String,
    run: Seq<Turn>,
    accepts: spec_fn(Seq<u8>) -> bool,
)
    requires
        registry.is_run(url, run),
        all_accepted(run, accepts),
    ensures
        registry.shaped(run.last().step, accepts),
    decreases run.len(),
{
    if run.len() > 1 {
        let earlier = run.drop_last();
        let last = earlier.last();
        assert(earlier =~= run.take(run.len() - 1));
        lemma_part(registry, url, run, earlier, accepts);
        lemma_run_shaped(registry, url, earlier, accepts);
        assert(registry.goes_on(run, run.len() - 1));
        assert(last.happens());
        lemma_shaped(
            registry,
            last.step,
            last.after,
            last.success,
            last.event,
            run.last().step,
            accepts,
        );
    }
}

proof fn lemma_run_guarded(registry: IpsoRegistry, url: String, run: Seq<Turn>)
    requires
        registry.is_run(url, run),
        all_accepted(run, |p: Seq<u8>| spares_name(p)),
    ensures
        registry.guarded(run.last().step, run.last().before),
    decreases run.len(),
{
    if run.len() > 1 {
        let earlier = run.drop_last();
        let accepts = |p: Seq<u8>| spares_name(p);
        assert(earlier =~= run.take(run.len() - 1));
        lemma_part(registry, url, run, earlier, accepts);
        lemma_run_guarded(registry, url, earlier);
        lemma_run_shaped(registry, url, earlier, accepts);
        assert(registry.goes_on(run, run.len() - 1));
        assert(earlier.last().happens());
        lemma_guarded(registry, earlier.last(), run.last().step);
    }
}

/// From the moment on at which an update begins to remove the old definitions, and until the new
/// ones are complete, no file holds an archive name: before each step and after it, however the
/// steps went, so also where the update breaks off there. Only the step that moves the new name to
/// its place, when it goes well, ends that. Archives with a file that is called like the file with
/// the archive name are left out.
pub proof fn law_unfinished_update_has_no_name(
    registry: IpsoRegistry,
    url: String,
    run: Seq<Turn>,
    i: int,
)
    requires
        registry.is_run(url, run),
        all_accepted(run, |p: Seq<u8>| spares_name(p)),
        0 <= i < run.len(),
    ensures
        registry.guarded(run[i].step, run[i].before),
        registry.guarded(run[i].step, run[i].after) || (run[i].step matches RegistryStep::Rename {
            target,
            ..
        } && target is Name && run[i].success),
{
    let part = run.take(i + 1);
    let accepts = |p: Seq<u8>| spares_name(p);
    lemma_part(registry, url, run, part, accepts);
    lemma_run_guarded(registry, url, part);
    lemma_run_shaped(registry, url, part, accepts);
    assert(part.last() == run[i]);
    assert(run[i].happens());
    match run[i].step {
        RegistryStep::Store { path, target, .. } => {
            lemma_temporary(registry, registry.place(target));
            if !run[i].success {
                let name_file = registry.name_file();
                assert(run[i].after.remove(path@).contains_key(name_file)
                    == run[i].before.remove(path@).contains_key(name_file));
            }
        },
        RegistryStep::Rename { target, .. } => {
            match target {
                StoreTarget::Definition(file) => {
                    lemma_spares_name(registry, file.path@);
                },
                StoreTarget::Name => {},
            }
        },
        _ => {},
    }
}

proof fn lemma_place_inside(registry: IpsoRegistry, target: StoreTarget)
    requires
        target matches StoreTarget::Definition(file) ==> file.path@.len() > 0 ==> file.path@.first()
            != paths::SEPARATOR,
    ensures
        inside(registry.downloads(), registry.place(target)),
        inside(registry.downloads(), registry::temporary(registry.place(target))),
{
    let place = registry.place(target);
    let temp = registry::temporary(place);
    let downloads = registry.downloads();
    match target {
        StoreTarget::Definition(file) => {
            lemma_layout(registry, file.path@);
        },
        StoreTarget::Name => {
            lemma_name_file_inside(registry);
        },
    }
    assert(temp.take(downloads.len() as int) =~= place.take(downloads.len() as int));
}

proof fn lemma_outside_stays(registry: IpsoRegistry, turn: Turn, path: Seq<u8>)
    requires
        registry.shaped(turn.step, |p: Seq<u8>| stays(p)),
        turn.happens(),
        !inside(registry.downloads(), path),
    ensures
        text_at(turn.after, path) == text_at(turn.before, path),
{
    match turn.step {
        RegistryStep::HideName { .. } => {
            lemma_place_inside(registry, StoreTarget::Name);
        },
        RegistryStep::Store { path: file, target, .. } => {
            lemma_place_inside(registry, target);
            if !turn.success {
                assert(text_at(turn.after.remove(file@), path) == text_at(
                    turn.before.remove(file@),
                    path,
                ));
            }
        },
        RegistryStep::Rename { target, .. } => {
            lemma_place_inside(registry, target);
        },
        _ => {},
    }
}

/// An update changes nothing outside the directory of the downloads, so nothing in `base` either,
/// however its steps go. Archives with a file whose path leads out of a directory are left out.
pub proof fn law_only_downloads_change(
    registry: IpsoRegistry,
    url: String,
    run: Seq<Turn>,
    path: Seq<u8>,
)
    requires
        registry.is_run(url, run),
        all_accepted(run, |p: Seq<u8>| stays(p)),
        !inside(registry.downloads(), path),
    ensures
        text_at(run.last().after, path) == text_at(run[0].before, path),
    decreases run.len(),
{
    let accepts = |p: Seq<u8>| stays(p);
    lemma_run_shaped(registry, url, run, accepts);
    assert(run.last().happens());
    lemma_outside_stays(registry, run.last(), path);
    if run.len() > 1 {
        let earlier = run.drop_last();
        assert(earlier =~= run.take(run.len() - 1));
        lemma_part(registry, url, run, earlier, accepts);
        law_only_downloads_change(registry, url, earlier, path);
        assert(registry.goes_on(run, run.len() - 1));
    }
}

/// An update that fails leaves `base` as it was, and it leaves either all files as they were or no
/// file with an archive name, so that the next update fetches the archive. Where the URL does not
/// name an archive all files are as they were. Archives with a file that is called like the file
/// with the archive name, or whose path leads out of a directory, are left out.
pub proof fn law_failed_update_is_recognised(
    registry: IpsoRegistry,
    url: String,
    run: Seq<Turn>,
    error: RegistryError,
)
    requires
        registry.is_run(url, run),
        all_accepted(run, |p: Seq<u8>| spares_name(p)),
        all_accepted(run, |p: Seq<u8>| stays(p)),
        registry.stepped(
            run.last().event,
            IpsoRegistry::offered(run.last().event),
            RegistryStep::Finished(Err(error)),
        ),
    ensures
        forall|p: Seq<u8>|
            !inside(registry.downloads(), p) ==> #[trigger] text_at(run.last().after, p) == text_at(
                run[0].before,
                p,
            ),
        run.last().after == run[0].before || !run.last().after.contains_key(registry.name_file()),
        error is ArchiveName ==> run.last().after == run[0].before,
{
    assert forall|p: Seq<u8>| !inside(registry.downloads(), p) implies #[trigger] text_at(
        run.last().after,
        p,
    ) == text_at(run[0].before, p) by {
        law_only_downloads_change(registry, url, run, p);
    }
    let i = run.len() - 1;
    law_unfinished_update_has_no_name(registry, url, run, i);
    lemma_run_cleared(registry, url, run);
    assert(run[i].happens());
}

/// Where no file holds an archive name, an update fetches the archive: what was left unfinished is
/// done over.
pub proof fn law_missing_name_leads_to_fetch(
    registry: IpsoRegistry,
    url: String,
    files: Files,
    first: RegistryStep,
    event: RegistryEvent,
    second: RegistryStep,
    success: bool,
)
    requires
        !files.contains_key(registry.name_file()),
        registry.stepped(
            RegistryEvent::Begin { url },
            IpsoRegistry::offered(RegistryEvent::Begin { url }),
            first,
        ),
        answers(first, event, files, success),
        registry.stepped(event, IpsoRegistry::offered(event), second),
    ensures
        second == (RegistryStep::Fetch { url }),
{
}

/// Where the file with the archive name holds the name of the archive that is offered, an update
/// does nothing.
pub proof fn law_installed_archive_is_not_fetched(
    registry: IpsoRegistry,
    url: String,
    files: Files,
    first: RegistryStep,
    event: RegistryEvent,
    second: RegistryStep,
    success: bool,
)
    requires
        archive_in(url@) matches Some(name) && text_at(files, registry.name_file()) == Some(name),
        registry.stepped(
            RegistryEvent::Begin { url },
            IpsoRegistry::offered(RegistryEvent::Begin { url }),
            first,
        ),
        answers(first, event, files, success),
        event matches RegistryEvent::NameRead { text, .. } && text is Some,
        registry.stepped(event, IpsoRegistry::offered(event), second),
    ensures
        second == RegistryStep::Finished(Ok(RegistryOutcome::UpToDate)),
{
}

/// A file that an archive held, and whether the file of the same name in `base`, if there is one,
/// could be read.
pub struct Held {
    pub file: Definition,
    pub readable: bool,
}

/// The files that the archive held, in the order in which they came.
pub open spec fn held(run: Seq<Turn>) -> Seq<Held>
    decreases run.len(),
{
    if run.len() == 0 {
        Seq::empty()
    } else {
        noted(held(run.drop_last()), run.last().event)
    }
}

/// The files that the archive held, after one more event.
pub open spec fn noted(archive: Seq<Held>, event: RegistryEvent) -> Seq<Held> {
    match event {
        RegistryEvent::Entry { entry: ArchiveEntry::File(file), .. } => archive.push(
            Held { file, readable: true },
        ),
        RegistryEvent::BaseRead { file, text: None, .. } => archive.drop_last().push(
            Held { file, readable: false },
        ),
        _ => archive,
    }
}

/// The name of the archive that a URL leads to: the last segment of its path, unless that is empty.
pub open spec fn archive_in(url: Seq<char>) -> Option<Seq<char>> {
    match links::path_segments_of(url) {
        Some(segments) => if segments.len() > 0 && segments[segments.len() - 1].len() > 0 {
            Some(segments[segments.len() - 1])
        } else {
            None
        },
        None => None,
    }
}

/// The name of the archive, once it is known.
pub open spec fn announced(run: Seq<Turn>) -> Option<Seq<char>>
    decreases run.len(),
{
    if run.len() == 0 {
        None
    } else {
        match run.last().event {
            RegistryEvent::Reply { url, .. } => if archive_in(url@) is Some {
                archive_in(url@)
            } else {
                announced(run.drop_last())
            },
            _ => announced(run.drop_last()),
        }
    }
}

impl IpsoRegistry {
    /// The files without those in the directory of the downloads.
    pub open spec fn cleared(self, files: Files) -> Files {
        files.restrict(Set::new(|p: Seq<u8>| !inside(self.downloads(), p)))
    }

    /// Whether a file of an archive has to be unpacked: unless the file of the same name in
    /// `base` can be read and reads the same.
    pub open spec fn is_news(self, files: Files, held: Held) -> bool {
        !held.readable || text_at(files, paths::joined(self.base(), held.file.path@)) != Some(
            held.file.content@,
        )
    }

    /// The files when those of an archive have been unpacked: in place of all former downloads,
    /// the files of the archive that `base` does not hold.
    pub open spec fn unpacked(self, files: Files, archive: Seq<Held>) -> Files
        decreases archive.len(),
    {
        if archive.len() == 0 {
            self.cleared(files)
        } else {
            let earlier = self.unpacked(files, archive.drop_last());
            let last = archive.last();
            if self.is_news(files, last) {
                earlier.insert(
                    paths::joined(self.downloads(), last.file.path@),
                    last.file.content@,
                )
            } else {
                earlier
            }
        }
    }

    /// What the files are like when a step is to come next. `origin` are the files at the start,
    /// `archive` the files that the archive held so far.
    spec fn placed(
        self,
        origin: Files,
        archive: Seq<Held>,
        name: Option<Seq<char>>,
        step: RegistryStep,
        files: Files,
    ) -> bool {
        match step {
            RegistryStep::ReadName { .. } => archive.len() == 0 && files == origin,
            RegistryStep::Fetch { .. } => archive.len() == 0 && files == origin,
            RegistryStep::TestName { name: n, .. } => {
                archive.len() == 0 && files == origin && name == Some(n@)
            },
            RegistryStep::HideName { name: n, .. } => {
                archive.len() == 0 && files == origin && name == Some(n@)
            },
            RegistryStep::RemoveDir { name: n, .. } => {
                archive.len() == 0 && self.cleared(files) == self.cleared(origin) && name == Some(
                    n@,
                )
            },
            RegistryStep::CreateDir { name: n, .. } => {
                archive.len() == 0 && files == self.cleared(origin) && name == Some(n@)
            },
            RegistryStep::OpenArchive { name: n } => {
                archive.len() == 0 && files == self.cleared(origin) && name == Some(n@)
            },
            RegistryStep::NextEntry { name: n } => {
                files == self.unpacked(origin, archive) && name == Some(n@)
            },
            RegistryStep::TestBase { name: n, file, .. } => {
                &&& archive.len() > 0
                &&& archive.last() == (Held { file, readable: true })
                &&& files == self.unpacked(origin, archive.drop_last())
                &&& name == Some(n@)
            },
            RegistryStep::ReadBase { name: n, file, .. } => {
                &&& archive.len() > 0
                &&& archive.last() == (Held { file, readable: true })
                &&& files == self.unpacked(origin, archive.drop_last())
                &&& name == Some(n@)
            },
            RegistryStep::Store { name: n, target, .. } => {
                &&& name == Some(n@)
                &&& match target {
                    StoreTarget::Definition(file) => {
                        &&& archive.len() > 0
                        &&& archive.last().file == file
                        &&& self.is_news(origin, archive.last())
                        &&& files == self.unpacked(origin, archive.drop_last())
                    },
                    StoreTarget::Name => files == self.unpacked(origin, archive),
                }
            },
            RegistryStep::Rename { from, name: n, target, .. } => {
                &&& name == Some(n@)
                &&& match target {
                    StoreTarget::Definition(file) => {
                        &&& archive.len() > 0
                        &&& archive.last().file == file
                        &&& self.is_news(origin, archive.last())
                        &&& files == self.unpacked(origin, archive.drop_last()).insert(
                            from@,
                            file.content@,
                        )
                    },
                    StoreTarget::Name => files == self.unpacked(origin, archive).insert(
                        from@,
                        n@,
                    ),
                }
            },
            RegistryStep::Reload => {
                name matches Some(n) && files == self.unpacked(origin, archive).insert(
                    self.name_file(),
                    n,
                )
            },
            RegistryStep::Finished(_) => true,
        }
    }
}

/// Whether all files of an archive are plain.
pub open spec fn all_plain(archive: Seq<Held>) -> bool {
    forall|i: int| 0 <= i < archive.len() ==> plain((#[trigger] archive[i]).file.path@)
}

proof fn lemma_all_plain(archive: Seq<Held>)
    requires
        all_plain(archive),
        archive.len() > 0,
    ensures
        all_plain(archive.drop_last()),
{
    let earlier = archive.drop_last();
    assert forall|i: int| 0 <= i < earlier.len() implies plain((#[trigger] earlier[i]).file.path@) by {
        assert(earlier[i] == archive[i]);
    }
}

proof fn lemma_unpacked_keys(
    registry: IpsoRegistry,
    files: Files,
    archive: Seq<Held>,
    path: Seq<u8>,
)
    requires
        all_plain(archive),
        registry.unpacked(files, archive).contains_key(path),
        inside(registry.downloads(), path),
    ensures
        exists|i: int|
            0 <= i < archive.len() && path == paths::joined(
                registry.downloads(),
                (#[trigger] archive[i]).file.path@,
            ),
    decreases archive.len(),
{
    if archive.len() > 0 {
        let n = archive.len() - 1;
        assert(archive.last() == archive[n]);
        if path != paths::joined(registry.downloads(), archive[n].file.path@) {
            let earlier = archive.drop_last();
            lemma_all_plain(archive);
            lemma_unpacked_keys(registry, files, earlier, path);
            let i = choose|i: int|
                0 <= i < earlier.len() && path == paths::joined(
                    registry.downloads(),
                    (#[trigger] earlier[i]).file.path@,
                );
            assert(archive[i] == earlier[i]);
        }
    }
}

proof fn lemma_unpacked_outside(
    registry: IpsoRegistry,
    files: Files,
    archive: Seq<Held>,
    path: Seq<u8>,
)
    requires
        all_plain(archive),
        !inside(registry.downloads(), path),
    ensures
        text_at(registry.unpacked(files, archive), path) == text_at(files, path),
    decreases archive.len(),
{
    if archive.len() > 0 {
        let n = archive.len() - 1;
        let earlier = archive.drop_last();
        assert(plain(archive[n].file.path@));
        lemma_layout(registry, archive[n].file.path@);
        lemma_all_plain(archive);
        lemma_unpacked_outside(registry, files, earlier, path);
    }
}

proof fn lemma_temporary_is_new(
    registry: IpsoRegistry,
    files: Files,
    archive: Seq<Held>,
    target: StoreTarget,
)
    requires
        all_plain(archive),
        accepted_target(target, |p: Seq<u8>| plain(p)),
    ensures
        !registry.unpacked(files, archive).contains_key(
            registry::temporary(registry.place(target)),
        ),
{
    let place = registry.place(target);
    let temp = registry::temporary(place);
    let downloads = registry.downloads();
    lemma_temporary(registry, place);
    lemma_place_inside(registry, target);
    if registry.unpacked(files, archive).contains_key(temp) {
        lemma_unpacked_keys(registry, files, archive, temp);
        let i = choose|i: int|
            0 <= i < archive.len() && temp == paths::joined(
                downloads,
                (#[trigger] archive[i]).file.path@,
            );
        let path = archive[i].file.path@;
        assert(plain(path));
        lemma_layout(registry, path);
        lemma_literals();
        let end = encode_utf8(".tmp"@);
        if path.len() >= end.len() {
            assert(path.skip(path.len() - end.len()) =~= temp.skip(temp.len() - end.len()));
        } else {
            // The separator would have to be one of the bytes of the ending.
            let k = downloads.len() as int;
            assert(temp[k] == paths::SEPARATOR);
            assert(temp.skip(temp.len() - end.len())[k - (temp.len() - end.len())] == temp[k]);
        }
    }
}

proof fn lemma_name_file_inside(registry: IpsoRegistry)
    ensures
        inside(registry.downloads(), registry.name_file()),
{
    lemma_literals();
    let downloads = registry.downloads();
    assert(downloads.last() == 100u8);
    assert(registry.name_file().take(downloads.len() as int) =~= downloads);
}

proof fn lemma_placed(
    registry: IpsoRegistry,
    origin: Files,
    archive: Seq<Held>,
    name: Option<Seq<char>>,
    turn: Turn,
    next: RegistryStep,
    archive_next: Seq<Held>,
    name_next: Option<Seq<char>>,
)
    requires
        registry.shaped(turn.step, |p: Seq<u8>| plain(p)),
        registry.placed(origin, archive, name, turn.step, turn.before),
        all_plain(archive),
        turn.happens(),
        !(next is Finished),
        accepted(turn.event, |p: Seq<u8>| plain(p)),
        registry.stepped(turn.event, IpsoRegistry::offered(turn.event), next),
        archive_next == noted(archive, turn.event),
        name_next == match turn.event {
            RegistryEvent::Reply { url, .. } => if archive_in(url@) is Some {
                archive_in(url@)
            } else {
                name
            },
            _ => name,
        },
    ensures
        registry.placed(origin, archive_next, name_next, next, turn.after),
        all_plain(archive_next),
{
    match turn.step {
        RegistryStep::TestName { .. } => {},
        RegistryStep::HideName { from, to, .. } => {
            lemma_place_inside(registry, StoreTarget::Name);
            assert(registry.cleared(turn.after) =~= registry.cleared(origin));
        },
        RegistryStep::RemoveDir { .. } => {
            assert(turn.after =~= registry.cleared(turn.before));
        },
        RegistryStep::OpenArchive { .. } => {},
        RegistryStep::NextEntry { .. } => {
            match turn.event {
                RegistryEvent::Entry { entry: ArchiveEntry::File(file), .. } => {
                    assert(archive_next.drop_last() =~= archive);
                    assert(archive_next.last() == (Held { file, readable: true }));
                },
                _ => {},
            }
        },
        RegistryStep::TestBase { path, file, .. } => {
            lemma_all_plain(archive);
            lemma_layout(registry, file.path@);
            lemma_unpacked_outside(registry, origin, archive.drop_last(), path@);
        },
        RegistryStep::ReadBase { path, file, .. } => {
            lemma_all_plain(archive);
            lemma_layout(registry, file.path@);
            lemma_unpacked_outside(registry, origin, archive.drop_last(), path@);
            assert(archive_next.drop_last() =~= archive.drop_last());
        },
        RegistryStep::Store { .. } => {},
        RegistryStep::Rename { from, to, target, .. } => {
            match target {
                StoreTarget::Definition(file) => {
                    let earlier = archive.drop_last();
                    lemma_all_plain(archive);
                    lemma_temporary_is_new(registry, origin, earlier, target);
                    assert(turn.after =~= registry.unpacked(origin, archive));
                },
                StoreTarget::Name => {
                    lemma_temporary_is_new(registry, origin, archive, target);
                    assert(turn.after =~= registry.unpacked(origin, archive).insert(
                        registry.name_file(),
                        name->0,
                    ));
                },
            }
        },
        _ => {},
    }
}

proof fn lemma_run_placed(registry: IpsoRegistry, url: String, run: Seq<Turn>)
    requires
        registry.is_run(url, run),
        all_accepted(run, |p: Seq<u8>| plain(p)),
    ensures
        registry.placed(
            run[0].before,
            held(run.drop_last()),
            announced(run.drop_last()),
            run.last().step,
            run.last().before,
        ),
        all_plain(held(run.drop_last())),
    decreases run.len(),
{
    if run.len() > 1 {
        let earlier = run.drop_last();
        assert(earlier =~= run.take(run.len() - 1));
        lemma_part(registry, url, run, earlier, |p: Seq<u8>| plain(p));
        lemma_run_placed(registry, url, earlier);
        lemma_run_shaped(registry, url, earlier, |p: Seq<u8>| plain(p));
        assert(registry.goes_on(run, run.len() - 1));
        assert(earlier.last().happens());
        assert(run.last().happens());
        lemma_placed(
            registry,
            run[0].before,
            held(earlier.drop_last()),
            announced(earlier.drop_last()),
            earlier.last(),
            run.last().step,
            held(earlier),
            announced(earlier),
        );
    }
}

/// An update that gets so far that only the device service is still to be told leaves the file with
/// the name of the archive, the files of the archive that `base` does not hold or whose file in
/// `base` cannot be read, no other downloads, and all else as it was. Archives with a file that is
/// not plain are left out.
pub proof fn law_update_lays_out_archive(registry: IpsoRegistry, url: String, run: Seq<Turn>)
    requires
        registry.is_run(url, run),
        all_accepted(run, |p: Seq<u8>| plain(p)),
        run.last().step is Reload,
    ensures
        announced(run.drop_last()) matches Some(name) && run.last().before == registry.unpacked(
            run[0].before,
            held(run.drop_last()),
        ).insert(registry.name_file(), name),
{
    lemma_run_placed(registry, url, run);
}

/// The name of the archive that a step carries along.
spec fn carried(step: RegistryStep) -> Option<String> {
    match step {
        RegistryStep::TestName { name, .. } => Some(name),
        RegistryStep::HideName { name, .. } => Some(name),
        RegistryStep::RemoveDir { name, .. } => Some(name),
        RegistryStep::CreateDir { name, .. } => Some(name),
        RegistryStep::OpenArchive { name } => Some(name),
        RegistryStep::NextEntry { name } => Some(name),
        RegistryStep::TestBase { name, .. } => Some(name),
        RegistryStep::ReadBase { name, .. } => Some(name),
        RegistryStep::Store { name, .. } => Some(name),
        RegistryStep::Rename { name, .. } => Some(name),
        _ => None,
    }
}

/// Whether the file with the archive name is on its way, where the step is to store it, and in its
/// place when only the device service is still to be told.
spec fn name_placed(
    registry: IpsoRegistry,
    name: Option<Seq<char>>,
    step: RegistryStep,
    files: Files,
) -> bool {
    &&& carried(step) matches Some(n) ==> name == Some(n@)
    &&& step matches RegistryStep::Rename { target: StoreTarget::Name, .. } ==> text_at(
        files,
        registry::temporary(registry.name_file()),
    ) == name
    &&& step is Reload ==> name is Some && text_at(files, registry.name_file()) == name
}

proof fn lemma_run_name_placed(registry: IpsoRegistry, url: String, run: Seq<Turn>)
    requires
        registry.is_run(url, run),
    ensures
        name_placed(registry, announced(run.drop_last()), run.last().step, run.last().before),
    decreases run.len(),
{
    if run.len() > 1 {
        let earlier = run.drop_last();
        let last = earlier.last();
        let accepts = |p: Seq<u8>| true;
        assert(earlier =~= run.take(run.len() - 1));
        lemma_part(registry, url, run, earlier, accepts);
        lemma_run_shaped(registry, url, earlier, accepts);
        lemma_run_name_placed(registry, url, earlier);
        assert(registry.goes_on(run, run.len() - 1));
        assert(last.happens());
    }
}

/// An archive that was unpacked is not fetched a second time: when an update got so far that only
/// the device service was still to be told, another one for an archive of the same name does
/// nothing, where the file with the archive name can be read.
pub proof fn law_archive_is_unpacked_once(
    registry: IpsoRegistry,
    url: String,
    run: Seq<Turn>,
    again: String,
    first: RegistryStep,
    event: RegistryEvent,
    second: RegistryStep,
    success: bool,
)
    requires
        registry.is_run(url, run),
        run.last().step is Reload,
        archive_in(again@) matches Some(name) && announced(run.drop_last()) == Some(name),
        registry.stepped(
            RegistryEvent::Begin { url: again },
            IpsoRegistry::offered(RegistryEvent::Begin { url: again }),
            first,
        ),
        answers(first, event, run.last().after, success),
        event matches RegistryEvent::NameRead { text, .. } && text is Some,
        registry.stepped(event, IpsoRegistry::offered(event), second),
    ensures
        second == RegistryStep::Finished(Ok(RegistryOutcome::UpToDate)),
{
    lemma_run_name_placed(registry, url, run);
    assert(run.last().happens());
    law_installed_archive_is_not_fetched(
        registry,
        again,
        run.last().after,
        first,
        event,
        second,
        success,
    );
}

/// When the archive is about to be read, the directory of the downloads is empty, whether or not it
/// was there before, and nothing else has changed.
pub proof fn law_archive_meets_empty_directory(
    registry: IpsoRegistry,
    url: String,
    run: Seq<Turn>,
)
    requires
        registry.is_run(url, run),
        run.last().step is OpenArchive,
    ensures
        forall|p: Seq<u8>|
            #![trigger text_at(run.last().before, p)]
            text_at(run.last().before, p) == if inside(registry.downloads(), p) {
                None
            } else {
                text_at(run[0].before, p)
            },
{
    lemma_run_cleared(registry, url, run);
}

/// What the files are like up to the point at which the archive is read.
spec fn clearing(
    registry: IpsoRegistry,
    origin: Files,
    step: RegistryStep,
    files: Files,
) -> bool {
    match step {
        RegistryStep::ReadName { .. } => files == origin,
        RegistryStep::Fetch { .. } => files == origin,
        RegistryStep::TestName { .. } => files == origin,
        RegistryStep::HideName { .. } => files == origin,
        RegistryStep::RemoveDir { .. } => registry.cleared(files) == registry.cleared(origin),
        RegistryStep::CreateDir { .. } => files == registry.cleared(origin),
        RegistryStep::OpenArchive { .. } => files == registry.cleared(origin),
        _ => true,
    }
}

proof fn lemma_run_cleared(registry: IpsoRegistry, url: String, run: Seq<Turn>)
    requires
        registry.is_run(url, run),
    ensures
        clearing(registry, run[0].before, run.last().step, run.last().before),
    decreases run.len(),
{
    if run.len() > 1 {
        let earlier = run.drop_last();
        let last = earlier.last();
        let accepts = |p: Seq<u8>| true;
        assert(earlier =~= run.take(run.len() - 1));
        lemma_part(registry, url, run, earlier, accepts);
        lemma_run_shaped(registry, url, earlier, accepts);
        lemma_run_cleared(registry, url, earlier);
        assert(registry.goes_on(run, run.len() - 1));
        assert(last.happens());
        assert(run.last().happens());
        match last.step {
            RegistryStep::HideName { .. } => {
                lemma_place_inside(registry, StoreTarget::Name);
                assert(registry.cleared(last.after) =~= registry.cleared(last.before));
            },
            RegistryStep::RemoveDir { .. } => {
                assert(last.after =~= registry.cleared(last.before));
            },
            _ => {},
        }
    }
}

/// What was unpacked of an archive whose files are plain and differ in their names: a file is
/// among the downloads just where `base` does not hold it, or holds one that cannot be read, with
/// the content that the archive gave it; there are no other downloads; and nothing outside the
/// downloads has changed.
pub proof fn law_downloads_complement_base(
    registry: IpsoRegistry,
    files: Files,
    archive: Seq<Held>,
)
    requires
        all_plain(archive),
        forall|i: int, j: int|
            0 <= i < j < archive.len() ==> (#[trigger] archive[i]).file.path@ != (#[trigger]
            archive[j]).file.path@,
    ensures
        forall|i: int|
            #![trigger archive[i]]
            0 <= i < archive.len() ==> text_at(
                registry.unpacked(files, archive),
                paths::joined(registry.downloads(), archive[i].file.path@),
            ) == if registry.is_news(files, archive[i]) {
                Some(archive[i].file.content@)
            } else {
                None
            },
        forall|p: Seq<u8>| #[trigger]
            registry.unpacked(files, archive).contains_key(p) && inside(registry.downloads(), p)
                ==> exists|i: int|
                0 <= i < archive.len() && p == paths::joined(
                    registry.downloads(),
                    (#[trigger] archive[i]).file.path@,
                ),
        forall|p: Seq<u8>|
            !inside(registry.downloads(), p) ==> #[trigger] text_at(
                registry.unpacked(files, archive),
                p,
            ) == text_at(files, p),
    decreases archive.len(),
{
    assert forall|p: Seq<u8>| #[trigger]
        registry.unpacked(files, archive).contains_key(p) && inside(
            registry.downloads(),
            p,
        ) implies exists|i: int|
        0 <= i < archive.len() && p == paths::joined(
            registry.downloads(),
            (#[trigger] archive[i]).file.path@,
        ) by {
        lemma_unpacked_keys(registry, files, archive, p);
    }
    assert forall|p: Seq<u8>| !inside(registry.downloads(), p) implies #[trigger] text_at(
        registry.unpacked(files, archive),
        p,
    ) == text_at(files, p) by {
        lemma_unpacked_outside(registry, files, archive, p);
    }
    if archive.len() > 0 {
        let earlier = archive.drop_last();
        let n = archive.len() - 1;
        let downloads = registry.downloads();
        assert forall|i: int| #![trigger earlier[i]] 0 <= i < earlier.len() implies earlier[i]
            == archive[i] by {}
        law_downloads_complement_base(registry, files, earlier);
        assert(plain(archive[n].file.path@));
        lemma_layout(registry, archive[n].file.path@);
        assert forall|i: int| #![trigger archive[i]] 0 <= i < archive.len() implies text_at(
            registry.unpacked(files, archive),
            paths::joined(downloads, archive[i].file.path@),
        ) == if registry.is_news(files, archive[i]) {
            Some(archive[i].file.content@)
        } else {
            None
        } by {
            let place = paths::joined(downloads, archive[i].file.path@);
            let last = paths::joined(downloads, archive[n].file.path@);
            assert(plain(archive[i].file.path@));
            lemma_layout(registry, archive[i].file.path@);
            if i < n {
                assert(archive[i].file.path@ != archive[n].file.path@);
                lemma_place_injective(registry, archive[i].file.path@, archive[n].file.path@);
                assert(earlier[i] == archive[i]);
            } else if registry.unpacked(files, earlier).contains_key(last) {
                let j = choose|j: int|
                    0 <= j < earlier.len() && last == paths::joined(
                        downloads,
                        (#[trigger] earlier[j]).file.path@,
                    );
                assert(archive[j].file.path@ != archive[n].file.path@);
                lemma_place_injective(registry, archive[j].file.path@, archive[n].file.path@);
            }
        }
    }
}

proof fn lemma_place_injective(registry: IpsoRegistry, a: Seq<u8>, b: Seq<u8>)
    requires
        plain(a),
        plain(b),
        a != b,
    ensures
        paths::joined(registry.downloads(), a) != paths::joined(registry.downloads(), b),
{
    lemma_layout(registry, a);
    lemma_layout(registry, b);
    let n = registry.downloads().len() as int + 1;
    assert(in_downloads(registry, a).skip(n) =~= a);
    assert(in_downloads(registry, b).skip(n) =~= b);
}

/// The path of a name under a directory: exactly one separator lies between them, and a directory
/// without a name adds nothing.
pub open spec fn under(directory: Seq<u8>, name: Seq<u8>) -> Seq<u8> {
    if directory.len() == 0 || directory[directory.len() - 1] == 47 {
        directory + name
    } else {
        directory + seq![47u8] + name
    }
}

/// Where the registry keeps what: `base` and `fwrolloutd` lie under its root, and the file with the
/// archive name lies in the latter. A file is first written beside its place, under its name with
/// `.tmp` behind it. A definition goes by its path into the directory of the downloads.
pub proof fn law_registry_is_laid_out(registry: IpsoRegistry, path: Seq<u8>, file: Definition)
    ensures
        registry.base() == under(registry.root(), encode_utf8("base"@)),
        registry.downloads() == under(registry.root(), encode_utf8("fwrolloutd"@)),
        registry.name_file() == under(registry.downloads(), encode_utf8("archive_name"@)),
        registry.place(StoreTarget::Name) == registry.name_file(),
        registry::temporary(path) == path + encode_utf8(".tmp"@),
        file.path@.len() > 0 && file.path@[0] == 47 ==> registry.place(
            StoreTarget::Definition(file),
        ) == file.path@,
        file.path@.len() == 0 || file.path@[0] != 47 ==> registry.place(
            StoreTarget::Definition(file),
        ) == under(registry.downloads(), file.path@),
{
    lemma_literals();
    let root = registry.root();
    let downloads = registry.downloads();
    assert(root.len() > 0 ==> root.push(47u8) + encode_utf8("base"@) =~= root + seq![47u8]
        + encode_utf8("base"@));
    assert(root.len() > 0 ==> root.push(47u8) + encode_utf8("fwrolloutd"@) =~= root + seq![47u8]
        + encode_utf8("fwrolloutd"@));
    assert(downloads.push(47u8) + encode_utf8("archive_name"@) =~= downloads + seq![47u8]
        + encode_utf8("archive_name"@));
    assert(downloads.push(47u8) + file.path@ =~= downloads + seq![47u8] + file.path@);
}

/// The name of an archive is the last segment of the path in its URL; without segments, or with an
/// empty last one, there is none.
pub proof fn law_archive_is_named_by_the_last_segment(url: Seq<char>)
    ensures
        match registry::file_name(links::path_segments_of(url)) {
            Ok(name) => archive_in(url) == Some(name),
            Err(error) => {
                &&& archive_in(url) is None
                &&& error == ArchiveNameError::NoSegments <==> links::path_segments_of(url) is None
                &&& error == ArchiveNameError::EmptyName <==> links::path_segments_of(url) is Some
            },
        },
{
}

/// The name that is made out of a list of segments is the last of them, as it stands there.
pub proof fn law_last_segment_is_taken_as_it_stands(
    segments: Option<Vec<String>>,
    name: Result<String, ArchiveNameError>,
)
    requires
        registry::text_in(name) == registry::file_name(registry::texts_in(segments)),
    ensures
        match segments {
            None => name == Err::<String, ArchiveNameError>(ArchiveNameError::NoSegments),
            Some(list) => if list@.len() == 0 || list@[list@.len() - 1]@.len() == 0 {
                name == Err::<String, ArchiveNameError>(ArchiveNameError::EmptyName)
            } else {
                name matches Ok(n) && n@ == list@[list@.len() - 1]@
            },
        },
{
    match segments {
        Some(list) => {
            if list@.len() > 0 {
                assert(links::texts(list@).last() == list@[list@.len() - 1]@);
            }
        },
        None => {},
    }
}

/// An archive is passed over just where its name is known, and is the name that was kept, which is
/// not empty; and a definition just where the file in `base` reads the same.
pub proof fn law_only_equal_names_spare_the_work(
    kept: Option<String>,
    found: Option<String>,
    offered: Result<String, ArchiveNameError>,
    content: Seq<char>,
)
    requires
        registry::text_of(found) == registry::installed(registry::text_of(kept)),
    ensures
        kept matches Some(name) && name@.len() > 0 ==> (found matches Some(f) && f@ == kept->0@),
        kept is None || kept->0@.len() == 0 ==> found is None,
        !registry::outdated(registry::text_of(found), registry::text_in(offered)) <==> {
            &&& found matches Some(f)
            &&& offered matches Ok(o)
            &&& f@ == o@
        },
        !registry::differs(registry::text_of(kept), content) <==> (kept matches Some(text) && text@
            == content),
{
}

/// Whether a definition is to be stored, as far as its file in `base` goes: there is none, it cannot
/// be read, or it reads otherwise.
pub open spec fn base_lacks(event: RegistryEvent, name: String, file: Definition) -> bool {
    match event {
        RegistryEvent::BaseTested { name: n, file: f, is_file } => n == name && f == file
            && !is_file,
        RegistryEvent::BaseRead { name: n, file: f, text } => n == name && f == file && (text
            matches Some(t) ==> t@ != file.content@),
        _ => false,
    }
}

/// Each step of an update of the registry has its causes, and no others: what has to have happened
/// for it to be the next one.
pub proof fn law_registry_steps_have_their_causes(
    registry: IpsoRegistry,
    event: RegistryEvent,
    offered: Result<Seq<char>, ArchiveNameError>,
    step: RegistryStep,
)
    requires
        registry.stepped(event, offered, step),
        event is NameRead || event is Reply ==> offered == IpsoRegistry::offered(event),
    ensures
        match step {
            RegistryStep::ReadName { path, url } => {
                event == (RegistryEvent::Begin { url }) && path@ == registry.name_file()
            },
            RegistryStep::Fetch { url } => {
                &&& event matches RegistryEvent::NameRead { url: u, text }
                &&& u == url
                &&& text matches Some(t) ==> t@.len() == 0 || archive_in(url@) != Some(t@)
            },
            RegistryStep::TestName { path, name } => {
                &&& event matches RegistryEvent::Reply { status, url }
                &&& status == 200
                &&& archive_in(url@) == Some(name@)
                &&& path@ == registry.name_file()
            },
            RegistryStep::HideName { from, to, name } => {
                &&& event == (RegistryEvent::NameTested { name, is_file: true })
                &&& from@ == registry.name_file()
                &&& to@ == registry.name_file() + encode_utf8(".tmp"@)
            },
            RegistryStep::RemoveDir { path, name } => {
                &&& event == (RegistryEvent::NameTested { name, is_file: false }) || event == (
                RegistryEvent::NameHidden { name, success: true })
                &&& path@ == registry.downloads()
            },
            RegistryStep::CreateDir { path, name } => {
                event == (RegistryEvent::DirRemoved { name, gone: true }) && path@
                    == registry.downloads()
            },
            RegistryStep::OpenArchive { name } => event == (RegistryEvent::DirCreated {
                name,
                success: true,
            }),
            RegistryStep::NextEntry { name } => {
                ||| event == (RegistryEvent::ArchiveOpened { name, success: true })
                ||| {
                    &&& event matches RegistryEvent::BaseRead { name: n, file, text: Some(text) }
                    &&& n == name
                    &&& text@ == file.content@
                }
                ||| {
                    &&& event matches RegistryEvent::Renamed { name: n, target, success }
                    &&& n == name
                    &&& target is Definition
                    &&& success
                }
            },
            RegistryStep::TestBase { path, name, file } => {
                &&& event == (RegistryEvent::Entry { name, entry: ArchiveEntry::File(file) })
                &&& path@ == paths::joined(registry.base(), file.path@)
            },
            RegistryStep::ReadBase { path, name, file } => {
                &&& event == (RegistryEvent::BaseTested { name, file, is_file: true })
                &&& path@ == paths::joined(registry.base(), file.path@)
            },
            RegistryStep::Store { path, content, name, target } => match target {
                StoreTarget::Name => {
                    &&& event == (RegistryEvent::Entry { name, entry: ArchiveEntry::End })
                    &&& path@ == registry.name_file() + encode_utf8(".tmp"@)
                    &&& content@ == name@
                },
                StoreTarget::Definition(file) => {
                    &&& base_lacks(event, name, file)
                    &&& path@ == paths::joined(registry.downloads(), file.path@) + encode_utf8(
                        ".tmp"@,
                    )
                    &&& content@ == file.content@
                },
            },
            RegistryStep::Rename { from, to, name, target } => {
                &&& event matches RegistryEvent::Stored { name: n, target: t, result }
                &&& n == name
                &&& t == target
                &&& result is Ok
                &&& from@ == to@ + encode_utf8(".tmp"@)
                &&& to@ == match target {
                    StoreTarget::Name => registry.name_file(),
                    StoreTarget::Definition(file) => paths::joined(
                        registry.downloads(),
                        file.path@,
                    ),
                }
            },
            RegistryStep::Reload => {
                &&& event matches RegistryEvent::Renamed { target, success, .. }
                &&& target is Name
                &&& success
            },
            RegistryStep::Finished(Ok(RegistryOutcome::UpToDate)) => {
                &&& event matches RegistryEvent::NameRead { url, text: Some(text) }
                &&& text@.len() > 0
                &&& archive_in(url@) == Some(text@)
            },
            RegistryStep::Finished(Ok(RegistryOutcome::Unreachable)) => {
                event matches RegistryEvent::NoReply { connect, timeout } && (connect || timeout)
            },
            RegistryStep::Finished(Ok(RegistryOutcome::Updated)) => event is Reloaded,
            RegistryStep::Finished(Err(error)) => failed_by(event, error),
        },
{
}

/// Whether the event is one that ends an update with the error.
pub open spec fn failed_by(event: RegistryEvent, error: RegistryError) -> bool {
    match error {
        RegistryError::Status(code) => {
            event matches RegistryEvent::Reply { status, .. } && status == code && status != 200
        },
        RegistryError::NoReply => event == (RegistryEvent::NoReply {
            connect: false,
            timeout: false,
        }),
        RegistryError::ArchiveName(reason) => {
            &&& event matches RegistryEvent::Reply { status, url }
            &&& status == 200
            &&& archive_in(url@) is None
            &&& reason == ArchiveNameError::NoSegments <==> links::path_segments_of(url@) is None
        },
        RegistryError::HideName => {
            event matches RegistryEvent::NameHidden { success, .. } && !success
        },
        RegistryError::RemoveDir => event matches RegistryEvent::DirRemoved { gone, .. } && !gone,
        RegistryError::CreateDir => {
            event matches RegistryEvent::DirCreated { success, .. } && !success
        },
        RegistryError::OpenArchive => {
            event matches RegistryEvent::ArchiveOpened { success, .. } && !success
        },
        RegistryError::Entry(reason) => {
            event matches RegistryEvent::Entry { entry, .. } && entry == ArchiveEntry::Broken(
                reason,
            )
        },
        RegistryError::Store(reason) => {
            event matches RegistryEvent::Stored { result, .. } && result == Err::<(), StoreError>(
                reason,
            )
        },
        RegistryError::Rename => {
            event matches RegistryEvent::Renamed { success, .. } && !success
        },
    }
}

/// The name that is on offer decides twice: an archive is fetched unless its name is the one that was
/// kept, which is not empty; and when it has come, its name is the one that is noted in the end, and
/// without a name nothing is unpacked.
pub proof fn law_name_on_offer_decides(
    registry: IpsoRegistry,
    event: RegistryEvent,
    offered: Result<Seq<char>, ArchiveNameError>,
    step: RegistryStep,
)
    requires
        registry.stepped(event, offered, step),
    ensures
        event matches RegistryEvent::NameRead { url, text } ==> {
            let known = text matches Some(t) && t@.len() > 0 && offered == Ok::<
                Seq<char>,
                ArchiveNameError,
            >(t@);
            &&& known ==> step == RegistryStep::Finished(Ok(RegistryOutcome::UpToDate))
            &&& !known ==> step == (RegistryStep::Fetch { url })
        },
        event matches RegistryEvent::Reply { status, .. } ==> {
            &&& status != 200 ==> step == RegistryStep::Finished(
                Err(RegistryError::Status(status)),
            )
            &&& status == 200 ==> match offered {
                Ok(name) => {
                    step matches RegistryStep::TestName { path, name: n } && n@ == name && path@
                        == registry.name_file()
                },
                Err(reason) => step == RegistryStep::Finished(
                    Err(RegistryError::ArchiveName(reason)),
                ),
            }
        },
{
}

} // verus!
