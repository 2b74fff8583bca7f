//! The index of firmware images.

use vstd::prelude::*;
use crate::clock;
use crate::clock::Timestamp;
use crate::config::Config;
use crate::device_info::DeviceInfo;
use crate::exchange::DOWNLOAD_TIMEOUT;
use crate::links;
use crate::registry::IpsoRegistry;
use crate::report::Severity;

verus! {

/// One rule of the index: the image for the devices that run a certain firmware.
#[derive(Debug)]
pub struct ImageIndexEntry {
    pub model_number: String,
    pub software_version: String,
    pub firmware_version: String,
    pub pkg_version: String,
    /// Relative to the index file until the index has been taken over.
    pub url: String,
    pub update: bool,
}

impl Clone for ImageIndexEntry {
    fn clone(&self) -> (r: ImageIndexEntry)
        ensures
            r == *self,
    {
        ImageIndexEntry {
            model_number: self.model_number.clone(),
            software_version: self.software_version.clone(),
            firmware_version: self.firmware_version.clone(),
            pkg_version: self.pkg_version.clone(),
            url: self.url.clone(),
            update: self.update,
        }
    }
}

/// What has happened to the download of an image.
#[derive(Debug)]
pub enum DownloadEvent {
    Begin,
    /// No answer came.
    NoReply,
    /// An answer came, with this status.
    Status(u16),
    /// The body of the answer has been read, or could not be read.
    Body(Option<Vec<u8>>),
}

/// What to do next to download an image.
#[derive(Debug)]
pub enum DownloadStep {
    /// Ask for the image. It may all take so many seconds.
    Get { url: String, seconds: u64 },
    ReadBody,
    Image(Vec<u8>),
    Failed(DownloadError),
}

/// Why an image could not be downloaded.
#[derive(Clone, Copy, Debug, PartialEq, Eq, Structural)]
pub enum DownloadError {
    NoReply,
    Status(u16),
    NoBody,
}

impl ImageIndexEntry {
    /// What an event makes of the download of the image.
    pub open spec fn downloaded(self, event: DownloadEvent) -> DownloadStep {
        match event {
            DownloadEvent::Begin => DownloadStep::Get { url: self.url, seconds: DOWNLOAD_TIMEOUT },
            DownloadEvent::NoReply => DownloadStep::Failed(DownloadError::NoReply),
            DownloadEvent::Status(status) => if 200 <= status < 300 {
                DownloadStep::ReadBody
            } else {
                DownloadStep::Failed(DownloadError::Status(status))
            },
            DownloadEvent::Body(Some(image)) => DownloadStep::Image(image),
            DownloadEvent::Body(None) => DownloadStep::Failed(DownloadError::NoBody),
        }
    }

    /// Downloads the image, one step at a time.
    pub fn download(&self, event: DownloadEvent) -> (r: DownloadStep)
        ensures
            r == self.downloaded(event),
    {
        match event {
            DownloadEvent::Begin => DownloadStep::Get {
                url: self.url.clone(),
                seconds: DOWNLOAD_TIMEOUT,
            },
            DownloadEvent::NoReply => DownloadStep::Failed(DownloadError::NoReply),
            DownloadEvent::Status(status) => {
                if 200 <= status && status < 300 {
                    DownloadStep::ReadBody
                } else {
                    DownloadStep::Failed(DownloadError::Status(status))
                }
            },
            DownloadEvent::Body(body) => match body {
                Some(image) => DownloadStep::Image(image),
                None => DownloadStep::Failed(DownloadError::NoBody),
            },
        }
    }

    /// Whether the rule is meant for the device.
    pub open spec fn fits(self, info: DeviceInfo) -> bool {
        &&& self.model_number@ == info.model_number@
        &&& self.software_version@ == info.software_version@
        &&& self.firmware_version@ == info.firmware_version@
    }

    /// Whether the device is to get the image of this rule. A rule that is no update counts only
    /// where firmware is sent in a loop.
    pub open spec fn serves(self, info: DeviceInfo, fota_loop: bool) -> bool {
        self.fits(info) && (self.update || fota_loop)
    }
}

/// The first rule by which the device gets an image.
pub open spec fn chosen(entries: Seq<ImageIndexEntry>, info: DeviceInfo, fota_loop: bool) -> Option<
    ImageIndexEntry,
>
    decreases entries.len(),
{
    if entries.len() == 0 {
        None
    } else if entries.first().serves(info, fota_loop) {
        Some(entries.first())
    } else {
        chosen(entries.drop_first(), info, fota_loop)
    }
}

/// Whether the rules know the model of the device.
pub open spec fn covers(entries: Seq<ImageIndexEntry>, info: DeviceInfo) -> bool {
    exists|i: int| 0 <= i < entries.len() && entries[i].model_number@ == info.model_number@
}

/// The index file.
#[derive(Debug)]
pub struct IndexFile {
    pub ipso_definitions: String,
    pub firmware_updates: Vec<ImageIndexEntry>,
}

impl IndexFile {
    /// An index file without rules.
    pub fn new() -> (r: IndexFile)
        ensures
            r.ipso_definitions@ == ""@,
            r.firmware_updates@ == Seq::<ImageIndexEntry>::empty(),
    {
        IndexFile { ipso_definitions: "".to_owned(), firmware_updates: Vec::new() }
    }
}

/// The index that the service works with.
#[derive(Debug)]
pub struct ImageIndex<'a> {
    pub index_file: IndexFile,
    pub config: &'a Config,
    /// The mark of the index file that was taken over last.
    pub etag: Option<String>,
    /// When to look for a new index file.
    pub next_update: Option<Timestamp>,
    pub ipso_registry: IpsoRegistry,
}

/// The mark that an answer gives to the index file.
#[derive(Debug)]
pub enum EtagHeader {
    Missing,
    /// The mark is not made of visible ASCII characters.
    NotText,
    Text(String),
}

/// What has happened to an update of the index.
#[derive(Debug)]
pub enum IndexEvent {
    Begin,
    /// An answer came.
    Reply { status: u16, header: EtagHeader },
    /// No answer came: whether no connection could be made, and whether it took too long.
    NoReply { connect: bool, timeout: bool },
    /// The index file has been read, or could not be read.
    Body { etag: String, file: Option<IndexFile> },
    /// The IPSO registry has been brought up to date, or not.
    RegistryDone { etag: String, success: bool },
}

/// What to do next to update the index.
#[derive(Debug)]
pub enum IndexStep {
    /// Ask for the index file, unless it is still the one with the mark. It may all take so many
    /// seconds.
    Fetch { url: String, known: Option<String>, seconds: u64 },
    /// Read the index file out of the answer.
    ReadBody { etag: String },
    /// Bring the IPSO registry up to date.
    UpdateRegistry { url: String, etag: String },
    Finished(Result<IndexOutcome, IndexError>),
}

/// How an update of the index went.
#[derive(Clone, Copy, Debug, PartialEq, Eq, Structural)]
pub enum IndexOutcome {
    NotModified,
    /// The network is not there; it is tried again later.
    Unreachable,
    Updated,
}

/// Why an update of the index failed.
#[derive(Clone, Copy, Debug, PartialEq, Eq, Structural)]
pub enum IndexError {
    Status(u16),
    NoReply,
    NoEtag,
    EtagNotText,
    Body,
    /// The reference to the IPSO definitions makes no URL.
    InvalidIpsoUrl,
    Registry,
    /// The reference of the rule in this place makes no URL.
    InvalidUrl(usize),
    /// Tomorrow does not start, or starts twice, in the local time zone.
    NoMidnight,
}

/// The minutes over which the gateways spread their checks for a new index file.
pub const CHECK_SPREAD_MINUTES: u32 = 55;

/// The first rule whose reference makes no URL, or the number of rules.
pub open spec fn first_unresolvable(entries: Seq<ImageIndexEntry>, base: Seq<char>) -> int
    decreases entries.len(),
{
    if entries.len() == 0 || links::joined_url(base, entries.first().url@) is None {
        0
    } else {
        1 + first_unresolvable(entries.drop_first(), base)
    }
}

/// The place of the first URL that is missing, or the number of URLs.
pub open spec fn first_missing(urls: Seq<Option<String>>) -> int
    decreases urls.len(),
{
    if urls.len() == 0 || urls.first() is None {
        0
    } else {
        1 + first_missing(urls.drop_first())
    }
}

proof fn lemma_first_missing(
    urls: Seq<Option<String>>,
    entries: Seq<ImageIndexEntry>,
    base: Seq<char>,
)
    requires
        urls.len() == entries.len(),
        forall|i: int|
            0 <= i < urls.len() ==> (#[trigger] urls[i] is None <==> links::joined_url(
                base,
                entries[i].url@,
            ) is None),
    ensures
        first_missing(urls) == first_unresolvable(entries, base),
        0 <= first_missing(urls) <= urls.len(),
        forall|i: int| 0 <= i < first_missing(urls) ==> #[trigger] urls[i] is Some,
    decreases urls.len(),
{
    if urls.len() > 0 && urls.first() is Some {
        let rest = urls.drop_first();
        assert(urls[0] is Some);
        assert forall|i: int| 0 <= i < rest.len() implies (#[trigger] rest[i] is None
            <==> links::joined_url(base, entries.drop_first()[i].url@) is None) by {
            assert(rest[i] == urls[i + 1]);
        }
        lemma_first_missing(rest, entries.drop_first(), base);
        assert forall|i: int| 0 <= i < first_missing(urls) implies #[trigger] urls[i] is Some by {
            if i > 0 {
                assert(rest[i - 1] == urls[i]);
            }
        }
    } else if urls.len() > 0 {
        assert(urls[0] is None);
    }
}

/// Whether `after` is `before` with the references of the first `n` rules made into URLs.
pub open spec fn resolved(
    before: Seq<ImageIndexEntry>,
    after: Seq<ImageIndexEntry>,
    base: Seq<char>,
    n: int,
) -> bool {
    &&& after.len() == before.len()
    &&& forall|i: int|
        #![trigger after[i]]
        0 <= i < n ==> {
            &&& after[i] == (ImageIndexEntry { url: after[i].url, ..before[i] })
            &&& links::joined_url(base, before[i].url@) == Some(after[i].url@)
        }
    &&& forall|i: int| n <= i < before.len() ==> #[trigger] after[i] == before[i]
}

/// Whether a check that was scheduled is due, and how loud its failure is to be reported: softly
/// up to 24 hours after the time it was scheduled for.
pub open spec fn due(scheduled: Option<Timestamp>, now: Timestamp) -> Option<Severity> {
    match scheduled {
        None => None,
        Some(next) => if !next.is_before(now) {
            None
        } else if (now.at() - next.at()) < 24 * 3_600_000_000_000 {
            Some(Severity::Info)
        } else {
            Some(Severity::Error)
        },
    }
}

/// Whether the next check can be so many minutes past that midnight, given today: the midnight, if
/// there is one, is the start of the day after today.
pub open spec fn may_be_check_time(today: int, midnight: Option<Timestamp>, minutes: u32) -> bool {
    &&& minutes <= CHECK_SPREAD_MINUTES
    &&& midnight matches Some(start) ==> clock::may_start_at(today + 1, start)
}

/// When the day after today starts, if it starts once in the local time zone.
pub fn midnight_after(today: i32) -> (r: Option<Timestamp>)
    requires
        clock::may_be_today(today as int),
    ensures
        r matches Some(start) ==> clock::may_start_at(today + 1, start),
{
    clock::local_midnight(today + 1)
}

/// When the day after today starts, and how many minutes later the next check is to be. The day may
/// not start, or start twice, in the local time zone. Whether it does is up to the time zone of the
/// machine, and is left unsaid.
fn pick_check_time(today: i32) -> (r: (Option<Timestamp>, u32))
    requires
        clock::may_be_today(today as int),
    ensures
        may_be_check_time(today as int, r.0, r.1),
{
    let minutes: u32 = clock::random_up_to(CHECK_SPREAD_MINUTES);
    (midnight_after(today), minutes)
}

impl<'a> ImageIndex<'a> {
    /// The time of the next check, if there is one, is a point in time.
    pub open spec fn wf(self) -> bool {
        self.next_update matches Some(next) ==> next.wf()
    }

    /// An index without rules that was never updated.
    pub fn new(config: &'a Config) -> (r: ImageIndex<'a>)
        ensures
            r.wf(),
            r.index_file.ipso_definitions@ == ""@,
            r.index_file.firmware_updates@ == Seq::<ImageIndexEntry>::empty(),
            r.config == config,
            r.etag is None,
            r.next_update is None,
            r.ipso_registry.root() == config.ipso_registry_root_path@,
    {
        ImageIndex {
            index_file: IndexFile::new(),
            config,
            etag: None,
            next_update: None,
            ipso_registry: IpsoRegistry::new(config.ipso_registry_root_path.as_slice()),
        }
    }

    /// The first rule by which the device gets an image. `fota_loop` asks for firmware that is
    /// no update too, as the setting of that name does.
    pub fn find_update(&self, info: &DeviceInfo, fota_loop: bool) -> (r: Option<&ImageIndexEntry>)
        ensures
            match r {
                Some(entry) => chosen(
                    self.index_file.firmware_updates@,
                    *info,
                    self.config.fota_loop || fota_loop,
                ) == Some(*entry),
                None => chosen(
                    self.index_file.firmware_updates@,
                    *info,
                    self.config.fota_loop || fota_loop,
                ) is None,
            },
    {
        let entries = &self.index_file.firmware_updates;
        let ghost any = self.config.fota_loop || fota_loop;
        let mut i: usize = 0;
        assert(entries@.skip(0) =~= entries@);
        while i < entries.len()
            invariant
                i <= entries.len(),
                entries == self.index_file.firmware_updates,
                any == (self.config.fota_loop || fota_loop),
                chosen(entries@, *info, any) == chosen(entries@.skip(i as int), *info, any),
            decreases entries.len() - i,
        {
            assert(entries@.skip(i as int).drop_first() =~= entries@.skip(i + 1));
            let entry = &entries[i];
            if entry.model_number == info.model_number && entry.software_version
                == info.software_version && entry.firmware_version == info.firmware_version && (
            entry.update || self.config.fota_loop || fota_loop) {
                return Some(&entries[i]);
            }
            i += 1;
        }
        None
    }

    /// Whether the rules know the model of the device.
    pub fn has_rule(&self, info: &DeviceInfo) -> (r: bool)
        ensures
            r == covers(self.index_file.firmware_updates@, *info),
    {
        let entries = &self.index_file.firmware_updates;
        let mut i: usize = 0;
        while i < entries.len()
            invariant
                i <= entries.len(),
                entries == self.index_file.firmware_updates,
                forall|j: int| 0 <= j < i ==> entries@[j].model_number@ != info.model_number@,
            decreases entries.len() - i,
        {
            if entries[i].model_number == info.model_number {
                return true;
            }
            i += 1;
        }
        false
    }

    /// Schedules the next check for some minutes past the given midnight.
    pub fn schedule_check(&mut self, midnight: Timestamp, minutes: u32)
        requires
            minutes <= CHECK_SPREAD_MINUTES,
            midnight.seconds + 60 * minutes <= i64::MAX,
        ensures
            *final(self) == (ImageIndex {
                next_update: Some(midnight.later(60 * minutes)),
                ..*old(self)
            }),
    {
        self.next_update = Some(midnight.plus_seconds(60 * minutes));
    }

    /// Schedules the next check for some minutes past the given midnight, where there is one.
    /// Whether there is one comes back.
    pub fn delay_next_check_at(&mut self, midnight: Option<Timestamp>, minutes: u32) -> (r: bool)
        requires
            old(self).wf(),
            minutes <= CHECK_SPREAD_MINUTES,
            midnight matches Some(t) ==> t.wf() && t.seconds + 60 * minutes <= i64::MAX,
        ensures
            final(self).wf(),
            final(self).rescheduled(*old(self), midnight, minutes),
            r == (midnight is Some),
    {
        match midnight {
            Some(midnight) => {
                self.schedule_check(midnight, minutes);
                true
            },
            None => false,
        }
    }

    /// Schedules the next check for the day after today, at some minutes past midnight. That fails,
    /// and changes nothing, where that day does not start, or starts twice, in the local time zone.
    pub fn delay_next_check_on(&mut self, today: i32) -> (r: bool)
        requires
            old(self).wf(),
            clock::may_be_today(today as int),
        ensures
            final(self).wf(),
            exists|midnight: Option<Timestamp>, minutes: u32|
                may_be_check_time(today as int, midnight, minutes)
                    && #[trigger] final(self).rescheduled(*old(self), midnight, minutes) && r == (
                midnight is Some),
    {
        let (midnight, minutes) = pick_check_time(today);
        self.delay_next_check_at(midnight, minutes)
    }

    /// Schedules the next check for tomorrow, at some minutes past midnight. That fails, and
    /// changes nothing, where tomorrow does not start, or starts twice, in the local time zone.
    pub fn delay_next_check(&mut self) -> (r: bool)
        requires
            old(self).wf(),
        ensures
            final(self).wf(),
            exists|today: int, midnight: Option<Timestamp>, minutes: u32|
                #[trigger] clock::may_be_today(today) && may_be_check_time(today, midnight, minutes)
                    && #[trigger] final(self).rescheduled(*old(self), midnight, minutes) && r == (
                midnight is Some),
    {
        let today: i32 = clock::today();
        assert(clock::may_be_today(today as int));
        self.delay_next_check_on(today)
    }

    /// Whether the next check has been scheduled for some minutes past the given midnight, where
    /// there is one, and nothing else has changed.
    pub open spec fn rescheduled(
        self,
        before: ImageIndex<'a>,
        midnight: Option<Timestamp>,
        minutes: u32,
    ) -> bool {
        match midnight {
            Some(midnight) => self == (ImageIndex {
                next_update: Some(midnight.later(60 * minutes)),
                ..before
            }),
            None => self == before,
        }
    }

    /// What an answer to the request for the index file leads to, once the next check is
    /// scheduled.
    pub open spec fn after_reply(status: u16, header: EtagHeader, scheduled: bool) -> IndexStep {
        if status != 304 && status != 200 {
            IndexStep::Finished(Err(IndexError::Status(status)))
        } else if !scheduled {
            IndexStep::Finished(Err(IndexError::NoMidnight))
        } else if status == 304 {
            IndexStep::Finished(Ok(IndexOutcome::NotModified))
        } else {
            match header {
                EtagHeader::Missing => IndexStep::Finished(Err(IndexError::NoEtag)),
                EtagHeader::NotText => IndexStep::Finished(Err(IndexError::EtagNotText)),
                EtagHeader::Text(etag) => IndexStep::ReadBody { etag },
            }
        }
    }

    /// Whether `self` and `step` are what an event makes of `before`. `midnight` and `minutes`
    /// say when tomorrow starts and how much later the next check is to be.
    pub open spec fn updated(
        self,
        before: ImageIndex<'a>,
        event: IndexEvent,
        midnight: Option<Timestamp>,
        minutes: u32,
        step: IndexStep,
    ) -> bool {
        let base = before.config.index_url@;
        match event {
            IndexEvent::Begin => {
                &&& self == before
                &&& step == (IndexStep::Fetch {
                    url: before.config.index_url,
                    known: before.etag,
                    seconds: DOWNLOAD_TIMEOUT,
                })
            },
            IndexEvent::Reply { status, header } => {
                &&& if status == 304 || status == 200 {
                    self.rescheduled(before, midnight, minutes)
                } else {
                    self == before
                }
                &&& step == Self::after_reply(status, header, midnight is Some)
            },
            IndexEvent::NoReply { connect, timeout } => {
                &&& self == before
                &&& step == if connect || timeout {
                    IndexStep::Finished(Ok(IndexOutcome::Unreachable))
                } else {
                    IndexStep::Finished(Err(IndexError::NoReply))
                }
            },
            IndexEvent::Body { etag, file } => match file {
                None => {
                    &&& self == before
                    &&& step == IndexStep::Finished(Err(IndexError::Body))
                },
                Some(file) => {
                    &&& self == (ImageIndex { index_file: file, ..before })
                    &&& match links::joined_url(base, file.ipso_definitions@) {
                        None => step == IndexStep::Finished(Err(IndexError::InvalidIpsoUrl)),
                        Some(url) => {
                            &&& step matches IndexStep::UpdateRegistry { url: u, etag: e }
                            &&& u@ == url
                            &&& e == etag
                        },
                    }
                },
            },
            IndexEvent::RegistryDone { etag, success } => if !success {
                &&& self == before
                &&& step == IndexStep::Finished(Err(IndexError::Registry))
            } else {
                let rules = before.index_file.firmware_updates@;
                let n = first_unresolvable(rules, base);
                &&& resolved(rules, self.index_file.firmware_updates@, base, n)
                &&& self.index_file.ipso_definitions == before.index_file.ipso_definitions
                &&& self.config == before.config
                &&& self.next_update == before.next_update
                &&& self.ipso_registry == before.ipso_registry
                &&& if n == rules.len() {
                    &&& self.etag == Some(etag)
                    &&& step == IndexStep::Finished(Ok(IndexOutcome::Updated))
                } else {
                    &&& self.etag == before.etag
                    &&& step == IndexStep::Finished(Err(IndexError::InvalidUrl(n as usize)))
                }
            },
        }
    }

    /// Takes over an index file, whose reference to the IPSO definitions makes the given URL or
    /// none.
    pub fn take_file(
        &mut self,
        etag: String,
        file: IndexFile,
        ipso_url: Option<String>,
    ) -> (r: IndexStep)
        ensures
            *final(self) == (ImageIndex { index_file: file, ..*old(self) }),
            r == match ipso_url {
                Some(url) => IndexStep::UpdateRegistry { url, etag },
                None => IndexStep::Finished(Err(IndexError::InvalidIpsoUrl)),
            },
    {
        self.index_file = file;
        match ipso_url {
            Some(url) => IndexStep::UpdateRegistry { url, etag },
            None => IndexStep::Finished(Err(IndexError::InvalidIpsoUrl)),
        }
    }

    /// What the references of the rules make, each a URL or nothing.
    fn join_urls(&self) -> (r: Vec<Option<String>>)
        ensures
            r@.len() == self.index_file.firmware_updates@.len(),
            forall|i: int|
                #![trigger r@[i]]
                0 <= i < r@.len() ==> match r@[i] {
                    Some(url) => links::joined_url(
                        self.config.index_url@,
                        self.index_file.firmware_updates@[i].url@,
                    ) == Some(url@),
                    None => links::joined_url(
                        self.config.index_url@,
                        self.index_file.firmware_updates@[i].url@,
                    ) is None,
                },
    {
        let mut urls: Vec<Option<String>> = Vec::new();
        let mut i: usize = 0;
        while i < self.index_file.firmware_updates.len()
            invariant
                i <= self.index_file.firmware_updates@.len(),
                urls@.len() == i,
                forall|j: int|
                    #![trigger urls@[j]]
                    0 <= j < i ==> match urls@[j] {
                        Some(url) => links::joined_url(
                            self.config.index_url@,
                            self.index_file.firmware_updates@[j].url@,
                        ) == Some(url@),
                        None => links::joined_url(
                            self.config.index_url@,
                            self.index_file.firmware_updates@[j].url@,
                        ) is None,
                    },
            decreases self.index_file.firmware_updates@.len() - i,
        {
            match links::join_url(
                self.config.index_url.as_str(),
                self.index_file.firmware_updates[i].url.as_str(),
            ) {
                Ok(url) => {
                    urls.push(Some(url));
                },
                Err(_) => {
                    urls.push(None);
                },
            }
            i += 1;
        }
        urls
    }

    /// Gives the rules their URLs and, where each rule has one, notes the mark of the index file.
    /// The rules from the first one without a URL on stay as they are.
    pub fn take_urls(&mut self, etag: String, urls: &Vec<Option<String>>) -> (r: IndexStep)
        requires
            urls@.len() == old(self).index_file.firmware_updates@.len(),
        ensures
            ({
                let before = old(self).index_file.firmware_updates@;
                let after = final(self).index_file.firmware_updates@;
                let n = first_missing(urls@);
                &&& after.len() == before.len()
                &&& forall|i: int|
                    0 <= i < n ==> #[trigger] after[i] == (ImageIndexEntry {
                        url: urls@[i]->0,
                        ..before[i]
                    })
                &&& forall|i: int| n <= i < before.len() ==> #[trigger] after[i] == before[i]
                &&& *final(self) == (ImageIndex {
                    index_file: IndexFile {
                        firmware_updates: final(self).index_file.firmware_updates,
                        ..old(self).index_file
                    },
                    etag: if n == urls@.len() {
                        Some(etag)
                    } else {
                        old(self).etag
                    },
                    ..*old(self)
                })
                &&& r == if n == urls@.len() {
                    IndexStep::Finished(Ok(IndexOutcome::Updated))
                } else {
                    IndexStep::Finished(Err(IndexError::InvalidUrl(n as usize)))
                }
            }),
    {
        let ghost start = *self;
        let ghost before = self.index_file.firmware_updates@;
        let mut i: usize = 0;
        assert(urls@.skip(0) =~= urls@);
        while i < urls.len()
            invariant
                i <= urls@.len(),
                urls@.len() == before.len(),
                start == *old(self),
                before == start.index_file.firmware_updates@,
                self.index_file.firmware_updates@.len() == before.len(),
                forall|j: int|
                    0 <= j < i ==> #[trigger] self.index_file.firmware_updates@[j] == (
                    ImageIndexEntry { url: urls@[j]->0, ..before[j] }),
                forall|j: int|
                    i <= j < before.len() ==> #[trigger] self.index_file.firmware_updates@[j]
                        == before[j],
                *self == (ImageIndex {
                    index_file: IndexFile {
                        firmware_updates: self.index_file.firmware_updates,
                        ..start.index_file
                    },
                    ..start
                }),
                first_missing(urls@) == i + first_missing(urls@.skip(i as int)),
            decreases urls@.len() - i,
        {
            assert(urls@.skip(i as int).drop_first() =~= urls@.skip(i + 1));
            assert(urls@.skip(i as int).first() == urls@[i as int]);
            match &urls[i] {
                Some(url) => {
                    self.index_file.firmware_updates[i].url = url.clone();
                },
                None => {
                    return IndexStep::Finished(Err(IndexError::InvalidUrl(i)));
                },
            }
            i += 1;
        }
        self.etag = Some(etag);
        IndexStep::Finished(Ok(IndexOutcome::Updated))
    }

    /// Updates the index, one step at a time. `midnight` and `minutes` say when tomorrow starts
    /// and how much later the next check is to be.
    pub fn update_at(
        &mut self,
        event: IndexEvent,
        midnight: Option<Timestamp>,
        minutes: u32,
    ) -> (r: IndexStep)
        requires
            old(self).wf(),
            minutes <= CHECK_SPREAD_MINUTES,
            midnight matches Some(t) ==> t.wf() && t.seconds + 60 * minutes <= i64::MAX,
        ensures
            final(self).wf(),
            final(self).updated(*old(self), event, midnight, minutes, r),
    {
        match event {
            IndexEvent::Begin => {
                let known = match &self.etag {
                    Some(etag) => Some(etag.clone()),
                    None => None,
                };
                IndexStep::Fetch {
                    url: self.config.index_url.clone(),
                    known,
                    seconds: DOWNLOAD_TIMEOUT,
                }
            },
            IndexEvent::Reply { status, header } => {
                if status != 304 && status != 200 {
                    return IndexStep::Finished(Err(IndexError::Status(status)));
                }
                if !self.delay_next_check_at(midnight, minutes) {
                    return IndexStep::Finished(Err(IndexError::NoMidnight));
                }
                if status == 304 {
                    return IndexStep::Finished(Ok(IndexOutcome::NotModified));
                }
                match header {
                    EtagHeader::Missing => IndexStep::Finished(Err(IndexError::NoEtag)),
                    EtagHeader::NotText => IndexStep::Finished(Err(IndexError::EtagNotText)),
                    EtagHeader::Text(etag) => IndexStep::ReadBody { etag },
                }
            },
            IndexEvent::NoReply { connect, timeout } => {
                if connect || timeout {
                    IndexStep::Finished(Ok(IndexOutcome::Unreachable))
                } else {
                    IndexStep::Finished(Err(IndexError::NoReply))
                }
            },
            IndexEvent::Body { etag, file } => match file {
                None => IndexStep::Finished(Err(IndexError::Body)),
                Some(file) => {
                    let ipso_url = match links::join_url(
                        self.config.index_url.as_str(),
                        file.ipso_definitions.as_str(),
                    ) {
                        Ok(url) => Some(url),
                        Err(_) => None,
                    };
                    self.take_file(etag, file, ipso_url)
                },
            },
            IndexEvent::RegistryDone { etag, success } => {
                if !success {
                    return IndexStep::Finished(Err(IndexError::Registry));
                }
                let urls = self.join_urls();
                proof {
                    lemma_first_missing(
                        urls@,
                        self.index_file.firmware_updates@,
                        self.config.index_url@,
                    );
                }
                self.take_urls(etag, &urls)
            },
        }
    }

    /// Updates the index, one step at a time. The next check is scheduled for the day after today,
    /// at some minutes past midnight.
    pub fn update_on(&mut self, event: IndexEvent, today: i32) -> (r: IndexStep)
        requires
            old(self).wf(),
            clock::may_be_today(today as int),
        ensures
            final(self).wf(),
            exists|midnight: Option<Timestamp>, minutes: u32|
                may_be_check_time(today as int, midnight, minutes)
                    && #[trigger] final(self).updated(*old(self), event, midnight, minutes, r),
    {
        let (midnight, minutes) = match &event {
            IndexEvent::Reply { .. } => pick_check_time(today),
            _ => (None, 0),
        };
        self.update_at(event, midnight, minutes)
    }

    /// Updates the index, one step at a time. The next check is scheduled for tomorrow, at some
    /// minutes past midnight.
    pub fn update(&mut self, event: IndexEvent) -> (r: IndexStep)
        requires
            old(self).wf(),
        ensures
            final(self).wf(),
            exists|today: int, midnight: Option<Timestamp>, minutes: u32|
                #[trigger] clock::may_be_today(today) && may_be_check_time(today, midnight, minutes)
                    && #[trigger] final(self).updated(*old(self), event, midnight, minutes, r),
    {
        let today: i32 = clock::today();
        assert(clock::may_be_today(today as int));
        self.update_on(event, today)
    }

    /// Whether it is time to look for a new index file, and how loud a failure then is to be
    /// reported: the first day after the check was due is nothing to worry about.
    pub fn update_due_at(&self, now: Timestamp) -> (r: Option<Severity>)
        requires
            self.wf(),
            now.wf(),
        ensures
            r == due(self.next_update, now),
    {
        match self.next_update {
            None => None,
            Some(next) => {
                if !next.before(now) {
                    None
                } else if now.hours_since(next) < 24 {
                    Some(Severity::Info)
                } else {
                    Some(Severity::Error)
                }
            },
        }
    }

    /// Whether it is time to look for a new index file, and how loud a failure then is to be
    /// reported.
    pub fn update_if_needed(&self) -> (r: Option<Severity>)
        requires
            self.wf(),
        ensures
            exists|now: Timestamp|
                now.wf() && 0 <= now.seconds <= clock::LAST_SECOND && r == #[trigger] due(
                    self.next_update,
                    now,
                ),
    {
        self.update_due_at(clock::now())
    }
}

} // verus!
