//! What holds of the index while it is updated.

use vstd::prelude::*;
use crate::clock;
use crate::clock::{Timestamp, EPOCH_DAY};
use crate::exchange::DOWNLOAD_TIMEOUT;
use crate::index;
use crate::index::{
    DownloadError,
    DownloadEvent,
    DownloadStep,
    EtagHeader,
    ImageIndex,
    ImageIndexEntry,
    IndexError,
    IndexEvent,
    IndexFile,
    IndexOutcome,
    IndexStep,
    CHECK_SPREAD_MINUTES,
};
use crate::links;
use crate::report::Severity;

verus! {

/// The mark of the index file changes only with the last step of an update that went well. So an
/// index file that was not taken over completely is asked for again.
pub proof fn law_mark_means_complete<'a>(
    before: ImageIndex<'a>,
    after: ImageIndex<'a>,
    event: IndexEvent,
    midnight: Option<Timestamp>,
    minutes: u32,
    step: IndexStep,
)
    requires
        after.updated(before, event, midnight, minutes, step),
    ensures
        step == IndexStep::Finished(Ok(IndexOutcome::Updated)) ==> {
            &&& event matches IndexEvent::RegistryDone { etag, success }
            &&& success
            &&& after.etag == Some(etag)
        },
        step != IndexStep::Finished(Ok(IndexOutcome::Updated)) ==> after.etag == before.etag,
{
}

/// When an index file has been taken over, every rule has the URL that its reference makes.
pub proof fn law_updated_rules_have_urls<'a>(
    before: ImageIndex<'a>,
    after: ImageIndex<'a>,
    event: IndexEvent,
    midnight: Option<Timestamp>,
    minutes: u32,
    step: IndexStep,
)
    requires
        after.updated(before, event, midnight, minutes, step),
        step == IndexStep::Finished(Ok(IndexOutcome::Updated)),
    ensures
        after.index_file.firmware_updates@.len() == before.index_file.firmware_updates@.len(),
        forall|i: int|
            0 <= i < after.index_file.firmware_updates@.len() ==> links::joined_url(
                before.config.index_url@,
                before.index_file.firmware_updates@[i].url@,
            ) == Some((#[trigger] after.index_file.firmware_updates@[i]).url@),
{
}

/// An answer that the index file did not change, or no answer at all, leaves the rules and the
/// mark as they are.
pub proof fn law_no_news_keeps_rules<'a>(
    before: ImageIndex<'a>,
    after: ImageIndex<'a>,
    event: IndexEvent,
    midnight: Option<Timestamp>,
    minutes: u32,
    step: IndexStep,
)
    requires
        after.updated(before, event, midnight, minutes, step),
        event is Begin || event is Reply || event is NoReply,
    ensures
        after.index_file == before.index_file,
        after.etag == before.etag,
        after.ipso_registry == before.ipso_registry,
{
}

/// A check that has been scheduled lies between midnight and the end of the spread.
pub proof fn law_check_is_spread<'a>(
    before: ImageIndex<'a>,
    after: ImageIndex<'a>,
    status: u16,
    header: EtagHeader,
    midnight: Timestamp,
    minutes: u32,
    step: IndexStep,
)
    requires
        after.updated(
            before,
            IndexEvent::Reply { status, header },
            Some(midnight),
            minutes,
            step,
        ),
        status == 200 || status == 304,
        minutes <= CHECK_SPREAD_MINUTES,
        midnight.seconds + 60 * minutes <= i64::MAX,
    ensures
        after.next_update matches Some(next) && midnight.at() <= next.at() <= midnight.at()
            + 55 * 60_000_000_000,
{
}

/// After an answer that is good, the next check lies tomorrow: past the start of the day after
/// today, by no more than the spread, and so after the start of today in UTC, whatever the time
/// zone.
pub proof fn law_check_is_tomorrow<'a>(
    before: ImageIndex<'a>,
    after: ImageIndex<'a>,
    status: u16,
    header: EtagHeader,
    today: int,
    midnight: Timestamp,
    minutes: u32,
    step: IndexStep,
)
    requires
        clock::may_be_today(today),
        index::may_be_check_time(today, Some(midnight), minutes),
        after.updated(
            before,
            IndexEvent::Reply { status, header },
            Some(midnight),
            minutes,
            step,
        ),
        status == 200 || status == 304,
    ensures
        after.next_update matches Some(next) && {
            &&& next.at() == midnight.at() + minutes * 60_000_000_000
            &&& clock::may_start_at(today + 1, midnight)
            &&& (today - EPOCH_DAY) * 86_400_000_000_000 < next.at() < (today - EPOCH_DAY + 2)
                * 86_400_000_000_000 + 55 * 60_000_000_000
        },
{
}

/// A check is never due before the time that it is scheduled for, and always is after it. A failure
/// is reported loudly from a day after that time on.
pub proof fn law_check_waits_for_its_time(scheduled: Timestamp, now: Timestamp)
    requires
        scheduled.wf(),
        now.wf(),
    ensures
        index::due(Some(scheduled), now) is None <==> now.at() <= scheduled.at(),
        index::due(Some(scheduled), now) == Some(Severity::Error) <==> now.at() >= scheduled.at()
            + 86_400_000_000_000,
{
}

/// One step of an update of the index: what had happened, what the index was and became, when
/// tomorrow starts and how much later the next check is to be, and what was to be done next.
pub struct Turn<'a> {
    pub event: IndexEvent,
    pub before: ImageIndex<'a>,
    pub after: ImageIndex<'a>,
    pub midnight: Option<Timestamp>,
    pub minutes: u32,
    pub step: IndexStep,
}

impl<'a> Turn<'a> {
    /// Whether the turn is one that the update takes.
    pub open spec fn happens(self) -> bool {
        self.after.updated(self.before, self.event, self.midnight, self.minutes, self.step)
    }
}

/// Whether the event reports on the step. What is read, and what becomes of the registry, belongs to
/// the answer whose mark the step carries.
pub open spec fn reports(step: IndexStep, event: IndexEvent) -> bool {
    match step {
        IndexStep::Fetch { .. } => event is Reply || event is NoReply,
        IndexStep::ReadBody { etag } => {
            event matches IndexEvent::Body { etag: mark, .. } && mark == etag
        },
        IndexStep::UpdateRegistry { etag, .. } => {
            event matches IndexEvent::RegistryDone { etag: mark, .. } && mark == etag
        },
        IndexStep::Finished(_) => false,
    }
}

/// Whether the turn in the given place goes on where the one before it ended.
pub open spec fn goes_on(run: Seq<Turn>, i: int) -> bool {
    reports(run[i - 1].step, run[i].event) && run[i].before == run[i - 1].after
}

/// Whether the turns are the beginning of an update, or all of it.
pub open spec fn is_run(run: Seq<Turn>) -> bool {
    &&& run.len() > 0
    &&& run[0].event == IndexEvent::Begin
    &&& forall|i: int| 0 <= i < run.len() ==> (#[trigger] run[i]).happens()
    &&& forall|i: int| 0 < i < run.len() ==> #[trigger] goes_on(run, i)
}

/// Whether the index file, and the URL for the registry, are those that the answer with the mark
/// gave.
pub open spec fn took_over(run: Seq<Turn>, etag: String, file: IndexFile, url: String) -> bool {
    &&& run.len() == 4
    &&& run[0].step == (IndexStep::Fetch {
        url: run[0].before.config.index_url,
        known: run[0].before.etag,
        seconds: DOWNLOAD_TIMEOUT,
    })
    &&& run[1].event == (IndexEvent::Reply { status: 200, header: EtagHeader::Text(etag) })
    &&& run[2].event == (IndexEvent::Body { etag, file: Some(file) })
    &&& run[2].step == (IndexStep::UpdateRegistry { url, etag })
    &&& run[3].event == (IndexEvent::RegistryDone { etag, success: true })
}

/// Where an update ends with a new index, all of it comes from one and the same answer: the mark is
/// the one of the answer; the index file is the one that the answer carried, in which each rule has
/// the URL that its reference in that file makes and is else as it was; and the registry was brought
/// up to date once, by the URL that the reference in that file makes. The next check is past the
/// start of tomorrow, and nothing else has changed.
pub proof fn law_index_comes_from_one_answer(run: Seq<Turn>)
    requires
        is_run(run),
        run.last().step == IndexStep::Finished(Ok(IndexOutcome::Updated)),
    ensures
        exists|etag: String, file: IndexFile, url: String|
            {
                let origin = run[0].before;
                let index = run.last().after;
                let base = origin.config.index_url@;
                &&& #[trigger] took_over(run, etag, file, url)
                &&& index.etag == Some(etag)
                &&& index.index_file.ipso_definitions == file.ipso_definitions
                &&& index::resolved(
                    file.firmware_updates@,
                    index.index_file.firmware_updates@,
                    base,
                    file.firmware_updates@.len() as int,
                )
                &&& links::joined_url(base, file.ipso_definitions@) == Some(url@)
                &&& run[1].midnight matches Some(midnight)
                &&& index.next_update == Some(midnight.later(60 * run[1].minutes))
                &&& index.config == origin.config
                &&& index.ipso_registry == origin.ipso_registry
            },
{
    assert(run[0].happens());
    assert(run.len() > 1);
    assert(run[1].happens());
    assert(goes_on(run, 1));
    assert(run.len() > 2 || run[1] == run.last());
    assert(run.len() > 2);
    assert(run[2].happens());
    assert(goes_on(run, 2));
    assert(run.len() > 3 || run[2] == run.last());
    assert(run.len() > 3);
    assert(run[3].happens());
    assert(goes_on(run, 3));
    if run.len() > 4 {
        assert(goes_on(run, 4));
    }
    let etag = run[2].event->Body_etag;
    let file = run[2].event->file->0;
    let url = run[2].step->UpdateRegistry_url;
    assert(took_over(run, etag, file, url));
}

/// An update that does not end with a new index keeps the mark, and keeps the rules too unless a new
/// index file was read.
pub proof fn law_unfinished_update_keeps_mark(run: Seq<Turn>, i: int)
    requires
        is_run(run),
        0 <= i < run.len(),
        forall|j: int|
            0 <= j <= i ==> (#[trigger] run[j]).step != IndexStep::Finished(
                Ok(IndexOutcome::Updated),
            ),
    ensures
        run[i].after.etag == run[0].before.etag,
        (forall|j: int|
            0 <= j <= i ==> !((#[trigger] run[j]).event matches IndexEvent::Body {
                file: Some(_),
                ..
            })) ==> run[i].after.index_file.firmware_updates@
            == run[0].before.index_file.firmware_updates@,
    decreases i,
{
    assert(run[i].happens());
    if i > 0 {
        law_unfinished_update_keeps_mark(run, i - 1);
        assert(goes_on(run, i));
        lemma_registry_after_body(run, i);
    }
}

/// The registry is brought up to date only when a new index file was read.
proof fn lemma_registry_after_body(run: Seq<Turn>, i: int)
    requires
        is_run(run),
        0 < i < run.len(),
    ensures
        run[i].event is RegistryDone ==> (run[i - 1].event matches IndexEvent::Body {
            file: Some(_),
            ..
        }),
{
    assert(goes_on(run, i));
    assert(run[i - 1].happens());
}

/// Whether the two indexes differ at most in the time of their next check.
pub open spec fn same_but_next_check<'a>(a: ImageIndex<'a>, b: ImageIndex<'a>) -> bool {
    &&& a.index_file == b.index_file
    &&& a.config == b.config
    &&& a.etag == b.etag
    &&& a.ipso_registry == b.ipso_registry
}

/// An answer is taken by its status alone, whether or not the index has a mark already: status 200
/// with a mark that is text leads to the index file under just that mark; status 304, and nothing
/// else, says that the index file did not change; and any other status is an error. The next check
/// is moved to the given minutes past midnight with status 200 and 304, and only then, and without a
/// midnight both are errors.
pub proof fn law_answer_is_taken_by_its_status<'a>(
    before: ImageIndex<'a>,
    after: ImageIndex<'a>,
    status: u16,
    header: EtagHeader,
    midnight: Option<Timestamp>,
    minutes: u32,
    step: IndexStep,
)
    requires
        after.updated(before, IndexEvent::Reply { status, header }, midnight, minutes, step),
        midnight matches Some(start) ==> start.seconds + 60 * minutes <= i64::MAX,
    ensures
        status == 200 && midnight is Some ==> match header {
            EtagHeader::Text(etag) => step == (IndexStep::ReadBody { etag }),
            EtagHeader::NotText => step == IndexStep::Finished(Err(IndexError::EtagNotText)),
            EtagHeader::Missing => step == IndexStep::Finished(Err(IndexError::NoEtag)),
        },
        status == 304 && midnight is Some ==> step == IndexStep::Finished(
            Ok(IndexOutcome::NotModified),
        ),
        (status == 200 || status == 304) && midnight is None ==> step == IndexStep::Finished(
            Err(IndexError::NoMidnight),
        ),
        status != 200 && status != 304 ==> step == IndexStep::Finished(
            Err(IndexError::Status(status)),
        ),
        step == IndexStep::Finished(Ok(IndexOutcome::NotModified)) ==> status == 304,
        same_but_next_check(after, before),
        (status == 200 || status == 304) && midnight is Some ==> {
            &&& after.next_update matches Some(next)
            &&& next.seconds == midnight->0.seconds + 60 * minutes
            &&& next.nanos == midnight->0.nanos
        },
        status != 200 && status != 304 || midnight is None ==> after.next_update
            == before.next_update,
{
}

/// What an answer leads to does not depend on the index that it meets.
pub proof fn law_answer_means_the_same_to_all<'a>(
    before: ImageIndex<'a>,
    after: ImageIndex<'a>,
    other_before: ImageIndex<'a>,
    other_after: ImageIndex<'a>,
    status: u16,
    header: EtagHeader,
    midnight: Option<Timestamp>,
    minutes: u32,
    step: IndexStep,
    other_step: IndexStep,
)
    requires
        after.updated(before, IndexEvent::Reply { status, header }, midnight, minutes, step),
        other_after.updated(
            other_before,
            IndexEvent::Reply { status, header },
            midnight,
            minutes,
            other_step,
        ),
    ensures
        step == other_step,
{
}

/// Each way in which an update can end, or go on, has its one cause.
pub proof fn law_steps_have_their_causes<'a>(
    before: ImageIndex<'a>,
    after: ImageIndex<'a>,
    event: IndexEvent,
    midnight: Option<Timestamp>,
    minutes: u32,
    step: IndexStep,
)
    requires
        after.updated(before, event, midnight, minutes, step),
    ensures
        match step {
            IndexStep::Fetch { url, known, seconds } => {
                event is Begin && url == before.config.index_url && known == before.etag && seconds
                    == 300
            },
            IndexStep::ReadBody { etag } => event == (IndexEvent::Reply {
                status: 200,
                header: EtagHeader::Text(etag),
            }) && midnight is Some,
            IndexStep::UpdateRegistry { url, etag } => {
                &&& event matches IndexEvent::Body { etag: mark, file: Some(file) }
                &&& mark == etag
                &&& links::joined_url(before.config.index_url@, file.ipso_definitions@) == Some(
                    url@,
                )
            },
            IndexStep::Finished(Ok(IndexOutcome::NotModified)) => {
                &&& event matches IndexEvent::Reply { status, .. }
                &&& status == 304
                &&& midnight is Some
            },
            IndexStep::Finished(Ok(IndexOutcome::Unreachable)) => {
                event matches IndexEvent::NoReply { connect, timeout } && (connect || timeout)
            },
            IndexStep::Finished(Ok(IndexOutcome::Updated)) => {
                event matches IndexEvent::RegistryDone { success, .. } && success
            },
            IndexStep::Finished(Err(IndexError::Status(code))) => {
                event matches IndexEvent::Reply { status, .. } && status == code && status != 200
                    && status != 304
            },
            IndexStep::Finished(Err(IndexError::NoMidnight)) => {
                event matches IndexEvent::Reply { status, .. } && (status == 200 || status == 304)
                    && midnight is None
            },
            IndexStep::Finished(Err(IndexError::NoEtag)) => event == (IndexEvent::Reply {
                status: 200,
                header: EtagHeader::Missing,
            }),
            IndexStep::Finished(Err(IndexError::EtagNotText)) => event == (IndexEvent::Reply {
                status: 200,
                header: EtagHeader::NotText,
            }),
            IndexStep::Finished(Err(IndexError::NoReply)) => event == (IndexEvent::NoReply {
                connect: false,
                timeout: false,
            }),
            IndexStep::Finished(Err(IndexError::Body)) => {
                event matches IndexEvent::Body { file, .. } && file is None
            },
            IndexStep::Finished(Err(IndexError::InvalidIpsoUrl)) => {
                &&& event matches IndexEvent::Body { file: Some(file), .. }
                &&& links::joined_url(before.config.index_url@, file.ipso_definitions@) is None
            },
            IndexStep::Finished(Err(IndexError::Registry)) => {
                event matches IndexEvent::RegistryDone { success, .. } && !success
            },
            IndexStep::Finished(Err(IndexError::InvalidUrl(_))) => {
                event matches IndexEvent::RegistryDone { success, .. } && success
            },
        },
        event is Begin ==> step is Fetch && after == before,
        event is NoReply ==> step is Finished && after == before,
        event is RegistryDone ==> step is Finished,
        event matches IndexEvent::Body { file, .. } ==> {
            &&& file is None ==> after == before
            &&& file matches Some(f) ==> {
                &&& after.index_file == f
                &&& after.config == before.config
                &&& after.etag == before.etag
                &&& after.next_update == before.next_update
                &&& after.ipso_registry == before.ipso_registry
            }
        },
{
}

/// Whether the rule in the given place is the first one whose reference makes no URL.
pub open spec fn is_first_without_url(
    rules: Seq<ImageIndexEntry>,
    base: Seq<char>,
    n: int,
) -> bool {
    &&& 0 <= n < rules.len()
    &&& links::joined_url(base, rules[n].url@) is None
    &&& forall|i: int| 0 <= i < n ==> links::joined_url(base, (#[trigger] rules[i]).url@) is Some
}

/// Whether the rule became the one with the URL that its reference makes, and is else as it was.
pub open spec fn got_its_url(
    before: ImageIndexEntry,
    after: ImageIndexEntry,
    base: Seq<char>,
) -> bool {
    &&& links::joined_url(base, before.url@) == Some(after.url@)
    &&& after.model_number == before.model_number
    &&& after.software_version == before.software_version
    &&& after.firmware_version == before.firmware_version
    &&& after.pkg_version == before.pkg_version
    &&& after.update == before.update
}

proof fn lemma_first_unresolvable(rules: Seq<ImageIndexEntry>, base: Seq<char>)
    ensures
        0 <= index::first_unresolvable(rules, base) <= rules.len(),
        forall|i: int|
            0 <= i < index::first_unresolvable(rules, base) ==> links::joined_url(
                base,
                (#[trigger] rules[i]).url@,
            ) is Some,
        index::first_unresolvable(rules, base) < rules.len() ==> links::joined_url(
            base,
            rules[index::first_unresolvable(rules, base)].url@,
        ) is None,
    decreases rules.len(),
{
    if rules.len() > 0 && links::joined_url(base, rules.first().url@) is Some {
        let rest = rules.drop_first();
        lemma_first_unresolvable(rest, base);
        assert forall|i: int|
            0 <= i < index::first_unresolvable(rules, base) implies links::joined_url(
            base,
            (#[trigger] rules[i]).url@,
        ) is Some by {
            if i > 0 {
                assert(rest[i - 1] == rules[i]);
            }
        }
        if index::first_unresolvable(rules, base) < rules.len() {
            let n = index::first_unresolvable(rest, base);
            assert(rest[n] == rules[n + 1]);
        }
    }
}

/// When the registry is up to date, every rule gets the URL that its reference makes, and the mark is
/// noted, just where every reference makes a URL. Where one does not, the first such rule is named,
/// only the rules before it get their URLs, and the mark stays. When the registry is not up to date
/// nothing changes.
pub proof fn law_every_rule_gets_its_url<'a>(
    before: ImageIndex<'a>,
    after: ImageIndex<'a>,
    etag: String,
    success: bool,
    midnight: Option<Timestamp>,
    minutes: u32,
    step: IndexStep,
)
    requires
        after.updated(
            before,
            IndexEvent::RegistryDone { etag, success },
            midnight,
            minutes,
            step,
        ),
        before.index_file.firmware_updates@.len() <= usize::MAX,
    ensures
        ({
            let old_rules = before.index_file.firmware_updates@;
            let new_rules = after.index_file.firmware_updates@;
            let base = before.config.index_url@;
            let whole = forall|i: int|
                0 <= i < old_rules.len() ==> links::joined_url(
                    base,
                    (#[trigger] old_rules[i]).url@,
                ) is Some;
            &&& after.config == before.config
            &&& after.next_update == before.next_update
            &&& after.ipso_registry == before.ipso_registry
            &&& after.index_file.ipso_definitions == before.index_file.ipso_definitions
            &&& new_rules.len() == old_rules.len()
            &&& !success ==> after == before && step == IndexStep::Finished(
                Err(IndexError::Registry),
            )
            &&& success && whole ==> {
                &&& step == IndexStep::Finished(Ok(IndexOutcome::Updated))
                &&& after.etag == Some(etag)
                &&& forall|i: int|
                    #![trigger new_rules[i]]
                    0 <= i < old_rules.len() ==> got_its_url(old_rules[i], new_rules[i], base)
            }
            &&& success && !whole ==> exists|n: int|
                {
                    &&& #[trigger] is_first_without_url(old_rules, base, n)
                    &&& step == IndexStep::Finished(Err(IndexError::InvalidUrl(n as usize)))
                    &&& after.etag == before.etag
                    &&& forall|i: int|
                        #![trigger new_rules[i]]
                        0 <= i < n ==> got_its_url(old_rules[i], new_rules[i], base)
                    &&& forall|i: int| n <= i < old_rules.len() ==> #[trigger] new_rules[i]
                        == old_rules[i]
                }
        }),
{
    let old_rules = before.index_file.firmware_updates@;
    let new_rules = after.index_file.firmware_updates@;
    let base = before.config.index_url@;
    let n = index::first_unresolvable(old_rules, base);
    lemma_first_unresolvable(old_rules, base);
    if success && n < old_rules.len() {
        assert(is_first_without_url(old_rules, base, n));
    }
}

/// The first URL that is missing is missing, and none before it is; where none is missing, the place
/// is the one behind the last.
pub proof fn law_first_missing_url(urls: Seq<Option<String>>)
    ensures
        0 <= index::first_missing(urls) <= urls.len(),
        forall|i: int| 0 <= i < index::first_missing(urls) ==> #[trigger] urls[i] is Some,
        index::first_missing(urls) < urls.len() ==> urls[index::first_missing(urls)] is None,
    decreases urls.len(),
{
    if urls.len() > 0 && urls.first() is Some {
        let rest = urls.drop_first();
        law_first_missing_url(rest);
        assert forall|i: int| 0 <= i < index::first_missing(urls) implies #[trigger] urls[i] is Some by {
            if i > 0 {
                assert(rest[i - 1] == urls[i]);
            }
        }
        if index::first_missing(urls) < urls.len() {
            let n = index::first_missing(rest);
            assert(rest[n] == urls[n + 1]);
        }
    }
}

/// No check is due where none is scheduled. One that is scheduled is due as soon as its time is over,
/// to the nanosecond, and its failure is reported softly for just a day.
pub proof fn law_due_check_is_soft_for_a_day(scheduled: Option<Timestamp>, now: Timestamp)
    requires
        now.nanos < 1_000_000_000,
        scheduled matches Some(next) ==> next.nanos < 1_000_000_000,
    ensures
        scheduled is None ==> index::due(scheduled, now) is None,
        scheduled matches Some(next) ==> {
            let over = (now.seconds - next.seconds) * 1_000_000_000 + now.nanos - next.nanos;
            &&& over <= 0 ==> index::due(scheduled, now) is None
            &&& 0 < over < 24 * 60 * 60 * 1_000_000_000 ==> index::due(scheduled, now) == Some(
                Severity::Info,
            )
            &&& over >= 24 * 60 * 60 * 1_000_000_000 ==> index::due(scheduled, now) == Some(
                Severity::Error,
            )
        },
{
}

/// A next check that can come about lies at most 55 minutes past the start of a day, and that day
/// starts within a day of the start of tomorrow in UTC.
pub proof fn law_check_time_is_past_midnight<'a>(
    before: ImageIndex<'a>,
    after: ImageIndex<'a>,
    today: int,
    midnight: Option<Timestamp>,
    minutes: u32,
)
    requires
        clock::may_be_today(today),
        index::may_be_check_time(today, midnight, minutes),
        after.rescheduled(before, midnight, minutes),
    ensures
        minutes <= 55,
        same_but_next_check(after, before),
        midnight is None ==> after.next_update == before.next_update,
        midnight matches Some(start) ==> {
            &&& start.nanos == 0
            &&& (today - 719_163) * 86_400 < start.seconds < (today - 719_163 + 2) * 86_400
            &&& after.next_update matches Some(next)
            &&& next.seconds == start.seconds + 60 * minutes
            &&& next.nanos == 0
        },
{
}

/// An image comes out of a download only as the body that was read; the body is read just where the
/// answer is a success; the image is asked for by the URL of the rule, and may take five minutes; and
/// everything else fails with its own reason.
pub proof fn law_image_is_the_body_of_a_success(
    entry: ImageIndexEntry,
    event: DownloadEvent,
    step: DownloadStep,
)
    requires
        step == entry.downloaded(event),
    ensures
        step matches DownloadStep::Image(image) ==> event == DownloadEvent::Body(Some(image)),
        event matches DownloadEvent::Body(Some(image)) ==> step == DownloadStep::Image(image),
        step is ReadBody <==> (event matches DownloadEvent::Status(status) && 200 <= status <= 299),
        event is Begin <==> step is Get,
        step matches DownloadStep::Get { url, seconds } ==> url == entry.url && seconds == 5 * 60,
        event matches DownloadEvent::Status(status) ==> !(200 <= status <= 299) ==> step
            == DownloadStep::Failed(DownloadError::Status(status)),
        event is NoReply ==> step == DownloadStep::Failed(DownloadError::NoReply),
        event == DownloadEvent::Body(None) ==> step == DownloadStep::Failed(DownloadError::NoBody),
{
}

} // verus!
