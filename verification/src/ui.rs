//! What the user gets to see of an update check.

pub mod markdown;

use vstd::prelude::*;

use crate::check::{
    check_view, UpdateAvailableResult, UpdateAvailableView, UpdateCheckOutcome, UpdateCheckView,
};
use crate::config::UpdaterConfig;
use crate::error::{UpdateError, UpdateErrorView};
use crate::install::{Notice, NoticeView};
use crate::text::{
    all_white, fill, filled, is_white, law_trimming_leaves_the_middle,
    law_trimming_takes_only_white_space, to_chars, trim, trimmed,
};
use crate::words::Words;
use markdown::{markdown_events, rendered};

pub use markdown::markdown_to_text;

verus! {

/// What set off an update check.
#[derive(Debug, Clone, Copy, PartialEq, Eq, Structural)]
pub enum CheckTrigger {
    /// The app itself, say at startup. Only an update that was found is worth a dialog.
    Automatic,
    /// The user, who gets an answer in any case.
    Manual,
}

/// What the "update available" dialog says.
#[derive(Debug)]
pub struct DialogTexts {
    /// Its title.
    pub title: String,
    /// The label above the release notes.
    pub label: String,
    /// The button that accepts.
    pub yes: String,
    /// The button that declines.
    pub no: String,
}

/// [`DialogTexts`] as sequences of characters.
pub struct DialogView {
    pub title: Seq<char>,
    pub label: Seq<char>,
    pub yes: Seq<char>,
    pub no: Seq<char>,
}

impl View for DialogTexts {
    type V = DialogView;

    open spec fn view(&self) -> DialogView {
        DialogView { title: self.title@, label: self.label@, yes: self.yes@, no: self.no@ }
    }
}

/// What the "update available" dialog says.
pub open spec fn dialog(
    words: Words,
    new_version: Seq<char>,
    app_display_name: Seq<char>,
) -> DialogView {
    DialogView {
        title: filled(words.update_to@, new_version),
        label: filled(words.new_version@, app_display_name),
        yes: words.yes@,
        no: words.no@,
    }
}

/// Makes the texts of the "update available" dialog, in the given words.
pub fn update_dialog_in(words: &Words, new_version: &str, app_display_name: &str) -> (texts:
    DialogTexts)
    ensures
        texts@ == dialog(*words, new_version@, app_display_name@),
{
    DialogTexts {
        title: fill(words.update_to.as_str(), new_version),
        label: fill(words.new_version.as_str(), app_display_name),
        yes: words.yes.clone(),
        no: words.no.clone(),
    }
}

/// Makes the texts of the "update available" dialog, in the words of the user.
pub fn update_dialog(new_version: &str, app_display_name: &str) -> (texts: DialogTexts)
    ensures
        exists|words: Words|
            words.translated() && texts@ == #[trigger] dialog(
                words,
                new_version@,
                app_display_name@,
            ),
{
    let words = Words::load();
    update_dialog_in(&words, new_version, app_display_name)
}

/// An update to be offered to the user.
#[derive(Debug)]
pub struct UpdateOffer {
    /// The version it brings.
    pub version: String,
    /// What is new, as plain text.
    pub notes: String,
    /// Where to get the file.
    pub download_url: String,
    /// Where to get the file's signature.
    pub signature_url: String,
    /// The title of the progress dialog.
    pub progress_title: String,
    /// What the progress dialog says.
    pub progress_message: String,
}

/// [`UpdateOffer`] with its texts as sequences of characters.
pub struct OfferView {
    pub version: Seq<char>,
    pub notes: Seq<char>,
    pub download_url: Seq<char>,
    pub signature_url: Seq<char>,
    pub progress_title: Seq<char>,
    pub progress_message: Seq<char>,
}

impl View for UpdateOffer {
    type V = OfferView;

    open spec fn view(&self) -> OfferView {
        OfferView {
            version: self.version@,
            notes: self.notes@,
            download_url: self.download_url@,
            signature_url: self.signature_url@,
            progress_title: self.progress_title@,
            progress_message: self.progress_message@,
        }
    }
}

/// The offer of an update whose notes come to `plain_notes`. Without a version of its own the
/// update goes under the app's, and notes without any visible character give way to a phrase.
pub open spec fn offered(
    words: Words,
    config: UpdaterConfig,
    update: UpdateAvailableView,
    plain_notes: Seq<char>,
) -> OfferView {
    OfferView {
        version: if update.latest_version.len() == 0 {
            config.current_version@
        } else {
            update.latest_version
        },
        notes: if trimmed(plain_notes).len() == 0 {
            words.no_notes@
        } else {
            plain_notes
        },
        download_url: update.download_url,
        signature_url: update.signature_url,
        progress_title: filled(words.update_of@, config.app_display_name@),
        progress_message: words.downloading@,
    }
}

/// Whether a text has no visible character.
fn is_invisible(text: &str) -> (b: bool)
    ensures
        b == (trimmed(text@).len() == 0),
{
    let chars = to_chars(text);
    trim(chars.as_slice()).len() == 0
}

/// Makes the offer of an update whose notes come to `plain_notes`.
pub fn offer_update_in(
    words: &Words,
    config: &UpdaterConfig,
    update: UpdateAvailableResult,
    plain_notes: String,
) -> (offer: UpdateOffer)
    ensures
        offer@ == offered(*words, *config, update@, plain_notes@),
{
    let version = if update.latest_version.as_str().is_empty() {
        config.current_version.clone()
    } else {
        update.latest_version
    };
    let notes = if is_invisible(plain_notes.as_str()) {
        words.no_notes.clone()
    } else {
        plain_notes
    };
    UpdateOffer {
        version,
        notes,
        download_url: update.download_url,
        signature_url: update.signature_url,
        progress_title: fill(words.update_of.as_str(), config.app_display_name.as_str()),
        progress_message: words.downloading.clone(),
    }
}

/// How the result of a check is shown.
#[derive(Debug)]
pub enum Presentation {
    /// As an offer.
    Offer(UpdateOffer),
    /// As a message.
    Info(Notice),
    /// As an error message.
    Error(Notice),
    /// Not at all.
    Nothing,
}

/// [`Presentation`] with its texts as sequences of characters.
pub enum PresentationView {
    Offer(OfferView),
    Info(NoticeView),
    Error(NoticeView),
    Nothing,
}

impl View for Presentation {
    type V = PresentationView;

    open spec fn view(&self) -> PresentationView {
        match self {
            Presentation::Offer(o) => PresentationView::Offer(o@),
            Presentation::Info(n) => PresentationView::Info(n@),
            Presentation::Error(n) => PresentationView::Error(n@),
            Presentation::Nothing => PresentationView::Nothing,
        }
    }
}

/// What is said when there is no update.
pub open spec fn up_to_date_notice(words: Words, version: Seq<char>) -> NoticeView {
    NoticeView {
        title: words.info@,
        message: if trimmed(version).len() == 0 {
            words.no_updates@
        } else {
            filled(words.latest_version@, version)
        },
    }
}

/// What is said when a check failed. A failed verification is told apart from the rest.
pub open spec fn error_notice(words: Words, error: UpdateErrorView) -> NoticeView {
    match error {
        UpdateErrorView::Verification(m) => NoticeView {
            title: words.security_error@,
            message: filled(words.tampered@, m),
        },
        _ => NoticeView { title: words.error@, message: error.message() },
    }
}

/// How the result of a check is shown: an update always as an offer, the rest only to a user who
/// asked.
pub open spec fn presented(
    words: Words,
    config: UpdaterConfig,
    outcome: Result<UpdateCheckView, UpdateErrorView>,
    trigger: CheckTrigger,
) -> PresentationView {
    match (outcome, trigger) {
        (Ok(UpdateCheckView::UpdateAvailable(update)), _) => PresentationView::Offer(
            offered(words, config, update, rendered(markdown_events(update.release_notes))),
        ),
        (_, CheckTrigger::Automatic) => PresentationView::Nothing,
        (Ok(UpdateCheckView::UpToDate(version)), CheckTrigger::Manual) => PresentationView::Info(
            up_to_date_notice(words, version),
        ),
        (Err(e), CheckTrigger::Manual) => PresentationView::Error(error_notice(words, e)),
    }
}

/// Makes the message for an app that is up to date, in the given words.
pub fn up_to_date_in(words: &Words, version: &str) -> (notice: Notice)
    ensures
        notice@ == up_to_date_notice(*words, version@),
{
    Notice {
        title: words.info.clone(),
        message: if is_invisible(version) {
            words.no_updates.clone()
        } else {
            fill(words.latest_version.as_str(), version)
        },
    }
}

/// Makes the message for a check that failed, in the given words.
pub fn check_failed_in(words: &Words, error: &UpdateError) -> (notice: Notice)
    ensures
        notice@ == error_notice(*words, error@),
{
    match error {
        UpdateError::Verification(m) => Notice {
            title: words.security_error.clone(),
            message: fill(words.tampered.as_str(), m.as_str()),
        },
        _ => Notice { title: words.error.clone(), message: error.message() },
    }
}

/// Decides how the result of a check is shown, in the given words.
pub fn present_in(
    words: &Words,
    config: &UpdaterConfig,
    outcome: Result<UpdateCheckOutcome, UpdateError>,
    trigger: CheckTrigger,
) -> (presentation: Presentation)
    ensures
        presentation@ == presented(*words, *config, check_view(outcome), trigger),
{
    match outcome {
        Ok(UpdateCheckOutcome::UpdateAvailable(update)) => {
            let plain_notes = markdown_to_text(update.release_notes.as_str());
            Presentation::Offer(offer_update_in(words, config, update, plain_notes))
        },
        Ok(UpdateCheckOutcome::UpToDate(version)) => match trigger {
            CheckTrigger::Automatic => Presentation::Nothing,
            CheckTrigger::Manual => Presentation::Info(up_to_date_in(words, version.as_str())),
        },
        Err(e) => match trigger {
            CheckTrigger::Automatic => Presentation::Nothing,
            CheckTrigger::Manual => Presentation::Error(check_failed_in(words, &e)),
        },
    }
}

/// Decides how the result of a check is shown, in the words of the user.
pub fn present_update_result(
    config: &UpdaterConfig,
    outcome: Result<UpdateCheckOutcome, UpdateError>,
    trigger: CheckTrigger,
) -> (presentation: Presentation)
    ensures
        exists|words: Words|
            words.translated() && presentation@ == #[trigger] presented(
                words,
                *config,
                check_view(outcome),
                trigger,
            ),
{
    let words = Words::load();
    present_in(&words, config, outcome, trigger)
}

/// Where the one update flow that there may be stands.
#[derive(Debug, Clone, Copy, PartialEq, Eq, Structural)]
pub enum Flow {
    /// There is none.
    Idle,
    /// A check is under way, or its result is being shown.
    Checking,
    /// A download is under way, or its file is being installed.
    Downloading,
}

/// Something that happens to an update flow.
pub enum FlowEvent {
    /// Someone wants to start a flow.
    Start,
    /// The result of the check has been shown, in this way.
    Shown(PresentationView),
    /// The user has accepted or declined this offer.
    Answered(bool, OfferView),
    /// The result of the download has been handled.
    Handled,
}

impl FlowEvent {
    /// Whether the flow is over with this: a result that is no offer was shown or suppressed, an
    /// offer was declined or leads nowhere, or a download was handled.
    pub open spec fn is_last(self) -> bool {
        match self {
            FlowEvent::Start => false,
            FlowEvent::Shown(p) => !(p is Offer),
            FlowEvent::Answered(accepted, offer) => !(accepted && offer.download_url.len() > 0),
            FlowEvent::Handled => true,
        }
    }
}

impl Flow {
    /// Whether an event can happen where the flow stands. Anyone may want to start a flow at any
    /// time.
    pub open spec fn awaits(self, event: FlowEvent) -> bool {
        match event {
            FlowEvent::Start => true,
            FlowEvent::Shown(_) | FlowEvent::Answered(_, _) => self == Flow::Checking,
            FlowEvent::Handled => self == Flow::Downloading,
        }
    }

    /// Where the flow stands after an event.
    pub open spec fn after(self, event: FlowEvent) -> Flow {
        match event {
            FlowEvent::Start => if self == Flow::Idle {
                Flow::Checking
            } else {
                self
            },
            FlowEvent::Shown(p) => if p is Offer {
                Flow::Checking
            } else {
                Flow::Idle
            },
            FlowEvent::Answered(accepted, offer) => if accepted && offer.download_url.len() > 0 {
                Flow::Downloading
            } else {
                Flow::Idle
            },
            FlowEvent::Handled => Flow::Idle,
        }
    }

    /// Starts an update flow, unless there is one already. Without this, two concurrent downloads
    /// would race on the same temporary file, and a completing stale check could destroy the
    /// progress dialog of a newer one.
    pub fn try_start(&mut self) -> (started: bool)
        ensures
            started == (*old(self) == Flow::Idle),
            *final(self) == old(self).after(FlowEvent::Start),
    {
        if *self == Flow::Idle {
            *self = Flow::Checking;
            true
        } else {
            false
        }
    }

    /// Goes on once the result of the check has been shown: the flow ends, unless there is an
    /// offer to be answered.
    pub fn shown(&mut self, presentation: &Presentation)
        requires
            *old(self) == Flow::Checking,
        ensures
            *final(self) == (if presentation@ is Offer {
                Flow::Checking
            } else {
                Flow::Idle
            }),
            *final(self) == old(self).after(FlowEvent::Shown(presentation@)),
    {
        match presentation {
            Presentation::Offer(_) => {},
            _ => {
                *self = Flow::Idle;
            },
        }
    }

    /// Goes on from an offer: an offer that was accepted and leads somewhere is downloaded, and
    /// any other ends the flow.
    pub fn answer(&mut self, accepted: bool, offer: &UpdateOffer) -> (download: bool)
        requires
            *old(self) == Flow::Checking,
        ensures
            download == (accepted && offer@.download_url.len() > 0),
            *final(self) == (if download {
                Flow::Downloading
            } else {
                Flow::Idle
            }),
            *final(self) == old(self).after(FlowEvent::Answered(accepted, offer@)),
    {
        let download = accepted && !offer.download_url.as_str().is_empty();
        *self = if download {
            Flow::Downloading
        } else {
            Flow::Idle
        };
        download
    }

    /// Ends the flow once the result of its download has been handled.
    pub fn end(&mut self)
        requires
            *old(self) == Flow::Downloading,
        ensures
            *final(self) == Flow::Idle,
            *final(self) == old(self).after(FlowEvent::Handled),
    {
        *self = Flow::Idle;
    }
}

/// Where the flow stands after a list of events, when there was none before.
pub open spec fn flow_after(events: Seq<FlowEvent>) -> Flow
    decreases events.len(),
{
    if events.len() == 0 {
        Flow::Idle
    } else {
        flow_after(events.drop_last()).after(events.last())
    }
}

/// Whether each event of a list happens where it can.
pub open spec fn in_order(events: Seq<FlowEvent>) -> bool
    decreases events.len(),
{
    events.len() > 0 ==> in_order(events.drop_last()) && flow_after(events.drop_last()).awaits(
        events.last(),
    )
}

/// How many flows a list of events starts: an attempt while there is one already starts none.
pub open spec fn flows_started(events: Seq<FlowEvent>) -> nat
    decreases events.len(),
{
    if events.len() == 0 {
        0
    } else {
        flows_started(events.drop_last()) + (if events.last() is Start && flow_after(
            events.drop_last(),
        ) == Flow::Idle {
            1nat
        } else {
            0nat
        })
    }
}

/// How many flows are over after a list of events.
pub open spec fn flows_over(events: Seq<FlowEvent>) -> nat
    decreases events.len(),
{
    if events.len() == 0 {
        0
    } else {
        flows_over(events.drop_last()) + (if events.last().is_last() {
            1nat
        } else {
            0nat
        })
    }
}

/// A flow that was started is idle again exactly once it is over, by whichever way, and not before:
/// after any events, all flows that were started are over, and the next attempt starts one, or all
/// but one are, and the next attempt starts none.
pub proof fn law_flows_end_in_idleness(events: Seq<FlowEvent>)
    requires
        in_order(events),
    ensures
        flow_after(events) == Flow::Idle <==> flows_started(events) == flows_over(events),
        flow_after(events) != Flow::Idle <==> flows_started(events) == flows_over(events) + 1,
        flows_started(events.push(FlowEvent::Start)) == flows_over(events) + 1,
    decreases events.len(),
{
    let more = events.push(FlowEvent::Start);
    assert(more.drop_last() =~= events);
    assert(more.last() == FlowEvent::Start);
    assert(flows_started(more) == flows_started(events) + (if flow_after(events) == Flow::Idle {
        1nat
    } else {
        0nat
    }));
    if events.len() > 0 {
        let init = events.drop_last();
        let last = events.last();
        law_flows_end_in_idleness(init);
        assert(flow_after(init).awaits(last));
        assert(flow_after(events) == flow_after(init).after(last));
        assert(flows_started(events) == flows_started(init) + (if last is Start && flow_after(init)
            == Flow::Idle {
            1nat
        } else {
            0nat
        }));
        assert(flows_over(events) == flows_over(init) + (if last.is_last() {
            1nat
        } else {
            0nat
        }));
    }
}

/// A number of attempts to start a flow, one right after the other.
pub open spec fn attempts(n: nat) -> Seq<FlowEvent> {
    Seq::new(n, |i: int| FlowEvent::Start)
}

/// Attempts while a flow is under way are no-ops: they start nothing and leave the flow where it
/// stands. Of any number of attempts while there is none, exactly one starts a flow. In whichever
/// order the attempts of several callers come, this is all that becomes of them.
pub proof fn law_one_of_many_attempts_starts(events: Seq<FlowEvent>, n: nat)
    requires
        n > 0,
    ensures
        flow_after(events) == Flow::Idle ==> flows_started(events + attempts(n)) == flows_started(
            events,
        ) + 1 && flow_after(events + attempts(n)) == Flow::Checking,
        flow_after(events) != Flow::Idle ==> flows_started(events + attempts(n)) == flows_started(
            events,
        ) && flow_after(events + attempts(n)) == flow_after(events),
        flows_over(events + attempts(n)) == flows_over(events),
    decreases n,
{
    let all = events + attempts(n);
    let fewer = (n - 1) as nat;
    assert(all.drop_last() =~= events + attempts(fewer));
    assert(all.last() == FlowEvent::Start);
    if fewer == 0 {
        assert(all.drop_last() =~= events);
    } else {
        law_one_of_many_attempts_starts(events, fewer);
    }
    assert(flow_after(all) == flow_after(all.drop_last()).after(FlowEvent::Start));
}

/// A flow leaves its download only when the result has been handled.
pub proof fn law_downloads_are_handled(flow: Flow, event: FlowEvent)
    requires
        flow == Flow::Downloading,
        flow.awaits(event),
    ensures
        flow.after(event) == Flow::Idle <==> event is Handled,
        flow.after(event) == Flow::Downloading <==> !(event is Handled),
{
}

/// A check without an update is over when its result has been shown, and also when it is not shown
/// because nobody asked.
pub proof fn law_checks_without_update_end_the_flow(
    words: Words,
    config: UpdaterConfig,
    outcome: Result<UpdateCheckView, UpdateErrorView>,
    trigger: CheckTrigger,
)
    ensures
        Flow::Checking.after(FlowEvent::Shown(presented(words, config, outcome, trigger)))
            == Flow::Idle <==> !(outcome matches Ok(o) && o is UpdateAvailable),
{
}

/// The percentage that a progress dialog shows; nothing when the size is not known or the number
/// does not fit.
pub open spec fn percent(downloaded: u64, total: u64) -> Option<i32> {
    let hundredfold = if downloaded * 100 > u64::MAX {
        u64::MAX as int
    } else {
        downloaded * 100
    };
    if total == 0 || hundredfold / total as int > i32::MAX {
        None
    } else {
        Some((hundredfold / total as int) as i32)
    }
}

/// Computes the percentage that a progress dialog shows.
pub fn progress_percent(downloaded: u64, total: u64) -> (result: Option<i32>)
    ensures
        result == percent(downloaded, total),
{
    if total == 0 {
        return None;
    }
    let hundredfold: u64 = if downloaded > u64::MAX / 100 {
        u64::MAX
    } else {
        downloaded * 100
    };
    let value: u64 = hundredfold / total;
    if value > i32::MAX as u64 {
        None
    } else {
        Some(value as i32)
    }
}

/// A check that the app set off by itself shows an update or nothing.
pub proof fn law_automatic_checks_are_quiet(
    words: Words,
    config: UpdaterConfig,
    outcome: Result<UpdateCheckView, UpdateErrorView>,
)
    ensures
        presented(words, config, outcome, CheckTrigger::Automatic) is Offer <==> (outcome matches Ok(
            o,
        ) && o is UpdateAvailable),
        presented(words, config, outcome, CheckTrigger::Automatic) is Offer || presented(
            words,
            config,
            outcome,
            CheckTrigger::Automatic,
        ) is Nothing,
{
}

/// A user who asked for a check gets an answer, whatever comes of it.
pub proof fn law_manual_checks_are_answered(
    words: Words,
    config: UpdaterConfig,
    outcome: Result<UpdateCheckView, UpdateErrorView>,
)
    ensures
        !(presented(words, config, outcome, CheckTrigger::Manual) is Nothing),
{
}

/// As long as no more has come than was announced, the percentage is one from zero to a hundred.
/// It is a hundred only when all is there, and then it is, unless the size is so large that its
/// hundredfold does not fit.
pub proof fn law_percentage_is_one(downloaded: u64, total: u64)
    requires
        0 < total,
        downloaded <= total,
    ensures
        percent(downloaded, total) matches Some(p) && 0 <= p <= 100,
        percent(downloaded, total) == Some(100i32) ==> downloaded == total,
        downloaded == total && total * 100 <= u64::MAX ==> percent(downloaded, total) == Some(
            100i32,
        ),
{
    let h = if downloaded * 100 > u64::MAX {
        u64::MAX as int
    } else {
        downloaded * 100
    };
    let t = total as int;
    assert(0 <= h / t <= 100) by (nonlinear_arith)
        requires
            0 <= h <= t * 100,
            t > 0,
    ;
    assert(h / t == 100 <==> h == t * 100) by (nonlinear_arith)
        requires
            0 <= h <= t * 100,
            t > 0,
    ;
}

/// The percentage never goes back while a download goes on.
pub proof fn law_percentage_grows(less: u64, more: u64, total: u64)
    requires
        less <= more,
    ensures
        percent(more, total) matches Some(p) ==> (percent(less, total) matches Some(q) && q <= p),
{
    if total > 0 {
        let a = if less * 100 > u64::MAX {
            u64::MAX as int
        } else {
            less * 100
        };
        let b = if more * 100 > u64::MAX {
            u64::MAX as int
        } else {
            more * 100
        };
        let t = total as int;
        assert(a / t <= b / t) by (nonlinear_arith)
            requires
                0 <= a <= b,
                t > 0,
        ;
        assert(0 <= a / t) by (nonlinear_arith)
            requires
                0 <= a,
                t > 0,
        ;
    }
}

/// What an offer shows: the update's own version, or the app's where it has none; the notes, or a
/// phrase where they show nothing; where file and signature are; and the app's display name above
/// the progress.
pub proof fn law_offers_show_the_update(
    words: Words,
    config: UpdaterConfig,
    update: UpdateAvailableView,
    notes: Seq<char>,
)
    ensures
        ({
            let offer = offered(words, config, update, notes);
            &&& update.latest_version.len() > 0 ==> offer.version == update.latest_version
            &&& update.latest_version.len() == 0 ==> offer.version == config.current_version@
            &&& all_white(notes) ==> offer.notes == words.no_notes@
            &&& !all_white(notes) ==> offer.notes == notes
            &&& offer.download_url == update.download_url
            &&& offer.signature_url == update.signature_url
            &&& offer.progress_title == filled(words.update_of@, config.app_display_name@)
            &&& offer.progress_message == words.downloading@
        }),
{
    lemma_nothing_visible(notes);
}

proof fn lemma_nothing_visible(s: Seq<char>)
    ensures
        trimmed(s).len() == 0 <==> all_white(s),
{
    if all_white(s) {
        law_trimming_takes_only_white_space(s, Seq::empty(), Seq::empty());
        assert(s + Seq::<char>::empty() + Seq::<char>::empty() =~= s);
    }
    if trimmed(s).len() == 0 {
        law_trimming_leaves_the_middle(s);
        let (a, b) = choose|a: Seq<char>, b: Seq<char>|
            all_white(a) && all_white(b) && s == #[trigger] (a + trimmed(s) + b);
        assert forall|i: int| 0 <= i < s.len() implies is_white(#[trigger] s[i]) by {
            if i < a.len() {
                assert(s[i] == a[i]);
            } else {
                assert(s[i] == b[i - a.len()]);
            }
        }
    }
}

/// How the results of a check are shown: an update as an offer, whoever asked, with its notes as
/// plain text; to a user who asked, that there is none, with the latest version if it is known, and
/// an error as what it says, or as a warning where a signature did not fit.
pub proof fn law_results_are_shown(
    words: Words,
    config: UpdaterConfig,
    update: UpdateAvailableView,
    trigger: CheckTrigger,
    latest: Seq<char>,
    error: UpdateErrorView,
)
    ensures
        presented(words, config, Ok(UpdateCheckView::UpdateAvailable(update)), trigger)
            == PresentationView::Offer(
            offered(words, config, update, rendered(markdown_events(update.release_notes))),
        ),
        presented(words, config, Ok(UpdateCheckView::UpToDate(latest)), CheckTrigger::Manual)
            == PresentationView::Info(
            NoticeView {
                title: words.info@,
                message: if all_white(latest) {
                    words.no_updates@
                } else {
                    filled(words.latest_version@, latest)
                },
            },
        ),
        !(error is Verification) ==> presented(words, config, Err(error), CheckTrigger::Manual)
            == PresentationView::Error(
            NoticeView { title: words.error@, message: error.message() },
        ),
        error matches UpdateErrorView::Verification(m) ==> presented(
            words,
            config,
            Err(error),
            CheckTrigger::Manual,
        ) == PresentationView::Error(
            NoticeView { title: words.security_error@, message: filled(words.tampered@, m) },
        ),
{
    lemma_nothing_visible(latest);
}

/// The dialog names the new version in its title and the app in its label.
pub proof fn law_dialogs_name_version_and_app(words: Words, version: Seq<char>, app: Seq<char>)
    ensures
        dialog(words, version, app).title == filled(words.update_to@, version),
        dialog(words, version, app).label == filled(words.new_version@, app),
        dialog(words, version, app).yes == words.yes@,
        dialog(words, version, app).no == words.no@,
{
}

/// The percentage is the whole part of a hundred times what has come, over the size, as long as that
/// hundredfold fits in sixty-four bits; it is there exactly when the size is known and it fits
/// itself.
pub proof fn law_percentage_is_the_share(downloaded: u64, total: u64)
    requires
        downloaded * 100 <= u64::MAX,
    ensures
        percent(downloaded, total) matches Some(p) ==> 0 <= p && p * total <= downloaded * 100 < (p
            + 1) * total,
        percent(downloaded, total) is None <==> total == 0 || downloaded * 100 >= (i32::MAX + 1)
            * total,
{
    if total > 0 {
        let h = downloaded * 100;
        let t = total as int;
        let q = h / t;
        assert(q * t <= h < (q + 1) * t && q >= 0) by (nonlinear_arith)
            requires
                q == h / t,
                h >= 0,
                t > 0,
        ;
        assert(q > i32::MAX <==> h >= (i32::MAX + 1) * t) by (nonlinear_arith)
            requires
                q * t <= h < (q + 1) * t,
                t > 0,
        ;
    }
}

/// What each event makes of a flow: a start leads from idleness to a check and nowhere else; a result
/// that is shown ends it unless it is an offer; an offer leads to the download exactly when it was
/// accepted and says where the file is.
pub proof fn law_flows_take_these_steps(
    flow: Flow,
    presentation: PresentationView,
    accepted: bool,
    offer: OfferView,
)
    ensures
        Flow::Idle.after(FlowEvent::Start) == Flow::Checking,
        flow != Flow::Idle ==> flow.after(FlowEvent::Start) == flow,
        Flow::Checking.after(FlowEvent::Shown(presentation)) == (if presentation is Offer {
            Flow::Checking
        } else {
            Flow::Idle
        }),
        Flow::Checking.after(FlowEvent::Answered(accepted, offer)) == Flow::Downloading <==> accepted
            && offer.download_url.len() > 0,
        Flow::Checking.after(FlowEvent::Answered(accepted, offer)) == Flow::Idle <==> !accepted
            || offer.download_url.len() == 0,
        Flow::Downloading.after(FlowEvent::Handled) == Flow::Idle,
        flow.awaits(FlowEvent::Start),
        flow.awaits(FlowEvent::Shown(presentation)) <==> flow == Flow::Checking,
        flow.awaits(FlowEvent::Answered(accepted, offer)) <==> flow == Flow::Checking,
        flow.awaits(FlowEvent::Handled) <==> flow == Flow::Downloading,
        FlowEvent::Shown(presentation).is_last() <==> !(presentation is Offer),
        FlowEvent::Answered(accepted, offer).is_last() <==> !accepted || offer.download_url.len()
            == 0,
        FlowEvent::Handled.is_last(),
        !FlowEvent::Start.is_last(),
{
}

/// Offers and dialogs are seen as they are, text by text.
pub proof fn law_offers_are_seen_as_they_are(
    offer: UpdateOffer,
    texts: DialogTexts,
    notice: Notice,
)
    ensures
        offer@.version == offer.version@,
        offer@.notes == offer.notes@,
        offer@.download_url == offer.download_url@,
        offer@.signature_url == offer.signature_url@,
        offer@.progress_title == offer.progress_title@,
        offer@.progress_message == offer.progress_message@,
        texts@.title == texts.title@,
        texts@.label == texts.label@,
        texts@.yes == texts.yes@,
        texts@.no == texts.no@,
        Presentation::Offer(offer)@ == PresentationView::Offer(offer@),
        Presentation::Info(notice)@ == PresentationView::Info(notice@),
        Presentation::Error(notice)@ == PresentationView::Error(notice@),
        Presentation::Nothing@ is Nothing,
{
}

/// Where the hundredfold of what has come does not fit in sixty-four bits, the largest number that
/// does takes its place.
pub proof fn law_percentage_of_the_largest(downloaded: u64, total: u64)
    requires
        downloaded * 100 > u64::MAX,
    ensures
        percent(downloaded, total) matches Some(p) ==> 0 <= p && p * total <= u64::MAX < (p + 1)
            * total,
        percent(downloaded, total) is None <==> total == 0 || u64::MAX >= (i32::MAX + 1) * total,
{
    if total > 0 {
        let h = u64::MAX as int;
        let t = total as int;
        let q = h / t;
        assert(q * t <= h < (q + 1) * t && q >= 0) by (nonlinear_arith)
            requires
                q == h / t,
                h >= 0,
                t > 0,
        ;
        assert(q > i32::MAX <==> h >= (i32::MAX + 1) * t) by (nonlinear_arith)
            requires
                q * t <= h < (q + 1) * t,
                t > 0,
        ;
    }
}

} // verus!
