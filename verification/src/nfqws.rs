use vstd::prelude::*;
use crate::desync::{append_texts, opt_str};
use crate::fault::{quote, quoted};
use crate::number::{dec, decimal, decimals_differ};
use crate::text::{
    cat2, cat3, copy_texts, join, joined, split_on, take_all, take_next, texts, texts_push, trim,
    trimmed,
};
use crate::text_laws::{split_around, split_undoes_join};

verus! {

/// What went wrong with the packet filter of a worker.
#[derive(Debug)]
pub enum NfqwsError {
    StartFailed(String),
    ExitedEarly(String),
    StopFailed(String),
    Io(String),
}

impl NfqwsError {
    /// The failure in words.
    pub open spec fn words(self) -> Seq<char> {
        match self {
            NfqwsError::StartFailed(e) => "start failed: "@ + e@,
            NfqwsError::ExitedEarly(e) => "exited early: "@ + e@,
            NfqwsError::StopFailed(e) => "stop failed: "@ + e@,
            NfqwsError::Io(e) => "io error: "@ + e@,
        }
    }

    /// The failure in words.
    pub fn message(&self) -> (r: String)
        ensures
            r@ == self.words(),
    {
        match self {
            NfqwsError::StartFailed(e) => cat2("start failed: ", e.as_str()),
            NfqwsError::ExitedEarly(e) => cat2("exited early: ", e.as_str()),
            NfqwsError::StopFailed(e) => cat2("stop failed: ", e.as_str()),
            NfqwsError::Io(e) => cat2("io error: ", e.as_str()),
        }
    }
}

/// What went wrong with a packet filter, by its contents.
pub enum NfqwsFailure {
    StartFailed(Seq<char>),
    ExitedEarly(Seq<char>),
    StopFailed(Seq<char>),
    Io(Seq<char>),
}

impl View for NfqwsError {
    type V = NfqwsFailure;

    open spec fn view(&self) -> NfqwsFailure {
        match *self {
            NfqwsError::StartFailed(e) => NfqwsFailure::StartFailed(e@),
            NfqwsError::ExitedEarly(e) => NfqwsFailure::ExitedEarly(e@),
            NfqwsError::StopFailed(e) => NfqwsFailure::StopFailed(e@),
            NfqwsError::Io(e) => NfqwsFailure::Io(e@),
        }
    }
}

/// A packet filter to start: its program, its queue and its arguments.
#[derive(Debug)]
pub struct NfqwsInstanceConfig {
    pub qnum: u16,
    pub binary: String,
    pub library_paths: Vec<String>,
    pub base_args: Vec<String>,
    pub strategy_args: Vec<String>,
    pub worker_id: usize,
    pub strategy_id: String,
    pub start_grace_ms: u64,
    pub log_stdout: bool,
    pub log_stderr: bool,
}

/// How long a packet filter has to stop by itself, and then to be killed.
#[derive(Debug, Clone, Copy, PartialEq, Eq, Structural)]
pub struct ProcessNfqwsManager {
    pub stop_timeout_ms: u64,
}

/// The arguments of a packet filter: the common ones, its queue, those of the strategy.
pub open spec fn nfqws_args(base: Seq<Seq<char>>, qnum: u16, strategy: Seq<Seq<char>>) -> Seq<
    Seq<char>,
> {
    base.push("--qnum="@ + dec(qnum as nat)) + strategy
}

/// The arguments of a packet filter.
pub fn build_nfqws_args(cfg: &NfqwsInstanceConfig) -> (r: Vec<String>)
    ensures
        texts(r@) == nfqws_args(texts(cfg.base_args@), cfg.qnum, texts(cfg.strategy_args@)),
{
    let mut args = copy_texts(&cfg.base_args);
    let queue = cat2("--qnum=", decimal(cfg.qnum as u64).as_str());
    proof {
        texts_push(args@, queue);
    }
    args.push(queue);
    append_texts(&mut args, &cfg.strategy_args);
    args
}

/// No argument is lost, added or moved: there are as many as the common ones, one for the
/// queue and those of the strategy together. The common ones stand first, in their order. The
/// queue's names the queue's own number, so that another queue has another argument. All the
/// strategy's arguments, in their order, are the end of the list.
pub proof fn every_argument_is_passed(base: Seq<Seq<char>>, qnum: u16, strategy: Seq<Seq<char>>)
    ensures
        nfqws_args(base, qnum, strategy).len() == base.len() + 1 + strategy.len(),
        forall|i: int|
            0 <= i < base.len() ==> #[trigger] nfqws_args(base, qnum, strategy)[i] == base[i],
        nfqws_args(base, qnum, strategy)[base.len() as int] == "--qnum="@ + dec(qnum as nat),
        forall|i: int|
            0 <= i < strategy.len() ==> nfqws_args(base, qnum, strategy)[base.len() + 1 + i]
                == #[trigger] strategy[i],
        nfqws_args(base, qnum, strategy).skip(base.len() as int + 1) == strategy,
        forall|other: u16| #[trigger]
            nfqws_args(base, other, strategy) == nfqws_args(base, qnum, strategy) ==> other == qnum,
{
    assert(nfqws_args(base, qnum, strategy).skip(base.len() as int + 1) =~= strategy);
    assert forall|other: u16| #[trigger]
        nfqws_args(base, other, strategy) == nfqws_args(base, qnum, strategy) implies other
        == qnum by {
        let prefix = "--qnum="@;
        let place = base.len() as int;
        assert(nfqws_args(base, other, strategy)[place] == prefix + dec(other as nat));
        assert(nfqws_args(base, qnum, strategy)[place] == prefix + dec(qnum as nat));
        assert((prefix + dec(other as nat)).skip(prefix.len() as int) =~= dec(other as nat));
        assert((prefix + dec(qnum as nat)).skip(prefix.len() as int) =~= dec(qnum as nat));
        decimals_differ(other as nat, qnum as nat);
    }
}

/// The paths in which a packet filter looks for libraries: those that are configured, then
/// those that there were.
pub open spec fn library_path(paths: Seq<Seq<char>>, existing: Option<Seq<char>>) -> Seq<char> {
    match existing {
        Some(e) if e.len() > 0 => joined(paths.push(e), ":"@),
        _ => joined(paths, ":"@),
    }
}

/// The paths in which a packet filter looks for libraries.
pub fn render_library_path(paths: &Vec<String>, existing: Option<&str>) -> (r: String)
    ensures
        r@ == library_path(texts(paths@), opt_str(existing)),
{
    let mut parts = copy_texts(paths);
    if let Some(e) = existing {
        if !e.is_empty() {
            let text = e.to_owned();
            proof {
                texts_push(parts@, text);
            }
            parts.push(text);
        }
    }
    join(&parts, ":")
}

/// The texts in quotes.
pub open spec fn all_quoted(s: Seq<Seq<char>>) -> Seq<Seq<char>> {
    Seq::new(s.len(), |i: int| quoted(s[i]))
}

/// A list of texts in words.
pub open spec fn list_text(s: Seq<Seq<char>>) -> Seq<char> {
    "["@ + joined(all_quoted(s), ", "@) + "]"@
}

/// A list of texts in words.
pub fn render_list(items: &Vec<String>) -> (r: String)
    ensures
        r@ == list_text(texts(items@)),
{
    let ghost all = all_quoted(texts(items@));
    let mut out: Vec<String> = Vec::new();
    let mut i: usize = 0;
    while i < items.len()
        invariant
            i <= items@.len(),
            all == all_quoted(texts(items@)),
            texts(out@) =~= all.take(i as int),
        decreases items@.len() - i,
    {
        let q = quote(items[i].as_str());
        proof {
            take_next(all, i as int);
            texts_push(out@, q);
        }
        out.push(q);
        i = i + 1;
    }
    proof {
        take_all(all);
    }
    cat3("[", join(&out, ", ").as_str(), "]")
}

/// What is told of a packet filter that ended before its time of grace was over.
pub open spec fn early_exit_text(
    status: Seq<char>,
    args: Seq<Seq<char>>,
    out: Seq<char>,
    err: Seq<char>,
) -> Seq<char> {
    "status="@ + status + ", args="@ + list_text(args) + ", stdout="@ + trimmed(out) + ", stderr="@
        + trimmed(err)
}

/// The failure of a packet filter that ended before its time of grace was over.
pub fn early_exit(cfg: &NfqwsInstanceConfig, status: &str, out: &str, err: &str) -> (r: NfqwsError)
    ensures
        r matches NfqwsError::ExitedEarly(text) && text@ == early_exit_text(
            status@,
            nfqws_args(texts(cfg.base_args@), cfg.qnum, texts(cfg.strategy_args@)),
            out@,
            err@,
        ),
{
    let mut text = "status=".to_owned();
    text.append(status);
    text.append(", args=");
    text.append(render_list(&build_nfqws_args(cfg)).as_str());
    text.append(", stdout=");
    text.append(trim(out).as_str());
    text.append(", stderr=");
    text.append(trim(err).as_str());
    NfqwsError::ExitedEarly(text)
}

// ---------------------------------------------------------------------------
// Stopping

/// What is to be done next to stop a packet filter.
#[derive(Debug)]
pub enum StopAction {
    /// Ask it to end.
    Terminate,
    /// Wait for its end, for as long as it has to stop.
    Wait,
    /// Kill it.
    Kill,
    /// Nothing more: this came of it.
    Finish(Result<(), NfqwsError>),
}

/// What came of the last thing that was done to stop a packet filter.
#[derive(Debug)]
pub enum StopEvent {
    /// It was looked at, and had ended or not.
    Looked(bool),
    /// It could not be looked at.
    LookFailed(String),
    /// It was asked to end.
    Asked,
    /// It has ended.
    Ended,
    /// Waiting for its end failed.
    WaitFailed(String),
    /// It did not end in time.
    TimedOut,
    /// It was killed.
    Killed,
    /// It could not be killed.
    KillFailed(String),
}

/// What is to be done next, by its contents.
pub enum StopModel {
    Terminate,
    Wait,
    Kill,
    Finish(Result<(), NfqwsFailure>),
}

impl View for StopAction {
    type V = StopModel;

    open spec fn view(&self) -> StopModel {
        match *self {
            StopAction::Terminate => StopModel::Terminate,
            StopAction::Wait => StopModel::Wait,
            StopAction::Kill => StopModel::Kill,
            StopAction::Finish(Ok(())) => StopModel::Finish(Ok(())),
            StopAction::Finish(Err(e)) => StopModel::Finish(Err(e@)),
        }
    }
}

/// What is to be done next after an event. `killed` tells that the filter was killed before.
pub open spec fn stop_step(event: StopEvent, killed: bool) -> StopModel {
    match event {
        StopEvent::Looked(ended) => if ended {
            StopModel::Finish(Ok(()))
        } else {
            StopModel::Terminate
        },
        StopEvent::LookFailed(e) => StopModel::Finish(Err(NfqwsFailure::Io(e@))),
        StopEvent::Asked => StopModel::Wait,
        StopEvent::Ended => StopModel::Finish(Ok(())),
        StopEvent::WaitFailed(e) => StopModel::Finish(Err(NfqwsFailure::StopFailed(e@))),
        StopEvent::TimedOut => if killed {
            StopModel::Finish(Err(NfqwsFailure::StopFailed("kill timeout"@)))
        } else {
            StopModel::Kill
        },
        StopEvent::Killed => StopModel::Wait,
        StopEvent::KillFailed(e) => StopModel::Finish(Err(NfqwsFailure::StopFailed(e@))),
    }
}

/// What is to be done next to stop a packet filter. One that has not ended is asked to; one
/// that does not end in time is killed; one that outlives that is given up.
pub fn next_stop_action(event: StopEvent, killed: bool) -> (r: StopAction)
    ensures
        r@ == stop_step(event, killed),
{
    match event {
        StopEvent::Looked(ended) => if ended {
            StopAction::Finish(Ok(()))
        } else {
            StopAction::Terminate
        },
        StopEvent::LookFailed(e) => StopAction::Finish(Err(NfqwsError::Io(e))),
        StopEvent::Asked => StopAction::Wait,
        StopEvent::Ended => StopAction::Finish(Ok(())),
        StopEvent::WaitFailed(e) => StopAction::Finish(Err(NfqwsError::StopFailed(e))),
        StopEvent::TimedOut => if killed {
            StopAction::Finish(Err(NfqwsError::StopFailed("kill timeout".to_owned())))
        } else {
            StopAction::Kill
        },
        StopEvent::Killed => StopAction::Wait,
        StopEvent::KillFailed(e) => StopAction::Finish(Err(NfqwsError::StopFailed(e))),
    }
}

/// A packet filter is stopped step by step. It is asked to end if and only if it was seen
/// alive, waited for once it was asked or killed, and killed if and only if it was waited for
/// in vain and not killed before. It counts as stopped if and only if it was seen to have
/// ended. Every other end is a failure.
pub proof fn filters_are_stopped_in_steps(event: StopEvent, killed: bool)
    ensures
        ({
            let next = stop_step(event, killed);
            &&& next is Terminate <==> event == StopEvent::Looked(false)
            &&& next is Wait <==> event is Asked || event is Killed
            &&& next is Kill <==> event is TimedOut && !killed
            &&& next == StopModel::Finish(Ok(())) <==> event is Ended || event
                == StopEvent::Looked(true)
            &&& next is Finish && next->Finish_0 is Err <==> event is LookFailed
                || event is WaitFailed || event is KillFailed || event is TimedOut && killed
        }),
{
}

/// The failure to look at a filter is told as one of input and output, every other failure as
/// one to stop it, in the words that it came with.
pub proof fn stop_failures_keep_their_words(event: StopEvent, killed: bool, e: String)
    ensures
        event == StopEvent::LookFailed(e) ==> stop_step(event, killed) == StopModel::Finish(
            Err(NfqwsFailure::Io(e@)),
        ),
        event == StopEvent::WaitFailed(e) || event == StopEvent::KillFailed(e) ==> stop_step(
            event,
            killed,
        ) == StopModel::Finish(Err(NfqwsFailure::StopFailed(e@))),
{
}

/// Every configured path is looked in, in order, and behind them every path that there was.
pub proof fn every_library_path_is_kept(paths: Seq<Seq<char>>, existing: Option<Seq<char>>)
    requires
        paths.len() > 0,
        forall|i: int| 0 <= i < paths.len() ==> !(#[trigger] paths[i]).contains(':'),
    ensures
        existing is None ==> split_on(library_path(paths, existing), ':') == paths,
        existing == Some(Seq::<char>::empty()) ==> split_on(library_path(paths, existing), ':')
            == paths,
        existing matches Some(e) ==> e.len() > 0 ==> split_on(library_path(paths, existing), ':')
            == paths + split_on(e, ':'),
{
    reveal_strlit(":");
    assert(":"@ =~= seq![':']);
    split_undoes_join(paths, ':');
    if let Some(e) = existing {
        if e.len() > 0 {
            assert(paths.push(e).drop_last() =~= paths);
            split_around(joined(paths, seq![':']), e, ':');
        } else {
            assert(e =~= Seq::<char>::empty());
        }
    }
}

} // verus!
