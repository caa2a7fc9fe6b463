//! One step's log page. The log is fetched, not streamed, and for completed
//! steps only: one that has not finished points at the browser instead.

use vstd::prelude::*;
use vstd::string::*;

use crate::github::client;

verus! {

/// What the page is made for.
#[derive(Debug)]
pub struct LogViewInit {
    pub repo: String,
    pub run_id: u64,
    pub job_name: String,
    pub step_number: i64,
    pub step_name: String,
    pub completed: bool,
    pub html_url: String,
}

/// What the page asks for.
#[derive(Debug)]
pub enum LogViewOutput {
    OpenInBrowser(String),
}

/// What comes back from the page's request.
#[derive(Debug)]
pub enum LogViewCmd {
    Loaded(Box<Result<String, String>>),
}

/// Whether the log is there yet.
#[derive(Debug)]
pub enum LogState {
    /// The step hasn't finished: no log to download yet.
    NotAvailable,
    Loading,
    Loaded,
    Error(String),
}

/// What the log's state holds.
pub ghost enum LogStateView {
    NotAvailable,
    Loading,
    Loaded,
    Error(Seq<char>),
}

impl View for LogState {
    type V = LogStateView;

    open spec fn view(&self) -> LogStateView {
        match *self {
            LogState::NotAvailable => LogStateView::NotAvailable,
            LogState::Loading => LogStateView::Loading,
            LogState::Loaded => LogStateView::Loaded,
            LogState::Error(message) => LogStateView::Error(message@),
        }
    }
}

/// Which run's log archive to download, and which step to find in it.
#[derive(Debug)]
pub struct LogRequest {
    pub owner: String,
    pub name: String,
    pub run_id: u64,
    pub job_name: String,
    pub step_number: i64,
    pub step_name: String,
}

/// A step's log page.
#[derive(Debug)]
pub struct LogView {
    step_name: String,
    html_url: String,
    state: LogState,
    /// The terminal's text, filled once the log arrives.
    buffer: String,
}

/// What the page holds.
pub ghost struct LogViewView {
    pub step_name: Seq<char>,
    pub html_url: Seq<char>,
    pub state: LogStateView,
    pub buffer: Seq<char>,
}

impl View for LogView {
    type V = LogViewView;

    closed spec fn view(&self) -> LogViewView {
        LogViewView {
            step_name: self.step_name@,
            html_url: self.html_url@,
            state: self.state@,
            buffer: self.buffer@,
        }
    }
}

/// Whether `request` asks for the log that the page is made for.
pub open spec fn asks_for_log(request: LogRequest, init: LogViewInit) -> bool {
    &&& client::name_parts(init.repo@) == Ok::<_, Seq<char>>((request.owner@, request.name@))
    &&& request.run_id == init.run_id
    &&& request.job_name@ == init.job_name@
    &&& request.step_number == init.step_number
    &&& request.step_name@ == init.step_name@
}

impl LogView {
    /// The page for a step, and what to fetch for it: nothing while the step
    /// runs, the log once it completed, or the complaint that its repo is no
    /// `owner/name`.
    pub fn init(init: LogViewInit) -> (r: (Self, Option<Result<LogRequest, String>>))
        ensures
            r.0@ == (LogViewView {
                step_name: init.step_name@,
                html_url: init.html_url@,
                state: if init.completed {
                    LogStateView::Loading
                } else {
                    LogStateView::NotAvailable
                },
                buffer: Seq::empty(),
            }),
            match r.1 {
                None => !init.completed,
                Some(Ok(request)) => init.completed && asks_for_log(request, init),
                Some(Err(complaint)) => init.completed && client::name_parts(init.repo@) == Err::<
                    (Seq<char>, Seq<char>),
                    _,
                >(complaint@),
            },
    {
        let state: LogState = if init.completed {
            LogState::Loading
        } else {
            LogState::NotAvailable
        };
        let request: Option<Result<LogRequest, String>> = if init.completed {
            match client::split_name(init.repo.as_str()) {
                Ok((owner, name)) => Some(
                    Ok(
                        LogRequest {
                            owner,
                            name,
                            run_id: init.run_id,
                            job_name: init.job_name,
                            step_number: init.step_number,
                            step_name: init.step_name.clone(),
                        },
                    ),
                ),
                Err(complaint) => Some(Err(complaint)),
            }
        } else {
            None
        };
        let page = LogView {
            step_name: init.step_name,
            html_url: init.html_url,
            state,
            buffer: String::new(),
        };
        (page, request)
    }

    /// Which page of the stack to show.
    pub fn page(&self) -> (r: &'static str)
        ensures
            r@ == match self@.state {
                LogStateView::NotAvailable => "not-available"@,
                LogStateView::Loading => "loading"@,
                LogStateView::Loaded => "log"@,
                LogStateView::Error(_) => "error"@,
            },
    {
        match self.state {
            LogState::NotAvailable => "not-available",
            LogState::Loading => "loading",
            LogState::Loaded => "log",
            LogState::Error(_) => "error",
        }
    }

    /// Why the log could not be loaded; empty otherwise.
    pub fn error(&self) -> (r: String)
        ensures
            r@ == match self@.state {
                LogStateView::Error(message) => message,
                _ => Seq::empty(),
            },
    {
        match &self.state {
            LogState::Error(message) => message.clone(),
            _ => String::new(),
        }
    }

    /// The page's title: the step's name.
    pub fn title(&self) -> (r: &str)
        ensures
            r@ == self@.step_name,
    {
        self.step_name.as_str()
    }

    /// The terminal's text.
    pub fn buffer(&self) -> (r: &str)
        ensures
            r@ == self@.buffer,
    {
        self.buffer.as_str()
    }

    /// What the header's browser button asks for.
    pub fn browser_clicked(&self) -> (r: LogViewOutput)
        ensures
            r matches LogViewOutput::OpenInBrowser(url) && url@ == self@.html_url,
    {
        LogViewOutput::OpenInBrowser(self.html_url.clone())
    }

    /// Take the log that came back.
    pub fn update_cmd(&mut self, msg: LogViewCmd)
        ensures
            match msg {
                LogViewCmd::Loaded(result) => match *result {
                    Ok(log) => final(self)@ == (LogViewView {
                        state: LogStateView::Loaded,
                        buffer: log@,
                        ..old(self)@
                    }),
                    Err(message) => final(self)@ == (LogViewView {
                        state: LogStateView::Error(message@),
                        ..old(self)@
                    }),
                },
            },
    {
        match msg {
            LogViewCmd::Loaded(result) => match *result {
                Ok(log) => {
                    self.buffer = log;
                    self.state = LogState::Loaded;
                },
                Err(message) => {
                    self.state = LogState::Error(message);
                },
            },
        }
    }
}

/// The log that is asked for is that of the page's step: its run, its repo, its
/// job, its number and its name.
pub proof fn law_request_is_for_the_step(
    request: LogRequest,
    init: LogViewInit,
    owner: Seq<char>,
    name: Seq<char>,
)
    requires
        !owner.contains('/'),
        init.repo@ == owner + seq!['/'] + name,
        asks_for_log(request, init),
    ensures
        request.owner@ == owner && request.name@ == name,
        request.run_id == init.run_id,
        request.job_name@ == init.job_name@,
        request.step_number == init.step_number && request.step_name@ == init.step_name@,
{
    client::law_names_are_cut_at_the_slash(owner, name);
}

} // verus!
