//! A job's log page: the whole log in sections. It is fetched, not streamed,
//! and for completed jobs only: one that has not finished points at the browser
//! instead.

use vstd::prelude::*;
use vstd::string::*;

use crate::components::log_view::{LogState, LogStateView, LogViewOutput};
use crate::github::client;
use crate::github::job_log;
use crate::github::job_log::Section;
use crate::text;

verus! {

/// What the page is made for.
#[derive(Debug)]
pub struct JobLogInit {
    pub repo: String,
    pub job_id: u64,
    pub job_name: String,
    pub completed: bool,
    pub html_url: String,
}

/// What comes back from the page's request: the log as it was downloaded, cut
/// into sections.
#[derive(Debug)]
pub enum JobLogCmd {
    Loaded(Box<Result<Vec<Section>, String>>),
}

/// Where to download a job's log.
#[derive(Debug)]
pub struct JobLogRequest {
    pub uri: String,
}

/// Where a job's log is.
pub open spec fn job_log_uri(owner: Seq<char>, name: Seq<char>, job_id: u64) -> Seq<char> {
    "/repos/"@ + owner + "/"@ + name + "/actions/jobs/"@ + text::decimal(job_id as nat) + "/logs"@
}

/// A job's log page.
#[derive(Debug)]
pub struct JobLogView {
    job_name: String,
    html_url: String,
    state: LogState,
    /// The log, filled once it arrives.
    sections: Vec<Section>,
}

/// What the page holds.
pub ghost struct JobLogViewView {
    pub job_name: Seq<char>,
    pub html_url: Seq<char>,
    pub state: LogStateView,
    pub sections: Seq<job_log::SectionView>,
}

impl View for JobLogView {
    type V = JobLogViewView;

    closed spec fn view(&self) -> JobLogViewView {
        JobLogViewView {
            job_name: self.job_name@,
            html_url: self.html_url@,
            state: self.state@,
            sections: job_log::section_views(self.sections@),
        }
    }
}

/// Whether `request` asks for the log that the page is made for.
pub open spec fn asks_for_job_log(request: JobLogRequest, init: JobLogInit) -> bool {
    match client::name_parts(init.repo@) {
        Ok((owner, name)) => request.uri@ == job_log_uri(owner, name, init.job_id),
        Err(_) => false,
    }
}

impl JobLogView {
    /// The page for a job, and what to fetch for it: nothing while the job
    /// runs, the log once it completed, or the complaint that its repo is no
    /// `owner/name`.
    pub fn init(init: JobLogInit) -> (r: (Self, Option<Result<JobLogRequest, String>>))
        ensures
            r.0@ == (JobLogViewView {
                job_name: init.job_name@,
                html_url: init.html_url@,
                state: if init.completed {
                    LogStateView::Loading
                } else {
                    LogStateView::NotAvailable
                },
                sections: Seq::empty(),
            }),
            match r.1 {
                None => !init.completed,
                Some(Ok(request)) => init.completed && asks_for_job_log(request, init),
                Some(Err(complaint)) => init.completed && client::name_parts(init.repo@) == Err::<
                    (Seq<char>, Seq<char>),
                    _,
                >(complaint@),
            },
    {
        let state: LogState = if init.completed {
            LogState::Loading
        } else {
            LogState::NotAvailable
        };
        let request: Option<Result<JobLogRequest, String>> = if init.completed {
            match client::split_name(init.repo.as_str()) {
                Ok((owner, name)) => {
                    let mut uri: String = "/repos/".to_owned();
                    uri.append(owner.as_str());
                    uri.append("/");
                    uri.append(name.as_str());
                    uri.append("/actions/jobs/");
                    let id: String = text::number(init.job_id);
                    uri.append(id.as_str());
                    uri.append("/logs");
                    Some(Ok(JobLogRequest { uri }))
                },
                Err(complaint) => Some(Err(complaint)),
            }
        } else {
            None
        };
        let page = JobLogView {
            job_name: init.job_name,
            html_url: init.html_url,
            state,
            sections: Vec::new(),
        };
        assert(job_log::section_views(page.sections@) =~= Seq::empty());
        (page, request)
    }

    /// Which page of the stack to show.
    pub fn page(&self) -> (r: &'static str)
        ensures
            r@ == match self@.state {
                LogStateView::NotAvailable => "not-available"@,
                LogStateView::Loading => "loading"@,
                LogStateView::Loaded => "log"@,
                LogStateView::Error(_) => "error"@,
            },
    {
        match self.state {
            LogState::NotAvailable => "not-available",
            LogState::Loading => "loading",
            LogState::Loaded => "log",
            LogState::Error(_) => "error",
        }
    }

    /// Why the log could not be loaded; empty otherwise.
    pub fn error(&self) -> (r: String)
        ensures
            r@ == match self@.state {
                LogStateView::Error(message) => message,
                _ => Seq::empty(),
            },
    {
        match &self.state {
            LogState::Error(message) => message.clone(),
            _ => String::new(),
        }
    }

    /// The page's title: the job's name.
    pub fn title(&self) -> (r: &str)
        ensures
            r@ == self@.job_name,
    {
        self.job_name.as_str()
    }

    /// The log's sections.
    pub fn sections(&self) -> (r: &Vec<Section>)
        ensures
            job_log::section_views(r@) == self@.sections,
    {
        &self.sections
    }

    /// What the header's browser button asks for.
    pub fn browser_clicked(&self) -> (r: LogViewOutput)
        ensures
            r matches LogViewOutput::OpenInBrowser(url) && url@ == self@.html_url,
    {
        LogViewOutput::OpenInBrowser(self.html_url.clone())
    }

    /// Take the log that came back.
    pub fn update_cmd(&mut self, msg: JobLogCmd)
        ensures
            match msg {
                JobLogCmd::Loaded(result) => match *result {
                    Ok(sections) => final(self)@ == (JobLogViewView {
                        state: LogStateView::Loaded,
                        sections: job_log::section_views(sections@),
                        ..old(self)@
                    }),
                    Err(message) => final(self)@ == (JobLogViewView {
                        state: LogStateView::Error(message@),
                        ..old(self)@
                    }),
                },
            },
    {
        match msg {
            JobLogCmd::Loaded(result) => match *result {
                Ok(sections) => {
                    self.sections = sections;
                    self.state = LogState::Loaded;
                },
                Err(message) => {
                    self.state = LogState::Error(message);
                },
            },
        }
    }
}

/// The log that is asked for is that of the page's job, in its own repo.
pub proof fn law_request_is_for_the_job(
    request: JobLogRequest,
    init: JobLogInit,
    owner: Seq<char>,
    name: Seq<char>,
)
    requires
        !owner.contains('/'),
        init.repo@ == owner + seq!['/'] + name,
        asks_for_job_log(request, init),
    ensures
        request.uri@ == "/repos/"@ + owner + "/"@ + name + "/actions/jobs/"@ + text::decimal(
            init.job_id as nat,
        ) + "/logs"@,
{
    client::law_names_are_cut_at_the_slash(owner, name);
}

} // verus!
