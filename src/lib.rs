pub mod error;
pub mod laws;
pub mod model;
pub mod scanner;
pub mod token;

use vstd::prelude::*;

use crate::error::{errors_view, message_text, ScanErrorView};
use crate::model::{scan, scan_errors};
use crate::scanner::tokenize;
use crate::token::{tokens_view, Token};

verus! {

/// One diagnostic as the sink received it.
pub struct Report {
    pub line: usize,
    pub place: String,
    pub message: String,
}

pub struct ReportView {
    pub line: nat,
    pub place: Seq<char>,
    pub message: Seq<char>,
}

impl View for Report {
    type V = ReportView;

    open spec fn view(&self) -> ReportView {
        ReportView { line: self.line as nat, place: self.place@, message: self.message@ }
    }
}

/// How a scan diagnostic reaches the sink.
pub open spec fn report_of(e: ScanErrorView) -> ReportView {
    ReportView { line: e.line, place: Seq::empty(), message: message_text(e.kind) }
}

/// The diagnostics sink of a run: it keeps every report in order, and a
/// flag that says whether any came since the last reset.
pub struct Regg {
    had_error: bool,
    reports: Vec<Report>,
}

impl Regg {
    pub closed spec fn failed(&self) -> bool {
        self.had_error
    }

    pub closed spec fn received(&self) -> Seq<ReportView> {
        self.reports@.map_values(|r: Report| r@)
    }

    pub fn new() -> (r: Self)
        ensures
            !r.failed(),
            r.received() == Seq::<ReportView>::empty(),
    {
        let r = Regg { had_error: false, reports: Vec::new() };
        assert(r.received() =~= Seq::<ReportView>::empty());
        r
    }

    /// Records a diagnostic with an empty place.
    pub fn error(&mut self, line: usize, message: &str)
        ensures
            final(self).failed(),
            final(self).received() == old(self).received().push(
                ReportView { line: line as nat, place: Seq::empty(), message: message@ },
            ),
    {
        let place = "";
        proof {
            reveal_strlit("");
        }
        assert(place@ =~= Seq::<char>::empty());
        self.report(line, place, message);
    }

    /// Records a diagnostic and raises the failure flag.
    pub fn report(&mut self, line: usize, place: &str, message: &str)
        ensures
            final(self).failed(),
            final(self).received() == old(self).received().push(
                ReportView { line: line as nat, place: place@, message: message@ },
            ),
    {
        self.reports.push(Report { line, place: place.to_owned(), message: message.to_owned() });
        self.had_error = true;
        assert(self.received() =~= old(self).received().push(
            ReportView { line: line as nat, place: place@, message: message@ },
        ));
    }

    /// Scans `source`, passes each diagnostic of the scan to the sink, and
    /// returns the tokens.
    pub fn run(&mut self, source: &str) -> (r: Vec<Token>)
        requires
            source@.len() + 3 <= usize::MAX,
        ensures
            tokens_view(r@) == scan(source@),
            final(self).received() == old(self).received() + scan_errors(source@).map_values(
                |e: ScanErrorView| report_of(e),
            ),
            final(self).failed() == (old(self).failed() || scan_errors(source@).len() > 0),
    {
        let (tokens, errors) = tokenize(source.to_owned());
        let ghost errs = errors_view(errors@);
        let mut i: usize = 0;
        while i < errors.len()
            invariant
                errs == errors_view(errors@),
                errs == scan_errors(source@),
                i <= errors.len(),
                self.received() == old(self).received() + errs.take(i as int).map_values(
                    |e: ScanErrorView| report_of(e),
                ),
                self.failed() == (old(self).failed() || i > 0),
            decreases errors.len() - i,
        {
            let message = errors[i].message();
            self.error(errors[i].line, message.as_str());
            i = i + 1;
            assert(errs.take(i as int) =~= errs.take(i - 1).push(errs[i - 1]));
            assert(self.received() =~= old(self).received() + errs.take(i as int).map_values(
                |e: ScanErrorView| report_of(e),
            ));
        }
        assert(errs.take(i as int) =~= errs);
        tokens
    }

    /// Whether any diagnostic came since the sink was made or last reset.
    pub fn had_error(&self) -> (r: bool)
        ensures
            r == self.failed(),
    {
        self.had_error
    }

    /// Lowers the failure flag, keeping the reports.
    pub fn reset(&mut self)
        ensures
            !final(self).failed(),
            final(self).received() == old(self).received(),
    {
        self.had_error = false;
    }

    /// Every report received, in order.
    pub fn reports(&self) -> (r: &Vec<Report>)
        ensures
            r@.map_values(|x: Report| x@) == self.received(),
    {
        &self.reports
    }
}

} // verus!
