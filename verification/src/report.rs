//! What one pass over the volumes has done.

use vstd::prelude::*;

use crate::script::Modeled;
use crate::text::{decimal, decimal_text, join, joined, texts_of};

verus! {

/// What an automount pass has done.
#[derive(Debug, Clone)]
pub struct AutomountReport {
    /// A line for each letter that was bound.
    pub mounted: Vec<String>,
    /// How many letters were skipped because something is mounted there already.
    pub already_mounted: usize,
    /// Why a letter was not bound, for each one that should have been.
    pub errors: Vec<String>,
}

/// The mathematical counterpart of [`AutomountReport`].
pub struct ReportModel {
    pub mounted: Seq<Seq<char>>,
    pub already_mounted: nat,
    pub errors: Seq<Seq<char>>,
}

impl ReportModel {
    /// A pass that has done nothing yet.
    pub open spec fn start() -> ReportModel {
        ReportModel { mounted: Seq::empty(), already_mounted: 0, errors: Seq::empty() }
    }

    /// The report with one more letter skipped.
    pub open spec fn skipping(self) -> ReportModel {
        ReportModel { already_mounted: self.already_mounted + 1, ..self }
    }

    /// The report with one more error.
    pub open spec fn failing(self, reason: Seq<char>) -> ReportModel {
        ReportModel { errors: self.errors.push(reason), ..self }
    }

    /// The report with one more letter bound.
    pub open spec fn mounting(self, line: Seq<char>) -> ReportModel {
        ReportModel { mounted: self.mounted.push(line), ..self }
    }

    /// The report after an attempt to bind a letter, with this line for success.
    pub open spec fn noting(self, defined: Result<(), Seq<char>>, line: Seq<char>) -> ReportModel {
        match defined {
            Ok(_) => self.mounting(line),
            Err(reason) => self.failing(reason),
        }
    }

    /// Whether a letter was bound.
    pub open spec fn has_mounted(self) -> bool {
        self.mounted.len() > 0
    }

    /// The sentence on the letters that were bound.
    pub open spec fn mounted_part(self) -> Seq<Seq<char>> {
        if self.mounted.len() > 0 {
            seq![
                "Auto-mounted "@ + decimal(self.mounted.len()) + " volume(s): "@ + joined(
                    self.mounted,
                    "; "@,
                ),
            ]
        } else {
            Seq::empty()
        }
    }

    /// The sentence on the letters that were skipped.
    pub open spec fn skipped_part(self) -> Seq<Seq<char>> {
        if self.already_mounted > 0 {
            seq![decimal(self.already_mounted) + " already mounted (skipped)"@]
        } else {
            Seq::empty()
        }
    }

    /// The sentence on what went wrong.
    pub open spec fn error_part(self) -> Seq<Seq<char>> {
        if self.errors.len() > 0 {
            seq!["Auto-mount errors: "@ + joined(self.errors, "; "@)]
        } else {
            Seq::empty()
        }
    }

    /// What is worth telling the user: nothing, where no letter was bound and nothing went wrong.
    pub open spec fn summary(self) -> Option<Seq<char>> {
        if self.mounted.len() == 0 && self.errors.len() == 0 {
            None
        } else {
            Some(joined(self.mounted_part() + self.skipped_part() + self.error_part(), ". "@))
        }
    }
}

impl Modeled for AutomountReport {
    type Model = ReportModel;

    open spec fn model(&self) -> ReportModel {
        ReportModel {
            mounted: texts_of(self.mounted@),
            already_mounted: self.already_mounted as nat,
            errors: texts_of(self.errors@),
        }
    }
}

impl Default for AutomountReport {
    fn default() -> (report: AutomountReport)
        ensures
            report.model() == ReportModel::start(),
    {
        let report = AutomountReport {
            mounted: Vec::new(),
            already_mounted: 0,
            errors: Vec::new(),
        };
        assert(texts_of(report.mounted@) == Seq::<Seq<char>>::empty());
        assert(texts_of(report.errors@) == Seq::<Seq<char>>::empty());
        report
    }
}

impl AutomountReport {
    /// A text for the user; `None` where no letter was bound and nothing went wrong.
    pub fn summary(&self) -> (text: Option<String>)
        ensures
            match text {
                Some(text) => self.model().summary() == Some(text@),
                None => self.model().summary() is None,
            },
    {
        if self.mounted.is_empty() && self.errors.is_empty() {
            return None;
        }
        let ghost model = self.model();
        let mut parts: Vec<String> = Vec::new();
        if !self.mounted.is_empty() {
            let mut part = "Auto-mounted ".to_owned();
            part.append(decimal_text(self.mounted.len() as u64).as_str());
            part.append(" volume(s): ");
            part.append(join(&self.mounted, "; ").as_str());
            parts.push(part);
        }
        assert(texts_of(parts@) == model.mounted_part());
        if self.already_mounted > 0 {
            let mut part = decimal_text(self.already_mounted as u64);
            part.append(" already mounted (skipped)");
            parts.push(part);
        }
        assert(texts_of(parts@) == model.mounted_part() + model.skipped_part());
        if !self.errors.is_empty() {
            let mut part = "Auto-mount errors: ".to_owned();
            part.append(join(&self.errors, "; ").as_str());
            parts.push(part);
        }
        assert(texts_of(parts@) == model.mounted_part() + model.skipped_part()
            + model.error_part());
        Some(join(&parts, ". "))
    }

    /// Whether a letter was bound.
    pub fn did_mount(&self) -> (yes: bool)
        ensures
            yes == (self.model().mounted.len() > 0),
            yes == self.model().has_mounted(),
    {
        !self.mounted.is_empty()
    }

    pub(crate) fn mounting(self, line: String) -> (report: AutomountReport)
        ensures
            report.model() == self.model().mounting(line@),
    {
        let mut mounted = self.mounted;
        mounted.push(line);
        assert(texts_of(mounted@) == texts_of(self.mounted@).push(line@));
        AutomountReport { mounted, already_mounted: self.already_mounted, errors: self.errors }
    }

    pub(crate) fn failing(self, reason: String) -> (report: AutomountReport)
        ensures
            report.model() == self.model().failing(reason@),
    {
        let mut errors = self.errors;
        errors.push(reason);
        assert(texts_of(errors@) == texts_of(self.errors@).push(reason@));
        AutomountReport { mounted: self.mounted, already_mounted: self.already_mounted, errors }
    }

    pub(crate) fn skipping(self) -> (report: AutomountReport)
        requires
            self.already_mounted < usize::MAX,
        ensures
            report.model() == self.model().skipping(),
    {
        AutomountReport {
            mounted: self.mounted,
            already_mounted: self.already_mounted + 1,
            errors: self.errors,
        }
    }
}

/// There is nothing to tell exactly where no letter was bound and nothing went wrong: letters that
/// were skipped are worth no message of their own.
pub proof fn law_silent_unless_something_happened(report: ReportModel)
    ensures
        report.summary() is None <==> report.mounted.len() == 0 && report.errors.len() == 0,
        report.skipping().summary() is None <==> report.summary() is None,
{
}

/// A report stands for its lines and errors, text by text and in their order, and for its count.
pub proof fn law_a_report_stands_for_its_texts(report: AutomountReport)
    ensures
        report.model().mounted.len() == report.mounted@.len(),
        report.model().errors.len() == report.errors@.len(),
        report.model().already_mounted == report.already_mounted,
        forall|i: int|
            0 <= i < report.mounted@.len() ==> #[trigger] report.model().mounted[i]
                == report.mounted@[i]@,
        forall|i: int|
            0 <= i < report.errors@.len() ==> #[trigger] report.model().errors[i]
                == report.errors@[i]@,
{
}

/// What the message of a report says: how many letters were bound and each of their lines, how many
/// were skipped, and each error, in this order; what there is none of is left out, and a full stop
/// stands between what remains.
pub proof fn law_the_summary_says_what_happened(report: ReportModel)
    requires
        report.mounted.len() > 0 || report.errors.len() > 0,
    ensures
        ({
            let mounted = "Auto-mounted "@ + decimal(report.mounted.len()) + " volume(s): "@
                + joined(report.mounted, "; "@);
            let skipped = decimal(report.already_mounted) + " already mounted (skipped)"@;
            let failed = "Auto-mount errors: "@ + joined(report.errors, "; "@);
            let stop = ". "@;
            &&& report.summary() is Some
            &&& report.errors.len() == 0 && report.already_mounted == 0 ==> report.summary()->0
                == mounted
            &&& report.errors.len() == 0 && report.already_mounted > 0 ==> report.summary()->0
                == mounted + stop + skipped
            &&& report.mounted.len() == 0 && report.already_mounted == 0 ==> report.summary()->0
                == failed
            &&& report.mounted.len() == 0 && report.already_mounted > 0 ==> report.summary()->0
                == skipped + stop + failed
            &&& report.mounted.len() > 0 && report.errors.len() > 0 && report.already_mounted == 0
                ==> report.summary()->0 == mounted + stop + failed
            &&& report.mounted.len() > 0 && report.errors.len() > 0 && report.already_mounted > 0
                ==> report.summary()->0 == mounted + stop + skipped + stop + failed
        }),
{
    let mounted = "Auto-mounted "@ + decimal(report.mounted.len()) + " volume(s): "@ + joined(
        report.mounted,
        "; "@,
    );
    let skipped = decimal(report.already_mounted) + " already mounted (skipped)"@;
    let failed = "Auto-mount errors: "@ + joined(report.errors, "; "@);
    let parts = report.mounted_part() + report.skipped_part() + report.error_part();
    reveal_with_fuel(joined, 3);
    if report.mounted.len() > 0 && report.already_mounted > 0 && report.errors.len() > 0 {
        assert(parts == seq![mounted, skipped, failed]);
        assert(parts.drop_last() == seq![mounted, skipped]);
        assert(parts.drop_last().drop_last() == seq![mounted]);
    } else if report.mounted.len() > 0 && report.already_mounted > 0 {
        assert(parts == seq![mounted, skipped]);
        assert(parts.drop_last() == seq![mounted]);
    } else if report.mounted.len() > 0 && report.errors.len() > 0 {
        assert(parts == seq![mounted, failed]);
        assert(parts.drop_last() == seq![mounted]);
    } else if report.already_mounted > 0 {
        assert(parts == seq![skipped, failed]);
        assert(parts.drop_last() == seq![skipped]);
    } else if report.mounted.len() > 0 {
        assert(parts == seq![mounted]);
    } else {
        assert(parts == seq![failed]);
    }
}

/// What a pass adds to a report: a skipped letter counts one more; a letter that was bound adds its
/// line behind the others; one that could not be bound adds the reason behind the others; and
/// nothing else changes.
pub proof fn law_what_a_report_gains(
    report: ReportModel,
    line: Seq<char>,
    defined: Result<(), Seq<char>>,
)
    ensures
        report.skipping().already_mounted == report.already_mounted + 1,
        report.skipping().mounted == report.mounted,
        report.skipping().errors == report.errors,
        report.noting(defined, line).already_mounted == report.already_mounted,
        defined is Ok ==> report.noting(defined, line).mounted == report.mounted + seq![line]
            && report.noting(defined, line).errors == report.errors,
        defined is Err ==> report.noting(defined, line).errors == report.errors + seq![
            defined->Err_0,
        ] && report.noting(defined, line).mounted == report.mounted,
{
}

/// A pass has mounted something exactly where its report has a line on it; that a letter was
/// skipped, or that one could not be bound, is not enough.
pub proof fn law_mounted_where_there_is_a_line(
    report: ReportModel,
    line: Seq<char>,
    reason: Seq<char>,
)
    ensures
        report.has_mounted() <==> report.mounted != Seq::<Seq<char>>::empty(),
        report.mounting(line).has_mounted(),
        report.failing(reason).has_mounted() == report.has_mounted(),
        report.skipping().has_mounted() == report.has_mounted(),
        report.has_mounted() ==> report.summary() is Some,
        !ReportModel::start().has_mounted(),
{
    if !report.has_mounted() {
        assert(report.mounted == Seq::<Seq<char>>::empty());
    }
}

} // verus!
