//! The portable report of a run's NEW findings, and the plain-text digest
//! sent to the chat endpoint.
use vstd::prelude::*;
use crate::attribution::{AttributionInfo, AttributionModel, null_attribution};
use crate::finding::{Finding, FindingModel, kind_tag, kind_tag_str};
use crate::strutil::{spec_upper, to_uppercase};

verus! {

/// One report entry, covering one NEW finding.
pub struct ReportEntry {
    pub rule_id: String,
    pub message: String,
    pub location: String,
    pub severity: String,
    pub tags: Vec<String>,
}

/// The mathematical content of a `ReportEntry`.
pub ghost struct ReportEntryModel {
    pub rule_id: Seq<char>,
    pub message: Seq<char>,
    pub location: Seq<char>,
    pub severity: Seq<char>,
    pub tags: Seq<Seq<char>>,
}

impl View for ReportEntry {
    type V = ReportEntryModel;

    open spec fn view(&self) -> ReportEntryModel {
        ReportEntryModel {
            rule_id: self.rule_id@,
            message: self.message@,
            location: self.location@,
            severity: self.severity@,
            tags: self.tags.deep_view(),
        }
    }
}

impl DeepView for ReportEntry {
    type V = ReportEntryModel;

    open spec fn deep_view(&self) -> ReportEntryModel {
        self.view()
    }
}

/// The ordered report: one entry per NEW finding.
pub struct Report {
    pub entries: Vec<ReportEntry>,
}

impl View for Report {
    type V = Seq<ReportEntryModel>;

    open spec fn view(&self) -> Seq<ReportEntryModel> {
        self.entries.deep_view()
    }
}

/// The single location reference of a finding: its path, with the line
/// text appended when there is one.
pub open spec fn location_of(f: FindingModel) -> Seq<char> {
    if f.line.len() > 0 {
        f.path + ":"@ + f.line
    } else {
        f.path
    }
}

/// The commit context appended to a message when attribution resolved
/// anything.
pub open spec fn commit_context(a: AttributionModel) -> Seq<char> {
    if a.name is Some || a.commit_hash is Some {
        " (committed by "@ + (match a.name {
            Some(n) => n,
            None => "unknown"@,
        }) + (match a.commit_hash {
            Some(h) => " in "@ + h,
            None => Seq::empty(),
        }) + ")"@
    } else {
        Seq::empty()
    }
}

/// The tags of an entry: the resolved author name when there is one, and
/// the scan-type tag.
pub open spec fn tags_of(f: FindingModel, a: AttributionModel) -> Seq<Seq<char>> {
    (match a.name {
        Some(n) => seq![n],
        None => Seq::empty(),
    }) + seq![spec_upper(kind_tag(f.kind))]
}

/// The entry one NEW finding maps to under an attribution.
pub open spec fn entry_of(f: FindingModel, a: AttributionModel) -> ReportEntryModel {
    ReportEntryModel {
        rule_id: f.identifier,
        message: f.message + commit_context(a),
        location: location_of(f),
        severity: f.severity,
        tags: tags_of(f, a),
    }
}

/// The entries of a run's NEW findings, in order, each under its
/// attribution.
pub open spec fn spec_report(fs: Seq<FindingModel>, attrs: Seq<AttributionModel>) -> Seq<
    ReportEntryModel,
>
    decreases fs.len(),
{
    if fs.len() == 0 {
        Seq::empty()
    } else {
        spec_report(fs.drop_last(), attrs.drop_last()).push(entry_of(fs.last(), attrs.last()))
    }
}

/// The report has exactly one entry per finding handed to it.
pub proof fn lemma_report_len(fs: Seq<FindingModel>, attrs: Seq<AttributionModel>)
    ensures
        spec_report(fs, attrs).len() == fs.len(),
    decreases fs.len(),
{
    if fs.len() > 0 {
        lemma_report_len(fs.drop_last(), attrs.drop_last());
    }
}

/// The all-null attributions used when no attribution step ran.
pub open spec fn null_attrs(n: nat) -> Seq<AttributionModel> {
    Seq::new(n, |i: int| null_attribution())
}

/// Builds one entry.
fn build_entry(f: &Finding, a: &AttributionInfo) -> (r: ReportEntry)
    ensures
        r@ == entry_of(f@, a@),
{
    let location = if f.line.as_str().unicode_len() > 0 {
        let mut l = f.path.clone();
        l.append(":");
        l.append(f.line.as_str());
        l
    } else {
        f.path.clone()
    };
    let mut message = f.message.clone();
    let has_name = a.name.is_some();
    let has_hash = a.commit_hash.is_some();
    if has_name || has_hash {
        message.append(" (committed by ");
        match &a.name {
            Some(n) => {
                message.append(n.as_str());
            },
            None => {
                message.append("unknown");
            },
        }
        match &a.commit_hash {
            Some(h) => {
                message.append(" in ");
                message.append(h.as_str());
            },
            None => {},
        }
        message.append(")");
    }
    let mut tags: Vec<String> = Vec::new();
    match &a.name {
        Some(n) => {
            tags.push(n.clone());
        },
        None => {},
    }
    let kind_upper = to_uppercase(kind_tag_str(f.kind));
    tags.push(kind_upper);
    let r = ReportEntry {
        rule_id: f.identifier.clone(),
        message,
        location,
        severity: f.severity.clone(),
        tags,
    };
    proof {
        crate::strutil::lemma_empty_strlit();
        assert(r.tags.deep_view() =~= tags_of(f@, a@));
        assert(r@.message =~= entry_of(f@, a@).message);
        assert(r@ == entry_of(f@, a@));
    }
    r
}

/// Builds the report of a run's NEW findings: one entry per finding, in
/// order, with the matching attribution woven into message and tags.
pub fn build_report(findings: &Vec<Finding>, attrs: &Vec<AttributionInfo>) -> (r: Report)
    requires
        findings@.len() == attrs@.len(),
    ensures
        r@ == spec_report(findings.deep_view(), attrs.deep_view()),
        r@.len() == findings@.len(),
{
    let ghost fm = findings.deep_view();
    let ghost am = attrs.deep_view();
    let n = findings.len();
    let mut entries: Vec<ReportEntry> = Vec::new();
    let mut i: usize = 0;
    while i < n
        invariant
            fm == findings.deep_view(),
            am == attrs.deep_view(),
            n == findings@.len(),
            n == attrs@.len(),
            fm.len() == n,
            am.len() == n,
            i <= n,
            entries.deep_view() == spec_report(fm.take(i as int), am.take(i as int)),
        decreases n - i,
    {
        let e = build_entry(&findings[i], &attrs[i]);
        entries.push(e);
        proof {
            assert(fm.take(i + 1).drop_last() =~= fm.take(i as int));
            assert(am.take(i + 1).drop_last() =~= am.take(i as int));
            assert(fm.take(i + 1).last() == fm[i as int]);
            assert(am.take(i + 1).last() == am[i as int]);
            assert(fm[i as int] == findings@[i as int]@);
            assert(am[i as int] == attrs@[i as int]@);
            assert(entries.deep_view() =~= spec_report(fm.take(i + 1), am.take(i + 1)));
        }
        i += 1;
    }
    proof {
        assert(fm.take(n as int) =~= fm);
        assert(am.take(n as int) =~= am);
        lemma_report_len(fm, am);
    }
    Report { entries }
}

/// A vector of all-null attributions, one per finding.
pub fn no_attributions(n: usize) -> (r: Vec<AttributionInfo>)
    ensures
        r@.len() == n,
        r.deep_view() == null_attrs(n as nat),
{
    let mut r: Vec<AttributionInfo> = Vec::new();
    let mut i: usize = 0;
    while i < n
        invariant
            i <= n,
            r@.len() == i,
            r.deep_view() == null_attrs(i as nat),
        decreases n - i,
    {
        let ghost prev = r;
        r.push(AttributionInfo::none());
        proof {
            assert(r@.len() == i + 1);
            assert forall|j: int| 0 <= j < i + 1 implies r.deep_view()[j]
                == null_attribution() by {
                if j < i {
                    assert(r@[j] == prev@[j]);
                    assert(prev.deep_view()[j] == null_attrs(i as nat)[j]);
                    assert(prev.deep_view()[j] == prev@[j].deep_view());
                } else {
                    assert(r@[j].deep_view() == null_attribution());
                }
            }
            assert(r.deep_view() =~= null_attrs((i + 1) as nat));
        }
        i += 1;
    }
    r
}

/// One digest line per entry: its rule, location and severity.
pub open spec fn digest_of(entries: Seq<ReportEntryModel>) -> Seq<char>
    decreases entries.len(),
{
    if entries.len() == 0 {
        Seq::empty()
    } else {
        digest_of(entries.drop_last()) + "- "@ + entries.last().rule_id + " at "@
            + entries.last().location + " ["@ + entries.last().severity + "]\n"@
    }
}

/// Builds the plain-text digest of a report for the chat endpoint.
pub fn format_digest(report: &Report) -> (r: String)
    ensures
        r@ == digest_of(report@),
{
    let ghost em = report.entries.deep_view();
    let n = report.entries.len();
    let mut out = String::new();
    let mut i: usize = 0;
    while i < n
        invariant
            em == report.entries.deep_view(),
            n == report.entries@.len(),
            em.len() == n,
            i <= n,
            out@ == digest_of(em.take(i as int)),
        decreases n - i,
    {
        let e = &report.entries[i];
        out.append("- ");
        out.append(e.rule_id.as_str());
        out.append(" at ");
        out.append(e.location.as_str());
        out.append(" [");
        out.append(e.severity.as_str());
        out.append("]\n");
        proof {
            assert(em.take(i + 1).drop_last() =~= em.take(i as int));
            assert(em.take(i + 1).last() == em[i as int]);
            assert(em[i as int] == report.entries@[i as int]@);
            assert(out@ =~= digest_of(em.take(i + 1)));
        }
        i += 1;
    }
    proof {
        assert(em.take(n as int) =~= em);
    }
    out
}

} // verus!
