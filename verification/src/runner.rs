//! Classification of the external tool's diagnostic stream.
//!
//! The tool interleaves, in one line-oriented stream, fatal errors with
//! their trailing context lines and unrelated informational warnings.  The
//! classifier is a two-state machine over the lines: a line starting with
//! the error marker opens a new record (closing the previous one first), a
//! line starting with the warning marker is an immediate self-contained
//! warning, and any other line continues the open record — or, with none
//! open, is an unstructured diagnostic warning.  At the end of the stream a
//! still-open record is closed.

use vstd::prelude::*;
use vstd::string::*;
use crate::errors::{Error, ErrorV, ErrorRecord, ErrorRecordView, Warning, WarningV};
use crate::text::{spec_trim, trim_str, spec_has_prefix, str_has_prefix};

verus! {

/// The classifier's state: the record still open, the records already
/// closed, and the warnings reported so far.
pub struct ClassifyState {
    pub open_rec: Option<ErrorRecordView>,
    pub records: Seq<ErrorRecordView>,
    pub warnings: Seq<Seq<char>>,
}

/// Before any line: nothing open, nothing reported.
pub open spec fn initial_state() -> ClassifyState {
    ClassifyState { open_rec: None, records: Seq::empty(), warnings: Seq::empty() }
}

/// Closes the open record, if any, into the record list.
pub open spec fn spec_flush(st: ClassifyState) -> ClassifyState {
    match st.open_rec {
        Some(r) => ClassifyState {
            open_rec: None,
            records: st.records.push(r),
            warnings: st.warnings,
        },
        None => st,
    }
}

/// Whether a line starts a new error record.
pub open spec fn starts_error(line: Seq<char>) -> bool {
    spec_has_prefix(line, "error:"@)
}

/// Whether a line is an immediate, self-contained warning.
pub open spec fn starts_warning(line: Seq<char>) -> bool {
    spec_has_prefix(line, "warning:"@)
}

/// One step of the classifier on one line.  Lines are stored trimmed; the
/// markers are recognized on the line as it arrived.
pub open spec fn spec_classify_step(st: ClassifyState, line: Seq<char>) -> ClassifyState {
    if starts_error(line) {
        let f = spec_flush(st);
        ClassifyState {
            open_rec: Some(ErrorRecordView { title: spec_trim(line), details: Seq::empty() }),
            records: f.records,
            warnings: f.warnings,
        }
    } else if starts_warning(line) {
        let f = spec_flush(st);
        ClassifyState {
            open_rec: None,
            records: f.records,
            warnings: f.warnings.push(spec_trim(line)),
        }
    } else {
        match st.open_rec {
            Some(r) => ClassifyState {
                open_rec: Some(
                    ErrorRecordView { title: r.title, details: r.details.push(spec_trim(line)) },
                ),
                records: st.records,
                warnings: st.warnings,
            },
            None => ClassifyState {
                open_rec: None,
                records: st.records,
                warnings: st.warnings.push(spec_trim(line)),
            },
        }
    }
}

/// The machine run over a sequence of lines.
pub open spec fn spec_classify_run(st: ClassifyState, lines: Seq<Seq<char>>) -> ClassifyState
    decreases lines.len(),
{
    if lines.len() == 0 {
        st
    } else {
        spec_classify_run(spec_classify_step(st, lines[0]), lines.drop_first())
    }
}

/// The classification of a whole stream: every line in order, then the
/// still-open record closed.
pub open spec fn spec_classify(lines: Seq<Seq<char>>) -> ClassifyState {
    spec_flush(spec_classify_run(initial_state(), lines))
}

/// Classifies the diagnostic stream's lines into closed error records and
/// immediately-reported warnings, exactly as [`spec_classify`] says.
pub fn classify_lines(lines: &Vec<String>) -> (r: (Vec<ErrorRecord>, Vec<String>))
    ensures
        r.0.deep_view() == spec_classify(lines.deep_view()).records,
        r.1.deep_view() == spec_classify(lines.deep_view()).warnings,
{
    let ghost lviews = lines.deep_view();
    let mut open_rec: Option<ErrorRecord> = None;
    let mut records: Vec<ErrorRecord> = Vec::new();
    let mut warnings: Vec<String> = Vec::new();
    proof {
        assert(lviews.skip(0) =~= lviews);
        assert(records.deep_view() =~= Seq::<ErrorRecordView>::empty());
        assert(warnings.deep_view() =~= Seq::<Seq<char>>::empty());
    }
    let mut i: usize = 0;
    while i < lines.len()
        invariant
            i <= lines.len(),
            lviews == lines.deep_view(),
            lviews.len() == lines.len(),
            spec_classify_run(initial_state(), lviews) == spec_classify_run(
                (ClassifyState {
                    open_rec: open_rec.deep_view(),
                    records: records.deep_view(),
                    warnings: warnings.deep_view(),
                }),
                lviews.skip(i as int),
            ),
        decreases lines.len() - i,
    {
        let ghost st0 = ClassifyState {
            open_rec: open_rec.deep_view(),
            records: records.deep_view(),
            warnings: warnings.deep_view(),
        };
        proof {
            assert(lviews.skip(i as int)[0] == lviews[i as int]);
            assert(lviews.skip(i as int).drop_first() =~= lviews.skip(i + 1));
            assert(lines[i as int]@ == lviews[i as int]);
        }
        let line = &lines[i];
        if str_has_prefix(line.as_str(), "error:") {
            let ghost recs0 = records.deep_view();
            match open_rec {
                Some(r) => {
                    let ghost rv = r@;
                    records.push(r);
                    proof {
                        assert(records.deep_view() =~= recs0.push(rv));
                    }
                }
                None => {}
            }
            let t = trim_str(line.as_str());
            let empty_details: Vec<String> = Vec::new();
            proof {
                assert(empty_details.deep_view() =~= Seq::<Seq<char>>::empty());
            }
            open_rec = Some(ErrorRecord { title: t, details: empty_details });
            proof {
                assert(open_rec.deep_view() == Some(
                    ErrorRecordView { title: spec_trim(lviews[i as int]), details: Seq::empty() },
                ));
                assert((ClassifyState {
                    open_rec: open_rec.deep_view(),
                    records: records.deep_view(),
                    warnings: warnings.deep_view(),
                }) == spec_classify_step(st0, lviews[i as int]));
            }
        } else if str_has_prefix(line.as_str(), "warning:") {
            let ghost recs0 = records.deep_view();
            match open_rec {
                Some(r) => {
                    let ghost rv = r@;
                    records.push(r);
                    proof {
                        assert(records.deep_view() =~= recs0.push(rv));
                    }
                }
                None => {}
            }
            open_rec = None;
            let ghost ws0 = warnings.deep_view();
            warnings.push(trim_str(line.as_str()));
            proof {
                assert(warnings.deep_view() =~= ws0.push(spec_trim(lviews[i as int])));
                assert((ClassifyState {
                    open_rec: open_rec.deep_view(),
                    records: records.deep_view(),
                    warnings: warnings.deep_view(),
                }) == spec_classify_step(st0, lviews[i as int]));
            }
        } else {
            match &mut open_rec {
                Some(r) => {
                    let ghost ds0 = r.details.deep_view();
                    let ghost title0 = r.title@;
                    r.details.push(trim_str(line.as_str()));
                    proof {
                        assert(r.details.deep_view() =~= ds0.push(spec_trim(lviews[i as int])));
                        assert(r.title@ == title0);
                    }
                }
                None => {
                    let ghost ws0 = warnings.deep_view();
                    warnings.push(trim_str(line.as_str()));
                    proof {
                        assert(warnings.deep_view() =~= ws0.push(spec_trim(lviews[i as int])));
                    }
                }
            }
            proof {
                assert((ClassifyState {
                    open_rec: open_rec.deep_view(),
                    records: records.deep_view(),
                    warnings: warnings.deep_view(),
                }) == spec_classify_step(st0, lviews[i as int]));
            }
        }
        i += 1;
    }
    proof {
        assert(lviews.skip(i as int) =~= Seq::<Seq<char>>::empty());
    }
    let ghost recs0 = records.deep_view();
    match open_rec {
        Some(r) => {
            let ghost rv = r@;
            records.push(r);
            proof {
                assert(records.deep_view() =~= recs0.push(rv));
            }
        }
        None => {}
    }
    (records, warnings)
}

/// Every line of a successful invocation's stream, trimmed, reported as an
/// unstructured diagnostic warning.
pub open spec fn spec_all_diagnostics(lines: Seq<Seq<char>>) -> Seq<WarningV>
    decreases lines.len(),
{
    if lines.len() == 0 {
        Seq::empty()
    } else {
        seq![WarningV::Diagnostic(spec_trim(lines[0]))] + spec_all_diagnostics(lines.drop_first())
    }
}

/// The classifier's warnings wrapped as diagnostic warnings, in order.
pub open spec fn spec_diag_warnings(ws: Seq<Seq<char>>) -> Seq<WarningV>
    decreases ws.len(),
{
    if ws.len() == 0 {
        Seq::empty()
    } else {
        seq![WarningV::Diagnostic(ws[0])] + spec_diag_warnings(ws.drop_first())
    }
}

/// One error per classified record, in order.
pub open spec fn spec_nix_errors(records: Seq<ErrorRecordView>) -> Seq<ErrorV>
    decreases records.len(),
{
    if records.len() == 0 {
        Seq::empty()
    } else {
        seq![ErrorV::Nix(records[0])] + spec_nix_errors(records.drop_first())
    }
}

/// The record reported for a failed invocation whose stream held no error
/// marker at all: a failure never comes back with an empty error list.
pub open spec fn spec_fallback_record() -> ErrorRecordView {
    ErrorRecordView {
        title: "error: nix exited unsuccessfully without an error report"@,
        details: Seq::empty(),
    }
}

/// The errors of a failed invocation: its classified records, or the
/// fallback record when there were none.
pub open spec fn spec_failure_errors(records: Seq<ErrorRecordView>) -> Seq<ErrorV> {
    if records.len() == 0 {
        seq![ErrorV::Nix(spec_fallback_record())]
    } else {
        spec_nix_errors(records)
    }
}

/// Digests one finished invocation of the external tool.  On a zero exit
/// the invocation succeeded and every diagnostic line is reported as a
/// warning.  On a non-zero exit the stream is classified: the classifier's
/// warnings are reported, and the invocation fails with one error per
/// record — a non-empty list even when the stream explained nothing.
pub fn process_output(success: bool, lines: &Vec<String>) -> (r: (
    Vec<Warning>,
    Result<(), Vec<Error>>,
))
    ensures
        success ==> r.0.deep_view() == spec_all_diagnostics(lines.deep_view()) && r.1 is Ok,
        !success ==> ({
            let c = spec_classify(lines.deep_view());
            &&& r.0.deep_view() == spec_diag_warnings(c.warnings)
            &&& r.1 matches Err(es) && es.deep_view() == spec_failure_errors(c.records)
                && es.deep_view().len() > 0
        }),
{
    let ghost lviews = lines.deep_view();
    if success {
        let mut ws: Vec<Warning> = Vec::new();
        proof {
            assert(lviews.skip(0) =~= lviews);
            assert(ws.deep_view() =~= Seq::<WarningV>::empty());
        }
        let mut i: usize = 0;
        while i < lines.len()
            invariant
                i <= lines.len(),
                lviews == lines.deep_view(),
                lviews.len() == lines.len(),
                spec_all_diagnostics(lviews) == ws.deep_view() + spec_all_diagnostics(
                    lviews.skip(i as int),
                ),
            decreases lines.len() - i,
        {
            proof {
                assert(lviews.skip(i as int)[0] == lviews[i as int]);
                assert(lviews.skip(i as int).drop_first() =~= lviews.skip(i + 1));
                assert(lines[i as int]@ == lviews[i as int]);
            }
            let ghost ws0 = ws.deep_view();
            ws.push(Warning::Diagnostic(trim_str(lines[i].as_str())));
            proof {
                assert(ws.deep_view() =~= ws0.push(WarningV::Diagnostic(spec_trim(
                    lviews[i as int],
                ))));
                assert(ws.deep_view() + spec_all_diagnostics(lviews.skip(i + 1)) =~= ws0 + (seq![
                    WarningV::Diagnostic(spec_trim(lviews[i as int])),
                ] + spec_all_diagnostics(lviews.skip(i + 1))));
            }
            i += 1;
        }
        proof {
            assert(lviews.skip(i as int) =~= Seq::<Seq<char>>::empty());
        }
        return (ws, Ok(()));
    }
    let (records, raw_warnings) = classify_lines(lines);
    let ghost c_warnings = spec_classify(lviews).warnings;
    let ghost c_records = spec_classify(lviews).records;
    let mut ws: Vec<Warning> = Vec::new();
    proof {
        assert(c_warnings.skip(0) =~= c_warnings);
        assert(ws.deep_view() =~= Seq::<WarningV>::empty());
    }
    let mut i: usize = 0;
    while i < raw_warnings.len()
        invariant
            i <= raw_warnings.len(),
            raw_warnings.deep_view() == c_warnings,
            c_warnings.len() == raw_warnings.len(),
            spec_diag_warnings(c_warnings) == ws.deep_view() + spec_diag_warnings(
                c_warnings.skip(i as int),
            ),
        decreases raw_warnings.len() - i,
    {
        proof {
            assert(c_warnings.skip(i as int)[0] == c_warnings[i as int]);
            assert(c_warnings.skip(i as int).drop_first() =~= c_warnings.skip(i + 1));
            assert(raw_warnings[i as int]@ == c_warnings[i as int]);
        }
        let ghost ws0 = ws.deep_view();
        ws.push(Warning::Diagnostic(raw_warnings[i].clone()));
        proof {
            assert(ws.deep_view() =~= ws0.push(WarningV::Diagnostic(c_warnings[i as int])));
            assert(ws.deep_view() + spec_diag_warnings(c_warnings.skip(i + 1)) =~= ws0 + (seq![
                WarningV::Diagnostic(c_warnings[i as int]),
            ] + spec_diag_warnings(c_warnings.skip(i + 1))));
        }
        i += 1;
    }
    proof {
        assert(c_warnings.skip(i as int) =~= Seq::<Seq<char>>::empty());
    }
    let mut es: Vec<Error> = Vec::new();
    if records.len() == 0 {
        let empty_details: Vec<String> = Vec::new();
        proof {
            assert(empty_details.deep_view() =~= Seq::<Seq<char>>::empty());
        }
        es.push(
            Error::Nix(
                ErrorRecord {
                    title: String::from_str(
                        "error: nix exited unsuccessfully without an error report",
                    ),
                    details: empty_details,
                },
            ),
        );
        proof {
            assert(c_records =~= Seq::<ErrorRecordView>::empty());
            assert(es.deep_view() =~= seq![ErrorV::Nix(spec_fallback_record())]);
        }
        return (ws, Err(es));
    }
    proof {
        assert(c_records.skip(0) =~= c_records);
        assert(es.deep_view() =~= Seq::<ErrorV>::empty());
    }
    let mut j: usize = 0;
    while j < records.len()
        invariant
            j <= records.len(),
            records.deep_view() == c_records,
            c_records.len() == records.len(),
            spec_nix_errors(c_records) == es.deep_view() + spec_nix_errors(
                c_records.skip(j as int),
            ),
        decreases records.len() - j,
    {
        proof {
            assert(c_records.skip(j as int)[0] == c_records[j as int]);
            assert(c_records.skip(j as int).drop_first() =~= c_records.skip(j + 1));
            assert(records[j as int]@ == c_records[j as int]);
        }
        let ghost es0 = es.deep_view();
        let rec = &records[j];
        let title = rec.title.clone();
        let details = rec.details.clone();
        proof {
            assert forall|q: int| 0 <= q < rec.details@.len() implies details@[q]@
                == rec.details@[q]@ by {
                assert(vstd::pervasive::cloned::<String>(rec.details@[q], details@[q]));
            }
            assert(details.deep_view() =~= rec.details.deep_view());
        }
        es.push(Error::Nix(ErrorRecord { title, details }));
        proof {
            assert(records@[j as int]@ == c_records[j as int]);
            assert(es.deep_view() =~= es0.push(ErrorV::Nix(c_records[j as int])));
            assert(es.deep_view() + spec_nix_errors(c_records.skip(j + 1)) =~= es0 + (seq![
                ErrorV::Nix(c_records[j as int]),
            ] + spec_nix_errors(c_records.skip(j + 1))));
        }
        j += 1;
    }
    proof {
        assert(c_records.skip(j as int) =~= Seq::<ErrorRecordView>::empty());
        assert(spec_nix_errors(c_records).len() > 0);
    }
    (ws, Err(es))
}

} // verus!
