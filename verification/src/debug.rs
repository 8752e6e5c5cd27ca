//! The validation-layer message funnel: each message the layer speaks
//! becomes a count, and the first few errors are kept verbatim, so a
//! test can assert "zero validation errors" mechanically and a report
//! can say what made it red.

use vstd::prelude::*;

verus! {

/// How many first messages are kept verbatim for reports.
pub const RETAINED_MESSAGES: usize = 8;

/// `VK_DEBUG_UTILS_MESSAGE_SEVERITY_WARNING_BIT_EXT`.
pub const SEVERITY_WARNING: u32 = 0x100;
/// `VK_DEBUG_UTILS_MESSAGE_SEVERITY_ERROR_BIT_EXT`.
pub const SEVERITY_ERROR: u32 = 0x1000;

/// What stands in the report for a record that carried no message text.
pub const NO_MESSAGE: &'static str = "(no message)";

/// Whether a severity set names an error.
pub open spec fn is_error(severity: u32) -> bool {
    severity & SEVERITY_ERROR == SEVERITY_ERROR
}

/// Whether a severity set names a warning and no error.
pub open spec fn is_warning(severity: u32) -> bool {
    !is_error(severity) && severity & SEVERITY_WARNING == SEVERITY_WARNING
}

/// The text a record contributes: its message, or the placeholder.
pub open spec fn message_text(message: Option<String>) -> Seq<char> {
    match message {
        Some(m) => m@,
        None => NO_MESSAGE@,
    }
}

/// The texts of a list of messages.
pub open spec fn texts(messages: Seq<String>) -> Seq<Seq<char>> {
    messages.map_values(|m: String| m@)
}

/// Per-device validation tallies.
///
/// Warnings are counted and not kept: the kept text answers "what made
/// this red", and only errors make it red.
#[derive(Debug)]
pub struct ValidationCounters {
    /// Error records seen (wrapping).
    pub errors: u64,
    /// Warning records seen (wrapping).
    pub warnings: u64,
    /// The first error messages, verbatim, at most [`RETAINED_MESSAGES`].
    pub first_messages: Vec<String>,
}

/// What a set of counters holds, as the contracts read it: the two
/// tallies and the kept texts.
pub struct CountersView {
    /// Error records seen (wrapping).
    pub errors: u64,
    /// Warning records seen (wrapping).
    pub warnings: u64,
    /// The texts of the kept error messages, in arrival order.
    pub kept: Seq<Seq<char>>,
}

impl View for ValidationCounters {
    type V = CountersView;

    open spec fn view(&self) -> CountersView {
        CountersView { errors: self.errors, warnings: self.warnings, kept: texts(self.first_messages@) }
    }
}

/// Nothing seen.
pub open spec fn counters_initial() -> CountersView {
    CountersView { errors: 0, warnings: 0, kept: Seq::empty() }
}

/// One record of `severity` with message text `text`: an error counts
/// as an error and its text is kept while fewer than
/// [`RETAINED_MESSAGES`] are; a warning only counts.
pub open spec fn counters_step(v: CountersView, severity: u32, text: Seq<char>) -> CountersView {
    CountersView {
        errors: if is_error(severity) {
            vstd::wrapping::u64_specs::wrapping_add(v.errors, 1)
        } else {
            v.errors
        },
        warnings: if is_warning(severity) {
            vstd::wrapping::u64_specs::wrapping_add(v.warnings, 1)
        } else {
            v.warnings
        },
        kept: if is_error(severity) && v.kept.len() < RETAINED_MESSAGES {
            v.kept.push(text)
        } else {
            v.kept
        },
    }
}

/// The counters after a run of records, each a severity and its text,
/// from nothing seen.
pub open spec fn counters_replay(log: Seq<(u32, Seq<char>)>) -> CountersView
    decreases log.len(),
{
    if log.len() == 0 {
        counters_initial()
    } else {
        counters_step(counters_replay(log.drop_last()), log.last().0, log.last().1)
    }
}

/// The state a set of counters reports.
#[derive(Debug, Clone)]
pub struct ValidationReport {
    /// Error records seen.
    pub errors: u64,
    /// Warning records seen.
    pub warnings: u64,
    /// The first few error messages, verbatim.
    pub first_messages: Vec<String>,
}

impl ValidationCounters {
    /// Whether the kept messages respect the cap.
    pub open spec fn wf(&self) -> bool {
        self.first_messages@.len() <= RETAINED_MESSAGES
    }

    /// Nothing seen yet.
    pub fn new() -> (c: Self)
        ensures
            c.errors == 0,
            c.warnings == 0,
            c.first_messages@ == Seq::<String>::empty(),
            c.wf(),
            c@ == counters_initial(),
    {
        let c = ValidationCounters { errors: 0, warnings: 0, first_messages: Vec::new() };
        assert(c@.kept =~= Seq::<Seq<char>>::empty());
        c
    }

    /// Count one record of `severity`; keep its text (or the placeholder
    /// for a record without one) when it is an error and the cap is not
    /// reached.
    pub fn record(&mut self, severity: u32, message: Option<String>)
        ensures
            final(self).errors == (if is_error(severity) {
                vstd::wrapping::u64_specs::wrapping_add(old(self).errors, 1)
            } else {
                old(self).errors
            }),
            final(self).warnings == (if is_warning(severity) {
                vstd::wrapping::u64_specs::wrapping_add(old(self).warnings, 1)
            } else {
                old(self).warnings
            }),
            texts(final(self).first_messages@) == (if is_error(severity) && old(self).first_messages@.len()
                < RETAINED_MESSAGES {
                texts(old(self).first_messages@).push(message_text(message))
            } else {
                texts(old(self).first_messages@)
            }),
            old(self).wf() ==> final(self).wf(),
            final(self)@ == counters_step(old(self)@, severity, message_text(message)),
    {
        let text = match message {
            Some(m) => m,
            None => String::from_str(NO_MESSAGE),
        };
        let error = severity & SEVERITY_ERROR == SEVERITY_ERROR;
        if error {
            self.errors = self.errors.wrapping_add(1);
        } else if severity & SEVERITY_WARNING == SEVERITY_WARNING {
            self.warnings = self.warnings.wrapping_add(1);
        }
        let ghost before = self.first_messages@;
        if error && self.first_messages.len() < RETAINED_MESSAGES {
            self.first_messages.push(text);
            proof {
                assert(texts(self.first_messages@) =~= texts(before).push(message_text(message)));
            }
        }
    }

    /// What the counters hold, as a report.
    pub fn report(&self) -> (r: ValidationReport)
        ensures
            r.errors == self.errors,
            r.warnings == self.warnings,
            texts(r.first_messages@) == texts(self.first_messages@),
    {
        let mut kept: Vec<String> = Vec::new();
        let mut i: usize = 0;
        while i < self.first_messages.len()
            invariant
                i <= self.first_messages@.len(),
                texts(kept@) == texts(self.first_messages@.take(i as int)),
            decreases self.first_messages@.len() - i,
        {
            let text = self.first_messages[i].clone();
            let ghost before = kept@;
            kept.push(text);
            proof {
                assert(self.first_messages@.take(i + 1) =~= self.first_messages@.take(i as int).push(
                    self.first_messages@[i as int],
                ));
                assert(texts(kept@) =~= texts(before).push(self.first_messages@[i as int]@));
                assert(texts(self.first_messages@.take(i + 1)) =~= texts(
                    self.first_messages@.take(i as int),
                ).push(self.first_messages@[i as int]@));
            }
            i = i + 1;
        }
        proof {
            assert(self.first_messages@.take(i as int) =~= self.first_messages@);
        }
        ValidationReport { errors: self.errors, warnings: self.warnings, first_messages: kept }
    }
}

} // verus!
