//! One worker iteration of the search loop: generate a candidate, evaluate
//! the rules in order, and render the record line to persist when a rule
//! matched. A pool of workers runs this step repeatedly, each polling the
//! cancellation controller between iterations.

use vstd::prelude::*;
use crate::candidate::Candidate;
use crate::pattern::{Rule, RuleView, first_match, first_match_index, views_of};
use crate::sink::{record_line, record_line_chars};

verus! {

/// The outcome of one worker iteration.
pub struct StepOutcome {
    /// The candidate that was generated and evaluated.
    pub candidate: Candidate,
    /// The index of the first rule the candidate's address matched, if any.
    pub matched: Option<usize>,
    /// The record line to persist, exactly when a rule matched.
    pub record: Option<String>,
}

impl StepOutcome {
    /// The candidate is well formed, `matched` is the first matching rule's
    /// index, and the record line is rendered exactly when a rule matched.
    pub open spec fn wf(&self, rules: Seq<RuleView>) -> bool {
        &&& self.candidate.wf()
        &&& match self.matched {
            Some(i) => first_match_index(self.candidate.address@, rules) == Some(i as int),
            None => first_match_index(self.candidate.address@, rules) is None,
        }
        &&& match self.record {
            Some(line) => self.matched is Some && line@ == record_line_chars(
                self.candidate.address@,
                self.candidate.scalar@,
            ),
            None => self.matched is None,
        }
    }
}

/// Runs one worker iteration: generates a candidate, finds the first rule its
/// address matches, and renders the record line for a match. Returns `None`
/// only when no valid scalar could be drawn within the generator's attempt
/// bound, which is never reached in practice.
pub fn search_step(rules: &Vec<Rule>) -> (r: Option<StepOutcome>)
    ensures
        r matches Some(out) ==> out.wf(views_of(rules@)),
{
    match crate::candidate::generate() {
        None => None,
        Some(candidate) => {
            let matched = first_match(candidate.address.as_str(), rules);
            let record = match matched {
                Some(_) => Some(record_line(&candidate)),
                None => None,
            };
            Some(StepOutcome { candidate, matched, record })
        },
    }
}

/// The notification message posted for a found address: the recipient
/// mention, the word `found`, and the address.
pub fn notification_content(mention: &str, address: &str) -> (r: String)
    ensures
        r@ == mention@ + " found "@ + address@,
{
    let mut s = String::from_str(mention);
    s.append(" found ");
    s.append(address);
    s
}

} // verus!
