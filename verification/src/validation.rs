//! Validation of request payloads: an error collector, the trait payloads
//! implement, and the usual field checks.

use vstd::prelude::*;
use vstd::string::*;
use crate::error::{NovaError, NovaErrorView};
use crate::text::{is_blank, str_is_blank, decimal, u64_to_decimal};

verus! {

/// The parts joined with `sep` between them.
pub open spec fn join(parts: Seq<Seq<char>>, sep: Seq<char>) -> Seq<char>
    decreases parts.len(),
{
    if parts.len() == 0 {
        Seq::empty()
    } else if parts.len() == 1 {
        parts[0]
    } else {
        join(parts.drop_last(), sep) + sep + parts.last()
    }
}

/// Collector of validation error messages.
#[derive(Debug, Clone)]
pub struct ValidationErrors {
    errors: Vec<String>,
}

impl ValidationErrors {
    /// The collected messages, in the order they were added.
    pub closed spec fn messages(&self) -> Seq<Seq<char>> {
        self.errors@.map_values(|m: String| m@)
    }

    /// An empty collector.
    pub fn new() -> (r: Self)
        ensures
            r.messages() == Seq::<Seq<char>>::empty(),
    {
        ValidationErrors { errors: Vec::new() }
    }

    /// Adds a message.
    pub fn push(&mut self, message: String)
        ensures
            final(self).messages() == old(self).messages().push(message@),
    {
        self.errors.push(message);
        assert(self.messages() =~= old(self).messages().push(message@));
    }

    /// Whether no message was added.
    pub fn is_empty(&self) -> (r: bool)
        ensures
            r == (self.messages().len() == 0),
    {
        self.errors.len() == 0
    }

    /// The messages joined with `"; "`.
    pub fn joined(&self) -> (r: String)
        ensures
            r@ == join(self.messages(), "; "@),
    {
        let mut out = String::new();
        let mut i: usize = 0;
        while i < self.errors.len()
            invariant
                i <= self.errors@.len(),
                out@ == join(self.messages().take(i as int), "; "@),
            decreases self.errors.len() - i,
        {
            let ghost before = self.messages().take(i as int);
            if i > 0 {
                out = out.concat("; ");
            }
            out = out.concat(self.errors[i].as_str());
            proof {
                let next = self.messages().take(i + 1);
                assert(next.drop_last() =~= before);
                assert(next.last() == self.errors@[i as int]@);
                if i == 0 {
                    assert(next =~= seq![self.errors@[0]@]);
                }
            }
            i = i + 1;
        }
        assert(self.messages().take(i as int) =~= self.messages());
        out
    }

    /// `Ok` when no message was added, else a validation error whose text is
    /// the messages joined with `"; "`.
    pub fn into_result(self) -> (r: Result<(), NovaError>)
        ensures
            self.messages().len() == 0 ==> r is Ok,
            self.messages().len() > 0 ==> r is Err && r->Err_0@ == NovaErrorView::ValidationError(
                join(self.messages(), "; "@),
            ),
    {
        if self.errors.len() == 0 {
            Ok(())
        } else {
            Err(NovaError::ValidationError(self.joined()))
        }
    }

    /// `Ok` when no message was added, else the collector itself as the
    /// error.
    pub fn check(self) -> (r: Result<(), ValidationErrors>)
        ensures
            self.messages().len() == 0 ==> r is Ok,
            self.messages().len() > 0 ==> (r matches Err(e) && e.messages() == self.messages()),
    {
        if self.errors.len() == 0 {
            Ok(())
        } else {
            Err(self)
        }
    }
}

impl Default for ValidationErrors {
    fn default() -> (r: Self)
        ensures
            r.messages() == Seq::<Seq<char>>::empty(),
    {
        ValidationErrors::new()
    }
}

/// Implemented by request payloads to check themselves.
///
/// An implementation written with a specification overrides
/// `states_errors` to `true` and gives in `spec_errors` the messages that
/// its `validate` collects; one that does not keeps the defaults, and then
/// nothing is claimed of its outcome.
pub trait NovaValidate {
    /// Whether `spec_errors` states the outcome of `validate`.
    open spec fn states_errors(&self) -> bool {
        false
    }

    /// The messages that validating this value collects, `None` when it is
    /// valid.
    open spec fn spec_errors(&self) -> Option<Seq<Seq<char>>> {
        None
    }

    /// Check the value: `Ok` when it is valid, else the messages collected.
    fn validate(&self) -> (r: Result<(), ValidationErrors>)
        ensures
            self.states_errors() ==> (r is Ok <==> self.spec_errors() is None),
            self.states_errors() ==> (r matches Err(e) ==> self.spec_errors() == Some(e.messages())),
    ;
}

/// What a validation outcome becomes: `Ok` stays `Ok`; collected errors
/// become a validation error with the messages joined by `"; "`.
pub fn validation_outcome(outcome: Result<(), ValidationErrors>) -> (r: Result<(), NovaError>)
    ensures
        outcome is Ok ==> r is Ok,
        outcome is Err ==> r is Err && r->Err_0@ == NovaErrorView::ValidationError(
            join(outcome->Err_0.messages(), "; "@),
        ),
{
    match outcome {
        Ok(()) => Ok(()),
        Err(errs) => Err(NovaError::ValidationError(errs.joined())),
    }
}

/// Runs the payload's validation and turns its outcome into a framework
/// result, as `validation_outcome` does.
pub fn validate_request<T: NovaValidate>(value: &T) -> (r: Result<(), NovaError>)
    ensures
        r is Err ==> r->Err_0@ is ValidationError,
        value.states_errors() ==> (match value.spec_errors() {
            None => r is Ok,
            Some(m) => r is Err && r->Err_0@ == NovaErrorView::ValidationError(join(m, "; "@)),
        }),
{
    validation_outcome(value.validate())
}

/// `<field> is required` when `value` is empty or only whitespace.
pub fn required_string(field: &str, value: &str) -> (r: Option<String>)
    ensures
        is_blank(value@) ==> r is Some && r->Some_0@ == field@ + " is required"@,
        !is_blank(value@) ==> r is None,
{
    if str_is_blank(value) {
        Some(String::from_str(field).concat(" is required"))
    } else {
        None
    }
}

/// `<field> must be at least <min> characters` when `value` has fewer than
/// `min` characters.
pub fn min_length(field: &str, value: &str, min: usize) -> (r: Option<String>)
    ensures
        value@.len() < min ==> r is Some && r->Some_0@ == field@ + " must be at least "@ + decimal(
            min as nat,
        ) + " characters"@,
        value@.len() >= min ==> r is None,
{
    if value.unicode_len() < min {
        let n = u64_to_decimal(min as u64);
        Some(String::from_str(field).concat(" must be at least ").concat(n.as_str()).concat(" characters"))
    } else {
        None
    }
}

/// `<field> must be at most <max> characters` when `value` has more than
/// `max` characters.
pub fn max_length(field: &str, value: &str, max: usize) -> (r: Option<String>)
    ensures
        value@.len() > max ==> r is Some && r->Some_0@ == field@ + " must be at most "@ + decimal(
            max as nat,
        ) + " characters"@,
        value@.len() <= max ==> r is None,
{
    if value.unicode_len() > max {
        let n = u64_to_decimal(max as u64);
        Some(String::from_str(field).concat(" must be at most ").concat(n.as_str()).concat(" characters"))
    } else {
        None
    }
}

} // verus!
