//! Diagnostics and the accumulator that collects them.

use vstd::prelude::*;
use vstd::string::StringExecFns;
use crate::text::views;

verus! {

/// The part of the input that a diagnostic blames, by position.
#[derive(Clone, Copy, Debug, PartialEq, Eq, Structural)]
pub enum Location {
    /// The invocation as a whole.
    Invocation,
    /// A sender, by its position in the sender list.
    Sender { index: usize },
    /// A field of the receiver, by its position.
    Field { field: usize },
    /// An attribute of a field.
    Attribute { field: usize, attr: usize },
    /// An item of an attribute's argument list.
    Item { field: usize, attr: usize, item: usize },
}

/// One validation failure: what is wrong, and where.
#[derive(Clone, Debug, PartialEq, Eq)]
pub struct Diagnostic {
    pub message: String,
    pub location: Location,
}

/// What a [`Diagnostic`] holds, as mathematical values.
pub struct DiagnosticView {
    pub message: Seq<char>,
    pub location: Location,
}

impl View for Diagnostic {
    type V = DiagnosticView;

    open spec fn view(&self) -> DiagnosticView {
        DiagnosticView { message: self.message@, location: self.location }
    }
}

/// The diagnostic with the given message and location.
pub open spec fn diagnostic(message: Seq<char>, location: Location) -> DiagnosticView {
    DiagnosticView { message, location }
}

impl Diagnostic {
    /// The diagnostic with the given message and location.
    pub fn new(message: String, location: Location) -> (r: Diagnostic)
        ensures
            r@ == diagnostic(message@, location),
    {
        Diagnostic { message, location }
    }

    /// A diagnostic whose message is the given text.
    pub fn custom(message: &str, location: Location) -> (r: Diagnostic)
        ensures
            r@ == diagnostic(message@, location),
    {
        Diagnostic { message: String::from_str(message), location }
    }

    /// A copy of this diagnostic.
    pub fn duplicate(&self) -> (r: Diagnostic)
        ensures
            r@ == self@,
    {
        Diagnostic { message: self.message.clone(), location: self.location }
    }
}

/// Appends copies of `more` to `errors`.
pub fn append_diagnostics(errors: &mut Vec<Diagnostic>, more: &Vec<Diagnostic>)
    ensures
        views(final(errors)@) == views(old(errors)@) + views(more@),
{
    let mut i: usize = 0;
    while i < more.len()
        invariant
            i <= more.len(),
            views(errors@) == views(old(errors)@) + views(more@).take(i as int),
        decreases more.len() - i,
    {
        let ghost before = errors@;
        errors.push(more[i].duplicate());
        assert(views(errors@) =~= views(before).push(more[i as int]@));
        assert(views(more@).take(i + 1) =~= views(more@).take(i as int).push(more[i as int]@));
        i = i + 1;
    }
    assert(views(more@).take(more.len() as int) =~= views(more@));
}

/// Collects validation failures so that one pass can report all of them.
///
/// Finishing consumes the accumulator: it is used once.
pub struct Accumulator {
    errors: Vec<Diagnostic>,
}

impl View for Accumulator {
    type V = Seq<DiagnosticView>;

    closed spec fn view(&self) -> Seq<DiagnosticView> {
        views(self.errors@)
    }
}

impl Accumulator {
    /// An accumulator that holds nothing.
    pub fn new() -> (r: Accumulator)
        ensures
            r@ == Seq::<DiagnosticView>::empty(),
    {
        let r = Accumulator { errors: Vec::new() };
        assert(r@ =~= Seq::<DiagnosticView>::empty());
        r
    }

    /// Adds one diagnostic.
    pub fn push(&mut self, error: Diagnostic)
        ensures
            final(self)@ == old(self)@.push(error@),
    {
        self.errors.push(error);
        assert(self@ =~= old(self)@.push(error@));
    }

    /// Adds every diagnostic of `errors`, in order.
    pub fn extend(&mut self, errors: &Vec<Diagnostic>)
        ensures
            final(self)@ == old(self)@ + views(errors@),
    {
        append_diagnostics(&mut self.errors, errors);
    }

    /// Hands a successful value on, or keeps the error and hands on nothing.
    pub fn handle<T>(&mut self, result: Result<T, Diagnostic>) -> (r: Option<T>)
        ensures
            match result {
                Ok(value) => r == Some(value) && final(self)@ == old(self)@,
                Err(error) => r is None && final(self)@ == old(self)@.push(error@),
            },
    {
        match result {
            Ok(value) => Some(value),
            Err(error) => {
                self.push(error);
                None
            },
        }
    }

    /// Absorbs the diagnostics of a failed result and ignores a successful one.
    pub fn push_result<T>(&mut self, res: &Result<T, Vec<Diagnostic>>)
        ensures
            match *res {
                Ok(_) => final(self)@ == old(self)@,
                Err(errors) => final(self)@ == old(self)@ + views(errors@),
            },
    {
        match res {
            Ok(_) => (),
            Err(errors) => self.extend(errors),
        }
    }

    /// Ends the pass: the success value if nothing was collected, else everything that
    /// was, in the order it came.
    pub fn finish_with<T>(self, success: T) -> (r: Result<T, Vec<Diagnostic>>)
        ensures
            match r {
                Ok(value) => self@.len() == 0 && value == success,
                Err(errors) => self@.len() > 0 && views(errors@) == self@,
            },
    {
        if self.errors.len() == 0 {
            Ok(success)
        } else {
            Err(self.errors)
        }
    }

    /// Ends the pass with nothing to hand on.
    pub fn finish(self) -> (r: Result<(), Vec<Diagnostic>>)
        ensures
            match r {
                Ok(_) => self@.len() == 0,
                Err(errors) => self@.len() > 0 && views(errors@) == self@,
            },
    {
        self.finish_with(())
    }

    /// Ends the pass with the outcome of a later step: its value if that step succeeded
    /// and nothing was collected, else what was collected followed by that step's own
    /// diagnostics.
    pub fn finnish_with_result<T>(self, res: Result<T, Vec<Diagnostic>>) -> (r: Result<
        T,
        Vec<Diagnostic>,
    >)
        ensures
            match res {
                Ok(success) => match r {
                    Ok(value) => self@.len() == 0 && value == success,
                    Err(errors) => self@.len() > 0 && views(errors@) == self@,
                },
                Err(late) => r matches Err(errors) && views(errors@) == self@ + views(late@),
            },
    {
        match res {
            Ok(success) => self.finish_with(success),
            Err(late) => {
                let mut errors = self.errors;
                append_diagnostics(&mut errors, &late);
                Err(errors)
            },
        }
    }
}

} // verus!
