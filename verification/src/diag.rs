//! Diagnostics emitted while rewriting.
//!
//! A rewrite pass never aborts: hard errors and soft warnings accumulate and
//! are handed back beside a best-effort result, so one pass can surface every
//! independent problem. Each diagnostic names the problem structurally; the
//! index fields point into the list the problem was found in.

use vstd::prelude::*;

verus! {

/// How severe a diagnostic is.
#[derive(Clone, Copy, PartialEq, Eq, Structural, Debug)]
pub enum Severity {
    /// The rewrite of the offending node falls back to its original form.
    Error,
    /// Surfaced but non-fatal.
    Warning,
}

/// One problem found during a rewrite pass.
#[derive(Clone, Copy, PartialEq, Eq, Structural, Debug)]
pub enum Diagnostic {
    /// A precondition's conditional-compilation predicate differs from the
    /// first precondition's predicate.
    MismatchedCfg { index: usize },
    /// A second `forward` annotation on one call.
    DuplicateForward { index: usize },
    /// An assurance without a justification.
    MissingReason { index: usize },
    /// An assurance whose justification is the empty string.
    EmptyReason { index: usize },
    /// An assurance whose justification is the reserved placeholder text or
    /// a case-insensitive "todo" or "?".
    PlaceholderReason { index: usize },
    /// An annotation whose content does not parse.
    MalformedAnnotation { index: usize },
    /// Call annotations attached to an expression in which no unambiguous
    /// call could be found; the expression is left unmodified.
    NoUnambiguousCall,
    /// The called function is not named by a direct path, so the call target
    /// cannot be determined at compile time.
    AmbiguousCallee,
    /// A `Replace` forward annotation on a method call, which has no
    /// rewritable leading path.
    ReplaceOnMethodCall,
    /// Preconditions on a method declaration, which the nominal encoder
    /// cannot carry: the record type would have nowhere to live.
    MethodNotSupported,
    /// The `from` path of a `Replace` has more segments than the call's path.
    PrefixTooLong,
    /// The `from` path of a `Replace` is not a prefix of the call's path;
    /// `segment` is the first differing segment.
    PrefixMismatch { segment: usize },
    /// A forwarding path without any segment.
    EmptyPath,
    /// A boolean precondition consisting of a bare identifier, which is
    /// probably a misspelled keyword.
    UnknownKeyword,
    /// An impl-block type path with more than one segment.
    ImplPathTooLong,
    /// An impl-block type given as a qualified path.
    ImplQualifiedPath,
    /// An impl-block type with parenthesized type arguments.
    ImplParenthesizedArguments,
    /// An impl-block type that is not a plain type path.
    ImplNotAPath,
}

impl Diagnostic {
    /// The severity of this diagnostic.
    pub open spec fn spec_severity(&self) -> Severity {
        match self {
            Diagnostic::PlaceholderReason { .. } => Severity::Warning,
            Diagnostic::NoUnambiguousCall => Severity::Warning,
            _ => Severity::Error,
        }
    }

    /// Runtime severity of this diagnostic.
    pub fn severity(&self) -> (r: Severity)
        ensures
            r == self.spec_severity(),
    {
        match self {
            Diagnostic::PlaceholderReason { .. } => Severity::Warning,
            Diagnostic::NoUnambiguousCall => Severity::Warning,
            _ => Severity::Error,
        }
    }

    /// Whether this diagnostic is a hard error.
    pub open spec fn is_error(&self) -> bool {
        self.spec_severity() == Severity::Error
    }
}

} // verus!
