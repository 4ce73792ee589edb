//! The first-generation clause surface, kept for the legacy annotation
//! format: a clause here is either `valid_ptr(ident)` without an access
//! mode, or a custom string. Anything else is rejected outright instead of
//! being attempted as an expression.

use vstd::prelude::*;

use crate::parse::ParseError;
use crate::scan::{scan_ident_end, scan_ident_end_exec, scan_string, scan_string_exec, skip_ws, skip_ws_exec};
use crate::text::{chars_to_string, ident_start_char, is_ident_start, str_chars, str_eq_chars};

verus! {

/// A legacy clause.
#[derive(Debug)]
pub enum PreconditionKind {
    /// The named pointer argument must be valid.
    ValidPtr {
        /// The pointer argument's name.
        ident: String,
    },
    /// An arbitrary descriptive string.
    Custom {
        /// The condition text.
        text: String,
    },
}

/// The model of a legacy clause.
pub enum PreconditionKindModel {
    /// A pointer-validity clause.
    ValidPtr { ident: Seq<char> },
    /// A custom clause.
    Custom { text: Seq<char> },
}

impl View for PreconditionKind {
    type V = PreconditionKindModel;

    open spec fn view(&self) -> PreconditionKindModel {
        match self {
            PreconditionKind::ValidPtr { ident } => PreconditionKindModel::ValidPtr {
                ident: ident@,
            },
            PreconditionKind::Custom { text } => PreconditionKindModel::Custom { text: text@ },
        }
    }
}

/// What parsing a legacy clause yields: a string literal is custom,
/// `valid_ptr(ident)` is a pointer clause, and any other keyword is
/// unknown.
pub open spec fn spec_parse_kind(s: Seq<char>) -> Result<PreconditionKindModel, ParseError> {
    let i = skip_ws(s, 0);
    if i == s.len() {
        Err(ParseError::Empty)
    } else if s[i] == '"' {
        match scan_string(s.skip(i + 1)) {
            Some((value, used)) => {
                if skip_ws(s, i + 1 + used) == s.len() {
                    Ok(PreconditionKindModel::Custom { text: value })
                } else {
                    Err(ParseError::UnexpectedToken)
                }
            }
            None => Err(ParseError::Malformed),
        }
    } else if is_ident_start(s[i]) && s.subrange(i, scan_ident_end(s, i)) == "valid_ptr"@ {
        let j = scan_ident_end(s, i);
        let a = skip_ws(s, j);
        if a < s.len() && s[a] == '(' {
            let b = skip_ws(s, a + 1);
            if b < s.len() && is_ident_start(s[b]) {
                let c = scan_ident_end(s, b);
                let d = skip_ws(s, c);
                if d < s.len() && s[d] == ')' {
                    if skip_ws(s, d + 1) == s.len() {
                        Ok(PreconditionKindModel::ValidPtr { ident: s.subrange(b, c) })
                    } else {
                        Err(ParseError::UnexpectedToken)
                    }
                } else {
                    Err(ParseError::Malformed)
                }
            } else {
                Err(ParseError::Malformed)
            }
        } else {
            Err(ParseError::Malformed)
        }
    } else {
        Err(ParseError::NotAPrecondition)
    }
}

/// Parses a legacy clause, as `spec_parse_kind` describes.
pub fn parse_kind(s: &str) -> (r: Result<PreconditionKind, ParseError>)
    ensures
        match r {
            Ok(k) => spec_parse_kind(s@) == Ok::<_, ParseError>(k@),
            Err(e) => spec_parse_kind(s@) == Err::<PreconditionKindModel, _>(e),
        },
{
    let v = str_chars(s);
    let i = skip_ws_exec(&v, 0);
    if i == v.len() {
        return Err(ParseError::Empty);
    }
    if v[i] == '"' {
        return match scan_string_exec(&v, i + 1) {
            Some((value, end)) => {
                let rest = skip_ws_exec(&v, end);
                proof {
                    assert(i as int + 1 + (end - i - 1) == end as int);
                }
                if rest == v.len() {
                    Ok(PreconditionKind::Custom { text: chars_to_string(&value) })
                } else {
                    Err(ParseError::UnexpectedToken)
                }
            }
            None => Err(ParseError::Malformed),
        };
    }
    if ident_start_char(v[i]) {
        let j = scan_ident_end_exec(&v, i);
        let word = crate::parse::subvec(&v, i, j);
        if str_eq_chars("valid_ptr", &word) {
            let a = skip_ws_exec(&v, j);
            if !(a < v.len() && v[a] == '(') {
                return Err(ParseError::Malformed);
            }
            let b = skip_ws_exec(&v, a + 1);
            if !(b < v.len() && ident_start_char(v[b])) {
                return Err(ParseError::Malformed);
            }
            let c = scan_ident_end_exec(&v, b);
            let d = skip_ws_exec(&v, c);
            if !(d < v.len() && v[d] == ')') {
                return Err(ParseError::Malformed);
            }
            let rest = skip_ws_exec(&v, d + 1);
            if rest == v.len() {
                let idv = crate::parse::subvec(&v, b, c);
                return Ok(PreconditionKind::ValidPtr { ident: chars_to_string(&idv) });
            } else {
                return Err(ParseError::UnexpectedToken);
            }
        }
    }
    Err(ParseError::NotAPrecondition)
}

} // verus!
