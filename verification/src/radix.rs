//! The `parseInt` radix rule: given the shape of a call expression, decide
//! whether it calls `parseInt`/`Number.parseInt` without a radix argument,
//! without any argument, or with an invalid one.
//!
//! The rule works on a plain model of the call: the callee's object and
//! member names, and the argument list. Reading those out of the host
//! language's syntax tree, and turning a number literal's text into a
//! `NumberValue`, is the caller's concern; the decision logic lives here.

use vstd::prelude::*;

verus! {

/// The signal this rule raises for a matched call, if any.
#[derive(Clone, Copy, PartialEq, Eq, Structural, Debug)]
pub enum State {
    MissingParameters,
    MissingRadix,
    InvalidRadix,
}

/// What the external number parser reports for a number literal's text:
/// the literal does not parse as a number at all, it parses but is
/// fractional or out of `i64` range, or it denotes exactly this integer.
#[derive(Clone, Copy, PartialEq, Eq, Structural, Debug)]
pub enum NumberValue {
    Unparsed,
    NonIntegral,
    Integer(i64),
}

/// A literal expression, as far as this rule looks at one.
#[derive(Clone, Copy, PartialEq, Eq, Structural, Debug)]
pub enum JsLiteral {
    Number(NumberValue),
    Other,
}

/// An expression in radix-argument position. An identifier whose name
/// token is missing or malformed carries `None`.
pub enum JsExpression {
    Literal(JsLiteral),
    Identifier(Option<String>),
    Other,
}

/// One argument of a call: a spread, or an ordinary expression.
pub enum JsCallArgument {
    Spread,
    Expression(JsExpression),
}

/// The shape of a call expression as this rule reads it. An argument slot
/// holding `None` stands for a slot the host parser could not read.
pub struct CallExpression {
    pub callee_object: Option<String>,
    pub callee_member: Option<String>,
    pub arguments: Vec<Option<JsCallArgument>>,
}

/// Whether a literal is a valid radix: an integer between 2 and 36.
/// `None` means the rule cannot decide and stays silent.
pub open spec fn literal_radix_validity(l: JsLiteral) -> Option<bool> {
    match l {
        JsLiteral::Number(nv) => match nv {
            NumberValue::Unparsed => None,
            NumberValue::NonIntegral => Some(false),
            NumberValue::Integer(n) => Some(2 <= n <= 36),
        },
        JsLiteral::Other => Some(false),
    }
}

/// Whether an expression is an acceptable radix argument: literals are
/// checked for value, the identifier `undefined` is rejected, everything
/// else is given the benefit of the doubt.
pub open spec fn radix_validity(e: JsExpression) -> Option<bool> {
    match e {
        JsExpression::Literal(l) => literal_radix_validity(l),
        JsExpression::Identifier(name) => match name {
            Some(s) => Some(s@ != "undefined"@),
            None => None,
        },
        JsExpression::Other => Some(true),
    }
}

/// Is the callee `parseInt` itself or the `parseInt` member of `Number`?
pub open spec fn callee_is_parse_int(call: CallExpression) -> bool {
    &&& call.callee_object matches Some(obj)
    &&& (obj@ == "Number"@ || obj@ == "parseInt"@)
    &&& call.callee_member matches Some(member)
    &&& member@ == "parseInt"@
}

/// The signal for one call shape, if any: the exact decision the rule makes.
pub open spec fn parse_int_signal(call: CallExpression) -> Option<State> {
    if !callee_is_parse_int(call) {
        None
    } else if call.arguments@.len() == 0 {
        Some(State::MissingParameters)
    } else {
        match call.arguments@[0] {
            Some(JsCallArgument::Expression(_)) => {
                if call.arguments@.len() == 1 {
                    Some(State::MissingRadix)
                } else {
                    match call.arguments@[1] {
                        Some(JsCallArgument::Expression(radix)) => match radix_validity(radix) {
                            Some(valid) => if valid {
                                None
                            } else {
                                Some(State::InvalidRadix)
                            },
                            None => None,
                        },
                        _ => None,
                    }
                }
            }
            _ => None,
        }
    }
}

/// Checks whether a given expression is a valid value of radix or not.
///
/// The following values are invalid: a literal except integers between 2
/// and 36, and the identifier `undefined`.
pub fn is_valid_radix(argument: &JsExpression) -> (r: Option<bool>)
    ensures
        r == radix_validity(*argument),
{
    match argument {
        JsExpression::Literal(l) => is_valid_radix_value(l),
        JsExpression::Identifier(name) => match name {
            Some(s) => {
                let undefined = String::from_str("undefined");
                Some(*s != undefined)
            }
            None => None,
        },
        JsExpression::Other => Some(true),
    }
}

/// Checks if a literal is an integer between 2 and 36.
pub fn is_valid_radix_value(literal: &JsLiteral) -> (r: Option<bool>)
    ensures
        r == literal_radix_validity(*literal),
{
    match literal {
        JsLiteral::Number(nv) => match nv {
            NumberValue::Unparsed => None,
            NumberValue::NonIntegral => Some(false),
            NumberValue::Integer(n) => Some(2 <= *n && *n <= 36),
        },
        JsLiteral::Other => Some(false),
    }
}

/// The rule itself, named as its consumers know it.
pub struct UseParseIntRadix;

impl UseParseIntRadix {
    /// Decide the signal for one call shape; `None` means the rule is
    /// silent, either because the call is not `parseInt` or because the
    /// radix argument is acceptable or unreadable.
    pub fn run(call: &CallExpression) -> (r: Option<State>)
        ensures
            r == parse_int_signal(*call),
    {
        let obj = match &call.callee_object {
            Some(obj) => obj,
            None => {
                return None;
            }
        };
        let number = String::from_str("Number");
        let parse_int = String::from_str("parseInt");
        if !(*obj == number || *obj == parse_int) {
            return None;
        }
        let member = match &call.callee_member {
            Some(member) => member,
            None => {
                return None;
            }
        };
        if *member != parse_int {
            return None;
        }

        if call.arguments.len() == 0 {
            return Some(State::MissingParameters);
        }
        match &call.arguments[0] {
            Some(JsCallArgument::Expression(_first)) => {}
            _ => {
                return None;
            }
        }

        if call.arguments.len() == 1 {
            return Some(State::MissingRadix);
        }
        let radix = match &call.arguments[1] {
            Some(JsCallArgument::Expression(radix)) => radix,
            _ => {
                return None;
            }
        };

        match is_valid_radix(radix) {
            Some(valid) => if valid { None } else { Some(State::InvalidRadix) },
            None => None,
        }
    }

    /// The diagnostic wording for each signal, as a (title, note) pair;
    /// binding it to a source range and rendering it is the caller's
    /// concern.
    pub fn diagnostic(state: &State) -> (r: (&'static str, &'static str))
        ensures
            state is MissingParameters ==> r.0@ == "Missing parameters"@
                && r.1@ == "Will always return NaN"@,
            state is MissingRadix ==> r.0@ == "Missing radix parameter"@
                && r.1@ == "Add a non-fractional number between 2 and 36"@,
            state is InvalidRadix ==> r.0@ == "Invalid radix parameter"@
                && r.1@ == "Radix must be a non-fractional number between 2 and 36"@,
    {
        match state {
            State::MissingParameters => ("Missing parameters", "Will always return NaN"),
            State::MissingRadix => (
                "Missing radix parameter",
                "Add a non-fractional number between 2 and 36",
            ),
            State::InvalidRadix => (
                "Invalid radix parameter",
                "Radix must be a non-fractional number between 2 and 36",
            ),
        }
    }
}

} // verus!
