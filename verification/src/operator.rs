//! The interactive cancellation menu.
//!
//! A cancellation signal while a prompt wait is suspended does not abort the
//! exchange: the operator is asked whether to keep waiting on the same
//! in-flight attempt, to repeat the current exchange from its first step, or
//! to skip ahead to the next one.  This module interprets the line the
//! operator types; presenting the menu and reading the line stay in the
//! unverified shell.

use vstd::prelude::*;
use vstd::string::StringSliceAdditionalSpecFns;

verus! {

/// The ASCII whitespace bytes: space, tab, line feed, form feed, carriage
/// return.
pub open spec fn is_ascii_ws(b: u8) -> bool {
    b == 32 || b == 9 || b == 10 || b == 12 || b == 13
}

/// `s` without its trailing ASCII whitespace.
pub open spec fn trim_ws_end(s: Seq<u8>) -> Seq<u8>
    decreases s.len(),
{
    if s.len() > 0 && is_ascii_ws(s[s.len() - 1]) {
        trim_ws_end(s.take(s.len() - 1))
    } else {
        s
    }
}

/// The operator's three ways out of a cancelled wait.
#[derive(Clone, Copy, Debug, PartialEq, Eq, Structural)]
pub enum OperatorChoice {
    /// Keep waiting on the same in-flight attempt.
    KeepWaiting,
    /// Abandon the attempt and repeat this exchange from its first step.
    Repeat,
    /// Abandon the attempt and advance to the next exchange.
    Next,
}

/// Interpret one line of operator input at the cancellation menu: after
/// trailing whitespace is ignored, `w` keeps waiting, `r` repeats the
/// current exchange, `n` advances to the next, and anything else is no
/// choice at all (the menu asks again).
pub fn parse_operator_choice(line: &str) -> (r: Option<OperatorChoice>)
    ensures
        r == if trim_ws_end(line.spec_bytes()) == seq![119u8] {
            Some(OperatorChoice::KeepWaiting)
        } else if trim_ws_end(line.spec_bytes()) == seq![114u8] {
            Some(OperatorChoice::Repeat)
        } else if trim_ws_end(line.spec_bytes()) == seq![110u8] {
            Some(OperatorChoice::Next)
        } else {
            None::<OperatorChoice>
        },
{
    let bytes = line.as_bytes();
    let mut j: usize = bytes.len();
    assert(bytes@.take(bytes@.len() as int) =~= bytes@);
    while j > 0 && (bytes[j - 1] == 32 || bytes[j - 1] == 9 || bytes[j - 1] == 10 || bytes[j - 1]
        == 12 || bytes[j - 1] == 13)
        invariant
            j <= bytes@.len(),
            trim_ws_end(bytes@) == trim_ws_end(bytes@.take(j as int)),
        decreases j,
    {
        proof {
            let sub = bytes@.take(j as int);
            assert(is_ascii_ws(sub[sub.len() - 1]));
            assert(sub.take(sub.len() - 1) =~= bytes@.take(j - 1));
        }
        j = j - 1;
    }
    proof {
        let sub = bytes@.take(j as int);
        assert(trim_ws_end(sub) == sub);
    }
    if j != 1 {
        proof {
            if trim_ws_end(bytes@) == seq![119u8] || trim_ws_end(bytes@) == seq![114u8]
                || trim_ws_end(bytes@) == seq![110u8] {
                assert(trim_ws_end(bytes@).len() == 1);
            }
        }
        return None;
    }
    let b = bytes[0];
    proof {
        assert(trim_ws_end(bytes@)[0] == bytes@[0]);
    }
    if b == 119 {
        assert(trim_ws_end(bytes@) =~= seq![119u8]);
        Some(OperatorChoice::KeepWaiting)
    } else if b == 114 {
        assert(trim_ws_end(bytes@) =~= seq![114u8]);
        Some(OperatorChoice::Repeat)
    } else if b == 110 {
        assert(trim_ws_end(bytes@) =~= seq![110u8]);
        Some(OperatorChoice::Next)
    } else {
        None
    }
}

} // verus!
