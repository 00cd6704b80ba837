//! The native functions of the global scope.
use std::time::{Duration, SystemTime};

use vstd::prelude::*;

use crate::expression::{Literal, Value};
use crate::ieee;
use crate::interpreter::{Interpreter, Interrupt, RuntimeError, eval_view};
use crate::semantics::{Reading, agrees, clock_bits, clock_call, nanos_per_sec};
use crate::token::{Token, TokenType};

verus! {

#[verifier::external_type_specification]
#[verifier::external_body]
pub struct ExSystemTime(SystemTime);

/// The current time, from `SystemTime::now`. Nothing is claimed of it.
#[verifier::external_body]
fn now() -> SystemTime {
    SystemTime::now()
}

/// The time elapsed since the Unix epoch, from `SystemTime::duration_since`, or `None`
/// when the time is before the epoch. Nothing is claimed of it.
#[verifier::external_body]
fn since_epoch(t: &SystemTime) -> Option<Duration> {
    t.duration_since(SystemTime::UNIX_EPOCH).ok()
}

/// The whole seconds of a duration, from `Duration::as_secs`. Nothing is claimed of it.
#[verifier::external_body]
fn whole_seconds(d: &Duration) -> u64 {
    d.as_secs()
}

/// The fractional part of a duration in nanoseconds, from `Duration::subsec_nanos`,
/// which documents it as less than one billion.
#[verifier::external_body]
fn subsec_nanos(d: &Duration) -> (r: u32)
    ensures
        r < 1_000_000_000,
{
    d.subsec_nanos()
}

/// The clock value for a reading of `secs` seconds and `nanos` nanoseconds since the
/// Unix epoch: the seconds as a double, plus the nanoseconds divided by one billion,
/// narrowed to single precision.
pub fn seconds_since_epoch(secs: u64, nanos: u32) -> (r: u32)
    ensures
        r == clock_bits(secs, nanos),
{
    ieee::double_to_single(
        ieee::double_add(
            ieee::double_from_u64(secs),
            ieee::double_div(ieee::double_from_u64(nanos as u64), 0x41CD_CD65_0000_0000u64),
        ),
    )
}

/// Reads the system clock: the seconds since the Unix epoch, as a single-precision
/// float. The reading is recorded in the interpreter's log of readings.
pub fn clock_native(interpreter: &mut Interpreter, args: Vec<Value>) -> (r: Result<Value, Interrupt<RuntimeError>>)
    ensures
        final(interpreter).readings@.len() == old(interpreter).readings@.len() + 1,
        agrees(final(interpreter).readings@, old(interpreter).readings@),
        forall|rs: Seq<Reading>|
            #[trigger] agrees(rs, final(interpreter).readings@) ==> clock_call(rs, old(interpreter).st()) == (
                final(interpreter).st(),
                eval_view(r),
            ),
{
    let elapsed = since_epoch(&now());
    match elapsed {
        Some(d) => {
            let secs = whole_seconds(&d);
            let nanos = subsec_nanos(&d);
            let bits = seconds_since_epoch(secs, nanos);
            proof {
                interpreter.readings@ = interpreter.readings@.push(Some((secs, nanos)));
            }
            Ok(Value::Literal(Literal::Float(bits)))
        },
        None => {
            proof {
                interpreter.readings@ = interpreter.readings@.push(None);
            }
            Err(
                Interrupt::Error(
                    RuntimeError {
                        token: Token { token_type: TokenType::EOF, lexeme: String::new(), line: None, literal: None },
                        message: "System clock is set before the Unix epoch".to_string(),
                    },
                ),
            )
        },
    }
}

} // verus!
