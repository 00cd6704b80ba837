//! Running a piece of source text from start to end.
use vstd::prelude::*;

use crate::grammar::program;
use crate::interpreter::{EVAL_FUEL, Interpreter, Interrupt, RuntimeError};
use crate::laws::lemma_scanned_parsable;
use crate::parser::{ParseError, Parser};
use crate::resolver::Resolver;
use crate::scanner::{Scanner, lex};
use crate::semantics::{Reading, agrees, run_program};
use crate::text::decode_utf8;

verus! {

/// Whether errors were met: in the source (`had_error`) or while running it
/// (`had_runtime_error`).
pub struct Lox {
    pub had_error: bool,
    pub had_runtime_error: bool,
}

/// What running a piece of source did.
pub enum Outcome {
    /// The bytes are not UTF-8.
    InvalidUtf8,
    /// The source holds text that the scanner cannot turn into tokens.
    ScanFailed,
    /// The program ran: the syntax errors met while parsing it (those statements were
    /// skipped), the interpreter after running it (what it printed is in its output),
    /// and how it ended.
    Ran { parse_errors: Vec<ParseError>, interpreter: Interpreter, result: Result<(), Interrupt<RuntimeError>> },
}

impl Lox {
    /// No errors met yet.
    pub fn new() -> (r: Self)
        ensures
            !r.had_error,
            !r.had_runtime_error,
    {
        Lox { had_error: false, had_runtime_error: false }
    }

    /// Runs a piece of source text with a fresh interpreter: decodes it, scans it,
    /// parses it (statements with syntax errors are skipped), and runs what parsed.
    /// Invalid UTF-8 is an error in the source; an error interrupting the program is a
    /// runtime error (a `return` at the top level just ends it).
    pub fn run(&mut self, bytes: Vec<u8>) -> (r: Outcome)
        requires
            bytes@.len() < usize::MAX,
        ensures
            !vstd::utf8::valid_utf8(bytes@) ==> r is InvalidUtf8 && final(self).had_error
                && final(self).had_runtime_error == old(self).had_runtime_error,
            vstd::utf8::valid_utf8(bytes@) && lex(vstd::utf8::decode_utf8(bytes@), 0, 1) is None ==> r is ScanFailed
                && *final(self) == *old(self),
            vstd::utf8::valid_utf8(bytes@) && lex(vstd::utf8::decode_utf8(bytes@), 0, 1) is Some ==> ({
                let parsed = program(
                    lex(vstd::utf8::decode_utf8(bytes@), 0, 1).unwrap(),
                    0,
                    Seq::empty(),
                    Seq::empty(),
                );
                &&& r matches Outcome::Ran { parse_errors, interpreter, result } && {
                    &&& parse_errors@.map_values(|e: ParseError| e@) == parsed.1
                    &&& forall|rs: Seq<Reading>|
                        #[trigger] agrees(rs, interpreter.readings@) ==> run_program(
                            rs,
                            EVAL_FUEL as nat,
                            Interpreter::fresh_state(),
                            parsed.0,
                        ) == (
                            interpreter.st(),
                            match result {
                                Ok(()) => Ok(()),
                                Err(i) => Err(i@),
                            },
                        )
                    &&& final(self).had_error == old(self).had_error
                    &&& final(self).had_runtime_error == (old(self).had_runtime_error || result matches Err(
                        Interrupt::Error(_),
                    ))
                }
            }),
    {
        let ghost raw = bytes@;
        let source = match decode_utf8(bytes) {
            Some(s) => s,
            None => {
                self.had_error = true;
                return Outcome::InvalidUtf8;
            },
        };
        proof {
            crate::text::lemma_decode_utf8_len(raw);
        }
        let mut scanner = Scanner::new(source);
        let ghost src = scanner.source_text();
        let tokens = match scanner.try_scan_tokens() {
            Some(ts) => ts,
            None => {
                return Outcome::ScanFailed;
            },
        };
        proof {
            lemma_scanned_parsable(src);
            assert(Seq::<crate::token::TokenV>::empty() + lex(src, 0, 1).unwrap() =~= lex(src, 0, 1).unwrap());
        }
        let mut parser = Parser::new(tokens);
        let ast = parser.parse();
        let resolver = Resolver::new(Interpreter::new());
        resolver.resolve(ast.as_slice());
        let mut interpreter = resolver.into_interpreter();
        let result = interpreter.interpret(ast.as_slice());
        if let Err(Interrupt::Error(_)) = &result {
            self.had_runtime_error = true;
        }
        Outcome::Ran { parse_errors: parser.into_errors(), interpreter, result }
    }
}

} // verus!
