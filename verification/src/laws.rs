//! Properties that relate several parts of the library.
use vstd::prelude::*;

use crate::environment::{chain_assign, chain_get, frame_define, last_index, lemma_lookup_at_last_index};
use crate::expression::{ValueV, field_lookup};
use crate::grammar::{Parsed, arguments, check, expression, literal_types, parsable, remaining};
use crate::scanner::{Lexed, eof_token, keyword_type, lex, lex_step};
use crate::token::TokenType;

verus! {

/// A keyword is never a literal token type.
proof fn lemma_keyword_not_literal(s: Seq<char>)
    ensures
        keyword_type(s) matches Some(k) ==> !literal_types().contains(k),
{
    if let Some(k) = keyword_type(s) {
        assert(k != TokenType::String && k != TokenType::Number);
        assert(!literal_types().contains(k)) by {
            if literal_types().contains(k) {
                let i = choose|i: int| 0 <= i < literal_types().len() && literal_types()[i] == k;
                assert(i == 0 || i == 1);
            }
        }
    }
}

/// What the scanner produces always ends with the end-of-file token, and every string
/// or number token carries its literal value.
pub proof fn lemma_lex_well_formed(src: Seq<char>, pos: int, line: int)
    requires
        lex(src, pos, line) is Some,
    ensures
        lex(src, pos, line).unwrap().len() >= 1,
        lex(src, pos, line).unwrap().last() == eof_token(),
        forall|i: int|
            0 <= i < lex(src, pos, line).unwrap().len() && literal_types().contains(
                #[trigger] lex(src, pos, line).unwrap()[i].token_type,
            ) ==> lex(src, pos, line).unwrap()[i].literal is Some,
    decreases src.len() - pos,
{
    if pos < src.len() {
        match lex_step(src, pos, line) {
            Lexed::Fail => {},
            Lexed::Skip { end, line: l } => {
                lemma_lex_well_formed(src, end, l);
            },
            Lexed::Emit { end, line: l, token } => {
                lemma_lex_well_formed(src, end, l);
                let rest = lex(src, end, l).unwrap();
                let all = lex(src, pos, line).unwrap();
                assert(all == seq![token] + rest);
                assert(literal_types().contains(token.token_type) ==> token.literal is Some) by {
                    let c = src[pos];
                    if c != '"' && !crate::scanner::is_digit_char(c) {
                        if crate::scanner::is_alpha_char(c) {
                            lemma_keyword_not_literal(src.subrange(pos, crate::scanner::word_end(src, pos + 1)));
                        }
                        if literal_types().contains(token.token_type) {
                            let i = choose|i: int| 0 <= i < literal_types().len() && literal_types()[i] == token.token_type;
                            assert(i == 0 || i == 1);
                        }
                    }
                }
                assert forall|i: int| 0 <= i < all.len() && literal_types().contains(#[trigger] all[i].token_type) implies all[i].literal is Some by {
                    if i > 0 {
                        assert(all[i] == rest[i - 1]);
                    }
                }
            },
        }
    }
}

/// The tokens of every source that scans can be parsed.
pub proof fn lemma_scanned_parsable(src: Seq<char>)
    requires
        lex(src, 0, 1) is Some,
    ensures
        parsable(lex(src, 0, 1).unwrap()),
{
    lemma_lex_well_formed(src, 0, 1);
    let ts = lex(src, 0, 1).unwrap();
    assert(ts[ts.len() - 1].token_type == TokenType::EOF);
}

/// A call's argument list never holds more than 255 arguments: reading arguments after
/// at most 255 gives back those, followed by at least one more, and at most 255 in all.
pub proof fn law_arguments_at_most_255(t: Seq<crate::token::TokenV>, p: int, args: Seq<crate::expression::ExprV>)
    requires
        args.len() <= 255,
    ensures
        arguments(t, p, args) matches Parsed::Done(all, _) ==> {
            &&& args.len() < all.len() <= 255
            &&& all.subrange(0, args.len() as int) == args
        },
    decreases remaining(t, p),
{
    reveal(arguments);
    if args.len() < 255 {
        if let Parsed::Done(a, p1) = expression(t, p) {
            if check(t, p1, TokenType::Comma) && p <= p1 {
                law_arguments_at_most_255(t, p1 + 1, args.push(a));
                if let Parsed::Done(all, _) = arguments(t, p1 + 1, args.push(a)) {
                    assert(all.subrange(0, args.len() as int) =~= all.subrange(0, args.len() + 1int).subrange(
                        0,
                        args.len() as int,
                    ));
                }
            } else {
                assert(args.push(a).subrange(0, args.len() as int) =~= args);
            }
        }
    }
}

/// Looking a name up in a scope after binding a name there.
pub proof fn lemma_frame_define_lookup(f: Seq<(Seq<char>, ValueV)>, name: Seq<char>, v: ValueV, other: Seq<char>)
    ensures
        field_lookup(frame_define(f, name, v), other) == if other == name {
            Some(v)
        } else {
            field_lookup(f, other)
        },
    decreases f.len(),
{
    lemma_lookup_at_last_index(f, name);
    match last_index(f, name) {
        None => {
            let g = f.push((name, v));
            assert(g.subrange(0, g.len() - 1) =~= f);
        },
        Some(k) => {
            let g = f.update(k, (name, v));
            if k == f.len() - 1 {
                assert(g.subrange(0, g.len() - 1) =~= f.subrange(0, f.len() - 1));
            } else {
                let p = f.subrange(0, f.len() - 1);
                assert(last_index(p, name) == Some(k));
                assert(g.subrange(0, g.len() - 1) =~= p.update(k, (name, v)));
                assert(frame_define(p, name, v) == p.update(k, (name, v)));
                lemma_frame_define_lookup(p, name, v, other);
            }
        },
    }
}

/// Defining a variable in the innermost scope makes a read of it give the defined
/// value.
pub proof fn law_get_after_define(frames: Seq<Seq<(Seq<char>, ValueV)>>, name: Seq<char>, v: ValueV)
    requires
        frames.len() >= 1,
    ensures
        chain_get(frames.update(frames.len() - 1, frame_define(frames[frames.len() - 1], name, v)), name) == Some(v),
{
    lemma_frame_define_lookup(frames[frames.len() - 1], name, v, name);
}

/// Defining a variable leaves what every other name reads unchanged.
pub proof fn law_define_keeps_others(frames: Seq<Seq<(Seq<char>, ValueV)>>, name: Seq<char>, v: ValueV, other: Seq<char>)
    requires
        frames.len() >= 1,
        other != name,
    ensures
        chain_get(frames.update(frames.len() - 1, frame_define(frames[frames.len() - 1], name, v)), other) == chain_get(
            frames,
            other,
        ),
{
    let n = frames.len();
    let g = frames.update(n - 1, frame_define(frames[n - 1], name, v));
    lemma_frame_define_lookup(frames[n - 1], name, v, other);
    assert(g.subrange(0, n - 1) =~= frames.subrange(0, n - 1));
}

/// An assignment succeeds exactly on a name that some scope binds, and a read of the
/// name then gives the assigned value.
pub proof fn law_get_after_assign(frames: Seq<Seq<(Seq<char>, ValueV)>>, name: Seq<char>, v: ValueV)
    ensures
        chain_assign(frames, name, v) is Some <==> chain_get(frames, name) is Some,
        chain_assign(frames, name, v) matches Some(fs) ==> chain_get(fs, name) == Some(v),
    decreases frames.len(),
{
    if frames.len() > 0 {
        let n = frames.len();
        let last = frames[n - 1];
        let p = frames.subrange(0, n - 1);
        lemma_lookup_at_last_index(last, name);
        law_get_after_assign(p, name, v);
        if last_index(last, name) is Some {
            law_get_after_define(frames, name, v);
        } else {
            if let Some(fs) = chain_assign(p, name, v) {
                let g = fs.push(last);
                assert(g.subrange(0, g.len() - 1) =~= fs);
            }
        }
    }
}

/// An assignment leaves what every other name reads unchanged.
pub proof fn law_assign_keeps_others(frames: Seq<Seq<(Seq<char>, ValueV)>>, name: Seq<char>, v: ValueV, other: Seq<char>)
    requires
        other != name,
    ensures
        chain_assign(frames, name, v) matches Some(fs) ==> chain_get(fs, other) == chain_get(frames, other),
    decreases frames.len(),
{
    if frames.len() > 0 {
        let n = frames.len();
        let last = frames[n - 1];
        let p = frames.subrange(0, n - 1);
        law_assign_keeps_others(p, name, v, other);
        if last_index(last, name) is Some {
            law_define_keeps_others(frames, name, v, other);
        } else {
            if let Some(fs) = chain_assign(p, name, v) {
                let g = fs.push(last);
                assert(g.subrange(0, g.len() - 1) =~= fs);
            }
        }
    }
}

} // verus!
