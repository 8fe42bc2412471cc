//! The tokenizer: raw arguments become classified tokens, one for one.

use crate::text::{chars_of, first_index_from, first_index_of, string_views};
use vstd::prelude::*;
use vstd::string::*;

verus! {

/// One classified raw argument.
#[derive(Debug)]
pub enum Token {
    Short(String),
    Long(String),
    LongWithValue(String, String),
    EndOfOptions,
    Word(String),
}

/// The mathematical value of a [`Token`].
pub enum TokenView {
    Short(Seq<char>),
    Long(Seq<char>),
    LongWithValue(Seq<char>, Seq<char>),
    EndOfOptions,
    Word(Seq<char>),
}

impl View for Token {
    type V = TokenView;

    open spec fn view(&self) -> TokenView {
        match self {
            Token::Short(n) => TokenView::Short(n@),
            Token::Long(n) => TokenView::Long(n@),
            Token::LongWithValue(n, v) => TokenView::LongWithValue(n@, v@),
            Token::EndOfOptions => TokenView::EndOfOptions,
            Token::Word(w) => TokenView::Word(w@),
        }
    }
}

/// The values of a sequence of tokens.
pub open spec fn token_views(s: Seq<Token>) -> Seq<TokenView> {
    s.map_values(|t: Token| t@)
}

/// The end-of-options marker, `--`.
pub open spec fn end_marker() -> Seq<char> {
    seq!['-', '-']
}

/// How one raw argument is classified while options are still recognised.
pub open spec fn classify(arg: Seq<char>) -> TokenView {
    if arg == end_marker() {
        TokenView::EndOfOptions
    } else if arg.len() >= 2 && arg[0] == '-' && arg[1] == '-' {
        let rest = arg.skip(2);
        match first_index_of(rest, '=') {
            Some(k) => TokenView::LongWithValue(rest.take(k), rest.skip(k + 1)),
            None => TokenView::Long(rest),
        }
    } else if arg.len() >= 1 && arg[0] == '-' {
        TokenView::Short(arg.skip(1))
    } else {
        TokenView::Word(arg)
    }
}

/// Whether an end-of-options marker stands before position `i`.
pub open spec fn options_ended(args: Seq<Seq<char>>, i: int) -> bool {
    exists|j: int| 0 <= j < i && j < args.len() && #[trigger] args[j] == end_marker()
}

/// The token that the raw argument at position `i` becomes.
pub open spec fn token_at(args: Seq<Seq<char>>, i: int) -> TokenView {
    if options_ended(args, i) {
        TokenView::Word(args[i])
    } else {
        classify(args[i])
    }
}

/// The token sequence of a raw argument list: one token per argument, in order.
pub open spec fn tokenize_spec(args: Seq<Seq<char>>) -> Seq<TokenView> {
    Seq::new(args.len(), |i: int| token_at(args, i))
}

/// Classifies one raw argument while options are still recognised.
pub fn classify_arg(arg: &str) -> (t: Token)
    ensures
        t@ == classify(arg@),
{
    let chars = chars_of(arg);
    let n = chars.len();
    if n >= 2 && chars[0] == '-' && chars[1] == '-' {
        if n == 2 {
            assert(arg@ =~= end_marker());
            return Token::EndOfOptions;
        }
        let ghost rest = arg@.skip(2);
        let mut k: usize = 2;
        while k < n && chars[k] != '='
            invariant
                2 <= k <= n,
                n == chars@.len(),
                chars@ == arg@,
                rest == arg@.skip(2),
                first_index_of(rest, '=') == first_index_from(rest, '=', k - 2),
            decreases n - k,
        {
            assert(rest[k - 2] == chars@[k as int]);
            k += 1;
        }
        if k < n {
            assert(rest[k - 2] == chars@[k as int]);
            let key = arg.substring_char(2, k).to_owned();
            let value = arg.substring_char(k + 1, n).to_owned();
            assert(key@ =~= rest.take(k - 2));
            assert(value@ =~= rest.skip(k - 2 + 1));
            Token::LongWithValue(key, value)
        } else {
            let name = arg.substring_char(2, n).to_owned();
            assert(name@ =~= rest);
            Token::Long(name)
        }
    } else if n >= 1 && chars[0] == '-' {
        let name = arg.substring_char(1, n).to_owned();
        assert(name@ =~= arg@.skip(1));
        Token::Short(name)
    } else {
        Token::Word(arg.to_owned())
    }
}

/// Turns raw arguments into tokens, one for one and in order. After the
/// first `--` every argument is taken literally as a word.
pub fn tokenize(args: &[String]) -> (tokens: Vec<Token>)
    ensures
        tokens@.len() == args@.len(),
        token_views(tokens@) == tokenize_spec(string_views(args@)),
{
    let ghost raw = string_views(args@);
    let mut out: Vec<Token> = Vec::new();
    let mut everything_is_positional = false;
    let mut i: usize = 0;
    while i < args.len()
        invariant
            i <= args@.len(),
            raw == string_views(args@),
            out@.len() == i,
            everything_is_positional == options_ended(raw, i as int),
            forall|j: int| 0 <= j < i ==> (#[trigger] out@[j])@ == token_at(raw, j),
        decreases args@.len() - i,
    {
        let arg = args[i].as_str();
        assert(arg@ == raw[i as int]);
        if everything_is_positional {
            out.push(Token::Word(arg.to_owned()));
        } else {
            let token = classify_arg(arg);
            if let Token::EndOfOptions = token {
                everything_is_positional = true;
            }
            out.push(token);
        }
        proof {
            if options_ended(raw, i as int) {
                let j = choose|j: int|
                    0 <= j < i && j < raw.len() && #[trigger] raw[j] == end_marker();
                assert(0 <= j < i + 1 && raw[j] == end_marker());
            } else if raw[i as int] == end_marker() {
                assert(options_ended(raw, i + 1));
            } else {
                assert(classify(raw[i as int]) != TokenView::EndOfOptions);
                if options_ended(raw, i + 1) {
                    let j = choose|j: int|
                        0 <= j < i + 1 && j < raw.len() && #[trigger] raw[j] == end_marker();
                    assert(j == i);
                }
            }
        }
        i += 1;
    }
    assert(token_views(out@) =~= tokenize_spec(raw));
    out
}

} // verus!
