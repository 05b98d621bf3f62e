//! Argument normalization: `--flag=value` becomes `--flag`, `value`.

use vstd::prelude::*;
use vstd::utf8::{encode_utf8, encode_utf8_decode_utf8};

verus! {

/// A token is a string seen as its sequence of characters.
pub type Token = Seq<char>;

/// `i` is the position of the first `=` of `token`.
pub open spec fn is_first_eq(token: Token, i: int) -> bool {
    &&& 0 <= i < token.len()
    &&& token[i] == '='
    &&& forall|j: int| 0 <= j < i ==> token[j] != '='
}

/// The position of the first `=` of a token that holds one.
pub open spec fn first_eq(token: Token) -> int {
    choose|i: int| is_first_eq(token, i)
}

/// A token is split when it begins with `-` and holds a `=`.
pub open spec fn is_assignment(token: Token) -> bool {
    token.len() > 0 && token[0] == '-' && token.contains('=')
}

/// What one raw token becomes: a flag and its value, cut at the first `=`,
/// or the token itself.
pub open spec fn normalize_token(token: Token) -> Seq<Token> {
    if is_assignment(token) {
        seq![
            token.subrange(0, first_eq(token)),
            token.subrange(first_eq(token) + 1, token.len() as int),
        ]
    } else {
        seq![token]
    }
}

/// The normalized form of a raw argument sequence: what each token becomes,
/// in order.
pub open spec fn normalize(raw: Seq<Token>) -> Seq<Token>
    decreases raw.len(),
{
    if raw.len() == 0 {
        Seq::empty()
    } else {
        normalize(raw.drop_last()) + normalize_token(raw.last())
    }
}

/// `-h` and `--help` ask for help.
pub open spec fn is_help_flag(token: Token) -> bool {
    token == "-h"@ || token == "--help"@
}

/// Some token of the sequence asks for help.
pub open spec fn contains_help(tokens: Seq<Token>) -> bool {
    exists|i: int| 0 <= i < tokens.len() && is_help_flag(#[trigger] tokens[i])
}

/// A token has at most one first `=`.
pub proof fn lemma_first_eq_unique(token: Token, i: int)
    requires
        is_first_eq(token, i),
    ensures
        first_eq(token) == i,
        token.contains('='),
{
    let k = first_eq(token);
    assert(is_first_eq(token, k));
    if k < i {
        assert(token[k] != '=');
    } else if i < k {
        assert(token[i] != '=');
    }
}

/// A token that holds a `=` has a first one.
pub proof fn lemma_first_eq_exists(token: Token)
    requires
        token.contains('='),
    ensures
        is_first_eq(token, first_eq(token)),
{
    let k = choose|k: int| 0 <= k < token.len() && token[k] == '=';
    lemma_least_eq(token, k);
}

proof fn lemma_least_eq(token: Token, k: int)
    requires
        0 <= k < token.len(),
        token[k] == '=',
    ensures
        exists|i: int| is_first_eq(token, i),
    decreases k,
{
    if exists|j: int| 0 <= j < k && token[j] == '=' {
        let j = choose|j: int| 0 <= j < k && token[j] == '=';
        lemma_least_eq(token, j);
    } else {
        assert(is_first_eq(token, k));
    }
}

/// A string has at most as many characters as its UTF-8 encoding has bytes.
pub proof fn lemma_chars_within_bytes(chars: Seq<char>)
    ensures
        chars.len() <= encode_utf8(chars).len(),
    decreases chars.len(),
{
    if chars.len() > 0 {
        lemma_chars_within_bytes(chars.drop_first());
    }
}

/// The position at which a token is to be cut, if it is split at all.
pub fn split_point(token: &str) -> (at: Option<usize>)
    ensures
        at is Some <==> is_assignment(token@),
        at matches Some(i) ==> i as int == first_eq(token@),
{
    let bytes = token.as_bytes().len();
    proof {
        lemma_chars_within_bytes(token@);
    }
    let mut i: usize = 0;
    for c in it: token.chars()
        invariant
            i == it.index(),
            it.seq() == token@,
            token@.len() <= bytes,
            i > 0 ==> token@[0] == '-',
            forall|j: int| 0 <= j < i ==> token@[j] != '=',
    {
        if i == 0 {
            if c != '-' {
                return None;
            }
        } else if c == '=' {
            proof {
                lemma_first_eq_unique(token@, i as int);
            }
            return Some(i);
        }
        i = i + 1;
    }
    None
}

/// Rewrites raw arguments into normalized ones: every token that begins with
/// `-` and holds a `=` is replaced by the part before its first `=` and the
/// part after it; every other token stays as it is.
pub fn normalized_args(raw_args: Vec<String>) -> (args: Vec<String>)
    ensures
        args.deep_view() == normalize(raw_args.deep_view()),
{
    let mut args: Vec<String> = Vec::new();
    let mut i: usize = 0;
    while i < raw_args.len()
        invariant
            i <= raw_args.len(),
            args.deep_view() == normalize(raw_args.deep_view().take(i as int)),
        decreases raw_args.len() - i,
    {
        let ghost before = args.deep_view();
        let token = raw_args[i].as_str();
        match split_point(token) {
            Some(at) => {
                let n = token.unicode_len();
                proof {
                    lemma_first_eq_exists(token@);
                }
                args.push(token.substring_char(0, at).to_owned());
                args.push(token.substring_char(at + 1, n).to_owned());
                assert(args.deep_view() =~= before + normalize_token(token@));
            },
            None => {
                args.push(token.to_owned());
                assert(args.deep_view() =~= before + normalize_token(token@));
            },
        }
        proof {
            let raw = raw_args.deep_view();
            assert(raw.take(i + 1).drop_last() =~= raw.take(i as int));
            assert(raw.take(i + 1).last() == token@);
        }
        i = i + 1;
    }
    assert(raw_args.deep_view().take(i as int) =~= raw_args.deep_view());
    args
}

/// Two strings with the same bytes of UTF-8 have the same characters.
pub proof fn lemma_same_bytes_same_chars(a: Seq<char>, b: Seq<char>)
    requires
        encode_utf8(a) == encode_utf8(b),
    ensures
        a == b,
{
    encode_utf8_decode_utf8(a);
    encode_utf8_decode_utf8(b);
}

/// Whether two tokens are the same, character by character.
pub fn same_token(a: &str, b: &str) -> (same: bool)
    ensures
        same == (a@ == b@),
{
    let x = a.as_bytes();
    let y = b.as_bytes();
    if x.len() != y.len() {
        return false;
    }
    let mut i: usize = 0;
    while i < x.len()
        invariant
            i <= x.len(),
            x.len() == y.len(),
            x@ == encode_utf8(a@),
            y@ == encode_utf8(b@),
            forall|j: int| 0 <= j < i ==> x@[j] == y@[j],
        decreases x.len() - i,
    {
        if x[i] != y[i] {
            return false;
        }
        i = i + 1;
    }
    proof {
        assert(x@ =~= y@);
        lemma_same_bytes_same_chars(a@, b@);
    }
    true
}

/// Whether some argument is `-h` or `--help`.
pub fn has_help_flag(args: &Vec<String>) -> (found: bool)
    ensures
        found == contains_help(args.deep_view()),
{
    let mut i: usize = 0;
    while i < args.len()
        invariant
            i <= args.len(),
            forall|j: int| 0 <= j < i ==> !is_help_flag(#[trigger] args.deep_view()[j]),
        decreases args.len() - i,
    {
        let token = args[i].as_str();
        if same_token(token, "-h") || same_token(token, "--help") {
            assert(is_help_flag(args.deep_view()[i as int]));
            return true;
        }
        i = i + 1;
    }
    false
}

/// The number of tokens that normalization splits.
pub open spec fn assignments(raw: Seq<Token>) -> nat
    decreases raw.len(),
{
    if raw.len() == 0 {
        0
    } else {
        assignments(raw.drop_last()) + if is_assignment(raw.last()) {
            1nat
        } else {
            0nat
        }
    }
}

/// A split token yields two tokens: the first begins with `-` and holds no
/// `=`, and the two joined by `=` give the token back.
pub proof fn lemma_split_rejoins(token: Token)
    requires
        is_assignment(token),
    ensures
        normalize_token(token).len() == 2,
        normalize_token(token)[0] + seq!['='] + normalize_token(token)[1] == token,
        normalize_token(token)[0].len() > 0,
        normalize_token(token)[0][0] == '-',
        !normalize_token(token)[0].contains('='),
{
    lemma_first_eq_exists(token);
    let parts = normalize_token(token);
    assert(parts[0] + seq!['='] + parts[1] =~= token);
}

/// A token that does not begin with `-`, or holds no `=`, stays as it is.
pub proof fn lemma_plain_token_unchanged(token: Token)
    requires
        token.len() == 0 || token[0] != '-' || !token.contains('='),
    ensures
        normalize_token(token) == seq![token],
{
}

/// Normalization goes token by token: the normalized form of two sequences
/// put together is their normalized forms put together.
pub proof fn lemma_normalize_concat(front: Seq<Token>, back: Seq<Token>)
    ensures
        normalize(front + back) == normalize(front) + normalize(back),
    decreases back.len(),
{
    if back.len() == 0 {
        assert(front + back =~= front);
        assert(normalize(front) + normalize(back) =~= normalize(front));
    } else {
        lemma_normalize_concat(front, back.drop_last());
        assert((front + back).drop_last() =~= front + back.drop_last());
        assert((front + back).last() == back.last());
        assert(normalize(front + back) =~= normalize(front) + normalize(back));
    }
}

/// A sequence of one token normalizes to what that token becomes.
pub proof fn lemma_normalize_single(token: Token)
    ensures
        normalize(seq![token]) == normalize_token(token),
{
    assert(seq![token].drop_last() =~= Seq::<Token>::empty());
    assert(normalize(seq![token].drop_last()) =~= Seq::<Token>::empty());
    assert(normalize(seq![token]) =~= normalize_token(token));
}

/// Normalization adds exactly one token for each token that it splits.
pub proof fn lemma_normalize_len(raw: Seq<Token>)
    ensures
        normalize(raw).len() == raw.len() + assignments(raw),
    decreases raw.len(),
{
    if raw.len() > 0 {
        lemma_normalize_len(raw.drop_last());
    }
}

/// Where no token is split, normalization changes nothing.
pub proof fn lemma_normalize_plain(raw: Seq<Token>)
    requires
        forall|i: int| 0 <= i < raw.len() ==> !is_assignment(#[trigger] raw[i]),
    ensures
        normalize(raw) == raw,
    decreases raw.len(),
{
    if raw.len() > 0 {
        lemma_normalize_plain(raw.drop_last());
        assert(normalize(raw) =~= raw);
    }
}

/// A token that is not split is still there after normalization, and the
/// tokens before it come before it.
pub proof fn lemma_normalize_keeps(raw: Seq<Token>, i: int)
    requires
        0 <= i < raw.len(),
        !is_assignment(raw[i]),
    ensures
        normalize(raw) == normalize(raw.take(i)) + seq![raw[i]] + normalize(raw.skip(i + 1)),
        normalize(raw)[normalize(raw.take(i)).len() as int] == raw[i],
{
    assert(raw =~= raw.take(i) + seq![raw[i]] + raw.skip(i + 1));
    lemma_normalize_concat(raw.take(i) + seq![raw[i]], raw.skip(i + 1));
    lemma_normalize_concat(raw.take(i), seq![raw[i]]);
    lemma_normalize_single(raw[i]);
}

/// Neither help flag is split, so one among the raw arguments is among the
/// normalized ones.
pub proof fn lemma_normalize_keeps_help(raw: Seq<Token>)
    requires
        contains_help(raw),
    ensures
        contains_help(normalize(raw)),
{
    let i = choose|i: int| 0 <= i < raw.len() && is_help_flag(#[trigger] raw[i]);
    lemma_help_flag_plain(raw[i]);
    lemma_normalize_keeps(raw, i);
    let at = normalize(raw.take(i)).len() as int;
    assert(is_help_flag(normalize(raw)[at]));
}

/// A help flag holds no `=`.
pub proof fn lemma_help_flag_plain(token: Token)
    requires
        is_help_flag(token),
    ensures
        !token.contains('='),
        !is_assignment(token),
{
    reveal_strlit("-h");
    reveal_strlit("--help");
}

} // verus!
