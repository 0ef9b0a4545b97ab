use vstd::prelude::*;
use vstd::string::*;

verus! {

/// One element of a search or replacement pattern.
#[derive(Clone, Copy, Debug, PartialEq, Eq, Structural)]
pub enum MatchToken {
    /// A byte that must appear as given.
    Literal(u8),
    /// A position that matches any byte.
    Wildcard,
}

/// A token of a pattern string that is neither two hex digits nor the wildcard marker.
#[derive(Clone, Debug, PartialEq, Eq)]
pub struct MalformedToken {
    /// Position of the token among the tokens of the string, from zero.
    pub index: usize,
    /// The token's text.
    pub token: String,
}

/// Characters that separate tokens: those with the Unicode `White_Space` property.
pub open spec fn whitespace(c: char) -> bool {
    let u = c as u32;
    (0x09 <= u && u <= 0x0d) || u == 0x20 || u == 0x85 || u == 0xa0 || u == 0x1680 || (0x2000
        <= u && u <= 0x200a) || u == 0x2028 || u == 0x2029 || u == 0x202f || u == 0x205f || u
        == 0x3000
}

/// Splits `s` into its whitespace-separated words; `cur` is the word read so far.
pub open spec fn words_from(s: Seq<char>, cur: Seq<char>) -> Seq<Seq<char>>
    decreases s.len(),
{
    if s.len() == 0 {
        if cur.len() == 0 {
            seq![]
        } else {
            seq![cur]
        }
    } else if whitespace(s[0]) {
        if cur.len() == 0 {
            words_from(s.drop_first(), seq![])
        } else {
            seq![cur] + words_from(s.drop_first(), seq![])
        }
    } else {
        words_from(s.drop_first(), cur.push(s[0]))
    }
}

/// The whitespace-separated words of `s`, in order.
pub open spec fn words(s: Seq<char>) -> Seq<Seq<char>> {
    words_from(s, seq![])
}

/// The value of one hexadecimal digit, in either case.
pub open spec fn hex_digit_value(c: char) -> Option<u8> {
    if '0' <= c && c <= '9' {
        Some((c as u32 - '0' as u32) as u8)
    } else if 'a' <= c && c <= 'f' {
        Some((c as u32 - 'a' as u32 + 10) as u8)
    } else if 'A' <= c && c <= 'F' {
        Some((c as u32 - 'A' as u32 + 10) as u8)
    } else {
        None
    }
}

/// The token that a word denotes: `??` is the wildcard, two hex digits a literal byte.
pub open spec fn token_of(w: Seq<char>) -> Option<MatchToken> {
    if w.len() != 2 {
        None
    } else if w[0] == '?' && w[1] == '?' {
        Some(MatchToken::Wildcard)
    } else if hex_digit_value(w[0]) is Some && hex_digit_value(w[1]) is Some {
        Some(
            MatchToken::Literal(
                (hex_digit_value(w[0])->0 as int * 16 + hex_digit_value(w[1])->0 as int) as u8,
            ),
        )
    } else {
        None
    }
}

/// Every word of `ws` denotes a token.
pub open spec fn all_well_formed(ws: Seq<Seq<char>>) -> bool {
    forall|k: int| 0 <= k < ws.len() ==> (#[trigger] token_of(ws[k])) is Some
}

/// The tokens that the well-formed words `ws` denote.
pub open spec fn tokens_of(ws: Seq<Seq<char>>) -> Seq<MatchToken> {
    ws.map_values(|w: Seq<char>| token_of(w)->0)
}

/// What parsing a pattern string yields: its tokens, or its first malformed word.
pub open spec fn parse_result(s: Seq<char>, r: Result<Vec<MatchToken>, MalformedToken>) -> bool {
    let ws = words(s);
    match r {
        Ok(v) => all_well_formed(ws) && v@ == tokens_of(ws),
        Err(e) => {
            &&& e.index < ws.len()
            &&& token_of(ws[e.index as int]) is None
            &&& all_well_formed(ws.take(e.index as int))
            &&& e.token@ == ws[e.index as int]
        },
    }
}

/// Whether `c` separates tokens.
pub fn is_whitespace(c: char) -> (r: bool)
    ensures
        r == whitespace(c),
{
    let u = c as u32;
    (0x09 <= u && u <= 0x0d) || u == 0x20 || u == 0x85 || u == 0xa0 || u == 0x1680 || (0x2000
        <= u && u <= 0x200a) || u == 0x2028 || u == 0x2029 || u == 0x202f || u == 0x205f || u
        == 0x3000
}

/// The value of the hexadecimal digit `c`, if it is one.
pub fn hex_digit(c: char) -> (r: Option<u8>)
    ensures
        r == hex_digit_value(c),
{
    if '0' <= c && c <= '9' {
        Some((c as u32 - '0' as u32) as u8)
    } else if 'a' <= c && c <= 'f' {
        Some((c as u32 - 'a' as u32 + 10) as u8)
    } else if 'A' <= c && c <= 'F' {
        Some((c as u32 - 'A' as u32 + 10) as u8)
    } else {
        None
    }
}

/// The token that the characters `start..end` of `s` denote, if any.
fn decode_word(s: &str, start: usize, end: usize) -> (r: Option<MatchToken>)
    requires
        start <= end <= s@.len(),
    ensures
        r == token_of(s@.subrange(start as int, end as int)),
{
    if end - start != 2 {
        return None;
    }
    let a = s.get_char(start);
    let b = s.get_char(start + 1);
    if a == '?' && b == '?' {
        return Some(MatchToken::Wildcard);
    }
    match (hex_digit(a), hex_digit(b)) {
        (Some(hi), Some(lo)) => {
            assert(hi < 16 && lo < 16);
            Some(MatchToken::Literal(hi * 16 + lo))
        },
        _ => None,
    }
}

/// Parses a pattern string: whitespace-separated tokens, each two hex digits (either case)
/// or the wildcard marker `??`. An empty or blank string gives no tokens.
pub fn parse_pattern(s: &str) -> (r: Result<Vec<MatchToken>, MalformedToken>)
    ensures
        parse_result(s@, r),
        r is Ok <==> all_well_formed(words(s@)),
{
    let n = s.unicode_len();
    let mut toks: Vec<MatchToken> = Vec::new();
    let mut start: usize = 0;
    let mut i: usize = 0;
    let ghost mut done: Seq<Seq<char>> = seq![];
    proof {
        assert(s@.skip(0) =~= s@);
        assert(s@.subrange(0, 0) =~= seq![]);
        assert(done + words_from(s@, seq![]) =~= words(s@));
    }
    while i < n
        invariant
            n == s@.len(),
            start <= i <= n,
            done + words_from(s@.skip(i as int), s@.subrange(start as int, i as int)) == words(
                s@,
            ),
            toks@ == tokens_of(done),
            all_well_formed(done),
        decreases n - i,
    {
        let c = s.get_char(i);
        let ghost rest = s@.skip(i as int);
        let ghost cur = s@.subrange(start as int, i as int);
        assert(rest.drop_first() =~= s@.skip(i + 1));
        if is_whitespace(c) {
            if start < i {
                let ghost w = cur;
                match decode_word(s, start, i) {
                    Some(t) => {
                        toks.push(t);
                        proof {
                            assert(tokens_of(done.push(w)) =~= tokens_of(done).push(t));
                            done = done.push(w);
                            assert(seq![w] + words_from(rest.drop_first(), seq![]) == words_from(
                                rest,
                                cur,
                            ));
                        }
                    },
                    None => {
                        let ghost pre = done;
                        proof {
                            assert(words(s@) == pre + (seq![w] + words_from(rest.drop_first(), seq![])));
                            assert(words(s@)[pre.len() as int] == w);
                            assert(words(s@).take(pre.len() as int) =~= pre);
                        }
                        return Err(MalformedToken { index: toks.len(), token: <String as StringExecFns>::from_str(s.substring_char(start, i)) });
                    },
                }
            }
            start = i + 1;
            proof {
                assert(s@.subrange(start as int, i + 1) =~= seq![]);
            }
        } else {
            assert(cur.push(c) =~= s@.subrange(start as int, i + 1));
        }
        i = i + 1;
    }
    proof {
        assert(s@.skip(n as int) =~= seq![]);
    }
    if start < n {
        let ghost w = s@.subrange(start as int, n as int);
        match decode_word(s, start, n) {
            Some(t) => {
                toks.push(t);
                proof {
                    assert(words(s@) =~= done + seq![w]);
                    assert(tokens_of(done.push(w)) =~= tokens_of(done).push(t));
                    done = done.push(w);
                    assert(done =~= words(s@));
                }
            },
            None => {
                let ghost pre = done;
                proof {
                    assert(words(s@) == pre + seq![w]);
                    assert(words(s@)[pre.len() as int] == w);
                    assert(words(s@).take(pre.len() as int) =~= pre);
                }
                return Err(MalformedToken { index: toks.len(), token: <String as StringExecFns>::from_str(s.substring_char(start, n)) });
            },
        }
    }
    proof {
        if start == n {
            assert(s@.subrange(n as int, n as int) =~= seq![]);
        }
        assert(done =~= words(s@));
    }
    Ok(toks)
}

} // verus!
