use vstd::prelude::*;
use crate::pattern::{
    all_well_formed, parse_pattern, parse_result, tokens_of, words, MalformedToken, MatchToken,
};

verus! {

/// Which of the two pattern strings an error is about.
#[derive(Clone, Copy, Debug, PartialEq, Eq, Structural)]
pub enum PatternRole {
    Search,
    Replace,
}

/// Why a patch could not be planned.
#[derive(Clone, Debug, PartialEq, Eq)]
pub enum PatchError {
    /// A token of a pattern string is neither two hex digits nor `??`.
    MalformedPattern { role: PatternRole, error: MalformedToken },
    /// A pattern string holds no token.
    EmptyPattern { role: PatternRole },
    /// The replacement has another number of tokens than the search pattern.
    LengthMismatch { search_len: usize, replace_len: usize },
    /// The replacement would run past the end of the buffer.
    ReplacementOutOfBounds { offset: usize, len: usize, buffer_len: usize },
}

/// A planned patch: where the search pattern first matched, and the patched buffer.
#[derive(Clone, Debug, PartialEq, Eq)]
pub struct Patch {
    pub offset: usize,
    pub bytes: Vec<u8>,
}

/// Whether token `t` accepts byte `b`.
pub open spec fn token_matches(t: MatchToken, b: u8) -> bool {
    match t {
        MatchToken::Literal(v) => v == b,
        MatchToken::Wildcard => true,
    }
}

/// Whether `pat` matches the window of `buf` that starts at `off`.
pub open spec fn matches_at(buf: Seq<u8>, pat: Seq<MatchToken>, off: int) -> bool {
    &&& 0 <= off
    &&& off + pat.len() <= buf.len()
    &&& forall|i: int| 0 <= i < pat.len() ==> token_matches(#[trigger] pat[i], buf[off + i])
}

/// `off` is the smallest offset at which `pat` matches `buf`.
pub open spec fn is_first_match(buf: Seq<u8>, pat: Seq<MatchToken>, off: int) -> bool {
    &&& matches_at(buf, pat, off)
    &&& forall|o: int| 0 <= o < off ==> !#[trigger] matches_at(buf, pat, o)
}

/// `pat` matches `buf` nowhere.
pub open spec fn no_match(buf: Seq<u8>, pat: Seq<MatchToken>) -> bool {
    forall|o: int| !#[trigger] matches_at(buf, pat, o)
}

/// What scanning `buf` for `pat` yields: the first match, or `None` where there is none.
pub open spec fn scan_result(buf: Seq<u8>, pat: Seq<MatchToken>, r: Option<usize>) -> bool {
    match r {
        Some(o) => is_first_match(buf, pat, o as int),
        None => no_match(buf, pat),
    }
}

/// The byte that replacement token `t` writes over `orig`: a literal writes its value, a
/// wildcard keeps the byte that was there.
pub open spec fn replaced_byte(t: MatchToken, orig: u8) -> u8 {
    match t {
        MatchToken::Literal(v) => v,
        MatchToken::Wildcard => orig,
    }
}

/// `buf` with the span that starts at `off` overwritten by `rep`.
pub open spec fn patched(buf: Seq<u8>, off: int, rep: Seq<MatchToken>) -> Seq<u8> {
    Seq::new(
        buf.len(),
        |i: int|
            if off <= i < off + rep.len() {
                replaced_byte(rep[i - off], buf[i])
            } else {
                buf[i]
            },
    )
}

/// What is wrong with the shape of the token sequences `s` and `rp`, if anything: both must
/// be non-empty and of one length.
pub open spec fn shape_error(s: Seq<MatchToken>, rp: Seq<MatchToken>) -> Option<PatchError> {
    if s.len() == 0 {
        Some(PatchError::EmptyPattern { role: PatternRole::Search })
    } else if rp.len() == 0 {
        Some(PatchError::EmptyPattern { role: PatternRole::Replace })
    } else if s.len() != rp.len() {
        Some(
            PatchError::LengthMismatch { search_len: s.len() as usize, replace_len: rp.len() as usize },
        )
    } else {
        None
    }
}

/// What planning a patch of `buf` yields for search tokens `s` and replacement tokens `rp`.
pub open spec fn plan_result(
    buf: Seq<u8>,
    s: Seq<MatchToken>,
    rp: Seq<MatchToken>,
    r: Result<Option<Patch>, PatchError>,
) -> bool {
    match shape_error(s, rp) {
        Some(e) => r == Err::<Option<Patch>, PatchError>(e),
        None => match r {
            Ok(Some(p)) => is_first_match(buf, s, p.offset as int) && p.bytes@ == patched(
                buf,
                p.offset as int,
                rp,
            ),
            Ok(None) => no_match(buf, s),
            Err(_) => false,
        },
    }
}

/// What preparing the pattern strings `s` and `rp` yields: both parse, in that order, and
/// their tokens have a valid shape.
pub open spec fn prepare_result(
    s: Seq<char>,
    rp: Seq<char>,
    r: Result<(Vec<MatchToken>, Vec<MatchToken>), PatchError>,
) -> bool {
    let ws = words(s);
    let wr = words(rp);
    if !all_well_formed(ws) {
        exists|e: MalformedToken|
            r == Err::<(Vec<MatchToken>, Vec<MatchToken>), PatchError>(
                PatchError::MalformedPattern { role: PatternRole::Search, error: e },
            ) && parse_result(s, Err(e))
    } else if !all_well_formed(wr) {
        exists|e: MalformedToken|
            r == Err::<(Vec<MatchToken>, Vec<MatchToken>), PatchError>(
                PatchError::MalformedPattern { role: PatternRole::Replace, error: e },
            ) && parse_result(rp, Err(e))
    } else {
        match shape_error(tokens_of(ws), tokens_of(wr)) {
            Some(e) => r == Err::<(Vec<MatchToken>, Vec<MatchToken>), PatchError>(e),
            None => match r {
                Ok((a, b)) => a@ == tokens_of(ws) && b@ == tokens_of(wr),
                Err(_) => false,
            },
        }
    }
}

/// Whether `search` matches the window of `buffer` that starts at `off`.
fn window_matches(buffer: &[u8], search: &[MatchToken], off: usize) -> (r: bool)
    requires
        off + search@.len() <= buffer@.len(),
    ensures
        r == matches_at(buffer@, search@, off as int),
{
    let blen = buffer.len();
    let mut i: usize = 0;
    while i < search.len()
        invariant
            blen == buffer@.len(),
            off + search@.len() <= buffer@.len(),
            i <= search@.len(),
            forall|j: int| 0 <= j < i ==> token_matches(#[trigger] search@[j], buffer@[off + j]),
        decreases search@.len() - i,
    {
        let ok = match search[i] {
            MatchToken::Literal(v) => v == buffer[off + i],
            MatchToken::Wildcard => true,
        };
        if !ok {
            return false;
        }
        i = i + 1;
    }
    true
}

/// The smallest offset at which `search` matches `buffer`, or `None` where it matches nowhere
/// (as when it is longer than the buffer). An empty pattern is the caller's to reject.
pub fn scan(buffer: &[u8], search: &[MatchToken]) -> (r: Option<usize>)
    requires
        search@.len() > 0,
    ensures
        scan_result(buffer@, search@, r),
{
    if search.len() > buffer.len() {
        return None;
    }
    let last = buffer.len() - search.len();
    let mut off: usize = 0;
    while off <= last
        invariant
            search@.len() > 0,
            last < buffer@.len() <= usize::MAX,
            last == buffer@.len() - search@.len(),
            forall|o: int| 0 <= o < off ==> !#[trigger] matches_at(buffer@, search@, o),
        decreases last + 1 - off,
    {
        if window_matches(buffer, search, off) {
            return Some(off);
        }
        off = off + 1;
    }
    assert forall|o: int| !#[trigger] matches_at(buffer@, search@, o) by {
        if 0 <= o < off {
        }
    }
    None
}

/// Overwrites the span of `buffer` that starts at `offset` with `replace` and returns the
/// result; a wildcard in `replace` keeps the byte that was there. Fails where the span would
/// run past the end of the buffer.
pub fn apply(buffer: &[u8], offset: usize, replace: &[MatchToken]) -> (r: Result<
    Vec<u8>,
    PatchError,
>)
    ensures
        match r {
            Ok(v) => offset + replace@.len() <= buffer@.len() && v@ == patched(
                buffer@,
                offset as int,
                replace@,
            ),
            Err(e) => offset + replace@.len() > buffer@.len() && e
                == PatchError::ReplacementOutOfBounds {
                offset,
                len: replace@.len() as usize,
                buffer_len: buffer@.len() as usize,
            },
        },
{
    if offset > buffer.len() || replace.len() > buffer.len() - offset {
        return Err(
            PatchError::ReplacementOutOfBounds {
                offset,
                len: replace.len(),
                buffer_len: buffer.len(),
            },
        );
    }
    let end = offset + replace.len();
    let mut out: Vec<u8> = Vec::new();
    let mut i: usize = 0;
    while i < buffer.len()
        invariant
            end == offset + replace@.len(),
            end <= buffer@.len(),
            i <= buffer@.len(),
            out@ =~= patched(buffer@, offset as int, replace@).take(i as int),
        decreases buffer@.len() - i,
    {
        let b = if offset <= i && i < end {
            match replace[i - offset] {
                MatchToken::Literal(v) => v,
                MatchToken::Wildcard => buffer[i],
            }
        } else {
            buffer[i]
        };
        out.push(b);
        i = i + 1;
    }
    Ok(out)
}

/// Finds the first match of `search` in `buffer` and returns the offset with the patched
/// buffer, or `None` where there is no match. Both patterns must be non-empty and of one
/// length.
pub fn plan_patch(buffer: &[u8], search: &[MatchToken], replace: &[MatchToken]) -> (r: Result<
    Option<Patch>,
    PatchError,
>)
    ensures
        plan_result(buffer@, search@, replace@, r),
{
    if search.len() == 0 {
        return Err(PatchError::EmptyPattern { role: PatternRole::Search });
    }
    if replace.len() == 0 {
        return Err(PatchError::EmptyPattern { role: PatternRole::Replace });
    }
    if search.len() != replace.len() {
        return Err(
            PatchError::LengthMismatch { search_len: search.len(), replace_len: replace.len() },
        );
    }
    match scan(buffer, search) {
        None => Ok(None),
        Some(offset) => match apply(buffer, offset, replace) {
            Ok(bytes) => Ok(Some(Patch { offset, bytes })),
            Err(e) => Err(e),
        },
    }
}

/// Parses the search and replacement pattern strings and checks that they are non-empty and
/// of one length. Nothing else is touched when this fails.
pub fn prepare_patterns(search_text: &str, replace_text: &str) -> (r: Result<
    (Vec<MatchToken>, Vec<MatchToken>),
    PatchError,
>)
    ensures
        prepare_result(search_text@, replace_text@, r),
        r matches Ok((a, b)) ==> a@.len() > 0 && a@.len() == b@.len(),
{
    let search = match parse_pattern(search_text) {
        Ok(t) => t,
        Err(error) => {
            return Err(PatchError::MalformedPattern { role: PatternRole::Search, error });
        },
    };
    let replace = match parse_pattern(replace_text) {
        Ok(t) => t,
        Err(error) => {
            return Err(PatchError::MalformedPattern { role: PatternRole::Replace, error });
        },
    };
    if search.len() == 0 {
        return Err(PatchError::EmptyPattern { role: PatternRole::Search });
    }
    if replace.len() == 0 {
        return Err(PatchError::EmptyPattern { role: PatternRole::Replace });
    }
    if search.len() != replace.len() {
        return Err(
            PatchError::LengthMismatch { search_len: search.len(), replace_len: replace.len() },
        );
    }
    Ok((search, replace))
}

/// Parses both pattern strings and plans the patch of `buffer`: the first match of the search
/// pattern, overwritten by the replacement.
pub fn patch_buffer(buffer: &[u8], search_text: &str, replace_text: &str) -> (r: Result<
    Option<Patch>,
    PatchError,
>)
    ensures
        all_well_formed(words(search_text@)) && all_well_formed(words(replace_text@))
            ==> plan_result(
            buffer@,
            tokens_of(words(search_text@)),
            tokens_of(words(replace_text@)),
            r,
        ),
        !all_well_formed(words(search_text@)) ==> exists|e: MalformedToken|
            r == Err::<Option<Patch>, PatchError>(
                PatchError::MalformedPattern { role: PatternRole::Search, error: e },
            ) && parse_result(search_text@, Err(e)),
        all_well_formed(words(search_text@)) && !all_well_formed(words(replace_text@))
            ==> exists|e: MalformedToken|
            r == Err::<Option<Patch>, PatchError>(
                PatchError::MalformedPattern { role: PatternRole::Replace, error: e },
            ) && parse_result(replace_text@, Err(e)),
{
    match prepare_patterns(search_text, replace_text) {
        Ok((search, replace)) => plan_patch(buffer, search.as_slice(), replace.as_slice()),
        Err(e) => Err(e),
    }
}

/// A pattern of wildcards alone matches at offset zero of every buffer at least as long.
pub proof fn lemma_wildcards_match_at_start(buf: Seq<u8>, pat: Seq<MatchToken>, r: Option<usize>)
    requires
        pat.len() > 0,
        forall|i: int| 0 <= i < pat.len() ==> #[trigger] pat[i] == MatchToken::Wildcard,
        buf.len() >= pat.len(),
        scan_result(buf, pat, r),
    ensures
        r == Some(0usize),
{
    assert(matches_at(buf, pat, 0));
}

/// A pattern of literals that occurs in the buffer at exactly one offset is found there.
pub proof fn lemma_single_occurrence_found(
    buf: Seq<u8>,
    pat: Seq<MatchToken>,
    pos: int,
    r: Option<usize>,
)
    requires
        pat.len() > 0,
        forall|i: int| 0 <= i < pat.len() ==> (#[trigger] pat[i]) is Literal,
        matches_at(buf, pat, pos),
        forall|o: int| #[trigger] matches_at(buf, pat, o) ==> o == pos,
        scan_result(buf, pat, r),
    ensures
        r == Some(pos as usize),
{
    assert(matches_at(buf, pat, pos));
}

/// Scanning yields the smallest of all offsets at which the pattern matches.
pub proof fn lemma_scan_finds_earliest(buf: Seq<u8>, pat: Seq<MatchToken>, o: int, r: Option<usize>)
    requires
        matches_at(buf, pat, o),
        scan_result(buf, pat, r),
    ensures
        r is Some,
        r->0 <= o,
{
    assert(matches_at(buf, pat, o));
}

/// After a replacement of literals is applied at `off`, it matches the patched buffer at
/// `off`, so a new scan for it stops at `off` or earlier.
pub proof fn lemma_replacement_found_again(
    buf: Seq<u8>,
    off: int,
    rep: Seq<MatchToken>,
    r: Option<usize>,
)
    requires
        forall|i: int| 0 <= i < rep.len() ==> (#[trigger] rep[i]) is Literal,
        0 <= off,
        off + rep.len() <= buf.len(),
        scan_result(patched(buf, off, rep), rep, r),
    ensures
        matches_at(patched(buf, off, rep), rep, off),
        r is Some,
        r->0 <= off,
{
    let p = patched(buf, off, rep);
    assert forall|i: int| 0 <= i < rep.len() implies token_matches(#[trigger] rep[i], p[off + i]) by {
        assert(rep[i] is Literal);
    }
    assert(matches_at(p, rep, off));
}

} // verus!
