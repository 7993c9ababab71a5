//! The pattern scanner: finds `kw\s+(\w+)` matches in a byte text.
//!
//! The spec-level model works on `Seq<u8>`.  A match at position `i`
//! consists of the literal keyword, a non-empty run of whitespace
//! bytes, and a non-empty run of word bytes; the word run is the
//! captured name.  A global search collects the captures left to
//! right, restarting after the end of each match, exactly as a regex
//! engine running `/kw\s+(\w+)/g` does.

use vstd::prelude::*;

verus! {

/// A byte of the word class `\w`: an ASCII letter (97..=122 and
/// 65..=90), a digit (48..=57), or an underscore (95).
pub open spec fn is_word_byte(b: u8) -> bool {
    (97 <= b && b <= 122) || (65 <= b && b <= 90) || (48 <= b && b <= 57) || b == 95
}

/// A byte of the whitespace class `\s`: tab through carriage return
/// (9..=13: tab, line feed, vertical tab, form feed, carriage
/// return) or space (32).
pub open spec fn is_space_byte(b: u8) -> bool {
    (9 <= b && b <= 13) || b == 32
}

/// The end of the run of whitespace bytes that starts at `i`: the
/// least position at or after `i` that is past the text or holds a
/// non-whitespace byte.
pub open spec fn space_run_end(s: Seq<u8>, i: int) -> int
    decreases s.len() - i,
{
    if 0 <= i && i < s.len() && is_space_byte(s[i]) {
        space_run_end(s, i + 1)
    } else {
        i
    }
}

/// The end of the run of word bytes that starts at `i`.
pub open spec fn word_run_end(s: Seq<u8>, i: int) -> int
    decreases s.len() - i,
{
    if 0 <= i && i < s.len() && is_word_byte(s[i]) {
        word_run_end(s, i + 1)
    } else {
        i
    }
}

/// The literal keyword `kw` occupies `s[i .. i + kw.len()]`.
pub open spec fn kw_at(s: Seq<u8>, kw: Seq<u8>, i: int) -> bool {
    0 <= i && i + kw.len() <= s.len() && s.subrange(i, i + kw.len() as int) == kw
}

/// A full match of `kw\s+(\w+)` starts at `i`: the keyword, at least
/// one whitespace byte, then at least one word byte.
pub open spec fn match_at(s: Seq<u8>, kw: Seq<u8>, i: int) -> bool {
    let p = i + kw.len() as int;
    let q = space_run_end(s, p);
    kw_at(s, kw, i) && p < s.len() && is_space_byte(s[p]) && q < s.len() && is_word_byte(s[q])
}

/// The name a match starting at `i` captures: the maximal word run
/// after the whitespace.
pub open spec fn capture_at(s: Seq<u8>, kw: Seq<u8>, i: int) -> Seq<u8> {
    let q = space_run_end(s, i + kw.len() as int);
    s.subrange(q, word_run_end(s, q))
}

/// The position just past a match starting at `i`; a global search
/// resumes there.
pub open spec fn match_end_at(s: Seq<u8>, kw: Seq<u8>, i: int) -> int {
    word_run_end(s, space_run_end(s, i + kw.len() as int))
}

/// The captures of the global search over `s[i..]`: at each position,
/// either a match starts and its capture is taken, the search resuming
/// past the match, or the search moves one byte right.  The bound on
/// `e` only discharges termination; a match never ends at or before
/// its start (`lemma_match_end_at`).
pub open spec fn captures_from(s: Seq<u8>, kw: Seq<u8>, i: int) -> Seq<Seq<u8>>
    decreases s.len() - i,
{
    if !(0 <= i && i < s.len()) {
        Seq::empty()
    } else if match_at(s, kw, i) {
        let e = match_end_at(s, kw, i);
        let nxt = if i < e && e <= s.len() { e } else { i + 1 };
        seq![capture_at(s, kw, i)] + captures_from(s, kw, nxt)
    } else {
        captures_from(s, kw, i + 1)
    }
}

/// All names that `/kw\s+(\w+)/g` captures in `s`, leftmost first.
pub open spec fn captures(s: Seq<u8>, kw: Seq<u8>) -> Seq<Seq<u8>> {
    captures_from(s, kw, 0)
}

/// A match is never empty and never runs past the text: its end lies
/// strictly between its start and the text's end.
pub proof fn lemma_match_end_at(s: Seq<u8>, kw: Seq<u8>, i: int)
    requires
        match_at(s, kw, i),
    ensures
        i < match_end_at(s, kw, i) <= s.len(),
        captures_from(s, kw, i) == seq![capture_at(s, kw, i)] + captures_from(
            s,
            kw,
            match_end_at(s, kw, i),
        ),
{
    let p = i + kw.len() as int;
    let q = space_run_end(s, p);
    lemma_space_run_end(s, p);
    lemma_word_run_end(s, q);
    assert(word_run_end(s, q) == word_run_end(s, q + 1));
}

pub proof fn lemma_space_run_end(s: Seq<u8>, i: int)
    requires
        0 <= i <= s.len(),
    ensures
        i <= space_run_end(s, i) <= s.len(),
        forall|k: int| i <= k < space_run_end(s, i) ==> is_space_byte(s[k]),
        space_run_end(s, i) < s.len() ==> !is_space_byte(s[space_run_end(s, i)]),
    decreases s.len() - i,
{
    if i < s.len() && is_space_byte(s[i]) {
        lemma_space_run_end(s, i + 1);
    }
}

pub proof fn lemma_word_run_end(s: Seq<u8>, i: int)
    requires
        0 <= i <= s.len(),
    ensures
        i <= word_run_end(s, i) <= s.len(),
        forall|k: int| i <= k < word_run_end(s, i) ==> is_word_byte(s[k]),
        word_run_end(s, i) < s.len() ==> !is_word_byte(s[word_run_end(s, i)]),
    decreases s.len() - i,
{
    if i < s.len() && is_word_byte(s[i]) {
        lemma_word_run_end(s, i + 1);
    }
}

fn is_word_byte_exec(b: u8) -> (r: bool)
    ensures
        r == is_word_byte(b),
{
    (97 <= b && b <= 122) || (65 <= b && b <= 90) || (48 <= b && b <= 57) || b == 95
}

fn is_space_byte_exec(b: u8) -> (r: bool)
    ensures
        r == is_space_byte(b),
{
    (9 <= b && b <= 13) || b == 32
}

fn space_end_exec(s: &[u8], i: usize) -> (r: usize)
    requires
        i <= s@.len(),
    ensures
        r == space_run_end(s@, i as int),
        i <= r <= s@.len(),
{
    let mut j: usize = i;
    while j < s.len() && is_space_byte_exec(s[j])
        invariant
            i <= j <= s@.len(),
            space_run_end(s@, i as int) == space_run_end(s@, j as int),
        decreases s@.len() - j,
    {
        j = j + 1;
    }
    proof {
        lemma_space_run_end(s@, j as int);
    }
    j
}

fn word_end_exec(s: &[u8], i: usize) -> (r: usize)
    requires
        i <= s@.len(),
    ensures
        r == word_run_end(s@, i as int),
        i <= r <= s@.len(),
{
    let mut j: usize = i;
    while j < s.len() && is_word_byte_exec(s[j])
        invariant
            i <= j <= s@.len(),
            word_run_end(s@, i as int) == word_run_end(s@, j as int),
        decreases s@.len() - j,
    {
        j = j + 1;
    }
    proof {
        lemma_word_run_end(s@, j as int);
    }
    j
}

/// Whether the keyword occupies `s[i .. i + kw.len()]`.
fn kw_at_exec(s: &[u8], kw: &[u8], i: usize) -> (r: bool)
    requires
        i <= s@.len(),
    ensures
        r == kw_at(s@, kw@, i as int),
{
    let n: usize = s.len();
    if n - i < kw.len() {
        return false;
    }
    let mut j: usize = 0;
    while j < kw.len()
        invariant
            0 <= j <= kw@.len(),
            n == s@.len(),
            i + kw@.len() <= n,
            forall|k: int| 0 <= k < j ==> s@[i + k] == kw@[k],
        decreases kw@.len() - j,
    {
        if s[i + j] != kw[j] {
            assert(s@.subrange(i as int, i + kw@.len() as int)[j as int] != kw@[j as int]);
            return false;
        }
        j = j + 1;
    }
    proof {
        assert(s@.subrange(i as int, i + kw@.len() as int) =~= kw@);
    }
    true
}

/// Runs the global search `/kw\s+(\w+)/g` over `text` and returns the
/// captured names, leftmost first, one per match.
pub fn extract(text: &[u8], kw: &[u8]) -> (names: Vec<Vec<u8>>)
    ensures
        names.deep_view() == captures(text@, kw@),
{
    let ghost s = text@;
    let mut names: Vec<Vec<u8>> = Vec::new();
    let mut i: usize = 0;
    while i < text.len()
        invariant
            i <= s.len(),
            s == text@,
            captures(s, kw@) == names.deep_view() + captures_from(s, kw@, i as int),
        decreases s.len() - i,
    {
        let ghost names_before = names.deep_view();
        let mut advanced = false;
        if kw_at_exec(text, kw, i) {
            let p = i + kw.len();
            if p < text.len() && is_space_byte_exec(text[p]) {
                let q = space_end_exec(text, p);
                if q < text.len() && is_word_byte_exec(text[q]) {
                    let r = word_end_exec(text, q);
                    assert(match_at(s, kw@, i as int));
                    let cap = vstd::slice::slice_to_vec(vstd::slice::slice_subrange(text, q, r));
                    names.push(cap);
                    proof {
                        lemma_match_end_at(s, kw@, i as int);
                        assert(cap@ == capture_at(s, kw@, i as int));
                        assert(names.deep_view() =~~= names_before + seq![cap@]);
                        assert(names_before + seq![cap@] + captures_from(s, kw@, r as int)
                            =~= names_before + (seq![cap@] + captures_from(s, kw@, r as int)));
                    }
                    i = r;
                    advanced = true;
                }
            }
        }
        if !advanced {
            assert(!match_at(s, kw@, i as int));
            i = i + 1;
        }
    }
    names
}

/// The keyword `fn`, as bytes.
pub open spec fn fn_keyword() -> Seq<u8> {
    seq![102u8, 110u8]
}

/// The keyword `struct`, as bytes.
pub open spec fn struct_keyword() -> Seq<u8> {
    seq![115u8, 116u8, 114u8, 117u8, 99u8, 116u8]
}

/// The keyword `enum`, as bytes.
pub open spec fn enum_keyword() -> Seq<u8> {
    seq![101u8, 110u8, 117u8, 109u8]
}

/// The names that `/fn\s+(\w+)/g` captures in `text`: the declared
/// functions, in order of declaration.
pub fn function_names(text: &[u8]) -> (names: Vec<Vec<u8>>)
    ensures
        names.deep_view() == captures(text@, fn_keyword()),
{
    let mut kw: Vec<u8> = Vec::new();
    kw.push(102);
    kw.push(110);
    proof {
        assert(kw@ =~= fn_keyword());
    }
    extract(text, kw.as_slice())
}

/// The names that `/struct\s+(\w+)/g` captures in `text`: the
/// declared structs, in order of declaration.
pub fn struct_names(text: &[u8]) -> (names: Vec<Vec<u8>>)
    ensures
        names.deep_view() == captures(text@, struct_keyword()),
{
    let mut kw: Vec<u8> = Vec::new();
    kw.push(115);
    kw.push(116);
    kw.push(114);
    kw.push(117);
    kw.push(99);
    kw.push(116);
    proof {
        assert(kw@ =~= struct_keyword());
    }
    extract(text, kw.as_slice())
}

/// The names that `/enum\s+(\w+)/g` captures in `text`: the declared
/// enums, in order of declaration.
pub fn enum_names(text: &[u8]) -> (names: Vec<Vec<u8>>)
    ensures
        names.deep_view() == captures(text@, enum_keyword()),
{
    let mut kw: Vec<u8> = Vec::new();
    kw.push(101);
    kw.push(110);
    kw.push(117);
    kw.push(109);
    proof {
        assert(kw@ =~= enum_keyword());
    }
    extract(text, kw.as_slice())
}

} // verus!
