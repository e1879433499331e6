//! Cue sheets: the image file a sheet names, for sheets with a raw 2352-byte track.
use vstd::prelude::*;

use crate::config::{back_ws, back_ws_exec, chars_of, is_ws, is_ws_char, skip_ws, skip_ws_exec};

verus! {

broadcast use vstd::string::to_string_from_display_ensures_for_str;

/// Why a cue sheet cannot be used.
#[derive(Clone, Copy, Debug, PartialEq, Eq, Structural)]
pub enum CueError {
    /// A quoted FILE name has no closing quote.
    UnterminatedName,
    /// A FILE line names nothing.
    EmptyFile,
    /// No MODE2/2352 or MODE1/2352 track.
    NoRawTrack,
    /// No FILE line.
    NoFile,
}

impl CueError {
    /// What to tell the user.
    pub fn message(&self) -> (m: String)
        ensures
            m@ == (match *self {
                CueError::UnterminatedName => "unterminated FILE name"@,
                CueError::EmptyFile => "empty FILE"@,
                CueError::NoRawTrack => "need a MODE2/2352 or MODE1/2352 track"@,
                CueError::NoFile => "no FILE"@,
            }),
    {
        match self {
            CueError::UnterminatedName => "unterminated FILE name".to_string(),
            CueError::EmptyFile => "empty FILE".to_string(),
            CueError::NoRawTrack => "need a MODE2/2352 or MODE1/2352 track".to_string(),
            CueError::NoFile => "no FILE".to_string(),
        }
    }
}

/// The first line feed at or after `i`, or the end of the text.
pub open spec fn line_end(t: Seq<char>, i: int) -> int
    decreases t.len() - i,
{
    if i >= t.len() || i < 0 {
        t.len() as int
    } else if t[i] == '\n' {
        i
    } else {
        line_end(t, i + 1)
    }
}

/// The first `c` in `[k, hi)`, or `hi`.
pub open spec fn first_char(t: Seq<char>, k: int, hi: int, c: char) -> int
    decreases hi - k,
{
    if k >= hi {
        hi
    } else if t[k] == c {
        k
    } else {
        first_char(t, k + 1, hi, c)
    }
}

/// The first whitespace in `[k, hi)`, or `hi`.
pub open spec fn first_ws(t: Seq<char>, k: int, hi: int) -> int
    decreases hi - k,
{
    if k >= hi {
        hi
    } else if is_ws(t[k]) {
        k
    } else {
        first_ws(t, k + 1, hi)
    }
}

/// `pat` sits in `t` at `k`, inside `[k, hi)`.
pub open spec fn at(t: Seq<char>, k: int, hi: int, pat: Seq<char>) -> bool {
    0 <= k && k + pat.len() <= hi && hi <= t.len() && t.subrange(k, k + pat.len()) == pat
}

/// `pat` occurs somewhere in `t[lo..hi)`.
pub open spec fn occurs(t: Seq<char>, lo: int, hi: int, pat: Seq<char>) -> bool {
    exists|k: int| lo <= k && #[trigger] at(t, k, hi, pat)
}

pub open spec fn file_kw() -> Seq<char> {
    seq!['F', 'I', 'L', 'E', ' ']
}

pub open spec fn mode2() -> Seq<char> {
    seq!['M', 'O', 'D', 'E', '2', '/', '2', '3', '5', '2']
}

pub open spec fn mode1() -> Seq<char> {
    seq!['M', 'O', 'D', 'E', '1', '/', '2', '3', '5', '2']
}

/// The name a FILE line gives in `t[lo..hi)` (after "FILE "): trimmed, then the text
/// inside quotes, or else the first whitespace-free word.
pub open spec fn file_name(t: Seq<char>, lo: int, hi: int) -> Result<Seq<char>, CueError> {
    let a = skip_ws(t, lo, hi);
    let b = back_ws(t, hi, a);
    if a < b && t[a] == '"' {
        let q = first_char(t, a + 1, b, '"');
        if q < b {
            Ok(t.subrange(a + 1, q))
        } else {
            Err(CueError::UnterminatedName)
        }
    } else if a >= b {
        Err(CueError::EmptyFile)
    } else {
        Ok(t.subrange(a, first_ws(t, a, b)))
    }
}

/// Where the line after the one starting at `i` begins.
pub open spec fn next_line(t: Seq<char>, i: int) -> int {
    let e = line_end(t, i);
    if i <= e <= t.len() {
        e + 1
    } else {
        t.len() + 1int
    }
}

/// The sheet from line start `i` on, given the FILE name and raw-track flag so far.
pub open spec fn scan(t: Seq<char>, i: int, file: Option<Seq<char>>, raw: bool) -> Result<
    (Option<Seq<char>>, bool),
    CueError,
>
    decreases t.len() + 1 - i,
{
    if i >= t.len() || i < 0 {
        Ok((file, raw))
    } else {
        let e = line_end(t, i);
        let next = next_line(t, i);
        let a = skip_ws(t, i, e);
        let b = back_ws(t, e, a);
        if next <= i || next > t.len() + 1 {
            Ok((file, raw))
        } else if at(t, a, b, file_kw()) {
            match file_name(t, a + 5, b) {
                Ok(n) => scan(t, next, Some(n), raw),
                Err(k) => Err(k),
            }
        } else if occurs(t, a, b, mode2()) || occurs(t, a, b, mode1()) {
            scan(t, next, file, true)
        } else {
            scan(t, next, file, raw)
        }
    }
}

/// The image file a cue sheet names: its last FILE line, if it has a raw track.
pub open spec fn cue_spec(t: Seq<char>) -> Result<Seq<char>, CueError> {
    match scan(t, 0, None, false) {
        Err(k) => Err(k),
        Ok(r) => if !r.1 {
            Err(CueError::NoRawTrack)
        } else {
            match r.0 {
                None => Err(CueError::NoFile),
                Some(n) => Ok(n),
            }
        },
    }
}

pub proof fn lemma_line_end_bounds(t: Seq<char>, i: int)
    requires
        0 <= i <= t.len(),
    ensures
        i <= line_end(t, i) <= t.len(),
        line_end(t, i) < t.len() ==> t[line_end(t, i)] == '\n',
    decreases t.len() - i,
{
    if i < t.len() && t[i] != '\n' {
        lemma_line_end_bounds(t, i + 1);
    }
}

fn find_line_end(t: &Vec<char>, i: usize) -> (e: usize)
    requires
        i <= t.len(),
    ensures
        e == line_end(t@, i as int),
        i <= e <= t.len(),
{
    let mut k = i;
    while k < t.len() && t[k] != '\n'
        invariant
            i <= k <= t.len(),
            line_end(t@, k as int) == line_end(t@, i as int),
        decreases t.len() - k,
    {
        k += 1;
    }
    k
}

fn find_char(t: &Vec<char>, k: usize, hi: usize, c: char) -> (q: usize)
    requires
        k <= hi <= t.len(),
    ensures
        q == first_char(t@, k as int, hi as int, c),
        k <= q <= hi,
{
    let mut j = k;
    while j < hi && t[j] != c
        invariant
            k <= j <= hi,
            hi <= t.len(),
            first_char(t@, j as int, hi as int, c) == first_char(t@, k as int, hi as int, c),
        decreases hi - j,
    {
        j += 1;
    }
    j
}

fn find_ws(t: &Vec<char>, k: usize, hi: usize) -> (q: usize)
    requires
        k <= hi <= t.len(),
    ensures
        q == first_ws(t@, k as int, hi as int),
        k <= q <= hi,
{
    let mut j = k;
    while j < hi && !is_ws_char(t[j])
        invariant
            k <= j <= hi,
            hi <= t.len(),
            first_ws(t@, j as int, hi as int) == first_ws(t@, k as int, hi as int),
        decreases hi - j,
    {
        j += 1;
    }
    j
}

fn at_exec(t: &Vec<char>, k: usize, hi: usize, pat: &Vec<char>) -> (r: bool)
    requires
        hi <= t.len(),
    ensures
        r == at(t@, k as int, hi as int, pat@),
{
    if hi < k || hi - k < pat.len() {
        return false;
    }
    let mut m: usize = 0;
    while m < pat.len()
        invariant
            m <= pat.len(),
            k + pat.len() <= hi <= t.len(),
            forall|x: int| 0 <= x < m ==> t@[k + x] == pat@[x],
        decreases pat.len() - m,
    {
        if t[k + m] != pat[m] {
            proof {
                if at(t@, k as int, hi as int, pat@) {
                    assert(t@.subrange(k as int, k + pat.len())[m as int] == t@[k + m]);
                }
            }
            return false;
        }
        m += 1;
    }
    assert(t@.subrange(k as int, k + pat.len()) =~= pat@);
    true
}

fn occurs_exec(t: &Vec<char>, lo: usize, hi: usize, pat: &Vec<char>) -> (r: bool)
    requires
        lo <= hi <= t.len(),
    ensures
        r == occurs(t@, lo as int, hi as int, pat@),
{
    let mut k = lo;
    loop
        invariant
            lo <= k <= hi,
            hi <= t.len(),
            forall|x: int| lo <= x < k ==> !at(t@, x, hi as int, pat@),
        ensures
            k == hi,
            forall|x: int| lo <= x <= hi ==> !at(t@, x, hi as int, pat@),
        decreases hi - k,
    {
        if at_exec(t, k, hi, pat) {
            return true;
        }
        if k == hi {
            break;
        }
        k += 1;
    }
    proof {
        assert forall|x: int| lo <= x implies !#[trigger] at(t@, x, hi as int, pat@) by {
        }
    }
    false
}

fn file_name_exec(t: &Vec<char>, lo: usize, hi: usize) -> (r: Result<Vec<char>, CueError>)
    requires
        lo <= hi <= t.len(),
    ensures
        match r {
            Ok(n) => file_name(t@, lo as int, hi as int) == Ok::<Seq<char>, CueError>(n@),
            Err(k) => file_name(t@, lo as int, hi as int) == Err::<Seq<char>, CueError>(k),
        },
{
    let a = skip_ws_exec(t, lo, hi);
    let b = back_ws_exec(t, hi, a);
    if a < b && t[a] == '"' {
        let q = find_char(t, a + 1, b, '"');
        if q < b {
            Ok(vstd::slice::slice_to_vec(vstd::slice::slice_subrange(t.as_slice(), a + 1, q)))
        } else {
            Err(CueError::UnterminatedName)
        }
    } else if a >= b {
        Err(CueError::EmptyFile)
    } else {
        let w = find_ws(t, a, b);
        Ok(vstd::slice::slice_to_vec(vstd::slice::slice_subrange(t.as_slice(), a, w)))
    }
}

pub open spec fn opt_chars(f: Option<Vec<char>>) -> Option<Seq<char>> {
    match f {
        Some(v) => Some(v@),
        None => None,
    }
}

/// The image file named by cue sheet `text`.
pub fn bin_name_from_cue(text: &String) -> (r: Result<Vec<char>, CueError>)
    ensures
        match r {
            Ok(n) => cue_spec(text@) == Ok::<Seq<char>, CueError>(n@),
            Err(k) => cue_spec(text@) == Err::<Seq<char>, CueError>(k),
        },
{
    let t = chars_of(text);
    let kw: Vec<char> = vec!['F', 'I', 'L', 'E', ' '];
    let m2: Vec<char> = vec!['M', 'O', 'D', 'E', '2', '/', '2', '3', '5', '2'];
    let m1: Vec<char> = vec!['M', 'O', 'D', 'E', '1', '/', '2', '3', '5', '2'];
    assert(kw@ =~= file_kw());
    assert(m2@ =~= mode2());
    assert(m1@ =~= mode1());
    let mut file: Option<Vec<char>> = None;
    let mut raw = false;
    let mut i: usize = 0;
    while i < t.len()
        invariant
            i <= t.len(),
            t@ == text@,
            kw@ == file_kw(),
            m2@ == mode2(),
            m1@ == mode1(),
            scan(t@, i as int, opt_chars(file), raw) == scan(t@, 0, None, false),
        decreases t.len() - i,
    {
        let ghost f0 = opt_chars(file);
        let ghost r0 = raw;
        let ghost i0 = i as int;
        let e = find_line_end(&t, i);
        proof {
            lemma_line_end_bounds(t@, i as int);
        }
        let a = skip_ws_exec(&t, i, e);
        let b = back_ws_exec(&t, e, a);
        if at_exec(&t, a, b, &kw) {
            match file_name_exec(&t, a + 5, b) {
                Ok(n) => {
                    file = Some(n);
                },
                Err(k) => {
                    assert(scan(t@, i0, f0, r0) == Err::<(Option<Seq<char>>, bool), CueError>(k));
                    return Err(k);
                },
            }
        } else if occurs_exec(&t, a, b, &m2) || occurs_exec(&t, a, b, &m1) {
            raw = true;
        }
        i = if e < t.len() {
            e + 1
        } else {
            t.len()
        };
        proof {
            assert(next_line(t@, i0) == e + 1);
            assert(!(e + 1 <= i0 || e + 1 > t@.len() + 1));
            assert(scan(t@, i0, f0, r0) == scan(t@, e + 1, opt_chars(file), raw));
            if e >= t.len() {
                assert(scan(t@, e + 1, opt_chars(file), raw) == scan(t@, i as int, opt_chars(file), raw));
            }
        }
    }
    if !raw {
        return Err(CueError::NoRawTrack);
    }
    match file {
        Some(n) => Ok(n),
        None => Err(CueError::NoFile),
    }
}

} // verus!
