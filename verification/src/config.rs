//! Command line of the Debugger, and where the BIOS comes from.
use vstd::prelude::*;

verus! {

#[derive(Debug, PartialEq, Eq)]
pub struct Cli {
    pub bios: Option<String>,
    pub disc: Option<String>,
    /// Headless: run to each vblank and capture the Display area.
    pub capture_at: Vec<u64>,
    pub capture_dir: Option<String>,
    /// No window: run the Machine and print measurements on stdout.
    pub headless: bool,
    /// Stop after this many vblanks. None means until SIGINT.
    pub until_vblank: Option<u64>,
    /// Print one sample every this many vblanks (default 60, about one NTSC second).
    pub period: u64,
}

/// What the command line sets, flag by flag; `capture_at` is the raw list of the
/// last `--capture-at`.
pub struct CliView {
    pub bios: Option<Seq<char>>,
    pub disc: Option<Seq<char>>,
    pub capture_at: Option<Seq<char>>,
    pub capture_dir: Option<Seq<char>>,
    pub headless: bool,
    pub until_vblank: Option<u64>,
    pub period: u64,
}

pub open spec fn default_view() -> CliView {
    CliView {
        bios: None,
        disc: None,
        capture_at: None,
        capture_dir: None,
        headless: false,
        until_vblank: None,
        period: 60,
    }
}

pub open spec fn opt_view(o: Option<String>) -> Option<Seq<char>> {
    match o {
        Some(s) => Some(s@),
        None => None,
    }
}

pub open spec fn is_digit(c: char) -> bool {
    '0' <= c <= '9'
}

/// Decimal value of a string of digits.
pub open spec fn decimal(d: Seq<char>) -> nat
    decreases d.len(),
{
    if d.len() == 0 {
        0
    } else {
        decimal(d.drop_last()) * 10 + ((d.last() as int) - ('0' as int)) as nat
    }
}

/// A number's digits: what follows an optional leading `+`.
pub open spec fn unsigned_digits(t: Seq<char>) -> Seq<char> {
    if t.len() > 0 && t[0] == '+' {
        t.drop_first()
    } else {
        t
    }
}

/// `u64::from_str`: an optional `+`, then one or more digits, in range.
pub open spec fn parse_u64_spec(t: Seq<char>) -> Option<u64> {
    let d = unsigned_digits(t);
    if d.len() == 0 || exists|k: int| 0 <= k < d.len() && !is_digit(#[trigger] d[k]) {
        None
    } else if decimal(d) > u64::MAX {
        None
    } else {
        Some(decimal(d) as u64)
    }
}

/// Unicode White_Space, as `char::is_whitespace` and `str::trim` use it.
pub open spec fn is_ws(c: char) -> bool {
    ('\u{9}' <= c <= '\u{d}') || c == ' ' || c == '\u{85}' || c == '\u{a0}' || c == '\u{1680}'
        || ('\u{2000}' <= c <= '\u{200a}') || c == '\u{2028}' || c == '\u{2029}' || c == '\u{202f}'
        || c == '\u{205f}' || c == '\u{3000}'
}

/// The first index in `[i, j)` that is not whitespace, or `j`.
pub open spec fn skip_ws(s: Seq<char>, i: int, j: int) -> int
    decreases j - i,
{
    if i < j && is_ws(s[i]) {
        skip_ws(s, i + 1, j)
    } else {
        i
    }
}

/// The end of `[a, j)` once trailing whitespace is dropped.
pub open spec fn back_ws(s: Seq<char>, j: int, a: int) -> int
    decreases j - a,
{
    if j > a && is_ws(s[j - 1]) {
        back_ws(s, j - 1, a)
    } else {
        j
    }
}

/// `s[i..j)` with surrounding whitespace trimmed.
pub open spec fn trimmed(s: Seq<char>, i: int, j: int) -> Seq<char> {
    let a = skip_ws(s, i, j);
    s.subrange(a, back_ws(s, j, a))
}

/// `s[i..j)` is one of the pieces `s.split(',')` yields.
pub open spec fn piece(s: Seq<char>, i: int, j: int) -> bool {
    &&& 0 <= i <= j <= s.len()
    &&& (i == 0 || s[i - 1] == ',')
    &&& (j == s.len() || s[j] == ',')
    &&& forall|k: int| i <= k < j ==> s[k] != ','
}

/// The vblanks a `--capture-at` list names: every comma-separated piece that
/// parses as a number once trimmed.
pub open spec fn vblank_set(s: Seq<char>) -> Set<u64> {
    Set::new(
        |x: u64|
            exists|i: int, j: int| #[trigger]
                piece(s, i, j) && parse_u64_spec(trimmed(s, i, j)) == Some(x),
    )
}

pub open spec fn strictly_sorted(v: Seq<u64>) -> bool {
    forall|a: int, b: int| 0 <= a < b < v.len() ==> v[a] < v[b]
}

/// The command line from argument `i` on, over what the earlier arguments set.
/// A flag takes the next argument as its value; a flag that needs a value and is
/// last sets nothing but `--bios`, `--disc` and `--capture-dir`, which it clears.
pub open spec fn parse_from(args: Seq<Seq<char>>, i: int, c: CliView) -> CliView
    decreases args.len() - i,
{
    if i < 0 || i >= args.len() {
        c
    } else {
        let a = args[i];
        let has = i + 1 < args.len();
        let v = args[i + 1];
        if a == "--bios"@ {
            parse_from(
                args,
                if has { i + 2 } else { i + 1 },
                CliView { bios: if has { Some(v) } else { None }, ..c },
            )
        } else if a == "--disc"@ {
            parse_from(
                args,
                if has { i + 2 } else { i + 1 },
                CliView { disc: if has { Some(v) } else { None }, ..c },
            )
        } else if a == "--capture-at"@ {
            parse_from(
                args,
                if has { i + 2 } else { i + 1 },
                if has { CliView { capture_at: Some(v), ..c } } else { c },
            )
        } else if a == "--capture-dir"@ {
            parse_from(
                args,
                if has { i + 2 } else { i + 1 },
                CliView { capture_dir: if has { Some(v) } else { None }, ..c },
            )
        } else if a == "--headless"@ {
            parse_from(args, i + 1, CliView { headless: true, ..c })
        } else if a == "--until-vblank"@ {
            parse_from(
                args,
                if has { i + 2 } else { i + 1 },
                if has { CliView { until_vblank: parse_u64_spec(v), ..c } } else { c },
            )
        } else if a == "--period"@ {
            parse_from(
                args,
                if has { i + 2 } else { i + 1 },
                if has && (parse_u64_spec(v) matches Some(n) && n > 0) {
                    CliView { period: parse_u64_spec(v).unwrap(), ..c }
                } else {
                    c
                },
            )
        } else {
            parse_from(args, i + 1, c)
        }
    }
}

pub open spec fn args_view(args: Seq<String>) -> Seq<Seq<char>> {
    args.map_values(|s: String| s@)
}

pub(crate) fn chars_of(s: &String) -> (v: Vec<char>)
    ensures
        v@ == s@,
{
    let mut v: Vec<char> = Vec::new();
    broadcast use vstd::string::axiom_spec_iter;
    let st = s.as_str();
    for c in it: st.chars()
        invariant
            v.len() == it.index(),
            it.seq() == st@,
            forall|j: int| 0 <= j < v.len() ==> v@[j] == it.seq()[j],
    {
        v.push(c);
    }
    assert(v@ =~= s@);
    v
}

pub(crate) fn is_ws_char(c: char) -> (b: bool)
    ensures
        b == is_ws(c),
{
    ('\u{9}' <= c && c <= '\u{d}') || c == ' ' || c == '\u{85}' || c == '\u{a0}' || c
        == '\u{1680}' || ('\u{2000}' <= c && c <= '\u{200a}') || c == '\u{2028}' || c
        == '\u{2029}' || c == '\u{202f}' || c == '\u{205f}' || c == '\u{3000}'
}

proof fn lemma_decimal_push(d: Seq<char>, c: char)
    requires
        is_digit(c),
    ensures
        decimal(d.push(c)) == decimal(d) * 10 + ((c as int) - ('0' as int)),
        decimal(d.push(c)) >= decimal(d) * 10,
{
    assert(d.push(c).drop_last() =~= d);
}

/// `u64::from_str` on `s[lo..hi)`.
fn parse_u64(s: &Vec<char>, lo: usize, hi: usize) -> (r: Option<u64>)
    requires
        lo <= hi <= s.len(),
    ensures
        r == parse_u64_spec(s@.subrange(lo as int, hi as int)),
{
    let ghost t = s@.subrange(lo as int, hi as int);
    let start = if lo < hi && s[lo] == '+' {
        lo + 1
    } else {
        lo
    };
    let ghost d = s@.subrange(start as int, hi as int);
    proof {
        if lo < hi {
            assert(t[0] == s@[lo as int]);
        }
        if lo < hi && s@[lo as int] == '+' {
            assert(t.drop_first() =~= d);
        } else {
            assert(t =~= d);
        }
    }
    if start == hi {
        return None;
    }
    let mut v: u64 = 0;
    let mut overflow = false;
    let mut k = start;
    while k < hi
        invariant
            start <= k <= hi,
            hi <= s.len(),
            d == s@.subrange(start as int, hi as int),
            d == unsigned_digits(t),
            t == s@.subrange(lo as int, hi as int),
            forall|m: int| start <= m < k ==> is_digit(s@[m]),
            !overflow ==> v == decimal(s@.subrange(start as int, k as int)),
            overflow ==> decimal(s@.subrange(start as int, k as int)) > u64::MAX,
        decreases hi - k,
    {
        let c = s[k];
        if !('0' <= c && c <= '9') {
            proof {
                assert(d[k - start] == c);
                assert(!is_digit(d[k - start]));
            }
            return None;
        }
        proof {
            assert(s@.subrange(start as int, k + 1) =~= s@.subrange(start as int, k as int).push(c));
            lemma_decimal_push(s@.subrange(start as int, k as int), c);
        }
        let digit = (c as u32 - '0' as u32) as u64;
        if !overflow {
            match v.checked_mul(10) {
                Some(m) => match m.checked_add(digit) {
                    Some(n) => {
                        v = n;
                    },
                    None => {
                        overflow = true;
                    },
                },
                None => {
                    overflow = true;
                },
            }
        }
        k += 1;
    }
    proof {
        assert(s@.subrange(start as int, hi as int) =~= d);
        assert forall|m: int| 0 <= m < d.len() implies is_digit(#[trigger] d[m]) by {
            assert(d[m] == s@[start + m]);
        }
    }
    if overflow {
        None
    } else {
        Some(v)
    }
}

/// Insert `x` into a strictly sorted vector unless it is there already.
fn insert_sorted(out: &mut Vec<u64>, x: u64)
    requires
        strictly_sorted(old(out)@),
    ensures
        strictly_sorted(final(out)@),
        final(out)@.to_set() == old(out)@.to_set().insert(x),
{
    let mut i: usize = 0;
    while i < out.len() && out[i] < x
        invariant
            i <= out.len(),
            forall|k: int| 0 <= k < i ==> out@[k] < x,
        decreases out.len() - i,
    {
        i += 1;
    }
    if i < out.len() && out[i] == x {
        proof {
            assert(old(out)@.to_set().insert(x) =~= old(out)@.to_set());
        }
        return;
    }
    let ghost before = out@;
    out.insert(i, x);
    proof {
        assert(out@ =~= before.subrange(0, i as int).push(x) + before.subrange(i as int, before.len() as int));
        assert forall|y: u64| out@.to_set().contains(y) <==> before.to_set().insert(x).contains(y) by {
            if before.to_set().contains(y) && y != x {
                let k = choose|k: int| 0 <= k < before.len() && before[k] == y;
                if k < i {
                    assert(out@[k] == y);
                } else {
                    assert(out@[k + 1] == y);
                }
            }
            if out@.to_set().contains(y) {
                let k = choose|k: int| 0 <= k < out@.len() && out@[k] == y;
                if k < i {
                    assert(before[k] == y);
                } else if k > i {
                    assert(before[k - 1] == y);
                }
            }
            if y == x {
                assert(out@[i as int] == x);
            }
        }
        assert(out@.to_set() =~= before.to_set().insert(x));
    }
}


pub(crate) fn skip_ws_exec(s: &Vec<char>, i: usize, j: usize) -> (a: usize)
    requires
        i <= j <= s.len(),
    ensures
        a == skip_ws(s@, i as int, j as int),
        i <= a <= j,
{
    let mut a = i;
    while a < j && is_ws_char(s[a])
        invariant
            i <= a <= j,
            j <= s.len(),
            skip_ws(s@, a as int, j as int) == skip_ws(s@, i as int, j as int),
        decreases j - a,
    {
        a += 1;
    }
    a
}

pub(crate) fn back_ws_exec(s: &Vec<char>, j: usize, a: usize) -> (b: usize)
    requires
        a <= j <= s.len(),
    ensures
        b == back_ws(s@, j as int, a as int),
        a <= b <= j,
{
    let mut b = j;
    while b > a && is_ws_char(s[b - 1])
        invariant
            a <= b <= j,
            j <= s.len(),
            back_ws(s@, b as int, a as int) == back_ws(s@, j as int, a as int),
        decreases b - a,
    {
        b -= 1;
    }
    b
}

proof fn lemma_skip_bounds(s: Seq<char>, i: int, j: int)
    requires
        i <= j,
    ensures
        i <= skip_ws(s, i, j) <= j,
    decreases j - i,
{
    if i < j && is_ws(s[i]) {
        lemma_skip_bounds(s, i + 1, j);
    }
}

proof fn lemma_back_bounds(s: Seq<char>, j: int, a: int)
    requires
        a <= j,
    ensures
        a <= back_ws(s, j, a) <= j,
    decreases j - a,
{
    if j > a && is_ws(s[j - 1]) {
        lemma_back_bounds(s, j - 1, a);
    }
}

/// The set of values the pieces ending before `k` contribute.
pub open spec fn pieces_before(s: Seq<char>, k: int, x: u64) -> bool {
    exists|i: int, j: int| #[trigger]
        piece(s, i, j) && j < k && parse_u64_spec(trimmed(s, i, j)) == Some(x)
}

/// Add the value of piece `s[start..k)`, if it parses, to the sorted list.
fn add_piece(s: &Vec<char>, start: usize, k: usize, out: &mut Vec<u64>)
    requires
        piece(s@, start as int, k as int),
        strictly_sorted(old(out)@),
        forall|x: u64| old(out)@.to_set().contains(x) <==> pieces_before(s@, k as int, x),
    ensures
        strictly_sorted(final(out)@),
        forall|x: u64| final(out)@.to_set().contains(x) <==> pieces_before(s@, k + 1, x),
{
    let a = skip_ws_exec(s, start, k);
    let b = back_ws_exec(s, k, a);
    let r = parse_u64(s, a, b);
    let ghost before = out@;
    match r {
        Some(x) => insert_sorted(out, x),
        None => {},
    }
    proof {
        assert(s@.subrange(a as int, b as int) == trimmed(s@, start as int, k as int));
        assert forall|x: u64| out@.to_set().contains(x) <==> pieces_before(s@, k + 1, x) by {
            if out@.to_set().contains(x) {
                if before.to_set().contains(x) {
                    assert(pieces_before(s@, k as int, x));
                    let (i, j) = choose|i: int, j: int| #[trigger] piece(s@, i, j) && j < k
                        && parse_u64_spec(trimmed(s@, i, j)) == Some(x);
                    assert(piece(s@, i, j) && j < k + 1 && parse_u64_spec(trimmed(s@, i, j)) == Some(x));
                } else {
                    assert(r == Some(x));
                    assert(piece(s@, start as int, k as int) && k < k + 1 && parse_u64_spec(trimmed(s@, start as int, k as int)) == Some(x));
                }
            }
            if pieces_before(s@, k + 1, x) {
                let (i, j) = choose|i: int, j: int| #[trigger] piece(s@, i, j) && j < k + 1
                    && parse_u64_spec(trimmed(s@, i, j)) == Some(x);
                if j < k {
                    assert(pieces_before(s@, k as int, x));
                } else {
                    assert(j == k);
                    if i < start {
                        assert(s@[start - 1] == ',');
                    } else if i > start {
                        assert(s@[i - 1] == ',');
                    }
                    assert(i == start);
                    assert(r == Some(x));
                }
            }
        }
    }
}

/// The vblanks of a `--capture-at` list, ascending, each once.
pub fn parse_vblank_list(s: &Vec<char>) -> (v: Vec<u64>)
    ensures
        strictly_sorted(v@),
        v@.to_set() == vblank_set(s@),
{
    let mut out: Vec<u64> = Vec::new();
    let mut start: usize = 0;
    let mut k: usize = 0;
    while k < s.len()
        invariant
            start <= k <= s.len(),
            start == 0 || s@[start - 1] == ',',
            forall|m: int| start <= m < k ==> s@[m] != ',',
            strictly_sorted(out@),
            forall|x: u64| out@.to_set().contains(x) <==> pieces_before(s@, k as int, x),
        decreases s.len() - k,
    {
        if s[k] == ',' {
            add_piece(s, start, k, &mut out);
            start = k + 1;
        } else {
            proof {
                assert forall|x: u64| out@.to_set().contains(x) <==> pieces_before(s@, k + 1, x) by {
                    if pieces_before(s@, k + 1, x) {
                        let (i, j) = choose|i: int, j: int| #[trigger] piece(s@, i, j) && j < k + 1
                            && parse_u64_spec(trimmed(s@, i, j)) == Some(x);
                        assert(j != k);
                        assert(pieces_before(s@, k as int, x));
                    }
                }
            }
        }
        k += 1;
    }
    add_piece(s, start, k, &mut out);
    proof {
        assert forall|x: u64| out@.to_set().contains(x) <==> vblank_set(s@).contains(x) by {
            if vblank_set(s@).contains(x) {
                let (i, j) = choose|i: int, j: int| #[trigger] piece(s@, i, j) && parse_u64_spec(trimmed(s@, i, j)) == Some(x);
                assert(piece(s@, i, j) && j < k + 1 && parse_u64_spec(trimmed(s@, i, j)) == Some(x));
            }
        }
        assert(out@.to_set() =~= vblank_set(s@));
    }
    out
}


fn is_flag(a: &String, flag: &str) -> (b: bool)
    ensures
        b == (a@ == flag@),
{
    *a == flag.to_owned()
}

proof fn lemma_args_view(args: Seq<String>, i: int)
    requires
        0 <= i < args.len(),
    ensures
        args_view(args).len() == args.len(),
        args_view(args)[i] == args[i]@,
{
}

/// The Debugger's command line. Unknown arguments are skipped.
pub fn parse_cli(args: Vec<String>) -> (c: Cli)
    ensures
        ({
            let v = parse_from(args_view(args@), 0, default_view());
            &&& opt_view(c.bios) == v.bios
            &&& opt_view(c.disc) == v.disc
            &&& opt_view(c.capture_dir) == v.capture_dir
            &&& c.headless == v.headless
            &&& c.until_vblank == v.until_vblank
            &&& c.period == v.period
            &&& match v.capture_at {
                None => c.capture_at@.len() == 0,
                Some(raw) => strictly_sorted(c.capture_at@) && c.capture_at@.to_set() == vblank_set(
                    raw,
                ),
            }
        }),
{
    let ghost av = args_view(args@);
    let mut c = Cli {
        bios: None,
        disc: None,
        capture_at: Vec::new(),
        capture_dir: None,
        headless: false,
        until_vblank: None,
        period: 60,
    };
    let ghost mut raw: Option<Seq<char>> = None;
    let mut i: usize = 0;
    while i < args.len()
        invariant
            i <= args.len(),
            av == args_view(args@),
            av.len() == args.len(),
            parse_from(
                av,
                i as int,
                CliView {
                    bios: opt_view(c.bios),
                    disc: opt_view(c.disc),
                    capture_at: raw,
                    capture_dir: opt_view(c.capture_dir),
                    headless: c.headless,
                    until_vblank: c.until_vblank,
                    period: c.period,
                },
            ) == parse_from(av, 0, default_view()),
            match raw {
                None => c.capture_at@.len() == 0,
                Some(r) => strictly_sorted(c.capture_at@) && c.capture_at@.to_set() == vblank_set(r),
            },
        decreases args.len() - i,
    {
        proof {
            lemma_args_view(args@, i as int);
            if i + 1 < args.len() {
                lemma_args_view(args@, i + 1);
            }
        }
        let a = &args[i];
        let has = i + 1 < args.len();
        if is_flag(a, "--bios") {
            c.bios = if has {
                Some(args[i + 1].clone())
            } else {
                None
            };
            i = if has {
                i + 2
            } else {
                i + 1
            };
        } else if is_flag(a, "--disc") {
            c.disc = if has {
                Some(args[i + 1].clone())
            } else {
                None
            };
            i = if has {
                i + 2
            } else {
                i + 1
            };
        } else if is_flag(a, "--capture-at") {
            if has {
                let v = chars_of(&args[i + 1]);
                c.capture_at = parse_vblank_list(&v);
                proof {
                    raw = Some(v@);
                }
            }
            i = if has {
                i + 2
            } else {
                i + 1
            };
        } else if is_flag(a, "--capture-dir") {
            c.capture_dir = if has {
                Some(args[i + 1].clone())
            } else {
                None
            };
            i = if has {
                i + 2
            } else {
                i + 1
            };
        } else if is_flag(a, "--headless") {
            c.headless = true;
            i = i + 1;
        } else if is_flag(a, "--until-vblank") {
            if has {
                let v = chars_of(&args[i + 1]);
                proof {
                    assert(v@.subrange(0, v@.len() as int) =~= v@);
                }
                c.until_vblank = parse_u64(&v, 0, v.len());
            }
            i = if has {
                i + 2
            } else {
                i + 1
            };
        } else if is_flag(a, "--period") {
            if has {
                let v = chars_of(&args[i + 1]);
                proof {
                    assert(v@.subrange(0, v@.len() as int) =~= v@);
                }
                match parse_u64(&v, 0, v.len()) {
                    Some(n) => {
                        if n > 0 {
                            c.period = n;
                        }
                    },
                    None => {},
                }
            }
            i = if has {
                i + 2
            } else {
                i + 1
            };
        } else {
            i = i + 1;
        }
    }
    c
}

/// Where captures go: `--capture-dir`, else target/rsx-display.
pub fn capture_dir(cli: Option<String>) -> (d: String)
    ensures
        d@ == match cli {
            Some(s) => s@,
            None => "target/rsx-display"@,
        },
{
    match cli {
        Some(s) => s,
        None => "target/rsx-display".to_owned(),
    }
}

/// The BIOS path: `--bios` wins over rsx.toml; either is enough. `toml` is what
/// reading rsx.toml gave: its `bios` entry, or why it could not be read.
pub fn resolve_bios(cli: Option<String>, toml: Result<Option<String>, String>) -> (r: Result<
    String,
    String,
>)
    ensures
        match cli {
            Some(p) => r == Ok::<String, String>(p),
            None => match toml {
                Ok(Some(p)) => r == Ok::<String, String>(p),
                Ok(None) => r is Err,
                Err(e) => r == Err::<String, String>(e),
            },
        },
{
    match cli {
        Some(p) => Ok(p),
        None => match toml {
            Ok(Some(p)) => Ok(p),
            Ok(None) => Err("rsx.toml has no bios = \"...\"".to_owned()),
            Err(e) => Err(e),
        },
    }
}

} // verus!
