//! Random generation of paths, contents and timestamps for the mutators.

use vstd::prelude::*;
use vstd::string::{StrSliceExecFns, StringExecFns};

use crate::delta::{ascii, ascii_bytes};
use crate::rng::{below, StdRand};
use crate::text::strings_view;

verus! {

/// The directory and file names random paths are made of.
pub open spec fn path_components() -> Seq<Seq<char>> {
    seq![
        "a"@,
        "b"@,
        "c"@,
        "d"@,
        "etc"@,
        "tmp"@,
        "var"@,
        "lib"@,
        "usr"@,
        "input"@,
        "output"@,
        "config"@,
        "data"@,
        "test"@,
        "run"@,
    ]
}

pub fn path_component(i: usize) -> (s: &'static str)
    requires
        i < 15,
    ensures
        s@ == path_components()[i as int],
{
    match i {
        0 => "a",
        1 => "b",
        2 => "c",
        3 => "d",
        4 => "etc",
        5 => "tmp",
        6 => "var",
        7 => "lib",
        8 => "usr",
        9 => "input",
        10 => "output",
        11 => "config",
        12 => "data",
        13 => "test",
        _ => "run",
    }
}

/// "/" + parts[0] + "/" + parts[1] + ...
pub open spec fn join_abs(parts: Seq<Seq<char>>) -> Seq<char>
    decreases parts.len(),
{
    if parts.len() == 0 {
        Seq::empty()
    } else {
        join_abs(parts.drop_last()) + seq!['/'] + parts.last()
    }
}

/// Joining at least one segment gives an absolute path.
pub proof fn lemma_join_abs_starts_with_slash(parts: Seq<Seq<char>>)
    requires
        parts.len() > 0,
    ensures
        join_abs(parts).len() > 0,
        join_abs(parts)[0] == '/',
    decreases parts.len(),
{
    let inner = join_abs(parts.drop_last());
    if parts.len() > 1 {
        lemma_join_abs_starts_with_slash(parts.drop_last());
    } else {
        assert(inner =~= Seq::<char>::empty());
    }
    assert((inner + seq!['/'] + parts.last())[0] == (if inner.len() > 0 {
        inner[0]
    } else {
        '/'
    }));
}

/// A path of one to three components drawn from [`path_components`].
pub open spec fn is_random_path(p: Seq<char>) -> bool {
    exists|parts: Seq<Seq<char>>|
        1 <= parts.len() <= 3 && (forall|i: int|
            0 <= i < parts.len() ==> path_components().contains(#[trigger] parts[i])) && p
            == join_abs(parts)
}

pub proof fn lemma_random_path_absolute(p: Seq<char>)
    requires
        is_random_path(p),
    ensures
        p.len() > 0 && p[0] == '/',
{
    let parts = choose|parts: Seq<Seq<char>>|
        1 <= parts.len() <= 3 && (forall|i: int|
            0 <= i < parts.len() ==> path_components().contains(#[trigger] parts[i])) && p
            == join_abs(parts);
    lemma_join_abs_starts_with_slash(parts);
}

/// The path joined from the components with the indices `idx`.
pub open spec fn components_path(idx: Seq<usize>) -> Seq<char> {
    join_abs(idx.map_values(|i: usize| path_components()[i as int]))
}

/// Valid component draws for a random path: one to three indices below 15.
pub open spec fn component_draws(idx: Seq<usize>) -> bool {
    1 <= idx.len() <= 3 && forall|k: int| 0 <= k < idx.len() ==> #[trigger] idx[k] < 15
}

/// The path of the component indices `idx` (see [`components_path`]).
pub fn path_from_components(idx: &Vec<usize>) -> (p: String)
    requires
        component_draws(idx@),
    ensures
        p@ == components_path(idx@),
        is_random_path(p@),
{
    let mut path = String::new();
    let ghost parts = idx@.map_values(|i: usize| path_components()[i as int]);
    let n = idx.len();
    for k in 0..n
        invariant
            n == idx@.len(),
            component_draws(idx@),
            parts == idx@.map_values(|i: usize| path_components()[i as int]),
            path@ == join_abs(parts.subrange(0, k as int)),
    {
        let ghost old_path = path@;
        path.append("/");
        let c = path_component(idx[k]);
        path.append(c);
        proof {
            reveal_strlit("/");
            assert("/"@ =~= seq!['/']);
            assert(parts.subrange(0, k + 1).drop_last() =~= parts.subrange(0, k as int));
            assert(path@ == old_path + seq!['/'] + c@);
        }
    }
    assert(parts.subrange(0, n as int) =~= parts);
    assert forall|i: int| 0 <= i < parts.len() implies path_components().contains(#[trigger] parts[i]) by {
        assert(parts[i] == path_components()[idx@[i] as int]);
    }
    path
}

/// A path of one to three random components, such as `/etc/data`: draws the
/// depth, then each component (of 15).
pub fn random_path(rand: &mut StdRand) -> (p: String)
    ensures
        is_random_path(p@),
        exists|idx: Seq<usize>| component_draws(idx) && p@ == #[trigger] components_path(idx),
{
    let depth = 1 + below(rand, 3);
    let mut idx: Vec<usize> = Vec::new();
    for _k in 0..depth
        invariant
            idx@.len() == _k,
            forall|q: int| 0 <= q < idx@.len() ==> #[trigger] idx@[q] < 15,
    {
        idx.push(below(rand, 15));
    }
    let p = path_from_components(&idx);
    assert(components_path(idx@) == p@);
    p
}

/// Between 1 and 64 random bytes.
pub fn random_content(rand: &mut StdRand) -> (v: Vec<u8>)
    ensures
        1 <= v@.len() <= 64,
{
    let len = 1 + below(rand, 64);
    let mut v: Vec<u8> = Vec::new();
    for _k in 0..len
        invariant
            v@.len() == _k,
    {
        let b = below(rand, 256);
        v.push(b as u8);
    }
    v
}

/// The `i`th element of `list` when it is not empty and `r < bias`, else the
/// random path `rp`.
pub open spec fn listed_or(list: Seq<Seq<char>>, bias: int, r: int, i: int, rp: Seq<char>) -> Seq<char> {
    if list.len() > 0 && r < bias {
        list[i]
    } else {
        rp
    }
}

/// Valid draws for [`listed_or`]: `r` of 100, an index into `list` when it is
/// used, else a random path.
pub open spec fn listed_or_draws(list: Seq<Seq<char>>, bias: int, r: int, i: int, rp: Seq<char>) -> bool {
    &&& 0 <= r < 100 && 0 <= i
    &&& list.len() > 0 && r < bias ==> i < list.len()
    &&& !(list.len() > 0 && r < bias) ==> is_random_path(rp)
}

/// The path [`listed_or`] picks for the draws.
pub fn choose_listed_or(list: &Vec<String>, bias: usize, r: usize, i: usize, rp: String) -> (p: String)
    requires
        listed_or_draws(strings_view(list@), bias as int, r as int, i as int, rp@),
    ensures
        p@ == listed_or(strings_view(list@), bias as int, r as int, i as int, rp@),
        strings_view(list@).contains(p@) || is_random_path(p@),
{
    if list.len() > 0 && r < bias {
        assert(strings_view(list@)[i as int] == list@[i as int]@);
        list[i].clone()
    } else {
        rp
    }
}

/// Draws for [`listed_or`]: `r` of 100 when `list` is not empty, then an
/// index into it or a random path.
pub fn draw_listed_or(rand: &mut StdRand, list: &Vec<String>, bias: usize) -> (d: (usize, usize, String))
    ensures
        listed_or_draws(strings_view(list@), bias as int, d.0 as int, d.1 as int, d.2@),
{
    let r = if list.len() > 0 {
        below(rand, 100)
    } else {
        0
    };
    if list.len() > 0 && r < bias {
        (r, below(rand, list.len()), String::new())
    } else {
        (r, 0, random_path(rand))
    }
}

/// An element of `baseline` with probability `bias_pct`% when it is not empty,
/// a random path otherwise.
pub fn pick_or_random(rand: &mut StdRand, baseline: &Vec<String>, bias_pct: usize) -> (p: String)
    ensures
        strings_view(baseline@).contains(p@) || is_random_path(p@),
        exists|r: int, i: int, rp: Seq<char>|
            listed_or_draws(strings_view(baseline@), bias_pct as int, r, i, rp) && p@
                == #[trigger] listed_or(strings_view(baseline@), bias_pct as int, r, i, rp),
{
    let (r, i, rp) = draw_listed_or(rand, baseline, bias_pct);
    let ghost rpv = rp@;
    let p = choose_listed_or(baseline, bias_pct, r, i, rp);
    assert(p@ == listed_or(strings_view(baseline@), bias_pct as int, r as int, i as int, rpv));
    p
}

/// Timestamps that hit edge cases: epoch, -1, the 2038 boundary, and two recent dates.
pub open spec fn interesting_timestamps() -> Seq<i64> {
    seq![0i64, -1i64, 2147483647i64, 2_000_000_000i64, 1_700_000_000i64]
}

pub open spec fn is_fuzz_timestamp(t: i64) -> bool {
    interesting_timestamps().contains(t) || 0 <= t < 4294967295
}

/// The timestamp for the draws: interesting timestamp `k` when `r < 40`,
/// else `raw`.
pub open spec fn timestamp_of(r: int, k: int, raw: int) -> i64 {
    if r < 40 {
        interesting_timestamps()[k]
    } else {
        raw as i64
    }
}

pub fn timestamp_from(r: usize, k: usize, raw: usize) -> (t: i64)
    requires
        r < 100,
        k < 5,
        raw < 4294967295,
    ensures
        t == timestamp_of(r as int, k as int, raw as int),
        is_fuzz_timestamp(t),
{
    assert(interesting_timestamps()[0] == 0);
    assert(interesting_timestamps()[1] == -1);
    assert(interesting_timestamps()[2] == 2147483647);
    assert(interesting_timestamps()[3] == 2_000_000_000);
    assert(interesting_timestamps()[4] == 1_700_000_000);
    if r < 40 {
        match k {
            0 => 0,
            1 => -1,
            2 => 2147483647,
            3 => 2_000_000_000,
            _ => 1_700_000_000,
        }
    } else {
        raw as i64
    }
}

/// An interesting timestamp 40% of the time, any `u32` below `u32::MAX`
/// otherwise: draws the kind (of 100), then the timestamp.
pub fn pick_timestamp(rand: &mut StdRand) -> (t: i64)
    ensures
        is_fuzz_timestamp(t),
        exists|r: int, k: int, raw: int|
            0 <= r < 100 && 0 <= k < 5 && 0 <= raw < 4294967295 && t == #[trigger] timestamp_of(r, k, raw),
{
    let r = below(rand, 100);
    let (k, raw) = if r < 40 {
        (below(rand, 5), 0)
    } else {
        (0, below(rand, 4294967295))
    };
    let t = timestamp_from(r, k, raw);
    assert(t == timestamp_of(r as int, k as int, raw as int));
    t
}

/// `n` copies of the byte `b`.
pub fn repeat_byte(b: u8, n: usize) -> (v: Vec<u8>)
    ensures
        v@ == Seq::new(n as nat, |_i: int| b),
{
    let v = vec![b; n];
    assert(v@ =~= Seq::new(n as nat, |_i: int| b));
    v
}

/// Contents that often trip parsers: names, magic numbers, a shebang, a config
/// file, all-zero and all-one words, a path traversal, a format string, and
/// long runs of one byte.
pub open spec fn dictionary() -> Seq<Seq<u8>> {
    seq![
        ascii("random_shit"@),
        ascii("cone_ice"@),
        ascii("paal_ice"@),
        ascii("chocobar"@),
        ascii("fahhhhhhh"@),
        Seq::empty(),
        seq![0x7fu8, 0x45, 0x4c, 0x46],
        ascii("#!/bin/sh\n"@),
        ascii("[settings]\nverbose=1\ndebug=1\n"@),
        seq![0u8, 0, 0, 0],
        seq![0xffu8, 0xff, 0xff, 0xff],
        ascii("../../../etc/passwd"@),
        ascii("/dev/null"@),
        ascii("%s%s%s%s"@),
        ascii("A"@),
        Seq::new(64, |_i: int| 0xAAu8),
        Seq::new(256, |_i: int| 0u8),
        Seq::new(4096, |_i: int| 0x41u8),
    ]
}

pub fn dictionary_entry(i: usize) -> (v: Vec<u8>)
    requires
        i < 18,
    ensures
        v@ == dictionary()[i as int],
{
    proof {
        reveal_strlit("random_shit");
        reveal_strlit("cone_ice");
        reveal_strlit("paal_ice");
        reveal_strlit("chocobar");
        reveal_strlit("fahhhhhhh");
        reveal_strlit("#!/bin/sh\n");
        reveal_strlit("[settings]\nverbose=1\ndebug=1\n");
        reveal_strlit("../../../etc/passwd");
        reveal_strlit("/dev/null");
        reveal_strlit("%s%s%s%s");
        reveal_strlit("A");
    }
    let v = match i {
        0 => ascii_bytes("random_shit"),
        1 => ascii_bytes("cone_ice"),
        2 => ascii_bytes("paal_ice"),
        3 => ascii_bytes("chocobar"),
        4 => ascii_bytes("fahhhhhhh"),
        5 => Vec::new(),
        6 => vec![0x7fu8, 0x45, 0x4c, 0x46],
        7 => ascii_bytes("#!/bin/sh\n"),
        8 => ascii_bytes("[settings]\nverbose=1\ndebug=1\n"),
        9 => vec![0u8, 0, 0, 0],
        10 => vec![0xffu8, 0xff, 0xff, 0xff],
        11 => ascii_bytes("../../../etc/passwd"),
        12 => ascii_bytes("/dev/null"),
        13 => ascii_bytes("%s%s%s%s"),
        14 => ascii_bytes("A"),
        15 => repeat_byte(0xAA, 64),
        16 => repeat_byte(0, 256),
        _ => repeat_byte(0x41, 4096),
    };
    assert(v@ =~= dictionary()[i as int]);
    v
}

/// A random entry of the content dictionary.
pub fn pick_dictionary(rand: &mut StdRand) -> (v: Vec<u8>)
    ensures
        dictionary().contains(v@),
{
    let i = below(rand, 18);
    let v = dictionary_entry(i);
    assert(dictionary()[i as int] == v@);
    v
}


// ── Path segments ───────────────────────────────────────────────────────────

/// The non-empty '/'-separated segments of `s`, where the segment being read
/// began at `start` and reading is at `i`.
pub open spec fn segments_from(s: Seq<char>, start: int, i: int) -> Seq<Seq<char>>
    decreases s.len() - i,
{
    if i >= s.len() {
        if start < s.len() {
            seq![s.subrange(start, s.len() as int)]
        } else {
            Seq::empty()
        }
    } else if s[i] == '/' {
        (if start < i {
            seq![s.subrange(start, i)]
        } else {
            Seq::empty()
        }) + segments_from(s, i + 1, i + 1)
    } else {
        segments_from(s, start, i + 1)
    }
}

/// The non-empty '/'-separated segments of a path: `/etc//x/` has `etc` and `x`.
pub open spec fn path_segments(s: Seq<char>) -> Seq<Seq<char>> {
    segments_from(s, 0, 0)
}

pub open spec fn strs_view(v: Seq<&str>) -> Seq<Seq<char>> {
    v.map_values(|x: &str| x@)
}

/// The segments of `path`, as slices of it.
pub fn split_segments(path: &str) -> (parts: Vec<&str>)
    ensures
        strs_view(parts@) == path_segments(path@),
{
    let ghost s = path@;
    let n = path.unicode_len();
    let mut parts: Vec<&str> = Vec::new();
    let mut start: usize = 0;
    let mut i: usize = 0;
    while i < n
        invariant
            s == path@,
            n == s.len(),
            start <= i <= n,
            strs_view(parts@) + segments_from(s, start as int, i as int) == path_segments(s),
        decreases n - i,
    {
        let ghost before = strs_view(parts@);
        if path.get_char(i) == '/' {
            if start < i {
                parts.push(path.substring_char(start, i));
                assert(strs_view(parts@) =~= before + seq![s.subrange(start as int, i as int)]);
            } else {
                assert(strs_view(parts@) =~= before);
            }
            assert(strs_view(parts@) + segments_from(s, i + 1, i + 1) =~= before + segments_from(
                s,
                start as int,
                i as int,
            ));
            start = i + 1;
        }
        i += 1;
    }
    let ghost before = strs_view(parts@);
    if start < n {
        parts.push(path.substring_char(start, n));
        assert(strs_view(parts@) =~= before + seq![s.subrange(start as int, n as int)]);
    } else {
        assert(strs_view(parts@) =~= before + segments_from(s, start as int, i as int));
    }
    parts
}

/// "/" + parts[0] + "/" + parts[1] + ...
pub fn join_segments(parts: &Vec<&str>) -> (p: String)
    ensures
        p@ == join_abs(strs_view(parts@)),
{
    let mut p = String::new();
    proof {
        assert(strs_view(parts@).subrange(0, 0) =~= Seq::<Seq<char>>::empty());
    }
    for k in 0..parts.len()
        invariant
            p@ == join_abs(strs_view(parts@).subrange(0, k as int)),
    {
        let ghost before = p@;
        p.append("/");
        p.append(parts[k]);
        proof {
            reveal_strlit("/");
            assert("/"@ =~= seq!['/']);
            let sub = strs_view(parts@).subrange(0, k + 1);
            assert(sub.drop_last() =~= strs_view(parts@).subrange(0, k as int));
            assert(sub.last() == parts@[k as int]@);
        }
    }
    assert(strs_view(parts@).subrange(0, parts@.len() as int) =~= strs_view(parts@));
    p
}


/// A listed-or-random pick takes the `i`th listed path when the list is not
/// empty and the draw is below the bias, else the random path.
pub proof fn lemma_listed_or_law(list: Seq<Seq<char>>, bias: int, r: int, i: int, rp: Seq<char>)
    requires
        listed_or_draws(list, bias, r, i, rp),
    ensures
        list.len() > 0 && r < bias ==> listed_or(list, bias, r, i, rp) == list[i] && list.contains(
            listed_or(list, bias, r, i, rp),
        ),
        !(list.len() > 0 && r < bias) ==> listed_or(list, bias, r, i, rp) == rp && is_random_path(rp),
{
    if list.len() > 0 && r < bias {
        assert(list[i] == list[i]);
    }
}

/// A fuzzing timestamp is interesting timestamp `k` (epoch, -1, the 2038
/// boundary, or one of two recent dates) on a draw below 40, else the raw
/// draw, a `u32` below `u32::MAX`.
pub proof fn lemma_timestamp_law(r: int, k: int, raw: int)
    requires
        0 <= r < 100,
        0 <= k < 5,
        0 <= raw < 4294967295,
    ensures
        r < 40 && k == 0 ==> timestamp_of(r, k, raw) == 0,
        r < 40 && k == 1 ==> timestamp_of(r, k, raw) == -1,
        r < 40 && k == 2 ==> timestamp_of(r, k, raw) == 2147483647,
        r < 40 && k == 3 ==> timestamp_of(r, k, raw) == 2_000_000_000,
        r < 40 && k == 4 ==> timestamp_of(r, k, raw) == 1_700_000_000,
        r >= 40 ==> timestamp_of(r, k, raw) == raw,
        is_fuzz_timestamp(timestamp_of(r, k, raw)),
{
    assert(interesting_timestamps()[0] == 0);
    assert(interesting_timestamps()[1] == -1);
    assert(interesting_timestamps()[2] == 2147483647);
    assert(interesting_timestamps()[3] == 2_000_000_000);
    assert(interesting_timestamps()[4] == 1_700_000_000);
    if r < 40 {
        assert(interesting_timestamps().contains(interesting_timestamps()[k]));
    }
}

/// A random path of one component is `/` and that component; each further
/// component adds `/` and itself.
pub proof fn lemma_components_path_law(idx: Seq<usize>, c: usize)
    requires
        component_draws(idx.push(c)),
    ensures
        components_path(seq![c]) == seq!['/'] + path_components()[c as int],
        components_path(idx.push(c)) == components_path(idx) + seq!['/'] + path_components()[c as int],
{
    let f = |i: usize| path_components()[i as int];
    assert(idx.push(c).map_values(f).drop_last() =~= idx.map_values(f));
    assert(seq![c].map_values(f).drop_last() =~= Seq::<Seq<char>>::empty());
    assert(join_abs(Seq::<Seq<char>>::empty()) == Seq::<char>::empty());
    assert(Seq::<char>::empty() + seq!['/'] + path_components()[c as int] =~= seq!['/']
        + path_components()[c as int]);
}

} // verus!
