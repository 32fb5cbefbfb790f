//! Wrapping a built command under `docker-bluff`, which idmaps mounted
//! directories so a container-style uid and the host each see the files as
//! their own.
use vstd::prelude::*;
use vstd::string::*;
use crate::text::{
    append_str, chars_of, debug_quoted, lemma_split_on_nonempty, split_char, split_on, str_debug, str_eq, trim, trimmed, views,
};
use crate::vars::{apply_vars, expand, StrMap};

verus! {

/// A decimal digit.
pub open spec fn is_digit(c: char) -> bool {
    '0' <= c <= '9'
}

/// The number a string of decimal digits denotes.
pub open spec fn digits_value(s: Seq<char>) -> int
    decreases s.len(),
{
    if s.len() == 0 {
        0
    } else {
        digits_value(s.drop_last()) * 10 + (s.last() as int - '0' as int)
    }
}

/// `s` without one leading `+`.
pub open spec fn u32_digits(s: Seq<char>) -> Seq<char> {
    if s.len() > 0 && s[0] == '+' {
        s.drop_first()
    } else {
        s
    }
}

/// Every character of `d` is a decimal digit.
pub open spec fn all_digits(d: Seq<char>) -> bool {
    forall|i: int| 0 <= i < d.len() ==> is_digit(#[trigger] d[i])
}

/// Whether `str::parse::<u32>` accepts `s`: an optional `+`, then one or more
/// decimal digits whose value fits in a `u32`.
pub open spec fn parses_u32(s: Seq<char>) -> bool {
    let d = u32_digits(s);
    &&& d.len() > 0
    &&& all_digits(d)
    &&& digits_value(d) <= u32::MAX
}

proof fn lemma_digits_value_monotone(s: Seq<char>, i: int)
    requires
        0 <= i <= s.len(),
        forall|j: int| 0 <= j < s.len() ==> is_digit(#[trigger] s[j]),
    ensures
        digits_value(s.take(i)) <= digits_value(s),
        digits_value(s) >= 0,
    decreases s.len() - i,
{
    if i < s.len() {
        lemma_digits_value_monotone(s, i + 1);
        assert(s.take(i + 1).drop_last() == s.take(i));
        lemma_digits_value_nonneg(s.take(i));
    } else {
        assert(s.take(i) == s);
        lemma_digits_value_nonneg(s);
    }
}

proof fn lemma_digits_value_nonneg(s: Seq<char>)
    requires
        forall|j: int| 0 <= j < s.len() ==> is_digit(#[trigger] s[j]),
    ensures
        digits_value(s) >= 0,
    decreases s.len(),
{
    if s.len() > 0 {
        lemma_digits_value_nonneg(s.drop_last());
    }
}

/// Whether `s` parses as a `u32` (`s.parse::<u32>().is_ok()`).
pub fn is_u32(s: &str) -> (r: bool)
    ensures
        r == parses_u32(s@),
{
    let v = chars_of(s);
    let start: usize = if v.len() > 0 && v[0] == '+' {
        1
    } else {
        0
    };
    let ghost d = u32_digits(s@);
    assert(d == v@.skip(start as int));
    if start >= v.len() {
        return false;
    }
    let mut i = start;
    let mut value: u64 = 0;
    while i < v.len()
        invariant
            start <= i <= v@.len(),
            v@ == s@,
            d == u32_digits(s@),
            d == v@.skip(start as int),
            forall|j: int| 0 <= j < i - start ==> is_digit(#[trigger] d[j]),
            value == digits_value(d.take(i - start)),
            value <= u32::MAX,
        decreases v@.len() - i,
    {
        let c = v[i];
        if !('0' <= c && c <= '9') {
            assert(d[i - start] == c);
            assert(!is_digit(d[i - start]));
            assert(!all_digits(d));
            return false;
        }
        assert(d.take(i - start + 1).drop_last() == d.take(i - start));
        assert(d.take(i - start + 1).last() == c);
        let digit = (c as u32 - '0' as u32) as u64;
        let next = value * 10 + digit;
        if next > 0xffff_ffff {
            return self::finish_overflow(&v, i + 1, start, Ghost(d));
        }
        value = next;
        i = i + 1;
    }
    assert(d.take(v@.len() - start) == d);
    true
}

/// Decides the remainder once the digits read so far already exceed `u32`.
fn finish_overflow(v: &Vec<char>, from: usize, start: usize, Ghost(d): Ghost<Seq<char>>) -> (r: bool)
    requires
        start < from <= v@.len(),
        d == v@.skip(start as int),
        forall|j: int| 0 <= j < from - start ==> is_digit(#[trigger] d[j]),
        digits_value(d.take(from - start)) > u32::MAX,
    ensures
        r == false,
        !(all_digits(d) && digits_value(d) <= u32::MAX),
{
    proof {
        if all_digits(d) {
            lemma_digits_value_monotone(d, from - start);
        }
    }
    false
}

/// Why `spec` is not a valid `remap_ids` entry (`[u:|g:]DISK:SEEN`, where
/// DISK and SEEN are each `me` or a `u32`), or `None` when it is one.
pub open spec fn id_spec_error(spec: Seq<char>) -> Option<Seq<char>> {
    let parts = split_on(spec, ':');
    let well_shaped = parts.len() == 2 || (parts.len() == 3 && (parts[0] == "u"@ || parts[0]
        == "g"@));
    if !well_shaped {
        Some(
            "invalid remap_ids entry "@ + str_debug(spec)
                + ": expected [u:|g:]DISK:SEEN (e.g. `me:0`, `u:0:33`)"@,
        )
    } else {
        let disk = parts[parts.len() - 2];
        let seen = parts[parts.len() - 1];
        if !(disk == "me"@ || parses_u32(disk)) {
            Some(bad_id_message(spec, disk))
        } else if !(seen == "me"@ || parses_u32(seen)) {
            Some(bad_id_message(spec, seen))
        } else {
            None
        }
    }
}

/// The message for an id token that is neither a number nor `me`.
pub open spec fn bad_id_message(spec: Seq<char>, tok: Seq<char>) -> Seq<char> {
    "invalid remap_ids entry "@ + str_debug(spec) + ": id "@ + str_debug(tok)
        + " is not a number or `me`"@
}

fn bad_id(spec: &str, tok: &str) -> (r: String)
    ensures
        r@ == bad_id_message(spec@, tok@),
{
    let mut m = String::new();
    append_str(&mut m, "invalid remap_ids entry ");
    let q = debug_quoted(spec);
    append_str(&mut m, q.as_str());
    append_str(&mut m, ": id ");
    let t = debug_quoted(tok);
    append_str(&mut m, t.as_str());
    append_str(&mut m, " is not a number or `me`");
    m
}

/// Rejects a `remap_ids` swap that docker-bluff would reject at spawn time, so
/// a typo fails at configuration load instead.
pub fn validate_id_spec(spec: &str) -> (r: Result<(), String>)
    ensures
        match r {
            Ok(()) => id_spec_error(spec@).is_none(),
            Err(e) => id_spec_error(spec@) == Some(e@),
        },
{
    let parts = split_char(spec, ':');
    let n = parts.len();
    let well_shaped = n == 2 || (n == 3 && (str_eq(parts[0].as_str(), "u") || str_eq(
        parts[0].as_str(),
        "g",
    )));
    proof {
        if n == 3 {
            assert(views(parts@)[0] == parts@[0]@);
        }
    }
    if !well_shaped {
        let mut m = String::new();
        append_str(&mut m, "invalid remap_ids entry ");
        let q = debug_quoted(spec);
        append_str(&mut m, q.as_str());
        append_str(&mut m, ": expected [u:|g:]DISK:SEEN (e.g. `me:0`, `u:0:33`)");
        return Err(m);
    }
    let disk = &parts[n - 2];
    let seen = &parts[n - 1];
    assert(views(parts@)[n - 2] == disk@);
    assert(views(parts@)[n - 1] == seen@);
    if !(str_eq(disk.as_str(), "me") || is_u32(disk.as_str())) {
        return Err(bad_id(spec, disk.as_str()));
    }
    if !(str_eq(seen.as_str(), "me") || is_u32(seen.as_str())) {
        return Err(bad_id(spec, seen.as_str()));
    }
    Ok(())
}

/// Why `spec` is not a valid `remap_paths` entry (`SRC[:DST]`, both non-empty
/// and absolute), or `None` when it is one.
pub open spec fn path_spec_error(spec: Seq<char>) -> Option<Seq<char>> {
    let parts = split_on(spec, ':');
    let src = parts[0];
    let dst = if parts.len() == 1 {
        spec
    } else {
        spec.skip(src.len() + 1int)
    };
    if src.len() == 0 || dst.len() == 0 {
        Some(
            "invalid remap_paths entry "@ + str_debug(spec)
                + ": expected SRC[:DST] with non-empty paths"@,
        )
    } else if !(src[0] == '/' && dst[0] == '/') {
        Some("invalid remap_paths entry "@ + str_debug(spec) + ": paths must be absolute"@)
    } else {
        None
    }
}

/// Position of the first `c` in `v`, if any.
fn first_index_of(v: &Vec<char>, c: char) -> (r: Option<usize>)
    ensures
        match r {
            Some(i) => i < v@.len() && v@[i as int] == c && forall|j: int|
                0 <= j < i ==> v@[j] != c,
            None => forall|j: int| 0 <= j < v@.len() ==> v@[j] != c,
        },
{
    let mut i: usize = 0;
    while i < v.len()
        invariant
            i <= v@.len(),
            forall|j: int| 0 <= j < i ==> v@[j] != c,
        decreases v@.len() - i,
    {
        if v[i] == c {
            return Some(i);
        }
        i = i + 1;
    }
    None
}

proof fn lemma_first_piece_general(s: Seq<char>, c: char)
    ensures
        split_on(s, c).len() >= 1,
        (forall|j: int| 0 <= j < s.len() ==> s[j] != c) ==> split_on(s, c).len() == 1
            && split_on(s, c)[0] == s,
        forall|k: int|
            0 <= k < s.len() && s[k] == c && (forall|j: int| 0 <= j < k ==> s[j] != c) ==> split_on(
                s,
                c,
            ).len() >= 2 && split_on(s, c)[0] == s.take(k),
    decreases s.len(),
{
    lemma_split_on_nonempty(s, c);
    if s.len() > 0 {
        let t = s.drop_last();
        lemma_first_piece_general(t, c);
        lemma_split_on_nonempty(t, c);
        assert forall|k: int|
            0 <= k < s.len() && s[k] == c && (forall|j: int| 0 <= j < k ==> s[j] != c) implies split_on(
            s,
            c,
        ).len() >= 2 && split_on(s, c)[0] == s.take(k) by {
            if k == s.len() - 1 {
                assert(forall|j: int| 0 <= j < t.len() ==> t[j] != c);
                assert(t == s.take(k));
            } else {
                assert(t[k] == c);
                assert(forall|j: int| 0 <= j < k ==> t[j] != c);
                assert(t.take(k) == s.take(k));
            }
        }
        if forall|j: int| 0 <= j < s.len() ==> s[j] != c {
            assert(forall|j: int| 0 <= j < t.len() ==> t[j] != c);
            assert(t.push(s.last()) == s);
        }
    }
}

/// Rejects a `remap_paths` entry docker-bluff would reject: `--map SRC[:DST]`
/// requires non-empty, absolute paths.
pub fn validate_path_spec(spec: &str) -> (r: Result<(), String>)
    ensures
        match r {
            Ok(()) => path_spec_error(spec@).is_none(),
            Err(e) => path_spec_error(spec@) == Some(e@),
        },
{
    let v = chars_of(spec);
    proof {
        lemma_first_piece_general(spec@, ':');
    }
    let (src_lo, src_hi, dst_lo) = match first_index_of(&v, ':') {
        Some(i) => (0usize, i, i + 1),
        None => (0usize, v.len(), 0usize),
    };
    let ghost src = v@.subrange(src_lo as int, src_hi as int);
    let ghost dst = v@.subrange(dst_lo as int, v@.len() as int);
    proof {
        let parts = split_on(spec@, ':');
        assert(src == spec@.take(src_hi as int));
        assert(parts[0] == src);
        if parts.len() == 1 {
            assert(dst == spec@);
        } else {
            assert(dst == spec@.skip(src.len() + 1int));
        }
    }
    let src_empty = src_hi == src_lo;
    let dst_empty = dst_lo == v.len();
    if src_empty || dst_empty {
        let mut m = String::new();
        append_str(&mut m, "invalid remap_paths entry ");
        let q = debug_quoted(spec);
        append_str(&mut m, q.as_str());
        append_str(&mut m, ": expected SRC[:DST] with non-empty paths");
        return Err(m);
    }
    if !(v[src_lo] == '/' && v[dst_lo] == '/') {
        let mut m = String::new();
        append_str(&mut m, "invalid remap_paths entry ");
        let q = debug_quoted(spec);
        append_str(&mut m, q.as_str());
        append_str(&mut m, ": paths must be absolute");
        return Err(m);
    }
    Ok(())
}

/// The `--id`/`--map` flags for entries `specs` (each trimmed and expanded),
/// or the first entry's error prefixed with the process name.
pub open spec fn remap_flags(
    specs: Seq<Seq<char>>,
    flag: Seq<char>,
    is_id: bool,
    vars: Map<Seq<char>, Seq<char>>,
    name: Seq<char>,
) -> Result<Seq<Seq<char>>, Seq<char>>
    decreases specs.len(),
{
    if specs.len() == 0 {
        Ok(Seq::empty())
    } else {
        match remap_flags(specs.drop_last(), flag, is_id, vars, name) {
            Err(e) => Err(e),
            Ok(flags) => {
                let x = expand(trim(specs.last()), vars);
                let err = if is_id {
                    id_spec_error(x)
                } else {
                    path_spec_error(x)
                };
                match err {
                    Some(e) => Err("Process '"@ + name + "': "@ + e),
                    None => Ok(flags.push(flag).push(x)),
                }
            },
        }
    }
}

/// What wrapping `cmd` under docker-bluff yields (see
/// [`wrap_with_docker_bluff`]).
pub open spec fn bluff_wrapped(
    cmd: Seq<Seq<char>>,
    remap_ids: Option<Seq<Seq<char>>>,
    remap_paths: Option<Seq<Seq<char>>>,
    vars: Map<Seq<char>, Seq<char>>,
    name: Seq<char>,
) -> Result<Seq<Seq<char>>, Seq<char>> {
    let paths = match remap_paths {
        Some(p) => p,
        None => Seq::empty(),
    };
    match remap_ids {
        None => if paths.len() > 0 {
            Err(
                "Process '"@ + name
                    + "' sets `remap_paths` but no `remap_ids`; paths cannot be remapped without an id swap (e.g. `me:0`)."@,
            )
        } else {
            Ok(cmd)
        },
        Some(ids) => if ids.len() == 0 {
            Err(
                "Process '"@ + name
                    + "' has an empty `remap_ids`; add at least one swap (e.g. `me:0`)."@,
            )
        } else {
            match remap_flags(ids, "--id"@, true, vars, name) {
                Err(e) => Err(e),
                Ok(id_flags) => match remap_flags(paths, "--map"@, false, vars, name) {
                    Err(e) => Err(e),
                    Ok(map_flags) => Ok(seq!["docker-bluff"@] + id_flags + map_flags + seq!["--"@]
                        + cmd),
                },
            }
        },
    }
}

/// The views of an optional slice of strings.
pub open spec fn opt_views(o: Option<&[String]>) -> Option<Seq<Seq<char>>> {
    match o {
        Some(s) => Some(views(s@)),
        None => None,
    }
}

fn push_flags(
    out: &mut Vec<String>,
    specs: &[String],
    flag: &str,
    is_id: bool,
    vars: &StrMap<String>,
    name: &str,
) -> (r: Result<(), String>)
    ensures
        match remap_flags(views(specs@), flag@, is_id, vars.str_map(), name@) {
            Ok(f) => r.is_ok() && views(final(out)@) == views(old(out)@) + f,
            Err(e) => r.is_err() && r->Err_0@ == e,
        },
{
    let ghost sv = views(specs@);
    let mut i: usize = 0;
    let ghost base = views(out@);
    assert(sv.take(0) == Seq::<Seq<char>>::empty());
    assert(base + Seq::<Seq<char>>::empty() == base);
    while i < specs.len()
        invariant
            i <= specs@.len(),
            sv == views(specs@),
            base == views(old(out)@),
            remap_flags(sv.take(i as int), flag@, is_id, vars.str_map(), name@) is Ok,
            views(out@) == base + remap_flags(
                sv.take(i as int),
                flag@,
                is_id,
                vars.str_map(),
                name@,
            )->Ok_0,
        decreases specs@.len() - i,
    {
        let ghost pre = remap_flags(sv.take(i as int), flag@, is_id, vars.str_map(), name@)->Ok_0;
        proof {
            assert(sv.take(i + 1).drop_last() == sv.take(i as int));
            assert(sv.take(i + 1).last() == specs@[i as int]@);
        }
        let t = trimmed(specs[i].as_str());
        let expanded = apply_vars(t.as_str(), vars);
        let checked = if is_id {
            validate_id_spec(expanded.as_str())
        } else {
            validate_path_spec(expanded.as_str())
        };
        match checked {
            Err(e) => {
                let mut m = String::new();
                append_str(&mut m, "Process '");
                append_str(&mut m, name);
                append_str(&mut m, "': ");
                append_str(&mut m, e.as_str());
                proof {
                    lemma_remap_flags_err_sticks(sv, i as int + 1, flag@, is_id, vars.str_map(), name@);
                }
                return Err(m);
            },
            Ok(()) => {
                let ghost out0 = out@;
                let f = owned_str(flag);
                let ghost ev = expanded@;
                out.push(f);
                out.push(expanded);
                proof {
                    assert(views(out@) =~= views(out0).push(flag@).push(ev));
                    assert(views(out@) =~= base + pre.push(flag@).push(
                        expand(trim(specs@[i as int]@), vars.str_map()),
                    ));
                }
            },
        }
        i = i + 1;
    }
    assert(sv.take(specs@.len() as int) == sv);
    Ok(())
}

fn owned_str(s: &str) -> (r: String)
    ensures
        r@ == s@,
{
    s.to_owned()
}

proof fn lemma_remap_flags_err_sticks(
    specs: Seq<Seq<char>>,
    k: int,
    flag: Seq<char>,
    is_id: bool,
    vars: Map<Seq<char>, Seq<char>>,
    name: Seq<char>,
)
    requires
        0 <= k <= specs.len(),
        remap_flags(specs.take(k), flag, is_id, vars, name) is Err,
    ensures
        remap_flags(specs, flag, is_id, vars, name) == remap_flags(specs.take(k), flag, is_id, vars, name),
    decreases specs.len() - k,
{
    if k < specs.len() {
        assert(specs.take(k + 1).drop_last() == specs.take(k));
        lemma_remap_flags_err_sticks(specs, k + 1, flag, is_id, vars, name);
    } else {
        assert(specs.take(k) == specs);
    }
}

/// When `remap_ids` is set, wraps an already-built command so it runs under
/// `docker-bluff`: `docker-bluff --id <id>... --map <path>... -- <cmd>`, each
/// entry trimmed, expanded and validated. `remap_paths` without `remap_ids`,
/// or an empty `remap_ids`, is an error. When `remap_ids` is absent the command
/// is returned unchanged. Any shell wrapping already in `cmd` is preserved.
pub fn wrap_with_docker_bluff(
    cmd: Vec<String>,
    remap_ids: Option<&[String]>,
    remap_paths: Option<&[String]>,
    vars: &StrMap<String>,
    name: &str,
) -> (r: Result<Vec<String>, String>)
    ensures
        match bluff_wrapped(views(cmd@), opt_views(remap_ids), opt_views(remap_paths), vars.str_map(), name@) {
            Ok(w) => r.is_ok() && views(r->Ok_0@) == w,
            Err(e) => r.is_err() && r->Err_0@ == e,
        },
{
    let empty: Vec<String> = Vec::new();
    let paths: &[String] = match remap_paths {
        Some(p) => p,
        None => empty.as_slice(),
    };
    assert(views(paths@) == match opt_views(remap_paths) {
        Some(p) => p,
        None => Seq::<Seq<char>>::empty(),
    });
    let ids: &[String] = match remap_ids {
        Some(ids) => {
            if ids.len() == 0 {
                let mut m = String::new();
                append_str(&mut m, "Process '");
                append_str(&mut m, name);
                append_str(&mut m, "' has an empty `remap_ids`; add at least one swap (e.g. `me:0`).");
                return Err(m);
            }
            ids
        },
        None => {
            if paths.len() > 0 {
                let mut m = String::new();
                append_str(&mut m, "Process '");
                append_str(&mut m, name);
                append_str(
                    &mut m,
                    "' sets `remap_paths` but no `remap_ids`; paths cannot be remapped without an id swap (e.g. `me:0`).",
                );
                return Err(m);
            }
            return Ok(cmd);
        },
    };
    let mut wrapped: Vec<String> = Vec::new();
    wrapped.push(owned_str("docker-bluff"));
    assert(views(wrapped@) =~= seq!["docker-bluff"@]);
    let ghost vm = vars.str_map();
    match push_flags(&mut wrapped, ids, "--id", true, vars, name) {
        Ok(()) => {},
        Err(e) => {
            return Err(e);
        },
    }
    let ghost idf = remap_flags(views(ids@), "--id"@, true, vm, name@)->Ok_0;
    assert(views(wrapped@) == seq!["docker-bluff"@] + idf);
    match push_flags(&mut wrapped, paths, "--map", false, vars, name) {
        Ok(()) => {},
        Err(e) => {
            return Err(e);
        },
    }
    let ghost mapf = remap_flags(views(paths@), "--map"@, false, vm, name@)->Ok_0;
    assert(views(wrapped@) == seq!["docker-bluff"@] + idf + mapf);
    let ghost w1 = wrapped@;
    wrapped.push(owned_str("--"));
    assert(views(wrapped@) =~= views(w1).push("--"@));
    assert(views(wrapped@) =~= seq!["docker-bluff"@] + idf + mapf + seq!["--"@]);
    let ghost before = views(wrapped@);
    let mut i: usize = 0;
    while i < cmd.len()
        invariant
            i <= cmd@.len(),
            views(wrapped@) == before + views(cmd@).take(i as int),
        decreases cmd@.len() - i,
    {
        let ghost w0 = wrapped@;
        let item = cmd[i].clone();
        wrapped.push(item);
        assert(views(wrapped@) =~= views(w0).push(cmd@[i as int]@));
        assert(views(wrapped@) =~= before + views(cmd@).take(i + 1));
        i = i + 1;
    }
    assert(views(cmd@).take(cmd@.len() as int) == views(cmd@));
    Ok(wrapped)
}

} // verus!
