//! The derives the `FieldName` enum gets: the paths listed in
//! `#[stem_name_derive(..)]`, the `no_defaults` flag, and the default derives
//! merged in.

use vstd::prelude::*;

use crate::common::{lists_at, path_to_string, DerivePath};
use crate::error::DeriveError;
use crate::model::{Attribute, Meta, Token};
use crate::text::{join_path, str_eq};

verus! {

/// The derives the `FieldName` enum gets unless `no_defaults` is given.
pub open spec fn default_derive_names() -> Seq<Seq<char>> {
    seq!["Debug"@, "PartialEq"@, "Eq"@, "Clone"@, "Copy"@]
}

/// The derive paths, each by its segments.
pub open spec fn paths_view(v: Seq<DerivePath>) -> Seq<Seq<Seq<char>>> {
    v.map_values(|p: DerivePath| p@)
}

pub open spec fn is_punct(t: Token, c: char) -> bool {
    t matches Token::Punct(d) && d == c
}

/// The rest of a path whose first segments are `segs`, from token `q` on:
/// each `::` (two tokens) must be followed by an identifier. Gives the
/// position after the path and its segments.
pub open spec fn scan_path_from(toks: Seq<Token>, attr: usize, q: int, segs: Seq<Seq<char>>) -> Result<
    (int, Seq<Seq<char>>),
    DeriveError,
>
    decreases toks.len() - q,
{
    if q < 0 || q >= toks.len() || !is_punct(toks[q], ':') {
        Ok((q, segs))
    } else if q + 2 >= toks.len() {
        Err(DeriveError::SegmentEnd)
    } else {
        match toks[q + 2] {
            Token::Ident(n) => scan_path_from(toks, attr, q + 3, segs.push(n@)),
            _ => Err(DeriveError::SegmentExpected { attr, pos: (q + 2) as usize }),
        }
    }
}

pub proof fn lemma_scan_path_advances(toks: Seq<Token>, attr: usize, q: int, segs: Seq<Seq<char>>)
    requires
        0 <= q,
    ensures
        scan_path_from(toks, attr, q, segs) matches Ok((r, s)) ==> q <= r,
    decreases toks.len() - q,
{
    if q < toks.len() && is_punct(toks[q], ':') && q + 2 < toks.len() {
        if let Token::Ident(n) = toks[q + 2] {
            lemma_scan_path_advances(toks, attr, q + 3, segs.push(n@));
        }
    }
}

/// One derive list, from token `p` on, given whether the defaults are to be
/// merged and the paths read so far. `no_defaults` alone or `no_defaults =
/// true` turns the defaults off, `no_defaults = false` on; an identifier
/// starts a path; other punctuation is passed over; a literal or a group is an
/// error.
pub open spec fn scan_row_from(
    toks: Seq<Token>,
    attr: usize,
    p: int,
    merge: bool,
    paths: Seq<Seq<Seq<char>>>,
) -> Result<(bool, Seq<Seq<Seq<char>>>), DeriveError>
    decreases toks.len() - p,
{
    if p < 0 || p >= toks.len() {
        Ok((merge, paths))
    } else {
        match toks[p] {
            Token::Ident(id) => {
                if id@ == "no_defaults"@ {
                    if p + 1 < toks.len() && is_punct(toks[p + 1], '=') {
                        if p + 2 >= toks.len() {
                            Err(DeriveError::NoDefaultsEnd)
                        } else {
                            match toks[p + 2] {
                                Token::Ident(v) => if v@ == "true"@ {
                                    scan_row_from(toks, attr, p + 3, false, paths)
                                } else if v@ == "false"@ {
                                    scan_row_from(toks, attr, p + 3, true, paths)
                                } else {
                                    Err(DeriveError::NoDefaultsValue { attr, pos: (p + 2) as usize })
                                },
                                _ => Err(DeriveError::NoDefaultsValue { attr, pos: (p + 2) as usize }),
                            }
                        }
                    } else {
                        scan_row_from(toks, attr, p + 1, false, paths)
                    }
                } else {
                    match scan_path_from(toks, attr, p + 1, seq![id@]) {
                        Ok((q, segs)) => if p < q <= toks.len() {
                            scan_row_from(toks, attr, q, merge, paths.push(segs))
                        } else {
                            Ok((merge, paths))
                        },
                        Err(e) => Err(e),
                    }
                }
            },
            Token::Punct(_) => scan_row_from(toks, attr, p + 1, merge, paths),
            Token::Other(_) => Err(DeriveError::UnexpectedToken { attr, pos: p as usize }),
        }
    }
}

/// The derive lists of the attributes at `rows`, from list `k` on.
pub open spec fn scan_rows_from(
    attrs: Seq<Attribute>,
    rows: Seq<usize>,
    k: int,
    merge: bool,
    paths: Seq<Seq<Seq<char>>>,
) -> Result<(bool, Seq<Seq<Seq<char>>>), DeriveError>
    decreases rows.len() - k,
{
    if k < 0 || k >= rows.len() {
        Ok((merge, paths))
    } else {
        match attrs[rows[k] as int].meta {
            Meta::List { tokens, text, .. } => match scan_row_from(tokens@, rows[k], 0, merge, paths) {
                Ok((m, ps)) => scan_rows_from(attrs, rows, k + 1, m, ps),
                Err(e) => Err(e),
            },
            _ => scan_rows_from(attrs, rows, k + 1, merge, paths),
        }
    }
}

/// Some path among `paths` is written `d`.
pub open spec fn names_path(paths: Seq<Seq<Seq<char>>>, d: Seq<char>) -> bool {
    exists|i: int| 0 <= i < paths.len() && join_path(#[trigger] paths[i]) == d
}

/// `paths` with each of `defaults`, from the `i`-th on, that is not yet
/// among them appended as a one-segment path.
pub open spec fn merge_from(paths: Seq<Seq<Seq<char>>>, defaults: Seq<Seq<char>>, i: int) -> Seq<
    Seq<Seq<char>>,
>
    decreases defaults.len() - i,
{
    if i < 0 || i >= defaults.len() {
        paths
    } else if names_path(paths, defaults[i]) {
        merge_from(paths, defaults, i + 1)
    } else {
        merge_from(paths.push(seq![defaults[i]]), defaults, i + 1)
    }
}

/// The derives of the `FieldName` enum: the paths listed, in order, then,
/// unless `no_defaults` turned them off, each default derive that is not
/// listed.
pub open spec fn enum_derives(attrs: Seq<Attribute>, rows: Seq<usize>) -> Result<
    Seq<Seq<Seq<char>>>,
    DeriveError,
> {
    match scan_rows_from(attrs, rows, 0, true, Seq::empty()) {
        Ok((m, ps)) => Ok(
            if m {
                merge_from(ps, default_derive_names(), 0)
            } else {
                ps
            },
        ),
        Err(e) => Err(e),
    }
}

fn is_punct_tok(t: &Token, c: char) -> (r: bool)
    ensures
        r == is_punct(*t, c),
{
    match t {
        Token::Punct(d) => *d == c,
        _ => false,
    }
}

fn one_segment(s: &str) -> (r: DerivePath)
    ensures
        r@ == seq![s@],
{
    let mut segments: Vec<String> = Vec::new();
    segments.push(String::from_str(s));
    let r = DerivePath { segments };
    assert(r@ =~= seq![s@]);
    r
}

/// Reads one derive list into `merge` and `derives`.
fn scan_row(tokens: &Vec<Token>, attr: usize, merge: &mut bool, derives: &mut Vec<DerivePath>) -> (r:
    Result<(), DeriveError>)
    ensures
        match scan_row_from(tokens@, attr, 0, *old(merge), paths_view(old(derives)@)) {
            Ok((m, ps)) => r is Ok && *final(merge) == m && paths_view(final(derives)@) == ps,
            Err(e) => r == Err::<(), DeriveError>(e),
        },
{
    let n = tokens.len();
    let mut p: usize = 0;
    while p < n
        invariant
            n == tokens@.len(),
            p <= n,
            scan_row_from(tokens@, attr, p as int, *merge, paths_view(derives@)) == scan_row_from(
                tokens@,
                attr,
                0,
                *old(merge),
                paths_view(old(derives)@),
            ),
        decreases n - p,
    {
        match &tokens[p] {
            Token::Ident(id) => {
                if str_eq(id.as_str(), "no_defaults") {
                    if n - p > 1 && is_punct_tok(&tokens[p + 1], '=') {
                        if n - p <= 2 {
                            return Err(DeriveError::NoDefaultsEnd);
                        }
                        match &tokens[p + 2] {
                            Token::Ident(v) => {
                                if str_eq(v.as_str(), "true") {
                                    *merge = false;
                                } else if str_eq(v.as_str(), "false") {
                                    *merge = true;
                                } else {
                                    return Err(DeriveError::NoDefaultsValue { attr, pos: p + 2 });
                                }
                            },
                            _ => {
                                return Err(DeriveError::NoDefaultsValue { attr, pos: p + 2 });
                            },
                        }
                        p = p + 3;
                    } else {
                        *merge = false;
                        p = p + 1;
                    }
                } else {
                    let mut segments: Vec<String> = Vec::new();
                    segments.push(id.clone());
                    let mut q: usize = p + 1;
                    proof {
                        assert(segments@.map_values(|s: String| s@) =~= seq![id@]);
                    }
                    while q < n && is_punct_tok(&tokens[q], ':')
                        invariant
                            n == tokens@.len(),
                            p < q <= n,
                            tokens@[p as int] == Token::Ident(*id),
                            id@ != "no_defaults"@,
                            scan_row_from(tokens@, attr, p as int, *merge, paths_view(derives@))
                                == scan_row_from(
                                tokens@,
                                attr,
                                0,
                                *old(merge),
                                paths_view(old(derives)@),
                            ),
                            scan_path_from(
                                tokens@,
                                attr,
                                q as int,
                                segments@.map_values(|s: String| s@),
                            ) == scan_path_from(tokens@, attr, p + 1, seq![id@]),
                        decreases n - q,
                    {
                        if n - q <= 2 {
                            return Err(DeriveError::SegmentEnd);
                        }
                        match &tokens[q + 2] {
                            Token::Ident(next) => {
                                let ghost before = segments@;
                                segments.push(next.clone());
                                proof {
                                    assert(segments@.map_values(|s: String| s@) =~= before.map_values(
                                        |s: String| s@,
                                    ).push(next@));
                                }
                                q = q + 3;
                            },
                            _ => {
                                return Err(DeriveError::SegmentExpected { attr, pos: q + 2 });
                            },
                        }
                    }
                    let ghost before = derives@;
                    derives.push(DerivePath { segments });
                    proof {
                        lemma_scan_path_advances(tokens@, attr, p + 1, seq![id@]);
                        assert(paths_view(derives@) =~= paths_view(before).push(
                            derives@.last()@,
                        ));
                    }
                    p = q;
                }
            },
            Token::Punct(_) => {
                p = p + 1;
            },
            Token::Other(_) => {
                return Err(DeriveError::UnexpectedToken { attr, pos: p });
            },
        }
    }
    Ok(())
}

fn default_derive(i: usize) -> (r: &'static str)
    requires
        i < 5,
    ensures
        r@ == default_derive_names()[i as int],
{
    if i == 0 {
        "Debug"
    } else if i == 1 {
        "PartialEq"
    } else if i == 2 {
        "Eq"
    } else if i == 3 {
        "Clone"
    } else {
        "Copy"
    }
}

fn lists_path(derives: &Vec<DerivePath>, d: &str) -> (r: bool)
    ensures
        r == names_path(paths_view(derives@), d@),
{
    let mut i: usize = 0;
    while i < derives.len()
        invariant
            i <= derives@.len(),
            forall|k: int| 0 <= k < i ==> join_path(#[trigger] paths_view(derives@)[k]) != d@,
        decreases derives@.len() - i,
    {
        let s = path_to_string(&derives[i]);
        if str_eq(s.as_str(), d) {
            assert(join_path(paths_view(derives@)[i as int]) == d@);
            return true;
        }
        i = i + 1;
    }
    false
}

/// The derives the `FieldName` enum gets, read from the derive lists of the
/// attributes at `rows` (`#[stem_name_derive(Debug, serde::Serialize)]`),
/// with the default derives merged in unless `no_defaults` says otherwise.
pub fn extract_enum_derives(attrs: &Vec<Attribute>, rows: &Vec<usize>) -> (r: Result<
    Vec<DerivePath>,
    DeriveError,
>)
    requires
        lists_at(attrs@, rows@),
    ensures
        match (r, enum_derives(attrs@, rows@)) {
            (Ok(v), Ok(s)) => paths_view(v@) == s,
            (Err(e), Err(f)) => e == f,
            _ => false,
        },
{
    let mut merge = true;
    let mut derives: Vec<DerivePath> = Vec::new();
    let mut k: usize = 0;
    assert(paths_view(derives@) =~= Seq::<Seq<Seq<char>>>::empty());
    while k < rows.len()
        invariant
            k <= rows@.len(),
            lists_at(attrs@, rows@),
            scan_rows_from(attrs@, rows@, k as int, merge, paths_view(derives@)) == scan_rows_from(
                attrs@,
                rows@,
                0,
                true,
                Seq::empty(),
            ),
        decreases rows@.len() - k,
    {
        let row = rows[k];
        match &attrs[row].meta {
            Meta::List { tokens, text, .. } => {
                match scan_row(tokens, row, &mut merge, &mut derives) {
                    Ok(()) => {},
                    Err(e) => {
                        return Err(e);
                    },
                }
            },
            _ => {},
        }
        k = k + 1;
    }
    if merge {
        let ghost scanned = paths_view(derives@);
        let mut i: usize = 0;
        while i < 5
            invariant
                i <= 5,
                merge_from(paths_view(derives@), default_derive_names(), i as int) == merge_from(
                    scanned,
                    default_derive_names(),
                    0,
                ),
            decreases 5 - i,
        {
            let d = default_derive(i);
            if !lists_path(&derives, d) {
                let ghost before = derives@;
                derives.push(one_segment(d));
                assert(paths_view(derives@) =~= paths_view(before).push(seq![d@]));
            }
            i = i + 1;
        }
    }
    Ok(derives)
}

/// A copy of the derive paths.
pub fn copy_paths(v: &Vec<DerivePath>) -> (r: Vec<DerivePath>)
    ensures
        paths_view(r@) == paths_view(v@),
{
    let mut out: Vec<DerivePath> = Vec::new();
    let mut i: usize = 0;
    while i < v.len()
        invariant
            i <= v@.len(),
            paths_view(out@) == paths_view(v@.take(i as int)),
        decreases v@.len() - i,
    {
        let segments = crate::slots::duplicate_vec(&v[i].segments);
        let ghost before = out@;
        out.push(DerivePath { segments });
        proof {
            assert(paths_view(out@) =~= paths_view(before).push(v@[i as int]@));
            assert(paths_view(v@.take(i + 1)) =~= paths_view(v@.take(i as int)).push(v@[i as int]@));
        }
        i = i + 1;
    }
    assert(v@.take(v@.len() as int) =~= v@);
    out
}

} // verus!
