//! Where the install task puts each file: distribution directories and
//! the destination paths built from them.

use vstd::prelude::*;

use crate::text::{lacks_char, replace, replace_spec, strip_prefix};

verus! {

/// The distribution's installation directories.
pub struct DistConfig {
    pub prefix: String,
    pub datadir: String,
    pub sysconfdir: String,
    pub libdir: String,
}

impl DistConfig {
    /// The directories from the `VENDOR_*` settings, each defaulting when
    /// unset: prefix `/usr`, data `/usr/share`, configuration `/etc`, and
    /// libraries `<prefix>/lib`.
    pub fn from_settings(
        prefix: Option<String>,
        datadir: Option<String>,
        sysconfdir: Option<String>,
        libdir: Option<String>,
    ) -> (res: DistConfig)
        ensures
            res.prefix@ == match prefix {
                Some(p) => p@,
                None => "/usr"@,
            },
            res.datadir@ == match datadir {
                Some(d) => d@,
                None => "/usr/share"@,
            },
            res.sysconfdir@ == match sysconfdir {
                Some(d) => d@,
                None => "/etc"@,
            },
            res.libdir@ == match libdir {
                Some(d) => d@,
                None => res.prefix@ + "/lib"@,
            },
    {
        let prefix = match prefix {
            Some(p) => p,
            None => "/usr".to_owned(),
        };
        let datadir = match datadir {
            Some(d) => d,
            None => "/usr/share".to_owned(),
        };
        let sysconfdir = match sysconfdir {
            Some(d) => d,
            None => "/etc".to_owned(),
        };
        let libdir = match libdir {
            Some(d) => d,
            None => {
                let mut l = prefix.clone();
                l.append("/lib");
                l
            },
        };
        DistConfig { prefix, datadir, sysconfdir, libdir }
    }
}

/// `rel` appended to `base` as `Path::join` does on Unix: an absolute
/// `rel` replaces `base`; otherwise a `/` goes between them unless `base`
/// is empty or already ends in one.
pub open spec fn join_path_spec(base: Seq<char>, rel: Seq<char>) -> Seq<char> {
    if rel.len() > 0 && rel[0] == '/' {
        rel
    } else if base.len() > 0 && base.last() != '/' {
        base + "/"@ + rel
    } else {
        base + rel
    }
}

/// `Path::join` on Unix paths held as strings.
pub fn join_path(base: &str, rel: &str) -> (res: String)
    ensures
        res@ == join_path_spec(base@, rel@),
{
    let cb = crate::text::chars_of(base);
    let cr = crate::text::chars_of(rel);
    if cr.len() > 0 && cr[0] == '/' {
        return rel.to_owned();
    }
    let mut res = base.to_owned();
    if cb.len() > 0 && cb[cb.len() - 1] != '/' {
        res.append("/");
    }
    res.append(rel);
    res
}

/// `dest` with the directory variables `$prefix`, `$datadir`,
/// `$sysconfdir` and `$libdir` replaced, in that order.
pub open spec fn expand_dest_spec(dest: Seq<char>, dist: DistConfig) -> Seq<char> {
    let a = replace_spec(dest, "$prefix"@, dist.prefix@);
    let b = replace_spec(a, "$datadir"@, dist.datadir@);
    let c = replace_spec(b, "$sysconfdir"@, dist.sysconfdir@);
    replace_spec(c, "$libdir"@, dist.libdir@)
}

/// Where a file with destination `dest` goes: the expanded destination,
/// placed under `destdir` (with one leading `/` dropped) when staging.
pub open spec fn dest_path_spec(destdir: Option<Seq<char>>, dest: Seq<char>, dist: DistConfig) -> Seq<char> {
    let expanded = expand_dest_spec(dest, dist);
    match destdir {
        Some(d) => join_path_spec(
            d,
            if "/"@.is_prefix_of(expanded) {
                expanded.skip(1)
            } else {
                expanded
            },
        ),
        None => expanded,
    }
}

/// The installation path of a file whose configured destination is
/// `dest_path`.
pub fn prepare_dest_path(destdir: Option<&str>, dest_path: &str, defined_paths: &DistConfig) -> (res: String)
    ensures
        res@ == dest_path_spec(
            match destdir {
                Some(d) => Some(d@),
                None => None,
            },
            dest_path@,
            *defined_paths,
        ),
{
    proof {
        reveal_strlit("$prefix");
        reveal_strlit("$datadir");
        reveal_strlit("$sysconfdir");
        reveal_strlit("$libdir");
        reveal_strlit("/");
    }
    let a = replace(dest_path, "$prefix", defined_paths.prefix.as_str());
    let b = replace(a.as_str(), "$datadir", defined_paths.datadir.as_str());
    let c = replace(b.as_str(), "$sysconfdir", defined_paths.sysconfdir.as_str());
    let dest_str = replace(c.as_str(), "$libdir", defined_paths.libdir.as_str());
    match destdir {
        Some(destdir_path) => {
            let rel = match strip_prefix(dest_str.as_str(), "/") {
                Some(r) => r,
                None => dest_str,
            };
            join_path(destdir_path, rel.as_str())
        },
        None => dest_str,
    }
}

/// Replacing in a text that lacks the pattern's first character changes
/// nothing.
proof fn lemma_replace_absent(s: Seq<char>, pat: Seq<char>, rep: Seq<char>)
    requires
        pat.len() > 0,
        lacks_char(s, pat[0]),
    ensures
        replace_spec(s, pat, rep) == s,
    decreases s.len(),
{
    if s.len() > 0 {
        assert(s[0] != pat[0]);
        assert(!pat.is_prefix_of(s));
        let t = s.drop_first();
        assert forall|i: int| 0 <= i < t.len() implies #[trigger] t[i] != pat[0] by {
            assert(t[i] == s[i + 1]);
        }
        lemma_replace_absent(t, pat, rep);
        assert(seq![s[0]] + t =~= s);
    }
}

/// A head that lacks the pattern's first character passes through a
/// replacement untouched.
proof fn lemma_replace_head(u: Seq<char>, t: Seq<char>, pat: Seq<char>, rep: Seq<char>)
    requires
        pat.len() > 0,
        lacks_char(u, pat[0]),
    ensures
        replace_spec(u + t, pat, rep) == u + replace_spec(t, pat, rep),
    decreases u.len(),
{
    if u.len() > 0 {
        let s = u + t;
        assert(s[0] == u[0]);
        assert(!pat.is_prefix_of(s));
        let u1 = u.drop_first();
        assert forall|i: int| 0 <= i < u1.len() implies #[trigger] u1[i] != pat[0] by {
            assert(u1[i] == u[i + 1]);
        }
        assert(s.drop_first() =~= u1 + t);
        lemma_replace_head(u1, t, pat, rep);
        assert(seq![u[0]] + (u1 + replace_spec(t, pat, rep)) =~= u + replace_spec(t, pat, rep));
    } else {
        assert(u + t =~= t);
        assert(u + replace_spec(t, pat, rep) =~= replace_spec(t, pat, rep));
    }
}

/// Whether `k` names a directory variable: `$` then a name without `$`.
spec fn is_variable(k: Seq<char>) -> bool {
    k.len() >= 2 && k[0] == '$' && lacks_char(k.drop_first(), '$')
}

/// One replacement step on `u`, a variable `k`, then `w`: the variable
/// becomes `rep` when it is the pattern, and stays when the pattern is
/// another variable (they differ in their second character).
proof fn lemma_replace_step(u: Seq<char>, k: Seq<char>, w: Seq<char>, pat: Seq<char>, rep: Seq<char>)
    requires
        lacks_char(u, '$'),
        lacks_char(w, '$'),
        is_variable(k),
        is_variable(pat),
    ensures
        k == pat ==> replace_spec(u + k + w, pat, rep) == u + rep + w,
        k[1] != pat[1] ==> replace_spec(u + k + w, pat, rep) == u + k + w,
{
    assert(u + k + w =~= u + (k + w));
    lemma_replace_head(u, k + w, pat, rep);
    if k == pat {
        let s = k + w;
        assert(pat.is_prefix_of(s)) by {
            assert(s.subrange(0, pat.len() as int) =~= pat);
        }
        assert(s.skip(pat.len() as int) =~= w);
        lemma_replace_absent(w, pat, rep);
        assert(u + (rep + w) =~= u + rep + w);
    }
    if k[1] != pat[1] {
        let s = k + w;
        assert(s[1] == k[1]);
        assert(!pat.is_prefix_of(s));
        let r = s.drop_first();
        assert(r =~= k.drop_first() + w);
        assert forall|i: int| 0 <= i < r.len() implies #[trigger] r[i] != '$' by {
            if i < k.len() - 1 {
                assert(r[i] == k.drop_first()[i]);
            } else {
                assert(r[i] == w[i - (k.len() - 1)]);
            }
        }
        lemma_replace_absent(r, pat, rep);
        assert(seq![s[0]] + r =~= s);
    }
}

/// A text without `$` stays as it is through all four replacements.
proof fn lemma_expand_plain(s: Seq<char>, dist: DistConfig)
    requires
        lacks_char(s, '$'),
    ensures
        expand_dest_spec(s, dist) == s,
{
    reveal_strlit("$prefix");
    reveal_strlit("$datadir");
    reveal_strlit("$sysconfdir");
    reveal_strlit("$libdir");
    lemma_replace_absent(s, "$prefix"@, dist.prefix@);
    lemma_replace_absent(s, "$datadir"@, dist.datadir@);
    lemma_replace_absent(s, "$sysconfdir"@, dist.sysconfdir@);
    lemma_replace_absent(s, "$libdir"@, dist.libdir@);
}

/// Whether none of the distribution's directories holds a `$`.
pub open spec fn dirs_lack_dollar(dist: DistConfig) -> bool {
    &&& lacks_char(dist.prefix@, '$')
    &&& lacks_char(dist.datadir@, '$')
    &&& lacks_char(dist.sysconfdir@, '$')
    &&& lacks_char(dist.libdir@, '$')
}

/// `u + mid + w` has no `$` when none of its parts has one.
proof fn lemma_concat_lacks(u: Seq<char>, mid: Seq<char>, w: Seq<char>)
    requires
        lacks_char(u, '$'),
        lacks_char(mid, '$'),
        lacks_char(w, '$'),
    ensures
        lacks_char(u + mid + w, '$'),
{
    let s = u + mid + w;
    assert forall|i: int| 0 <= i < s.len() implies #[trigger] s[i] != '$' by {
        if i < u.len() {
            assert(s[i] == u[i]);
        } else if i < u.len() + mid.len() {
            assert(s[i] == mid[i - u.len()]);
        } else {
            assert(s[i] == w[i - u.len() - mid.len()]);
        }
    }
}

/// A destination with one directory variable, and no other `$`, expands
/// to the text around it with the variable replaced by its directory:
/// `u$prefixw` becomes `u` + prefix + `w`, and likewise for `$datadir`,
/// `$sysconfdir` and `$libdir`; a destination without `$` stays as it is.
/// So `$prefix/bin/scxctl` with the default prefix `/usr` is
/// `/usr/bin/scxctl`.
pub proof fn lemma_expand_one_variable(u: Seq<char>, w: Seq<char>, dist: DistConfig)
    requires
        lacks_char(u, '$'),
        lacks_char(w, '$'),
        dirs_lack_dollar(dist),
    ensures
        expand_dest_spec(u + w, dist) == u + w,
        expand_dest_spec(u + "$prefix"@ + w, dist) == u + dist.prefix@ + w,
        expand_dest_spec(u + "$datadir"@ + w, dist) == u + dist.datadir@ + w,
        expand_dest_spec(u + "$sysconfdir"@ + w, dist) == u + dist.sysconfdir@ + w,
        expand_dest_spec(u + "$libdir"@ + w, dist) == u + dist.libdir@ + w,
        dest_path_spec(None, u + "$prefix"@ + w, dist) == u + dist.prefix@ + w,
{
    reveal_strlit("$prefix");
    reveal_strlit("$datadir");
    reveal_strlit("$sysconfdir");
    reveal_strlit("$libdir");
    let p = "$prefix"@;
    let d = "$datadir"@;
    let c = "$sysconfdir"@;
    let l = "$libdir"@;
    assert(is_variable(p) && is_variable(d) && is_variable(c) && is_variable(l));
    lemma_concat_lacks(u, Seq::empty(), w);
    assert(u + Seq::<char>::empty() + w =~= u + w);
    lemma_expand_plain(u + w, dist);
    // $prefix
    lemma_replace_step(u, p, w, p, dist.prefix@);
    lemma_concat_lacks(u, dist.prefix@, w);
    lemma_expand_plain(u + dist.prefix@ + w, dist);
    lemma_replace_absent(u + dist.prefix@ + w, d, dist.datadir@);
    lemma_replace_absent(u + dist.prefix@ + w, c, dist.sysconfdir@);
    lemma_replace_absent(u + dist.prefix@ + w, l, dist.libdir@);
    // $datadir
    lemma_replace_step(u, d, w, p, dist.prefix@);
    lemma_replace_step(u, d, w, d, dist.datadir@);
    lemma_concat_lacks(u, dist.datadir@, w);
    lemma_replace_absent(u + dist.datadir@ + w, c, dist.sysconfdir@);
    lemma_replace_absent(u + dist.datadir@ + w, l, dist.libdir@);
    // $sysconfdir
    lemma_replace_step(u, c, w, p, dist.prefix@);
    lemma_replace_step(u, c, w, d, dist.datadir@);
    lemma_replace_step(u, c, w, c, dist.sysconfdir@);
    lemma_concat_lacks(u, dist.sysconfdir@, w);
    lemma_replace_absent(u + dist.sysconfdir@ + w, l, dist.libdir@);
    // $libdir
    lemma_replace_step(u, l, w, p, dist.prefix@);
    lemma_replace_step(u, l, w, d, dist.datadir@);
    lemma_replace_step(u, l, w, c, dist.sysconfdir@);
    lemma_replace_step(u, l, w, l, dist.libdir@);
}

} // verus!
