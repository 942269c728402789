//! Path strings the config loader and the tab titles work with: joining
//! (with `PathBuf::push` semantics on Unix), `~` expansion for imports,
//! the config file candidates, and `$HOME` shown as `~`.

use vstd::prelude::*;
use crate::terminal::opt_view;
use crate::text::chars_of;

verus! {

/// `rel` joined onto `base` the way `PathBuf::push` does on Unix: an
/// absolute `rel` replaces `base`; otherwise a `/` is put between them
/// unless `base` is empty or already ends in one.
pub open spec fn join_spec(base: Seq<char>, rel: Seq<char>) -> Seq<char> {
    if rel.len() > 0 && rel[0] == '/' {
        rel
    } else if base.len() == 0 || base.last() == '/' {
        base + rel
    } else {
        base + seq!['/'] + rel
    }
}

/// Join `rel` onto `base` (see [`join_spec`]).
pub fn join_path(base: &str, rel: &str) -> (p: String)
    ensures
        p@ == join_spec(base@, rel@),
{
    let b = chars_of(base);
    let r = chars_of(rel);
    if r.len() > 0 && r[0] == '/' {
        return rel.to_owned();
    }
    let mut p = base.to_owned();
    if !(b.len() == 0 || b[b.len() - 1] == '/') {
        p.append("/");
        proof {
            reveal_strlit("/");
        }
    }
    p.append(rel);
    assert(p@ =~= join_spec(base@, rel@));
    p
}

/// The path an `import` entry names, resolved: a leading `~/` (or a bare
/// `~`) means the home directory when it is known; a relative result is
/// taken relative to the importing file's directory.
pub open spec fn expand_spec(s: Seq<char>, base_dir: Seq<char>, home: Option<Seq<char>>) -> Seq<char> {
    let expanded = if s.len() >= 2 && s[0] == '~' && s[1] == '/' {
        match home {
            Some(h) => join_spec(h, s.skip(2)),
            None => s,
        }
    } else if s == seq!['~'] {
        match home {
            Some(h) => h,
            None => s,
        }
    } else {
        s
    };
    if expanded.len() > 0 && expanded[0] == '/' {
        expanded
    } else {
        join_spec(base_dir, expanded)
    }
}

/// Resolve an import path (see [`expand_spec`]).
pub fn expand_path(s: &str, base_dir: &str, home: Option<&str>) -> (p: String)
    ensures
        p@ == expand_spec(s@, base_dir@, match home {
            Some(h) => Some(h@),
            None => None,
        }),
{
    let cs = chars_of(s);
    let expanded: String = if cs.len() >= 2 && cs[0] == '~' && cs[1] == '/' {
        match home {
            Some(h) => {
                let rest = crate::text::string_from_chars(crate::text::copy_range(cs.as_slice(), 2, cs.len()).as_slice());
                assert(rest@ =~= s@.skip(2));
                join_path(h, rest.as_str())
            },
            None => s.to_owned(),
        }
    } else if cs.len() == 1 && cs[0] == '~' {
        assert(s@ =~= seq!['~']);
        match home {
            Some(h) => h.to_owned(),
            None => s.to_owned(),
        }
    } else {
        proof {
            if s@ == seq!['~'] {
                assert(s@.len() == 1);
            }
        }
        s.to_owned()
    };
    let e = chars_of(expanded.as_str());
    if e.len() > 0 && e[0] == '/' {
        expanded
    } else {
        join_path(base_dir, expanded.as_str())
    }
}

/// Where the alacritty config is looked for, in order: under
/// `$XDG_CONFIG_HOME` (when set and not empty), `~/.config`, `~` itself,
/// then the platform config directory (which on macOS is not where
/// alacritty looks, hence the `~/.config` entry).
pub open spec fn candidates_spec(
    xdg: Option<Seq<char>>,
    home: Option<Seq<char>>,
    config_dir: Option<Seq<char>>,
) -> Seq<Seq<char>> {
    (match xdg {
        Some(x) => if x.len() > 0 {
            seq![join_spec(x, "alacritty/alacritty.toml"@)]
        } else {
            Seq::empty()
        },
        None => Seq::empty(),
    }) + (match home {
        Some(h) => seq![
            join_spec(h, ".config/alacritty/alacritty.toml"@),
            join_spec(h, ".alacritty.toml"@),
        ],
        None => Seq::empty(),
    }) + (match config_dir {
        Some(c) => seq![join_spec(c, "alacritty/alacritty.toml"@), join_spec(c, "alacritty.toml"@)],
        None => Seq::empty(),
    })
}

/// The config file candidates (see [`candidates_spec`]); the first one
/// that exists is loaded.
pub fn config_candidates(xdg: Option<&str>, home: Option<&str>, config_dir: Option<&str>) -> (c: Vec<
    String,
>)
    ensures
        c@.len() == candidates_spec(
            match xdg {
                Some(x) => Some(x@),
                None => None,
            },
            match home {
                Some(h) => Some(h@),
                None => None,
            },
            match config_dir {
                Some(d) => Some(d@),
                None => None,
            },
        ).len(),
        forall|i: int|
            0 <= i < c@.len() ==> (#[trigger] c@[i])@ == candidates_spec(
                match xdg {
                    Some(x) => Some(x@),
                    None => None,
                },
                match home {
                    Some(h) => Some(h@),
                    None => None,
                },
                match config_dir {
                    Some(d) => Some(d@),
                    None => None,
                },
            )[i],
{
    let mut c: Vec<String> = Vec::new();
    let ghost mut want: Seq<Seq<char>> = Seq::empty();
    if let Some(x) = xdg {
        if chars_of(x).len() > 0 {
            c.push(join_path(x, "alacritty/alacritty.toml"));
            proof {
                want = want.push(join_spec(x@, "alacritty/alacritty.toml"@));
            }
        }
    }
    if let Some(h) = home {
        c.push(join_path(h, ".config/alacritty/alacritty.toml"));
        c.push(join_path(h, ".alacritty.toml"));
        proof {
            want = want.push(join_spec(h@, ".config/alacritty/alacritty.toml"@)).push(
                join_spec(h@, ".alacritty.toml"@),
            );
        }
    }
    if let Some(d) = config_dir {
        c.push(join_path(d, "alacritty/alacritty.toml"));
        c.push(join_path(d, "alacritty.toml"));
        proof {
            want = want.push(join_spec(d@, "alacritty/alacritty.toml"@)).push(
                join_spec(d@, "alacritty.toml"@),
            );
        }
    }
    assert(want =~= candidates_spec(
        match xdg {
            Some(x) => Some(x@),
            None => None,
        },
        match home {
            Some(h) => Some(h@),
            None => None,
        },
        match config_dir {
            Some(d) => Some(d@),
            None => None,
        },
    ));
    c
}

/// What `Path::strip_prefix` returns for `path` and `base` (displayed as
/// text): the rest of `path` after `base`'s components, or `None` when
/// `base` is not a component-wise prefix of `path`. Components follow the
/// path rules of the target built for (Unix rules on Linux and macOS).
pub uninterp spec fn strip_prefix_result(path: Seq<char>, base: Seq<char>) -> Option<Seq<char>>;

/// `Path::strip_prefix` on two UTF-8 paths, its remainder displayed as a
/// string. The result is named [`strip_prefix_result`]; besides that, as
/// the documentation shows, a path stripped of itself leaves the empty
/// path.
#[verifier::external_body]
fn path_strip_prefix(path: &str, base: &str) -> (r: Option<String>)
    ensures
        match r {
            Some(s) => strip_prefix_result(path@, base@) == Some(s@),
            None => strip_prefix_result(path@, base@) is None,
        },
        path@ == base@ ==> r is Some && r.unwrap()@.len() == 0,
{
    std::path::Path::new(path).strip_prefix(base).ok().map(|rest| rest.display().to_string())
}

/// `path` shown relative to the home directory, given what is left of it
/// after the home (`None` when it lies outside): `~` for the home itself,
/// `~/rest` inside it, the path unchanged elsewhere.
pub open spec fn home_relative_spec(path: Seq<char>, rest: Option<Seq<char>>) -> Seq<char> {
    match rest {
        Some(r) => if r.len() == 0 {
            seq!['~']
        } else {
            seq!['~', '/'] + r
        },
        None => path,
    }
}

/// `path` with the home directory shown as `~`: `~` for the home itself,
/// `~/rest` inside it, the path unchanged elsewhere or when the home is
/// unknown.
pub open spec fn abbreviate_spec(path: Seq<char>, home: Option<Seq<char>>) -> Seq<char> {
    match home {
        Some(h) => home_relative_spec(path, strip_prefix_result(path, h)),
        None => path,
    }
}

/// `path` shown relative to the home directory (see
/// [`home_relative_spec`]), from what remains of it after the home.
pub fn home_relative(path: &str, rest: Option<String>) -> (s: String)
    ensures
        s@ == home_relative_spec(path@, opt_view(rest)),
{
    match rest {
        Some(rest) => {
            proof {
                reveal_strlit("~");
                reveal_strlit("~/");
            }
            if chars_of(rest.as_str()).len() == 0 {
                let t = "~".to_owned();
                assert(t@ =~= seq!['~']);
                t
            } else {
                let mut t = "~/".to_owned();
                t.append(rest.as_str());
                assert(t@ =~= seq!['~', '/'] + rest@);
                t
            }
        },
        None => path.to_owned(),
    }
}

/// Show a path with `$HOME` collapsed to `~` (see [`abbreviate_spec`]);
/// the home directory itself is shown as `~`.
pub fn abbreviate_home(path: &str, home: Option<&str>) -> (s: String)
    ensures
        s@ == abbreviate_spec(path@, match home {
            Some(h) => Some(h@),
            None => None,
        }),
        match home {
            Some(h) => h@ == path@ ==> s@ == seq!['~'],
            None => true,
        },
{
    let h = match home {
        Some(h) => h,
        None => {
            return path.to_owned();
        },
    };
    let rest = path_strip_prefix(path, h);
    home_relative(path, rest)
}

} // verus!
