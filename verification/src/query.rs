//! The search-query parser: free-form input is split on whitespace, flag
//! tokens are picked out (`-e`/`--exact`, `-d`/`--dir`, `-b`/`--base` with a
//! following path and `~` expansion), and the remaining tokens, in order,
//! re-join as the query text.

use vstd::prelude::*;

use crate::text::{is_prefix_of, str_eq, str_starts_with};

verus! {

/// A parsed search query.
#[derive(Debug)]
pub struct SearchQuery {
    pub text: String,
    pub exact: bool,
    pub dirs_only: bool,
    pub base_path: Option<String>,
}

/// The character sequences a vector of strings holds, in order.
pub open spec fn views_of(ts: Seq<String>) -> Seq<Seq<char>> {
    ts.map_values(|t: String| t@)
}

/// The whitespace that separates tokens.
pub open spec fn is_space(c: char) -> bool {
    c == ' ' || c == '\t' || c == '\n' || c == '\r'
}

/// Length of the leading run of non-space characters.
pub open spec fn run_len(s: Seq<char>) -> int
    decreases s.len(),
{
    if s.len() == 0 {
        0
    } else if is_space(s[0]) {
        0
    } else {
        1 + run_len(s.drop_first())
    }
}

pub proof fn lemma_run_len(s: Seq<char>)
    ensures
        0 <= run_len(s) <= s.len(),
        s.len() > 0 && !is_space(s[0]) ==> run_len(s) >= 1,
        forall|k: int| 0 <= k < run_len(s) ==> !is_space(s[k]),
        run_len(s) < s.len() ==> is_space(s[run_len(s)]),
    decreases s.len(),
{
    if s.len() == 0 {
    } else if is_space(s[0]) {
    } else {
        lemma_run_len(s.drop_first());
        assert forall|k: int| 0 <= k < run_len(s) implies !is_space(s[k]) by {
            if k >= 1 {
                assert(s.drop_first()[k - 1] == s[k]);
            }
        }
        if run_len(s) < s.len() {
            assert(s.drop_first()[run_len(s) - 1] == s[run_len(s)]);
        }
    }
}

/// The whitespace-separated tokens of `s`, in order.
pub open spec fn tokens_of(s: Seq<char>) -> Seq<Seq<char>>
    decreases s.len(),
    via tokens_of_decreases
{
    if s.len() == 0 {
        Seq::empty()
    } else if is_space(s[0]) {
        tokens_of(s.drop_first())
    } else {
        seq![s.take(run_len(s))] + tokens_of(s.skip(run_len(s)))
    }
}

#[via_fn]
proof fn tokens_of_decreases(s: Seq<char>) {
    lemma_run_len(s);
}

/// `~` and `~/…` expand against the home directory when one is known.
pub open spec fn expand_home(tok: Seq<char>, home: Option<Seq<char>>) -> Seq<char> {
    match home {
        Some(h) => {
            if tok == "~"@ {
                h
            } else if is_prefix_of("~/"@, tok) {
                h + "/"@ + tok.skip(2)
            } else {
                tok
            }
        },
        None => tok,
    }
}

/// What a token list parses to: the non-flag tokens in order, the exact and
/// directories-only flags, and the expanded base path of the last `-b` that
/// had a following token.
pub open spec fn parse_tokens(tokens: Seq<Seq<char>>, home: Option<Seq<char>>) -> (
    Seq<Seq<char>>,
    bool,
    bool,
    Option<Seq<char>>,
)
    decreases tokens.len(),
{
    if tokens.len() == 0 {
        (Seq::empty(), false, false, None)
    } else if tokens[0] == "-e"@ || tokens[0] == "--exact"@ {
        let r = parse_tokens(tokens.drop_first(), home);
        (r.0, true, r.2, r.3)
    } else if tokens[0] == "-d"@ || tokens[0] == "--dir"@ {
        let r = parse_tokens(tokens.drop_first(), home);
        (r.0, r.1, true, r.3)
    } else if tokens[0] == "-b"@ || tokens[0] == "--base"@ {
        if tokens.len() >= 2 {
            let r = parse_tokens(tokens.skip(2), home);
            let base = if r.3 is Some {
                r.3
            } else {
                Some(expand_home(tokens[1], home))
            };
            (r.0, r.1, r.2, base)
        } else {
            parse_tokens(tokens.drop_first(), home)
        }
    } else {
        let r = parse_tokens(tokens.drop_first(), home);
        (seq![tokens[0]] + r.0, r.1, r.2, r.3)
    }
}

/// The non-flag tokens joined with single spaces, in their original order.
pub open spec fn join_spaced(parts: Seq<Seq<char>>) -> Seq<char>
    decreases parts.len(),
{
    if parts.len() == 0 {
        Seq::empty()
    } else if parts.len() == 1 {
        parts[0]
    } else {
        parts[0] + seq![' '] + join_spaced(parts.drop_first())
    }
}

proof fn lemma_join_spaced_push(parts: Seq<Seq<char>>, x: Seq<char>)
    ensures
        join_spaced(parts.push(x)) == (if parts.len() == 0 {
            x
        } else {
            join_spaced(parts) + seq![' '] + x
        }),
    decreases parts.len(),
{
    let p = parts.push(x);
    if parts.len() == 0 {
        assert(p.len() == 1);
        assert(p[0] == x);
    } else {
        assert(p[0] == parts[0]);
        assert(p.drop_first() =~= parts.drop_first().push(x));
        lemma_join_spaced_push(parts.drop_first(), x);
        if parts.len() == 1 {
            assert(join_spaced(parts) == parts[0]);
        }
    }
}

/// Splits `s` into its whitespace-separated tokens.
pub fn split_tokens(s: &str) -> (r: Vec<String>)
    ensures
        views_of(r@) == tokens_of(s@),
{
    let s_len: usize = s.unicode_len();
    let mut out: Vec<String> = Vec::new();
    let mut i: usize = 0;
    proof {
        assert(s@.skip(0) =~= s@);
        assert(views_of(out@) =~= Seq::<Seq<char>>::empty());
        assert(views_of(out@).add(tokens_of(s@)) =~= tokens_of(s@));
    }
    while i < s_len
        invariant
            0 <= i <= s_len,
            s_len == s@.len(),
            views_of(out@).add(tokens_of(s@.skip(i as int))) == tokens_of(s@),
        decreases s_len - i,
    {
        let c = s.get_char(i);
        if c == ' ' || c == '\t' || c == '\n' || c == '\r' {
            proof {
                assert(is_space(s@.skip(i as int)[0]));
                assert(s@.skip(i as int).drop_first() =~= s@.skip(i as int + 1));
            }
            i = i + 1;
        } else {
            let start = i;
            let mut j: usize = i;
            loop
                invariant
                    i <= j <= s_len,
                    s_len == s@.len(),
                    forall|k: int| i <= k < j ==> !is_space(s@[k]),
                ensures
                    i <= j <= s_len,
                    forall|k: int| i <= k < j ==> !is_space(s@[k]),
                    j == s_len || is_space(s@[j as int]),
                decreases s_len - j,
            {
                if j == s_len {
                    break ;
                }
                let cj = s.get_char(j);
                if cj == ' ' || cj == '\t' || cj == '\n' || cj == '\r' {
                    break ;
                }
                j = j + 1;
            }
            proof {
                let rest = s@.skip(i as int);
                lemma_run_len(rest);
                assert forall|k: int| 0 <= k < j - i implies !is_space(rest[k]) by {
                    assert(rest[k] == s@[i + k]);
                }
                if run_len(rest) > j - i {
                    assert(!is_space(rest[j - i]));
                    assert(rest[j - i] == s@[j as int]);
                }
                if run_len(rest) < j - i {
                    assert(is_space(rest[run_len(rest)]));
                    assert(rest[run_len(rest)] == s@[i + run_len(rest)]);
                }
                assert(run_len(rest) == j - i);
                assert(rest.take(j - i) =~= s@.subrange(i as int, j as int));
                assert(rest.skip(j - i) =~= s@.skip(j as int));
                assert(tokens_of(rest) == seq![s@.subrange(i as int, j as int)] + tokens_of(
                    s@.skip(j as int),
                ));
            }
            let tok_slice = s.substring_char(start, j);
            let tok = String::from_str(tok_slice);
            let ghost old_map = views_of(out@);
            out.push(tok);
            proof {
                assert(views_of(out@) =~= old_map.push(
                    s@.subrange(i as int, j as int),
                ));
                assert(old_map.push(s@.subrange(i as int, j as int)).add(
                    tokens_of(s@.skip(j as int)),
                ) =~= old_map.add(tokens_of(s@.skip(i as int))));
            }
            i = j;
        }
    }
    proof {
        assert(s@.skip(s@.len() as int).len() == 0);
        assert(views_of(out@).add(Seq::<Seq<char>>::empty()) =~= views_of(out@));
    }
    out
}

/// Joins the tokens with single spaces.
fn join_tokens(parts: &Vec<String>) -> (r: String)
    ensures
        r@ == join_spaced(views_of(parts@)),
{
    let mut out = String::new();
    let mut i: usize = 0;
    while i < parts.len()
        invariant
            0 <= i <= parts@.len(),
            out@ == join_spaced(views_of(parts@).take(i as int)),
        decreases parts@.len() - i,
    {
        proof {
            let m = views_of(parts@);
            assert(m.take(i as int + 1) =~= m.take(i as int).push(m[i as int]));
            lemma_join_spaced_push(m.take(i as int), m[i as int]);
        }
        if i > 0 {
            out.append(" ");
            proof {
                reveal_strlit(" ");
                assert(" "@ =~= seq![' ']);
            }
        }
        out.append(parts[i].as_str());
        i = i + 1;
    }
    proof {
        let m = views_of(parts@);
        assert(m.take(m.len() as int) =~= m);
    }
    out
}

/// Parses free-form search input: tokens are split on whitespace, flags are
/// recognized in any order and may repeat (the last `-b` wins; a trailing
/// `-b` with no path is ignored), and the non-flag tokens re-join, in
/// order, as the query text. `default_dirs_only` seeds the directories-only
/// flag; `home` feeds `~` expansion.
pub fn parse(raw: &str, default_dirs_only: bool, home: Option<&str>) -> (q: SearchQuery)
    ensures
        ({
            let p = parse_tokens(
                tokens_of(raw@),
                match home {
                    Some(h) => Some(h@),
                    None => None,
                },
            );
            &&& q.text@ == join_spaced(p.0)
            &&& q.exact == p.1
            &&& q.dirs_only == (default_dirs_only || p.2)
            &&& (match q.base_path {
                Some(b) => p.3 == Some(b@),
                None => p.3 is None,
            })
        }),
{
    let ghost home_view: Option<Seq<char>> = match home {
        Some(h) => Some(h@),
        None => None,
    };
    let tokens = split_tokens(raw);
    let ghost toks = views_of(tokens@);
    let mut parts: Vec<String> = Vec::new();
    let mut exact: bool = false;
    let mut dirs_only: bool = false;
    let mut base_path: Option<String> = None;
    let mut i: usize = 0;
    proof {
        assert(toks.skip(0) =~= toks);
    }
    while i < tokens.len()
        invariant
            0 <= i <= tokens@.len(),
            toks == views_of(tokens@),
            toks.len() == tokens@.len(),
            home_view == (match home {
                Some(h) => Some(h@),
                None => None,
            }),
            ({
                let full = parse_tokens(toks, home_view);
                let rest = parse_tokens(toks.skip(i as int), home_view);
                &&& full.0 == views_of(parts@).add(rest.0)
                &&& full.1 == (exact || rest.1)
                &&& full.2 == (dirs_only || rest.2)
                &&& full.3 == (if rest.3 is Some {
                    rest.3
                } else {
                    match base_path {
                        Some(b) => Some(b@),
                        None => None,
                    }
                })
            }),
        decreases tokens@.len() - i,
    {
        let ghost rest = toks.skip(i as int);
        proof {
            assert(rest[0] == toks[i as int]);
            assert(rest.drop_first() =~= toks.skip(i as int + 1));
        }
        let tok = &tokens[i];
        assert(tok@ == toks[i as int]);
        if str_eq(tok.as_str(), "-e") || str_eq(tok.as_str(), "--exact") {
            exact = true;
            i = i + 1;
        } else if str_eq(tok.as_str(), "-d") || str_eq(tok.as_str(), "--dir") {
            dirs_only = true;
            i = i + 1;
        } else if str_eq(tok.as_str(), "-b") || str_eq(tok.as_str(), "--base") {
            if i + 1 < tokens.len() {
                proof {
                    assert(rest.len() >= 2);
                    assert(rest[1] == toks[i as int + 1]);
                    assert(rest.skip(2) =~= toks.skip(i as int + 2));
                }
                let path_tok = &tokens[i + 1];
                assert(path_tok@ == toks[i as int + 1]);
                let expanded = expand_home_exec(path_tok.as_str(), home);
                proof {
                    match home {
                        Some(h) => assert(home_view == Some(h@)),
                        None => assert(home_view == None::<Seq<char>>),
                    }
                }
                assert(expanded@ == expand_home(toks[i as int + 1], home_view));
                base_path = Some(expanded);
                i = i + 2;
            } else {
                proof {
                    assert(rest.len() == 1);
                }
                i = i + 1;
            }
        } else {
            let ghost old_map = views_of(parts@);
            parts.push(tok.clone());
            proof {
                assert(views_of(parts@) =~= old_map.push(toks[i as int]));
                let next = parse_tokens(toks.skip(i as int + 1), home_view);
                assert(old_map.push(toks[i as int]).add(next.0) =~= old_map.add(
                    seq![toks[i as int]] + next.0,
                ));
            }
            i = i + 1;
        }
    }
    proof {
        assert(toks.skip(toks.len() as int).len() == 0);
        let empty_rest = parse_tokens(toks.skip(toks.len() as int), home_view);
        assert(empty_rest.0.len() == 0);
        assert(views_of(parts@).add(empty_rest.0) =~= views_of(parts@));
    }
    let text = join_tokens(&parts);
    let dirs = default_dirs_only || dirs_only;
    SearchQuery { text, exact, dirs_only: dirs, base_path }
}

/// Expands `~` and a leading `~/` against the home directory.
fn expand_home_exec(tok: &str, home: Option<&str>) -> (r: String)
    ensures
        r@ == expand_home(
            tok@,
            match home {
                Some(h) => Some(h@),
                None => None,
            },
        ),
{
    match home {
        None => String::from_str(tok),
        Some(h) => {
            if str_eq(tok, "~") {
                String::from_str(h)
            } else if str_starts_with(tok, "~/") {
                let mut out = String::from_str(h);
                out.append("/");
                let tok_len: usize = tok.unicode_len();
                proof {
                    reveal_strlit("~/");
                    assert("~/"@.len() == 2);
                    reveal_strlit("/");
                    assert("/"@ =~= seq!['/']);
                }
                let tail = tok.substring_char(2, tok_len);
                out.append(tail);
                assert(out@ =~= h@ + "/"@ + tok@.skip(2));
                out
            } else {
                String::from_str(tok)
            }
        },
    }
}

} // verus!
