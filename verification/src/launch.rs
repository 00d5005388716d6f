//! Launch resolution: building the command that opens a project with a
//! program.  The project path is joined from the configured root and
//! the project name, substituted for every `%path%` placeholder in the
//! program's template, and the result is split on whitespace into an
//! executable and its arguments — deliberately without any quoting or
//! escaping support.  Spawning the resulting process is the surrounding
//! application's concern.

use crate::program::{placeholder, placeholder_str, Program, ProgramView};
use crate::project::{Project, ProjectView};
use crate::text::{lemma_match_at_skip, match_at, match_at_exec};
use vstd::prelude::*;

verus! {

/// The absolute path of a project under `root`: the two joined with a
/// single separator, as a path push on plain strings behaves.
pub open spec fn spec_join(root: Seq<char>, name: Seq<char>) -> Seq<char> {
    if root.len() == 0 {
        name
    } else if root.last() == '/' {
        root + name
    } else {
        root + seq!['/'] + name
    }
}

/// Joins the configured root and a project name into the project's
/// path.
pub fn join_path(root: &str, name: &str) -> (r: String)
    ensures
        r@ == spec_join(root@, name@),
{
    let rlen = root.unicode_len();
    if rlen == 0 {
        return name.to_owned();
    }
    let mut out = root.to_owned();
    if root.get_char(rlen - 1) != '/' {
        let slash = "/";
        proof {
            reveal_strlit("/");
            assert(slash@ =~= seq!['/']);
        }
        out.append(slash);
    }
    out.append(name);
    out
}

/// `command` with every occurrence of the `%path%` placeholder
/// replaced by `path`, scanning left to right; matches do not overlap,
/// and the replacement text is never rescanned.
pub open spec fn subst(command: Seq<char>, path: Seq<char>) -> Seq<char>
    decreases command.len(),
{
    if command.len() == 0 {
        Seq::empty()
    } else if match_at(command, placeholder(), 0) {
        path + subst(command.skip(placeholder().len() as int), path)
    } else {
        seq![command[0]] + subst(command.skip(1), path)
    }
}

/// Replaces every `%path%` in `command` by `path`.
pub fn substitute(command: &str, path: &str) -> (r: String)
    ensures
        r@ == subst(command@, path@),
{
    let clen = command.unicode_len();
    let ph = placeholder_str();
    let plen = ph.unicode_len();
    let mut out = String::new();
    proof {
        assert(command@.skip(0) =~= command@);
        assert(out@ + subst(command@, path@) =~= subst(command@, path@));
    }
    let mut i: usize = 0;
    while i < clen
        invariant
            i <= clen,
            clen == command@.len(),
            ph@ == placeholder(),
            plen == placeholder().len(),
            subst(command@, path@) == out@ + subst(command@.skip(i as int), path@),
        decreases clen - i,
    {
        let ghost rest = command@.skip(i as int);
        let ghost out_before = out@;
        if plen <= clen - i && match_at_exec(command, ph, i) {
            proof {
                lemma_match_at_skip(command@, placeholder(), i as int);
                assert(rest.skip(placeholder().len() as int) =~= command@.skip(i + plen));
            }
            out.append(path);
            i += plen;
        } else {
            proof {
                lemma_match_at_skip(command@, placeholder(), i as int);
                assert(!match_at(rest, placeholder(), 0));
                assert(rest.skip(1) =~= command@.skip(i + 1));
                assert(rest[0] == command@[i as int]);
                assert(command@.subrange(i as int, i + 1) =~= seq![command@[i as int]]);
            }
            let piece = command.substring_char(i, i + 1);
            out.append(piece);
            i += 1;
        }
        proof {
            assert(subst(command@, path@) =~= out@ + subst(command@.skip(i as int), path@));
        }
    }
    proof {
        assert(command@.skip(clen as int) =~= Seq::<char>::empty());
        assert(out@ + Seq::<char>::empty() =~= out@);
    }
    out
}

/// The characters on which a command string splits: the whitespace
/// code points that the standard library's whitespace split
/// recognizes.
pub open spec fn is_space(c: char) -> bool {
    let u = c as u32;
    ||| (9 <= u && u <= 13)
    ||| u == 32
    ||| u == 0x85
    ||| u == 0xA0
    ||| u == 0x1680
    ||| (0x2000 <= u && u <= 0x200A)
    ||| u == 0x2028
    ||| u == 0x2029
    ||| u == 0x202F
    ||| u == 0x205F
    ||| u == 0x3000
}

fn is_space_exec(c: char) -> (r: bool)
    ensures
        r == is_space(c),
{
    let u = c as u32;
    (9 <= u && u <= 13) || u == 32 || u == 0x85 || u == 0xA0 || u == 0x1680 || (0x2000 <= u && u
        <= 0x200A) || u == 0x2028 || u == 0x2029 || u == 0x202F || u == 0x205F || u == 0x3000
}

/// The end of the token starting at `i`: the first position at or
/// after `i` that holds whitespace, or the end of the string.
pub open spec fn token_end(c: Seq<char>, i: int) -> int
    decreases c.len() - i,
{
    if i < 0 || i >= c.len() || is_space(c[i]) {
        i
    } else {
        token_end(c, i + 1)
    }
}

proof fn lemma_token_end(c: Seq<char>, i: int)
    requires
        0 <= i <= c.len(),
    ensures
        i <= token_end(c, i) <= c.len(),
        forall|k: int| i <= k < token_end(c, i) ==> !is_space(c[k]),
        token_end(c, i) < c.len() ==> is_space(c[token_end(c, i)]),
        i < c.len() && !is_space(c[i]) ==> token_end(c, i) > i,
    decreases c.len() - i,
{
    if i < c.len() && !is_space(c[i]) {
        lemma_token_end(c, i + 1);
    }
}

proof fn lemma_token_end_is(c: Seq<char>, i: int, j: int)
    requires
        0 <= i <= j <= c.len(),
        forall|k: int| i <= k < j ==> !is_space(c[k]),
        j == c.len() || is_space(c[j]),
    ensures
        token_end(c, i) == j,
    decreases j - i,
{
    if i < j {
        lemma_token_end_is(c, i + 1, j);
    }
}

/// The whitespace-separated tokens of `c` from position `i` on: each
/// maximal run of non-whitespace characters, in order.
pub open spec fn tokens_from(c: Seq<char>, i: int) -> Seq<Seq<char>>
    decreases c.len() - i,
    when i >= 0
    via tokens_from_decreases
{
    if i >= c.len() {
        Seq::empty()
    } else if is_space(c[i]) {
        tokens_from(c, i + 1)
    } else {
        seq![c.subrange(i, token_end(c, i))] + tokens_from(c, token_end(c, i))
    }
}

#[via_fn]
proof fn tokens_from_decreases(c: Seq<char>, i: int) {
    if 0 <= i < c.len() && !is_space(c[i]) {
        lemma_token_end(c, i);
    }
}

/// The whitespace-separated tokens of a command string.
pub open spec fn tokens(c: Seq<char>) -> Seq<Seq<char>> {
    tokens_from(c, 0)
}

fn token_end_exec(s: &str, i: usize) -> (j: usize)
    requires
        i <= s@.len(),
    ensures
        i <= j <= s@.len(),
        j == token_end(s@, i as int),
{
    let len = s.unicode_len();
    let mut j = i;
    while j < len && !is_space_exec(s.get_char(j))
        invariant
            i <= j <= len,
            len == s@.len(),
            forall|k: int| i <= k < j ==> !is_space(s@[k]),
        decreases len - j,
    {
        j += 1;
    }
    proof {
        lemma_token_end_is(s@, i as int, j as int);
    }
    j
}

/// Splits a command string on whitespace into its tokens.
pub fn tokenize(s: &str) -> (r: Vec<String>)
    ensures
        r.deep_view() == tokens(s@),
{
    let len = s.unicode_len();
    let mut out: Vec<String> = Vec::new();
    proof {
        assert(out.deep_view() =~= Seq::<Seq<char>>::empty());
        assert(Seq::<Seq<char>>::empty() + tokens_from(s@, 0) =~= tokens_from(s@, 0));
    }
    let mut i: usize = 0;
    while i < len
        invariant
            i <= len,
            len == s@.len(),
            tokens(s@) == out.deep_view() + tokens_from(s@, i as int),
        decreases len - i,
    {
        let ghost out_before = out.deep_view();
        if is_space_exec(s.get_char(i)) {
            i += 1;
        } else {
            let j = token_end_exec(s, i);
            proof {
                lemma_token_end(s@, i as int);
            }
            let tok = s.substring_char(i, j).to_owned();
            out.push(tok);
            proof {
                assert(out.deep_view() =~= out_before.push(s@.subrange(i as int, j as int)));
                assert(out_before.push(s@.subrange(i as int, j as int)) + tokens_from(s@, j as int)
                    =~= out_before + (seq![s@.subrange(i as int, j as int)] + tokens_from(
                    s@,
                    j as int,
                )));
            }
            i = j;
        }
    }
    proof {
        assert(out.deep_view() + Seq::<Seq<char>>::empty() =~= out.deep_view());
    }
    out
}

/// Mathematical value of an [`Invocation`].
pub ghost struct InvocationView {
    pub executable: Seq<char>,
    pub args: Seq<Seq<char>>,
}

/// One resolved launch: the executable to spawn and its argument list.
pub struct Invocation {
    pub executable: String,
    pub args: Vec<String>,
}

impl View for Invocation {
    type V = InvocationView;

    closed spec fn view(&self) -> InvocationView {
        InvocationView { executable: self.executable@, args: self.args.deep_view() }
    }
}

/// The command string that launching `program` against `project` under
/// `root` runs: the template with every placeholder replaced by the
/// joined project path.
pub open spec fn resolved_command(
    program: ProgramView,
    project: ProjectView,
    root: Seq<char>,
) -> Seq<char> {
    subst(program.command, spec_join(root, project.name))
}

/// Resolves a launch into an executable (the first whitespace token of
/// the substituted command) and its arguments (the remaining tokens).
/// Yields `None` exactly when the substituted command holds no token
/// at all, so a spawn would have nothing to run; resolution itself
/// never fails.
pub fn resolve(program: &Program, project: &Project, root_path: &str) -> (r: Option<Invocation>)
    ensures
        ({
            let toks = tokens(resolved_command(program@, project@, root_path@));
            &&& r is Some <==> toks.len() > 0
            &&& r is Some ==> r.unwrap()@ == (InvocationView {
                executable: toks[0],
                args: toks.skip(1),
            })
        }),
{
    resolve_named(program, project.name().as_str(), root_path)
}

/// Like [`resolve`], for a project known only by name — the launch
/// never reads anything else of a project.
pub fn resolve_named(program: &Program, project_name: &str, root_path: &str) -> (r: Option<
    Invocation,
>)
    ensures
        ({
            let toks = tokens(subst(program@.command, spec_join(root_path@, project_name@)));
            &&& r is Some <==> toks.len() > 0
            &&& r is Some ==> r.unwrap()@ == (InvocationView {
                executable: toks[0],
                args: toks.skip(1),
            })
        }),
{
    let path = join_path(root_path, project_name);
    let cmd = substitute(program.command(), path.as_str());
    let mut toks = tokenize(cmd.as_str());
    let ghost all_tokens = toks.deep_view();
    if toks.len() == 0 {
        return None;
    }
    let executable = toks.remove(0);
    proof {
        assert(toks.deep_view() =~= all_tokens.skip(1));
    }
    Some(Invocation { executable, args: toks })
}

} // verus!
