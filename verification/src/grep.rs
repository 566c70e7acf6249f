//! The search tool's logic: which lines of a file match, what a match
//! block looks like — the tagged file path, the numbered context lines,
//! the matching line marked — and the final report. The pattern
//! machinery itself comes from outside crates behind trusted items; the
//! scanning and the formatting are verified against their names.

use vstd::prelude::*;
use vstd::string::StringExecFns;

use crate::strutil::{push_char, spec_decimal, usize_to_string};

verus! {

#[verifier::external_type_specification]
#[verifier::external_body]
pub struct ExRegex(regex::Regex);

#[verifier::external_type_specification]
#[verifier::external_body]
pub struct ExGlobPattern(glob::Pattern);

/// Whether a pattern text compiles as a regular expression.
pub uninterp spec fn regex_valid(pattern: Seq<char>) -> bool;

/// The pattern text a compiled regular expression holds.
pub uninterp spec fn regex_pattern(re: regex::Regex) -> Seq<char>;

/// Whether a regular expression matches somewhere in a line: a function
/// of the pattern and the line alone.
pub uninterp spec fn regex_match_of(pattern: Seq<char>, line: Seq<char>) -> bool;

/// Relies on `regex::Regex::new`: compiles exactly the well-formed
/// patterns, and the compiled value keeps its pattern text (what
/// `as_str` returns).
#[verifier::external_body]
pub fn regex_new(pattern: &str) -> (r: Result<regex::Regex, String>)
    ensures
        r is Ok <==> regex_valid(pattern@),
        match r {
            Ok(re) => regex_pattern(re) == pattern@,
            Err(_) => true,
        },
{
    match regex::Regex::new(pattern) {
        Ok(re) => Ok(re),
        Err(e) => Err(format!("{}", e)),
    }
}

/// Relies on `regex::Regex::is_match`: whether the expression matches
/// anywhere in the line, determined by the pattern and the line alone.
#[verifier::external_body]
pub fn regex_is_match(re: &regex::Regex, line: &str) -> (r: bool)
    ensures
        r == regex_match_of(regex_pattern(*re), line@),
{
    re.is_match(line)
}

/// Whether a pattern text compiles as a glob pattern.
pub uninterp spec fn glob_valid(pattern: Seq<char>) -> bool;

/// The pattern text a compiled glob pattern holds.
pub uninterp spec fn glob_pattern_text(p: glob::Pattern) -> Seq<char>;

/// Whether a glob pattern matches a path text: a function of the
/// pattern and the path alone.
pub uninterp spec fn glob_match_of(pattern: Seq<char>, path: Seq<char>) -> bool;

/// Relies on `glob::Pattern::new`: compiles exactly the well-formed
/// patterns, and the compiled value keeps its pattern text (what
/// `as_str` returns).
#[verifier::external_body]
pub fn glob_new(pattern: &str) -> (r: Result<glob::Pattern, String>)
    ensures
        r is Ok <==> glob_valid(pattern@),
        match r {
            Ok(p) => glob_pattern_text(p) == pattern@,
            Err(_) => true,
        },
{
    match glob::Pattern::new(pattern) {
        Ok(p) => Ok(p),
        Err(e) => Err(format!("{}", e)),
    }
}

/// Relies on `glob::Pattern::matches`: whether the pattern matches the
/// path text, determined by the pattern and the path alone.
#[verifier::external_body]
pub fn glob_matches(p: &glob::Pattern, path: &str) -> (r: bool)
    ensures
        r == glob_match_of(glob_pattern_text(*p), path@),
{
    p.matches(path)
}

/// One numbered line of a match block: the one-based line number, the
/// match marker or plain spacing, the line itself.
pub open spec fn spec_line_entry(num: nat, marked: bool, line: Seq<char>) -> Seq<char> {
    spec_decimal(num) + (if marked {
        ":> "@
    } else {
        ":  "@
    }) + line
}

/// The numbered lines of a match block for a match at `j`, from `k` up
/// to `endx`, each opened by a line break.
pub open spec fn spec_block_lines(
    lines: Seq<Seq<char>>,
    j: int,
    k: int,
    endx: int,
) -> Seq<char>
    decreases endx - k,
{
    if k >= endx {
        Seq::empty()
    } else {
        seq!['\n'] + spec_line_entry((k + 1) as nat, k == j, lines[k]) + spec_block_lines(
            lines,
            j,
            k + 1,
            endx,
        )
    }
}

/// A whole match block for a match at `j`: the tagged path, then the
/// surrounding lines — up to `ctx` before and after, clipped to the
/// file — with the matching line marked.
pub open spec fn spec_block(
    path: Seq<char>,
    lines: Seq<Seq<char>>,
    ctx: int,
    j: int,
) -> Seq<char> {
    let start = if j - ctx >= 0 {
        j - ctx
    } else {
        0
    };
    let endx = if j + ctx + 1 <= lines.len() {
        j + ctx + 1
    } else {
        lines.len() as int
    };
    "=== "@ + path + " ==="@ + spec_block_lines(lines, j, start, endx)
}

/// The match blocks of one file, visiting lines from `j` on: a matching
/// line yields its block and the scan resumes after that block's
/// look-ahead, so lines shown as after-context are not themselves tested.
pub open spec fn spec_scan(
    pattern: Seq<char>,
    path: Seq<char>,
    lines: Seq<Seq<char>>,
    ctx: int,
    j: int,
) -> Seq<Seq<char>>
    decreases lines.len() - j,
    when ctx >= 0
{
    if j >= lines.len() || j < 0 {
        Seq::empty()
    } else if regex_match_of(pattern, lines[j]) {
        let next = if j + ctx + 1 <= lines.len() {
            j + ctx + 1
        } else {
            lines.len() as int
        };
        seq![spec_block(path, lines, ctx, j)] + spec_scan(pattern, path, lines, ctx, next)
    } else {
        spec_scan(pattern, path, lines, ctx, j + 1)
    }
}

/// Render one match block.
pub fn render_block(path: &str, lines: &Vec<String>, ctx: usize, j: usize) -> (r: String)
    requires
        j < lines@.len(),
    ensures
        r@ == spec_block(path@, lines.deep_view(), ctx as int, j as int),
{
    let ghost dv = lines.deep_view();
    proof {
        assert(dv.len() == lines@.len());
    }
    let start: usize = if j >= ctx {
        j - ctx
    } else {
        0
    };
    let endx: usize = if lines.len() - j > ctx {
        j + ctx + 1
    } else {
        lines.len()
    };
    let mut out = String::from_str("=== ");
    out.append(path);
    out.append(" ===");
    let ghost head = out@;
    let mut k: usize = start;
    proof {
        assert(head =~= "=== "@ + path@ + " ==="@);
    }
    while k < endx
        invariant
            dv == lines.deep_view(),
            dv.len() == lines@.len(),
            start <= k <= endx,
            endx <= lines@.len(),
            out@ + spec_block_lines(dv, j as int, k as int, endx as int) == head
                + spec_block_lines(dv, j as int, start as int, endx as int),
        decreases endx - k,
    {
        let ghost before = out@;
        push_char(&mut out, '\n');
        let num = usize_to_string(k + 1);
        out.append(num.as_str());
        if k == j {
            out.append(":> ");
        } else {
            out.append(":  ");
        }
        out.append(lines[k].as_str());
        proof {
            assert(dv[k as int] == lines@[k as int]@);
            assert(out@ =~= before + (seq!['\n'] + spec_line_entry((k + 1) as nat, k == j, dv[k as int])));
            assert(out@ + spec_block_lines(dv, j as int, k + 1, endx as int) =~= before
                + spec_block_lines(dv, j as int, k as int, endx as int));
        }
        k = k + 1;
    }
    proof {
        assert(spec_block_lines(dv, j as int, endx as int, endx as int) =~= Seq::<char>::empty());
        assert(out@ =~= out@ + spec_block_lines(dv, j as int, endx as int, endx as int));
        assert(out@ =~= spec_block(path@, dv, ctx as int, j as int));
    }
    out
}

/// Scan one file's lines and collect the match blocks in order.
pub fn scan_file_lines(re: &regex::Regex, path: &str, lines: &Vec<String>, ctx: usize) -> (blocks:
    Vec<String>)
    ensures
        blocks.deep_view() == spec_scan(regex_pattern(*re), path@, lines.deep_view(), ctx as int, 0),
{
    let ghost dv = lines.deep_view();
    let ghost pat = regex_pattern(*re);
    let mut blocks: Vec<String> = Vec::new();
    let mut j: usize = 0;
    proof {
        assert(dv.len() == lines@.len());
        assert(blocks.deep_view() =~= Seq::<Seq<char>>::empty());
        assert(blocks.deep_view() + spec_scan(pat, path@, dv, ctx as int, 0) =~= spec_scan(
            pat,
            path@,
            dv,
            ctx as int,
            0,
        ));
    }
    while j < lines.len()
        invariant
            dv == lines.deep_view(),
            dv.len() == lines@.len(),
            pat == regex_pattern(*re),
            blocks.deep_view() + spec_scan(pat, path@, dv, ctx as int, j as int) == spec_scan(
                pat,
                path@,
                dv,
                ctx as int,
                0,
            ),
        decreases lines@.len() - j,
    {
        let ghost before = blocks.deep_view();
        proof {
            assert(dv[j as int] == lines@[j as int]@);
        }
        if regex_is_match(re, lines[j].as_str()) {
            let block = render_block(path, lines, ctx, j);
            blocks.push(block);
            proof {
                let next = if j + ctx + 1 <= dv.len() {
                    j + ctx + 1
                } else {
                    dv.len() as int
                };
                assert(blocks.deep_view() =~= before + seq![
                    spec_block(path@, dv, ctx as int, j as int),
                ]);
                assert(blocks.deep_view() + spec_scan(pat, path@, dv, ctx as int, next) =~= before
                    + spec_scan(pat, path@, dv, ctx as int, j as int));
            }
            if lines.len() - j > ctx {
                j = j + ctx + 1;
            } else {
                j = lines.len();
            }
        } else {
            j = j + 1;
        }
    }
    proof {
        assert(spec_scan(pat, path@, dv, ctx as int, j as int) =~= Seq::<Seq<char>>::empty());
        assert(blocks.deep_view() =~= spec_scan(pat, path@, dv, ctx as int, 0));
    }
    blocks
}

/// The blocks of a report, joined two line breaks apart, from `i` on.
pub open spec fn spec_joined_blocks(blocks: Seq<Seq<char>>, i: int) -> Seq<char>
    decreases blocks.len() - i,
{
    if i < 0 || i >= blocks.len() {
        Seq::empty()
    } else if i == 0 {
        blocks[0] + spec_joined_blocks(blocks, 1)
    } else {
        "\n\n"@ + blocks[i] + spec_joined_blocks(blocks, i + 1)
    }
}

/// The search report: the count and the joined blocks, or the sentence
/// that nothing matched.
pub open spec fn spec_report(
    search_term: Seq<char>,
    filter: Seq<char>,
    blocks: Seq<Seq<char>>,
) -> Seq<char> {
    if blocks.len() == 0 {
        "No matches found for '"@ + search_term + "' in files matching '"@ + filter + "'"@
    } else {
        "Found "@ + spec_decimal(blocks.len() as nat) + " matches:\n\n"@ + spec_joined_blocks(
            blocks,
            0,
        )
    }
}

/// Render the whole search report from the collected blocks.
pub fn render_grep_report(search_term: &str, filter: &str, blocks: &Vec<String>) -> (r: String)
    ensures
        r@ == spec_report(search_term@, filter@, blocks.deep_view()),
{
    let ghost dv = blocks.deep_view();
    proof {
        assert(dv.len() == blocks@.len());
    }
    if blocks.len() == 0 {
        let mut out = String::from_str("No matches found for '");
        out.append(search_term);
        out.append("' in files matching '");
        out.append(filter);
        out.append("'");
        proof {
            assert(out@ =~= spec_report(search_term@, filter@, dv));
        }
        return out;
    }
    let mut out = String::from_str("Found ");
    let n = usize_to_string(blocks.len());
    out.append(n.as_str());
    out.append(" matches:\n\n");
    let ghost head = out@;
    proof {
        assert(head =~= "Found "@ + spec_decimal(blocks@.len() as nat) + " matches:\n\n"@);
    }
    let mut i: usize = 0;
    while i < blocks.len()
        invariant
            dv == blocks.deep_view(),
            dv.len() == blocks@.len(),
            i <= blocks@.len(),
            out@ + spec_joined_blocks(dv, i as int) == head + spec_joined_blocks(dv, 0),
        decreases blocks@.len() - i,
    {
        let ghost before = out@;
        if i > 0 {
            out.append("\n\n");
        }
        out.append(blocks[i].as_str());
        proof {
            assert(dv[i as int] == blocks@[i as int]@);
            if i > 0 {
                assert(out@ =~= before + ("\n\n"@ + dv[i as int]));
            } else {
                assert(out@ =~= before + dv[i as int]);
            }
            assert(out@ + spec_joined_blocks(dv, i + 1) =~= before + spec_joined_blocks(
                dv,
                i as int,
            ));
        }
        i = i + 1;
    }
    proof {
        assert(spec_joined_blocks(dv, blocks@.len() as int) =~= Seq::<char>::empty());
        assert(out@ =~= head + spec_joined_blocks(dv, 0));
        assert(out@ =~= spec_report(search_term@, filter@, dv));
    }
    out
}

} // verus!
