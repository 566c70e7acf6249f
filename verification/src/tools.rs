//! The local tool protocol: which tool a model's call names, and the
//! reading of its argument blob. Argument objects tolerate whitespace
//! and any member order, as a model writes them, and a member the
//! schema does not name is skipped with its value; a member named
//! again, or a missing required member, refuses the blob. A refused
//! blob or an unknown tool name becomes the tool's result text, so the
//! model sees the failure as conversational content.

use vstd::prelude::*;
use vstd::string::StringExecFns;

use crate::jsontext::{
    parse_string, parse_u64, skip_value, skip_ws, spec_parse_string, spec_parse_u64,
    spec_skip_value, spec_skip_ws,
};
use crate::strutil::{str_eq, str_to_chars};

verus! {

/// The arguments of the file-reading tool.
#[derive(Debug, Clone)]
pub struct ReadFileArgs {
    pub filename: String,
}

/// The arguments of the search tool.
#[derive(Debug, Clone)]
pub struct GrepArgs {
    pub search_term: String,
    pub filter: String,
    pub context_lines: usize,
}

/// Mathematical image of a [`GrepArgs`].
#[verifier::ext_equal]
pub struct GrepArgsV {
    pub search_term: Seq<char>,
    pub filter: Seq<char>,
    pub context_lines: usize,
}

impl View for GrepArgs {
    type V = GrepArgsV;

    open spec fn view(&self) -> GrepArgsV {
        GrepArgsV {
            search_term: self.search_term@,
            filter: self.filter@,
            context_lines: self.context_lines,
        }
    }
}

/// How many context lines the search tool shows when the call does not
/// say.
pub fn default_context_lines() -> (n: usize)
    ensures
        n == 2,
{
    2
}

/// The members of a file-reading argument object, from `p` on:
/// `filename` takes a string, once; a member of any other name is
/// skipped with its value. The closing brace yields the filename, which
/// must have been given.
pub open spec fn spec_rf_members(
    s: Seq<char>,
    p: int,
    filename: Option<Seq<char>>,
    allow_close: bool,
) -> Option<(Seq<char>, int)>
    decreases s.len() - p,
    when 0 <= p <= s.len()
{
    let q = spec_skip_ws(s, p);
    if !(p <= q && q < s.len()) {
        None
    } else if s[q] == '}' {
        if allow_close {
            match filename {
                Some(f) => Some((f, q + 1)),
                None => None,
            }
        } else {
            None
        }
    } else {
        match spec_parse_string(s, q) {
            Some((key, k)) => {
                if !(q < k && k <= s.len()) {
                    None
                } else {
                    let r = spec_skip_ws(s, k);
                    if !(k <= r && r < s.len() && s[r] == ':') {
                        None
                    } else if key == "filename"@ {
                        if filename is Some {
                            None
                        } else {
                            match spec_parse_string(s, spec_skip_ws(s, r + 1)) {
                                Some((val, w)) => {
                                    if !(r < w && w <= s.len()) {
                                        None
                                    } else {
                                        let x = spec_skip_ws(s, w);
                                        if !(w <= x && x < s.len()) {
                                            None
                                        } else if s[x] == ',' {
                                            spec_rf_members(s, x + 1, Some(val), false)
                                        } else if s[x] == '}' {
                                            Some((val, x + 1))
                                        } else {
                                            None
                                        }
                                    }
                                },
                                None => None,
                            }
                        }
                    } else {
                        match spec_skip_value(s, r + 1) {
                            Some(v) => {
                                if !(r < v && v <= s.len()) {
                                    None
                                } else {
                                    let x = spec_skip_ws(s, v);
                                    if !(v <= x && x < s.len()) {
                                        None
                                    } else if s[x] == ',' {
                                        spec_rf_members(s, x + 1, filename, false)
                                    } else if s[x] == '}' {
                                        match filename {
                                            Some(f) => Some((f, x + 1)),
                                            None => None,
                                        }
                                    } else {
                                        None
                                    }
                                }
                            },
                            None => None,
                        }
                    }
                }
            },
            None => None,
        }
    }
}

/// What a file-reading argument blob means: one object, surrounded by
/// nothing but whitespace, holding exactly a `filename` string.
pub open spec fn spec_parse_read_file_args(s: Seq<char>) -> Option<Seq<char>> {
    let p = spec_skip_ws(s, 0);
    if 0 <= p < s.len() && s[p] == '{' {
        match spec_rf_members(s, p + 1, None, true) {
            Some((f, q)) => {
                if spec_skip_ws(s, q) == s.len() {
                    Some(f)
                } else {
                    None
                }
            },
            None => None,
        }
    } else {
        None
    }
}

/// Read the members of a file-reading argument object.
pub fn rf_members(s: &Vec<char>, p: usize, filename: Option<String>, allow_close: bool) -> (r:
    Option<(String, usize)>)
    requires
        p <= s@.len(),
    ensures
        match r {
            Some((f, q)) => spec_rf_members(
                s@,
                p as int,
                match filename {
                    Some(g) => Some(g@),
                    None => None,
                },
                allow_close,
            ) == Some((f@, q as int)) && p < q <= s@.len(),
            None => spec_rf_members(
                s@,
                p as int,
                match filename {
                    Some(g) => Some(g@),
                    None => None,
                },
                allow_close,
            ) is None,
        },
    decreases s@.len() - p,
{
    let q = skip_ws(s, p);
    if q >= s.len() {
        return None;
    }
    if s[q] == '}' {
        if allow_close {
            match filename {
                Some(f) => Some((f, q + 1)),
                None => None,
            }
        } else {
            None
        }
    } else {
        let (key, k) = match parse_string(s, q) {
            Some(v) => v,
            None => {
                return None;
            },
        };
        let r = skip_ws(s, k);
        if !(r < s.len() && s[r] == ':') {
            return None;
        }
        if str_eq(key.as_str(), "filename") {
            if matches!(filename, Some(_)) {
                return None;
            }
            let v = skip_ws(s, r + 1);
            let (val, w) = match parse_string(s, v) {
                Some(v) => v,
                None => {
                    return None;
                },
            };
            let x = skip_ws(s, w);
            if x >= s.len() {
                return None;
            }
            if s[x] == ',' {
                rf_members(s, x + 1, Some(val), false)
            } else if s[x] == '}' {
                Some((val, x + 1))
            } else {
                None
            }
        } else {
            let v = match skip_value(s, r + 1) {
                Some(x) => x,
                None => {
                    return None;
                },
            };
            if v <= r {
                return None;
            }
            let x = skip_ws(s, v);
            if x >= s.len() {
                return None;
            }
            if s[x] == ',' {
                rf_members(s, x + 1, filename, false)
            } else if s[x] == '}' {
                match filename {
                    Some(f) => Some((f, x + 1)),
                    None => None,
                }
            } else {
                None
            }
        }
    }
}

/// Read a file-reading argument blob.
pub fn parse_read_file_args(text: &str) -> (r: Option<ReadFileArgs>)
    ensures
        match r {
            Some(args) => spec_parse_read_file_args(text@) == Some(args.filename@),
            None => spec_parse_read_file_args(text@) is None,
        },
{
    let s = str_to_chars(text);
    let p = skip_ws(&s, 0);
    if !(p < s.len() && s[p] == '{') {
        return None;
    }
    let (f, q) = match rf_members(&s, p + 1, None, true) {
        Some(v) => v,
        None => {
            return None;
        },
    };
    if skip_ws(&s, q) == s.len() {
        Some(ReadFileArgs { filename: f })
    } else {
        None
    }
}

/// The members of a search argument object, from `p` on: `search_term`
/// and `filter` take strings, `context_lines` an unsigned integer, each
/// once; a member of any other name is skipped with its value. The
/// closing brace yields the arguments; a missing count falls back to
/// the default.
pub open spec fn spec_grep_members(
    s: Seq<char>,
    p: int,
    st: Option<Seq<char>>,
    fl: Option<Seq<char>>,
    cl: Option<int>,
    allow_close: bool,
) -> Option<(GrepArgsV, int)>
    decreases s.len() - p, 3int,
    when 0 <= p <= s.len()
{
    let q = spec_skip_ws(s, p);
    if !(p <= q && q < s.len()) {
        None
    } else if s[q] == '}' {
        if allow_close {
            match (st, fl) {
                (Some(a), Some(b)) => {
                    let n = match cl {
                        Some(n) => n,
                        None => 2,
                    };
                    if 0 <= n <= usize::MAX {
                        Some((GrepArgsV { search_term: a, filter: b, context_lines: n as usize }, q + 1))
                    } else {
                        None
                    }
                },
                _ => None,
            }
        } else {
            None
        }
    } else {
        match spec_parse_string(s, q) {
            Some((key, k)) => {
                if !(q < k && k <= s.len()) {
                    None
                } else {
                    let r = spec_skip_ws(s, k);
                    if !(k <= r && r < s.len() && s[r] == ':') {
                        None
                    } else {
                        let v = spec_skip_ws(s, r + 1);
                        if !(r < v && v <= s.len()) {
                            None
                        } else if key == "search_term"@ {
                            if st is Some {
                                None
                            } else {
                                match spec_parse_string(s, v) {
                                    Some((val, w)) => spec_grep_after_value(
                                        s,
                                        p,
                                        w,
                                        Some(val),
                                        fl,
                                        cl,
                                    ),
                                    None => None,
                                }
                            }
                        } else if key == "filter"@ {
                            if fl is Some {
                                None
                            } else {
                                match spec_parse_string(s, v) {
                                    Some((val, w)) => spec_grep_after_value(
                                        s,
                                        p,
                                        w,
                                        st,
                                        Some(val),
                                        cl,
                                    ),
                                    None => None,
                                }
                            }
                        } else if key == "context_lines"@ {
                            if cl is Some {
                                None
                            } else {
                                match spec_parse_u64(s, v) {
                                    Some((n, w)) => spec_grep_after_value(
                                        s,
                                        p,
                                        w,
                                        st,
                                        fl,
                                        Some(n),
                                    ),
                                    None => None,
                                }
                            }
                        } else {
                            match spec_skip_value(s, r + 1) {
                                Some(w) => spec_grep_after_value(s, p, w, st, fl, cl),
                                None => None,
                            }
                        }
                    }
                }
            },
            None => None,
        }
    }
}

/// After one member's value: a comma continues with more members, the
/// closing brace finishes the object.
pub open spec fn spec_grep_after_value(
    s: Seq<char>,
    p: int,
    w: int,
    st: Option<Seq<char>>,
    fl: Option<Seq<char>>,
    cl: Option<int>,
) -> Option<(GrepArgsV, int)>
    decreases s.len() - p, 2int,
    when 0 <= p <= s.len()
{
    if !(p < w && w <= s.len()) {
        None
    } else {
        let x = spec_skip_ws(s, w);
        if !(w <= x && x < s.len()) {
            None
        } else if s[x] == ',' {
            spec_grep_members(s, x + 1, st, fl, cl, false)
        } else if s[x] == '}' {
            match (st, fl) {
                (Some(a), Some(b)) => {
                    let n = match cl {
                        Some(n) => n,
                        None => 2,
                    };
                    if 0 <= n <= usize::MAX {
                        Some((GrepArgsV { search_term: a, filter: b, context_lines: n as usize }, x + 1))
                    } else {
                        None
                    }
                },
                _ => None,
            }
        } else {
            None
        }
    }
}

/// What a search argument blob means: one object, surrounded by nothing
/// but whitespace, holding `search_term` and `filter` and at most one
/// `context_lines`.
pub open spec fn spec_parse_grep_args(s: Seq<char>) -> Option<GrepArgsV> {
    let p = spec_skip_ws(s, 0);
    if 0 <= p < s.len() && s[p] == '{' {
        match spec_grep_members(s, p + 1, None, None, None, true) {
            Some((args, q)) => {
                if spec_skip_ws(s, q) == s.len() {
                    Some(args)
                } else {
                    None
                }
            },
            None => None,
        }
    } else {
        None
    }
}

/// Read the members of a search argument object.
pub fn grep_members(
    s: &Vec<char>,
    p: usize,
    st: Option<String>,
    fl: Option<String>,
    cl: Option<u64>,
    allow_close: bool,
) -> (r: Option<(GrepArgs, usize)>)
    requires
        p <= s@.len(),
    ensures
        match r {
            Some((args, q)) => spec_grep_members(
                s@,
                p as int,
                match st {
                    Some(a) => Some(a@),
                    None => None,
                },
                match fl {
                    Some(b) => Some(b@),
                    None => None,
                },
                match cl {
                    Some(n) => Some(n as int),
                    None => None,
                },
                allow_close,
            ) == Some((args@, q as int)) && p < q <= s@.len(),
            None => spec_grep_members(
                s@,
                p as int,
                match st {
                    Some(a) => Some(a@),
                    None => None,
                },
                match fl {
                    Some(b) => Some(b@),
                    None => None,
                },
                match cl {
                    Some(n) => Some(n as int),
                    None => None,
                },
                allow_close,
            ) is None,
        },
    decreases s@.len() - p, 3int,
{
    let q = skip_ws(s, p);
    if q >= s.len() {
        return None;
    }
    if s[q] == '}' {
        if allow_close {
            match (st, fl) {
                (Some(a), Some(b)) => {
                    let n: usize = match cl {
                        Some(n) => {
                            if n > usize::MAX as u64 {
                                return None;
                            }
                            n as usize
                        },
                        None => 2,
                    };
                    Some((GrepArgs { search_term: a, filter: b, context_lines: n }, q + 1))
                },
                _ => None,
            }
        } else {
            None
        }
    } else {
        let (key, k) = match parse_string(s, q) {
            Some(v) => v,
            None => {
                return None;
            },
        };
        let r = skip_ws(s, k);
        if !(r < s.len() && s[r] == ':') {
            return None;
        }
        let v = skip_ws(s, r + 1);
        if str_eq(key.as_str(), "search_term") {
            if matches!(st, Some(_)) {
                return None;
            }
            let (val, w) = match parse_string(s, v) {
                Some(v) => v,
                None => {
                    return None;
                },
            };
            grep_after_value(s, p, w, Some(val), fl, cl)
        } else if str_eq(key.as_str(), "filter") {
            if matches!(fl, Some(_)) {
                return None;
            }
            let (val, w) = match parse_string(s, v) {
                Some(v) => v,
                None => {
                    return None;
                },
            };
            grep_after_value(s, p, w, st, Some(val), cl)
        } else if str_eq(key.as_str(), "context_lines") {
            if matches!(cl, Some(_)) {
                return None;
            }
            let (n, w) = match parse_u64(s, v) {
                Some(v) => v,
                None => {
                    return None;
                },
            };
            grep_after_value(s, p, w, st, fl, Some(n))
        } else {
            let w = match skip_value(s, r + 1) {
                Some(x) => x,
                None => {
                    return None;
                },
            };
            if w <= p {
                return None;
            }
            grep_after_value(s, p, w, st, fl, cl)
        }
    }
}

/// Step past what follows one member's value: a comma or the close.
pub fn grep_after_value(
    s: &Vec<char>,
    p: usize,
    w: usize,
    st: Option<String>,
    fl: Option<String>,
    cl: Option<u64>,
) -> (r: Option<(GrepArgs, usize)>)
    requires
        p < w <= s@.len(),
    ensures
        match r {
            Some((args, q)) => spec_grep_after_value(
                s@,
                p as int,
                w as int,
                match st {
                    Some(a) => Some(a@),
                    None => None,
                },
                match fl {
                    Some(b) => Some(b@),
                    None => None,
                },
                match cl {
                    Some(n) => Some(n as int),
                    None => None,
                },
            ) == Some((args@, q as int)) && p < q <= s@.len(),
            None => spec_grep_after_value(
                s@,
                p as int,
                w as int,
                match st {
                    Some(a) => Some(a@),
                    None => None,
                },
                match fl {
                    Some(b) => Some(b@),
                    None => None,
                },
                match cl {
                    Some(n) => Some(n as int),
                    None => None,
                },
            ) is None,
        },
    decreases s@.len() - p, 2int,
{
    let x = skip_ws(s, w);
    if x >= s.len() {
        return None;
    }
    if s[x] == ',' {
        grep_members(s, x + 1, st, fl, cl, false)
    } else if s[x] == '}' {
        match (st, fl) {
            (Some(a), Some(b)) => {
                let n: usize = match cl {
                    Some(n) => {
                        if n > usize::MAX as u64 {
                            return None;
                        }
                        n as usize
                    },
                    None => 2,
                };
                Some((GrepArgs { search_term: a, filter: b, context_lines: n }, x + 1))
            },
            _ => None,
        }
    } else {
        None
    }
}

/// Read a search argument blob.
pub fn parse_grep_args(text: &str) -> (r: Option<GrepArgs>)
    ensures
        match r {
            Some(args) => spec_parse_grep_args(text@) == Some(args@),
            None => spec_parse_grep_args(text@) is None,
        },
{
    let s = str_to_chars(text);
    let p = skip_ws(&s, 0);
    if !(p < s.len() && s[p] == '{') {
        return None;
    }
    let (args, q) = match grep_members(&s, p + 1, None, None, None, true) {
        Some(v) => v,
        None => {
            return None;
        },
    };
    if skip_ws(&s, q) == s.len() {
        Some(args)
    } else {
        None
    }
}

/// What a tool call asks the surroundings to do: read a file, run the
/// search, or answer at once with the diagnostic text of a call that
/// named no known tool or carried an unreadable blob.
#[derive(Debug, Clone)]
pub enum ToolPlan {
    ReadFile(ReadFileArgs),
    Grep(GrepArgs),
    Reply(String),
}

/// Mathematical image of a [`ToolPlan`].
#[verifier::ext_equal]
pub enum ToolPlanV {
    ReadFile(Seq<char>),
    Grep(GrepArgsV),
    Reply(Seq<char>),
}

impl View for ToolPlan {
    type V = ToolPlanV;

    open spec fn view(&self) -> ToolPlanV {
        match self {
            ToolPlan::ReadFile(args) => ToolPlanV::ReadFile(args.filename@),
            ToolPlan::Grep(args) => ToolPlanV::Grep(args@),
            ToolPlan::Reply(text) => ToolPlanV::Reply(text@),
        }
    }
}

/// What executing a named tool on an argument blob amounts to.
pub open spec fn spec_plan_tool(name: Seq<char>, arguments: Seq<char>) -> ToolPlanV {
    if name == "read_file"@ {
        match spec_parse_read_file_args(arguments) {
            Some(filename) => ToolPlanV::ReadFile(filename),
            None => ToolPlanV::Reply(
                "Error parsing read_file arguments: unreadable argument object"@,
            ),
        }
    } else if name == "grep"@ {
        match spec_parse_grep_args(arguments) {
            Some(args) => ToolPlanV::Grep(args),
            None => ToolPlanV::Reply("Error parsing grep arguments: unreadable argument object"@),
        }
    } else {
        ToolPlanV::Reply("Unknown tool: "@ + name)
    }
}

/// Decide what a tool call means: the file to read, the search to run,
/// or the diagnostic to answer with.
pub fn plan_tool_execution(name: &str, arguments: &str) -> (plan: ToolPlan)
    ensures
        plan@ == spec_plan_tool(name@, arguments@),
{
    if str_eq(name, "read_file") {
        match parse_read_file_args(arguments) {
            Some(args) => ToolPlan::ReadFile(args),
            None => ToolPlan::Reply(
                String::from_str("Error parsing read_file arguments: unreadable argument object"),
            ),
        }
    } else if str_eq(name, "grep") {
        match parse_grep_args(arguments) {
            Some(args) => ToolPlan::Grep(args),
            None => ToolPlan::Reply(
                String::from_str("Error parsing grep arguments: unreadable argument object"),
            ),
        }
    } else {
        let mut reply = String::from_str("Unknown tool: ");
        reply.append(name);
        ToolPlan::Reply(reply)
    }
}

} // verus!
