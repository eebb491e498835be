//! Scanner for tool invocations embedded in assistant text, of the form
//! `<tool_name><arg>value</arg>...</tool_name>`: a tag matching a
//! registered tool name opens an invocation; anything else is prose.
use vstd::prelude::*;

use crate::text::{has_at, spec_has_at};
use crate::tool::{args_view, is_ident_char, ToolCallFull, ToolCallV, ToolName};

verus! {

broadcast use crate::views::lemma_vec_deep_view, crate::views::lemma_seq_deep_push, crate::views::lemma_seq_deep_subrange;

/// The length of the identifier starting at `i`.
pub open spec fn spec_ident_len(s: Seq<char>, i: int) -> nat
    decreases s.len() - i,
{
    if i < 0 || i >= s.len() || !is_ident_char(s[i]) {
        0
    } else {
        1 + spec_ident_len(s, i + 1)
    }
}

/// The length of the run of value characters (anything but `<`) at `i`.
pub open spec fn spec_value_len(s: Seq<char>, i: int) -> nat
    decreases s.len() - i,
{
    if i < 0 || i >= s.len() || s[i] == '<' {
        0
    } else {
        1 + spec_value_len(s, i + 1)
    }
}

/// The opening tag at `i`, if one stands there: its identifier and the
/// position just past the `>`.
pub open spec fn spec_tag(s: Seq<char>, i: int) -> Option<(Seq<char>, int)> {
    if 0 <= i < s.len() && s[i] == '<' {
        let l = spec_ident_len(s, i + 1) as int;
        if l > 0 && i + 1 + l < s.len() && s[i + 1 + l] == '>' {
            Some((s.subrange(i + 1, i + 1 + l), i + 2 + l))
        } else {
            None
        }
    } else {
        None
    }
}

/// The closing tag of the given identifier.
pub open spec fn close_pat(nm: Seq<char>) -> Seq<char> {
    "</"@ + nm + ">"@
}

/// The argument list standing at `i`, up to and including the closing
/// tag of `nm`: each argument one `<arg>value</arg>` element, the value
/// free of `<`. Returns the arguments and the position past the close.
pub open spec fn spec_parse_args(s: Seq<char>, i: int, nm: Seq<char>) -> Option<
    (Seq<(Seq<char>, Seq<char>)>, int),
>
    decreases s.len() - i,
{
    if i < 0 || i >= s.len() {
        None
    } else if spec_has_at(s, close_pat(nm), i) {
        Some((Seq::empty(), i + nm.len() + 3))
    } else {
        match spec_tag(s, i) {
            None => None,
            Some((arg, p)) => {
                let vend = p + spec_value_len(s, p);
                if vend >= s.len() {
                    None
                } else if spec_has_at(s, close_pat(arg), vend) {
                    let next = vend + arg.len() + 3;
                    if next <= i || next > s.len() {
                        None
                    } else {
                        match spec_parse_args(s, next, nm) {
                            None => None,
                            Some((rest, end)) => Some(
                                (seq![(arg, s.subrange(p, vend))] + rest, end),
                            ),
                        }
                    }
                } else {
                    None
                }
            },
        }
    }
}

/// Whether the identifier names a registered tool.
pub open spec fn name_in(names: Seq<Seq<char>>, nm: Seq<char>) -> bool {
    exists|k: int| 0 <= k < names.len() && names[k] == nm
}

/// Every tool invocation embedded in `s` from position `i` on, in
/// document order; prose is skipped, and a tag that names a registered
/// tool must parse as an invocation or the whole scan fails.
pub open spec fn spec_scan(s: Seq<char>, names: Seq<Seq<char>>, i: int) -> Option<Seq<ToolCallV>>
    decreases s.len() - i,
{
    if i < 0 {
        None
    } else if i >= s.len() {
        Some(Seq::empty())
    } else {
        let t = spec_tag(s, i);
        if t is Some && name_in(names, t->Some_0.0) {
            let (nm, p) = t->Some_0;
            match spec_parse_args(s, p, nm) {
                None => None,
                Some((args, end)) => {
                    if end <= i || end > s.len() {
                        None
                    } else {
                        match spec_scan(s, names, end) {
                            None => None,
                            Some(rest) => Some(
                                seq![ToolCallV { call_id: None, name: nm, arguments: args }] + rest,
                            ),
                        }
                    }
                },
            }
        } else {
            spec_scan(s, names, i + 1)
        }
    }
}

/// Whether a character may stand in an identifier.
fn ident_char(c: char) -> (r: bool)
    ensures
        r == is_ident_char(c),
{
    ('a' <= c && c <= 'z') || ('A' <= c && c <= 'Z') || ('0' <= c && c <= '9') || c == '_' || c
        == '.' || c == '-'
}

/// The length of the identifier starting at `i`.
fn ident_len(s: &str, i: usize) -> (r: usize)
    ensures
        r == spec_ident_len(s@, i as int),
        i as int + r as int <= s@.len() || r == 0,
    decreases s@.len() - i,
{
    if i >= s.unicode_len() {
        0
    } else if ident_char(s.get_char(i)) {
        1 + ident_len(s, i + 1)
    } else {
        0
    }
}

/// The length of the run of value characters at `i`.
fn value_len(s: &str, i: usize) -> (r: usize)
    ensures
        r == spec_value_len(s@, i as int),
        i as int + r as int <= s@.len() || r == 0,
    decreases s@.len() - i,
{
    if i >= s.unicode_len() {
        0
    } else if s.get_char(i) == '<' {
        0
    } else {
        1 + value_len(s, i + 1)
    }
}

/// The opening tag at `i`, if one stands there.
fn scan_tag(s: &str, i: usize) -> (r: Option<(String, usize)>)
    ensures
        match r {
            Some(t) => spec_tag(s@, i as int) == Some((t.0@, t.1 as int)) && t.1 <= s@.len(),
            None => spec_tag(s@, i as int) is None,
        },
{
    let n = s.unicode_len();
    if i >= n || s.get_char(i) != '<' {
        return None;
    }
    let l = ident_len(s, i + 1);
    if l == 0 {
        return None;
    }
    if i + 1 + l >= n || s.get_char(i + 1 + l) != '>' {
        return None;
    }
    Some((s.substring_char(i + 1, i + 1 + l).to_owned(), i + 2 + l))
}

/// Whether the closing tag of `nm` stands at `i`.
fn close_at(s: &str, nm: &str, i: usize) -> (r: bool)
    ensures
        r == spec_has_at(s@, close_pat(nm@), i as int),
{
    let mut pat = String::from_str("</");
    pat.append(nm);
    pat.append(">");
    proof {
        assert(pat@ =~= close_pat(nm@));
    }
    has_at(s, pat.as_str(), i)
}

/// The argument list standing at `i`, up to the closing tag of `nm`.
fn parse_args(s: &str, i: usize, nm: &str) -> (r: Option<(Vec<(String, String)>, usize)>)
    ensures
        match r {
            Some(t) => spec_parse_args(s@, i as int, nm@) == Some(
                (args_view(t.0@), t.1 as int),
            ) && t.1 <= s@.len(),
            None => spec_parse_args(s@, i as int, nm@) is None,
        },
    decreases s@.len() - i,
{
    proof {
        reveal_strlit("</");
        reveal_strlit(">");
    }
    let n = s.unicode_len();
    if i >= n {
        return None;
    }
    if close_at(s, nm, i) {
        let r: Vec<(String, String)> = Vec::new();
        proof {
            assert(args_view(r@) =~= Seq::<(Seq<char>, Seq<char>)>::empty());
        }
        return Some((r, i + nm.unicode_len() + 3));
    }
    let (arg, p) = match scan_tag(s, i) {
        Some(t) => t,
        None => {
            return None;
        },
    };
    let vl = value_len(s, p);
    let vend = p + vl;
    if vend >= n {
        return None;
    }
    if !close_at(s, arg.as_str(), vend) {
        return None;
    }
    let next = vend + arg.unicode_len() + 3;
    if next <= i || next > n {
        return None;
    }
    match parse_args(s, next, nm) {
        None => None,
        Some((rest, end)) => {
            let value = s.substring_char(p, vend).to_owned();
            let ghost argv = arg@;
            let ghost valv = value@;
            let mut out: Vec<(String, String)> = Vec::new();
            out.push((arg, value));
            proof {
                assert(args_view(out@) =~= seq![(argv, valv)] + args_view(rest@).subrange(0, 0));
            }
            let mut k: usize = 0;
            while k < rest.len()
                invariant
                    0 <= k <= rest@.len(),
                    out@.len() == k + 1,
                    valv == s@.subrange(p as int, p + spec_value_len(s@, p as int)),
                    out@[0].0@ == argv && out@[0].1@ == valv,
                    forall|j: int|
                        1 <= j < out@.len() ==> (#[trigger] out@[j]).0@ == rest@[j - 1].0@
                            && out@[j].1@ == rest@[j - 1].1@,
                decreases rest@.len() - k,
            {
                out.push((rest[k].0.clone(), rest[k].1.clone()));
                k += 1;
            }
            proof {
                assert(args_view(out@) =~= seq![(argv, valv)] + args_view(rest@));
            }
            Some((out, end))
        },
    }
}

/// Whether the identifier names a registered tool.
fn known_name(names: &Vec<ToolName>, nm: &str) -> (r: bool)
    ensures
        r == name_in(names.deep_view(), nm@),
{
    let mut k: usize = 0;
    while k < names.len()
        invariant
            0 <= k <= names@.len(),
            forall|j: int| 0 <= j < k ==> names.deep_view()[j] != nm@,
        decreases names@.len() - k,
    {
        if crate::tool::str_equal(names[k].as_str(), nm) {
            proof {
                assert(names.deep_view()[k as int] == nm@);
            }
            return true;
        }
        k += 1;
    }
    false
}

/// Every tool invocation embedded in `s` from `i` on, in document order.
pub fn scan_embedded(s: &str, names: &Vec<ToolName>, i: usize) -> (r: Option<Vec<ToolCallFull>>)
    ensures
        match r {
            Some(cs) => spec_scan(s@, names.deep_view(), i as int) == Some(cs.deep_view()),
            None => spec_scan(s@, names.deep_view(), i as int) is None,
        },
    decreases s@.len() - i,
{
    let n = s.unicode_len();
    if i >= n {
        let r: Vec<ToolCallFull> = Vec::new();
        proof {
            assert(r.deep_view() =~= Seq::<ToolCallV>::empty());
        }
        return Some(r);
    }
    let tag = scan_tag(s, i);
    let known = match &tag {
        Some(t) => known_name(names, t.0.as_str()),
        None => false,
    };
    if !known {
        return scan_embedded(s, names, i + 1);
    }
    let (nm, p) = match tag {
        Some(t) => t,
        None => {
            return None;
        },
    };
    let (args, end) = match parse_args(s, p, nm.as_str()) {
        Some(t) => t,
        None => {
            return None;
        },
    };
    if end <= i {
        return None;
    }
    match scan_embedded(s, names, end) {
        None => None,
        Some(rest) => {
            let call = ToolCallFull { call_id: None, name: ToolName::new(nm.as_str()), arguments: args };
            let mut out: Vec<ToolCallFull> = Vec::new();
            let ghost cv = call@;
            out.push(call);
            let mut k: usize = 0;
            while k < rest.len()
                invariant
                    0 <= k <= rest@.len(),
                    out@.len() == k + 1,
                    out.deep_view()[0] == cv,
                    forall|j: int|
                        1 <= j < out@.len() ==> #[trigger] out.deep_view()[j] == rest.deep_view()[j
                            - 1],
                decreases rest@.len() - k,
            {
                out.push(rest[k].duplicate());
                k += 1;
            }
            proof {
                assert(out.deep_view() =~= seq![cv] + rest.deep_view());
            }
            Some(out)
        },
    }
}

} // verus!
