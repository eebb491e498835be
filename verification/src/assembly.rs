//! Reassembly of the tool calls of one provider stream: whole calls as
//! they came, fragment groups joined by stream index, and invocations
//! embedded in the joined text — in that order, with duplicate call
//! identifiers rejected.
use vstd::prelude::*;

use crate::chat::{ChatCompletionMessage, ChatMsgV, PartV, PartialV, ToolCallPart};
use crate::embedded::{scan_embedded, spec_scan};
use crate::error::Error;
use crate::tool::{
    args_view, ToolCallFull, ToolCallId, ToolCallPartial, ToolCallV, ToolDefV, ToolDefinition,
    ToolName,
};

verus! {

broadcast use crate::views::lemma_vec_deep_view, crate::views::lemma_seq_deep_push, crate::views::lemma_seq_deep_subrange;

/// What a JSON object holds, entry by entry: the text parses as a JSON
/// object whose keys map to values, each value rendered as its compact
/// JSON text; nothing if the text is not a JSON object.
pub uninterp spec fn spec_object_entries(s: Seq<char>) -> Option<Seq<(Seq<char>, Seq<char>)>>;

/// Relies on serde_json::from_str to parse a JSON object from text, and
/// on serde_json::Value's Display to render each value back to compact
/// JSON text. Both depend on the input text alone.
#[verifier::external_body]
fn parse_object_entries(s: &str) -> (r: Option<Vec<(String, String)>>)
    ensures
        match r {
            Some(v) => spec_object_entries(s@) == Some(args_view(v@)),
            None => spec_object_entries(s@) is None,
        },
{
    match serde_json::from_str::<serde_json::Map<String, serde_json::Value>>(s) {
        Ok(m) => Some(m.into_iter().map(|(k, v)| (k, v.to_string())).collect()),
        Err(_) => None,
    }
}

/// The concatenated fragments of the group `idx`, among the partials
/// from `j` on, in stream order.
pub open spec fn concat_from(ps: Seq<PartialV>, idx: int, j: int) -> Seq<char>
    decreases ps.len() - j,
{
    if j < 0 || j >= ps.len() {
        Seq::empty()
    } else {
        (if ps[j].index == idx {
            ps[j].fragment
        } else {
            Seq::empty()
        }) + concat_from(ps, idx, j + 1)
    }
}

/// The name carried by the first fragment of the group `idx` that names
/// one, among the partials from `j` on.
pub open spec fn name_from(ps: Seq<PartialV>, idx: int, j: int) -> Option<Seq<char>>
    decreases ps.len() - j,
{
    if j < 0 || j >= ps.len() {
        None
    } else if ps[j].index == idx && ps[j].name is Some {
        ps[j].name
    } else {
        name_from(ps, idx, j + 1)
    }
}

/// The call identifier carried by the first fragment of the group `idx`
/// that carries one, among the partials from `j` on.
pub open spec fn id_from(ps: Seq<PartialV>, idx: int, j: int) -> Option<Seq<char>>
    decreases ps.len() - j,
{
    if j < 0 || j >= ps.len() {
        None
    } else if ps[j].index == idx && ps[j].call_id is Some {
        ps[j].call_id
    } else {
        id_from(ps, idx, j + 1)
    }
}

/// How many fragments belong to the group `idx`, among those from `j` on.
pub open spec fn count_from(ps: Seq<PartialV>, idx: int, j: int) -> nat
    decreases ps.len() - j,
{
    if j < 0 || j >= ps.len() {
        0
    } else {
        (if ps[j].index == idx {
            1nat
        } else {
            0nat
        }) + count_from(ps, idx, j + 1)
    }
}

/// The larger of two numbers.
pub open spec fn spec_max(a: int, b: int) -> int {
    if a >= b {
        a
    } else {
        b
    }
}

/// The largest stream index among the partials from `j` on; one less
/// than zero when there are none.
pub open spec fn max_index_from(ps: Seq<PartialV>, j: int) -> int
    decreases ps.len() - j,
{
    if j < 0 || j >= ps.len() {
        -1
    } else {
        spec_max(ps[j].index, max_index_from(ps, j + 1))
    }
}

/// The call assembled from the group `idx`: its name is the first one
/// carried, its identifier the first one carried, and its arguments the
/// JSON object parsed from the concatenated fragments; nothing if no
/// fragment names the tool or the concatenation is not a JSON object.
pub open spec fn group_call(ps: Seq<PartialV>, idx: int) -> Option<ToolCallV> {
    match (name_from(ps, idx, 0), spec_object_entries(concat_from(ps, idx, 0))) {
        (Some(nm), Some(args)) => Some(
            ToolCallV { call_id: id_from(ps, idx, 0), name: nm, arguments: args },
        ),
        _ => None,
    }
}

/// The calls assembled from every group with index below `b`, in
/// ascending index order; nothing if any present group fails.
pub open spec fn groups_upto(ps: Seq<PartialV>, b: int) -> Option<Seq<ToolCallV>>
    decreases b,
{
    if b <= 0 {
        Some(Seq::empty())
    } else {
        match groups_upto(ps, b - 1) {
            None => None,
            Some(gs) => {
                if count_from(ps, b - 1, 0) == 0 {
                    Some(gs)
                } else {
                    match group_call(ps, b - 1) {
                        None => None,
                        Some(c) => Some(gs.push(c)),
                    }
                }
            },
        }
    }
}

/// The calls assembled from all fragment groups, in ascending index
/// order.
pub open spec fn assembled_partials(ps: Seq<PartialV>) -> Option<Seq<ToolCallV>> {
    groups_upto(ps, max_index_from(ps, 0) + 1)
}

/// Joins the fragments of one group and takes its first name and first
/// identifier, scanning the stream once.
fn gather_group(ps: &Vec<ToolCallPartial>, idx: usize) -> (r: (
    Option<ToolName>,
    Option<ToolCallId>,
    String,
))
    ensures
        (match r.0 {
            Some(n) => name_from(ps.deep_view(), idx as int, 0) == Some(n@),
            None => name_from(ps.deep_view(), idx as int, 0) is None,
        }),
        (match r.1 {
            Some(c) => id_from(ps.deep_view(), idx as int, 0) == Some(c@),
            None => id_from(ps.deep_view(), idx as int, 0) is None,
        }),
        r.2@ == concat_from(ps.deep_view(), idx as int, 0),
{
    let ghost psv = ps.deep_view();
    let mut name: Option<ToolName> = None;
    let mut cid: Option<ToolCallId> = None;
    let mut text = String::new();
    let mut j: usize = 0;
    while j < ps.len()
        invariant
            0 <= j <= ps@.len(),
            psv == ps.deep_view(),
            (match name {
                Some(n) => name_from(psv, idx as int, 0) == Some(n@),
                None => name_from(psv, idx as int, 0) == name_from(psv, idx as int, j as int),
            }),
            (match cid {
                Some(c) => id_from(psv, idx as int, 0) == Some(c@),
                None => id_from(psv, idx as int, 0) == id_from(psv, idx as int, j as int),
            }),
            concat_from(psv, idx as int, 0) == text@ + concat_from(psv, idx as int, j as int),
        decreases ps@.len() - j,
    {
        let p = &ps[j];
        proof {
            assert(psv[j as int] == p.deep_view());
        }
        if p.index == idx {
            text.append(p.arguments_fragment.as_str());
            if name.is_none() {
                name = match &p.name {
                    Some(n) => Some(n.duplicate()),
                    None => None,
                };
            }
            if cid.is_none() {
                cid = match &p.call_id {
                    Some(c) => Some(c.duplicate()),
                    None => None,
                };
            }
        }
        j += 1;
    }
    proof {
        assert(concat_from(psv, idx as int, 0) =~= text@);
    }
    (name, cid, text)
}

/// The largest stream index among the partials; nothing when there are
/// none.
fn max_index(ps: &Vec<ToolCallPartial>) -> (r: Option<usize>)
    ensures
        match r {
            Some(m) => max_index_from(ps.deep_view(), 0) == m as int,
            None => max_index_from(ps.deep_view(), 0) == -1,
        },
{
    let ghost psv = ps.deep_view();
    let mut acc: Option<usize> = None;
    let mut j: usize = 0;
    while j < ps.len()
        invariant
            0 <= j <= ps@.len(),
            psv == ps.deep_view(),
            (match acc {
                Some(m) => max_index_from(psv, 0) == spec_max(
                    m as int,
                    max_index_from(psv, j as int),
                ),
                None => max_index_from(psv, 0) == max_index_from(psv, j as int),
            }),
        decreases ps@.len() - j,
    {
        proof {
            assert(psv[j as int] == ps@[j as int].deep_view());
        }
        let v = ps[j].index;
        acc = match acc {
            Some(m) => if v > m {
                Some(v)
            } else {
                Some(m)
            },
            None => Some(v),
        };
        j += 1;
    }
    acc
}

/// Assembles the calls of every fragment group, ascending by index: the
/// group's name is the first one streamed, its arguments parse from the
/// concatenated fragments as a JSON object, or the whole assembly fails.
pub fn assemble_partials(ps: &Vec<ToolCallPartial>) -> (r: Result<Vec<ToolCallFull>, Error>)
    ensures
        (match r {
            Ok(v) => assembled_partials(ps.deep_view()) == Some(v.deep_view()),
            Err(e) => assembled_partials(ps.deep_view()) is None && e matches
                Error::ToolCallParseError(_),
        }),
{
    let ghost psv = ps.deep_view();
    let maxi = match max_index(ps) {
        Some(m) => m,
        None => {
            let out: Vec<ToolCallFull> = Vec::new();
            proof {
                assert(out.deep_view() =~= Seq::<ToolCallV>::empty());
            }
            return Ok(out);
        },
    };
    let mut out: Vec<ToolCallFull> = Vec::new();
    let maxu: u128 = maxi as u128;
    let mut idxc: u128 = 0;
    proof {
        assert(out.deep_view() =~= Seq::<ToolCallV>::empty());
    }
    while idxc <= maxu
        invariant
            0 <= idxc <= maxu + 1,
            maxu == maxi as u128,
            psv == ps.deep_view(),
            max_index_from(psv, 0) == maxi as int,
            groups_upto(psv, idxc as int) == Some(out.deep_view()),
        decreases maxu + 1 - idxc,
    {
        let idx: usize = idxc as usize;
        let (name, cid, text) = gather_group(ps, idx);
        let present = group_present(ps, idx);
        if present {
            let nm = match name {
                Some(n) => n,
                None => {
                    proof {
                        lemma_groups_none(psv, idxc as int + 1, maxi as int + 1);
                    }
                    return Err(Error::ToolCallParseError(String::from_str(
                        "a fragment group names no tool",
                    )));
                },
            };
            let args = match parse_object_entries(text.as_str()) {
                Some(a) => a,
                None => {
                    proof {
                        lemma_groups_none(psv, idxc as int + 1, maxi as int + 1);
                    }
                    return Err(Error::ToolCallParseError(String::from_str(
                        "joined fragments are not a JSON object",
                    )));
                },
            };
            let ghost prev = out.deep_view();
            out.push(ToolCallFull { call_id: cid, name: nm, arguments: args });
            proof {
                assert(out.deep_view() =~= prev.push(
                    group_call(psv, idx as int)->Some_0,
                ));
            }
        }
        idxc += 1;
    }
    Ok(out)
}

/// Whether any fragment belongs to the group `idx`.
fn group_present(ps: &Vec<ToolCallPartial>, idx: usize) -> (r: bool)
    ensures
        r == (count_from(ps.deep_view(), idx as int, 0) > 0),
{
    let ghost psv = ps.deep_view();
    let mut j: usize = 0;
    while j < ps.len()
        invariant
            0 <= j <= ps@.len(),
            psv == ps.deep_view(),
            count_from(psv, idx as int, 0) == count_from(psv, idx as int, j as int),
        decreases ps@.len() - j,
    {
        proof {
            assert(psv[j as int] == ps@[j as int].deep_view());
        }
        if ps[j].index == idx {
            return true;
        }
        j += 1;
    }
    false
}

/// Once one bound fails, every larger bound fails too.
proof fn lemma_groups_none(ps: Seq<PartialV>, b0: int, b: int)
    requires
        groups_upto(ps, b0) is None,
        b0 <= b,
    ensures
        groups_upto(ps, b) is None,
    decreases b - b0,
{
    if b > b0 {
        lemma_groups_none(ps, b0, b - 1);
    }
}


/// The text of a stream: the contents of its first `i` records, joined.
pub open spec fn joined_upto(ms: Seq<ChatMsgV>, i: int) -> Seq<char>
    decreases i,
{
    if i <= 0 || i > ms.len() {
        Seq::empty()
    } else {
        joined_upto(ms, i - 1) + (match ms[i - 1].content {
            Some(c) => c,
            None => Seq::empty(),
        })
    }
}

/// The text of a whole stream.
pub open spec fn joined(ms: Seq<ChatMsgV>) -> Seq<char> {
    joined_upto(ms, ms.len() as int)
}

/// The whole calls among the first `j` entries of one record.
pub open spec fn fulls_parts_upto(parts: Seq<PartV>, j: int) -> Seq<ToolCallV>
    decreases j,
{
    if j <= 0 || j > parts.len() {
        Seq::empty()
    } else {
        fulls_parts_upto(parts, j - 1) + (match parts[j - 1] {
            PartV::Full(c) => seq![c],
            PartV::Partial(_) => Seq::empty(),
        })
    }
}

/// The whole calls of the first `i` records, in stream order.
pub open spec fn fulls_upto(ms: Seq<ChatMsgV>, i: int) -> Seq<ToolCallV>
    decreases i,
{
    if i <= 0 || i > ms.len() {
        Seq::empty()
    } else {
        fulls_upto(ms, i - 1) + fulls_parts_upto(ms[i - 1].tool_call, ms[i - 1].tool_call.len() as int)
    }
}

/// The fragments among the first `j` entries of one record.
pub open spec fn partials_parts_upto(parts: Seq<PartV>, j: int) -> Seq<PartialV>
    decreases j,
{
    if j <= 0 || j > parts.len() {
        Seq::empty()
    } else {
        partials_parts_upto(parts, j - 1) + (match parts[j - 1] {
            PartV::Full(_) => Seq::empty(),
            PartV::Partial(p) => seq![p],
        })
    }
}

/// The fragments of the first `i` records, in stream order.
pub open spec fn partials_upto(ms: Seq<ChatMsgV>, i: int) -> Seq<PartialV>
    decreases i,
{
    if i <= 0 || i > ms.len() {
        Seq::empty()
    } else {
        partials_upto(ms, i - 1) + partials_parts_upto(
            ms[i - 1].tool_call,
            ms[i - 1].tool_call.len() as int,
        )
    }
}

/// Whether two calls among these carry the same present identifier.
pub open spec fn spec_has_dup(cs: Seq<ToolCallV>) -> bool {
    exists|a: int, b: int|
        0 <= a < b < cs.len() && (#[trigger] cs[a]).call_id is Some && cs[a].call_id == (
        #[trigger] cs[b]).call_id
}

/// The first registered tool with the given name, from `j` on.
pub open spec fn find_def(defs: Seq<ToolDefV>, nm: Seq<char>, j: int) -> Option<int>
    decreases defs.len() - j,
{
    if j < 0 || j >= defs.len() {
        None
    } else if defs[j].name == nm {
        Some(j)
    } else {
        find_def(defs, nm, j + 1)
    }
}

/// Whether every argument from `a` on bears one of the given names.
pub open spec fn args_listed(
    args: Seq<(Seq<char>, Seq<char>)>,
    names: Seq<Seq<char>>,
    a: int,
) -> bool
    decreases args.len() - a,
{
    if a < 0 || a >= args.len() {
        true
    } else {
        crate::embedded::name_in(names, args[a].0) && args_listed(args, names, a + 1)
    }
}

/// Whether a call's arguments fit the schema of the first registered
/// tool with its name: every argument name is one the tool declares.
pub open spec fn args_ok(c: ToolCallV, defs: Seq<ToolDefV>) -> bool {
    match find_def(defs, c.name, 0) {
        None => false,
        Some(d) => args_listed(c.arguments, defs[d].arg_names, 0),
    }
}

/// The names of the registered tools.
pub open spec fn def_names(defs: Seq<ToolDefV>) -> Seq<Seq<char>> {
    defs.map_values(|d: ToolDefV| d.name)
}

/// The calls of one stream against one registry: whole calls first, then
/// assembled fragment groups ascending by index, then embedded
/// invocations in document order; nothing if a group fails, the embedded
/// scan fails, an embedded call misses its schema, or two calls share a
/// present identifier.
pub open spec fn spec_assemble(ms: Seq<ChatMsgV>, defs: Seq<ToolDefV>) -> Option<Seq<ToolCallV>> {
    match assembled_partials(partials_upto(ms, ms.len() as int)) {
        None => None,
        Some(groups) => match spec_scan(joined(ms), def_names(defs), 0) {
            None => None,
            Some(xml) => {
                let all = fulls_upto(ms, ms.len() as int) + groups + xml;
                if spec_has_dup(all) || (exists|k: int|
                    0 <= k < xml.len() && !args_ok(#[trigger] xml[k], defs)) {
                    None
                } else {
                    Some(all)
                }
            },
        },
    }
}

/// Whether two of these calls carry the same present identifier.
fn has_dup_ids(cs: &Vec<ToolCallFull>) -> (r: bool)
    ensures
        r == spec_has_dup(cs.deep_view()),
{
    let ghost csv = cs.deep_view();
    let mut a: usize = 0;
    while a < cs.len()
        invariant
            0 <= a <= cs@.len(),
            csv == cs.deep_view(),
            forall|x: int, y: int|
                0 <= x < y < csv.len() && x < a ==> !((#[trigger] csv[x]).call_id is Some && csv[x].call_id
                    == (#[trigger] csv[y]).call_id),
        decreases cs@.len() - a,
    {
        if let Some(ida) = &cs[a].call_id {
            let mut b: usize = a + 1;
            while b < cs.len()
                invariant
                    a < cs@.len(),
                    a + 1 <= b <= cs@.len(),
                    csv == cs.deep_view(),
                    csv[a as int].call_id == Some(ida@),
                    forall|y: int|
                        a < y < b ==> !((#[trigger] csv[y]).call_id == csv[a as int].call_id),
                decreases cs@.len() - b,
            {
                let hit = match &cs[b].call_id {
                    Some(idb) => crate::tool::str_equal(idb.text.as_str(), ida.text.as_str()),
                    None => false,
                };
                if hit {
                    proof {
                        assert(csv[a as int].call_id is Some && csv[a as int].call_id == csv[b as int].call_id);
                    }
                    return true;
                }
                b += 1;
            }
        }
        a += 1;
    }
    false
}

/// The position of the first registered tool with the given name.
fn find_def_at(defs: &Vec<ToolDefinition>, nm: &ToolName) -> (r: Option<usize>)
    ensures
        (match r {
            Some(d) => find_def(defs.deep_view(), nm@, 0) == Some(d as int) && d < defs@.len(),
            None => find_def(defs.deep_view(), nm@, 0) is None,
        }),
{
    let ghost dv = defs.deep_view();
    let mut j: usize = 0;
    while j < defs.len()
        invariant
            0 <= j <= defs@.len(),
            dv == defs.deep_view(),
            find_def(dv, nm@, 0) == find_def(dv, nm@, j as int),
        decreases defs@.len() - j,
    {
        proof {
            assert(dv[j as int] == defs@[j as int].deep_view());
        }
        if defs[j].name.matches(nm) {
            return Some(j);
        }
        j += 1;
    }
    None
}

/// Whether the given name is one of the declared argument names.
fn arg_listed(names: &Vec<String>, nm: &str) -> (r: bool)
    ensures
        r == crate::embedded::name_in(names@.map_values(|s: String| s@), nm@),
{
    let ghost nv = names@.map_values(|s: String| s@);
    let mut k: usize = 0;
    while k < names.len()
        invariant
            0 <= k <= names@.len(),
            nv == names@.map_values(|s: String| s@),
            forall|j: int| 0 <= j < k ==> nv[j] != nm@,
        decreases names@.len() - k,
    {
        if crate::tool::str_equal(names[k].as_str(), nm) {
            proof {
                assert(nv[k as int] == nm@);
            }
            return true;
        }
        k += 1;
    }
    false
}

/// Whether a call's arguments fit the schema of the first registered
/// tool with its name.
fn check_args(c: &ToolCallFull, defs: &Vec<ToolDefinition>) -> (r: bool)
    ensures
        r == args_ok(c@, defs.deep_view()),
{
    let ghost dv = defs.deep_view();
    let d: usize = match find_def_at(defs, &c.name) {
        Some(d) => d,
        None => {
            return false;
        },
    };
    proof {
        assert(dv[d as int] == defs@[d as int].deep_view());
    }
    let def = &defs[d];
    let ghost names = dv[d as int].arg_names;
    let mut a: usize = 0;
    while a < c.arguments.len()
        invariant
            0 <= a <= c.arguments@.len(),
            dv == defs.deep_view(),
            d < defs@.len(),
            find_def(dv, c@.name, 0) == Some(d as int),
            dv[d as int] == defs@[d as int].deep_view(),
            def == &defs@[d as int],
            names == dv[d as int].arg_names,
            args_ok(c@, dv) == args_listed(c@.arguments, names, a as int),
        decreases c.arguments@.len() - a,
    {
        proof {
            assert(c@.arguments[a as int] == (c.arguments@[a as int].0@, c.arguments@[a as int].1@));
        }
        if !arg_listed(&def.arg_names, c.arguments[a].0.as_str()) {
            proof {
                assert(def.arg_names@.map_values(|s: String| s@) =~= names);
            }
            return false;
        }
        proof {
            assert(def.arg_names@.map_values(|s: String| s@) =~= names);
        }
        a += 1;
    }
    true
}

/// The outcome of one finished provider stream: the joined text and the
/// assembled tool calls.
#[derive(Debug)]
pub struct ChatCompletionResult {
    pub content: String,
    pub tool_calls: Vec<ToolCallFull>,
}

/// Assembles the joined text and the tool calls of one finished stream:
/// whole calls as they came, fragment groups joined ascending by index,
/// then invocations embedded in the text; duplicate call identifiers and
/// schema mismatches fail the turn.
pub fn assemble(
    messages: &Vec<ChatCompletionMessage>,
    defs: &Vec<ToolDefinition>,
) -> (r: Result<ChatCompletionResult, Error>)
    ensures
        (r is Ok ==> r->Ok_0.content@ == joined(messages.deep_view())),
        (r is Ok ==> spec_assemble(messages.deep_view(), defs.deep_view()) == Some(
            r->Ok_0.tool_calls.deep_view(),
        )),
        (r is Err ==> spec_assemble(messages.deep_view(), defs.deep_view()) is None),
        (r is Err ==> r->Err_0 matches Error::ToolCallParseError(_)),
{
    let ghost msv = messages.deep_view();
    let ghost dv = defs.deep_view();

    let mut content = String::new();
    let mut fulls: Vec<ToolCallFull> = Vec::new();
    let mut partials: Vec<ToolCallPartial> = Vec::new();
    proof {
        assert(fulls.deep_view() =~= fulls_upto(msv, 0));
        assert(partials.deep_view() =~= partials_upto(msv, 0));
    }
    let mut i: usize = 0;
    while i < messages.len()
        invariant
            0 <= i <= messages@.len(),
            msv == messages.deep_view(),
            content@ == joined_upto(msv, i as int),
            fulls.deep_view() == fulls_upto(msv, i as int),
            partials.deep_view() == partials_upto(msv, i as int),
        decreases messages@.len() - i,
    {
        let m = &messages[i];
        proof {
            assert(msv[i as int] == m.deep_view());
        }
        if let Some(c) = &m.content {
            content.append(c.as_str());
        }
        let ghost pv = m.deep_view().tool_call;
        let mut j: usize = 0;
        while j < m.tool_call.len()
            invariant
                0 <= j <= m.tool_call@.len(),
                pv == m.tool_call.deep_view(),
                msv == messages.deep_view(),
                i < messages@.len(),
                msv[i as int] == m.deep_view(),
                m == &messages@[i as int],
                fulls.deep_view() =~~= fulls_upto(msv, i as int) + fulls_parts_upto(pv, j as int),
                partials.deep_view() =~~= partials_upto(msv, i as int) + partials_parts_upto(
                    pv,
                    j as int,
                ),
            decreases m.tool_call@.len() - j,
        {
            proof {
                assert(pv[j as int] == m.tool_call@[j as int].deep_view());
            }
            match &m.tool_call[j] {
                ToolCallPart::Full(c) => {
                    let ghost prev = fulls.deep_view();
                    fulls.push(c.duplicate());
                    proof {
                        assert(fulls.deep_view() =~~= fulls_upto(msv, i as int)
                            + fulls_parts_upto(pv, j + 1 as int));
                    }
                },
                ToolCallPart::Partial(p) => {
                    partials.push(p.duplicate());
                    proof {
                        assert(partials.deep_view() =~~= partials_upto(msv, i as int)
                            + partials_parts_upto(pv, j + 1 as int));
                    }
                },
            }
            proof {
                assert(fulls.deep_view() =~~= fulls_upto(msv, i as int) + fulls_parts_upto(
                    pv,
                    j + 1 as int,
                ));
                assert(partials.deep_view() =~~= partials_upto(msv, i as int)
                    + partials_parts_upto(pv, j + 1 as int));
            }
            j += 1;
        }
        proof {
            assert(fulls.deep_view() =~~= fulls_upto(msv, i + 1 as int));
            assert(partials.deep_view() =~~= partials_upto(msv, i + 1 as int));
            assert(content@ =~= joined_upto(msv, i + 1 as int));
        }
        i += 1;
    }
    let assembled = match assemble_partials(&partials) {
        Ok(v) => v,
        Err(e) => {
            return Err(e);
        },
    };

    let mut names: Vec<ToolName> = Vec::new();
    let mut k: usize = 0;
    while k < defs.len()
        invariant
            0 <= k <= defs@.len(),
            dv == defs.deep_view(),
            names.deep_view() =~~= def_names(dv).subrange(0, k as int),
        decreases defs@.len() - k,
    {
        proof {
            assert(dv[k as int] == defs@[k as int].deep_view());
        }
        names.push(defs[k].name.duplicate());
        proof {
            assert(names.deep_view() =~~= def_names(dv).subrange(0, k + 1 as int));
        }
        k += 1;
    }
    proof {
        assert(names.deep_view() =~~= def_names(dv));
    }
    let xml = match scan_embedded(content.as_str(), &names, 0) {
        Some(v) => v,
        None => {
            return Err(Error::ToolCallParseError(String::from_str(
                "an embedded invocation does not parse",
            )));
        },
    };

    let mut x: usize = 0;
    while x < xml.len()
        invariant
            0 <= x <= xml@.len(),
            dv == defs.deep_view(),
            msv == messages.deep_view(),
            assembled_partials(partials_upto(msv, msv.len() as int)) == Some(
                assembled.deep_view(),
            ),
            spec_scan(joined(msv), def_names(dv), 0) == Some(xml.deep_view()),
            forall|y: int| 0 <= y < x ==> args_ok(#[trigger] xml.deep_view()[y], dv),
        decreases xml@.len() - x,
    {
        proof {
            assert(xml.deep_view()[x as int] == xml@[x as int]@);
        }
        if !check_args(&xml[x], defs) {
            return Err(Error::ToolCallParseError(String::from_str(
                "an embedded invocation misses its tool schema",
            )));
        }
        x += 1;
    }

    let mut all = fulls;
    let ghost fv = all.deep_view();
    let mut a: usize = 0;
    while a < assembled.len()
        invariant
            0 <= a <= assembled@.len(),
            all.deep_view() =~~= fv + assembled.deep_view().subrange(0, a as int),
        decreases assembled@.len() - a,
    {
        all.push(assembled[a].duplicate());
        proof {
            assert(all.deep_view() =~~= fv + assembled.deep_view().subrange(0, a + 1 as int));
        }
        a += 1;
    }
    let ghost gv = all.deep_view();
    let mut b: usize = 0;
    while b < xml.len()
        invariant
            0 <= b <= xml@.len(),
            all.deep_view() =~~= gv + xml.deep_view().subrange(0, b as int),
        decreases xml@.len() - b,
    {
        all.push(xml[b].duplicate());
        proof {
            assert(all.deep_view() =~~= gv + xml.deep_view().subrange(0, b + 1 as int));
        }
        b += 1;
    }
    proof {
        assert(all.deep_view() =~~= fulls_upto(msv, msv.len() as int) + assembled.deep_view()
            + xml.deep_view());
    }
    if has_dup_ids(&all) {
        return Err(Error::ToolCallParseError(String::from_str(
            "two calls carry the same identifier",
        )));
    }
    Ok(ChatCompletionResult { content, tool_calls: all })
}
} // verus!
