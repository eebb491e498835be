//! Result of one executed tool call, and the XML boundary format it is
//! rendered to and read back from: the element content carries the JSON
//! text of the result verbatim.
use vstd::prelude::*;

use crate::text::{find_lt, has_at, no_lt, spec_has_at};
use crate::tool::{duplicate_call_id, ToolCallId, ToolName};

verus! {

/// What one tool call produced: the tool's name, the provider's call
/// identifier if one was given, the JSON text of the result, and whether
/// the tool failed.
#[derive(Debug, Clone, PartialEq, Eq)]
pub struct ToolResult {
    pub name: ToolName,
    pub call_id: Option<ToolCallId>,
    pub content: String,
    pub is_error: bool,
}

/// Mathematical content of a tool result.
pub ghost struct ToolResultV {
    pub name: Seq<char>,
    pub call_id: Option<Seq<char>>,
    pub content: Seq<char>,
    pub is_error: bool,
}

/// Mathematical content of a tool result value.
pub open spec fn tool_result_view(r: ToolResult) -> ToolResultV {
    ToolResultV {
        name: r.name@,
        call_id: crate::tool::call_id_view(r.call_id),
        content: r.content@,
        is_error: r.is_error,
    }
}

impl DeepView for ToolResult {
    type V = ToolResultV;

    open spec fn deep_view(&self) -> ToolResultV {
        tool_result_view(*self)
    }
}

impl ToolResult {
    /// A successful result for the named tool with the JSON text `null`.
    pub fn new(name: ToolName) -> (r: ToolResult)
        ensures
            r.name == name,
            r.call_id is None,
            r.content@ == "null"@,
            r.is_error == false,
    {
        ToolResult { name, call_id: None, content: String::from_str("null"), is_error: false }
    }

    /// A successful result pre-filled from the call it answers: the
    /// call's name and identifier, with the JSON text `null`.
    pub fn from_call(value: &crate::tool::ToolCallFull) -> (r: ToolResult)
        ensures
            r.name == value.name,
            r.call_id == value.call_id,
            r.content@ == "null"@,
            r.is_error == false,
    {
        ToolResult {
            name: value.name.duplicate(),
            call_id: duplicate_call_id(&value.call_id),
            content: String::from_str("null"),
            is_error: false,
        }
    }

    /// This result, carrying the given call identifier.
    pub fn call_id(self, id: ToolCallId) -> (r: ToolResult)
        ensures
            r == (ToolResult { call_id: Some(id), ..self }),
    {
        ToolResult { call_id: Some(id), ..self }
    }

    /// This result, carrying the given JSON text as its content.
    pub fn content(self, content: String) -> (r: ToolResult)
        ensures
            r == (ToolResult { content: content, ..self }),
    {
        ToolResult { content, ..self }
    }

    /// This result, marked as a failure or a success.
    pub fn is_error(self, is_error: bool) -> (r: ToolResult)
        ensures
            r == (ToolResult { is_error: is_error, ..self }),
    {
        ToolResult { is_error, ..self }
    }

    /// A copy of this result with the same content.
    pub fn duplicate(&self) -> (r: ToolResult)
        ensures
            r == *self,
    {
        ToolResult {
            name: self.name.duplicate(),
            call_id: duplicate_call_id(&self.call_id),
            content: self.content.clone(),
            is_error: self.is_error,
        }
    }

    /// Renders this result in the XML boundary format.
    pub fn to_xml(&self) -> (r: String)
        ensures
            r@ == spec_xml(self.name@, self.content@, self.is_error),
    {
        let mut out = String::new();
        out.append("<tool_result><tool_name>");
        out.append(self.name.as_str());
        out.append("</tool_name>");
        if self.is_error {
            out.append("<error>");
        } else {
            out.append("<success>");
        }
        out.append(self.content.as_str());
        if self.is_error {
            out.append("</error></tool_result>");
        } else {
            out.append("</success></tool_result>");
        }
        proof {
            assert(out@ =~= spec_xml(self.name@, self.content@, self.is_error));
        }
        out
    }

    /// Reads a result back from the XML boundary format.
    ///
    /// The contract states the round trip: whenever the input is the
    /// rendering of a name without `<` together with some content and
    /// error flag, the same triple is recovered.
    pub fn from_xml(s: &str) -> (r: Option<ToolResult>)
        ensures
            match r {
                Some(t) => s@ == spec_xml(t.name@, t.content@, t.is_error) && no_lt(t.name@)
                    && t.call_id is None,
                None => true,
            },
            forall|nm: Seq<char>, ct: Seq<char>, er: bool|
                no_lt(nm) && s@ == #[trigger] spec_xml(nm, ct, er) ==> (match r {
                    Some(t) => t.name@ == nm && t.content@ == ct && t.is_error == er,
                    None => false,
                }),
    {
        proof {
            reveal_strlit("<tool_result><tool_name>");
            reveal_strlit("</tool_name>");
            reveal_strlit("<success>");
            reveal_strlit("<error>");
            reveal_strlit("</success></tool_result>");
            reveal_strlit("</error></tool_result>");
        }
        let n = s.unicode_len();
        if !has_at(s, "<tool_result><tool_name>", 0) {
            proof {
                assert forall|nm: Seq<char>, ct: Seq<char>, er: bool|
                    no_lt(nm) && s@ == #[trigger] spec_xml(nm, ct, er) implies false by {
                    assert(s@.subrange(0, 24) =~= "<tool_result><tool_name>"@);
                }
            }
            return None;
        }
        let name_end = match find_lt(s, 24) {
            Some(j) => j,
            None => {
                proof {
                    assert forall|nm: Seq<char>, ct: Seq<char>, er: bool|
                        no_lt(nm) && s@ == #[trigger] spec_xml(nm, ct, er) implies false by {
                        assert(s@[24 + nm.len() as int] == '<');
                    }
                }
                return None;
            },
        };
        if !has_at(s, "</tool_name>", name_end) {
            proof {
                assert forall|nm: Seq<char>, ct: Seq<char>, er: bool|
                    no_lt(nm) && s@ == #[trigger] spec_xml(nm, ct, er) implies false by {
                    lemma_witness_name_end(s@, nm, ct, er, name_end as int);
                    assert(s@.subrange(name_end as int, name_end + 12) =~= "</tool_name>"@);
                }
            }
            return None;
        }
        let body_tag = name_end + 12;
        let got_success = has_at(s, "<success>", body_tag);
        let got_error = has_at(s, "<error>", body_tag);
        if !got_success && !got_error {
            proof {
                assert forall|nm: Seq<char>, ct: Seq<char>, er: bool|
                    no_lt(nm) && s@ == #[trigger] spec_xml(nm, ct, er) implies false by {
                    lemma_witness_name_end(s@, nm, ct, er, name_end as int);
                    if er {
                        assert(s@.subrange(body_tag as int, body_tag + 7) =~= "<error>"@);
                    } else {
                        assert(s@.subrange(body_tag as int, body_tag + 9) =~= "<success>"@);
                    }
                }
            }
            return None;
        }
        let is_err = !got_success;
        let body_start = if is_err {
            body_tag + 7
        } else {
            body_tag + 9
        };
        let close_len: usize = if is_err {
            22
        } else {
            24
        };
        if n < body_start || n - body_start < close_len {
            proof {
                assert forall|nm: Seq<char>, ct: Seq<char>, er: bool|
                    no_lt(nm) && s@ == #[trigger] spec_xml(nm, ct, er) implies false by {
                    lemma_witness_name_end(s@, nm, ct, er, name_end as int);
                    lemma_witness_flag(s@, nm, ct, er, got_success);
                }
            }
            return None;
        }
        let content_end = n - close_len;
        let close_ok = if is_err {
            has_at(s, "</error></tool_result>", content_end)
        } else {
            has_at(s, "</success></tool_result>", content_end)
        };
        if !close_ok {
            proof {
                assert forall|nm: Seq<char>, ct: Seq<char>, er: bool|
                    no_lt(nm) && s@ == #[trigger] spec_xml(nm, ct, er) implies false by {
                    lemma_witness_name_end(s@, nm, ct, er, name_end as int);
                    lemma_witness_flag(s@, nm, ct, er, got_success);
                    if er {
                        assert(s@.subrange(content_end as int, content_end + 22)
                            =~= "</error></tool_result>"@);
                    } else {
                        assert(s@.subrange(content_end as int, content_end + 24)
                            =~= "</success></tool_result>"@);
                    }
                }
            }
            return None;
        }
        let name_str = s.substring_char(24, name_end);
        let content_str = s.substring_char(body_start, content_end);
        let t = ToolResult {
            name: ToolName::new(name_str),
            call_id: None,
            content: content_str.to_owned(),
            is_error: is_err,
        };
        proof {
            assert(no_lt(t.name@)) by {
                assert forall|i: int| 0 <= i < t.name@.len() implies t.name@[i] != '<' by {
                    assert(t.name@[i] == s@[24 + i]);
                }
            }
            assert(s@ =~= spec_xml(t.name@, t.content@, t.is_error));
            assert forall|nm: Seq<char>, ct: Seq<char>, er: bool|
                no_lt(nm) && s@ == #[trigger] spec_xml(nm, ct, er) implies (t.name@ == nm
                && t.content@ == ct && t.is_error == er) by {
                lemma_xml_injective(t.name@, t.content@, t.is_error, nm, ct, er);
            }
        }
        Some(t)
    }
}

/// The XML rendering of one tool result: the fixed elements around the
/// name, and the content inside a success or an error element.
pub open spec fn spec_xml(name: Seq<char>, content: Seq<char>, is_error: bool) -> Seq<char> {
    "<tool_result><tool_name>"@ + name + "</tool_name>"@ + (if is_error {
        "<error>"@
    } else {
        "<success>"@
    }) + content + (if is_error {
        "</error></tool_result>"@
    } else {
        "</success></tool_result>"@
    })
}

/// In a rendering whose name holds no `<`, the first `<` at or after
/// position 24 stands exactly where the name ends.
proof fn lemma_witness_name_end(s: Seq<char>, nm: Seq<char>, ct: Seq<char>, er: bool, j: int)
    requires
        no_lt(nm),
        s == spec_xml(nm, ct, er),
        24 <= j < s.len(),
        s[j] == '<',
        forall|k: int| 24 <= k < j ==> s[k] != '<',
    ensures
        j == 24 + nm.len(),
{
    reveal_strlit("<tool_result><tool_name>");
    reveal_strlit("</tool_name>");
    reveal_strlit("<success>");
    reveal_strlit("<error>");
    reveal_strlit("</success></tool_result>");
    reveal_strlit("</error></tool_result>");
    assert(s[24 + nm.len() as int] == '<');
    if j < 24 + nm.len() {
        assert(s[j] == nm[j - 24]);
        assert(false);
    }
}

/// In a rendering, the element after the name is `<success>` exactly
/// when the flag is off.
proof fn lemma_witness_flag(s: Seq<char>, nm: Seq<char>, ct: Seq<char>, er: bool, got_success: bool)
    requires
        no_lt(nm),
        s == spec_xml(nm, ct, er),
        got_success == spec_has_at(s, "<success>"@, 24 + nm.len() as int + 12),
    ensures
        got_success == !er,
{
    reveal_strlit("<tool_result><tool_name>");
    reveal_strlit("</tool_name>");
    reveal_strlit("<success>");
    reveal_strlit("<error>");
    reveal_strlit("</success></tool_result>");
    reveal_strlit("</error></tool_result>");
    let bt = 24 + nm.len() as int + 12;
    if er {
        assert(s[bt + 1] == 'e');
        if got_success {
            assert(s.subrange(bt, bt + 9)[1] == 's');
            assert(false);
        }
    } else {
        assert(s.subrange(bt, bt + 9) =~= "<success>"@);
    }
}

/// Two renderings with `<`-free names are equal only if name, content
/// and flag agree: the boundary format is injective.
pub proof fn lemma_xml_injective(
    n1: Seq<char>,
    c1: Seq<char>,
    e1: bool,
    n2: Seq<char>,
    c2: Seq<char>,
    e2: bool,
)
    requires
        no_lt(n1),
        no_lt(n2),
        spec_xml(n1, c1, e1) == spec_xml(n2, c2, e2),
    ensures
        n1 == n2,
        c1 == c2,
        e1 == e2,
{
    reveal_strlit("<tool_result><tool_name>");
    reveal_strlit("</tool_name>");
    reveal_strlit("<success>");
    reveal_strlit("<error>");
    reveal_strlit("</success></tool_result>");
    reveal_strlit("</error></tool_result>");
    let s = spec_xml(n1, c1, e1);
    assert(n1.len() == n2.len()) by {
        if n1.len() < n2.len() {
            assert(s[24 + n1.len() as int] == '<');
            assert(s[24 + n1.len() as int] == n2[n1.len() as int]);
            assert(false);
        }
        if n2.len() < n1.len() {
            assert(s[24 + n2.len() as int] == '<');
            assert(s[24 + n2.len() as int] == n1[n2.len() as int]);
            assert(false);
        }
    }
    assert(n1 =~= n2) by {
        assert forall|i: int| 0 <= i < n1.len() implies n1[i] == n2[i] by {
            assert(s[24 + i] == n1[i]);
            assert(s[24 + i] == n2[i]);
        }
    }
    let bt = 24 + n1.len() as int + 12;
    assert(e1 == e2) by {
        if e1 != e2 {
            if e1 {
                assert(s[bt + 1] == 'e');
                assert(s[bt + 1] == 's');
            } else {
                assert(s[bt + 1] == 's');
                assert(s[bt + 1] == 'e');
            }
            assert(false);
        }
    }
    assert(c1.len() == c2.len()) by {
        assert("<tool_result><tool_name>"@.len() == 24);
        assert("</tool_name>"@.len() == 12);
        assert("<success>"@.len() == 9);
        assert("<error>"@.len() == 7);
        assert("</success></tool_result>"@.len() == 24);
        assert("</error></tool_result>"@.len() == 22);
        assert(spec_xml(n1, c1, e1).len() == spec_xml(n2, c2, e2).len());
    }
    let bs = bt + (if e1 {
        7int
    } else {
        9int
    });
    assert(c1 =~= c2) by {
        assert forall|i: int| 0 <= i < c1.len() implies c1[i] == c2[i] by {
            assert(s[bs + i] == c1[i]);
            assert(s[bs + i] == c2[i]);
        }
    }
}

} // verus!
